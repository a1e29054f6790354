//! Verified text utilities: unsigned-integer parsing and separator
//! splitting, the two string operations the position parser and the replay
//! loader are built on.

use vstd::prelude::*;
use vstd::string::StrSliceExecFns;

verus! {

/// Whether `c` is an ASCII decimal digit.
pub open spec fn is_digit(c: char) -> bool {
    48 <= c as int <= 57
}

/// The numeric value of an ASCII digit.
pub open spec fn digit_val(c: char) -> int {
    c as int - 48
}

/// Every character of `s` is an ASCII decimal digit.
pub open spec fn all_digits(s: Seq<char>) -> bool {
    forall|i: int| 0 <= i < s.len() ==> is_digit(#[trigger] s[i])
}

/// The base-10 value of a digit string.
pub open spec fn digits_val(s: Seq<char>) -> int
    decreases s.len(),
{
    if s.len() == 0 {
        0
    } else {
        digits_val(s.drop_last()) * 10 + digit_val(s.last())
    }
}

/// What unsigned-integer parsing accepts: an optional leading plus sign
/// followed by at least one digit, nothing else, with a value that fits
/// the machine word.
pub open spec fn parse_usize_spec(s: Seq<char>) -> Option<int> {
    let digits = if s.len() >= 1 && s[0] == '+' {
        s.subrange(1, s.len() as int)
    } else {
        s
    };
    if digits.len() == 0 {
        None
    } else if !all_digits(digits) {
        None
    } else if digits_val(digits) > usize::MAX {
        None
    } else {
        Some(digits_val(digits))
    }
}

/// A digit string's value is never negative.
pub proof fn lemma_digits_val_nonneg(s: Seq<char>)
    requires
        all_digits(s),
    ensures
        digits_val(s) >= 0,
    decreases s.len(),
{
    if s.len() > 0 {
        lemma_digits_val_nonneg(s.drop_last());
    }
}

/// Extending a digit string never lowers its value.
pub proof fn lemma_digits_val_prefix_le(s: Seq<char>, j: int)
    requires
        all_digits(s),
        0 <= j <= s.len(),
    ensures
        digits_val(s.take(j)) <= digits_val(s),
    decreases s.len() - j,
{
    if j < s.len() {
        assert(s.take(j + 1).drop_last() =~= s.take(j));
        assert(all_digits(s.take(j)));
        lemma_digits_val_nonneg(s.take(j));
        assert(digits_val(s.take(j + 1)) == digits_val(s.take(j)) * 10 + digit_val(s[j]));
        lemma_digits_val_prefix_le(s, j + 1);
    } else {
        assert(s.take(j) =~= s);
    }
}

/// Parses an unsigned integer the way the standard numeric fields of a
/// position string are read: an optional plus sign, then digits, rejecting
/// anything else and any value too large for the machine word.
pub fn parse_usize(s: &str) -> (r: Option<usize>)
    ensures
        match parse_usize_spec(s@) {
            Some(v) => r matches Some(x) && x == v,
            None => r is None,
        },
{
    let n = s.unicode_len();
    let mut i: usize = 0;
    if n >= 1 && s.get_char(0) == '+' {
        i = 1;
    }
    let ghost first: int = i as int;
    let ghost digits = s@.subrange(first, n as int);
    if i == n {
        return None;
    }
    let mut acc: usize = 0;
    while i < n
        invariant
            0 <= first <= i <= n,
            n == s@.len(),
            first == (if s@.len() >= 1 && s@[0] == '+' {
                1int
            } else {
                0int
            }),
            digits == s@.subrange(first, n as int),
            digits.len() == n - first,
            all_digits(s@.subrange(first, i as int)),
            acc == digits_val(s@.subrange(first, i as int)),
        decreases n - i,
    {
        let c = s.get_char(i);
        let v = c as u32;
        if v < 48 || v > 57 {
            proof {
                assert(s@.subrange(first, n as int)[i - first] == s@[i as int]);
                assert(!all_digits(digits));
            }
            return None;
        }
        let d = (v - 48) as usize;
        let wide = (acc as u128) * 10 + (d as u128);
        proof {
            assert(s@.subrange(first, i + 1).drop_last() =~= s@.subrange(first, i as int));
            assert(digits_val(s@.subrange(first, i + 1)) == acc * 10 + d);
        }
        if wide > usize::MAX as u128 {
            proof {
                assert(s@.subrange(0, s@.len() as int) =~= s@);
                assert(all_digits(s@.subrange(first, i + 1)));
                assert(forall|j: int|
                    0 <= j < digits.len() ==> digits[j] == s@.subrange(first, n as int)[j]);
                if all_digits(digits) {
                    assert(digits.take(i + 1 - first) =~= s@.subrange(first, i + 1));
                    lemma_digits_val_prefix_le(digits, i + 1 - first);
                    assert(digits_val(digits) > usize::MAX);
                }
            }
            return None;
        }
        acc = wide as usize;
        i += 1;
    }
    proof {
        assert(s@.subrange(0, s@.len() as int) =~= s@);
        assert(s@.subrange(first, i as int) =~= digits);
    }
    Some(acc)
}

/// The index of the first occurrence of `sep` in `s`, or the length of
/// `s` when the separator is absent.
pub open spec fn find_sep(s: Seq<char>, sep: char) -> int
    decreases s.len(),
{
    if s.len() == 0 {
        0
    } else if s[0] == sep {
        0
    } else {
        1 + find_sep(s.drop_first(), sep)
    }
}

/// `find_sep` names the unique boundary: no separator lies before it, and
/// a separator stands on it unless it is the end of the string.
pub proof fn lemma_find_sep_at(s: Seq<char>, sep: char, k: int)
    requires
        0 <= k <= s.len(),
        forall|j: int| 0 <= j < k ==> s[j] != sep,
        k < s.len() ==> s[k] == sep,
    ensures
        find_sep(s, sep) == k,
    decreases k,
{
    if k == 0 {
    } else {
        assert(s[0] != sep);
        lemma_find_sep_at(s.drop_first(), sep, k - 1);
    }
}

/// The fields of `s` between occurrences of `sep`, in order; empty fields
/// are kept, and a string without the separator is one field.
pub open spec fn split_spec(s: Seq<char>, sep: char) -> Seq<Seq<char>>
    decreases s.len(),
    via split_spec_dec
{
    let i = find_sep(s, sep);
    if i == s.len() {
        seq![s]
    } else {
        seq![s.take(i)] + split_spec(s.skip(i + 1), sep)
    }
}

#[via_fn]
proof fn split_spec_dec(s: Seq<char>, sep: char) {
    lemma_find_sep_bounds(s, sep);
}

/// The first-occurrence index always lies within the string.
pub proof fn lemma_find_sep_bounds(s: Seq<char>, sep: char)
    ensures
        0 <= find_sep(s, sep) <= s.len(),
        forall|j: int| 0 <= j < find_sep(s, sep) ==> s[j] != sep,
        find_sep(s, sep) < s.len() ==> s[find_sep(s, sep)] == sep,
    decreases s.len(),
{
    if s.len() > 0 && s[0] != sep {
        lemma_find_sep_bounds(s.drop_first(), sep);
        assert(forall|j: int| 1 <= j < find_sep(s, sep) ==> s[j] == s.drop_first()[j - 1]);
    }
}

/// Splitting off the first field: when no separator stands before `i` and
/// one stands on it, the fields are the prefix followed by the fields of
/// the remainder.
pub proof fn lemma_split_step(s: Seq<char>, sep: char, start: int, i: int)
    requires
        0 <= start <= i < s.len(),
        forall|j: int| start <= j < i ==> s[j] != sep,
        s[i] == sep,
    ensures
        split_spec(s.skip(start), sep) == seq![s.subrange(start, i)] + split_spec(
            s.skip(i + 1),
            sep,
        ),
{
    let t = s.skip(start);
    assert(forall|j: int| 0 <= j < i - start ==> t[j] == s[start + j] && t[j] != sep);
    lemma_find_sep_at(t, sep, i - start);
    assert(t.take(i - start) =~= s.subrange(start, i));
    assert(t.skip(i - start + 1) =~= s.skip(i + 1));
}

/// The last field: when no separator follows `start`, the remainder is a
/// single field.
pub proof fn lemma_split_last(s: Seq<char>, sep: char, start: int)
    requires
        0 <= start <= s.len(),
        forall|j: int| start <= j < s.len() ==> s[j] != sep,
    ensures
        split_spec(s.skip(start), sep) == seq![s.subrange(start, s.len() as int)],
{
    let t = s.skip(start);
    assert(forall|j: int| 0 <= j < t.len() ==> t[j] == s[start + j] && t[j] != sep);
    lemma_find_sep_at(t, sep, t.len() as int);
    assert(t =~= s.subrange(start, s.len() as int));
}

/// Splits `s` on every occurrence of `sep`, keeping empty fields, exactly
/// as [`split_spec`] describes.
pub fn split_str<'a>(s: &'a str, sep: char) -> (r: Vec<&'a str>)
    ensures
        r.deep_view() == split_spec(s@, sep),
{
    let n = s.unicode_len();
    let mut parts: Vec<&str> = Vec::new();
    let mut start: usize = 0;
    let mut i: usize = 0;
    proof {
        assert(s@.skip(0) =~= s@);
        assert(parts.deep_view() =~= Seq::<Seq<char>>::empty());
        assert(parts.deep_view() + split_spec(s@, sep) =~= split_spec(s@, sep));
    }
    while i < n
        invariant
            start <= i <= n,
            n == s@.len(),
            forall|j: int| start <= j < i ==> s@[j] != sep,
            split_spec(s@, sep) == parts.deep_view() + split_spec(s@.skip(start as int), sep),
        decreases n - i,
    {
        let c = s.get_char(i);
        if c == sep {
            let tok = s.substring_char(start, i);
            let ghost old_parts = parts.deep_view();
            parts.push(tok);
            proof {
                lemma_split_step(s@, sep, start as int, i as int);
                assert(parts.deep_view() =~= old_parts + seq![tok@]);
                assert(old_parts + seq![tok@] + split_spec(s@.skip(i + 1), sep) =~= old_parts + (
                seq![tok@] + split_spec(s@.skip(i + 1), sep)));
            }
            start = i + 1;
        }
        i += 1;
    }
    let tok = s.substring_char(start, n);
    let ghost old_parts = parts.deep_view();
    parts.push(tok);
    proof {
        lemma_split_last(s@, sep, start as int);
        assert(parts.deep_view() =~= old_parts + seq![tok@]);
    }
    parts
}

} // verus!
