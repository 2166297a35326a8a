//! Byte classes and left-to-right scanning of byte sequences.

use vstd::prelude::*;
use vstd::string::{StrSliceExecFns, StringSliceAdditionalSpecFns};
use vstd::utf8::encode_utf8;

verus! {

/// An ASCII digit.
pub open spec fn spec_is_digit(b: u8) -> bool {
    0x30 <= b <= 0x39
}

/// A lower-case ASCII letter.
pub open spec fn spec_is_lower(b: u8) -> bool {
    0x61 <= b <= 0x7a
}

/// An upper-case ASCII letter.
pub open spec fn spec_is_upper(b: u8) -> bool {
    0x41 <= b <= 0x5a
}

/// An ASCII letter.
pub open spec fn spec_is_alpha(b: u8) -> bool {
    spec_is_lower(b) || spec_is_upper(b)
}

/// An ASCII letter or digit.
pub open spec fn spec_is_alnum(b: u8) -> bool {
    spec_is_alpha(b) || spec_is_digit(b)
}

/// Decides whether `b` is an ASCII digit.
pub fn is_digit(b: u8) -> (res: bool)
    ensures
        res == spec_is_digit(b),
{
    0x30 <= b && b <= 0x39
}

/// Decides whether `b` is a lower-case ASCII letter.
pub fn is_lower(b: u8) -> (res: bool)
    ensures
        res == spec_is_lower(b),
{
    0x61 <= b && b <= 0x7a
}

/// Decides whether `b` is an ASCII letter.
pub fn is_alpha(b: u8) -> (res: bool)
    ensures
        res == spec_is_alpha(b),
{
    is_lower(b) || (0x41 <= b && b <= 0x5a)
}

/// Decides whether `b` is an ASCII letter or digit.
pub fn is_alnum(b: u8) -> (res: bool)
    ensures
        res == spec_is_alnum(b),
{
    is_alpha(b) || is_digit(b)
}

/// The index of the first byte of `s` that equals `sep`, or the length of `s`
/// where none does.
pub open spec fn first_index(s: Seq<u8>, sep: u8) -> int
    decreases s.len(),
{
    if s.len() == 0 || s[0] == sep {
        0
    } else {
        1 + first_index(s.drop_first(), sep)
    }
}

/// `first_index` is the one index with no `sep` before it and `sep` at it.
pub proof fn lemma_first_index(s: Seq<u8>, sep: u8)
    ensures
        0 <= first_index(s, sep) <= s.len(),
        forall|i: int| 0 <= i < first_index(s, sep) ==> #[trigger] s[i] != sep,
        first_index(s, sep) < s.len() ==> s[first_index(s, sep)] == sep,
    decreases s.len(),
{
    if s.len() == 0 || s[0] == sep {
    } else {
        let t = s.drop_first();
        lemma_first_index(t, sep);
        assert forall|i: int| 0 <= i < first_index(s, sep) implies #[trigger] s[i] != sep by {
            if i > 0 {
                assert(s[i] == t[i - 1]);
            }
        }
    }
}

/// An index with no `sep` before it, and `sep` at it or the end of `s`, is
/// `first_index`.
pub proof fn lemma_first_index_is(s: Seq<u8>, sep: u8, k: int)
    requires
        0 <= k <= s.len(),
        forall|i: int| 0 <= i < k ==> #[trigger] s[i] != sep,
        k < s.len() ==> s[k] == sep,
    ensures
        first_index(s, sep) == k,
{
    lemma_first_index(s, sep);
    let f = first_index(s, sep);
    if f < k {
        assert(s[f] != sep);
    } else if k < f {
        assert(s[k] != sep);
    }
}

/// Whether `sep` occurs in `s`.
pub open spec fn has_byte(s: Seq<u8>, sep: u8) -> bool {
    0 <= first_index(s, sep) < s.len()
}

/// The bytes of `s` before the first `sep`: all of `s` where there is none.
pub open spec fn head_of(s: Seq<u8>, sep: u8) -> Seq<u8> {
    s.subrange(0, first_index(s, sep))
}

/// The bytes of `s` after the first `sep`.
pub open spec fn tail_of(s: Seq<u8>, sep: u8) -> Seq<u8>
    recommends
        has_byte(s, sep),
{
    s.subrange(first_index(s, sep) + 1, s.len() as int)
}

/// Splits `slice` at the first byte equal to `sep`.
pub fn split_at_byte<'a>(slice: &'a [u8], sep: u8) -> (res: Option<(&'a [u8], &'a [u8])>)
    ensures
        res is Some <==> has_byte(slice@, sep),
        res matches Some((head, tail)) ==> head@ == head_of(slice@, sep) && tail@ == tail_of(
            slice@,
            sep,
        ),
{
    let pred = |b: &u8| -> (r: bool)
        ensures
            r == (*b == sep),
        { *b == sep };
    let res = crate::split_once(slice, pred);
    proof {
        lemma_first_index(slice@, sep);
        match res {
            Some((head, tail)) => {
                lemma_first_index_is(slice@, sep, head@.len() as int);
            },
            None => {
                lemma_first_index_is(slice@, sep, slice@.len() as int);
            },
        }
    }
    res
}

/// The segments of `s` between the occurrences of `sep`, from left to right.
/// A text without `sep` is one segment; two `sep` in a row enclose an empty
/// segment.
pub open spec fn segments(s: Seq<u8>, sep: u8) -> Seq<Seq<u8>>
    decreases s.len(),
{
    if has_byte(s, sep) {
        seq![head_of(s, sep)] + segments(tail_of(s, sep), sep)
    } else {
        seq![s]
    }
}

/// Every text has at least one segment.
pub proof fn lemma_segments_nonempty(s: Seq<u8>, sep: u8)
    ensures
        segments(s, sep).len() >= 1,
    decreases s.len(),
{
    if has_byte(s, sep) {
        lemma_segments_nonempty(tail_of(s, sep), sep);
    }
}

/// Every byte of `s` other than `sep` lies in one of the segments of `s`:
/// the result is the index of that segment and the index of the byte in it.
pub proof fn lemma_segments_cover(s: Seq<u8>, sep: u8, i: int) -> (at: (int, int))
    requires
        0 <= i < s.len(),
        s[i] != sep,
    ensures
        0 <= at.0 < segments(s, sep).len(),
        0 <= at.1 < segments(s, sep)[at.0].len(),
        segments(s, sep)[at.0][at.1] == s[i],
    decreases s.len(),
{
    lemma_first_index(s, sep);
    let f = first_index(s, sep);
    if has_byte(s, sep) && i > f {
        let r = lemma_segments_cover(tail_of(s, sep), sep, i - f - 1);
        (r.0 + 1, r.1)
    } else {
        (0, i)
    }
}

/// The index of the last byte of `s` that equals `sep`: `None` where none
/// does.
pub fn last_index_of(s: &[u8], sep: u8) -> (res: Option<usize>)
    ensures
        match res {
            Some(k) => k < s@.len() && s@[k as int] == sep && forall|j: int|
                k < j < s@.len() ==> #[trigger] s@[j] != sep,
            None => forall|j: int| 0 <= j < s@.len() ==> #[trigger] s@[j] != sep,
        },
{
    let mut i: usize = s.len();
    while i > 0
        invariant
            i <= s@.len(),
            forall|j: int| i <= j < s@.len() ==> #[trigger] s@[j] != sep,
        decreases i,
    {
        i -= 1;
        if s[i] == sep {
            return Some(i);
        }
    }
    None
}

/// What follows the last `sep` of `s` is the last segment of `s`.
pub proof fn lemma_last_segment(s: Seq<u8>, sep: u8, k: int)
    requires
        0 <= k < s.len(),
        s[k] == sep,
        forall|j: int| k < j < s.len() ==> #[trigger] s[j] != sep,
    ensures
        segments(s, sep).len() >= 2,
        segments(s, sep).last() == s.subrange(k + 1, s.len() as int),
    decreases s.len(),
{
    lemma_first_index(s, sep);
    let f = first_index(s, sep);
    let tail = tail_of(s, sep);
    assert(f <= k) by {
        if k < f {
            assert(s[k] != sep);
        }
    }
    lemma_segments_nonempty(tail, sep);
    if f == k {
        lemma_first_index_is(tail, sep, tail.len() as int);
    } else {
        lemma_last_segment(tail, sep, k - f - 1);
        assert(tail.subrange(k - f, tail.len() as int) =~= s.subrange(k + 1, s.len() as int));
    }
}

/// Every byte is an ASCII byte.
pub open spec fn is_ascii_bytes(s: Seq<u8>) -> bool {
    forall|i: int| 0 <= i < s.len() ==> #[trigger] s[i] < 0x80
}

/// Decides whether every byte of `s` is an ASCII byte.
pub fn is_ascii_slice(s: &[u8]) -> (res: bool)
    ensures
        res == is_ascii_bytes(s@),
{
    let n: usize = s.len();
    let mut i: usize = 0;
    while i < n
        invariant
            n == s@.len(),
            i <= n,
            forall|j: int| 0 <= j < i ==> #[trigger] s@[j] < 0x80,
        decreases n - i,
    {
        if s[i] >= 0x80 {
            return false;
        }
        i += 1;
    }
    true
}

/// A text is ASCII exactly when every byte of its UTF-8 encoding is.
pub proof fn lemma_ascii_text_ascii_bytes(chars: Seq<char>)
    ensures
        vstd::utf8::is_ascii_chars(chars) <==> is_ascii_bytes(encode_utf8(chars)),
    decreases chars.len(),
{
    if vstd::utf8::is_ascii_chars(chars) {
        vstd::utf8::is_ascii_chars_encode_utf8(chars);
        let bytes = encode_utf8(chars);
        assert forall|i: int| 0 <= i < bytes.len() implies #[trigger] bytes[i] < 0x80 by {
            assert(chars[i] as u8 == bytes[i]);
        }
    }
    if is_ascii_bytes(encode_utf8(chars)) && chars.len() > 0 {
        vstd::utf8::char_is_scalar(chars[0]);
        let c = chars[0] as u32;
        let rest = chars.drop_first();
        let first = vstd::utf8::encode_scalar(c);
        let bytes = encode_utf8(chars);
        assert(bytes =~= first + encode_utf8(rest));
        assert(bytes[0] == first[0]);
        assert(bytes[0] < 0x80);
        assert((0xC0u8 | (((c >> 6) & 0x1F) as u8)) >= 0x80u8) by (bit_vector);
        assert((0xE0u8 | (((c >> 12) & 0x0F) as u8)) >= 0x80u8) by (bit_vector);
        assert((0xF0u8 | (((c >> 18) & 0x07) as u8)) >= 0x80u8) by (bit_vector);
        assert(vstd::utf8::has_width_1_encoding(c));
        assert(first.len() == 1);
        assert forall|i: int| 0 <= i < encode_utf8(rest).len() implies #[trigger] encode_utf8(
            rest,
        )[i] < 0x80 by {
            assert(encode_utf8(rest)[i] == bytes[i + 1]);
        }
        lemma_ascii_text_ascii_bytes(rest);
        vstd::utf8::char_u32_cast(chars[0], c);
        assert(chars[0] as int == c as int);
        assert forall|i: int| 0 <= i < chars.len() implies '\0' <= #[trigger] chars[i]
            <= '\u{7f}' by {
            if i > 0 {
                assert(chars[i] == rest[i - 1]);
                assert('\0' <= rest[i - 1] <= '\u{7f}');
            }
        }
    }
}

/// The bytes of `s` from `from` up to `to`, for a text of ASCII characters.
pub fn ascii_substring<'a>(s: &'a str, from: usize, to: usize) -> (res: &'a str)
    requires
        vstd::string::is_ascii(s),
        from <= to <= s.spec_bytes().len(),
    ensures
        res.spec_bytes() == s.spec_bytes().subrange(from as int, to as int),
        res@ == s@.subrange(from as int, to as int),
        vstd::string::is_ascii(res),
{
    broadcast use vstd::string::is_ascii_spec_bytes;

    let res = s.substring_ascii(from, to);
    assert(res.spec_bytes() =~= s.spec_bytes().subrange(from as int, to as int));
    res
}

} // verus!
