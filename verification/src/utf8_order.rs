//! UTF-8 keeps the order of characters: of two names the one that comes
//! first by its characters also comes first by its bytes. So names can be
//! compared byte by byte.

use crate::order::chars_lt;
use vstd::prelude::*;
use vstd::utf8::{
    char_is_scalar, char_u32_cast, encode_scalar, encode_utf8, has_width_1_encoding,
    has_width_2_encoding, has_width_3_encoding, has_width_4_encoding, last_continuation_byte,
    leading_byte_width_1, leading_byte_width_2, leading_byte_width_3, leading_byte_width_4,
    second_last_continuation_byte, third_last_continuation_byte,
};

verus! {

/// Whether `a` comes before `b` when both are read from index `i` on:
/// at the first index where they differ `a` holds the smaller byte, or
/// `a` ends there and `b` does not.
pub open spec fn bytes_lt_from(a: Seq<u8>, b: Seq<u8>, i: int) -> bool
    decreases a.len() - i,
{
    if i >= b.len() {
        false
    } else if i >= a.len() {
        true
    } else if a[i] != b[i] {
        a[i] < b[i]
    } else {
        bytes_lt_from(a, b, i + 1)
    }
}

/// The lexicographic order of byte strings.
pub open spec fn bytes_lt(a: Seq<u8>, b: Seq<u8>) -> bool {
    bytes_lt_from(a, b, 0)
}

/// Of two byte strings at most one comes before the other.
proof fn lemma_bytes_asymmetric(a: Seq<u8>, b: Seq<u8>, i: int)
    ensures
        !(bytes_lt_from(a, b, i) && bytes_lt_from(b, a, i)),
    decreases a.len() - i,
{
    if i < a.len() && i < b.len() && a[i] == b[i] {
        lemma_bytes_asymmetric(a, b, i + 1);
    }
}

/// The first byte of an encoding tells its width: the wider the encoding,
/// the greater the byte.
proof fn lemma_leading_byte_ranges(c: u32)
    by (bit_vector)
    ensures
        has_width_1_encoding(c) ==> leading_byte_width_1(c) <= 0x7F,
        has_width_2_encoding(c) ==> 0xC0 <= leading_byte_width_2(c) <= 0xDF,
        has_width_3_encoding(c) ==> 0xE0 <= leading_byte_width_3(c) <= 0xEF,
        has_width_4_encoding(c) ==> 0xF0 <= leading_byte_width_4(c) <= 0xF7,
{
}

/// Of two scalars of one byte the smaller has the smaller byte.
proof fn lemma_order_width_1(c: u32, d: u32)
    by (bit_vector)
    requires
        has_width_1_encoding(c),
        has_width_1_encoding(d),
        c < d,
    ensures
        leading_byte_width_1(c) < leading_byte_width_1(d),
{
}

/// Of two scalars of two bytes the smaller has the smaller byte where the
/// two encodings first differ.
proof fn lemma_order_width_2(c: u32, d: u32)
    by (bit_vector)
    requires
        has_width_2_encoding(c),
        has_width_2_encoding(d),
        c < d,
    ensures
        leading_byte_width_2(c) < leading_byte_width_2(d) || (leading_byte_width_2(c)
            == leading_byte_width_2(d) && last_continuation_byte(c) < last_continuation_byte(d)),
{
}

/// Of two scalars of three bytes the smaller has the smaller byte where
/// the two encodings first differ.
proof fn lemma_order_width_3(c: u32, d: u32)
    by (bit_vector)
    requires
        has_width_3_encoding(c),
        has_width_3_encoding(d),
        c < d,
    ensures
        leading_byte_width_3(c) < leading_byte_width_3(d) || (leading_byte_width_3(c)
            == leading_byte_width_3(d) && (second_last_continuation_byte(c)
            < second_last_continuation_byte(d) || (second_last_continuation_byte(c)
            == second_last_continuation_byte(d) && last_continuation_byte(c)
            < last_continuation_byte(d)))),
{
}

/// Of two scalars of four bytes the smaller has the smaller byte where the
/// two encodings first differ.
proof fn lemma_order_width_4(c: u32, d: u32)
    by (bit_vector)
    requires
        has_width_4_encoding(c),
        has_width_4_encoding(d),
        c < d,
    ensures
        leading_byte_width_4(c) < leading_byte_width_4(d) || (leading_byte_width_4(c)
            == leading_byte_width_4(d) && (third_last_continuation_byte(c)
            < third_last_continuation_byte(d) || (third_last_continuation_byte(c)
            == third_last_continuation_byte(d) && (second_last_continuation_byte(c)
            < second_last_continuation_byte(d) || (second_last_continuation_byte(c)
            == second_last_continuation_byte(d) && last_continuation_byte(c)
            < last_continuation_byte(d)))))),
{
}

/// Where the encodings of two scalars first differ, the smaller scalar has
/// the smaller byte, and neither encoding ends before that.
spec fn differs_below(x: Seq<u8>, y: Seq<u8>) -> bool {
    exists|k: int|
        0 <= k < x.len() && k < y.len() && #[trigger] x[k] < y[k] && forall|j: int|
            0 <= j < k ==> x[j] == y[j]
}

/// The encoding of the smaller of two scalars has the smaller byte where
/// the two encodings first differ.
proof fn lemma_scalar_order(c: u32, d: u32)
    requires
        vstd::utf8::is_scalar(c),
        vstd::utf8::is_scalar(d),
        c < d,
    ensures
        differs_below(encode_scalar(c), encode_scalar(d)),
{
    let x = encode_scalar(c);
    let y = encode_scalar(d);
    lemma_leading_byte_ranges(c);
    lemma_leading_byte_ranges(d);
    if has_width_1_encoding(d) {
        lemma_order_width_1(c, d);
    } else if has_width_2_encoding(c) && has_width_2_encoding(d) {
        lemma_order_width_2(c, d);
    } else if has_width_3_encoding(c) && has_width_3_encoding(d) {
        lemma_order_width_3(c, d);
    } else if has_width_4_encoding(c) && has_width_4_encoding(d) {
        lemma_order_width_4(c, d);
    }
    // the index of the first byte in which the two encodings differ
    let k: int = if x[0] != y[0] {
        0
    } else if x[1] != y[1] {
        1
    } else if x[2] != y[2] {
        2
    } else {
        3
    };
    assert(x[k] < y[k]);
}

/// Two byte strings that agree up to an index compare as they do from
/// that index on.
proof fn lemma_skip_equal(a: Seq<u8>, b: Seq<u8>, k: int)
    requires
        0 <= k <= a.len(),
        k <= b.len(),
        forall|j: int| 0 <= j < k ==> a[j] == b[j],
    ensures
        bytes_lt(a, b) == bytes_lt_from(a, b, k),
    decreases k,
{
    if k > 0 {
        lemma_skip_equal(a, b, k - 1);
    }
}

/// A prefix that two byte strings share does not change how they compare.
proof fn lemma_shift(p: Seq<u8>, a: Seq<u8>, b: Seq<u8>, i: int)
    requires
        0 <= i,
    ensures
        bytes_lt_from(p + a, p + b, p.len() + i) == bytes_lt_from(a, b, i),
    decreases a.len() - i,
{
    if i < a.len() && i < b.len() && a[i] == b[i] {
        lemma_shift(p, a, b, i + 1);
    }
}

/// Two byte strings whose heads differ compare as the heads do.
proof fn lemma_differing(x: Seq<u8>, ra: Seq<u8>, y: Seq<u8>, rb: Seq<u8>)
    requires
        differs_below(x, y),
    ensures
        bytes_lt(x + ra, y + rb),
{
    let k = choose|k: int|
        0 <= k < x.len() && k < y.len() && #[trigger] x[k] < y[k] && forall|j: int|
            0 <= j < k ==> x[j] == y[j];
    lemma_skip_equal(x + ra, y + rb, k);
}

/// Of two names the one that comes first by its characters comes first by
/// its bytes in UTF-8, and the other way round.
pub proof fn lemma_utf8_keeps_order(a: Seq<char>, b: Seq<char>)
    ensures
        bytes_lt(encode_utf8(a), encode_utf8(b)) == chars_lt(a, b),
    decreases a.len(),
{
    if a.len() > 0 && b.len() > 0 {
        let c = a[0] as u32;
        let d = b[0] as u32;
        let x = encode_scalar(c);
        let y = encode_scalar(d);
        let ra = encode_utf8(a.drop_first());
        let rb = encode_utf8(b.drop_first());
        char_is_scalar(a[0]);
        char_is_scalar(b[0]);
        if a[0] == b[0] {
            lemma_skip_equal(x + ra, x + rb, x.len() as int);
            lemma_shift(x, ra, rb, 0);
            lemma_utf8_keeps_order(a.drop_first(), b.drop_first());
        } else {
            char_u32_cast(a[0], c);
            char_u32_cast(b[0], d);
            if c < d {
                lemma_scalar_order(c, d);
                lemma_differing(x, ra, y, rb);
            } else {
                lemma_scalar_order(d, c);
                lemma_differing(y, rb, x, ra);
                lemma_bytes_asymmetric(x + ra, y + rb, 0);
            }
        }
    } else if b.len() > 0 {
        char_is_scalar(b[0]);
    }
}

} // verus!
