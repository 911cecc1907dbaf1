//! The order of names is the order of their bytes: comparing two names
//! character by character, by code point, gives what comparing their UTF-8
//! encodings byte by byte gives.

use vstd::prelude::*;
use vstd::utf8::*;

use crate::order::{lemma_code_points_differ, name_le};

verus! {

/// `a` comes no later than `b`, byte by byte, a proper prefix before what
/// extends it.
pub open spec fn bytes_le(a: Seq<u8>, b: Seq<u8>) -> bool
    decreases a.len(),
{
    if a.len() == 0 {
        true
    } else if b.len() == 0 {
        false
    } else if a[0] == b[0] {
        bytes_le(a.drop_first(), b.drop_first())
    } else {
        a[0] < b[0]
    }
}

/// `a` and `b` agree on their first `at` bytes, and `a` has the lesser byte
/// right behind them.
pub open spec fn differ_at(a: Seq<u8>, b: Seq<u8>, at: int) -> bool {
    &&& 0 <= at < a.len()
    &&& at < b.len()
    &&& a.take(at) == b.take(at)
    &&& a[at] < b[at]
}

/// What two byte strings begin with alike does not tell them apart.
pub proof fn lemma_bytes_le_behind_prefix(prefix: Seq<u8>, a: Seq<u8>, b: Seq<u8>)
    ensures
        bytes_le(prefix + a, prefix + b) == bytes_le(a, b),
    decreases prefix.len(),
{
    if prefix.len() == 0 {
        assert(prefix + a =~= a);
        assert(prefix + b =~= b);
    } else {
        let rest = prefix.drop_first();
        assert((prefix + a).drop_first() =~= rest + a);
        assert((prefix + b).drop_first() =~= rest + b);
        lemma_bytes_le_behind_prefix(rest, a, b);
    }
}

/// The first byte in which two byte strings differ decides their order.
pub proof fn lemma_first_difference_decides(a: Seq<u8>, b: Seq<u8>, at: int)
    requires
        differ_at(a, b, at),
    ensures
        bytes_le(a, b),
        !bytes_le(b, a),
    decreases at,
{
    if at > 0 {
        assert(a[0] == a.take(at)[0]);
        assert(b[0] == b.take(at)[0]);
        assert(a.drop_first().take(at - 1) =~= a.take(at).drop_first());
        assert(b.drop_first().take(at - 1) =~= b.take(at).drop_first());
        lemma_first_difference_decides(a.drop_first(), b.drop_first(), at - 1);
    }
}

proof fn lemma_one_byte_order(c: u32, d: u32)
    by (bit_vector)
    requires
        c < d,
        d <= 0x7F,
    ensures
        ((c & 0x7F) as u8) < ((d & 0x7F) as u8),
{
}

proof fn lemma_two_byte_order(c: u32, d: u32)
    by (bit_vector)
    requires
        0x80 <= c < d,
        d <= 0x7FF,
    ensures
        ({
            let c1 = 0xC0 | ((c >> 6) & 0x1F) as u8;
            let d1 = 0xC0 | ((d >> 6) & 0x1F) as u8;
            let c2 = 0x80 | (c & 0x3F) as u8;
            let d2 = 0x80 | (d & 0x3F) as u8;
            c1 < d1 || (c1 == d1 && c2 < d2)
        }),
{
}

proof fn lemma_three_byte_order(c: u32, d: u32)
    by (bit_vector)
    requires
        0x800 <= c < d,
        d <= 0xFFFF,
    ensures
        ({
            let c1 = 0xE0 | ((c >> 12) & 0x0F) as u8;
            let d1 = 0xE0 | ((d >> 12) & 0x0F) as u8;
            let c2 = 0x80 | ((c >> 6) & 0x3F) as u8;
            let d2 = 0x80 | ((d >> 6) & 0x3F) as u8;
            let c3 = 0x80 | (c & 0x3F) as u8;
            let d3 = 0x80 | (d & 0x3F) as u8;
            c1 < d1 || (c1 == d1 && (c2 < d2 || (c2 == d2 && c3 < d3)))
        }),
{
}

proof fn lemma_four_byte_order(c: u32, d: u32)
    by (bit_vector)
    requires
        0x10000 <= c < d,
        d <= 0x10FFFF,
    ensures
        ({
            let c1 = 0xF0 | ((c >> 18) & 0x7) as u8;
            let d1 = 0xF0 | ((d >> 18) & 0x7) as u8;
            let c2 = 0x80 | ((c >> 12) & 0x3F) as u8;
            let d2 = 0x80 | ((d >> 12) & 0x3F) as u8;
            let c3 = 0x80 | ((c >> 6) & 0x3F) as u8;
            let d3 = 0x80 | ((d >> 6) & 0x3F) as u8;
            let c4 = 0x80 | (c & 0x3F) as u8;
            let d4 = 0x80 | (d & 0x3F) as u8;
            c1 < d1 || (c1 == d1 && (c2 < d2 || (c2 == d2 && (c3 < d3 || (c3 == d3 && c4
                < d4)))))
        }),
{
}

proof fn lemma_leading_byte_ranges(c: u32)
    by (bit_vector)
    ensures
        ((c & 0x7F) as u8) <= 0x7F,
        0xC0 <= (0xC0 | ((c >> 6) & 0x1F) as u8) <= 0xDF,
        0xE0 <= (0xE0 | ((c >> 12) & 0x0F) as u8) <= 0xEF,
        0xF0 <= (0xF0 | ((c >> 18) & 0x7) as u8) <= 0xF7,
{
}

/// Of two scalar values, the lesser has the lesser encoding: the encodings
/// differ in some byte, and the first such byte is less in the lesser value's.
pub proof fn lemma_scalar_order(c: u32, d: u32)
    requires
        is_scalar(c),
        is_scalar(d),
        c < d,
    ensures
        exists|at: int| differ_at(encode_scalar(c), encode_scalar(d), at),
{
    let ec = encode_scalar(c);
    let ed = encode_scalar(d);
    lemma_leading_byte_ranges(c);
    lemma_leading_byte_ranges(d);
    if ec.len() != ed.len() {
        assert(ec.take(0) =~= ed.take(0));
        assert(differ_at(ec, ed, 0));
    } else {
        if has_width_1_encoding(d) {
            lemma_one_byte_order(c, d);
        } else if has_width_2_encoding(d) {
            lemma_two_byte_order(c, d);
        } else if has_width_3_encoding(d) {
            lemma_three_byte_order(c, d);
        } else {
            lemma_four_byte_order(c, d);
        }
        let at = if ec[0] != ed[0] {
            0int
        } else if ec[1] != ed[1] {
            1int
        } else if ec[2] != ed[2] {
            2int
        } else {
            3int
        };
        assert(ec.take(at) =~= ed.take(at));
        assert(differ_at(ec, ed, at));
    }
}

/// The encodings of two names whose first characters are `c` and `d`, with
/// `c` of the lesser code point, are in that order, and not in the other.
proof fn lemma_lesser_first_character(c: char, d: char, a: Seq<u8>, b: Seq<u8>)
    requires
        (c as u32) < (d as u32),
    ensures
        bytes_le(encode_scalar(c as u32) + a, encode_scalar(d as u32) + b),
        !bytes_le(encode_scalar(d as u32) + b, encode_scalar(c as u32) + a),
{
    let ec = encode_scalar(c as u32);
    let ed = encode_scalar(d as u32);
    char_is_scalar(c);
    char_is_scalar(d);
    lemma_scalar_order(c as u32, d as u32);
    let at = choose|at: int| differ_at(ec, ed, at);
    assert((ec + a).take(at) =~= ec.take(at));
    assert((ed + b).take(at) =~= ed.take(at));
    assert(differ_at(ec + a, ed + b, at));
    lemma_first_difference_decides(ec + a, ed + b, at);
}

/// The order of names is the byte order of their UTF-8 encodings.
pub proof fn lemma_name_order_is_byte_order(a: Seq<char>, b: Seq<char>)
    ensures
        name_le(a, b) == bytes_le(encode_utf8(a), encode_utf8(b)),
    decreases a.len(),
{
    if a.len() == 0 {
    } else if b.len() == 0 {
        assert(encode_scalar(a[0] as u32).len() > 0);
    } else {
        let ra = encode_utf8(a.drop_first());
        let rb = encode_utf8(b.drop_first());
        if a[0] == b[0] {
            lemma_name_order_is_byte_order(a.drop_first(), b.drop_first());
            lemma_bytes_le_behind_prefix(encode_scalar(a[0] as u32), ra, rb);
        } else {
            lemma_code_points_differ(a[0], b[0]);
            if (a[0] as u32) < (b[0] as u32) {
                lemma_lesser_first_character(a[0], b[0], ra, rb);
            } else {
                lemma_lesser_first_character(b[0], a[0], rb, ra);
            }
        }
    }
}

} // verus!
