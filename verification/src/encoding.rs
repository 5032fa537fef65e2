//! Byte-length accounting for character sequences.
//!
//! Errors from the pattern parser report the UTF-8 byte offset of the
//! offending character. This module defines that offset in terms of the
//! standard UTF-8 encoding of a character sequence and proves the length
//! bookkeeping the parser and the scan engine rely on.

use vstd::prelude::*;
use vstd::utf8::{encode_scalar, encode_utf8};

verus! {

/// The number of bytes in the UTF-8 encoding of `s`.
pub open spec fn encode_len(s: Seq<char>) -> int {
    encode_utf8(s).len() as int
}

/// The UTF-8 byte offset of the character at position `i` of `s`: the
/// number of bytes taken by the characters before it.
pub open spec fn byte_offset(s: Seq<char>, i: int) -> int {
    encode_len(s.take(i))
}

/// UTF-8 encoding distributes over concatenation.
pub proof fn lemma_encode_utf8_concat(a: Seq<char>, b: Seq<char>)
    ensures
        encode_utf8(a + b) == encode_utf8(a) + encode_utf8(b),
    decreases a.len(),
{
    if a.len() == 0 {
        assert(a + b =~= b);
        assert(encode_utf8(a) + encode_utf8(b) =~= encode_utf8(b));
    } else {
        assert((a + b)[0] == a[0]);
        assert((a + b).drop_first() =~= a.drop_first() + b);
        lemma_encode_utf8_concat(a.drop_first(), b);
        assert(encode_scalar(a[0] as u32) + (encode_utf8(a.drop_first()) + encode_utf8(b)) =~= (
        encode_scalar(a[0] as u32) + encode_utf8(a.drop_first())) + encode_utf8(b));
    }
}

/// Splitting a character sequence splits its encoded byte length.
pub proof fn lemma_encode_len_split(s: Seq<char>, i: int)
    requires
        0 <= i <= s.len(),
    ensures
        encode_len(s) == encode_len(s.take(i)) + encode_len(s.skip(i)),
        encode_len(s.take(i)) <= encode_len(s),
        encode_len(s.skip(i)) <= encode_len(s),
{
    lemma_encode_utf8_concat(s.take(i), s.skip(i));
    assert(s.take(i) + s.skip(i) =~= s);
}

/// Extending a prefix by one character adds that character's encoding.
pub proof fn lemma_byte_offset_step(s: Seq<char>, i: int)
    requires
        0 <= i < s.len(),
    ensures
        byte_offset(s, i + 1) == byte_offset(s, i) + encode_scalar(s[i] as u32).len(),
{
    let single = seq![s[i]];
    lemma_encode_utf8_concat(s.take(i), single);
    assert(s.take(i + 1) =~= s.take(i) + single);
    assert(single.drop_first() =~= Seq::<char>::empty());
    assert(encode_utf8(single) =~= encode_scalar(s[i] as u32)) by {
        assert(encode_utf8(single) == encode_scalar(single[0] as u32) + encode_utf8(
            single.drop_first(),
        ));
    }
}

/// The number of bytes the UTF-8 encoding of `c` takes: 1 to 4,
/// determined by the character's code point.
pub fn char_len_utf8(c: char) -> (l: usize)
    ensures
        l as int == encode_scalar(c as u32).len() as int,
        1 <= l <= 4,
{
    proof {
        vstd::utf8::char_is_scalar(c);
    }
    let u = c as u32;
    if u < 0x80 {
        1
    } else if u < 0x800 {
        2
    } else if u < 0x10000 {
        3
    } else {
        4
    }
}

} // verus!
