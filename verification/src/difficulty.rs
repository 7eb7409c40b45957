//! The difficulty predicate: a hash meets a difficulty when it begins with
//! that many `'0'` characters.

use vstd::prelude::*;
use vstd::utf8::char_is_scalar;
use vstd::utf8::char_u32_cast;
use vstd::utf8::encode_scalar;
use vstd::utf8::encode_utf8;
use vstd::utf8::has_width_1_encoding;
use vstd::utf8::has_width_2_encoding;
use vstd::utf8::has_width_3_encoding;
use vstd::utf8::is_scalar;

verus! {

/// `text` begins with at least `count` characters `'0'`.
pub open spec fn has_zero_prefix(text: Seq<char>, count: nat) -> bool {
    &&& count <= text.len()
    &&& forall|i: int| 0 <= i < count ==> text[i] == '0'
}

/// `bytes` begins with at least `count` bytes that are the ASCII code of `'0'`.
pub open spec fn has_zero_byte_prefix(bytes: Seq<u8>, count: nat) -> bool {
    &&& count <= bytes.len()
    &&& forall|i: int| 0 <= i < count ==> bytes[i] == 0x30u8
}

/// Any text meets difficulty zero.
pub proof fn lemma_zero_count(text: Seq<char>)
    ensures
        has_zero_prefix(text, 0),
{
}

/// The UTF-8 encoding of a scalar begins with the byte of `'0'` only if the
/// scalar is `'0'`, whose encoding is that one byte.
proof fn lemma_scalar_first_byte(s: u32)
    requires
        is_scalar(s),
    ensures
        encode_scalar(s).len() >= 1,
        encode_scalar(s)[0] == 0x30u8 <==> s == 0x30u32,
        s == 0x30u32 ==> encode_scalar(s) == seq![0x30u8],
{
    if has_width_1_encoding(s) {
        assert(((s & 0x7F) as u8 == 0x30u8) <==> s == 0x30u32) by (bit_vector)
            requires
                s <= 0x7F,
        ;
    } else if has_width_2_encoding(s) {
        assert(0xC0u8 | ((s >> 6) & 0x1F) as u8 != 0x30u8) by (bit_vector);
    } else if has_width_3_encoding(s) {
        assert(0xE0u8 | ((s >> 12) & 0x0F) as u8 != 0x30u8) by (bit_vector);
    } else {
        assert(0xF0u8 | ((s >> 18) & 0x7) as u8 != 0x30u8) by (bit_vector);
    }
}

/// A text begins with `count` characters `'0'` exactly when its UTF-8 bytes
/// begin with `count` bytes of `'0'`.
pub proof fn lemma_zero_prefix_utf8(text: Seq<char>, count: nat)
    ensures
        has_zero_prefix(text, count) <==> has_zero_byte_prefix(encode_utf8(text), count),
    decreases count,
{
    let bytes = encode_utf8(text);
    if count > 0 {
        if text.len() == 0 {
            assert(bytes.len() == 0);
        } else {
            let first = text[0] as u32;
            let rest = text.drop_first();
            char_is_scalar(text[0]);
            lemma_scalar_first_byte(first);
            assert(bytes == encode_scalar(first) + encode_utf8(rest));
            assert(bytes[0] == encode_scalar(first)[0]);
            if text[0] == '0' {
                assert(first == 0x30u32);
                assert(bytes =~= seq![0x30u8] + encode_utf8(rest));
                lemma_zero_prefix_utf8(rest, (count - 1) as nat);
                let fewer = (count - 1) as nat;
                if has_zero_prefix(rest, fewer) {
                    assert forall|i: int| 0 <= i < count implies text[i] == '0' by {
                        if i > 0 {
                            assert(text[i] == rest[i - 1]);
                        }
                    }
                    assert forall|i: int| 0 <= i < count implies bytes[i] == 0x30u8 by {
                        if i > 0 {
                            assert(bytes[i] == encode_utf8(rest)[i - 1]);
                        }
                    }
                } else {
                    if count <= text.len() {
                        let i = choose|i: int| 0 <= i < fewer && rest[i] != '0';
                        assert(text[i + 1] == rest[i]);
                    }
                    if count <= bytes.len() {
                        let i = choose|i: int| 0 <= i < fewer && encode_utf8(rest)[i] != 0x30u8;
                        assert(bytes[i + 1] == encode_utf8(rest)[i]);
                    }
                }
            } else {
                if first == 0x30u32 {
                    char_u32_cast(text[0], first);
                    char_u32_cast('0', 0x30u32);
                }
                assert(bytes[0] != 0x30u8);
            }
        }
    }
}

/// Tells whether `hash` begins with at least `difficulty` characters `'0'`.
pub fn meets_difficulty(hash: &str, difficulty: u64) -> (met: bool)
    ensures
        met == has_zero_prefix(hash@, difficulty as nat),
{
    let bytes: &[u8] = hash.as_bytes();
    proof {
        lemma_zero_prefix_utf8(hash@, difficulty as nat);
    }
    if (bytes.len() as u64) < difficulty {
        return false;
    }
    let mut i: usize = 0;
    while (i as u64) < difficulty
        invariant
            i <= difficulty,
            difficulty <= bytes@.len(),
            forall|j: int| 0 <= j < i ==> bytes@[j] == 0x30u8,
            has_zero_prefix(hash@, difficulty as nat) <==> has_zero_byte_prefix(
                bytes@,
                difficulty as nat,
            ),
        decreases difficulty - i,
    {
        if bytes[i] != 0x30u8 {
            return false;
        }
        i = i + 1;
    }
    true
}

} // verus!
