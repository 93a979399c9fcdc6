//! Text in the form the editor takes it: the bytes of its UTF-8 encoding,
//! closed by one NUL byte.

use vstd::prelude::*;
use vstd::utf8::decode_utf8;
use vstd::utf8::encode_scalar;
use vstd::utf8::encode_utf8;

verus! {

/// No character of `text` is NUL: a C string can hold `text` whole.
pub open spec fn nul_free(text: Seq<char>) -> bool {
    forall|i: int| 0 <= i < text.len() ==> text[i] != '\0'
}

/// No byte of `bytes` is NUL.
pub open spec fn no_nul_byte(bytes: Seq<u8>) -> bool {
    forall|i: int| 0 <= i < bytes.len() ==> bytes[i] != 0
}

/// The C string that holds `text`: the bytes of its UTF-8 encoding, then the
/// NUL that ends them.
pub open spec fn c_bytes(text: Seq<char>) -> Seq<u8> {
    encode_utf8(text).push(0u8)
}

/// The one byte of a character below 128 is zero only for the character zero.
proof fn lemma_single_byte(scalar: u32)
    by (bit_vector)
    requires
        scalar <= 0x7F,
    ensures
        ((scalar & 0x7F) as u8 == 0) <==> scalar == 0,
{
}

/// A byte with a marker bit set is not zero, whatever its data bits.
proof fn lemma_marked_bytes(scalar: u32)
    by (bit_vector)
    ensures
        0xC0u8 | ((scalar >> 6) & 0x1F) as u8 != 0,
        0xE0u8 | ((scalar >> 12) & 0x0F) as u8 != 0,
        0xF0u8 | ((scalar >> 18) & 0x7) as u8 != 0,
        0x80u8 | (scalar & 0x3F) as u8 != 0,
        0x80u8 | ((scalar >> 6) & 0x3F) as u8 != 0,
        0x80u8 | ((scalar >> 12) & 0x3F) as u8 != 0,
{
}

/// The encoding of one character holds a NUL byte only where the character
/// is NUL.
proof fn lemma_char_bytes(c: char)
    ensures
        no_nul_byte(encode_scalar(c as u32)) <==> c != '\0',
{
    let scalar = c as u32;
    lemma_marked_bytes(scalar);
    if scalar <= 0x7F {
        lemma_single_byte(scalar);
        assert(encode_scalar(scalar)[0] == (scalar & 0x7F) as u8);
    }
}

/// UTF-8 puts a NUL byte only where the text has a NUL character.
pub proof fn lemma_encoding_keeps_nul(text: Seq<char>)
    ensures
        no_nul_byte(encode_utf8(text)) <==> nul_free(text),
    decreases text.len(),
{
    if text.len() > 0 {
        let head = encode_scalar(text[0] as u32);
        let tail = encode_utf8(text.drop_first());
        lemma_char_bytes(text[0]);
        lemma_encoding_keeps_nul(text.drop_first());
        assert(encode_utf8(text) == head + tail);
        if nul_free(text) {
            assert forall|i: int| 0 <= i < text.drop_first().len() implies text.drop_first()[i]
                != '\0' by {
                assert(text.drop_first()[i] == text[i + 1]);
            }
            assert forall|i: int| 0 <= i < (head + tail).len() implies (head + tail)[i] != 0 by {
                if i >= head.len() {
                    assert((head + tail)[i] == tail[i - head.len()]);
                }
            }
        }
        if no_nul_byte(head + tail) {
            assert forall|i: int| 0 <= i < head.len() implies head[i] != 0 by {
                assert(head[i] == (head + tail)[i]);
            }
            assert forall|i: int| 0 <= i < tail.len() implies tail[i] != 0 by {
                assert(tail[i] == (head + tail)[i + head.len()]);
            }
            assert forall|i: int| 0 <= i < text.len() implies text[i] != '\0' by {
                if i > 0 {
                    assert(text[i] == text.drop_first()[i - 1]);
                }
            }
        }
    }
}

/// `text` as a C string, or no value where a character of `text` is NUL: a C
/// string would end there and lose what follows.
pub fn c_string(text: &str) -> (c: Option<Vec<u8>>)
    ensures
        c is Some <==> nul_free(text@),
        c is Some ==> c.unwrap()@ == c_bytes(text@),
{
    let bytes = text.as_bytes();
    proof {
        lemma_encoding_keeps_nul(text@);
    }
    let mut c: Vec<u8> = Vec::new();
    for i in 0..bytes.len()
        invariant
            bytes@ == encode_utf8(text@),
            no_nul_byte(bytes@) <==> nul_free(text@),
            c@ == bytes@.take(i as int),
            no_nul_byte(c@),
    {
        if bytes[i] == 0 {
            assert(bytes@[i as int] == 0);
            return None;
        }
        c.push(bytes[i]);
    }
    assert(bytes@.take(bytes@.len() as int) =~= bytes@);
    c.push(0);
    Some(c)
}

/// The C string of NUL-free text ends at its last byte and nowhere before:
/// read up to the first NUL, it gives the text's bytes back.
pub proof fn lemma_c_bytes_end_once(text: Seq<char>)
    requires
        nul_free(text),
    ensures
        c_bytes(text).len() == encode_utf8(text).len() + 1,
        c_bytes(text).last() == 0,
        c_bytes(text).drop_last() == encode_utf8(text),
        no_nul_byte(c_bytes(text).drop_last()),
{
    lemma_encoding_keeps_nul(text);
    assert(c_bytes(text).drop_last() =~= encode_utf8(text));
}

/// C strings tell texts apart: two texts with the same C string are the
/// same text, so what the editor is handed stands for one candidate only.
pub proof fn lemma_c_bytes_tell_texts_apart(a: Seq<char>, b: Seq<char>)
    requires
        c_bytes(a) == c_bytes(b),
    ensures
        a == b,
{
    assert(c_bytes(a).drop_last() =~= encode_utf8(a));
    assert(c_bytes(b).drop_last() =~= encode_utf8(b));
    vstd::utf8::encode_utf8_decode_utf8(a);
    vstd::utf8::encode_utf8_decode_utf8(b);
    assert(decode_utf8(encode_utf8(a)) == decode_utf8(encode_utf8(b)));
}

} // verus!
