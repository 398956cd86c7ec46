//! Windows-1252, the single-byte code page of every string in a table.
//!
//! Each of the 256 byte values stands for one character, and no two bytes stand for
//! the same one: decoding cannot fail, and encoding is its exact inverse on the
//! characters that the code page holds.

use vstd::prelude::*;
use vstd::slice::slice_subrange;
use vstd::string::StringExecFns;

verus! {

/// The largest piece that is handed to the decoder in one call.
pub const DECODE_PIECE: usize = 0x100_0000;

/// The character that a byte stands for.
///
/// Bytes below 0x80 and from 0xA0 up stand for the code point of the same number;
/// the 32 bytes in between stand for typographic characters, or, where the code page
/// assigns none, for the control character of the same number.
pub open spec fn char_of_byte(b: u8) -> char {
    match b {
        0x80u8 => '\u{20AC}',
        0x82u8 => '\u{201A}',
        0x83u8 => '\u{0192}',
        0x84u8 => '\u{201E}',
        0x85u8 => '\u{2026}',
        0x86u8 => '\u{2020}',
        0x87u8 => '\u{2021}',
        0x88u8 => '\u{02C6}',
        0x89u8 => '\u{2030}',
        0x8Au8 => '\u{0160}',
        0x8Bu8 => '\u{2039}',
        0x8Cu8 => '\u{0152}',
        0x8Eu8 => '\u{017D}',
        0x91u8 => '\u{2018}',
        0x92u8 => '\u{2019}',
        0x93u8 => '\u{201C}',
        0x94u8 => '\u{201D}',
        0x95u8 => '\u{2022}',
        0x96u8 => '\u{2013}',
        0x97u8 => '\u{2014}',
        0x98u8 => '\u{02DC}',
        0x99u8 => '\u{2122}',
        0x9Au8 => '\u{0161}',
        0x9Bu8 => '\u{203A}',
        0x9Cu8 => '\u{0153}',
        0x9Eu8 => '\u{017E}',
        0x9Fu8 => '\u{0178}',
        _ => b as char,
    }
}

/// The byte that stands for a character, where one does.
pub open spec fn byte_of_char(c: char) -> Option<u8> {
    match c {
        '\u{20AC}' => Some(0x80u8),
        '\u{201A}' => Some(0x82u8),
        '\u{0192}' => Some(0x83u8),
        '\u{201E}' => Some(0x84u8),
        '\u{2026}' => Some(0x85u8),
        '\u{2020}' => Some(0x86u8),
        '\u{2021}' => Some(0x87u8),
        '\u{02C6}' => Some(0x88u8),
        '\u{2030}' => Some(0x89u8),
        '\u{0160}' => Some(0x8Au8),
        '\u{2039}' => Some(0x8Bu8),
        '\u{0152}' => Some(0x8Cu8),
        '\u{017D}' => Some(0x8Eu8),
        '\u{2018}' => Some(0x91u8),
        '\u{2019}' => Some(0x92u8),
        '\u{201C}' => Some(0x93u8),
        '\u{201D}' => Some(0x94u8),
        '\u{2022}' => Some(0x95u8),
        '\u{2013}' => Some(0x96u8),
        '\u{2014}' => Some(0x97u8),
        '\u{02DC}' => Some(0x98u8),
        '\u{2122}' => Some(0x99u8),
        '\u{0161}' => Some(0x9Au8),
        '\u{203A}' => Some(0x9Bu8),
        '\u{0153}' => Some(0x9Cu8),
        '\u{017E}' => Some(0x9Eu8),
        '\u{0178}' => Some(0x9Fu8),
        '\u{0081}' | '\u{008D}' | '\u{008F}' | '\u{0090}' | '\u{009D}' => Some(c as u8),
        _ => if (c as u32) < 0x80 || 0xA0 <= (c as u32) <= 0xFF {
            Some(c as u8)
        } else {
            None
        },
    }
}

/// The text that a run of bytes stands for: each byte gives one character.
pub open spec fn decoded(bytes: Seq<u8>) -> Seq<char> {
    Seq::new(bytes.len(), |i: int| char_of_byte(bytes[i]))
}

/// Whether every character of a text has a byte that stands for it.
pub open spec fn encodable(text: Seq<char>) -> bool {
    forall|i: int| 0 <= i < text.len() ==> (#[trigger] byte_of_char(text[i])) is Some
}

/// The bytes that stand for an encodable text: each character gives one byte.
pub open spec fn encoded(text: Seq<char>) -> Seq<u8> {
    Seq::new(text.len(), |i: int| byte_of_char(text[i])->0)
}

/// Every byte is the byte of the character it stands for.
pub proof fn lemma_byte_of_char_of_byte(b: u8)
    ensures
        byte_of_char(char_of_byte(b)) == Some(b),
{
}

/// Every character that has a byte is the character that byte stands for.
pub proof fn lemma_char_of_byte_of_char(c: char)
    requires
        byte_of_char(c) is Some,
    ensures
        char_of_byte(byte_of_char(c)->0) == c,
{
}

/// Decoded text is always encodable, and encodes back to the bytes it came from.
pub proof fn lemma_encode_decoded(bytes: Seq<u8>)
    ensures
        encodable(decoded(bytes)),
        encoded(decoded(bytes)) == bytes,
{
    assert forall|i: int| 0 <= i < bytes.len() implies byte_of_char(#[trigger] decoded(bytes)[i])
        == Some(bytes[i]) by {
        lemma_byte_of_char_of_byte(bytes[i]);
    }
    assert(encoded(decoded(bytes)) =~= bytes);
}

/// The bytes of an encodable text decode to that text.
pub proof fn lemma_decode_encoded(text: Seq<char>)
    requires
        encodable(text),
    ensures
        decoded(encoded(text)) == text,
{
    assert forall|i: int| 0 <= i < text.len() implies char_of_byte(#[trigger] encoded(text)[i])
        == text[i] by {
        lemma_char_of_byte_of_char(text[i]);
    }
    assert(decoded(encoded(text)) =~= text);
}

/// Decoding goes byte by byte: the text of two runs is the text of each, joined.
pub proof fn lemma_decoded_concat(a: Seq<u8>, b: Seq<u8>)
    ensures
        decoded(a + b) == decoded(a) + decoded(b),
{
    assert(decoded(a + b) =~= decoded(a) + decoded(b));
}

/// Calls `Encoding::decode_without_bom_handling` of encoding_rs on `WINDOWS_1252`.
///
/// The contract claims that the decoder maps each byte to the character that
/// [`char_of_byte`] gives, and nothing else: nothing is sniffed or stripped at the
/// front, and no byte is malformed, since the code page assigns all 256. The bound on
/// the length keeps the decoder's buffer size, three times the input, within what
/// it can allocate.
#[verifier::external_body]
fn decode_piece(bytes: &[u8]) -> (text: String)
    requires
        bytes@.len() <= DECODE_PIECE,
    ensures
        text@ == decoded(bytes@),
{
    let (text, _) = encoding_rs::WINDOWS_1252.decode_without_bom_handling(bytes);
    text.into_owned()
}

/// Calls `Encoder::encode_from_utf8_to_vec_without_replacement` of encoding_rs, on a
/// fresh encoder of `WINDOWS_1252` and with room for one byte per input byte.
///
/// The contract claims that the encoder succeeds exactly on the texts whose
/// characters all have a byte, and then yields those bytes in order; it stops at
/// the first character that has none. With the room given the encoder cannot run
/// out of output space, so that outcome is counted as a failure without being
/// expected.
#[verifier::external_body]
pub(crate) fn encode_strict(text: &str) -> (bytes: Option<Vec<u8>>)
    ensures
        bytes is Some <==> encodable(text@),
        bytes is Some ==> bytes->0@ == encoded(text@),
{
    let mut encoder = encoding_rs::WINDOWS_1252.new_encoder();
    let mut bytes: Vec<u8> = Vec::with_capacity(text.len());
    let (result, _) = encoder.encode_from_utf8_to_vec_without_replacement(text, &mut bytes, true);
    match result {
        encoding_rs::EncoderResult::InputEmpty => Some(bytes),
        encoding_rs::EncoderResult::OutputFull => None,
        encoding_rs::EncoderResult::Unmappable(_) => None,
    }
}

/// Decodes bytes to text. Every byte sequence has a text.
///
/// Long input is decoded piece by piece, so that the decoder never has to size a
/// buffer beyond what it can allocate.
pub fn decode(bytes: &[u8]) -> (text: String)
    ensures
        text@ == decoded(bytes@),
{
    let total: usize = bytes.len();
    if total <= DECODE_PIECE {
        return decode_piece(bytes);
    }
    let mut text = String::new();
    let mut done: usize = 0;
    while done < total
        invariant
            total == bytes@.len(),
            done <= total,
            text@ == decoded(bytes@.subrange(0, done as int)),
        decreases total - done,
    {
        let step: usize = if total - done > DECODE_PIECE {
            DECODE_PIECE
        } else {
            total - done
        };
        let piece = decode_piece(slice_subrange(bytes, done, done + step));
        proof {
            lemma_decoded_concat(
                bytes@.subrange(0, done as int),
                bytes@.subrange(done as int, done + step),
            );
            assert(bytes@.subrange(0, done as int) + bytes@.subrange(done as int, done + step)
                =~= bytes@.subrange(0, done + step));
        }
        text.append(piece.as_str());
        done = done + step;
    }
    proof {
        assert(bytes@.subrange(0, total as int) =~= bytes@);
    }
    text
}

} // verus!
