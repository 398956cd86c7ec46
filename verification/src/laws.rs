//! What reading and writing have to do with each other.
//!
//! Writing what was read gives the input back, byte for byte, and reading what was
//! written gives the document back, entry for entry.

use vstd::prelude::*;
use crate::codepage::{encoded, lemma_decode_encoded, lemma_encode_decoded};
use crate::constants::{magic, TYPE_F64, TYPE_I64, TYPE_STRING};
use crate::endian::{
    i64_bits, lemma_i64_bits, lemma_u32_bytes_of_bytes, lemma_u32_of_bytes_of_u32,
    lemma_u64_bytes_of_bytes, lemma_u64_of_bytes_of_u64, u32_bytes, u64_bytes,
};
use crate::error::{ErrorKind, ErrorWithOffset};
use crate::value::{EntryView, Slot, ValueView};
use crate::wire::{
    document_wire, entries_wire, entry_wire, f64_wire, header_bytes, i64_wire,
    lemma_parse_entry_size, parse_document, parse_entries, parse_entry, parse_f64, parse_i64,
    parse_key, parse_string, parse_tag, parse_value, string_field, tag_bytes, text_wire, u32_at,
    u64_at, value_wire,
};

verus! {

/// A 32-bit field that was read is written as the bytes it was read from.
proof fn lemma_u32_read_write(bytes: Seq<u8>, i: int)
    requires
        0 <= i,
        i + 4 <= bytes.len(),
    ensures
        u32_bytes(u32_at(bytes, i)) == bytes.subrange(i, i + 4),
{
    lemma_u32_bytes_of_bytes(bytes.subrange(i, i + 4));
}

/// A 64-bit field that was read is written as the bytes it was read from.
proof fn lemma_u64_read_write(bytes: Seq<u8>, i: int)
    requires
        0 <= i,
        i + 8 <= bytes.len(),
    ensures
        u64_bytes(u64_at(bytes, i)) == bytes.subrange(i, i + 8),
{
    lemma_u64_bytes_of_bytes(bytes.subrange(i, i + 8));
}

/// A 32-bit field that was written is read as the number it was written from.
proof fn lemma_u32_write_read(x: u32, tail: Seq<u8>)
    ensures
        u32_bytes(x).len() == 4,
        u32_at(u32_bytes(x) + tail, 0) == x,
{
    lemma_u32_of_bytes_of_u32(x);
    assert((u32_bytes(x) + tail).subrange(0, 4) =~= u32_bytes(x));
}

/// A 64-bit field that was written is read as the number it was written from.
proof fn lemma_u64_write_read(x: u64, tail: Seq<u8>)
    ensures
        u64_bytes(x).len() == 8,
        u64_at(u64_bytes(x) + tail, 0) == x,
{
    lemma_u64_of_bytes_of_u64(x);
    assert((u64_bytes(x) + tail).subrange(0, 8) =~= u64_bytes(x));
}

/// A tag that was read is written as the bytes it was read from.
proof fn lemma_tag_read_write(bytes: Seq<u8>, at: int, slot: Slot, ty: u32)
    requires
        parse_tag(bytes, at, slot, ty) is Ok,
    ensures
        tag_bytes(slot, ty) == bytes.subrange(0, parse_tag(bytes, at, slot, ty)->Ok_0),
{
    if slot == Slot::Value {
        lemma_u32_read_write(bytes, 0);
    } else {
        assert(bytes.subrange(0, 0) =~= Seq::<u8>::empty());
    }
}

/// A string that was read is written as the bytes it was read from.
pub proof fn lemma_string_read_write(bytes: Seq<u8>, at: int, slot: Slot)
    requires
        parse_string(bytes, at, slot) is Ok,
    ensures
        ({
            let (text, n) = parse_string(bytes, at, slot)->Ok_0;
            0 <= n <= bytes.len() && text_wire(text, slot) == Ok::<Seq<u8>, ErrorKind>(
                bytes.subrange(0, n),
            )
        }),
{
    let (text, n) = parse_string(bytes, at, slot)->Ok_0;
    let skip = parse_tag(bytes, at, slot, TYPE_STRING)->Ok_0;
    let declared = u32_at(bytes, skip) as int;
    let start = skip + 4;
    let payload = bytes.subrange(start, start + declared - 1);
    lemma_tag_read_write(bytes, at, slot, TYPE_STRING);
    lemma_u32_read_write(bytes, skip);
    lemma_encode_decoded(payload);
    assert(text.len() + 1 == declared);
    assert(bytes.subrange(0, n) =~= bytes.subrange(0, skip) + (bytes.subrange(skip, skip + 4)
        + payload + seq![0u8]));
}

/// An integer value that was read is written as the bytes it was read from.
proof fn lemma_i64_read_write(bytes: Seq<u8>, at: int)
    requires
        parse_i64(bytes, at, Slot::Value) is Ok,
    ensures
        ({
            let (v, n) = parse_i64(bytes, at, Slot::Value)->Ok_0;
            0 <= n <= bytes.len() && i64_wire(v, Slot::Value) == Ok::<Seq<u8>, ErrorKind>(
                bytes.subrange(0, n),
            )
        }),
{
    let (v, n) = parse_i64(bytes, at, Slot::Value)->Ok_0;
    lemma_tag_read_write(bytes, at, Slot::Value, TYPE_I64);
    lemma_u64_read_write(bytes, 4);
    lemma_i64_bits(v, u64_at(bytes, 4));
    assert(bytes.subrange(0, n) =~= bytes.subrange(0, 4) + bytes.subrange(4, 12));
}

/// A floating-point value that was read is written as the bytes it was read from.
proof fn lemma_f64_read_write(bytes: Seq<u8>, at: int)
    requires
        parse_f64(bytes, at, Slot::Value) is Ok,
    ensures
        ({
            let (bits, n) = parse_f64(bytes, at, Slot::Value)->Ok_0;
            0 <= n <= bytes.len() && f64_wire(bits, Slot::Value) == Ok::<Seq<u8>, ErrorKind>(
                bytes.subrange(0, n),
            )
        }),
{
    let (bits, n) = parse_f64(bytes, at, Slot::Value)->Ok_0;
    lemma_tag_read_write(bytes, at, Slot::Value, TYPE_F64);
    lemma_u64_read_write(bytes, 4);
    assert(bytes.subrange(0, n) =~= bytes.subrange(0, 4) + bytes.subrange(4, 12));
}

/// A value that was read is written as the bytes it was read from.
pub proof fn lemma_value_read_write(bytes: Seq<u8>, at: int)
    requires
        parse_value(bytes, at) is Ok,
    ensures
        ({
            let (value, n) = parse_value(bytes, at)->Ok_0;
            0 <= n <= bytes.len() && value_wire(value, Slot::Value) == Ok::<Seq<u8>, ErrorKind>(
                bytes.subrange(0, n),
            )
        }),
{
    let ty = u32_at(bytes, 0);
    if ty == TYPE_I64 {
        lemma_i64_read_write(bytes, at);
    } else if ty == TYPE_F64 {
        lemma_f64_read_write(bytes, at);
    } else {
        lemma_string_read_write(bytes, at, Slot::Value);
    }
}

/// An entry that was read is written as the bytes it was read from.
pub proof fn lemma_entry_read_write(bytes: Seq<u8>, at: int)
    requires
        parse_entry(bytes, at) is Ok,
    ensures
        ({
            let (entry, n) = parse_entry(bytes, at)->Ok_0;
            0 <= n <= bytes.len() && entry_wire(entry) == Ok::<Seq<u8>, ErrorKind>(
                bytes.subrange(0, n),
            )
        }),
{
    reveal(parse_entry);
    reveal(entry_wire);
    let (key, n) = parse_key(bytes, at)->Ok_0;
    let (value, m) = parse_value(bytes.skip(n), at + n)->Ok_0;
    lemma_string_read_write(bytes, at, Slot::Key);
    lemma_value_read_write(bytes.skip(n), at + n);
    assert(bytes.subrange(0, n + m) =~= bytes.subrange(0, n) + bytes.skip(n).subrange(0, m));
}

/// Entries that were read are written as the bytes they were read from.
pub proof fn lemma_entries_read_write(bytes: Seq<u8>, at: int)
    requires
        parse_entries(bytes, at) is Ok,
    ensures
        entries_wire(parse_entries(bytes, at)->Ok_0) == Ok::<Seq<u8>, ErrorKind>(bytes),
    decreases bytes.len(),
{
    if bytes.len() == 0 {
        assert(bytes =~= Seq::<u8>::empty());
    } else {
        let (entry, n) = parse_entry(bytes, at)->Ok_0;
        let rest = parse_entries(bytes.skip(n), at + n)->Ok_0;
        let entries = seq![entry] + rest;
        lemma_parse_entry_size(bytes, at);
        lemma_entry_read_write(bytes, at);
        lemma_entries_read_write(bytes.skip(n), at + n);
        assert(entries.drop_first() =~= rest);
        assert(bytes =~= bytes.subrange(0, n) + bytes.skip(n));
    }
}

/// Writing what was read gives the input back.
///
/// For every input that decodes, and whose header declares the number of entries
/// that it holds, encoding the decoded document succeeds and yields that input, byte
/// for byte.
pub proof fn lemma_read_then_write(bytes: Seq<u8>)
    requires
        parse_document(bytes) is Ok,
        u32_at(bytes, 6) == parse_document(bytes)->Ok_0.len(),
    ensures
        document_wire(parse_document(bytes)->Ok_0) == Ok::<Seq<u8>, ErrorKind>(bytes),
{
    let doc = parse_document(bytes)->Ok_0;
    lemma_entries_read_write(bytes.skip(10), 10);
    lemma_u32_read_write(bytes, 6);
    assert(bytes =~= bytes.subrange(0, 6) + bytes.subrange(6, 10) + bytes.skip(10));
}

/// A tag that was written is read as itself.
proof fn lemma_tag_write_read(slot: Slot, ty: u32, tail: Seq<u8>, at: int)
    ensures
        parse_tag(tag_bytes(slot, ty) + tail, at, slot, ty) == Ok::<int, ErrorWithOffset>(
            tag_bytes(slot, ty).len() as int,
        ),
        slot == Slot::Value ==> tag_bytes(slot, ty).len() == 4 && u32_at(
            tag_bytes(slot, ty) + tail,
            0,
        ) == ty,
        slot != Slot::Value ==> tag_bytes(slot, ty).len() == 0,
{
    if slot == Slot::Value {
        lemma_u32_write_read(ty, tail);
    }
}

/// A string that was written is read as itself, whatever follows it.
pub proof fn lemma_string_write_read(text: Seq<char>, slot: Slot, tail: Seq<u8>, at: int)
    requires
        text_wire(text, slot) is Ok,
    ensures
        ({
            let wire = text_wire(text, slot)->Ok_0;
            parse_string(wire + tail, at, slot) == Ok::<(Seq<char>, int), ErrorWithOffset>(
                (text, wire.len() as int),
            )
        }),
{
    let wire = text_wire(text, slot)->Ok_0;
    let tag = tag_bytes(slot, TYPE_STRING);
    let len = (text.len() + 1) as u32;
    let field = u32_bytes(len) + encoded(text) + seq![0u8];
    let bytes = wire + tail;
    let skip = tag.len() as int;
    assert(bytes =~= tag + (field + tail));
    lemma_tag_write_read(slot, TYPE_STRING, field + tail, at);
    lemma_u32_write_read(len, encoded(text) + seq![0u8] + tail);
    assert(bytes.subrange(skip, skip + 4) =~= (u32_bytes(len) + (encoded(text) + seq![0u8]
        + tail)).subrange(0, 4));
    assert(u32_at(bytes, skip) == len);
    let start = skip + 4;
    assert(bytes[start + len - 1] == 0u8);
    assert(bytes.subrange(start, start + len - 1) =~= encoded(text));
    lemma_decode_encoded(text);
}

/// An integer value that was written is read as itself, whatever follows it.
proof fn lemma_i64_write_read(v: i64, tail: Seq<u8>, at: int)
    ensures
        ({
            let wire = i64_wire(v, Slot::Value)->Ok_0;
            parse_i64(wire + tail, at, Slot::Value) == Ok::<(i64, int), ErrorWithOffset>(
                (v, wire.len() as int),
            ) && wire.len() == 12 && u32_at(wire + tail, 0) == TYPE_I64
        }),
{
    let wire = i64_wire(v, Slot::Value)->Ok_0;
    let bytes = wire + tail;
    assert(bytes =~= u32_bytes(TYPE_I64) + (u64_bytes(i64_bits(v)) + tail));
    lemma_tag_write_read(Slot::Value, TYPE_I64, u64_bytes(i64_bits(v)) + tail, at);
    lemma_u64_write_read(i64_bits(v), tail);
    assert(bytes.subrange(4, 12) =~= (u64_bytes(i64_bits(v)) + tail).subrange(0, 8));
    lemma_i64_bits(v, 0);
}

/// A floating-point value that was written is read as itself, whatever follows it.
proof fn lemma_f64_write_read(bits: u64, tail: Seq<u8>, at: int)
    ensures
        ({
            let wire = f64_wire(bits, Slot::Value)->Ok_0;
            parse_f64(wire + tail, at, Slot::Value) == Ok::<(u64, int), ErrorWithOffset>(
                (bits, wire.len() as int),
            ) && wire.len() == 12 && u32_at(wire + tail, 0) == TYPE_F64
        }),
{
    let wire = f64_wire(bits, Slot::Value)->Ok_0;
    let bytes = wire + tail;
    assert(bytes =~= u32_bytes(TYPE_F64) + (u64_bytes(bits) + tail));
    lemma_tag_write_read(Slot::Value, TYPE_F64, u64_bytes(bits) + tail, at);
    lemma_u64_write_read(bits, tail);
    assert(bytes.subrange(4, 12) =~= (u64_bytes(bits) + tail).subrange(0, 8));
}

/// A value that was written is read as itself, whatever follows it.
pub proof fn lemma_value_write_read(value: ValueView, tail: Seq<u8>, at: int)
    requires
        value_wire(value, Slot::Value) is Ok,
    ensures
        ({
            let wire = value_wire(value, Slot::Value)->Ok_0;
            parse_value(wire + tail, at) == Ok::<(ValueView, int), ErrorWithOffset>(
                (value, wire.len() as int),
            )
        }),
{
    match value {
        ValueView::I64(v) => {
            lemma_i64_write_read(v, tail, at);
        },
        ValueView::F64(bits) => {
            lemma_f64_write_read(bits, tail, at);
        },
        ValueView::Text(text) => {
            let wire = text_wire(text, Slot::Value)->Ok_0;
            let field = string_field(text)->Ok_0;
            lemma_string_write_read(text, Slot::Value, tail, at);
            assert(wire + tail =~= u32_bytes(TYPE_STRING) + (field + tail));
            lemma_u32_write_read(TYPE_STRING, field + tail);
        },
    }
}

/// An entry that was written is read as itself, whatever follows it.
pub proof fn lemma_entry_write_read(entry: EntryView, tail: Seq<u8>, at: int)
    requires
        entry_wire(entry) is Ok,
    ensures
        ({
            let wire = entry_wire(entry)->Ok_0;
            parse_entry(wire + tail, at) == Ok::<(EntryView, int), ErrorWithOffset>(
                (entry, wire.len() as int),
            )
        }),
{
    reveal(parse_entry);
    reveal(entry_wire);
    let key = text_wire(entry.key, Slot::Key)->Ok_0;
    let value = value_wire(entry.value, Slot::Value)->Ok_0;
    let bytes = key + value + tail;
    assert(bytes =~= key + (value + tail));
    lemma_string_write_read(entry.key, Slot::Key, value + tail, at);
    assert(bytes.skip(key.len() as int) =~= value + tail);
    lemma_value_write_read(entry.value, tail, at + key.len());
}

/// Entries that were written are read as themselves.
pub proof fn lemma_entries_write_read(entries: Seq<EntryView>, at: int)
    requires
        entries_wire(entries) is Ok,
    ensures
        parse_entries(entries_wire(entries)->Ok_0, at) == Ok::<Seq<EntryView>, ErrorWithOffset>(
            entries,
        ),
    decreases entries.len(),
{
    let wire = entries_wire(entries)->Ok_0;
    if entries.len() == 0 {
        assert(entries =~= Seq::<EntryView>::empty());
    } else {
        let first = entry_wire(entries[0])->Ok_0;
        let rest = entries_wire(entries.drop_first())->Ok_0;
        lemma_entry_write_read(entries[0], rest, at);
        lemma_parse_entry_size(first + rest, at);
        lemma_entries_write_read(entries.drop_first(), at + first.len());
        assert((first + rest).skip(first.len() as int) =~= rest);
        assert(seq![entries[0]] + entries.drop_first() =~= entries);
    }
}

/// Reading what was written gives the document back.
///
/// For every document that encodes, decoding the encoded bytes succeeds and yields
/// that document: the same keys in the same order, with the same values.
pub proof fn lemma_write_then_read(doc: Seq<EntryView>)
    requires
        document_wire(doc) is Ok,
    ensures
        parse_document(document_wire(doc)->Ok_0) == Ok::<Seq<EntryView>, ErrorWithOffset>(doc),
{
    let body = entries_wire(doc)->Ok_0;
    let count = doc.len() as u32;
    let bytes = header_bytes(count) + body;
    lemma_u32_write_read(count, body);
    assert(bytes.subrange(0, 6) =~= magic());
    assert(bytes.skip(10) =~= body);
    lemma_entries_write_read(doc, 10);
}

} // verus!
