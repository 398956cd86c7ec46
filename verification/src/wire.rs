//! The wire format, stated over sequences of bytes.
//!
//! The first half says which bytes a datum is written as, or why it cannot be
//! written. The second half says what a run of bytes reads as, or why it cannot be
//! read, and where. Every function that reads takes the input that is left and the
//! offset of its first byte in the whole input, and gives what it read together with
//! the number of bytes it took.

use vstd::prelude::*;
use crate::codepage::{decoded, encodable, encoded};
use crate::constants::{magic, TYPE_F64, TYPE_I64, TYPE_STRING};
use crate::endian::{i64_bits, i64_of_bits, u32_bytes, u32_of_bytes, u64_bytes, u64_of_bytes};
use crate::error::{ErrorKind, ErrorWithOffset};
use crate::value::{EntryView, NodeView, Slot, ValueView};

verus! {

/// The type tag in front of a datum: values carry one, keys and bare data do not.
pub open spec fn tag_bytes(slot: Slot, ty: u32) -> Seq<u8> {
    if slot == Slot::Value {
        u32_bytes(ty)
    } else {
        Seq::empty()
    }
}

/// A string field: the length of what follows, the encoded text, and a NUL.
pub open spec fn string_field(text: Seq<char>) -> Result<Seq<u8>, ErrorKind> {
    if !encodable(text) {
        Err(ErrorKind::TextEncodingError)
    } else if text.len() + 1 > u32::MAX {
        Err(ErrorKind::NumericOverflow)
    } else {
        Ok(u32_bytes((text.len() + 1) as u32) + encoded(text) + seq![0u8])
    }
}

/// An integer in a slot. A key cannot be an integer.
pub open spec fn i64_wire(v: i64, slot: Slot) -> Result<Seq<u8>, ErrorKind> {
    if slot == Slot::Key {
        Err(ErrorKind::InvalidKeyType)
    } else {
        Ok(tag_bytes(slot, TYPE_I64) + u64_bytes(i64_bits(v)))
    }
}

/// A floating-point number, given by its bit pattern, in a slot. A key cannot be one.
pub open spec fn f64_wire(bits: u64, slot: Slot) -> Result<Seq<u8>, ErrorKind> {
    if slot == Slot::Key {
        Err(ErrorKind::InvalidKeyType)
    } else {
        Ok(tag_bytes(slot, TYPE_F64) + u64_bytes(bits))
    }
}

/// A text in a slot.
pub open spec fn text_wire(text: Seq<char>, slot: Slot) -> Result<Seq<u8>, ErrorKind> {
    match string_field(text) {
        Ok(field) => Ok(tag_bytes(slot, TYPE_STRING) + field),
        Err(kind) => Err(kind),
    }
}

/// A value in a slot.
pub open spec fn value_wire(value: ValueView, slot: Slot) -> Result<Seq<u8>, ErrorKind> {
    match value {
        ValueView::I64(v) => i64_wire(v, slot),
        ValueView::F64(bits) => f64_wire(bits, slot),
        ValueView::Text(text) => text_wire(text, slot),
    }
}

/// The header of a table with the given number of entries.
pub open spec fn header_bytes(count: u32) -> Seq<u8> {
    magic() + u32_bytes(count)
}

/// The opening of a table in a slot. A table can only stand by itself, and only
/// when the number of its entries is known and fits the count field.
pub open spec fn table_wire(len: Option<usize>, slot: Slot) -> Result<Seq<u8>, ErrorKind> {
    match slot {
        Slot::Key => Err(ErrorKind::InvalidKeyType),
        Slot::Value => Err(ErrorKind::UnsupportedValue),
        Slot::Root => match len {
            None => Err(ErrorKind::LengthNotGiven),
            Some(n) => if n > u32::MAX {
                Err(ErrorKind::NumericOverflow)
            } else {
                Ok(header_bytes(n as u32))
            },
        },
    }
}

/// An entry: its key as a plain string, then its value with a tag.
#[verifier::opaque]
pub open spec fn entry_wire(entry: EntryView) -> Result<Seq<u8>, ErrorKind> {
    match text_wire(entry.key, Slot::Key) {
        Err(kind) => Err(kind),
        Ok(key) => match value_wire(entry.value, Slot::Value) {
            Err(kind) => Err(kind),
            Ok(value) => Ok(key + value),
        },
    }
}

/// A run of entries, one after the other. The first entry that cannot be written
/// decides the error.
pub open spec fn entries_wire(entries: Seq<EntryView>) -> Result<Seq<u8>, ErrorKind>
    decreases entries.len(),
{
    if entries.len() == 0 {
        Ok(Seq::empty())
    } else {
        match entry_wire(entries[0]) {
            Err(kind) => Err(kind),
            Ok(first) => match entries_wire(entries.drop_first()) {
                Err(kind) => Err(kind),
                Ok(rest) => Ok(first + rest),
            },
        }
    }
}

/// A whole table: the header with the true number of entries, then the entries.
pub open spec fn document_wire(doc: Seq<EntryView>) -> Result<Seq<u8>, ErrorKind> {
    if doc.len() > u32::MAX {
        Err(ErrorKind::NumericOverflow)
    } else {
        match entries_wire(doc) {
            Err(kind) => Err(kind),
            Ok(body) => Ok(header_bytes(doc.len() as u32) + body),
        }
    }
}

/// Whether writing ended well or in an error that writing a table can end in: a text
/// outside the code page, or a length or count that does not fit its field.
pub open spec fn well_or_unfit(wire: Result<Seq<u8>, ErrorKind>) -> bool {
    wire matches Err(kind) ==> kind is TextEncodingError || kind is NumericOverflow
}

/// Writing entries ends well or in one of these errors.
pub proof fn lemma_entries_wire_faults(entries: Seq<EntryView>)
    ensures
        well_or_unfit(entries_wire(entries)),
    decreases entries.len(),
{
    reveal(entry_wire);
    if entries.len() > 0 {
        lemma_entries_wire_faults(entries.drop_first());
    }
}

/// Writing a table ends well or in one of these errors.
pub proof fn lemma_document_wire_faults(doc: Seq<EntryView>)
    ensures
        well_or_unfit(document_wire(doc)),
{
    lemma_entries_wire_faults(doc);
}

/// An error of the given kind at the given offset.
pub open spec fn fault(at: int, kind: ErrorKind) -> ErrorWithOffset {
    ErrorWithOffset { offset: Some(at as usize), kind }
}

/// The error for a field that starts at `at` and needs more bytes than are left.
pub open spec fn cut_short(at: int, needed: int, left: int) -> ErrorWithOffset {
    fault(at, ErrorKind::StringLengthError(needed as usize, left as usize))
}

/// The 32-bit field at index `i`.
pub open spec fn u32_at(bytes: Seq<u8>, i: int) -> u32 {
    u32_of_bytes(bytes.subrange(i, i + 4))
}

/// The 64-bit field at index `i`.
pub open spec fn u64_at(bytes: Seq<u8>, i: int) -> u64 {
    u64_of_bytes(bytes.subrange(i, i + 8))
}

/// Reads a 32-bit field.
pub open spec fn parse_u32(bytes: Seq<u8>, at: int) -> Result<u32, ErrorWithOffset> {
    if bytes.len() < 4 {
        Err(cut_short(at, 4, bytes.len() as int))
    } else {
        Ok(u32_at(bytes, 0))
    }
}

/// The number of bytes that a tag takes in a slot: four in a value, none elsewhere.
pub open spec fn tag_len(slot: Slot) -> int {
    if slot == Slot::Value {
        4
    } else {
        0
    }
}

/// Reads the tag that a datum of type `ty` carries in a slot, and gives its length:
/// four bytes in a value, none elsewhere.
pub open spec fn parse_tag(bytes: Seq<u8>, at: int, slot: Slot, ty: u32) -> Result<
    int,
    ErrorWithOffset,
> {
    if slot != Slot::Value {
        Ok(0)
    } else if bytes.len() < 4 {
        Err(cut_short(at, 4, bytes.len() as int))
    } else if u32_at(bytes, 0) != ty {
        Err(fault(at + 4, ErrorKind::TypeMismatch))
    } else {
        Ok(4)
    }
}

/// Reads an integer in a slot.
pub open spec fn parse_i64(bytes: Seq<u8>, at: int, slot: Slot) -> Result<
    (i64, int),
    ErrorWithOffset,
> {
    match parse_tag(bytes, at, slot, TYPE_I64) {
        Err(e) => Err(e),
        Ok(n) => if bytes.len() - n < 8 {
            Err(cut_short(at + n, 8, bytes.len() - n))
        } else {
            Ok((i64_of_bits(u64_at(bytes, n)), n + 8))
        },
    }
}

/// Reads the bit pattern of a floating-point number in a slot.
pub open spec fn parse_f64(bytes: Seq<u8>, at: int, slot: Slot) -> Result<
    (u64, int),
    ErrorWithOffset,
> {
    match parse_tag(bytes, at, slot, TYPE_F64) {
        Err(e) => Err(e),
        Ok(n) => if bytes.len() - n < 8 {
            Err(cut_short(at + n, 8, bytes.len() - n))
        } else {
            Ok((u64_at(bytes, n), n + 8))
        },
    }
}

/// Reads a string in a slot.
///
/// A declared length that overruns the input is blamed on the length field; a
/// missing terminator on the byte that should have been NUL, or, where the string
/// is declared empty and so has no such byte, on the place where it would begin.
pub open spec fn parse_string(bytes: Seq<u8>, at: int, slot: Slot) -> Result<
    (Seq<char>, int),
    ErrorWithOffset,
> {
    match parse_tag(bytes, at, slot, TYPE_STRING) {
        Err(e) => Err(e),
        Ok(n) => if bytes.len() - n < 4 {
            Err(cut_short(at + n, 4, bytes.len() - n))
        } else {
            let declared = u32_at(bytes, n) as int;
            let start = n + 4;
            let left = bytes.len() - start;
            if declared > left {
                Err(cut_short(at + n, declared, left))
            } else if declared == 0 {
                Err(fault(at + start, ErrorKind::MissingStringTerminator))
            } else if bytes[start + declared - 1] != 0 {
                Err(fault(at + start + declared - 1, ErrorKind::MissingStringTerminator))
            } else {
                Ok((decoded(bytes.subrange(start, start + declared - 1)), start + declared))
            }
        },
    }
}

/// Reads an integer in a slot and holds it to a range.
///
/// A number outside the range is blamed on the offset just past it.
pub open spec fn parse_integer(bytes: Seq<u8>, at: int, slot: Slot, min: int, max: int) -> Result<
    (i64, int),
    ErrorWithOffset,
> {
    match parse_i64(bytes, at, slot) {
        Err(e) => Err(e),
        Ok((v, n)) => if min <= v <= max {
            Ok((v, n))
        } else {
            Err(fault(at + n, ErrorKind::NumericOverflow))
        },
    }
}

/// Reads the value of an entry: the tag says which kind follows.
pub open spec fn parse_value(bytes: Seq<u8>, at: int) -> Result<(ValueView, int), ErrorWithOffset> {
    if bytes.len() < 4 {
        Err(cut_short(at, 4, bytes.len() as int))
    } else {
        let ty = u32_at(bytes, 0);
        if ty == TYPE_I64 {
            match parse_i64(bytes, at, Slot::Value) {
                Ok((v, n)) => Ok((ValueView::I64(v), n)),
                Err(e) => Err(e),
            }
        } else if ty == TYPE_F64 {
            match parse_f64(bytes, at, Slot::Value) {
                Ok((bits, n)) => Ok((ValueView::F64(bits), n)),
                Err(e) => Err(e),
            }
        } else if ty == TYPE_STRING {
            match parse_string(bytes, at, Slot::Value) {
                Ok((text, n)) => Ok((ValueView::Text(text), n)),
                Err(e) => Err(e),
            }
        } else {
            Err(fault(at, ErrorKind::UnknownTypeId(ty)))
        }
    }
}

/// Reads the key of an entry: a plain string.
pub open spec fn parse_key(bytes: Seq<u8>, at: int) -> Result<(Seq<char>, int), ErrorWithOffset> {
    parse_string(bytes, at, Slot::Key)
}

/// Reads one entry.
#[verifier::opaque]
pub open spec fn parse_entry(bytes: Seq<u8>, at: int) -> Result<(EntryView, int), ErrorWithOffset> {
    match parse_key(bytes, at) {
        Err(e) => Err(e),
        Ok((key, n)) => match parse_value(bytes.skip(n), at + n) {
            Err(e) => Err(e),
            Ok((value, m)) => Ok((EntryView { key, value }, n + m)),
        },
    }
}

/// Reads entries until the input is used up.
pub open spec fn parse_entries(bytes: Seq<u8>, at: int) -> Result<Seq<EntryView>, ErrorWithOffset>
    decreases bytes.len(),
{
    if bytes.len() == 0 {
        Ok(Seq::empty())
    } else {
        match parse_entry(bytes, at) {
            Err(e) => Err(e),
            Ok((entry, n)) => {
                proof {
                    lemma_parse_entry_size(bytes, at);
                }
                match parse_entries(bytes.skip(n), at + n) {
                    Err(e) => Err(e),
                    Ok(rest) => Ok(seq![entry] + rest),
                }
            },
        }
    }
}

/// Whether the input begins with the magic.
pub open spec fn has_magic(bytes: Seq<u8>) -> bool {
    bytes.len() >= 6 && bytes.subrange(0, 6) == magic()
}

/// Reads the header of a table and gives the number of entries it declares.
pub open spec fn parse_header(bytes: Seq<u8>, at: int) -> Result<(u32, int), ErrorWithOffset> {
    if !has_magic(bytes) {
        Err(fault(at, ErrorKind::InvalidHeader))
    } else if bytes.len() < 10 {
        Err(fault(at + 6, ErrorKind::InvalidHeader))
    } else {
        Ok((u32_at(bytes, 6), 10))
    }
}

/// Reads a table that runs to the end of the input. The declared number of entries
/// is read and not held against the entries that follow.
pub open spec fn parse_table(bytes: Seq<u8>, at: int) -> Result<Seq<EntryView>, ErrorWithOffset> {
    match parse_header(bytes, at) {
        Err(e) => Err(e),
        Ok((_, n)) => parse_entries(bytes.skip(n), at + n),
    }
}

/// Reads a whole input as a table.
pub open spec fn parse_document(bytes: Seq<u8>) -> Result<Seq<EntryView>, ErrorWithOffset> {
    parse_table(bytes, 0)
}

/// Reads whatever stands in a slot: a table by itself, a plain string as a key, a
/// tagged scalar as a value.
pub open spec fn parse_node(bytes: Seq<u8>, at: int, slot: Slot) -> Result<
    (NodeView, int),
    ErrorWithOffset,
> {
    match slot {
        Slot::Root => match parse_table(bytes, at) {
            Ok(doc) => Ok((NodeView::Table(doc), bytes.len() as int)),
            Err(e) => Err(e),
        },
        Slot::Key => match parse_key(bytes, at) {
            Ok((text, n)) => Ok((NodeView::Scalar(ValueView::Text(text)), n)),
            Err(e) => Err(e),
        },
        Slot::Value => match parse_value(bytes, at) {
            Ok((value, n)) => Ok((NodeView::Scalar(value), n)),
            Err(e) => Err(e),
        },
    }
}

/// Entries that were read, followed by what the rest of the input reads as.
pub open spec fn followed_by(
    done: Seq<EntryView>,
    rest: Result<Seq<EntryView>, ErrorWithOffset>,
) -> Result<Seq<EntryView>, ErrorWithOffset> {
    match rest {
        Ok(more) => Ok(done + more),
        Err(e) => Err(e),
    }
}

/// Reading entries is reading one entry and then the entries after it.
pub proof fn lemma_parse_entries_step(bytes: Seq<u8>, at: int, done: Seq<EntryView>)
    requires
        bytes.len() > 0,
    ensures
        match parse_entry(bytes, at) {
            Err(e) => parse_entries(bytes, at) == Err::<Seq<EntryView>, ErrorWithOffset>(e),
            Ok((entry, n)) => followed_by(done, parse_entries(bytes, at)) == followed_by(
                done.push(entry),
                parse_entries(bytes.skip(n), at + n),
            ),
        },
{
    match parse_entry(bytes, at) {
        Err(e) => {},
        Ok((entry, n)) => {
            match parse_entries(bytes.skip(n), at + n) {
                Err(e) => {},
                Ok(rest) => {
                    assert(done + (seq![entry] + rest) =~= done.push(entry) + rest);
                },
            }
        },
    }
}

/// Whether an error is one that reading a table can end in: it names an offset from
/// `at` up to `end`, and it blames the header, a field cut short, a string without
/// terminator or an unknown tag. Text never fails to decode.
pub open spec fn reading_fault(e: ErrorWithOffset, at: int, end: int) -> bool {
    &&& e.offset matches Some(offset) && at <= offset <= end
    &&& e.kind is InvalidHeader || e.kind is StringLengthError || e.kind
        is MissingStringTerminator || e.kind is UnknownTypeId
}

/// Every error of reading an entry is of these, with an offset in the input.
pub proof fn lemma_parse_entry_faults(bytes: Seq<u8>, at: int)
    requires
        0 <= at,
        at + bytes.len() <= usize::MAX,
    ensures
        parse_entry(bytes, at) matches Err(e) ==> reading_fault(e, at, at + bytes.len()),
{
    reveal(parse_entry);
}

/// Every error of reading entries is of these, with an offset in the input.
pub proof fn lemma_parse_entries_faults(bytes: Seq<u8>, at: int)
    requires
        0 <= at,
        at + bytes.len() <= usize::MAX,
    ensures
        parse_entries(bytes, at) matches Err(e) ==> reading_fault(e, at, at + bytes.len()),
    decreases bytes.len(),
{
    if bytes.len() > 0 {
        lemma_parse_entry_faults(bytes, at);
        lemma_parse_entry_size(bytes, at);
        match parse_entry(bytes, at) {
            Ok((_, n)) => {
                lemma_parse_entries_faults(bytes.skip(n), at + n);
            },
            Err(_) => {},
        }
    }
}

/// Every error of reading a table is of these, with an offset in the input.
pub proof fn lemma_parse_table_faults(bytes: Seq<u8>, at: int)
    requires
        0 <= at,
        at + bytes.len() <= usize::MAX,
    ensures
        parse_table(bytes, at) matches Err(e) ==> reading_fault(e, at, at + bytes.len()),
{
    if parse_header(bytes, at) is Ok {
        lemma_parse_entries_faults(bytes.skip(10), at + 10);
    }
}

/// Every entry that reads takes at least one byte and no more than there are.
pub proof fn lemma_parse_entry_size(bytes: Seq<u8>, at: int)
    ensures
        parse_entry(bytes, at) matches Ok((_, n)) ==> 9 <= n <= bytes.len(),
{
    reveal(parse_entry);
}

} // verus!
