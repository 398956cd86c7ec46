//! Writing a table.

use vstd::prelude::*;
use crate::codepage::{encodable, encode_strict, encoded};
use crate::constants::{TYPE_F64, TYPE_I64, TYPE_STRING};
use crate::endian::{i64_bits, i64_to_bits, push_u32_le, push_u64_le, u32_bytes, u64_bytes};
use crate::error::{ErrorKind, ErrorWithOffset};
use crate::laws::lemma_write_then_read;
use crate::value::{Document, EntryView, Slot, Value};
use crate::wire::{
    document_wire, entries_wire, entry_wire, f64_wire, header_bytes, i64_wire,
    lemma_document_wire_faults, parse_document, table_wire, tag_bytes, text_wire, value_wire,
};

verus! {

/// The bytes written so far.
///
/// A write that succeeds adds the bytes of what was written at the end. A write
/// that fails adds nothing.
pub struct Serializer {
    output: Vec<u8>,
}

impl View for Serializer {
    type V = Seq<u8>;

    closed spec fn view(&self) -> Seq<u8> {
        self.output@
    }
}

impl Serializer {
    /// Whether this serializer is `before` after a write that was to add `wire`
    /// and came back with `r`.
    pub open spec fn wrote(
        &self,
        before: &Self,
        r: Result<(), ErrorKind>,
        wire: Result<Seq<u8>, ErrorKind>,
    ) -> bool {
        match wire {
            Ok(bytes) => r == Ok::<(), ErrorKind>(()) && self@ == before@ + bytes,
            Err(kind) => r == Err::<(), ErrorKind>(kind) && self@ == before@,
        }
    }

    /// A serializer that has written nothing.
    pub fn new() -> (serializer: Self)
        ensures
            serializer@ == Seq::<u8>::empty(),
    {
        Serializer { output: Vec::new() }
    }

    /// The bytes written.
    pub fn into_bytes(self) -> (bytes: Vec<u8>)
        ensures
            bytes@ == self@,
    {
        self.output
    }

    fn put_u32(&mut self, x: u32)
        ensures
            final(self)@ == old(self)@ + u32_bytes(x),
    {
        push_u32_le(&mut self.output, x);
    }

    fn put_u64(&mut self, x: u64)
        ensures
            final(self)@ == old(self)@ + u64_bytes(x),
    {
        push_u64_le(&mut self.output, x);
    }

    fn put_tag(&mut self, slot: Slot, ty: u32)
        ensures
            final(self)@ == old(self)@ + tag_bytes(slot, ty),
    {
        match slot {
            Slot::Value => self.put_u32(ty),
            _ => {
                assert(self@ + Seq::<u8>::empty() =~= self@);
            },
        }
    }

    /// Writes an integer.
    ///
    /// A value is written with its tag, a bare integer without. A key cannot be
    /// an integer: that is an `InvalidKeyType`.
    pub fn serialize_i64(&mut self, v: i64, slot: Slot) -> (r: Result<(), ErrorKind>)
        ensures
            final(self).wrote(old(self), r, i64_wire(v, slot)),
            slot == Slot::Key ==> r == Err::<(), ErrorKind>(ErrorKind::InvalidKeyType),
    {
        if let Slot::Key = slot {
            return Err(ErrorKind::InvalidKeyType);
        }
        self.put_tag(slot, TYPE_I64);
        self.put_u64(i64_to_bits(v));
        proof {
            assert(self@ =~= old(self)@ + (tag_bytes(slot, TYPE_I64) + u64_bytes(i64_bits(v))));
        }
        Ok(())
    }

    /// Writes a floating-point number, given as its IEEE-754 bit pattern.
    ///
    /// A value is written with its tag, a bare number without. A key cannot be a
    /// number: that is an `InvalidKeyType`.
    pub fn serialize_f64(&mut self, bits: u64, slot: Slot) -> (r: Result<(), ErrorKind>)
        ensures
            final(self).wrote(old(self), r, f64_wire(bits, slot)),
            slot == Slot::Key ==> r == Err::<(), ErrorKind>(ErrorKind::InvalidKeyType),
    {
        if let Slot::Key = slot {
            return Err(ErrorKind::InvalidKeyType);
        }
        self.put_tag(slot, TYPE_F64);
        self.put_u64(bits);
        proof {
            assert(self@ =~= old(self)@ + (tag_bytes(slot, TYPE_F64) + u64_bytes(bits)));
        }
        Ok(())
    }

    /// Writes a text: its length, its Windows-1252 bytes, and a NUL.
    ///
    /// A value is written with its tag, a key or a bare text without. A text with
    /// a character outside Windows-1252 is a `TextEncodingError`; a text too long
    /// for the length field is a `NumericOverflow`.
    pub fn serialize_str(&mut self, v: &str, slot: Slot) -> (r: Result<(), ErrorKind>)
        ensures
            final(self).wrote(old(self), r, text_wire(v@, slot)),
            !encodable(v@) ==> r == Err::<(), ErrorKind>(
                ErrorKind::TextEncodingError,
            ),
    {
        let mut bytes = match encode_strict(v) {
            Some(bytes) => bytes,
            None => {
                return Err(ErrorKind::TextEncodingError);
            },
        };
        if bytes.len() >= u32::MAX as usize {
            return Err(ErrorKind::NumericOverflow);
        }
        let len: u32 = (bytes.len() + 1) as u32;
        self.put_tag(slot, TYPE_STRING);
        self.put_u32(len);
        self.output.append(&mut bytes);
        self.output.push(0);
        proof {
            assert(self@ =~= old(self)@ + (tag_bytes(slot, TYPE_STRING) + (u32_bytes(len)
                + encoded(v@) + seq![0u8])));
        }
        Ok(())
    }

    /// Writes a truth value as the integer 1 or 0: the format has no tag for one.
    pub fn serialize_bool(&mut self, v: bool, slot: Slot) -> (r: Result<(), ErrorKind>)
        ensures
            final(self).wrote(old(self), r, i64_wire(if v { 1i64 } else { 0i64 }, slot)),
            slot == Slot::Key ==> r == Err::<(), ErrorKind>(ErrorKind::InvalidKeyType),
    {
        self.serialize_i64(if v { 1 } else { 0 }, slot)
    }

    /// Writes an 8-bit signed integer as a 64-bit integer.
    pub fn serialize_i8(&mut self, v: i8, slot: Slot) -> (r: Result<(), ErrorKind>)
        ensures
            final(self).wrote(old(self), r, i64_wire(v as i64, slot)),
            slot == Slot::Key ==> r == Err::<(), ErrorKind>(ErrorKind::InvalidKeyType),
    {
        self.serialize_i64(v as i64, slot)
    }

    /// Writes a 16-bit signed integer as a 64-bit integer.
    pub fn serialize_i16(&mut self, v: i16, slot: Slot) -> (r: Result<(), ErrorKind>)
        ensures
            final(self).wrote(old(self), r, i64_wire(v as i64, slot)),
            slot == Slot::Key ==> r == Err::<(), ErrorKind>(ErrorKind::InvalidKeyType),
    {
        self.serialize_i64(v as i64, slot)
    }

    /// Writes a 32-bit signed integer as a 64-bit integer.
    pub fn serialize_i32(&mut self, v: i32, slot: Slot) -> (r: Result<(), ErrorKind>)
        ensures
            final(self).wrote(old(self), r, i64_wire(v as i64, slot)),
            slot == Slot::Key ==> r == Err::<(), ErrorKind>(ErrorKind::InvalidKeyType),
    {
        self.serialize_i64(v as i64, slot)
    }

    /// Writes an 8-bit unsigned integer as a 64-bit integer.
    pub fn serialize_u8(&mut self, v: u8, slot: Slot) -> (r: Result<(), ErrorKind>)
        ensures
            final(self).wrote(old(self), r, i64_wire(v as i64, slot)),
            slot == Slot::Key ==> r == Err::<(), ErrorKind>(ErrorKind::InvalidKeyType),
    {
        self.serialize_i64(v as i64, slot)
    }

    /// Writes a 16-bit unsigned integer as a 64-bit integer.
    pub fn serialize_u16(&mut self, v: u16, slot: Slot) -> (r: Result<(), ErrorKind>)
        ensures
            final(self).wrote(old(self), r, i64_wire(v as i64, slot)),
            slot == Slot::Key ==> r == Err::<(), ErrorKind>(ErrorKind::InvalidKeyType),
    {
        self.serialize_i64(v as i64, slot)
    }

    /// Writes a 32-bit unsigned integer as a 64-bit integer.
    pub fn serialize_u32(&mut self, v: u32, slot: Slot) -> (r: Result<(), ErrorKind>)
        ensures
            final(self).wrote(old(self), r, i64_wire(v as i64, slot)),
            slot == Slot::Key ==> r == Err::<(), ErrorKind>(ErrorKind::InvalidKeyType),
    {
        self.serialize_i64(v as i64, slot)
    }

    /// Writes a 64-bit unsigned integer as a signed one.
    ///
    /// A number above the largest signed integer is a `NumericOverflow`, in any
    /// slot.
    pub fn serialize_u64(&mut self, v: u64, slot: Slot) -> (r: Result<(), ErrorKind>)
        ensures
            final(self).wrote(old(self), r, u64_wire(v, slot)),
            v > i64::MAX ==> r == Err::<(), ErrorKind>(ErrorKind::NumericOverflow),
            v <= i64::MAX && slot == Slot::Key ==> r == Err::<(), ErrorKind>(
                ErrorKind::InvalidKeyType,
            ),
    {
        if v > i64::MAX as u64 {
            return Err(ErrorKind::NumericOverflow);
        }
        self.serialize_i64(v as i64, slot)
    }

    /// Writes a character as a text of that one character.
    pub fn serialize_char(&mut self, v: char, slot: Slot) -> (r: Result<(), ErrorKind>)
        ensures
            final(self).wrote(old(self), r, text_wire(seq![v], slot)),
    {
        let text = string_of_char(v);
        self.serialize_str(text.as_str(), slot)
    }

    /// Refuses a run of raw bytes: the format cannot hold one.
    pub fn serialize_bytes(&mut self, _v: &[u8]) -> (r: Result<(), ErrorKind>)
        ensures
            final(self).wrote(old(self), r, unsupported()),
    {
        Err(ErrorKind::UnsupportedValue)
    }

    /// Refuses an absent value: the format cannot hold one.
    pub fn serialize_none(&mut self) -> (r: Result<(), ErrorKind>)
        ensures
            final(self).wrote(old(self), r, unsupported()),
    {
        Err(ErrorKind::UnsupportedValue)
    }

    /// Refuses a null value: the format cannot hold one.
    pub fn serialize_unit(&mut self) -> (r: Result<(), ErrorKind>)
        ensures
            final(self).wrote(old(self), r, unsupported()),
    {
        Err(ErrorKind::UnsupportedValue)
    }

    /// Refuses a named null value: the format cannot hold one.
    pub fn serialize_unit_struct(&mut self, _name: &str) -> (r: Result<(), ErrorKind>)
        ensures
            final(self).wrote(old(self), r, unsupported()),
    {
        Err(ErrorKind::UnsupportedValue)
    }

    /// Refuses a variant without content: the format cannot hold variants.
    pub fn serialize_unit_variant(
        &mut self,
        _name: &str,
        _variant_index: u32,
        _variant: &str,
    ) -> (r: Result<(), ErrorKind>)
        ensures
            final(self).wrote(old(self), r, unsupported()),
    {
        Err(ErrorKind::UnsupportedValue)
    }

    /// Refuses a variant with one value: the format cannot hold variants.
    pub fn serialize_newtype_variant(
        &mut self,
        _name: &str,
        _variant_index: u32,
        _variant: &str,
    ) -> (r: Result<(), ErrorKind>)
        ensures
            final(self).wrote(old(self), r, unsupported()),
    {
        Err(ErrorKind::UnsupportedValue)
    }

    /// Refuses a sequence: the format cannot hold one.
    pub fn serialize_seq(&mut self, _len: Option<usize>) -> (r: Result<(), ErrorKind>)
        ensures
            final(self).wrote(old(self), r, unsupported()),
    {
        Err(ErrorKind::UnsupportedValue)
    }

    /// Refuses a tuple: the format cannot hold one.
    pub fn serialize_tuple(&mut self, _len: usize) -> (r: Result<(), ErrorKind>)
        ensures
            final(self).wrote(old(self), r, unsupported()),
    {
        Err(ErrorKind::UnsupportedValue)
    }

    /// Refuses a named tuple: the format cannot hold one.
    pub fn serialize_tuple_struct(&mut self, _name: &str, _len: usize) -> (r: Result<
        (),
        ErrorKind,
    >)
        ensures
            final(self).wrote(old(self), r, unsupported()),
    {
        Err(ErrorKind::UnsupportedValue)
    }

    /// Refuses a variant with a tuple: the format cannot hold variants.
    pub fn serialize_tuple_variant(
        &mut self,
        _name: &str,
        _variant_index: u32,
        _variant: &str,
        _len: usize,
    ) -> (r: Result<(), ErrorKind>)
        ensures
            final(self).wrote(old(self), r, unsupported()),
    {
        Err(ErrorKind::UnsupportedValue)
    }

    /// Refuses a variant with fields: the format cannot hold variants.
    pub fn serialize_struct_variant(
        &mut self,
        _name: &str,
        _variant_index: u32,
        _variant: &str,
        _len: usize,
    ) -> (r: Result<(), ErrorKind>)
        ensures
            final(self).wrote(old(self), r, unsupported()),
    {
        Err(ErrorKind::UnsupportedValue)
    }

    /// Opens a table: writes the magic and the number of entries.
    ///
    /// A table can only stand by itself: as a key it is an `InvalidKeyType`, as a
    /// value an `UnsupportedValue`. A table whose number of entries is not given
    /// is a `LengthNotGiven`; one with more entries than the count field can say
    /// is a `NumericOverflow`.
    pub fn serialize_map(&mut self, len: Option<usize>, slot: Slot) -> (r: Result<(), ErrorKind>)
        ensures
            final(self).wrote(old(self), r, table_wire(len, slot)),
            slot == Slot::Key ==> r == Err::<(), ErrorKind>(ErrorKind::InvalidKeyType),
    {
        match slot {
            Slot::Key => {
                return Err(ErrorKind::InvalidKeyType);
            },
            Slot::Value => {
                return Err(ErrorKind::UnsupportedValue);
            },
            Slot::Root => {},
        }
        let len: usize = match len {
            Some(len) => len,
            None => {
                return Err(ErrorKind::LengthNotGiven);
            },
        };
        if len > u32::MAX as usize {
            return Err(ErrorKind::NumericOverflow);
        }
        self.output.push(0x4D);
        self.output.push(0x41);
        self.output.push(0x50);
        self.output.push(0x31);
        self.output.push(0x2E);
        self.output.push(0x30);
        self.put_u32(len as u32);
        proof {
            assert(self@ =~= old(self)@ + header_bytes(len as u32));
        }
        Ok(())
    }

    /// Opens a table whose keys are the names of the fields of a record.
    pub fn serialize_struct(&mut self, _name: &str, len: usize, slot: Slot) -> (r: Result<
        (),
        ErrorKind,
    >)
        ensures
            final(self).wrote(old(self), r, table_wire(Some(len), slot)),
            slot == Slot::Key ==> r == Err::<(), ErrorKind>(ErrorKind::InvalidKeyType),
    {
        self.serialize_map(Some(len), slot)
    }

    /// Writes the key of an entry: a plain string.
    pub fn serialize_key(&mut self, key: &str) -> (r: Result<(), ErrorKind>)
        ensures
            final(self).wrote(old(self), r, text_wire(key@, Slot::Key)),
    {
        self.serialize_str(key, Slot::Key)
    }

    /// Writes the value of an entry, with its tag.
    pub fn serialize_value(&mut self, value: &Value) -> (r: Result<(), ErrorKind>)
        ensures
            final(self).wrote(old(self), r, value_wire(value@, Slot::Value)),
    {
        match value {
            Value::I64(v) => self.serialize_i64(*v, Slot::Value),
            Value::F64(bits) => self.serialize_f64(*bits, Slot::Value),
            Value::Text(text) => self.serialize_str(text.as_str(), Slot::Value),
        }
    }

    /// Writes an entry: its key, then its value.
    pub fn serialize_field(&mut self, key: &str, value: &Value) -> (r: Result<(), ErrorKind>)
        ensures
            final(self).wrote(
                old(self),
                r,
                entry_wire(EntryView { key: key@, value: value@ }),
            ),
    {
        proof {
            reveal(entry_wire);
        }
        let start: usize = self.output.len();
        match self.serialize_key(key) {
            Ok(()) => {},
            Err(kind) => {
                return Err(kind);
            },
        }
        match self.serialize_value(value) {
            Ok(()) => {},
            Err(kind) => {
                self.output.truncate(start);
                proof {
                    assert(self@ =~= old(self)@);
                }
                return Err(kind);
            },
        }
        proof {
            let key_bytes = text_wire(key@, Slot::Key)->Ok_0;
            let value_bytes = value_wire(value@, Slot::Value)->Ok_0;
            assert(self@ =~= old(self)@ + (key_bytes + value_bytes));
        }
        Ok(())
    }

    /// Closes a table. Nothing is written: a table ends where the file ends.
    pub fn end(&mut self) -> (r: Result<(), ErrorKind>)
        ensures
            r == Ok::<(), ErrorKind>(()),
            final(self)@ == old(self)@,
    {
        Ok(())
    }
}

/// What comes of writing a shape that the format cannot hold.
pub open spec fn unsupported() -> Result<Seq<u8>, ErrorKind> {
    Err(ErrorKind::UnsupportedValue)
}

/// A 64-bit unsigned integer in a slot: it is written as a signed one, if it is one.
pub open spec fn u64_wire(v: u64, slot: Slot) -> Result<Seq<u8>, ErrorKind> {
    if v > i64::MAX {
        Err(ErrorKind::NumericOverflow)
    } else {
        i64_wire(v as i64, slot)
    }
}

/// Calls `String::from` of std on a character.
///
/// The contract claims what the documentation of the conversion says: the string
/// holds that character and nothing else.
#[verifier::external_body]
fn string_of_char(c: char) -> (s: String)
    ensures
        s@ == seq![c],
{
    String::from(c)
}

/// Bytes that were written, followed by what the entries still to come are
/// written as.
pub open spec fn written_then(done: Seq<u8>, rest: Result<Seq<u8>, ErrorKind>) -> Result<
    Seq<u8>,
    ErrorKind,
> {
    match rest {
        Ok(more) => Ok(done + more),
        Err(kind) => Err(kind),
    }
}

/// Writing entries is writing the first and then the entries after it.
pub proof fn lemma_entries_wire_step(entries: Seq<EntryView>, done: Seq<u8>)
    requires
        entries.len() > 0,
    ensures
        match entry_wire(entries[0]) {
            Err(kind) => entries_wire(entries) == Err::<Seq<u8>, ErrorKind>(kind),
            Ok(first) => written_then(done, entries_wire(entries)) == written_then(
                done + first,
                entries_wire(entries.drop_first()),
            ),
        },
{
    match entry_wire(entries[0]) {
        Err(kind) => {},
        Ok(first) => {
            match entries_wire(entries.drop_first()) {
                Err(kind) => {},
                Ok(rest) => {
                    assert(done + (first + rest) =~= (done + first) + rest);
                },
            }
        },
    }
}

/// Encodes a table.
///
/// The header carries the true number of entries. The entries follow in their
/// order. The first entry that cannot be written ends the encoding: its key or its
/// text holds a character outside Windows-1252, or is too long for its length field.
/// The bytes of a table that was encoded decode to that table.
pub fn to_bytes(value: &Document) -> (r: Result<Vec<u8>, ErrorKind>)
    ensures
        match document_wire(value@) {
            Ok(bytes) => r is Ok && r->Ok_0@ == bytes,
            Err(kind) => r == Err::<Vec<u8>, ErrorKind>(kind),
        },
        r matches Ok(bytes) ==> parse_document(bytes@) == Ok::<Seq<EntryView>, ErrorWithOffset>(
            value@,
        ),
        r matches Err(kind) ==> kind is TextEncodingError || kind is NumericOverflow,
{
    proof {
        lemma_document_wire_faults(value@);
        if document_wire(value@) is Ok {
            lemma_write_then_read(value@);
        }
    }
    write_document(value)
}

/// Writes a table: the header, then the entries in their order.
fn write_document(value: &Document) -> (r: Result<Vec<u8>, ErrorKind>)
    ensures
        match document_wire(value@) {
            Ok(bytes) => r is Ok && r->Ok_0@ == bytes,
            Err(kind) => r == Err::<Vec<u8>, ErrorKind>(kind),
        },
{
    let mut serializer = Serializer::new();
    let count: usize = value.entries.len();
    serializer.serialize_map(Some(count), Slot::Root)?;
    let ghost header = serializer@;
    let mut i: usize = 0;
    proof {
        assert(value@.skip(0) =~= value@);
        assert(header + Seq::<u8>::empty() =~= header);
    }
    while i < count
        invariant
            i <= count,
            count == value.entries@.len(),
            count == value@.len(),
            count <= u32::MAX,
            header == header_bytes(count as u32),
            serializer@.len() >= header.len(),
            serializer@.subrange(0, header.len() as int) == header,
            written_then(
                serializer@.skip(header.len() as int),
                entries_wire(value@.skip(i as int)),
            ) == entries_wire(value@),
        decreases count - i,
    {
        let entry = &value.entries[i];
        let ghost before = serializer@;
        proof {
            lemma_entries_wire_step(value@.skip(i as int), before.skip(header.len() as int));
            assert(value@.skip(i as int)[0] == entry@);
            assert(value@.skip(i as int).drop_first() =~= value@.skip(i + 1));
        }
        serializer.serialize_field(entry.key.as_str(), &entry.value)?;
        proof {
            let wire = entry_wire(entry@)->Ok_0;
            assert(serializer@.skip(header.len() as int) =~= before.skip(header.len() as int)
                + wire);
            assert(serializer@.subrange(0, header.len() as int) =~= before.subrange(
                0,
                header.len() as int,
            ));
        }
        i = i + 1;
    }
    serializer.end()?;
    proof {
        assert(value@.skip(count as int) =~= Seq::<EntryView>::empty());
        assert(serializer@ =~= header + serializer@.skip(header.len() as int));
        assert(serializer@.skip(header.len() as int) + Seq::<u8>::empty()
            =~= serializer@.skip(header.len() as int));
    }
    Ok(serializer.into_bytes())
}

} // verus!
