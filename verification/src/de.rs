//! Reading a table.

use vstd::prelude::*;
use vstd::slice::slice_subrange;
use vstd::std_specs::convert::TryFromSpec;
use crate::codepage::decode;
use crate::constants::{magic, TYPE_F64, TYPE_I64, TYPE_STRING};
use crate::endian::{i64_from_bits, u32_from_le, u64_from_le};
use crate::error::{ErrorKind, ErrorWithOffset};
use crate::laws::lemma_read_then_write;
use crate::value::{Document, Entry, Node, Slot, Value};
use crate::wire::{
    cut_short, document_wire, fault, followed_by, has_magic, lemma_parse_entries_step,
    lemma_parse_entry_size, lemma_parse_table_faults, parse_document, parse_entries, parse_entry,
    parse_f64, parse_header, parse_i64, parse_integer, parse_key, parse_node, parse_string,
    parse_table, parse_tag, parse_u32, parse_value, reading_fault, tag_len, u32_at, u64_at,
};

verus! {

/// A cursor over the bytes of a table.
///
/// A read that succeeds moves the cursor past what it read. A read that fails
/// leaves the cursor where it was.
pub struct Deserializer<'de> {
    input: &'de [u8],
    pos: usize,
}

impl<'de> Deserializer<'de> {
    #[verifier::type_invariant]
    spec fn inv(self) -> bool {
        self.pos <= self.input@.len()
    }

    /// The whole input.
    pub closed spec fn whole(&self) -> Seq<u8> {
        self.input@
    }

    /// The offset of the cursor: the number of bytes read so far.
    pub closed spec fn at(&self) -> int {
        self.pos as int
    }

    /// The input from the cursor on.
    pub closed spec fn rest(&self) -> Seq<u8> {
        self.input@.skip(self.pos as int)
    }

    /// Whether this cursor is `before` moved forward by `n` bytes.
    pub open spec fn advanced(&self, before: &Self, n: int) -> bool {
        &&& self.whole() == before.whole()
        &&& self.at() == before.at() + n
        &&& self.rest() == before.rest().skip(n)
    }

    /// A cursor at the start of the input.
    pub fn from_bytes(input: &'de [u8]) -> (de: Self)
        ensures
            de.whole() == input@,
            de.rest() == input@,
            de.at() == 0,
    {
        let de = Deserializer { input, pos: 0 };
        assert(input@.skip(0) =~= input@);
        de
    }

    /// The number of bytes read so far.
    pub fn offset(&self) -> (n: usize)
        ensures
            n == self.at(),
    {
        self.pos
    }

    /// The number of bytes that are left.
    pub fn remaining(&self) -> (n: usize)
        ensures
            n == self.rest().len(),
    {
        proof {
            use_type_invariant(self);
        }
        self.input.len() - self.pos
    }

    /// The 32-bit field at the cursor, which stays where it is.
    ///
    /// Input that ends before the field is complete is a `StringLengthError` at the
    /// offset of the cursor.
    pub fn peek_u32(&self) -> (r: Result<u32, ErrorWithOffset>)
        ensures
            r == parse_u32(self.rest(), self.at()),
    {
        self.peek_u32_after(0)
    }

    /// Reads the 32-bit field at the cursor.
    ///
    /// Input that ends before the field is complete is a `StringLengthError` at the
    /// offset of the cursor.
    pub fn read_u32(&mut self) -> (r: Result<u32, ErrorWithOffset>)
        ensures
            r == parse_u32(old(self).rest(), old(self).at()),
            final(self).advanced(old(self), if r is Ok { 4int } else { 0int }),
    {
        proof {
            assert(self.rest().skip(0) =~= self.rest());
        }
        let v: u32 = self.peek_u32_after(0)?;
        self.advance(4);
        Ok(v)
    }

    /// The byte that stands `skip` bytes after the cursor.
    fn byte_after(&self, skip: usize) -> (b: u8)
        requires
            skip < self.rest().len(),
        ensures
            b == self.rest()[skip as int],
    {
        proof {
            use_type_invariant(self);
            assert(self.input.len() == self.input@.len());
        }
        self.input[self.pos + skip]
    }

    /// The bytes that stand from `from` to `to` bytes after the cursor.
    fn bytes_after(&self, from: usize, to: usize) -> (bytes: &'de [u8])
        requires
            from <= to <= self.rest().len(),
        ensures
            bytes@ == self.rest().subrange(from as int, to as int),
    {
        proof {
            use_type_invariant(self);
            assert(self.input.len() == self.input@.len());
            assert(self.input@.subrange(self.pos + from, self.pos + to) =~= self.rest().subrange(
                from as int,
                to as int,
            ));
        }
        slice_subrange(self.input, self.pos + from, self.pos + to)
    }

    /// The 32-bit field that begins `skip` bytes after the cursor, or the error for
    /// a field cut short.
    fn peek_u32_after(&self, skip: usize) -> (r: Result<u32, ErrorWithOffset>)
        requires
            skip <= self.rest().len(),
        ensures
            r == (if self.rest().len() - skip < 4 {
                Err::<u32, ErrorWithOffset>(
                    cut_short(self.at() + skip, 4, self.rest().len() - skip),
                )
            } else {
                Ok::<u32, ErrorWithOffset>(u32_at(self.rest(), skip as int))
            }),
    {
        proof {
            use_type_invariant(self);
            assert(self.input.len() == self.input@.len());
        }
        let left: usize = self.remaining() - skip;
        if left < 4 {
            return ErrorKind::StringLengthError(4, left).with(self.pos + skip);
        }
        Ok(u32_from_le(self.bytes_after(skip, skip + 4)))
    }

    /// The 64-bit field that begins `skip` bytes after the cursor, or the error for
    /// a field cut short.
    fn peek_u64_after(&self, skip: usize) -> (r: Result<u64, ErrorWithOffset>)
        requires
            skip <= self.rest().len(),
        ensures
            r == (if self.rest().len() - skip < 8 {
                Err::<u64, ErrorWithOffset>(
                    cut_short(self.at() + skip, 8, self.rest().len() - skip),
                )
            } else {
                Ok::<u64, ErrorWithOffset>(u64_at(self.rest(), skip as int))
            }),
    {
        proof {
            use_type_invariant(self);
            assert(self.input.len() == self.input@.len());
        }
        let left: usize = self.remaining() - skip;
        if left < 8 {
            return ErrorKind::StringLengthError(8, left).with(self.pos + skip);
        }
        Ok(u64_from_le(self.bytes_after(skip, skip + 8)))
    }

    /// Moves the cursor forward by `n` bytes.
    fn advance(&mut self, n: usize)
        requires
            n <= old(self).rest().len(),
        ensures
            final(self).advanced(old(self), n as int),
    {
        proof {
            use_type_invariant(&*self);
            assert(self.input.len() == self.input@.len());
        }
        self.pos = self.pos + n;
        proof {
            assert(self.rest() =~= old(self).rest().skip(n as int));
        }
    }

    /// Reads the tag that a datum of type `ty` carries in a slot, and gives the
    /// number of bytes it takes. The cursor stays where it is.
    fn check_tag(&self, slot: Slot, ty: u32) -> (r: Result<usize, ErrorWithOffset>)
        ensures
            match parse_tag(self.rest(), self.at(), slot, ty) {
                Ok(n) => r == Ok::<usize, ErrorWithOffset>(n as usize) && 0 <= n
                    <= self.rest().len(),
                Err(e) => r == Err::<usize, ErrorWithOffset>(e),
            },
    {
        match slot {
            Slot::Value => {
                let tag: u32 = self.peek_u32_after(0)?;
                if tag != ty {
                    proof {
                        use_type_invariant(self);
                        assert(self.input.len() == self.input@.len());
                    }
                    return ErrorKind::TypeMismatch.with(self.pos + 4);
                }
                Ok(4)
            },
            _ => Ok(0),
        }
    }

    /// What an integer at the cursor reads as, and the number of bytes it takes.
    fn scan_i64(&self, slot: Slot) -> (r: Result<(i64, usize), ErrorWithOffset>)
        ensures
            match parse_i64(self.rest(), self.at(), slot) {
                Ok((v, n)) => r == Ok::<(i64, usize), ErrorWithOffset>((v, n as usize)) && 0 <= n
                    <= self.rest().len(),
                Err(e) => r == Err::<(i64, usize), ErrorWithOffset>(e),
            },
    {
        let skip: usize = self.check_tag(slot, TYPE_I64)?;
        let bits: u64 = self.peek_u64_after(skip)?;
        Ok((i64_from_bits(bits), skip + 8))
    }

    /// Reads an integer.
    ///
    /// In a value the integer follows its tag, and another tag is a
    /// `TypeMismatch` at the offset just past it. Elsewhere the integer stands bare.
    pub fn read_i64(&mut self, slot: Slot) -> (r: Result<i64, ErrorWithOffset>)
        ensures
            match parse_i64(old(self).rest(), old(self).at(), slot) {
                Ok((v, n)) => r == Ok::<i64, ErrorWithOffset>(v) && final(self).advanced(
                    old(self),
                    n,
                ),
                Err(e) => r == Err::<i64, ErrorWithOffset>(e) && final(self).advanced(
                    old(self),
                    0,
                ),
            },
    {
        proof {
            assert(self.rest().skip(0) =~= self.rest());
        }
        let (v, n) = self.scan_i64(slot)?;
        self.advance(n);
        Ok(v)
    }

    /// Reads a floating-point number, as its IEEE-754 bit pattern.
    ///
    /// In a value the number follows its tag, and another tag is a
    /// `TypeMismatch` at the offset just past it. Elsewhere the number stands bare.
    pub fn read_f64(&mut self, slot: Slot) -> (r: Result<u64, ErrorWithOffset>)
        ensures
            match parse_f64(old(self).rest(), old(self).at(), slot) {
                Ok((bits, n)) => r == Ok::<u64, ErrorWithOffset>(bits) && final(self).advanced(
                    old(self),
                    n,
                ),
                Err(e) => r == Err::<u64, ErrorWithOffset>(e) && final(self).advanced(
                    old(self),
                    0,
                ),
            },
    {
        proof {
            assert(self.rest().skip(0) =~= self.rest());
        }
        let skip: usize = self.check_tag(slot, TYPE_F64)?;
        let bits: u64 = self.peek_u64_after(skip)?;
        self.advance(skip + 8);
        Ok(bits)
    }

    /// Reads an integer and narrows it to `T`.
    ///
    /// A number that `T` does not take is a `NumericOverflow` at the offset just
    /// past it. Which numbers `T` takes is for its conversion to say: for the
    /// integer types, those in the range of the type.
    pub fn read_integer<T: TryFrom<i64>>(&mut self, slot: Slot) -> (r: Result<T, ErrorWithOffset>)
        ensures
            match parse_i64(old(self).rest(), old(self).at(), slot) {
                Err(e) => r == Err::<T, ErrorWithOffset>(e) && final(self).advanced(old(self), 0),
                Ok((v, n)) => (r is Ok && final(self).advanced(old(self), n)) || (r == Err::<
                    T,
                    ErrorWithOffset,
                >(fault(old(self).at() + n, ErrorKind::NumericOverflow)) && final(self).advanced(
                    old(self),
                    0,
                )),
            },
            T::obeys_try_from_spec() ==> match parse_i64(old(self).rest(), old(self).at(), slot) {
                Err(e) => r == Err::<T, ErrorWithOffset>(e) && final(self).advanced(old(self), 0),
                Ok((v, n)) => match T::try_from_spec(v) {
                    Ok(t) => r == Ok::<T, ErrorWithOffset>(t) && final(self).advanced(
                        old(self),
                        n,
                    ),
                    Err(_) => r == Err::<T, ErrorWithOffset>(
                        fault(old(self).at() + n, ErrorKind::NumericOverflow),
                    ) && final(self).advanced(old(self), 0),
                },
            },
    {
        proof {
            use_type_invariant(&*self);
            assert(self.input.len() == self.input@.len());
            assert(self.rest().skip(0) =~= self.rest());
        }
        let (v, n) = self.scan_i64(slot)?;
        match T::try_from(v) {
            Ok(t) => {
                self.advance(n);
                Ok(t)
            },
            Err(_) => ErrorKind::NumericOverflow.with(self.pos + n),
        }
    }

    /// Reads an integer as a truth value: zero is false, any other number true.
    pub fn deserialize_bool(&mut self, slot: Slot) -> (r: Result<bool, ErrorWithOffset>)
        ensures
            match parse_i64(old(self).rest(), old(self).at(), slot) {
                Ok((v, n)) => r == Ok::<bool, ErrorWithOffset>(v != 0) && final(self).advanced(
                    old(self),
                    n,
                ),
                Err(e) => r == Err::<bool, ErrorWithOffset>(e) && final(self).advanced(
                    old(self),
                    0,
                ),
            },
    {
        let v: i64 = self.read_i64(slot)?;
        Ok(v != 0)
    }

    /// Reads an integer that has to fit 8 bits, signed.
    ///
    /// A number that does not fit is a `NumericOverflow` at the offset just past it.
    pub fn deserialize_i8(&mut self, slot: Slot) -> (r: Result<i8, ErrorWithOffset>)
        ensures
            match parse_integer(
                old(self).rest(),
                old(self).at(),
                slot,
                i8::MIN as int,
                i8::MAX as int,
            ) {
                Ok((v, n)) => r == Ok::<i8, ErrorWithOffset>(v as i8) && final(self).advanced(
                    old(self),
                    n,
                ),
                Err(e) => r == Err::<i8, ErrorWithOffset>(e) && final(self).advanced(
                    old(self),
                    0,
                ),
            },
    {
        self.read_integer::<i8>(slot)
    }

    /// Reads an integer that has to fit 16 bits, signed.
    ///
    /// A number that does not fit is a `NumericOverflow` at the offset just past it.
    pub fn deserialize_i16(&mut self, slot: Slot) -> (r: Result<i16, ErrorWithOffset>)
        ensures
            match parse_integer(
                old(self).rest(),
                old(self).at(),
                slot,
                i16::MIN as int,
                i16::MAX as int,
            ) {
                Ok((v, n)) => r == Ok::<i16, ErrorWithOffset>(v as i16) && final(self).advanced(
                    old(self),
                    n,
                ),
                Err(e) => r == Err::<i16, ErrorWithOffset>(e) && final(self).advanced(
                    old(self),
                    0,
                ),
            },
    {
        self.read_integer::<i16>(slot)
    }

    /// Reads an integer that has to fit 32 bits, signed.
    ///
    /// A number that does not fit is a `NumericOverflow` at the offset just past it.
    pub fn deserialize_i32(&mut self, slot: Slot) -> (r: Result<i32, ErrorWithOffset>)
        ensures
            match parse_integer(
                old(self).rest(),
                old(self).at(),
                slot,
                i32::MIN as int,
                i32::MAX as int,
            ) {
                Ok((v, n)) => r == Ok::<i32, ErrorWithOffset>(v as i32) && final(self).advanced(
                    old(self),
                    n,
                ),
                Err(e) => r == Err::<i32, ErrorWithOffset>(e) && final(self).advanced(
                    old(self),
                    0,
                ),
            },
    {
        self.read_integer::<i32>(slot)
    }

    /// Reads an integer that has to fit 8 bits, unsigned.
    ///
    /// A number that does not fit is a `NumericOverflow` at the offset just past it.
    pub fn deserialize_u8(&mut self, slot: Slot) -> (r: Result<u8, ErrorWithOffset>)
        ensures
            match parse_integer(
                old(self).rest(),
                old(self).at(),
                slot,
                u8::MIN as int,
                u8::MAX as int,
            ) {
                Ok((v, n)) => r == Ok::<u8, ErrorWithOffset>(v as u8) && final(self).advanced(
                    old(self),
                    n,
                ),
                Err(e) => r == Err::<u8, ErrorWithOffset>(e) && final(self).advanced(
                    old(self),
                    0,
                ),
            },
    {
        self.read_integer::<u8>(slot)
    }

    /// Reads an integer that has to fit 16 bits, unsigned.
    ///
    /// A number that does not fit is a `NumericOverflow` at the offset just past it.
    pub fn deserialize_u16(&mut self, slot: Slot) -> (r: Result<u16, ErrorWithOffset>)
        ensures
            match parse_integer(
                old(self).rest(),
                old(self).at(),
                slot,
                u16::MIN as int,
                u16::MAX as int,
            ) {
                Ok((v, n)) => r == Ok::<u16, ErrorWithOffset>(v as u16) && final(self).advanced(
                    old(self),
                    n,
                ),
                Err(e) => r == Err::<u16, ErrorWithOffset>(e) && final(self).advanced(
                    old(self),
                    0,
                ),
            },
    {
        self.read_integer::<u16>(slot)
    }

    /// Reads an integer that has to fit 32 bits, unsigned.
    ///
    /// A number that does not fit is a `NumericOverflow` at the offset just past it.
    pub fn deserialize_u32(&mut self, slot: Slot) -> (r: Result<u32, ErrorWithOffset>)
        ensures
            match parse_integer(
                old(self).rest(),
                old(self).at(),
                slot,
                u32::MIN as int,
                u32::MAX as int,
            ) {
                Ok((v, n)) => r == Ok::<u32, ErrorWithOffset>(v as u32) && final(self).advanced(
                    old(self),
                    n,
                ),
                Err(e) => r == Err::<u32, ErrorWithOffset>(e) && final(self).advanced(
                    old(self),
                    0,
                ),
            },
    {
        self.read_integer::<u32>(slot)
    }

    /// Reads an integer that has to fit 64 bits, unsigned.
    ///
    /// A number that does not fit is a `NumericOverflow` at the offset just past it.
    pub fn deserialize_u64(&mut self, slot: Slot) -> (r: Result<u64, ErrorWithOffset>)
        ensures
            match parse_integer(
                old(self).rest(),
                old(self).at(),
                slot,
                u64::MIN as int,
                u64::MAX as int,
            ) {
                Ok((v, n)) => r == Ok::<u64, ErrorWithOffset>(v as u64) && final(self).advanced(
                    old(self),
                    n,
                ),
                Err(e) => r == Err::<u64, ErrorWithOffset>(e) && final(self).advanced(
                    old(self),
                    0,
                ),
            },
    {
        self.read_integer::<u64>(slot)
    }

    /// Reads a string.
    ///
    /// In a value the string follows its tag, and another tag is a
    /// `TypeMismatch` at the offset just past it. Elsewhere the string stands bare.
    /// A declared length that overruns the input is a `StringLengthError` at the
    /// offset of the length field. A last byte that is not NUL is a
    /// `MissingStringTerminator` at the offset of that byte.
    pub fn read_string(&mut self, slot: Slot) -> (r: Result<String, ErrorWithOffset>)
        ensures
            match parse_string(old(self).rest(), old(self).at(), slot) {
                Ok((text, n)) => r is Ok && r->Ok_0@ == text && final(self).advanced(old(self), n),
                Err(e) => r == Err::<String, ErrorWithOffset>(e) && final(self).advanced(
                    old(self),
                    0,
                ),
            },
            ({
                let bytes = old(self).rest();
                let field = tag_len(slot);
                let declared = u32_at(bytes, field) as int;
                let left = bytes.len() - field - 4;
                &&& parse_tag(bytes, old(self).at(), slot, TYPE_STRING) is Ok && left >= 0
                    && declared > left ==> r == Err::<String, ErrorWithOffset>(
                    fault(
                        old(self).at() + field,
                        ErrorKind::StringLengthError(declared as usize, left as usize),
                    ),
                )
                &&& parse_tag(bytes, old(self).at(), slot, TYPE_STRING) is Ok && 0 < declared
                    <= left && bytes[field + 4 + declared - 1] != 0 ==> r == Err::<
                    String,
                    ErrorWithOffset,
                >(
                    fault(
                        old(self).at() + field + 4 + declared - 1,
                        ErrorKind::MissingStringTerminator,
                    ),
                )
            }),
    {
        proof {
            use_type_invariant(&*self);
            assert(self.input.len() == self.input@.len());
            assert(self.rest().skip(0) =~= self.rest());
        }
        let skip: usize = self.check_tag(slot, TYPE_STRING)?;
        let declared: usize = self.peek_u32_after(skip)? as usize;
        let start: usize = skip + 4;
        let left: usize = self.remaining() - start;
        if declared > left {
            return ErrorKind::StringLengthError(declared, left).with(self.pos + skip);
        }
        if declared == 0 {
            return ErrorKind::MissingStringTerminator.with(self.pos + start);
        }
        let last: usize = start + declared - 1;
        if self.byte_after(last) != 0 {
            return ErrorKind::MissingStringTerminator.with(self.pos + last);
        }
        let text = decode(self.bytes_after(start, last));
        self.advance(last + 1);
        Ok(text)
    }

    /// Reads the value of an entry: the tag at the cursor says which kind follows.
    ///
    /// A tag that stands for no kind is an `UnknownTypeId` at the offset of the tag.
    pub fn next_value(&mut self) -> (r: Result<Value, ErrorWithOffset>)
        ensures
            match parse_value(old(self).rest(), old(self).at()) {
                Ok((value, n)) => r is Ok && r->Ok_0@ == value && final(self).advanced(
                    old(self),
                    n,
                ),
                Err(e) => r == Err::<Value, ErrorWithOffset>(e) && final(self).advanced(
                    old(self),
                    0,
                ),
            },
            ({
                let tag = u32_at(old(self).rest(), 0);
                old(self).rest().len() >= 4 && tag != TYPE_I64 && tag != TYPE_F64 && tag
                    != TYPE_STRING ==> r == Err::<Value, ErrorWithOffset>(
                    fault(old(self).at(), ErrorKind::UnknownTypeId(tag)),
                )
            }),
    {
        proof {
            assert(self.rest().skip(0) =~= self.rest());
        }
        let tag: u32 = self.peek_u32_after(0)?;
        if tag == TYPE_I64 {
            Ok(Value::I64(self.read_i64(Slot::Value)?))
        } else if tag == TYPE_F64 {
            Ok(Value::F64(self.read_f64(Slot::Value)?))
        } else if tag == TYPE_STRING {
            Ok(Value::Text(self.read_string(Slot::Value)?))
        } else {
            ErrorKind::UnknownTypeId(tag).with(self.pos)
        }
    }

    /// Reads the key of the next entry, or gives `None` where the input is used up.
    pub fn next_key(&mut self) -> (r: Result<Option<String>, ErrorWithOffset>)
        ensures
            old(self).rest().len() == 0 ==> r == Ok::<Option<String>, ErrorWithOffset>(None)
                && final(self).advanced(old(self), 0),
            old(self).rest().len() > 0 ==> match parse_key(old(self).rest(), old(self).at()) {
                Ok((text, n)) => r is Ok && r->Ok_0 is Some && r->Ok_0->Some_0@ == text
                    && final(self).advanced(old(self), n),
                Err(e) => r == Err::<Option<String>, ErrorWithOffset>(e) && final(self).advanced(
                    old(self),
                    0,
                ),
            },
    {
        if self.remaining() == 0 {
            proof {
                assert(self.rest().skip(0) =~= self.rest());
            }
            return Ok(None);
        }
        let key = self.read_string(Slot::Key)?;
        Ok(Some(key))
    }

    /// Reads the header of a table and gives the number of entries it declares.
    ///
    /// Input that does not begin with the magic is an `InvalidHeader` at the
    /// offset of the cursor; input that ends before the count is complete is one
    /// at the offset of the count.
    pub fn read_header(&mut self) -> (r: Result<u32, ErrorWithOffset>)
        ensures
            match parse_header(old(self).rest(), old(self).at()) {
                Ok((count, n)) => r == Ok::<u32, ErrorWithOffset>(count) && final(self).advanced(
                    old(self),
                    n,
                ),
                Err(e) => r == Err::<u32, ErrorWithOffset>(e) && final(self).advanced(
                    old(self),
                    0,
                ),
            },
    {
        proof {
            use_type_invariant(&*self);
            assert(self.input.len() == self.input@.len());
            assert(self.rest().skip(0) =~= self.rest());
        }
        let left: usize = self.remaining();
        if !(left >= 6 && self.byte_after(0) == 0x4D && self.byte_after(1) == 0x41
            && self.byte_after(2) == 0x50 && self.byte_after(3) == 0x31 && self.byte_after(4)
            == 0x2E && self.byte_after(5) == 0x30) {
            proof {
                if left >= 6 {
                    let head = self.rest().subrange(0, 6);
                    assert(head[0] == self.rest()[0] && head[1] == self.rest()[1] && head[2]
                        == self.rest()[2] && head[3] == self.rest()[3] && head[4] == self.rest()[4]
                        && head[5] == self.rest()[5]);
                }
            }
            return ErrorKind::InvalidHeader.with(self.pos);
        }
        proof {
            assert(self.rest().subrange(0, 6) =~= magic());
        }
        if left < 10 {
            return ErrorKind::InvalidHeader.with(self.pos + 6);
        }
        let count: u32 = u32_from_le(self.bytes_after(6, 10));
        self.advance(10);
        Ok(count)
    }

    /// Reads one entry: its key, then its value.
    pub fn next_entry(&mut self) -> (r: Result<Entry, ErrorWithOffset>)
        ensures
            match parse_entry(old(self).rest(), old(self).at()) {
                Ok((entry, n)) => r is Ok && r->Ok_0@ == entry && final(self).advanced(
                    old(self),
                    n,
                ),
                Err(e) => r == Err::<Entry, ErrorWithOffset>(e) && final(self).advanced(
                    old(self),
                    0,
                ),
            },
    {
        proof {
            reveal(parse_entry);
            use_type_invariant(&*self);
            assert(self.rest().skip(0) =~= self.rest());
        }
        let mut cursor = Deserializer { input: self.input, pos: self.pos };
        let key = cursor.read_string(Slot::Key)?;
        let ghost n = cursor.at() - self.at();
        let value = cursor.next_value()?;
        proof {
            use_type_invariant(&cursor);
            let m = cursor.at() - self.at() - n;
            assert(self.rest().skip(n).skip(m) =~= self.rest().skip(n + m));
        }
        self.pos = cursor.pos;
        Ok(Entry { key, value })
    }

    /// Reads a table that runs to the end of the input.
    ///
    /// The number of entries that the header declares is read and then left
    /// aside: entries are read until the input is used up.
    pub fn deserialize_map(&mut self) -> (r: Result<Document, ErrorWithOffset>)
        ensures
            match parse_table(old(self).rest(), old(self).at()) {
                Ok(doc) => r is Ok && r->Ok_0@ == doc && final(self).advanced(
                    old(self),
                    old(self).rest().len() as int,
                ) && final(self).rest().len() == 0,
                Err(e) => r == Err::<Document, ErrorWithOffset>(e) && final(self).advanced(
                    old(self),
                    0,
                ),
            },
    {
        proof {
            use_type_invariant(&*self);
            assert(self.rest().skip(0) =~= self.rest());
        }
        let mut cursor = Deserializer { input: self.input, pos: self.pos };
        let _ = cursor.read_header()?;
        let ghost body = cursor.rest();
        let ghost base = cursor.at();
        let mut doc = Document::new();
        proof {
            assert(doc@ + parse_entries(body, base)->Ok_0 =~= parse_entries(body, base)->Ok_0);
        }
        while cursor.remaining() > 0
            invariant
                cursor.whole() == self.whole(),
                cursor.at() + cursor.rest().len() == self.at() + self.rest().len(),
                followed_by(doc@, parse_entries(cursor.rest(), cursor.at())) == parse_entries(
                    body,
                    base,
                ),
                parse_table(self.rest(), self.at()) == parse_entries(body, base),
                *self == *old(self),
                self.rest().skip(0) == self.rest(),
            decreases cursor.rest().len(),
        {
            proof {
                lemma_parse_entries_step(cursor.rest(), cursor.at(), doc@);
                lemma_parse_entry_size(cursor.rest(), cursor.at());
            }
            let entry = cursor.next_entry()?;
            doc.push(entry.key, entry.value);
        }
        proof {
            use_type_invariant(&cursor);
            assert(cursor.rest() =~= self.rest().skip(self.rest().len() as int));
        }
        self.pos = cursor.pos;
        Ok(doc)
    }

    /// Reads whatever stands in a slot: a table by itself, a plain string as a key,
    /// a tagged scalar as a value.
    pub fn deserialize_any(&mut self, slot: Slot) -> (r: Result<Node, ErrorWithOffset>)
        ensures
            match parse_node(old(self).rest(), old(self).at(), slot) {
                Ok((node, n)) => r is Ok && r->Ok_0@ == node && final(self).advanced(old(self), n),
                Err(e) => r == Err::<Node, ErrorWithOffset>(e) && final(self).advanced(
                    old(self),
                    0,
                ),
            },
    {
        match slot {
            Slot::Root => Ok(Node::Table(self.deserialize_map()?)),
            Slot::Key => Ok(Node::Scalar(Value::Text(self.read_string(Slot::Key)?))),
            Slot::Value => Ok(Node::Scalar(self.next_value()?)),
        }
    }

    /// Checks that the input is used up: input that is left over is a
    /// `TrailingCharacters` at the offset of the cursor.
    pub fn end(&self) -> (r: Result<(), ErrorWithOffset>)
        ensures
            r == (if self.rest().len() == 0 {
                Ok::<(), ErrorWithOffset>(())
            } else {
                Err::<(), ErrorWithOffset>(fault(self.at(), ErrorKind::TrailingCharacters))
            }),
    {
        if self.remaining() == 0 {
            Ok(())
        } else {
            ErrorKind::TrailingCharacters.with(self.pos)
        }
    }
}

/// Decodes a table.
///
/// The input has to begin with the header and then hold whole entries up to its
/// end. The first fault that is met going through the input ends the decoding, and
/// is told with its offset in the input. Input whose first six bytes are not the
/// magic is an `InvalidHeader` at offset 0. Where the header declares the number of
/// entries that were read, encoding the document gives the input back.
pub fn from_bytes(b: &[u8]) -> (r: Result<Document, ErrorWithOffset>)
    ensures
        match parse_document(b@) {
            Ok(doc) => r is Ok && r->Ok_0@ == doc,
            Err(e) => r == Err::<Document, ErrorWithOffset>(e),
        },
        !has_magic(b@) ==> r == Err::<Document, ErrorWithOffset>(
            fault(0, ErrorKind::InvalidHeader),
        ),
        r matches Err(e) ==> reading_fault(e, 0, b@.len() as int),
        r matches Ok(doc) ==> (u32_at(b@, 6) == doc@.len() ==> document_wire(doc@) == Ok::<
            Seq<u8>,
            ErrorKind,
        >(b@)),
{
    proof {
        assert(b.len() == b@.len());
        lemma_parse_table_faults(b@, 0);
        if parse_document(b@) is Ok && u32_at(b@, 6) == parse_document(b@)->Ok_0.len() {
            lemma_read_then_write(b@);
        }
    }
    let mut deserializer = Deserializer::from_bytes(b);
    let doc = deserializer.deserialize_map()?;
    deserializer.end()?;
    Ok(doc)
}

} // verus!
