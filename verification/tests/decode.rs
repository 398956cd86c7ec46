use construct_classic::{
    from_bytes, Deserializer, Document, Entry, ErrorKind, ErrorWithOffset, Node, Slot, Value,
};

const MAGIC: [u8; 6] = [0x4D, 0x41, 0x50, 0x31, 0x2E, 0x30];

fn table(count: u32, body: &[u8]) -> Vec<u8> {
    let mut bytes = MAGIC.to_vec();
    bytes.extend(count.to_le_bytes());
    bytes.extend_from_slice(body);
    bytes
}

fn fails(offset: usize, kind: ErrorKind) -> ErrorWithOffset {
    ErrorWithOffset { offset: Some(offset), kind }
}

fn entry(key: &str, value: Value) -> Entry {
    Entry { key: key.to_string(), value }
}

const SAMPLE_BODY: [u8; 38] = [
    0x03, 0x00, 0x00, 0x00, 0x68, 0x70, 0x00, // "hp"
    0x00, 0x00, 0x00, 0x00, 0x64, 0x00, 0x00, 0x00, 0x00, 0x00, 0x00, 0x00, // integer 100
    0x05, 0x00, 0x00, 0x00, 0x6E, 0x61, 0x6D, 0x65, 0x00, // "name"
    0x02, 0x00, 0x00, 0x00, 0x04, 0x00, 0x00, 0x00, 0x4F, 0x72, // string "Or..
];

fn sample() -> Vec<u8> {
    let mut body = SAMPLE_BODY.to_vec();
    body.extend([0x63, 0x00]);
    table(2, &body)
}

#[test]
fn decodes_the_sample_table() {
    let doc = from_bytes(&sample()).unwrap();
    assert_eq!(
        doc,
        Document {
            entries: vec![
                entry("hp", Value::I64(100)),
                entry("name", Value::Text("Orc".to_string())),
            ],
        }
    );
    assert_eq!(doc.len(), 2);
}

#[test]
fn decodes_a_header_alone_as_an_empty_table() {
    assert_eq!(from_bytes(&table(0, &[])), Ok(Document::new()));
}

#[test]
fn does_not_hold_the_count_against_the_entries() {
    assert_eq!(from_bytes(&table(77, &[])), Ok(Document::new()));
    let mut bytes = sample();
    bytes[6] = 0;
    assert_eq!(from_bytes(&bytes).unwrap().len(), 2);
}

#[test]
fn decodes_a_float_as_its_bits() {
    let mut body = vec![2, 0, 0, 0, 0x78, 0, 1, 0, 0, 0];
    body.extend((-0.25f64).to_le_bytes());
    let doc = from_bytes(&table(1, &body)).unwrap();
    assert_eq!(doc.entries, vec![entry("x", Value::F64((-0.25f64).to_bits()))]);
    match &doc.entries[0].value {
        Value::F64(bits) => assert_eq!(f64::from_bits(*bits), -0.25),
        other => panic!("not a float: {:?}", other),
    }
}

#[test]
fn decodes_a_negative_integer() {
    let body = [2, 0, 0, 0, 0x78, 0, 0, 0, 0, 0, 0xFE, 0xFF, 0xFF, 0xFF, 0xFF, 0xFF, 0xFF, 0xFF];
    let doc = from_bytes(&table(1, &body)).unwrap();
    assert_eq!(doc.entries, vec![entry("x", Value::I64(-2))]);
}

#[test]
fn keeps_repeated_keys_in_their_order() {
    let one = [2, 0, 0, 0, 0x6B, 0, 0, 0, 0, 0, 1, 0, 0, 0, 0, 0, 0, 0];
    let two = [2, 0, 0, 0, 0x6B, 0, 0, 0, 0, 0, 2, 0, 0, 0, 0, 0, 0, 0];
    let mut body = one.to_vec();
    body.extend(two);
    let doc = from_bytes(&table(2, &body)).unwrap();
    assert_eq!(doc.entries, vec![entry("k", Value::I64(1)), entry("k", Value::I64(2))]);
}

#[test]
fn rejects_a_wrong_magic_at_offset_zero() {
    assert_eq!(from_bytes(b"MAP2.0\x00\x00\x00\x00"), Err(fails(0, ErrorKind::InvalidHeader)));
    assert_eq!(from_bytes(b"map1.0\x00\x00\x00\x00"), Err(fails(0, ErrorKind::InvalidHeader)));
    let mut bytes = sample();
    bytes[5] = 0x31;
    assert_eq!(from_bytes(&bytes), Err(fails(0, ErrorKind::InvalidHeader)));
}

#[test]
fn rejects_an_input_shorter_than_the_magic() {
    assert_eq!(from_bytes(&[]), Err(fails(0, ErrorKind::InvalidHeader)));
    assert_eq!(from_bytes(b"MAP1."), Err(fails(0, ErrorKind::InvalidHeader)));
}

#[test]
fn rejects_a_header_without_a_whole_count() {
    assert_eq!(from_bytes(b"MAP1.0"), Err(fails(6, ErrorKind::InvalidHeader)));
    assert_eq!(from_bytes(b"MAP1.0\x01\x00\x00"), Err(fails(6, ErrorKind::InvalidHeader)));
}

#[test]
fn rejects_a_key_longer_than_the_input() {
    // The key declares 9 bytes and 3 are left: blamed on the length field at offset 10.
    let bytes = table(1, &[9, 0, 0, 0, 0x61, 0x62, 0]);
    assert_eq!(from_bytes(&bytes), Err(fails(10, ErrorKind::StringLengthError(9, 3))));
}

#[test]
fn rejects_a_string_value_longer_than_the_input() {
    // Key "a" at 10..16, tag at 16..20, length field at 20 declares 5, 2 bytes are left.
    let bytes = table(1, &[2, 0, 0, 0, 0x61, 0, 2, 0, 0, 0, 5, 0, 0, 0, 0x62, 0]);
    assert_eq!(from_bytes(&bytes), Err(fails(20, ErrorKind::StringLengthError(5, 2))));
}

#[test]
fn rejects_a_key_without_terminator() {
    // The last declared byte of the key stands at offset 10 + 4 + 2.
    let bytes = table(1, &[3, 0, 0, 0, 0x68, 0x70, 0x21, 0, 0, 0, 0]);
    assert_eq!(from_bytes(&bytes), Err(fails(16, ErrorKind::MissingStringTerminator)));
}

#[test]
fn rejects_a_string_value_without_terminator() {
    let bytes = table(1, &[2, 0, 0, 0, 0x61, 0, 2, 0, 0, 0, 2, 0, 0, 0, 0x62, 0x63]);
    assert_eq!(from_bytes(&bytes), Err(fails(25, ErrorKind::MissingStringTerminator)));
}

#[test]
fn rejects_a_string_declared_empty() {
    // A string of no bytes has no terminator: blamed on the place where it would begin.
    let bytes = table(1, &[0, 0, 0, 0, 0, 0, 0, 0]);
    assert_eq!(from_bytes(&bytes), Err(fails(14, ErrorKind::MissingStringTerminator)));
}

#[test]
fn rejects_an_unknown_tag_at_the_tag() {
    let bytes = table(1, &[2, 0, 0, 0, 0x61, 0, 3, 0, 0, 0, 1, 2, 3, 4, 5, 6, 7, 8]);
    assert_eq!(from_bytes(&bytes), Err(fails(16, ErrorKind::UnknownTypeId(3))));
    let bytes = table(1, &[2, 0, 0, 0, 0x61, 0, 0xEF, 0xBE, 0xAD, 0xDE]);
    assert_eq!(from_bytes(&bytes), Err(fails(16, ErrorKind::UnknownTypeId(0xDEADBEEF))));
}

#[test]
fn rejects_an_input_that_ends_inside_a_field() {
    // Inside the length of a key.
    let bytes = table(1, &[2, 0]);
    assert_eq!(from_bytes(&bytes), Err(fails(10, ErrorKind::StringLengthError(4, 2))));
    // After a key, where the tag of the value should stand.
    let bytes = table(1, &[2, 0, 0, 0, 0x61, 0]);
    assert_eq!(from_bytes(&bytes), Err(fails(16, ErrorKind::StringLengthError(4, 0))));
    // Inside an integer.
    let bytes = table(1, &[2, 0, 0, 0, 0x61, 0, 0, 0, 0, 0, 1, 2, 3]);
    assert_eq!(from_bytes(&bytes), Err(fails(20, ErrorKind::StringLengthError(8, 3))));
    // Inside a float.
    let bytes = table(1, &[2, 0, 0, 0, 0x61, 0, 1, 0, 0, 0, 1, 2, 3, 4, 5, 6, 7]);
    assert_eq!(from_bytes(&bytes), Err(fails(20, ErrorKind::StringLengthError(8, 7))));
    // Inside the length of a string value.
    let bytes = table(1, &[2, 0, 0, 0, 0x61, 0, 2, 0, 0, 0, 1]);
    assert_eq!(from_bytes(&bytes), Err(fails(20, ErrorKind::StringLengthError(4, 1))));
}

#[test]
fn stops_at_the_first_fault() {
    let mut body = SAMPLE_BODY.to_vec();
    body.extend([0x63, 0x00]);
    body.extend([2, 0, 0, 0, 0x61, 0, 9, 0, 0, 0]);
    body.extend([3, 0, 0, 0, 0x61, 0x62, 0x63]);
    assert_eq!(from_bytes(&table(3, &body)), Err(fails(56, ErrorKind::UnknownTypeId(9))));
}

#[test]
fn reads_with_a_cursor() {
    let bytes = sample();
    let mut cursor = Deserializer::from_bytes(&bytes);
    assert_eq!(cursor.offset(), 0);
    assert_eq!(cursor.remaining(), bytes.len());
    assert_eq!(cursor.read_header(), Ok(2));
    assert_eq!(cursor.offset(), 10);
    assert_eq!(cursor.peek_u32(), Ok(3));
    assert_eq!(cursor.offset(), 10);
    assert_eq!(cursor.next_key(), Ok(Some("hp".to_string())));
    assert_eq!(cursor.offset(), 17);
    assert_eq!(cursor.next_value(), Ok(Value::I64(100)));
    assert_eq!(cursor.offset(), 29);
    assert_eq!(cursor.end(), Err(fails(29, ErrorKind::TrailingCharacters)));
    assert_eq!(cursor.read_u32(), Ok(5));
    assert_eq!(cursor.offset(), 33);
    assert_eq!(cursor.read_u32(), Ok(0x656D616E));
    assert_eq!(cursor.remaining(), 13);
    assert_eq!(
        cursor.deserialize_any(Slot::Key),
        Err(fails(37, ErrorKind::StringLengthError(0x200, 9)))
    );
    assert_eq!(cursor.offset(), 37);
}

#[test]
fn reads_entry_by_entry() {
    let bytes = sample();
    let mut cursor = Deserializer::from_bytes(&bytes);
    assert_eq!(cursor.read_header(), Ok(2));
    assert_eq!(cursor.next_entry(), Ok(entry("hp", Value::I64(100))));
    assert_eq!(cursor.offset(), 29);
    assert_eq!(cursor.next_entry(), Ok(entry("name", Value::Text("Orc".to_string()))));
    assert_eq!(cursor.offset(), bytes.len());
    assert_eq!(cursor.next_entry(), Err(fails(50, ErrorKind::StringLengthError(4, 0))));
    // An entry whose value cannot be read leaves the cursor in front of its key.
    let broken = [2, 0, 0, 0, 0x61, 0, 7, 0, 0, 0];
    let mut cursor = Deserializer::from_bytes(&broken);
    assert_eq!(cursor.next_entry(), Err(fails(6, ErrorKind::UnknownTypeId(7))));
    assert_eq!(cursor.offset(), 0);
    assert_eq!(cursor.next_key(), Ok(Some("a".to_string())));
    assert_eq!(cursor.offset(), 6);
}

#[test]
fn reads_whatever_stands_in_a_slot() {
    let bytes = sample();
    let mut cursor = Deserializer::from_bytes(&bytes);
    let whole = cursor.deserialize_any(Slot::Root).unwrap();
    assert_eq!(whole, Node::Table(from_bytes(&bytes).unwrap()));
    assert_eq!(cursor.remaining(), 0);
    assert_eq!(cursor.end(), Ok(()));
    assert_eq!(cursor.next_key(), Ok(None));

    let mut cursor = Deserializer::from_bytes(&bytes[10..]);
    assert_eq!(
        cursor.deserialize_any(Slot::Key),
        Ok(Node::Scalar(Value::Text("hp".to_string())))
    );
    assert_eq!(cursor.deserialize_any(Slot::Value), Ok(Node::Scalar(Value::I64(100))));
    assert_eq!(cursor.offset(), 19);
    assert_eq!(cursor.deserialize_any(Slot::Root), Err(fails(19, ErrorKind::InvalidHeader)));
    assert_eq!(cursor.offset(), 19);
}

#[test]
fn reads_a_table_that_begins_inside_the_input() {
    let mut bytes = vec![0xAA, 0xBB];
    bytes.extend(sample());
    let mut cursor = Deserializer::from_bytes(&bytes);
    assert_eq!(cursor.deserialize_map(), Err(fails(0, ErrorKind::InvalidHeader)));
    assert_eq!(cursor.peek_u32(), Ok(0x414DBBAA));
    let mut cursor = Deserializer::from_bytes(&bytes[1..]);
    assert_eq!(cursor.read_i64(Slot::Root).map(|_| ()), Ok(()));
    let mut cursor = Deserializer::from_bytes(&bytes[2..]);
    assert_eq!(cursor.deserialize_map().unwrap().len(), 2);
    assert_eq!(cursor.offset(), bytes.len() - 2);
    // Short of the count, the header is blamed where the count begins.
    let mut cursor = Deserializer::from_bytes(&bytes[2..10]);
    assert_eq!(cursor.deserialize_map(), Err(fails(6, ErrorKind::InvalidHeader)));
}

#[test]
fn checks_the_tag_of_a_value_that_is_asked_for() {
    let float = [1, 0, 0, 0, 0, 0, 0, 0, 0, 0, 0xF0, 0x3F];
    let mut cursor = Deserializer::from_bytes(&float);
    // The mismatch is blamed on the offset just past the tag.
    assert_eq!(cursor.read_i64(Slot::Value), Err(fails(4, ErrorKind::TypeMismatch)));
    assert_eq!(cursor.read_string(Slot::Value), Err(fails(4, ErrorKind::TypeMismatch)));
    assert_eq!(cursor.offset(), 0);
    assert_eq!(cursor.read_f64(Slot::Value), Ok(1.0f64.to_bits()));
    assert_eq!(cursor.offset(), 12);

    let integer = [0, 0, 0, 0, 5, 0, 0, 0, 0, 0, 0, 0];
    let mut cursor = Deserializer::from_bytes(&integer);
    assert_eq!(cursor.read_f64(Slot::Value), Err(fails(4, ErrorKind::TypeMismatch)));
    assert_eq!(cursor.read_i64(Slot::Value), Ok(5));
}

#[test]
fn reads_bare_data_without_tag() {
    let bytes = [0x2A, 0, 0, 0, 0, 0, 0, 0, 2, 0, 0, 0, 0x61, 0];
    let mut cursor = Deserializer::from_bytes(&bytes);
    assert_eq!(cursor.read_i64(Slot::Root), Ok(42));
    assert_eq!(cursor.read_string(Slot::Root), Ok("a".to_string()));
    assert_eq!(cursor.end(), Ok(()));
    let mut cursor = Deserializer::from_bytes(&bytes);
    assert_eq!(cursor.read_f64(Slot::Key), Ok(42));
    assert_eq!(cursor.read_string(Slot::Key), Ok("a".to_string()));
}

#[test]
fn narrows_integers_or_fails_past_them() {
    let tagged = |v: i64| {
        let mut bytes = vec![0u8, 0, 0, 0];
        bytes.extend(v.to_le_bytes());
        bytes
    };
    let bytes = tagged(127);
    assert_eq!(Deserializer::from_bytes(&bytes).deserialize_i8(Slot::Value), Ok(127));
    let bytes = tagged(128);
    let mut cursor = Deserializer::from_bytes(&bytes);
    assert_eq!(cursor.deserialize_i8(Slot::Value), Err(fails(12, ErrorKind::NumericOverflow)));
    assert_eq!(cursor.offset(), 0);
    assert_eq!(cursor.deserialize_u8(Slot::Value), Ok(128));
    assert_eq!(cursor.offset(), 12);
    let bytes = tagged(-129);
    assert_eq!(
        Deserializer::from_bytes(&bytes).deserialize_i8(Slot::Value),
        Err(fails(12, ErrorKind::NumericOverflow))
    );
    assert_eq!(Deserializer::from_bytes(&bytes).deserialize_i16(Slot::Value), Ok(-129));
    let bytes = tagged(40000);
    assert_eq!(
        Deserializer::from_bytes(&bytes).deserialize_i16(Slot::Value),
        Err(fails(12, ErrorKind::NumericOverflow))
    );
    assert_eq!(Deserializer::from_bytes(&bytes).deserialize_u16(Slot::Value), Ok(40000));
    assert_eq!(Deserializer::from_bytes(&bytes).deserialize_i32(Slot::Value), Ok(40000));
    let bytes = tagged(70000);
    assert_eq!(
        Deserializer::from_bytes(&bytes).deserialize_u16(Slot::Value),
        Err(fails(12, ErrorKind::NumericOverflow))
    );
    let bytes = tagged(1 << 32);
    assert_eq!(
        Deserializer::from_bytes(&bytes).deserialize_u32(Slot::Value),
        Err(fails(12, ErrorKind::NumericOverflow))
    );
    assert_eq!(
        Deserializer::from_bytes(&bytes).deserialize_i32(Slot::Value),
        Err(fails(12, ErrorKind::NumericOverflow))
    );
    assert_eq!(Deserializer::from_bytes(&bytes).deserialize_u64(Slot::Value), Ok(1 << 32));
    let bytes = tagged(-1);
    assert_eq!(
        Deserializer::from_bytes(&bytes).deserialize_u64(Slot::Value),
        Err(fails(12, ErrorKind::NumericOverflow))
    );
    assert_eq!(
        Deserializer::from_bytes(&bytes).deserialize_u8(Slot::Value),
        Err(fails(12, ErrorKind::NumericOverflow))
    );
    assert_eq!(Deserializer::from_bytes(&bytes).read_integer::<i8>(Slot::Value), Ok(-1));
    // Bare, the number is blamed eight bytes on.
    assert_eq!(
        Deserializer::from_bytes(&bytes[4..]).read_integer::<u32>(Slot::Root),
        Err(fails(8, ErrorKind::NumericOverflow))
    );
}

#[test]
fn reads_an_integer_as_a_truth_value() {
    let zero = [0u8; 12];
    assert_eq!(Deserializer::from_bytes(&zero).deserialize_bool(Slot::Value), Ok(false));
    let seven = [0, 0, 0, 0, 7, 0, 0, 0, 0, 0, 0, 0];
    assert_eq!(Deserializer::from_bytes(&seven).deserialize_bool(Slot::Value), Ok(true));
    let float = [1, 0, 0, 0, 7, 0, 0, 0, 0, 0, 0, 0];
    assert_eq!(
        Deserializer::from_bytes(&float).deserialize_bool(Slot::Value),
        Err(fails(4, ErrorKind::TypeMismatch))
    );
}

#[test]
fn reads_no_field_from_too_few_bytes() {
    let bytes = [1, 2, 3];
    let mut cursor = Deserializer::from_bytes(&bytes);
    assert_eq!(cursor.peek_u32(), Err(fails(0, ErrorKind::StringLengthError(4, 3))));
    assert_eq!(cursor.read_u32(), Err(fails(0, ErrorKind::StringLengthError(4, 3))));
    assert_eq!(cursor.read_i64(Slot::Root), Err(fails(0, ErrorKind::StringLengthError(8, 3))));
    assert_eq!(cursor.read_i64(Slot::Value), Err(fails(0, ErrorKind::StringLengthError(4, 3))));
    assert_eq!(cursor.read_f64(Slot::Key), Err(fails(0, ErrorKind::StringLengthError(8, 3))));
    assert_eq!(cursor.read_string(Slot::Key), Err(fails(0, ErrorKind::StringLengthError(4, 3))));
    assert_eq!(cursor.next_value(), Err(fails(0, ErrorKind::StringLengthError(4, 3))));
    assert_eq!(cursor.offset(), 0);
    let bytes = [0, 0, 0, 0, 1, 2, 3];
    let mut cursor = Deserializer::from_bytes(&bytes);
    assert_eq!(cursor.read_i64(Slot::Value), Err(fails(4, ErrorKind::StringLengthError(8, 3))));
    assert_eq!(cursor.read_u32(), Ok(0));
    assert_eq!(cursor.read_u32(), Err(fails(4, ErrorKind::StringLengthError(4, 3))));
}

#[test]
fn builds_errors_with_an_offset() {
    assert_eq!(ErrorWithOffset::new(5, ErrorKind::TypeMismatch), fails(5, ErrorKind::TypeMismatch));
    let failed: Result<u8, ErrorWithOffset> = ErrorKind::NumericOverflow.with(9);
    assert_eq!(failed, Err(fails(9, ErrorKind::NumericOverflow)));
}
