use construct_classic::{from_bytes, to_bytes, Document, Entry, ErrorKind, Value};

const MAGIC: [u8; 6] = [0x4D, 0x41, 0x50, 0x31, 0x2E, 0x30];

struct Rng(u64);

impl Rng {
    fn next(&mut self) -> u64 {
        self.0 = self.0.wrapping_mul(6364136223846793005).wrapping_add(1442695040888963407);
        self.0 >> 16
    }

    fn below(&mut self, n: u64) -> u64 {
        self.next() % n
    }

    fn payload(&mut self) -> Vec<u8> {
        let len = self.below(12);
        (0..len).map(|_| self.below(256) as u8).collect()
    }

    fn string_field(&mut self) -> Vec<u8> {
        let payload = self.payload();
        let mut bytes = ((payload.len() + 1) as u32).to_le_bytes().to_vec();
        bytes.extend(payload);
        bytes.push(0);
        bytes
    }

    fn table(&mut self) -> Vec<u8> {
        let count = self.below(6) as u32;
        let mut bytes = MAGIC.to_vec();
        bytes.extend(count.to_le_bytes());
        for _ in 0..count {
            bytes.extend(self.string_field());
            let tag = self.below(3) as u32;
            bytes.extend(tag.to_le_bytes());
            match tag {
                0 | 1 => bytes.extend(self.next().wrapping_mul(0x9E3779B97F4A7C15).to_le_bytes()),
                _ => bytes.extend(self.string_field()),
            }
        }
        bytes
    }

    fn text(&mut self) -> String {
        let bytes = self.payload();
        construct_classic::codepage::decode(&bytes)
    }

    fn document(&mut self) -> Document {
        let count = self.below(6);
        let mut doc = Document::new();
        for _ in 0..count {
            let key = self.text();
            let value = match self.below(3) {
                0 => Value::I64(self.next() as i64 - (1 << 40)),
                1 => Value::F64(self.next()),
                _ => Value::Text(self.text()),
            };
            doc.push(key, value);
        }
        doc
    }
}

#[test]
fn writing_what_was_read_gives_the_input_back() {
    let mut rng = Rng(1);
    for _ in 0..500 {
        let bytes = rng.table();
        let doc = from_bytes(&bytes).unwrap();
        assert_eq!(to_bytes(&doc), Ok(bytes));
    }
}

#[test]
fn reading_what_was_written_gives_the_document_back() {
    let mut rng = Rng(2);
    for _ in 0..500 {
        let doc = rng.document();
        let bytes = to_bytes(&doc).unwrap();
        assert_eq!(from_bytes(&bytes), Ok(doc));
    }
}

#[test]
fn the_sample_table_comes_back_byte_for_byte() {
    let bytes: Vec<u8> = vec![
        0x4D, 0x41, 0x50, 0x31, 0x2E, 0x30, 0x02, 0x00, 0x00, 0x00, 0x03, 0x00, 0x00, 0x00, 0x68,
        0x70, 0x00, 0x00, 0x00, 0x00, 0x00, 0x64, 0x00, 0x00, 0x00, 0x00, 0x00, 0x00, 0x00, 0x05,
        0x00, 0x00, 0x00, 0x6E, 0x61, 0x6D, 0x65, 0x00, 0x02, 0x00, 0x00, 0x00, 0x04, 0x00, 0x00,
        0x00, 0x4F, 0x72, 0x63, 0x00,
    ];
    let doc = from_bytes(&bytes).unwrap();
    let again = to_bytes(&doc).unwrap();
    assert_eq!(again.len(), bytes.len());
    for i in 0..bytes.len() {
        assert_eq!(again[i], bytes[i], "difference at offset {}", i);
    }
}

#[test]
fn a_wrong_count_is_set_right_on_the_way_back() {
    let mut bytes: Vec<u8> = MAGIC.to_vec();
    bytes.extend([5, 0, 0, 0]);
    bytes.extend([2, 0, 0, 0, 0x61, 0, 0, 0, 0, 0, 1, 0, 0, 0, 0, 0, 0, 0]);
    let doc = from_bytes(&bytes).unwrap();
    let again = to_bytes(&doc).unwrap();
    assert_eq!(&again[6..10], &[1, 0, 0, 0]);
    assert_eq!(&again[10..], &bytes[10..]);
    assert_eq!(from_bytes(&again), Ok(doc));
}

#[test]
fn every_bit_pattern_of_a_float_comes_back() {
    let patterns = [
        0u64,
        0x8000_0000_0000_0000,
        f64::NAN.to_bits(),
        0x7FF0_0000_0000_0001,
        0xFFF8_0000_0000_0BAD,
        f64::INFINITY.to_bits(),
        f64::MIN_POSITIVE.to_bits(),
        1,
    ];
    for bits in patterns {
        let doc =
            Document { entries: vec![Entry { key: "f".to_string(), value: Value::F64(bits) }] };
        let bytes = to_bytes(&doc).unwrap();
        assert_eq!(&bytes[20..], &bits.to_le_bytes());
        assert_eq!(from_bytes(&bytes), Ok(doc));
    }
}

#[test]
fn the_extreme_integers_come_back() {
    for v in [i64::MIN, -1, 0, 1, i64::MAX] {
        let doc = Document { entries: vec![Entry { key: "i".to_string(), value: Value::I64(v) }] };
        let bytes = to_bytes(&doc).unwrap();
        assert_eq!(from_bytes(&bytes), Ok(doc));
    }
}

#[test]
fn a_document_that_cannot_be_written_yields_no_bytes() {
    let doc = Document {
        entries: vec![Entry { key: "k".to_string(), value: Value::Text("\u{100}".to_string()) }],
    };
    assert_eq!(to_bytes(&doc), Err(ErrorKind::TextEncodingError));
}
