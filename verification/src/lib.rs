//! Codec for the flat key/value table format of Construct Classic hash tables.
//!
//! A table file is a 6-byte magic, a 4-byte entry count, and then a run of
//! entries up to the end of the file. Each entry is a key, written as a
//! length-prefixed Windows-1252 string, followed by a tagged scalar value.
//! [`from_bytes`] reads such a file into a [`Document`]; [`to_bytes`] writes a
//! document back, byte for byte.
//!
//! The format is stated once, over sequences of bytes, in [`wire`]; the cursor of
//! [`de`] and the writer of [`ser`] are proved to read and write exactly that.
//! [`laws`] proves that the two directions undo each other.

pub mod codepage;
pub mod constants;
pub mod de;
pub mod endian;
pub mod error;
pub mod laws;
pub mod ser;
pub mod value;
pub mod wire;

pub use constants::{TYPE_F64, TYPE_I64, TYPE_STRING};
pub use de::{from_bytes, Deserializer};
pub use error::{ErrorKind, ErrorWithOffset};
pub use ser::{to_bytes, Serializer};
pub use value::{Document, Entry, Node, Slot, Value};
