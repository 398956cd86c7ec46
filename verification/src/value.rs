//! The document that a table decodes to, and the values in it.

use vstd::prelude::*;

verus! {

/// A scalar value of a table entry.
#[derive(Debug, Clone, PartialEq, Eq)]
pub enum Value {
    /// A 64-bit signed integer.
    I64(i64),
    /// A 64-bit floating-point number, held as its IEEE-754 bit pattern.
    F64(u64),
    /// A text.
    Text(String),
}

/// What a [`Value`] is, with its text as a sequence of characters.
pub enum ValueView {
    I64(i64),
    F64(u64),
    Text(Seq<char>),
}

impl View for Value {
    type V = ValueView;

    open spec fn view(&self) -> ValueView {
        match self {
            Value::I64(v) => ValueView::I64(*v),
            Value::F64(bits) => ValueView::F64(*bits),
            Value::Text(text) => ValueView::Text(text@),
        }
    }
}

/// One entry of a table: a key and its value.
#[derive(Debug, Clone, PartialEq, Eq)]
pub struct Entry {
    pub key: String,
    pub value: Value,
}

/// What an [`Entry`] is.
pub struct EntryView {
    pub key: Seq<char>,
    pub value: ValueView,
}

impl View for Entry {
    type V = EntryView;

    open spec fn view(&self) -> EntryView {
        EntryView { key: self.key@, value: self.value@ }
    }
}

/// A table: its entries, in the order in which they stand in the file.
///
/// Keys are meant to be unique, as they are in the tables that the engine writes.
/// The codec goes entry by entry and neither relies on this nor enforces it.
#[derive(Debug, Clone, PartialEq, Eq)]
pub struct Document {
    pub entries: Vec<Entry>,
}

impl View for Document {
    type V = Seq<EntryView>;

    open spec fn view(&self) -> Seq<EntryView> {
        Seq::new(self.entries@.len(), |i: int| self.entries@[i]@)
    }
}

impl Document {
    /// A table without entries.
    pub fn new() -> (doc: Self)
        ensures
            doc@ == Seq::<EntryView>::empty(),
    {
        let doc = Document { entries: Vec::new() };
        assert(doc@ =~= Seq::<EntryView>::empty());
        doc
    }

    /// The number of entries.
    pub fn len(&self) -> (n: usize)
        ensures
            n == self@.len(),
    {
        self.entries.len()
    }

    /// Adds an entry at the end.
    pub fn push(&mut self, key: String, value: Value)
        ensures
            final(self)@ == old(self)@.push(EntryView { key: key@, value: value@ }),
    {
        self.entries.push(Entry { key, value });
        assert(self@ =~= old(self)@.push(EntryView { key: key@, value: value@ }));
    }
}

/// Where a datum stands: by itself, as the key of an entry, or as its value.
///
/// Only values carry a type tag on the wire.
#[derive(Debug, Clone, Copy, PartialEq, Eq, Structural)]
pub enum Slot {
    /// By itself, outside any entry.
    Root,
    /// As the key of an entry.
    Key,
    /// As the value of an entry.
    Value,
}

/// What stands at some place in the input: a scalar, or a whole table.
#[derive(Debug, Clone, PartialEq, Eq)]
pub enum Node {
    /// A scalar: the key or the value of an entry.
    Scalar(Value),
    /// A whole table.
    Table(Document),
}

/// What a [`Node`] is.
pub enum NodeView {
    Scalar(ValueView),
    Table(Seq<EntryView>),
}

impl View for Node {
    type V = NodeView;

    open spec fn view(&self) -> NodeView {
        match self {
            Node::Scalar(value) => NodeView::Scalar(value@),
            Node::Table(doc) => NodeView::Table(doc@),
        }
    }
}

} // verus!
