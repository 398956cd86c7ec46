//! The errors of both directions, and the offset at which a decoding error was found.

use vstd::prelude::*;
use vstd::string::StringExecFns;

verus! {

/// What went wrong.
#[derive(Debug, Clone, PartialEq, Eq)]
pub enum ErrorKind {
    /// A free-text error that belongs to no other kind.
    Message(String),
    /// The last byte of a string is not NUL.
    MissingStringTerminator,
    /// A field needs more bytes than the input has left: the bytes needed, and the bytes left.
    StringLengthError(usize, usize),
    /// A value carries a tag that stands for no kind of value.
    UnknownTypeId(u32),
    /// A number does not fit where it has to go.
    NumericOverflow,
    /// A value carries the tag of another kind than the one asked for.
    TypeMismatch,
    /// Input is left over after the last thing that was read.
    TrailingCharacters,
    /// A table was begun without saying how many entries it holds.
    LengthNotGiven,
    /// A key is not a string.
    InvalidKeyType,
    /// A string holds a character that Windows-1252 cannot express.
    TextEncodingError,
    /// The input does not begin with a table header.
    InvalidHeader,
    /// A value has a shape that the format cannot hold.
    UnsupportedValue,
}

/// An error together with the place in the input where it was found, if it has one.
///
/// Decoding errors carry the offset of the byte they blame; encoding errors have no
/// input to point into and carry none.
#[derive(Debug, Clone, PartialEq, Eq)]
pub struct ErrorWithOffset {
    pub offset: Option<usize>,
    pub kind: ErrorKind,
}

impl ErrorWithOffset {
    /// An error of the given kind at the given offset.
    pub fn new(offset: usize, kind: ErrorKind) -> (e: Self)
        ensures
            e == (ErrorWithOffset { offset: Some(offset), kind }),
    {
        ErrorWithOffset { offset: Some(offset), kind }
    }
}

impl ErrorKind {
    /// Fails with this kind of error at the given offset.
    pub fn with<T>(self, offset: usize) -> (r: Result<T, ErrorWithOffset>)
        ensures
            r == Err::<T, ErrorWithOffset>(ErrorWithOffset { offset: Some(offset), kind: self }),
    {
        Err(ErrorWithOffset { offset: Some(offset), kind: self })
    }
}

/// The character of a decimal digit.
pub open spec fn digit(d: nat) -> char
    recommends
        d < 10,
{
    ('0' as u8 + d) as char
}

/// A number in decimal, without sign or leading zeros.
pub open spec fn decimal(n: nat) -> Seq<char>
    decreases n,
{
    if n < 10 {
        seq![digit(n)]
    } else {
        decimal(n / 10).push(digit(n % 10))
    }
}

impl ErrorKind {
    /// What this kind of error is, in words.
    ///
    /// A free-text error is its own text. A field cut short, a bad header and an
    /// unsupported value are said in a sentence. Every other kind is said by its
    /// name, followed in parentheses by the tag it carries, if it carries one.
    pub open spec fn description(&self) -> Seq<char> {
        match self {
            ErrorKind::Message(msg) => msg@,
            ErrorKind::MissingStringTerminator => "MissingStringTerminator"@,
            ErrorKind::StringLengthError(needed, left) => "String length "@ + decimal(
                *needed as nat,
            ) + " too long, only "@ + decimal(*left as nat) + " bytes left in document"@,
            ErrorKind::UnknownTypeId(ty) => "UnknownTypeId("@ + decimal(*ty as nat) + ")"@,
            ErrorKind::NumericOverflow => "NumericOverflow"@,
            ErrorKind::TypeMismatch => "TypeMismatch"@,
            ErrorKind::TrailingCharacters => "TrailingCharacters"@,
            ErrorKind::LengthNotGiven => "LengthNotGiven"@,
            ErrorKind::InvalidKeyType => "InvalidKeyType"@,
            ErrorKind::TextEncodingError => "TextEncodingError"@,
            ErrorKind::InvalidHeader => "The file header is invalid"@,
            ErrorKind::UnsupportedValue => "Unsupported value in input"@,
        }
    }

    /// Renders this kind of error for a reader.
    pub fn to_string(&self) -> (text: String)
        ensures
            text@ == self.description(),
    {
        match self {
            ErrorKind::Message(msg) => msg.clone(),
            ErrorKind::MissingStringTerminator => String::from_str("MissingStringTerminator"),
            ErrorKind::StringLengthError(needed, left) => {
                let mut text = String::from_str("String length ");
                append_decimal(&mut text, *needed);
                text.append(" too long, only ");
                append_decimal(&mut text, *left);
                text.append(" bytes left in document");
                text
            },
            ErrorKind::UnknownTypeId(ty) => {
                let mut text = String::from_str("UnknownTypeId(");
                append_decimal(&mut text, *ty as usize);
                text.append(")");
                text
            },
            ErrorKind::NumericOverflow => String::from_str("NumericOverflow"),
            ErrorKind::TypeMismatch => String::from_str("TypeMismatch"),
            ErrorKind::TrailingCharacters => String::from_str("TrailingCharacters"),
            ErrorKind::LengthNotGiven => String::from_str("LengthNotGiven"),
            ErrorKind::InvalidKeyType => String::from_str("InvalidKeyType"),
            ErrorKind::TextEncodingError => String::from_str("TextEncodingError"),
            ErrorKind::InvalidHeader => String::from_str("The file header is invalid"),
            ErrorKind::UnsupportedValue => String::from_str("Unsupported value in input"),
        }
    }
}

impl ErrorWithOffset {
    /// What this error is, in words: the offset, where there is one, then the kind.
    pub open spec fn description(&self) -> Seq<char> {
        match self.offset {
            Some(offset) => "At offset "@ + decimal(offset as nat) + ": "@
                + self.kind.description(),
            None => self.kind.description(),
        }
    }

    /// Renders this error for a reader.
    pub fn to_string(&self) -> (text: String)
        ensures
            text@ == self.description(),
    {
        let kind = self.kind.to_string();
        match self.offset {
            Some(offset) => {
                let mut text = String::from_str("At offset ");
                append_decimal(&mut text, offset);
                text.append(": ");
                text.append(kind.as_str());
                text
            },
            None => kind,
        }
    }
}

/// The text of a decimal digit.
fn digit_text(d: usize) -> (text: &'static str)
    requires
        d < 10,
    ensures
        text@ == seq![digit(d as nat)],
{
    proof {
        reveal_strlit("0");
        reveal_strlit("1");
        reveal_strlit("2");
        reveal_strlit("3");
        reveal_strlit("4");
        reveal_strlit("5");
        reveal_strlit("6");
        reveal_strlit("7");
        reveal_strlit("8");
        reveal_strlit("9");
    }
    let text = if d == 0 {
        "0"
    } else if d == 1 {
        "1"
    } else if d == 2 {
        "2"
    } else if d == 3 {
        "3"
    } else if d == 4 {
        "4"
    } else if d == 5 {
        "5"
    } else if d == 6 {
        "6"
    } else if d == 7 {
        "7"
    } else if d == 8 {
        "8"
    } else {
        "9"
    };
    assert(text@ =~= seq![digit(d as nat)]);
    text
}

/// Appends a number in decimal to a text.
fn append_decimal(text: &mut String, n: usize)
    ensures
        final(text)@ == old(text)@ + decimal(n as nat),
    decreases n,
{
    if n >= 10 {
        append_decimal(text, n / 10);
    }
    text.append(digit_text(n % 10));
    proof {
        if n >= 10 {
            assert(text@ =~= old(text)@ + decimal((n / 10) as nat).push(digit((n % 10) as nat)));
        } else {
            assert(text@ =~= old(text)@ + seq![digit(n as nat)]);
        }
    }
}

} // verus!
