//! The library's error type.

use vstd::prelude::*;

verus! {

/// Why an operation of the library was refused.
#[derive(Debug)]
pub enum Error {
    /// A cell reference such as `B3` could not be read.
    InvalidCellRef(String),
    /// A range reference such as `A1:C3` could not be read.
    InvalidRange(String),
    /// A value breaks one of the spreadsheet format's rules.
    InvalidData(String),
    /// An XML part could not be tokenized.
    Xml(String),
}

impl Error {
    /// The human-readable explanation carried by the error.
    pub fn message(&self) -> (res: &String)
        ensures
            res == match self {
                Error::InvalidCellRef(m) => m,
                Error::InvalidRange(m) => m,
                Error::InvalidData(m) => m,
                Error::Xml(m) => m,
            },
    {
        match self {
            Error::InvalidCellRef(m) => m,
            Error::InvalidRange(m) => m,
            Error::InvalidData(m) => m,
            Error::Xml(m) => m,
        }
    }
}

/// Error type for deserializing rows into structs.
#[derive(Debug)]
pub struct DeError(pub String);

/// Error type for serializing structs into rows.
#[derive(Debug)]
pub struct SerError(pub String);

impl DeError {
    /// The text this error is shown as: `Serde deserialization error: ` and its message.
    pub fn display_text(&self) -> (res: String)
        ensures
            res@ == "Serde deserialization error: "@ + self.0@,
    {
        let mut s = crate::text::to_string("Serde deserialization error: ");
        crate::text::push_str(&mut s, self.0.as_str());
        s
    }
}

impl SerError {
    /// The text this error is shown as: `Serde serialization error: ` and its message.
    pub fn display_text(&self) -> (res: String)
        ensures
            res@ == "Serde serialization error: "@ + self.0@,
    {
        let mut s = crate::text::to_string("Serde serialization error: ");
        crate::text::push_str(&mut s, self.0.as_str());
        s
    }
}

} // verus!
