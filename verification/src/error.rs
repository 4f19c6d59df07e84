//! Errors of the library.
use vstd::prelude::*;
use crate::value::Value;

verus! {

/// An error that can occur when building a dynamic schema.
#[derive(Debug)]
pub struct SchemaError(pub String);

/// An error raised while reading inputs or checking the schema.
#[derive(Debug)]
pub enum SeaographyError {
    /// A type conversion failed: the message and the target type.
    TypeConversionError(String, String),
    /// A database array cannot hold arrays.
    NestedArrayConversionError,
    /// A free-form message.
    Custom(String),
    /// A value that should name an enum item is not an object.
    NotAnEnum(Value),
    /// A scalar's validator refused the value.
    InvalidScalarValue(Value),
    /// An enum has no accessible item that the value names: the enum's
    /// name and the value.
    NoEnumValue(String, Value),
}

impl SeaographyError {
    /// An error with a free-form message.
    pub fn new(message: String) -> (r: Self)
        ensures
            r == SeaographyError::Custom(message),
    {
        SeaographyError::Custom(message)
    }

    /// The text of the error, as it is shown: a tag in brackets and the
    /// message; `None` where the error names a value that holds a
    /// floating-point number or other values.
    pub fn message(&self) -> (r: Option<String>)
        ensures
            match crate::message::error_text(*self) {
                Some(t) => r matches Some(s) && s@ == t,
                None => r is None,
            },
            crate::message::plain_error_text(*self) matches Some(t) ==> r matches Some(s) && s@ == t,
    {
        crate::message::error_message(self)
    }

    /// An error with a free-form message given as a string slice.
    pub fn from_str(message: &str) -> (r: Self)
        ensures
            r is Custom,
            r->Custom_0@ == message@,
    {
        SeaographyError::Custom(String::from_str(message))
    }
}

/// `e` is a free-form error whose message is `m`.
pub open spec fn is_custom(e: SeaographyError, m: Seq<char>) -> bool {
    e matches SeaographyError::Custom(s) && s@ == m
}

/// The result of the library's fallible operations.
pub type SeaResult<T> = Result<T, SeaographyError>;

} // verus!
