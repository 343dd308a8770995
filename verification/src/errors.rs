//! Status codes and the error value reported by every fallible operation.

use vstd::prelude::*;

verus! {

/// The kinds of outcome an operation can report.
#[derive(Copy, Clone, Debug, PartialEq, Eq, Hash, Structural)]
pub enum StatusCode {
    OK,
    OutOfMemory,
    KeyError,
    TypeError,
    Invalid,
    IOError,
    InvalidState,
    IndexOutOfBounds,
    UnknownError,
    NotImplemented,
    SerializationError,
    PythonError,
    PlasmaObjectExists,
    PlasmaObjectNonexistent,
    PlasmaStoreFull,
}

impl StatusCode {
    /// The number of this code.
    pub open spec fn spec_value(self) -> u8 {
        match self {
            StatusCode::OK => 0,
            StatusCode::OutOfMemory => 1,
            StatusCode::KeyError => 2,
            StatusCode::TypeError => 3,
            StatusCode::Invalid => 4,
            StatusCode::IOError => 5,
            StatusCode::InvalidState => 6,
            StatusCode::IndexOutOfBounds => 7,
            StatusCode::UnknownError => 9,
            StatusCode::NotImplemented => 10,
            StatusCode::SerializationError => 11,
            StatusCode::PythonError => 12,
            StatusCode::PlasmaObjectExists => 20,
            StatusCode::PlasmaObjectNonexistent => 21,
            StatusCode::PlasmaStoreFull => 22,
        }
    }

    /// The number of this code.
    pub fn value(self) -> (n: u8)
        ensures
            n == self.spec_value(),
    {
        match self {
            StatusCode::OK => 0,
            StatusCode::OutOfMemory => 1,
            StatusCode::KeyError => 2,
            StatusCode::TypeError => 3,
            StatusCode::Invalid => 4,
            StatusCode::IOError => 5,
            StatusCode::InvalidState => 6,
            StatusCode::IndexOutOfBounds => 7,
            StatusCode::UnknownError => 9,
            StatusCode::NotImplemented => 10,
            StatusCode::SerializationError => 11,
            StatusCode::PythonError => 12,
            StatusCode::PlasmaObjectExists => 20,
            StatusCode::PlasmaObjectNonexistent => 21,
            StatusCode::PlasmaStoreFull => 22,
        }
    }

    /// The text of this code, for a reader.
    pub open spec fn text(self) -> Seq<char> {
        match self {
            StatusCode::OK => "OK"@,
            StatusCode::OutOfMemory => "Out of memory"@,
            StatusCode::KeyError => "Key error"@,
            StatusCode::TypeError => "Type error"@,
            StatusCode::Invalid => "Invalid"@,
            StatusCode::IOError => "IOError"@,
            StatusCode::InvalidState => "Invalid state"@,
            StatusCode::IndexOutOfBounds => "Index out of bounds"@,
            StatusCode::UnknownError => "Unknown error"@,
            StatusCode::NotImplemented => "NotImplemented"@,
            _ => "Unknown"@,
        }
    }
}

impl StatusCode {
    /// The text of this code, for a reader.
    pub fn description(self) -> (s: &'static str)
        ensures
            s@ == self.text(),
    {
        match self {
            StatusCode::OK => "OK",
            StatusCode::OutOfMemory => "Out of memory",
            StatusCode::KeyError => "Key error",
            StatusCode::TypeError => "Type error",
            StatusCode::Invalid => "Invalid",
            StatusCode::IOError => "IOError",
            StatusCode::InvalidState => "Invalid state",
            StatusCode::IndexOutOfBounds => "Index out of bounds",
            StatusCode::UnknownError => "Unknown error",
            StatusCode::NotImplemented => "NotImplemented",
            _ => "Unknown",
        }
    }
}

/// An error: a status code and a message for the reader of a log.
#[derive(Clone, Debug, PartialEq, Eq, Hash)]
pub struct ArrowError {
    pub code: StatusCode,
    pub msg: String,
}

pub type Error = ArrowError;

impl ArrowError {
    /// Holds when this error carries `code` and that code's own text as message:
    /// the form in which this library raises its errors.
    pub open spec fn reports(&self, code: StatusCode) -> bool {
        self.code == code && self.msg@ == code.text()
    }

    /// An error with the given code and message.
    pub fn new(code: StatusCode, msg: &str) -> (e: ArrowError)
        ensures
            e.code == code,
            e.msg@ == msg@,
    {
        ArrowError { code, msg: msg.to_owned() }
    }

    /// An error with the given code, whose message is the code's text.
    pub fn of(code: StatusCode) -> (e: ArrowError)
        ensures
            e.reports(code),
    {
        ArrowError { code, msg: code.description().to_owned() }
    }

    /// The status code of this error.
    pub fn code(&self) -> (c: StatusCode)
        ensures
            c == self.code,
    {
        self.code
    }

    /// The message given when this error was made.
    pub fn message(&self) -> (m: &str)
        ensures
            m@ == self.msg@,
    {
        self.msg.as_str()
    }

    /// The text of this error's code, for a reader.
    pub fn description(&self) -> (s: &'static str)
        ensures
            s@ == self.code.text(),
    {
        self.code.description()
    }

    /// What a log line shows for this error: the text of its code.
    pub fn to_string(&self) -> (s: String)
        ensures
            s@ == self.code.text(),
    {
        self.description().to_owned()
    }
}

} // verus!
