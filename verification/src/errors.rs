//! What can go wrong when a list is brought back from storage.

use vstd::prelude::*;

verus! {

/// A failure to bring a list back from storage.
#[derive(Clone, Copy, Debug, PartialEq, Eq, Structural)]
pub enum Error {
    /// The stored state could not be read.
    File,
    /// The stored bytes are not an encoded list.
    SerializeSpanned,
    /// The stored entries do not make a list: two of them share an id, the
    /// running entry is missing or closed, or another entry is open.
    Inconsistent,
}

impl Error {
    /// The text of the message for each failure.
    pub open spec fn message_text(self) -> Seq<char> {
        match self {
            Error::File => "Failure reading/writing from file"@,
            Error::SerializeSpanned => "Failure serializing/deserializing entries"@,
            Error::Inconsistent => "Failure retrieving current entry from entry list"@,
        }
    }

    /// The message that reports this failure.
    pub fn message(&self) -> (text: &'static str)
        ensures
            text@ == self.message_text(),
    {
        match self {
            Error::File => "Failure reading/writing from file",
            Error::SerializeSpanned => "Failure serializing/deserializing entries",
            Error::Inconsistent => "Failure retrieving current entry from entry list",
        }
    }
}

} // verus!
