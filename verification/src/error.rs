//! The errors of reading a `.dbc` file.

use vstd::prelude::*;
use vstd::string::to_string_from_display_ensures;

verus! {

/// `std::io::Error`, carried for callers that read and write files.
#[verifier::external_type_specification]
#[verifier::external_body]
pub struct ExIoError(std::io::Error);

/// Why a `.dbc` file could not be read.
#[derive(Debug)]
pub enum Error {
    /// An IO error
    Io(std::io::Error),
    /// Error while decompressing the content of the file
    Decompression(explode::Error),
    /// File without dbc header
    MissingHeader,
    /// Header size is greater than the file size
    InvalidHeaderSize,
}

impl Error {
    /// The text that describes the error. For the two header errors it is
    /// fixed; for the other two it is what the error inside displays.
    pub fn message(&self) -> (text: String)
        ensures
            match self {
                Error::Io(err) => to_string_from_display_ensures::<std::io::Error>(err, text),
                Error::Decompression(err) => to_string_from_display_ensures::<explode::Error>(
                    err,
                    text,
                ),
                Error::MissingHeader => text@ == "file does not contain dbc header or is empty"@,
                Error::InvalidHeaderSize => text@
                    == "dbc header size is greater than the file size"@,
            },
    {
        match self {
            Error::Io(err) => err.to_string(),
            Error::Decompression(err) => err.to_string(),
            Error::MissingHeader => "file does not contain dbc header or is empty".to_owned(),
            Error::InvalidHeaderSize => "dbc header size is greater than the file size".to_owned(),
        }
    }
}

impl From<std::io::Error> for Error {
    fn from(err: std::io::Error) -> (error: Error) {
        Error::Io(err)
    }
}

impl vstd::std_specs::convert::FromSpecImpl<std::io::Error> for Error {
    open spec fn obeys_from_spec() -> bool {
        true
    }

    open spec fn from_spec(err: std::io::Error) -> Error {
        Error::Io(err)
    }
}

} // verus!
