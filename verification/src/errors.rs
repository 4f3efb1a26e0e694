//! What can go wrong while assets are classified, named and written.

use vstd::prelude::*;
use crate::models::file_kind::ParseAssetFileError;

verus! {

/// An error of the library. The errors that come from the file system, from
/// the image codecs or from a pattern carry their message as text.
#[derive(Debug, PartialEq, Eq)]
pub enum AssetOpsError {
    RegexError(String),
    NoFileExtension,
    InvalidFileName,
    InvalidBaseFile,
    OsStringNotUtf8,
    IoError(String),
    ImageError(String),
    ParseAssetFileError(ParseAssetFileError),
}

impl AssetOpsError {
    /// The message of this error as plain text.
    pub open spec fn message_text(self) -> Seq<char> {
        match self {
            AssetOpsError::RegexError(message) => message@,
            AssetOpsError::NoFileExtension => "File name has no extension"@,
            AssetOpsError::InvalidFileName => "Not a valid file name"@,
            AssetOpsError::InvalidBaseFile => "No valid base file"@,
            AssetOpsError::OsStringNotUtf8 => "An OS string is not valid utf-8"@,
            AssetOpsError::IoError(message) => message@,
            AssetOpsError::ImageError(message) => message@,
            AssetOpsError::ParseAssetFileError(error) => error@,
        }
    }

    /// The message of this error. An error that wraps another one speaks with
    /// that one's words.
    pub fn message(&self) -> (message: String)
        ensures
            message@ == self.message_text(),
    {
        match self {
            AssetOpsError::RegexError(message) => message.clone(),
            AssetOpsError::NoFileExtension => "File name has no extension".to_owned(),
            AssetOpsError::InvalidFileName => "Not a valid file name".to_owned(),
            AssetOpsError::InvalidBaseFile => "No valid base file".to_owned(),
            AssetOpsError::OsStringNotUtf8 => "An OS string is not valid utf-8".to_owned(),
            AssetOpsError::IoError(message) => message.clone(),
            AssetOpsError::ImageError(message) => message.clone(),
            AssetOpsError::ParseAssetFileError(error) => error.message(),
        }
    }
}

impl From<ParseAssetFileError> for AssetOpsError {
    fn from(error: ParseAssetFileError) -> (wrapped: AssetOpsError) {
        AssetOpsError::ParseAssetFileError(error)
    }
}

impl vstd::std_specs::convert::FromSpecImpl<ParseAssetFileError> for AssetOpsError {
    open spec fn obeys_from_spec() -> bool {
        true
    }

    open spec fn from_spec(error: ParseAssetFileError) -> AssetOpsError {
        AssetOpsError::ParseAssetFileError(error)
    }
}

} // verus!
