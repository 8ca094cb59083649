//! The ways in which resolving a filing can fail.

use vstd::prelude::*;

verus! {

/// A field that a directory listing has to hold.
#[derive(Clone, Copy, Debug, PartialEq, Eq, Structural)]
pub enum MissingField {
    /// `directory.name`, a string.
    DirectoryName,
    /// `directory.item`, a list.
    DirectoryItems,
}

/// Why a stage of the pipeline gave no result.
#[derive(Clone, Copy, Debug, PartialEq, Eq, Structural)]
pub enum PipelineError {
    /// The connection or the transport failed. Nothing is tried again.
    Network,
    /// A document was not well formed.
    Parse,
    /// A well-formed document lacks a field that it has to hold.
    Schema(MissingField),
    /// No report of the filing is named like the statement asked for.
    NotFound,
}

impl PipelineError {
    /// The text of each error.
    pub open spec fn text(self) -> Seq<char> {
        match self {
            PipelineError::Network => "The request could not be sent or answered."@,
            PipelineError::Parse => "The document is not well formed."@,
            PipelineError::Schema(MissingField::DirectoryName) => "Directory name not found in JSON"@,
            PipelineError::Schema(MissingField::DirectoryItems) => "No items found in directory"@,
            PipelineError::NotFound => "Could not find balance sheet url."@,
        }
    }

    /// The error in words.
    pub fn message(&self) -> (text: String)
        ensures
            text@ == self.text(),
    {
        match self {
            PipelineError::Network => "The request could not be sent or answered.".to_owned(),
            PipelineError::Parse => "The document is not well formed.".to_owned(),
            PipelineError::Schema(MissingField::DirectoryName) => {
                "Directory name not found in JSON".to_owned()
            },
            PipelineError::Schema(MissingField::DirectoryItems) => {
                "No items found in directory".to_owned()
            },
            PipelineError::NotFound => "Could not find balance sheet url.".to_owned(),
        }
    }
}

} // verus!
