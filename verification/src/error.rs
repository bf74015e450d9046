use vstd::prelude::*;

verus! {

/// Why a single file could not be ingested. Every kind is file-scoped: the
/// scan catches it, counts it, and goes on with the next file.
#[derive(PartialEq, Eq, Structural, Clone, Copy, Debug)]
pub enum ExtractionError {
    /// The path could not be opened or read.
    IoError,
    /// The file carries no tag block at all.
    NoTagFound,
    /// The tag block exists but the mandatory title is absent.
    MissingRequiredField,
}

impl ExtractionError {
    /// A human-readable description of the failure.
    pub fn message(&self) -> (r: String)
        ensures
            self is IoError ==> r@ == "could not read file"@,
            self is NoTagFound ==> r@ == "could not find tag in file"@,
            self is MissingRequiredField ==> r@ == "no title"@,
    {
        match self {
            ExtractionError::IoError => String::from_str("could not read file"),
            ExtractionError::NoTagFound => String::from_str("could not find tag in file"),
            ExtractionError::MissingRequiredField => String::from_str("no title"),
        }
    }
}

/// A general-purpose error that carries a message, as the serving layer
/// reports failures.
#[derive(Debug)]
pub struct Error {
    pub message: String,
}

impl Error {
    /// Wrap a message in an error value.
    pub fn msg(msg: String) -> (r: Error)
        ensures
            r.message@ == msg@,
    {
        Error { message: msg }
    }

    /// The wrapped message.
    pub fn text(&self) -> (r: &String)
        ensures
            r@ == self.message@,
    {
        &self.message
    }
}

/// The API layer's error taxonomy.
#[derive(Debug)]
pub enum MagpieError {
    GenericError,
    DatabaseError { msg: String },
}

impl MagpieError {
    /// A human-readable description of the failure.
    pub fn message(&self) -> (r: String)
        ensures
            self is GenericError ==> r@ == "Unknown error occured, sorry."@,
            self matches MagpieError::DatabaseError { msg } ==> r@ == msg@,
    {
        match self {
            MagpieError::GenericError => String::from_str("Unknown error occured, sorry."),
            MagpieError::DatabaseError { msg } => msg.clone(),
        }
    }
}

} // verus!
