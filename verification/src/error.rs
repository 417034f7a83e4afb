use vstd::prelude::*;

verus! {

/// Mathematical model of an error, with every text as a character sequence.
pub enum ErrM {
    TagNotFound(Seq<char>),
    Decode(Seq<char>, Seq<char>),
    InvalidInput,
    TypeMismatch(Seq<char>),
}

/// What can go wrong when reading a tag or combining records.
#[derive(Debug)]
pub enum Error {
    /// A required tag is absent from the record.
    TagNotFound { tag: String },
    /// A tag is present but its value cannot convert to the requested type.
    DecodeError { tag: String, cause: String },
    /// The combiner was handed an element that is not a mapping.
    InvalidInput,
    /// Two records disagree on the shape of the value under one key.
    TypeMismatch { key: String },
}

impl View for Error {
    type V = ErrM;

    open spec fn view(&self) -> ErrM {
        match self {
            Error::TagNotFound { tag } => ErrM::TagNotFound(tag@),
            Error::DecodeError { tag, cause } => ErrM::Decode(tag@, cause@),
            Error::InvalidInput => ErrM::InvalidInput,
            Error::TypeMismatch { key } => ErrM::TypeMismatch(key@),
        }
    }
}

impl Error {
    /// The error for a tag that is absent from its record.
    pub fn tag_not_found(tag: &str) -> (e: Error)
        ensures
            e@ == ErrM::TagNotFound(tag@),
    {
        Error::TagNotFound { tag: tag.to_owned() }
    }

    /// The error for a tag value that does not convert to the wanted type.
    pub fn decode_error(tag: &str, cause: &str) -> (e: Error)
        ensures
            e@ == ErrM::Decode(tag@, cause@),
    {
        Error::DecodeError { tag: tag.to_owned(), cause: cause.to_owned() }
    }

    /// The error for combiner input that is not a mapping.
    pub fn invalid_input() -> (e: Error)
        ensures
            e@ == ErrM::InvalidInput,
    {
        Error::InvalidInput
    }

    /// The error for records that disagree on the shape under `key`.
    pub fn type_mismatch(key: &String) -> (e: Error)
        ensures
            e@ == ErrM::TypeMismatch(key@),
    {
        Error::TypeMismatch { key: key.clone() }
    }
}

} // verus!
