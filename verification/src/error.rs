//! The failures the mapping core reports.

use vstd::prelude::*;
use vstd::string::*;

verus! {

/// What went wrong while a request was mapped onto a file.
#[derive(Clone, Copy, Debug, PartialEq, Eq, Structural)]
pub enum ErrorKind {
    /// The directory does not exist, or no file answers the method.
    NotFound,
    /// Any other failure of the filesystem.
    Other,
}

/// A failed lookup, with the message shown to the client.
#[derive(Debug, PartialEq, Eq)]
pub struct MapperError {
    pub kind: ErrorKind,
    pub message: String,
}

/// The mathematical value of a `MapperError`.
pub struct MapperErrorView {
    pub kind: ErrorKind,
    pub message: Seq<char>,
}

impl View for MapperError {
    type V = MapperErrorView;

    open spec fn view(&self) -> MapperErrorView {
        MapperErrorView { kind: self.kind, message: self.message@ }
    }
}

impl Clone for MapperError {
    fn clone(&self) -> (copy: Self)
        ensures
            copy == *self,
    {
        MapperError { kind: self.kind, message: self.message.clone() }
    }
}

impl MapperError {
    /// An error of the given kind.
    pub fn new(kind: ErrorKind, message: &str) -> (error: Self)
        ensures
            error@ == (MapperErrorView { kind, message: message@ }),
    {
        MapperError { kind, message: message.to_owned() }
    }

    /// A not-found error.
    pub fn not_found(message: &str) -> (error: Self)
        ensures
            error@ == (MapperErrorView { kind: ErrorKind::NotFound, message: message@ }),
    {
        MapperError { kind: ErrorKind::NotFound, message: message.to_owned() }
    }

    /// Whether this is a not-found error.
    pub fn is_not_found(&self) -> (found: bool)
        ensures
            found == (self.kind == ErrorKind::NotFound),
    {
        match self.kind {
            ErrorKind::NotFound => true,
            ErrorKind::Other => false,
        }
    }

    /// The human-readable message.
    pub fn describe(&self) -> (text: String)
        ensures
            text@ == self.message@,
    {
        self.message.clone()
    }
}

/// The outcome of selecting a file: its path, or why there is none.
pub type MapperResult = Result<String, MapperError>;

/// The mathematical value of a `MapperResult`.
pub open spec fn result_view(result: MapperResult) -> Result<Seq<char>, MapperErrorView> {
    match result {
        Ok(path) => Ok(path@),
        Err(error) => Err(error@),
    }
}

/// The failure of one mutation.
#[derive(Debug, PartialEq, Eq)]
pub struct MutationError {
    pub message: String,
}

impl View for MutationError {
    type V = Seq<char>;

    open spec fn view(&self) -> Seq<char> {
        self.message@
    }
}

impl MutationError {
    /// A mutation failure with the given message.
    pub fn new(message: &str) -> (error: Self)
        ensures
            error@ == message@,
    {
        MutationError { message: message.to_owned() }
    }

    /// The human-readable message.
    pub fn describe(&self) -> (text: String)
        ensures
            text@ == self@,
    {
        self.message.clone()
    }
}

/// A failure of the whole request: no response is produced.
#[derive(Debug, PartialEq, Eq)]
pub enum ServiceError {
    /// The request's directory could not be resolved.
    Directory(MapperError),
    /// A mutation failed; those after it did not run.
    Mutation(MutationError),
    /// An event arrived that the step being handled does not expect.
    Unexpected,
}

/// The mathematical value of a `ServiceError`.
pub enum ServiceErrorView {
    Directory(MapperErrorView),
    Mutation(Seq<char>),
    Unexpected,
}

impl View for ServiceError {
    type V = ServiceErrorView;

    open spec fn view(&self) -> ServiceErrorView {
        match *self {
            ServiceError::Directory(error) => ServiceErrorView::Directory(error@),
            ServiceError::Mutation(error) => ServiceErrorView::Mutation(error@),
            ServiceError::Unexpected => ServiceErrorView::Unexpected,
        }
    }
}

impl ServiceError {
    /// The human-readable message.
    pub fn describe(&self) -> (text: String)
        ensures
            text@ == match self@ {
                ServiceErrorView::Directory(error) => error.message,
                ServiceErrorView::Mutation(message) => message,
                ServiceErrorView::Unexpected => "unexpected event"@,
            },
    {
        match self {
            ServiceError::Directory(error) => error.describe(),
            ServiceError::Mutation(error) => error.describe(),
            ServiceError::Unexpected => "unexpected event".to_owned(),
        }
    }
}

} // verus!
