//! The part of an HTTP request that the mapping reads.

use vstd::prelude::*;
use vstd::string::*;

verus! {

/// A request: its method and the path of its URL.
#[derive(Debug, PartialEq, Eq)]
pub struct Request {
    pub method: String,
    pub path: String,
}

/// The mathematical value of a `Request`.
pub struct RequestView {
    pub method: Seq<char>,
    pub path: Seq<char>,
}

impl View for Request {
    type V = RequestView;

    open spec fn view(&self) -> RequestView {
        RequestView { method: self.method@, path: self.path@ }
    }
}

impl Clone for Request {
    fn clone(&self) -> (copy: Self)
        ensures
            copy == *self,
    {
        Request { method: self.method.clone(), path: self.path.clone() }
    }
}

impl Request {
    /// A request with the given method and URL path.
    pub fn new(method: &str, path: &str) -> (request: Self)
        ensures
            request@ == (RequestView { method: method@, path: path@ }),
    {
        Request { method: method.to_owned(), path: path.to_owned() }
    }
}

} // verus!
