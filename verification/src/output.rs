//! What one request has come to: the request, the lookup's result and the
//! response in the making.

use vstd::prelude::*;
use vstd::string::*;
use crate::error::{result_view, MapperError, MapperErrorView, MapperResult};
use crate::request::{Request, RequestView};
use crate::response::{
    error_response, json_content_type, lemma_without_defaults_push, lookup_response, name_content_type,
    set_default_headers, status_internal_server_error, status_not_found, status_ok, Response, ResponseView,
};
use crate::text::has_extension;

verus! {

/// The request, the result of its lookup, and the response built from it.
/// Mutations work on this value; in the end its response is sent.
#[derive(Debug)]
pub struct MapperOutput {
    request: Request,
    response: Response,
    result: MapperResult,
}

/// The mathematical value of a `MapperOutput`.
pub struct MapperOutputView {
    pub request: RequestView,
    pub response: ResponseView,
    pub result: Result<Seq<char>, MapperErrorView>,
}

impl View for MapperOutput {
    type V = MapperOutputView;

    closed spec fn view(&self) -> MapperOutputView {
        MapperOutputView {
            request: self.request@,
            response: self.response@,
            result: result_view(self.result),
        }
    }
}

impl MapperOutput {
    /// Assembles the response to a lookup. `content` is what reading the
    /// selected file gave; it is not consulted where `result` is an error.
    pub fn new(request: Request, result: MapperResult, content: Result<String, MapperError>) -> (output: Self)
        ensures
            output@ == (MapperOutputView {
                request: request@,
                response: lookup_response(result_view(result), result_view(content)),
                result: result_view(result),
            }),
    {
        let response = match &result {
            Ok(path) => Self::response_from_file(path.as_str(), content),
            Err(error) => Self::response_from_error(error),
        };
        MapperOutput { request, response, result }
    }

    /// The response to a file whose reading gave `content`: the content with
    /// status 200 where it could be read, else a report of the failure.
    pub fn response_from_file(path: &str, content: Result<String, MapperError>) -> (response: Response)
        ensures
            response@ == lookup_response(Ok(path@), result_view(content)),
    {
        match content {
            Ok(body) => {
                let mut response = Response::new(status_ok(), body);
                proof {
                    lemma_without_defaults_push(Seq::empty(), json_content_type());
                }
                set_default_headers(&mut response);
                if has_extension(path, "json") {
                    response.push_header(name_content_type(), "application/json".to_owned());
                }
                response
            },
            Err(error) => Self::response_from_error(&error),
        }
    }

    /// The response that reports `error`: 404 where nothing was found, 500
    /// for any other failure, with the error's message as body.
    pub fn response_from_error(error: &MapperError) -> (response: Response)
        ensures
            response@ == error_response(error@),
    {
        let status = if error.is_not_found() {
            status_not_found()
        } else {
            status_internal_server_error()
        };
        let mut response = Response::new(status, error.describe());
        proof {
            lemma_without_defaults_push(Seq::empty(), json_content_type());
        }
        set_default_headers(&mut response);
        response
    }

    /// The request being answered.
    pub fn request(&self) -> (request: &Request)
        ensures
            request@ == self@.request,
    {
        &self.request
    }

    /// The response as it stands.
    pub fn response(&self) -> (response: &Response)
        ensures
            response@ == self@.response,
    {
        &self.response
    }

    /// The response, to be changed in place.
    pub fn response_mut(&mut self) -> (response: &mut Response)
        ensures
            response@ == old(self)@.response,
            final(self)@ == (MapperOutputView { response: final(response)@, ..old(self)@ }),
    {
        &mut self.response
    }

    /// The result of the lookup.
    pub fn result(&self) -> (result: &MapperResult)
        ensures
            result_view(*result) == self@.result,
    {
        &self.result
    }

    /// The result of the lookup, to be changed in place.
    pub fn result_mut(&mut self) -> (result: &mut MapperResult)
        ensures
            result_view(*result) == old(self)@.result,
            final(self)@ == (MapperOutputView { result: result_view(*final(result)), ..old(self)@ }),
    {
        &mut self.result
    }

    /// The path that was found, or the message of the error.
    pub fn describe(&self) -> (text: String)
        ensures
            text@ == match self@.result {
                Ok(path) => path,
                Err(error) => error.message,
            },
    {
        match &self.result {
            Ok(path) => path.clone(),
            Err(error) => error.describe(),
        }
    }

    /// Gives up the response, to be sent.
    pub fn into_response(self) -> (response: Response)
        ensures
            response@ == self@.response,
    {
        self.response
    }
}

} // verus!
