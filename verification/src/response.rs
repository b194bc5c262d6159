//! The response that a lookup is turned into.

use vstd::prelude::*;
use vstd::string::*;
use crate::error::{ErrorKind, MapperErrorView};
use crate::text::{ascii_folded, extension_of, file_name_of, same_text_ignoring_ascii_case};

verus! {

/// One header field.
#[derive(Debug, PartialEq, Eq)]
pub struct Header {
    pub name: String,
    pub value: String,
}

/// The mathematical value of a `Header`.
pub struct HeaderView {
    pub name: Seq<char>,
    pub value: Seq<char>,
}

impl View for Header {
    type V = HeaderView;

    open spec fn view(&self) -> HeaderView {
        HeaderView { name: self.name@, value: self.value@ }
    }
}

impl Header {
    /// The field `name: value`.
    pub fn new(name: &str, value: &str) -> (header: Self)
        ensures
            header@ == (HeaderView { name: name@, value: value@ }),
    {
        Header { name: name.to_owned(), value: value.to_owned() }
    }
}

/// A response: status code, header fields in order, and body.
#[derive(Debug, PartialEq, Eq)]
pub struct Response {
    pub status: u16,
    pub headers: Vec<Header>,
    pub body: String,
}

/// The mathematical value of a `Response`.
pub struct ResponseView {
    pub status: u16,
    pub headers: Seq<HeaderView>,
    pub body: Seq<char>,
}

impl View for Response {
    type V = ResponseView;

    open spec fn view(&self) -> ResponseView {
        ResponseView {
            status: self.status,
            headers: headers_view(self.headers@),
            body: self.body@,
        }
    }
}

/// Asks hyper for the number of `StatusCode::OK`, by `StatusCode::as_u16`.
/// Believed, not proved: that it is 200.
#[verifier::external_body]
pub(crate) fn status_ok() -> (code: u16)
    ensures
        code == 200,
{
    hyper::StatusCode::OK.as_u16()
}

/// Asks hyper for the number of `StatusCode::NOT_FOUND`, by
/// `StatusCode::as_u16`. Believed, not proved: that it is 404.
#[verifier::external_body]
pub(crate) fn status_not_found() -> (code: u16)
    ensures
        code == 404,
{
    hyper::StatusCode::NOT_FOUND.as_u16()
}

/// Asks hyper for the number of `StatusCode::INTERNAL_SERVER_ERROR`, by
/// `StatusCode::as_u16`. Believed, not proved: that it is 500.
#[verifier::external_body]
pub(crate) fn status_internal_server_error() -> (code: u16)
    ensures
        code == 500,
{
    hyper::StatusCode::INTERNAL_SERVER_ERROR.as_u16()
}

/// Asks hyper for the name `header::ACCESS_CONTROL_ALLOW_ORIGIN`, by
/// `HeaderName::as_str`. Believed, not proved: that it is spelled as below,
/// in lower case.
#[verifier::external_body]
fn name_allow_origin() -> (name: String)
    ensures
        name@ == "access-control-allow-origin"@,
{
    hyper::header::ACCESS_CONTROL_ALLOW_ORIGIN.as_str().to_string()
}

/// Asks hyper for the name `header::ACCESS_CONTROL_ALLOW_METHODS`, by
/// `HeaderName::as_str`. Believed, not proved: that it is spelled as below,
/// in lower case.
#[verifier::external_body]
fn name_allow_methods() -> (name: String)
    ensures
        name@ == "access-control-allow-methods"@,
{
    hyper::header::ACCESS_CONTROL_ALLOW_METHODS.as_str().to_string()
}

/// Asks hyper for the name `header::ACCESS_CONTROL_ALLOW_HEADERS`, by
/// `HeaderName::as_str`. Believed, not proved: that it is spelled as below,
/// in lower case.
#[verifier::external_body]
fn name_allow_headers() -> (name: String)
    ensures
        name@ == "access-control-allow-headers"@,
{
    hyper::header::ACCESS_CONTROL_ALLOW_HEADERS.as_str().to_string()
}

/// Asks hyper for the name `header::CONTENT_TYPE`, by `HeaderName::as_str`.
/// Believed, not proved: that it is spelled as below, in lower case.
#[verifier::external_body]
pub(crate) fn name_content_type() -> (name: String)
    ensures
        name@ == "content-type"@,
{
    hyper::header::CONTENT_TYPE.as_str().to_string()
}

/// The fields that every response carries: any origin, any method and any
/// request header are allowed.
pub open spec fn default_headers() -> Seq<HeaderView> {
    seq![
        HeaderView { name: "access-control-allow-origin"@, value: "*"@ },
        HeaderView { name: "access-control-allow-methods"@, value: "*"@ },
        HeaderView { name: "access-control-allow-headers"@, value: "*"@ },
    ]
}

/// Whether two field names are the same. The case of ASCII letters does not
/// tell names apart.
pub open spec fn same_name(left: Seq<char>, right: Seq<char>) -> bool {
    ascii_folded(left) == ascii_folded(right)
}

/// Whether a field name is one of the three default ones.
pub open spec fn is_default_name(name: Seq<char>) -> bool {
    ||| same_name(name, "access-control-allow-origin"@)
    ||| same_name(name, "access-control-allow-methods"@)
    ||| same_name(name, "access-control-allow-headers"@)
}

/// The fields of other names than the three default ones, in their order.
pub open spec fn without_defaults(headers: Seq<HeaderView>) -> Seq<HeaderView> {
    headers.filter(|header: HeaderView| !is_default_name(header.name))
}

/// The fields that a list of headers stands for.
pub open spec fn headers_view(headers: Seq<Header>) -> Seq<HeaderView> {
    headers.map_values(|header: Header| header@)
}

/// One more field stays if its name is none of the default ones, and is
/// left out if it is one. Of no field, none stays.
pub proof fn lemma_without_defaults_push(headers: Seq<HeaderView>, field: HeaderView)
    ensures
        without_defaults(headers.push(field)) == if is_default_name(field.name) {
            without_defaults(headers)
        } else {
            without_defaults(headers).push(field)
        },
        without_defaults(Seq::empty()) == Seq::<HeaderView>::empty(),
{
    reveal(Seq::filter);
    assert(headers.push(field).drop_last() == headers);
}

/// Fields of which none has a default name all stay.
proof fn lemma_without_defaults_keeps(headers: Seq<HeaderView>)
    requires
        forall|i: int| 0 <= i < headers.len() ==> !is_default_name(#[trigger] headers[i].name),
    ensures
        without_defaults(headers) == headers,
    decreases headers.len(),
{
    if headers.len() == 0 {
        lemma_without_defaults_push(headers, json_content_type());
        assert(headers == Seq::<HeaderView>::empty());
    } else {
        lemma_without_defaults_keeps(headers.drop_last());
        lemma_without_defaults_push(headers.drop_last(), headers.last());
        assert(headers.drop_last().push(headers.last()) == headers);
    }
}

/// Of the default fields themselves, none stays.
proof fn lemma_without_defaults_of_defaults()
    ensures
        without_defaults(default_headers()) == Seq::<HeaderView>::empty(),
{
    let fields = default_headers();
    let none = Seq::<HeaderView>::empty();
    lemma_without_defaults_push(none, fields[0]);
    lemma_without_defaults_push(none.push(fields[0]), fields[1]);
    lemma_without_defaults_push(none.push(fields[0]).push(fields[1]), fields[2]);
    assert(none.push(fields[0]).push(fields[1]).push(fields[2]) == fields);
}

/// The three default names are three: no two of them are the same name.
proof fn lemma_default_names_differ()
    ensures
        !same_name("access-control-allow-origin"@, "access-control-allow-methods"@),
        !same_name("access-control-allow-origin"@, "access-control-allow-headers"@),
        !same_name("access-control-allow-methods"@, "access-control-allow-headers"@),
{
    reveal_strlit("access-control-allow-origin");
    reveal_strlit("access-control-allow-methods");
    reveal_strlit("access-control-allow-headers");
    let origin = ascii_folded("access-control-allow-origin"@);
    let methods = ascii_folded("access-control-allow-methods"@);
    let headers = ascii_folded("access-control-allow-headers"@);
    assert(origin.len() == 27 && methods.len() == 28 && headers.len() == 28);
    assert(methods[21] == 109 && headers[21] == 104);
}

/// Once the default fields are set, each of the three default names stands
/// exactly once, with the value `*`, and behind every field of another name;
/// the fields of other names are those that stood before, in their order.
pub proof fn law_default_names_stand_once(headers: Seq<HeaderView>, position: int, which: int)
    requires
        0 <= position < (without_defaults(headers) + default_headers()).len(),
        0 <= which < 3,
    ensures
        (without_defaults(headers) + default_headers()).len() == without_defaults(headers).len() + 3,
        is_default_name((without_defaults(headers) + default_headers())[position].name) <==> position
            >= without_defaults(headers).len(),
        same_name(
            (without_defaults(headers) + default_headers())[position].name,
            default_headers()[which].name,
        ) <==> position == without_defaults(headers).len() + which,
        (without_defaults(headers) + default_headers())[without_defaults(headers).len() + which].value == "*"@,
{
    let kept = without_defaults(headers);
    let set = kept + default_headers();
    lemma_default_names_differ();
    if position < kept.len() {
        headers.lemma_filter_pred(|header: HeaderView| !is_default_name(header.name), position);
        assert(set[position] == kept[position]);
        assert(!is_default_name(kept[position].name));
    } else {
        assert(set[position] == default_headers()[position - kept.len()]);
    }
    assert(set[kept.len() + which] == default_headers()[which]);
}

/// Setting the default fields a second time changes nothing.
pub proof fn law_setting_defaults_twice_is_idle(headers: Seq<HeaderView>)
    ensures
        without_defaults(without_defaults(headers) + default_headers()) + default_headers() == without_defaults(
            headers,
        ) + default_headers(),
{
    let kept = without_defaults(headers);
    let none_is_default = |header: HeaderView| !is_default_name(header.name);
    assert forall|i: int| 0 <= i < kept.len() implies !is_default_name(#[trigger] kept[i].name) by {
        headers.lemma_filter_pred(none_is_default, i);
    }
    lemma_without_defaults_keeps(kept);
    lemma_without_defaults_of_defaults();
    Seq::filter_distributes_over_add(kept, default_headers(), none_is_default);
    assert(kept + Seq::<HeaderView>::empty() == kept);
}

/// The field that marks a body as JSON.
pub open spec fn json_content_type() -> HeaderView {
    HeaderView { name: "content-type"@, value: "application/json"@ }
}

/// Whether `path` names a JSON file.
pub open spec fn is_json_path(path: Seq<char>) -> bool {
    extension_of(file_name_of(path)) == Some("json"@)
}

/// The response that serves `body` from the file at `path`.
pub open spec fn file_response(path: Seq<char>, body: Seq<char>) -> ResponseView {
    ResponseView {
        status: 200,
        headers: if is_json_path(path) {
            default_headers().push(json_content_type())
        } else {
            default_headers()
        },
        body,
    }
}

/// The response that reports `error`.
pub open spec fn error_response(error: MapperErrorView) -> ResponseView {
    ResponseView {
        status: if error.kind == ErrorKind::NotFound {
            404
        } else {
            500
        },
        headers: default_headers(),
        body: error.message,
    }
}

/// The response to a lookup: the file's content where there is one and it
/// could be read, else a report of the failure.
pub open spec fn lookup_response(
    result: Result<Seq<char>, MapperErrorView>,
    content: Result<Seq<char>, MapperErrorView>,
) -> ResponseView {
    match result {
        Ok(path) => match content {
            Ok(body) => file_response(path, body),
            Err(error) => error_response(error),
        },
        Err(error) => error_response(error),
    }
}

/// Every response that the assembly gives carries the three default
/// fields. One that serves a file with status 200 carries, beside them, the
/// JSON content type if the file is a JSON file, and no other field; an
/// error response carries no other field.
pub proof fn law_response_headers(
    result: Result<Seq<char>, MapperErrorView>,
    content: Result<Seq<char>, MapperErrorView>,
)
    ensures
        default_headers().is_prefix_of(lookup_response(result, content).headers),
        default_headers().len() == 3,
        result is Ok && content is Ok ==> {
            &&& lookup_response(result, content).status == 200
            &&& is_json_path(result->Ok_0) ==> lookup_response(result, content).headers
                == default_headers().push(json_content_type())
            &&& !is_json_path(result->Ok_0) ==> lookup_response(result, content).headers == default_headers()
        },
        result is Err || content is Err ==> {
            &&& lookup_response(result, content).status != 200
            &&& lookup_response(result, content).headers == default_headers()
        },
{
}

impl Response {
    /// A response with the given status and body, and no header.
    pub fn new(status: u16, body: String) -> (response: Self)
        ensures
            response@ == (ResponseView { status, headers: Seq::empty(), body: body@ }),
    {
        let response = Response { status, headers: Vec::new(), body };
        assert(response@.headers == Seq::<HeaderView>::empty());
        response
    }

    /// Appends the field `name: value`.
    pub fn push_header(&mut self, name: String, value: String)
        ensures
            final(self)@ == (ResponseView {
                headers: old(self)@.headers.push(HeaderView { name: name@, value: value@ }),
                ..old(self)@
            }),
    {
        let header = Header { name, value };
        self.headers.push(header);
        assert(self@.headers == old(self)@.headers.push(header@));
    }
}

/// Whether a field name is one of the three default ones. Names are
/// compared without regard to the case of their ASCII letters.
pub fn is_default_header_name(name: &str) -> (is_default: bool)
    ensures
        is_default == is_default_name(name@),
{
    same_text_ignoring_ascii_case(name, name_allow_origin().as_str()) || same_text_ignoring_ascii_case(
        name,
        name_allow_methods().as_str(),
    ) || same_text_ignoring_ascii_case(name, name_allow_headers().as_str())
}

/// Sets the fields that every response carries: whatever stood under one of
/// the three names is replaced, so that each of them stands once, with the
/// value `*`, behind the fields of other names, which stay as they were.
pub fn set_default_headers(response: &mut Response)
    ensures
        final(response)@ == (ResponseView {
            headers: without_defaults(old(response)@.headers) + default_headers(),
            ..old(response)@
        }),
{
    let mut kept: Vec<Header> = Vec::new();
    let mut i: usize = 0;
    proof {
        lemma_without_defaults_push(Seq::empty(), json_content_type());
    }
    assert(response@.headers.take(0) == Seq::<HeaderView>::empty());
    assert(headers_view(kept@) == Seq::<HeaderView>::empty());
    while i < response.headers.len()
        invariant
            i <= response.headers.len(),
            *response == *old(response),
            headers_view(kept@) == without_defaults(response@.headers.take(i as int)),
        decreases response.headers.len() - i,
    {
        let ghost before = headers_view(kept@);
        let ghost field = response.headers@[i as int]@;
        proof {
            lemma_without_defaults_push(response@.headers.take(i as int), field);
        }
        assert(response@.headers.take(i + 1) == response@.headers.take(i as int).push(field));
        if !is_default_header_name(response.headers[i].name.as_str()) {
            let header = Header {
                name: response.headers[i].name.clone(),
                value: response.headers[i].value.clone(),
            };
            kept.push(header);
            assert(headers_view(kept@) == before.push(field));
        }
        i = i + 1;
    }
    assert(response@.headers.take(i as int) == response@.headers);
    response.headers = kept;
    response.push_header(name_allow_origin(), "*".to_owned());
    response.push_header(name_allow_methods(), "*".to_owned());
    response.push_header(name_allow_headers(), "*".to_owned());
    assert(response@.headers =~= without_defaults(old(response)@.headers) + default_headers());
}

} // verus!
