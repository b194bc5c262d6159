use counterfeit::error::{ErrorKind, MapperError};
use counterfeit::output::MapperOutput;
use counterfeit::request::Request;
use counterfeit::response::{is_default_header_name, set_default_headers, Header, Response};

fn cors() -> Vec<Header> {
    vec![
        Header::new("access-control-allow-origin", "*"),
        Header::new("access-control-allow-methods", "*"),
        Header::new("access-control-allow-headers", "*"),
    ]
}

fn with_json(mut headers: Vec<Header>) -> Vec<Header> {
    headers.push(Header::new("content-type", "application/json"));
    headers
}

fn unread() -> Result<String, MapperError> {
    Err(MapperError::new(ErrorKind::Other, "not read"))
}

#[test]
fn json_file_is_served_with_its_content_type() {
    let response = MapperOutput::response_from_file("responses/widgets/get.json", Ok("{\"id\":1}".to_string()));
    assert_eq!(response, Response { status: 200, headers: with_json(cors()), body: "{\"id\":1}".to_string() });
}

#[test]
fn other_file_is_served_without_a_content_type() {
    let response = MapperOutput::response_from_file("responses/widgets/get.txt", Ok("hello".to_string()));
    assert_eq!(response, Response { status: 200, headers: cors(), body: "hello".to_string() });
    let response = MapperOutput::response_from_file("responses/widgets.json/get", Ok("hello".to_string()));
    assert_eq!(response.headers, cors());
    let response = MapperOutput::response_from_file("responses/widgets/.json", Ok(String::new()));
    assert_eq!(response.headers, cors());
}

#[test]
fn empty_file_is_served_with_an_empty_body() {
    let response = MapperOutput::response_from_file("responses/widgets/get.json", Ok(String::new()));
    assert_eq!(response, Response { status: 200, headers: with_json(cors()), body: String::new() });
}

#[test]
fn unreadable_file_gives_500() {
    let response = MapperOutput::response_from_file(
        "responses/widgets/get.json",
        Err(MapperError::new(ErrorKind::Other, "permission denied")),
    );
    assert_eq!(response, Response { status: 500, headers: cors(), body: "permission denied".to_string() });
}

#[test]
fn vanished_file_gives_404() {
    let response =
        MapperOutput::response_from_file("responses/widgets/get.json", Err(MapperError::not_found("gone")));
    assert_eq!(response, Response { status: 404, headers: cors(), body: "gone".to_string() });
}

#[test]
fn not_found_error_gives_404() {
    let response = MapperOutput::response_from_error(&MapperError::not_found("No files available"));
    assert_eq!(response, Response { status: 404, headers: cors(), body: "No files available".to_string() });
}

#[test]
fn other_error_gives_500() {
    let response = MapperOutput::response_from_error(&MapperError::new(ErrorKind::Other, "disk error"));
    assert_eq!(response, Response { status: 500, headers: cors(), body: "disk error".to_string() });
}

#[test]
fn status_codes_and_header_names_are_those_of_hyper() {
    let served = MapperOutput::response_from_file("get.json", Ok(String::new()));
    assert_eq!(served.status, hyper::StatusCode::OK.as_u16());
    let names: Vec<&str> = served.headers.iter().map(|header| header.name.as_str()).collect();
    assert_eq!(
        names,
        vec![
            hyper::header::ACCESS_CONTROL_ALLOW_ORIGIN.as_str(),
            hyper::header::ACCESS_CONTROL_ALLOW_METHODS.as_str(),
            hyper::header::ACCESS_CONTROL_ALLOW_HEADERS.as_str(),
            hyper::header::CONTENT_TYPE.as_str(),
        ]
    );
    let missing = MapperOutput::response_from_error(&MapperError::not_found("x"));
    assert_eq!(missing.status, hyper::StatusCode::NOT_FOUND.as_u16());
    let failed = MapperOutput::response_from_error(&MapperError::new(ErrorKind::Other, "x"));
    assert_eq!(failed.status, hyper::StatusCode::INTERNAL_SERVER_ERROR.as_u16());
}

#[test]
fn default_headers_follow_the_other_fields() {
    let mut response = Response::new(204, String::new());
    assert_eq!(response, Response { status: 204, headers: Vec::new(), body: String::new() });
    response.push_header("x-first".to_string(), "1".to_string());
    set_default_headers(&mut response);
    let mut expected = vec![Header::new("x-first", "1")];
    expected.extend(cors());
    assert_eq!(response, Response { status: 204, headers: expected, body: String::new() });
}

#[test]
fn output_keeps_request_and_result() {
    let output = MapperOutput::new(
        Request::new("GET", "/widgets"),
        Ok("responses/widgets/get.json".to_string()),
        Ok("{\"id\":1}".to_string()),
    );
    assert_eq!(output.request(), &Request::new("GET", "/widgets"));
    assert_eq!(output.result(), &Ok("responses/widgets/get.json".to_string()));
    assert_eq!(
        output.response(),
        &Response { status: 200, headers: with_json(cors()), body: "{\"id\":1}".to_string() }
    );
    assert_eq!(output.describe(), "responses/widgets/get.json");
}

#[test]
fn output_of_a_failed_lookup_reports_the_error() {
    let missing = MapperError::not_found("No files available");
    let output = MapperOutput::new(Request::new("POST", "/widgets"), Err(missing), unread());
    assert_eq!(output.result(), &Err(MapperError::not_found("No files available")));
    assert_eq!(
        output.response(),
        &Response { status: 404, headers: cors(), body: "No files available".to_string() }
    );
    assert_eq!(output.describe(), "No files available");
}

#[test]
fn output_of_an_unreadable_file_keeps_the_path() {
    let output = MapperOutput::new(
        Request::new("GET", "/widgets"),
        Ok("responses/widgets/get.json".to_string()),
        Err(MapperError::new(ErrorKind::Other, "permission denied")),
    );
    assert_eq!(output.result(), &Ok("responses/widgets/get.json".to_string()));
    assert_eq!(output.response().status, 500);
    assert_eq!(output.response().body, "permission denied");
}

#[test]
fn response_and_result_can_be_changed_in_place() {
    let mut output = MapperOutput::new(
        Request::new("GET", "/widgets"),
        Ok("responses/widgets/get.txt".to_string()),
        Ok("hello".to_string()),
    );
    output.response_mut().status = 202;
    output.response_mut().body = "changed".to_string();
    *output.result_mut() = Err(MapperError::not_found("hidden"));
    assert_eq!(output.response().status, 202);
    assert_eq!(output.result(), &Err(MapperError::not_found("hidden")));
    assert_eq!(output.request(), &Request::new("GET", "/widgets"));
    assert_eq!(output.describe(), "hidden");
    assert_eq!(output.into_response(), Response { status: 202, headers: cors(), body: "changed".to_string() });
}

#[test]
fn setting_the_default_headers_twice_changes_nothing() {
    let mut response = Response::new(200, "body".to_string());
    response.push_header("x-first".to_string(), "1".to_string());
    set_default_headers(&mut response);
    let mut once = vec![Header::new("x-first", "1")];
    once.extend(cors());
    assert_eq!(response, Response { status: 200, headers: once, body: "body".to_string() });
    set_default_headers(&mut response);
    let mut twice = vec![Header::new("x-first", "1")];
    twice.extend(cors());
    assert_eq!(response, Response { status: 200, headers: twice, body: "body".to_string() });

    let mut served = MapperOutput::response_from_file("get.json", Ok("{}".to_string()));
    set_default_headers(&mut served);
    let mut moved = vec![Header::new("content-type", "application/json")];
    moved.extend(cors());
    assert_eq!(served, Response { status: 200, headers: moved, body: "{}".to_string() });
}

#[test]
fn default_headers_replace_earlier_values() {
    let mut response = Response::new(404, "gone".to_string());
    response.push_header("access-control-allow-origin".to_string(), "x".to_string());
    response.push_header("x-first".to_string(), "1".to_string());
    response.push_header("Access-Control-Allow-Methods".to_string(), "GET".to_string());
    response.push_header("access-control-allow-origin".to_string(), "y".to_string());
    response.push_header("x-second".to_string(), "2".to_string());
    response.push_header("ACCESS-CONTROL-ALLOW-HEADERS".to_string(), "none".to_string());
    set_default_headers(&mut response);
    let mut expected = vec![Header::new("x-first", "1"), Header::new("x-second", "2")];
    expected.extend(cors());
    assert_eq!(response, Response { status: 404, headers: expected, body: "gone".to_string() });
}

#[test]
fn default_header_names_are_told_without_regard_to_case() {
    assert!(is_default_header_name("access-control-allow-origin"));
    assert!(is_default_header_name("Access-Control-Allow-Origin"));
    assert!(is_default_header_name("access-control-allow-methods"));
    assert!(is_default_header_name("ACCESS-CONTROL-ALLOW-HEADERS"));
    assert!(!is_default_header_name("access-control-allow-credentials"));
    assert!(!is_default_header_name("access-control-allow-origi"));
    assert!(!is_default_header_name("content-type"));
    assert!(!is_default_header_name(""));
}
