use counterfeit::config::CounterfeitRunConfig;
use counterfeit::dir_picker::{DirPicker, StandardDirPicker};
use counterfeit::error::{ErrorKind, MapperError, MutationError, ServiceError};
use counterfeit::file_picker::{DefaultFilePicker, FilePick, FilePicker};
use counterfeit::index::MultiFileIndexMap;
use counterfeit::mapper::{Event, FileMapperService, Handling, MakeFileMapperService};
use counterfeit::request::Request;
use counterfeit::response::{Header, Response};

type Standard = FileMapperService<StandardDirPicker, DefaultFilePicker>;

fn service(create_missing: bool) -> Standard {
    let config = CounterfeitRunConfig::new("responses", create_missing, true);
    FileMapperService::standard(config, MultiFileIndexMap::new())
}

fn cors() -> Vec<Header> {
    vec![
        Header::new("access-control-allow-origin", "*"),
        Header::new("access-control-allow-methods", "*"),
        Header::new("access-control-allow-headers", "*"),
    ]
}

fn names(list: &[&str]) -> Vec<String> {
    list.iter().map(|name| name.to_string()).collect()
}

fn expect_probe(handling: &Handling) -> String {
    match handling {
        Handling::Probe { directory, .. } => directory.clone(),
        other => panic!("expected a probe, got {:?}", other),
    }
}

fn expect_list(handling: &Handling) -> String {
    match handling {
        Handling::List { directory, .. } => directory.clone(),
        other => panic!("expected a listing, got {:?}", other),
    }
}

fn expect_read(handling: &Handling) -> String {
    match handling {
        Handling::Read { path, .. } => path.clone(),
        other => panic!("expected a read, got {:?}", other),
    }
}

fn expect_create(handling: &Handling) -> String {
    match handling {
        Handling::Create { path, .. } => path.clone(),
        other => panic!("expected a creation, got {:?}", other),
    }
}

fn expect_response(handling: Handling) -> Response {
    match handling {
        Handling::Respond(output) => output.into_response(),
        other => panic!("expected a response, got {:?}", other),
    }
}

fn expect_failure(handling: Handling) -> ServiceError {
    match handling {
        Handling::Fail(error) => error,
        other => panic!("expected a failure, got {:?}", other),
    }
}

#[test]
fn get_widgets_serves_the_file() {
    let mut service = service(false);
    let handling = service.begin(Request::new("GET", "/widgets"));
    assert_eq!(expect_probe(&handling), "responses/widgets");
    let handling = service.advance(handling, Event::Probed(true));
    assert_eq!(expect_list(&handling), "responses/widgets");
    let handling = service.advance(handling, Event::Listed(Ok(names(&["get.json"]))));
    assert_eq!(expect_read(&handling), "responses/widgets/get.json");
    let handling = service.advance(handling, Event::Read(Ok("{\"id\":1}".to_string())));
    let response = expect_response(handling);
    assert_eq!(response.status, 200);
    assert_eq!(response.body, "{\"id\":1}");
    let mut headers = cors();
    headers.push(Header::new("content-type", "application/json"));
    assert_eq!(response.headers, headers);
}

#[test]
fn post_widgets_without_a_candidate_gives_404() {
    let mut service = service(false);
    let handling = service.begin(Request::new("POST", "/widgets"));
    let handling = service.advance(handling, Event::Probed(true));
    let handling = service.advance(handling, Event::Listed(Ok(names(&["get.json"]))));
    let response = expect_response(handling);
    assert_eq!(response, Response { status: 404, headers: cors(), body: "No files available".to_string() });
}

#[test]
fn query_is_not_part_of_the_directory() {
    let service = service(false);
    let handling = service.begin(Request::new("GET", "/widgets?page=2"));
    assert_eq!(expect_probe(&handling), "responses/widgets");
}

#[test]
fn missing_directory_fails_the_request() {
    let mut service = service(true);
    let handling = service.begin(Request::new("GET", "/nowhere"));
    let handling = service.advance(handling, Event::Probed(false));
    let error = expect_failure(handling);
    assert_eq!(error, ServiceError::Directory(MapperError::not_found("Directory not found")));
    assert_eq!(error.describe(), "Directory not found");
    assert_eq!(service.file_picker().indices().cursor("responses/nowhere"), None);
}

#[test]
fn failed_listing_gives_500() {
    let mut service = service(true);
    let handling = service.begin(Request::new("GET", "/widgets"));
    let handling = service.advance(handling, Event::Probed(true));
    let handling =
        service.advance(handling, Event::Listed(Err(MapperError::new(ErrorKind::Other, "permission denied"))));
    let response = expect_response(handling);
    assert_eq!(response, Response { status: 500, headers: cors(), body: "permission denied".to_string() });
}

#[test]
fn unreadable_file_gives_a_500_response() {
    let mut service = service(false);
    let handling = service.begin(Request::new("GET", "/widgets"));
    let handling = service.advance(handling, Event::Probed(true));
    let handling = service.advance(handling, Event::Listed(Ok(names(&["get.json"]))));
    let handling = service.advance(handling, Event::Read(Err(MapperError::new(ErrorKind::Other, "disk error"))));
    let response = expect_response(handling);
    assert_eq!(response, Response { status: 500, headers: cors(), body: "disk error".to_string() });
}

#[test]
fn placeholder_is_created_and_then_served() {
    let mut service = service(true);
    let handling = service.begin(Request::new("PUT", "/widgets"));
    let handling = service.advance(handling, Event::Probed(true));
    let handling = service.advance(handling, Event::Listed(Ok(names(&["get.json"]))));
    assert_eq!(expect_create(&handling), "responses/widgets/put.json");
    let handling = service.advance(handling, Event::Created(Ok(())));
    assert_eq!(expect_read(&handling), "responses/widgets/put.json");
    let handling = service.advance(handling, Event::Read(Ok(String::new())));
    let response = expect_response(handling);
    assert_eq!(response.status, 200);
    assert_eq!(response.body, "");
    assert_eq!(response.headers.len(), 4);

    let handling = service.begin(Request::new("PUT", "/widgets"));
    let handling = service.advance(handling, Event::Probed(true));
    let handling = service.advance(handling, Event::Listed(Ok(names(&["get.json", "put.json"]))));
    assert_eq!(expect_read(&handling), "responses/widgets/put.json");
}

#[test]
fn failed_creation_gives_500() {
    let mut service = service(true);
    let handling = service.begin(Request::new("PUT", "/widgets"));
    let handling = service.advance(handling, Event::Probed(true));
    let handling = service.advance(handling, Event::Listed(Ok(Vec::new())));
    let handling =
        service.advance(handling, Event::Created(Err(MapperError::new(ErrorKind::Other, "read-only file system"))));
    let response = expect_response(handling);
    assert_eq!(response, Response { status: 500, headers: cors(), body: "read-only file system".to_string() });
}

#[test]
fn repeated_requests_cycle_through_the_candidates() {
    let mut service = service(false);
    let listing = names(&["get_1.json", "get_2.json"]);
    let mut paths = Vec::new();
    for _ in 0..3 {
        let handling = service.begin(Request::new("GET", "/widgets"));
        let handling = service.advance(handling, Event::Probed(true));
        let handling = service.advance(handling, Event::Listed(Ok(listing.clone())));
        paths.push(expect_read(&handling));
    }
    assert_eq!(
        paths,
        vec!["responses/widgets/get_1.json", "responses/widgets/get_2.json", "responses/widgets/get_1.json"]
    );
    assert_eq!(service.file_picker().indices().cursor("responses/widgets"), Some(1));
}

#[test]
fn unexpected_event_fails_the_request() {
    let mut service = service(false);
    let handling = service.begin(Request::new("GET", "/widgets"));
    let handling = service.advance(handling, Event::Read(Ok("{}".to_string())));
    let error = expect_failure(handling);
    assert_eq!(error, ServiceError::Unexpected);
    assert_eq!(error.describe(), "unexpected event");

    let handling = service.begin(Request::new("GET", "/widgets"));
    let handling = service.advance(handling, Event::Probed(true));
    let handling = service.advance(handling, Event::Created(Ok(())));
    assert_eq!(expect_failure(handling), ServiceError::Unexpected);

    let finished = Handling::Fail(ServiceError::Mutation(MutationError::new("broken")));
    assert_eq!(expect_failure(service.advance(finished, Event::Probed(true))), ServiceError::Unexpected);
}

#[test]
fn service_keeps_its_settings() {
    let service = service(true);
    assert_eq!(service.config(), &CounterfeitRunConfig::new("responses", true, true));
    assert!(service.config().silent);
}

#[test]
fn maker_hands_its_cursors_to_the_service() {
    let mut cursors = MultiFileIndexMap::new();
    cursors.select("base/widgets", 3);
    let maker = MakeFileMapperService::new(CounterfeitRunConfig::new("base", false, false), cursors);
    let mut service = maker.into_service();
    assert_eq!(service.config(), &CounterfeitRunConfig::new("base", false, false));
    let handling = service.begin(Request::new("GET", "/widgets"));
    assert_eq!(expect_probe(&handling), "base/widgets");
    let handling = service.advance(handling, Event::Probed(true));
    let handling = service.advance(handling, Event::Listed(Ok(names(&["get_1.json", "get_2.json", "get_3.json"]))));
    assert_eq!(expect_read(&handling), "base/widgets/get_2.json");
}

struct FixedDirectory;

impl DirPicker for FixedDirectory {
    fn candidate_directory(&self, _request: &Request) -> String {
        "fixed".to_string()
    }

    fn pick_directory(&self, _request: &Request, _is_directory: bool) -> Result<String, MapperError> {
        Ok("fixed".to_string())
    }
}

struct FirstFile;

impl FilePicker for FirstFile {
    fn pick_file(&mut self, directory: &str, _request: &Request, files: &Vec<String>) -> FilePick {
        match files.first() {
            Some(name) => FilePick::Existing(format!("{}/{}", directory, name)),
            None => FilePick::Missing(MapperError::not_found("empty")),
        }
    }
}

#[test]
fn pickers_can_be_exchanged() {
    let mut service = FileMapperService::new(
        FixedDirectory,
        FirstFile,
        Vec::new(),
        CounterfeitRunConfig::new("unused", false, true),
    );
    for _ in 0..2 {
        let handling = service.begin(Request::new("GET", "/anything"));
        assert_eq!(expect_probe(&handling), "fixed");
        let handling = service.advance(handling, Event::Probed(false));
        assert_eq!(expect_list(&handling), "fixed");
        let handling = service.advance(handling, Event::Listed(Ok(names(&["b.txt", "a.txt"]))));
        assert_eq!(expect_read(&handling), "fixed/b.txt");
    }
}

#[test]
fn standard_directory_joins_base_path_and_url_path() {
    let picker = StandardDirPicker::new(CounterfeitRunConfig::new("responses", false, true));
    assert_eq!(picker.candidate_directory(&Request::new("GET", "/widgets")), "responses/widgets");
    assert_eq!(picker.candidate_directory(&Request::new("GET", "/a/b/?x=1")), "responses/a/b/");
    assert_eq!(picker.candidate_directory(&Request::new("GET", "")), "responses");
    assert_eq!(picker.pick_directory(&Request::new("GET", "/widgets"), true), Ok("responses/widgets".to_string()));
    assert_eq!(
        picker.pick_directory(&Request::new("GET", "/widgets"), false),
        Err(MapperError::not_found("Directory not found"))
    );
}
