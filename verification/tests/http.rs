use worker_pool::request::parse_request;
use worker_pool::response::build_response;
use worker_pool::response::target_file;
use worker_pool::response::text_eq;

#[test]
fn parses_method_and_path_of_a_request_line() {
    let parts = parse_request(String::from("GET / HTTP/1.1\r\nHost: here\r\n\r\n"));
    assert_eq!(parts, vec![String::from("GET"), String::from("/")]);
}

#[test]
fn parses_only_the_first_line() {
    let parts = parse_request(String::from("POST /form HTTP/1.1\nPOST /other HTTP/1.1\n"));
    assert_eq!(parts, vec![String::from("POST"), String::from("/form")]);
}

#[test]
fn parses_without_a_trailing_newline() {
    let parts = parse_request(String::from("GET /pages/a.html HTTP/1.1"));
    assert_eq!(parts, vec![String::from("GET"), String::from("/pages/a.html")]);
}

#[test]
fn extra_whitespace_between_tokens_is_skipped() {
    let parts = parse_request(String::from("  GET \t  /x  HTTP/1.1\r\n"));
    assert_eq!(parts, vec![String::from("GET"), String::from("/x")]);
}

#[test]
fn root_get_maps_to_index_page() {
    let file = target_file("GET", "/");
    assert_eq!(file, "pages/index.html");
}

#[test]
fn other_paths_lose_their_leading_slash() {
    assert_eq!(target_file("GET", "/pages/a.html"), "pages/a.html");
    assert_eq!(target_file("POST", "/"), "");
}

#[test]
fn found_file_gets_success_status() {
    let r = build_response(Some(String::from("<h1>hello</h1>")));
    assert_eq!(r, "HTTP/1.1 200 OK\r\n\r\n<h1>hello</h1>");
}

#[test]
fn missing_file_gets_not_found_status() {
    let r = build_response(None);
    assert_eq!(r, "HTTP/1.1 404 NOT FOUND\r\n\r\n404 Not Found");
}

#[test]
fn text_eq_compares_characters() {
    assert!(text_eq("GET", "GET"));
    assert!(!text_eq("GET", "PUT"));
    assert!(!text_eq("GET", "GETX"));
    assert!(text_eq("", ""));
}
