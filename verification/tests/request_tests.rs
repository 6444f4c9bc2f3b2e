use web_server::request::parse_get_request;

fn assert_parse(request: &str, expected: &str) {
    assert_eq!(parse_get_request(request).unwrap(), expected);
}

#[test]
fn parse_spaced_get_request() {
    let request = "GET /Users/feelmyears/Google%20Drive/Spring%20Quarter/EECS%20395/Homework/eecs-495-hw4/src/main.rs HTTP\n";
    let expected = "/Users/feelmyears/Google Drive/Spring Quarter/EECS 395/Homework/eecs-495-hw4/src/main.rs";

    assert_parse(request, expected);
}

#[test]
fn parse_unspaced_get_request() {
    let request = "GET /this/is/a/path/index.html HTTP\n";
    let expected = "/this/is/a/path/index.html";
    assert_parse(request, expected);
}

#[test]
fn parse_extra_info_get_request() {
    let request = "GET /this/is/a/path/index.html HTTP/1.1\n blah blah";
    let expected = "/this/is/a/path/index.html";
    assert_parse(request, expected);
}

#[test]
fn parse_invalid_get_requests() {
    let invalid_requests = vec![
        "GET HTTP",
        "GETHTTP",
        "GET  /too/many/spaces/lhs HTTP",
        "GET /too/many/spaces/rhs  HTTP",
        "PUT /wrong/request HTTP",
        "GET /incomplete/request ",
        "GET /misspelled/request HTP",
    ];

    for i in invalid_requests {
        assert_eq!(parse_get_request(i), None);
    }
}

#[test]
fn parse_round_trip_examples() {
    for p in ["/x", "/abc", "/a/b/c.txt", "/with-dash_and.dots"] {
        let request = format!("GET {} HTTP", p);
        assert_eq!(parse_get_request(&request).unwrap(), p);
    }
}

#[test]
fn parse_percent_decoding() {
    assert_eq!(parse_get_request("GET /a%20b HTTP").unwrap(), "/a b");
}

#[test]
fn parse_version_tolerance() {
    assert_eq!(parse_get_request("GET /x HTTP/1.1").unwrap(), "/x");
}

#[test]
fn parse_rejection_set() {
    for bad in ["GET HTTP", "GETHTTP", "PUT /x HTTP", "GET /x ", "GET /x HTP"] {
        assert_eq!(parse_get_request(bad), None);
    }
}

#[test]
fn parse_empty_and_noise() {
    assert_eq!(parse_get_request(""), None);
    assert_eq!(parse_get_request("a b c"), None);
    assert_eq!(parse_get_request("GET / HTTP"), None);
}

#[test]
fn parse_match_is_leftmost() {
    assert_eq!(
        parse_get_request("noise GET /first HTTP then GET /second HTTP").unwrap(),
        "/first"
    );
}

#[test]
fn parse_trailing_nul_padding() {
    let mut request = String::from("GET /x HTTP\n");
    request.push_str(&"\u{0}".repeat(64));
    assert_eq!(parse_get_request(&request).unwrap(), "/x");
}
