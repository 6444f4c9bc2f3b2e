use web_server::content::ContentTag;
use web_server::fsmodel::{FsModel, FsNode};
use web_server::response::{dec_string, format_response, status_code, text_byte_len, Outcome};
use web_server::server::{serve, Response};

#[test]
fn format_bad_request_line() {
    assert_eq!(format_response(&Outcome::BadRequest), "HTTP/1.0 400 Bad Request\n");
}

#[test]
fn format_not_found_line() {
    assert_eq!(format_response(&Outcome::NotFound), "HTTP/1.0 404 File Not Found\n");
}

#[test]
fn format_forbidden_line() {
    assert_eq!(format_response(&Outcome::Forbidden), "HTTP/1.0 403 Forbidden\n");
}

#[test]
fn format_served_html() {
    let o = Outcome::Served { body: String::from("hi"), tag: ContentTag::Html };
    assert_eq!(
        format_response(&o),
        "HTTP/1.0 200 OK\r\nWeb-Server/1.0\r\nContent-Type: text/html\r\nContent-Length: 2\r\n\r\nhi"
    );
}

#[test]
fn format_served_plain_with_longer_body() {
    let o = Outcome::Served { body: String::from("Hello world!"), tag: ContentTag::Plain };
    assert_eq!(
        format_response(&o),
        "HTTP/1.0 200 OK\r\nWeb-Server/1.0\r\nContent-Type: text/plain\r\nContent-Length: 12\r\n\r\nHello world!"
    );
}

#[test]
fn content_length_counts_bytes_not_chars() {
    let body = String::from("h\u{e9}llo");
    assert_eq!(body.chars().count(), 5);
    assert_eq!(text_byte_len(&body), 6);
    let o = Outcome::Served { body, tag: ContentTag::Plain };
    let r = format_response(&o);
    assert!(r.contains("Content-Length: 6\r\n"));
}

#[test]
fn dec_string_examples() {
    assert_eq!(dec_string(0), "0");
    assert_eq!(dec_string(7), "7");
    assert_eq!(dec_string(10), "10");
    assert_eq!(dec_string(409), "409");
    assert_eq!(dec_string(1234567890), "1234567890");
}

#[test]
fn status_codes() {
    assert_eq!(status_code(&Outcome::BadRequest), 400);
    assert_eq!(status_code(&Outcome::NotFound), 404);
    assert_eq!(status_code(&Outcome::Forbidden), 403);
    let o = Outcome::Served { body: String::from("x"), tag: ContentTag::Plain };
    assert_eq!(status_code(&o), 200);
}

#[test]
fn response_record_fields() {
    let o = Outcome::Served { body: String::from("hi"), tag: ContentTag::Html };
    let r = Response::new(String::from("GET /x HTTP"), &o, 1700000000);
    assert_eq!(r.status_code, 200);
    assert_eq!(r.request, "GET /x HTTP");
    assert_eq!(r.response_size, 2);
    assert_eq!(r.time, 1700000000);

    let r = Response::new(String::from("junk"), &Outcome::BadRequest, 5);
    assert_eq!(r.status_code, 400);
    assert_eq!(r.response_size, 0);
}

#[test]
fn serve_existing_html_file() {
    let mut fs = FsModel::new();
    fs.insert(String::from("/site"), FsNode::Dir);
    fs.insert(String::from("/site/index.html"), FsNode::FileContent(String::from("hi")));
    let r = serve(&fs, "GET /site/index.html HTTP\r\n");
    assert!(r.starts_with("HTTP/1.0 200 OK"));
    assert!(r.contains("Content-Type: text/html"));
    assert!(r.contains("Content-Length: 2"));
    assert!(r.ends_with("\r\n\r\nhi"));
}

#[test]
fn serve_unparseable_request() {
    let fs = FsModel::new();
    assert_eq!(serve(&fs, "a b c"), "HTTP/1.0 400 Bad Request\n");
}

#[test]
fn serve_missing_file() {
    let fs = FsModel::new();
    assert_eq!(serve(&fs, "GET /a/b/c HTTP"), "HTTP/1.0 404 File Not Found\n");
}

#[test]
fn serve_forbidden_file() {
    let mut fs = FsModel::new();
    fs.insert(String::from("/locked"), FsNode::FileDenied);
    assert_eq!(serve(&fs, "GET /locked HTTP"), "HTTP/1.0 403 Forbidden\n");
}

#[test]
fn serve_directory_index() {
    let mut fs = FsModel::new();
    fs.insert(String::from("/site"), FsNode::Dir);
    fs.insert(String::from("/site/index.txt"), FsNode::FileContent(String::from("plain text")));
    let r = serve(&fs, "GET /site HTTP");
    assert!(r.starts_with("HTTP/1.0 200 OK"));
    assert!(r.contains("Content-Type: text/plain"));
    assert!(r.ends_with("\r\n\r\nplain text"));
}

#[test]
fn serve_percent_encoded_path() {
    let mut fs = FsModel::new();
    fs.insert(String::from("/my file.txt"), FsNode::FileContent(String::from("spaced")));
    let r = serve(&fs, "GET /my%20file.txt HTTP");
    assert!(r.starts_with("HTTP/1.0 200 OK"));
    assert!(r.ends_with("\r\n\r\nspaced"));
}
