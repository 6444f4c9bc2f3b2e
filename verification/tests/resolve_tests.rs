use web_server::content::{content_tag, ContentTag};
use web_server::fsmodel::{resolve_in, FsModel, FsNode};
use web_server::resolve::{ProbeResult, Resolution, Resolver, Step};

fn found(body: &str, tag: ContentTag) -> Resolution {
    Resolution::Found { body: String::from(body), tag }
}

#[test]
fn content_tag_html_extension() {
    assert_eq!(content_tag("x.html"), ContentTag::Html);
    assert_eq!(content_tag("/site/index.html"), ContentTag::Html);
}

#[test]
fn content_tag_plain_cases() {
    assert_eq!(content_tag("x.txt"), ContentTag::Plain);
    assert_eq!(content_tag("x"), ContentTag::Plain);
    assert_eq!(content_tag("x.shtml"), ContentTag::Plain);
    assert_eq!(content_tag("x.HTML"), ContentTag::Plain);
    assert_eq!(content_tag(".html"), ContentTag::Plain);
    assert_eq!(content_tag("a.html/b"), ContentTag::Plain);
}

#[test]
fn resolve_existing_file() {
    let mut fs = FsModel::new();
    fs.insert(String::from("./test4/directory"), FsNode::Dir);
    fs.insert(
        String::from("./test4/directory/foo.fee"),
        FsNode::FileContent(String::from("")),
    );
    assert_eq!(
        resolve_in(&fs, &String::from("./test4/directory/foo.fee")),
        found("", ContentTag::Plain)
    );
}

#[test]
fn resolve_nonexisting_file() {
    let mut fs = FsModel::new();
    fs.insert(String::from("./test5/directory"), FsNode::Dir);
    assert_eq!(
        resolve_in(&fs, &String::from("./test5/directory/imnotreal.txt")),
        Resolution::Missing
    );
}

#[test]
fn resolve_html_index_file() {
    let mut fs = FsModel::new();
    fs.insert(String::from("./test/directory/"), FsNode::Dir);
    fs.insert(
        String::from("./test/directory/index.html"),
        FsNode::FileContent(String::from("<p>hello</p>")),
    );
    assert_eq!(
        resolve_in(&fs, &String::from("./test/directory/")),
        found("<p>hello</p>", ContentTag::Html)
    );
}

#[test]
fn resolve_shtml_index_file() {
    let mut fs = FsModel::new();
    fs.insert(String::from("./test1/directory"), FsNode::Dir);
    fs.insert(
        String::from("./test1/directory/index.shtml"),
        FsNode::FileContent(String::from("shtml body")),
    );
    assert_eq!(
        resolve_in(&fs, &String::from("./test1/directory")),
        found("shtml body", ContentTag::Plain)
    );
}

#[test]
fn resolve_txt_index_file() {
    let mut fs = FsModel::new();
    fs.insert(String::from("./test2/directory"), FsNode::Dir);
    fs.insert(
        String::from("./test2/directory/index.txt"),
        FsNode::FileContent(String::from("txt body")),
    );
    assert_eq!(
        resolve_in(&fs, &String::from("./test2/directory")),
        found("txt body", ContentTag::Plain)
    );
}

#[test]
fn resolve_no_index_file() {
    let mut fs = FsModel::new();
    fs.insert(String::from("./test3/directory"), FsNode::Dir);
    fs.insert(
        String::from("./test3/directory/blah.txt"),
        FsNode::FileContent(String::from("not an index")),
    );
    assert_eq!(resolve_in(&fs, &String::from("./test3/directory")), Resolution::Missing);
}

#[test]
fn resolve_index_precedence() {
    let mut fs = FsModel::new();
    fs.insert(String::from("/d"), FsNode::Dir);
    fs.insert(String::from("/d/index.html"), FsNode::FileContent(String::from("h")));
    fs.insert(String::from("/d/index.shtml"), FsNode::FileContent(String::from("s")));
    fs.insert(String::from("/d/index.txt"), FsNode::FileContent(String::from("t")));
    assert_eq!(resolve_in(&fs, &String::from("/d")), found("h", ContentTag::Html));

    let mut fs2 = FsModel::new();
    fs2.insert(String::from("/d"), FsNode::Dir);
    fs2.insert(String::from("/d/index.shtml"), FsNode::FileContent(String::from("s")));
    fs2.insert(String::from("/d/index.txt"), FsNode::FileContent(String::from("t")));
    assert_eq!(resolve_in(&fs2, &String::from("/d")), found("s", ContentTag::Plain));
}

#[test]
fn resolve_nested_directory_index() {
    let mut fs = FsModel::new();
    fs.insert(String::from("/d"), FsNode::Dir);
    fs.insert(String::from("/d/index.html"), FsNode::Dir);
    fs.insert(
        String::from("/d/index.html/index.txt"),
        FsNode::FileContent(String::from("deep")),
    );
    assert_eq!(resolve_in(&fs, &String::from("/d")), found("deep", ContentTag::Plain));
}

#[test]
fn resolve_unreadable_file() {
    let mut fs = FsModel::new();
    fs.insert(String::from("/secret.txt"), FsNode::FileDenied);
    assert_eq!(resolve_in(&fs, &String::from("/secret.txt")), Resolution::Unreadable);
}

#[test]
fn resolve_unreadable_index_file() {
    let mut fs = FsModel::new();
    fs.insert(String::from("/d"), FsNode::Dir);
    fs.insert(String::from("/d/index.html"), FsNode::FileDenied);
    assert_eq!(resolve_in(&fs, &String::from("/d")), Resolution::Unreadable);
}

#[test]
fn resolve_depth_bound_is_unreadable() {
    let mut fs = FsModel::new();
    let mut p = String::from("/a");
    fs.insert(p.clone(), FsNode::Dir);
    for _ in 0..40 {
        p.push_str("/index.html");
        fs.insert(p.clone(), FsNode::Dir);
    }
    assert_eq!(resolve_in(&fs, &String::from("/a")), Resolution::Unreadable);
}

#[test]
fn resolver_machine_drives_by_hand() {
    let mut m = Resolver::new(String::from("/d"));
    let step = m.next_action();
    match step {
        Step::Probe(p) => assert_eq!(p, "/d"),
        Step::Done(_) => panic!("expected a probe of /d"),
    }
    let step = m.advance(ProbeResult::Dir);
    match step {
        Step::Probe(p) => assert_eq!(p, "/d/index.html"),
        Step::Done(_) => panic!("expected a probe of the html index"),
    }
    let step = m.advance(ProbeResult::Missing);
    match step {
        Step::Probe(p) => assert_eq!(p, "/d/index.shtml"),
        Step::Done(_) => panic!("expected a probe of the shtml index"),
    }
    let step = m.advance(ProbeResult::Content(String::from("body")));
    match step {
        Step::Probe(_) => panic!("expected the machine to finish"),
        Step::Done(r) => assert_eq!(r, found("body", ContentTag::Plain)),
    }
}

#[test]
fn resolver_machine_trailing_slash_join() {
    let mut m = Resolver::new(String::from("/d/"));
    let _ = m.next_action();
    let step = m.advance(ProbeResult::Dir);
    match step {
        Step::Probe(p) => assert_eq!(p, "/d/index.html"),
        Step::Done(_) => panic!("expected a probe of the html index"),
    }
}
