use fast_share_qr::path::ResolvedPath;
use fast_share_qr::response::{Header, Response};
use fast_share_qr::router::{
    entry_kind, listed, lookup_decoded, probed, read, start, EntryKind, Share, Step,
};

fn directory() -> Share {
    Share::Directory("/tmp/share".to_string())
}

fn probe_of(step: Step) -> ResolvedPath {
    match step {
        Step::Probe(path) => path,
        other => panic!("expected a path to look at, got {:?}", other),
    }
}

fn not_found() -> Step {
    Step::Reply(Response::NotFound)
}

fn download_of(name: &str) -> Vec<Header> {
    vec![
        Header { name: "Content-Type".to_string(), value: "application/octet-stream".to_string() },
        Header {
            name: "Content-Disposition".to_string(),
            value: format!("attachment;filename={}", name),
        },
    ]
}

#[test]
fn a_file_in_the_shared_directory_is_sent_for_download() {
    let path = probe_of(start(&directory(), "a.txt"));
    assert_eq!(path.to_path(), "/tmp/share/a.txt");
    let file = match probed(path, EntryKind::File) {
        Step::ReadFile(file) => file,
        other => panic!("expected the file to be read, got {:?}", other),
    };
    assert_eq!(file.to_path(), "/tmp/share/a.txt");
    let response = read(&file, Some(b"hi".to_vec()));
    assert_eq!(response.status(), 200);
    assert_eq!(response, Response::Found { body: b"hi".to_vec(), headers: download_of("a.txt") });
}

#[test]
fn a_directory_below_the_root_is_listed() {
    let path = probe_of(start(&directory(), "sub"));
    assert_eq!(path.to_path(), "/tmp/share/sub");
    let dir = match probed(path, EntryKind::Directory) {
        Step::ListDirectory(dir) => dir,
        other => panic!("expected the directory to be listed, got {:?}", other),
    };
    let response = listed(&dir, Some(vec!["b.txt".to_string()]));
    assert_eq!(response.status(), 200);
    match response {
        Response::Found { body, headers } => {
            let page = String::from_utf8(body).unwrap();
            assert!(page.contains("<a href=\"/sub/b.txt\">b.txt</a>"));
            assert_eq!(page, "<a href=\"/sub/b.txt\">b.txt</a><br />");
            assert!(headers.is_empty());
        }
        Response::NotFound => panic!("the directory is there"),
    }
}

#[test]
fn a_missing_path_finds_nothing() {
    let path = probe_of(start(&directory(), "missing"));
    assert_eq!(path.to_path(), "/tmp/share/missing");
    let step = probed(path, EntryKind::Missing);
    assert_eq!(step, not_found());
    match step {
        Step::Reply(response) => assert_eq!(response.status(), 404),
        _ => unreachable!(),
    }
}

#[test]
fn an_encoded_escape_finds_nothing() {
    assert_eq!(start(&directory(), "..%2Fetc%2Fpasswd"), not_found());
    assert_eq!(start(&directory(), "%2e%2e/etc/passwd"), not_found());
    assert_eq!(start(&directory(), "%2E%2E%2Fetc%2Fpasswd"), not_found());
    assert_eq!(start(&directory(), "../etc/passwd"), not_found());
    assert_eq!(start(&directory(), "sub/%2e%2e/%2e%2e/etc/passwd"), not_found());
    assert_eq!(start(&directory(), "%2Fetc%2Fpasswd"), not_found());
    assert_eq!(start(&directory(), "/etc/passwd"), not_found());
}

#[test]
fn the_request_path_is_decoded_once() {
    let path = probe_of(start(&directory(), "my%20file.txt"));
    assert_eq!(path.to_path(), "/tmp/share/my file.txt");
    let path = probe_of(start(&directory(), "100%2525.txt"));
    assert_eq!(path.to_path(), "/tmp/share/100%25.txt");
    let path = probe_of(start(&directory(), "a+b"));
    assert_eq!(path.to_path(), "/tmp/share/a+b");
    let path = probe_of(start(&directory(), "gr%C3%BC%C3%9Fe"));
    assert_eq!(path.to_path(), "/tmp/share/grüße");
}

#[test]
fn a_path_that_does_not_decode_to_text_finds_nothing() {
    assert_eq!(start(&directory(), "%ff"), not_found());
    assert_eq!(start(&directory(), "a/%C3"), not_found());
}

#[test]
fn favicon_finds_nothing() {
    assert_eq!(start(&directory(), "favicon.ico"), not_found());
}

#[test]
fn only_the_literal_favicon_request_is_special() {
    assert_eq!(
        probe_of(start(&directory(), "sub/favicon.ico")).to_path(),
        "/tmp/share/sub/favicon.ico"
    );
    assert_eq!(probe_of(start(&directory(), "favicon.icon")).to_path(), "/tmp/share/favicon.icon");
}

#[test]
fn the_root_of_a_shared_directory_is_looked_at() {
    let path = probe_of(start(&directory(), ""));
    assert!(path.is_root());
    assert_eq!(path.to_path(), "/tmp/share");
}

#[test]
fn lookup_of_a_decoded_path() {
    assert_eq!(
        probe_of(lookup_decoded("/tmp/share", Some("sub/b.txt".to_string()))).relative(),
        "sub/b.txt"
    );
    assert_eq!(lookup_decoded("/tmp/share", Some("../x".to_string())), not_found());
    assert_eq!(lookup_decoded("/tmp/share", Some("/x".to_string())), not_found());
    assert_eq!(lookup_decoded("/tmp/share", None), not_found());
}

#[test]
fn what_is_neither_file_nor_directory_finds_nothing() {
    for kind in [EntryKind::Missing, EntryKind::Symlink, EntryKind::Other] {
        let path = probe_of(start(&directory(), "thing"));
        assert_eq!(probed(path, kind), not_found());
    }
}

#[test]
fn entry_kind_from_what_the_filesystem_says() {
    assert_eq!(entry_kind(false, false, false, false), EntryKind::Missing);
    assert_eq!(entry_kind(false, true, true, true), EntryKind::Missing);
    assert_eq!(entry_kind(true, true, false, false), EntryKind::Symlink);
    assert_eq!(entry_kind(true, true, true, false), EntryKind::Symlink);
    assert_eq!(entry_kind(true, false, true, false), EntryKind::Directory);
    assert_eq!(entry_kind(true, false, false, true), EntryKind::File);
    assert_eq!(entry_kind(true, false, false, false), EntryKind::Other);
}

#[test]
fn a_directory_that_cannot_be_read_finds_nothing() {
    let dir = probe_of(start(&directory(), "sub"));
    assert_eq!(listed(&dir, None), Response::NotFound);
}

#[test]
fn a_file_that_cannot_be_read_finds_nothing() {
    let file = probe_of(start(&directory(), "a.txt"));
    assert_eq!(read(&file, None), Response::NotFound);
}

#[test]
fn a_file_goes_out_under_its_own_name() {
    let file = probe_of(start(&directory(), "sub/deeper/report.pdf"));
    assert_eq!(
        read(&file, Some(vec![1, 2, 3])),
        Response::Found { body: vec![1, 2, 3], headers: download_of("report.pdf") }
    );
}

#[test]
fn a_file_whose_name_no_header_can_hold_finds_nothing() {
    let file = probe_of(start(&directory(), "bad%0Aname"));
    assert_eq!(file.to_path(), "/tmp/share/bad\nname");
    assert_eq!(read(&file, Some(vec![1, 2, 3])), Response::NotFound);
}

#[test]
fn a_shared_directory_that_is_a_file_goes_out_under_the_roots_name() {
    let root = probe_of(start(&Share::Directory("/tmp/notes.txt".to_string()), ""));
    assert_eq!(
        read(&root, Some(b"x".to_vec())),
        Response::Found { body: b"x".to_vec(), headers: download_of("notes.txt") }
    );
}

#[test]
fn a_single_file_is_sent_for_the_root_path() {
    let share = Share::File("/home/me/hello_world.rs".to_string());
    let file = match start(&share, "") {
        Step::ReadFile(file) => file,
        other => panic!("expected the file to be read, got {:?}", other),
    };
    assert_eq!(file.to_path(), "/home/me/hello_world.rs");
    assert_eq!(
        read(&file, Some(b"fn main() {}".to_vec())),
        Response::Found { body: b"fn main() {}".to_vec(), headers: download_of("hello_world.rs") }
    );
}

#[test]
fn a_single_file_is_sent_for_no_other_path() {
    let share = Share::File("/home/me/hello_world.rs".to_string());
    assert_eq!(start(&share, "hello_world.rs"), not_found());
    assert_eq!(start(&share, "favicon.ico"), not_found());
    assert_eq!(start(&share, "x/y"), not_found());
    assert_eq!(start(&share, "%20"), not_found());
}

#[test]
fn a_single_file_without_a_name_finds_nothing() {
    let file = match start(&Share::File("/".to_string()), "") {
        Step::ReadFile(file) => file,
        other => panic!("expected the file to be read, got {:?}", other),
    };
    assert_eq!(read(&file, Some(vec![1])), Response::NotFound);
}
