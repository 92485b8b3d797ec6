use fast_share_qr::response::{
    check_header_text, headers_for_downloading_file, not_found_response, respond, Header, Response,
};

fn header(name: &str, value: &str) -> Header {
    Header { name: name.to_string(), value: value.to_string() }
}

#[test]
fn download_headers_name_the_file() {
    assert_eq!(
        headers_for_downloading_file("hello_world.rs"),
        Some(vec![
            header("Content-Type", "application/octet-stream"),
            header("Content-Disposition", "attachment;filename=hello_world.rs"),
        ])
    );
}

#[test]
fn download_headers_for_an_empty_name() {
    assert_eq!(
        headers_for_downloading_file(""),
        Some(vec![
            header("Content-Type", "application/octet-stream"),
            header("Content-Disposition", "attachment;filename="),
        ])
    );
}

#[test]
fn a_name_with_a_control_character_gets_no_headers() {
    assert_eq!(headers_for_downloading_file("a\nb.txt"), None);
    assert_eq!(headers_for_downloading_file("a\rb.txt"), None);
    assert_eq!(headers_for_downloading_file("a\u{0}b"), None);
    assert_eq!(headers_for_downloading_file("a\u{7f}b"), None);
    assert_eq!(headers_for_downloading_file("a\u{1f}"), None);
}

#[test]
fn header_text_may_hold_tabs_spaces_and_letters_of_any_script() {
    assert!(check_header_text(""));
    assert!(check_header_text("plain.txt"));
    assert!(check_header_text("with space and\ttab"));
    assert!(check_header_text("~"));
    assert!(check_header_text("grüße.txt"));
    assert!(check_header_text("\u{80}"));
    assert!(!check_header_text("\u{7f}"));
    assert!(!check_header_text("\n"));
    assert!(!check_header_text("ok until here\u{1}"));
}

#[test]
fn respond_sends_the_bytes_as_they_are() {
    let response = respond(vec![0, 1, 2, 255, 10, 13], "data.bin");
    assert_eq!(response.status(), 200);
    assert_eq!(
        response,
        Response::Found {
            body: vec![0, 1, 2, 255, 10, 13],
            headers: vec![
                header("Content-Type", "application/octet-stream"),
                header("Content-Disposition", "attachment;filename=data.bin"),
            ],
        }
    );
}

#[test]
fn respond_sends_an_empty_file() {
    match respond(Vec::new(), "empty") {
        Response::Found { body, headers } => {
            assert!(body.is_empty());
            assert_eq!(headers.len(), 2);
        }
        Response::NotFound => panic!("an empty file is still a file"),
    }
}

#[test]
fn respond_finds_nothing_for_a_name_no_header_can_hold() {
    assert_eq!(respond(vec![1, 2, 3], "bad\nname"), Response::NotFound);
}

#[test]
fn not_found_is_status_404() {
    assert_eq!(not_found_response(), Response::NotFound);
    assert_eq!(not_found_response().status(), 404);
}
