//! Responses of the server, and the headers that make a browser save a file
//! instead of showing it.

use vstd::prelude::*;
use vstd::string::StringExecFns;

verus! {

/// One header of a response.
#[derive(Debug, PartialEq, Eq)]
pub struct Header {
    pub name: String,
    pub value: String,
}

/// What a `Header` stands for.
pub struct HeaderView {
    pub name: Seq<char>,
    pub value: Seq<char>,
}

impl View for Header {
    type V = HeaderView;

    open spec fn view(&self) -> HeaderView {
        HeaderView { name: self.name@, value: self.value@ }
    }
}

/// What a list of headers stands for.
pub open spec fn header_views(headers: Seq<Header>) -> Seq<HeaderView> {
    Seq::new(headers.len(), |i: int| headers[i]@)
}

/// A response of the server. There are two kinds and no other: the body
/// asked for, with its headers, or nothing found.
#[derive(Debug, PartialEq, Eq)]
pub enum Response {
    /// Status 200.
    Found { body: Vec<u8>, headers: Vec<Header> },
    /// Status 404, with an empty body and no headers.
    NotFound,
}

/// What a `Response` stands for.
pub enum ResponseView {
    Found { body: Seq<u8>, headers: Seq<HeaderView> },
    NotFound,
}

impl View for Response {
    type V = ResponseView;

    open spec fn view(&self) -> ResponseView {
        match *self {
            Response::Found { body, headers } => ResponseView::Found {
                body: body@,
                headers: header_views(headers@),
            },
            Response::NotFound => ResponseView::NotFound,
        }
    }
}

/// A character that may stand in the value of a header: the tab, and
/// everything from the space on but the delete character.
pub open spec fn is_header_char(c: char) -> bool {
    c == '\t' || (c as u32 >= 32 && c as u32 != 127)
}

/// A text that may stand as the value of a header.
pub open spec fn is_header_text(text: Seq<char>) -> bool {
    forall|i: int| 0 <= i < text.len() ==> is_header_char(#[trigger] text[i])
}

/// The two headers under which a file goes out for download under
/// `file_name`: its content is declared as plain bytes, and the browser is
/// told to save it under that name.
pub open spec fn download_headers(file_name: Seq<char>) -> Seq<HeaderView> {
    seq![
        HeaderView { name: "Content-Type"@, value: "application/octet-stream"@ },
        HeaderView { name: "Content-Disposition"@, value: "attachment;filename="@ + file_name },
    ]
}

/// The response that sends `contents` for download under `file_name`, or
/// nothing found where the name cannot stand in a header.
pub open spec fn download(contents: Seq<u8>, file_name: Seq<char>) -> ResponseView {
    if is_header_text(file_name) {
        ResponseView::Found { body: contents, headers: download_headers(file_name) }
    } else {
        ResponseView::NotFound
    }
}

/// Whether `text` may stand as the value of a header.
pub fn check_header_text(text: &str) -> (ok: bool)
    ensures
        ok == is_header_text(text@),
{
    let chars = crate::text::chars_of(text);
    let mut i: usize = 0;
    while i < chars.len()
        invariant
            i <= chars.len(),
            chars@ == text@,
            forall|j: int| 0 <= j < i ==> is_header_char(#[trigger] chars@[j]),
        decreases chars.len() - i,
    {
        let c = chars[i];
        if !(c == '\t' || (c as u32 >= 32 && c as u32 != 127)) {
            return false;
        }
        i = i + 1;
    }
    true
}

/// The headers for sending a file for download under `file_name`: none
/// where the name holds a character that no header value may hold.
pub fn headers_for_downloading_file(file_name: &str) -> (headers: Option<Vec<Header>>)
    ensures
        headers is Some <==> is_header_text(file_name@),
        headers matches Some(h) ==> header_views(h@) == download_headers(file_name@),
{
    if !check_header_text(file_name) {
        return None;
    }
    let mut disposition = String::from_str("attachment;filename=");
    disposition.append(file_name);
    let mut headers: Vec<Header> = Vec::new();
    headers.push(
        Header {
            name: String::from_str("Content-Type"),
            value: String::from_str("application/octet-stream"),
        },
    );
    headers.push(Header { name: String::from_str("Content-Disposition"), value: disposition });
    assert(header_views(headers@) == download_headers(file_name@));
    Some(headers)
}

/// The response for whatever cannot be served: status 404, nothing in it.
pub fn not_found_response() -> (response: Response)
    ensures
        response@ == ResponseView::NotFound,
{
    Response::NotFound
}

/// The response that sends `contents`, byte for byte, for download under
/// `download_name`. A name that cannot stand in a header gives nothing found.
pub fn respond(contents: Vec<u8>, download_name: &str) -> (response: Response)
    ensures
        response@ == download(contents@, download_name@),
{
    match headers_for_downloading_file(download_name) {
        Some(headers) => Response::Found { body: contents, headers },
        None => Response::NotFound,
    }
}

/// The status code that goes out with a response.
pub open spec fn status_of(response: ResponseView) -> nat {
    match response {
        ResponseView::Found { .. } => 200,
        ResponseView::NotFound => 404,
    }
}

/// The body that goes out with a response.
pub open spec fn body_of(response: ResponseView) -> Seq<u8> {
    match response {
        ResponseView::Found { body, .. } => body,
        ResponseView::NotFound => Seq::<u8>::empty(),
    }
}

impl Response {
    /// The status code that goes out with this response.
    pub fn status(&self) -> (code: u16)
        ensures
            code == status_of(self@),
    {
        match self {
            Response::Found { .. } => 200,
            Response::NotFound => 404,
        }
    }
}

} // verus!
