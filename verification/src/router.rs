//! What the server does with a request, step by step.
//!
//! The server answers a request in up to three steps, and between the steps
//! its caller looks at the filesystem. `start` takes the request and either
//! answers it or names the path to look at. `probed` takes what was found
//! there and either answers or asks for the directory's entries or the
//! file's contents. `listed` and `read` make the response of what was read.

use crate::listing::{links_for, list, name_views, page};
use crate::path::{
    all_plain, climbs_out, entry_name_of, join, lemma_escape_is_refused,
    lemma_relative_path_resolves, resolution, resolve, split, ResolvedPath, ResolvedPathView,
};
use crate::response::{
    body_of, download, download_headers, is_header_text, respond, status_of, Header, HeaderView,
    Response, ResponseView,
};
use crate::text::{same_text, text_view};
use vstd::prelude::*;
use vstd::utf8::encode_utf8;

verus! {

/// What `urlencoding::decode` makes of a request path: the text with every
/// `%` and two hexadecimal digits replaced by the byte they give, or `None`
/// where the bytes that come out are not UTF-8.
pub uninterp spec fn percent_decoded(raw: Seq<char>) -> Option<Seq<char>>;

/// Calls `urlencoding::decode`, which depends on its argument alone, and
/// returns its text, or `None` for its error. A text without a `%` comes
/// back as it went in: the crate then hands out the text it was given.
#[verifier::external_body]
fn percent_decode(raw: &str) -> (decoded: Option<String>)
    ensures
        text_view(decoded) == percent_decoded(raw@),
        !raw@.contains('%') ==> text_view(decoded) == Some(raw@),
{
    match urlencoding::decode(raw) {
        Ok(text) => Some(text.into_owned()),
        Err(_) => None,
    }
}

/// What is shared, and so how requests are answered.
#[derive(Debug, PartialEq, Eq)]
pub enum Share {
    /// One file: the path `/` sends it, every other path finds nothing.
    File(String),
    /// A directory: every path is looked up below it.
    Directory(String),
}

/// What a `Share` stands for.
pub enum ShareView {
    File(Seq<char>),
    Directory(Seq<char>),
}

impl View for Share {
    type V = ShareView;

    open spec fn view(&self) -> ShareView {
        match *self {
            Share::File(root) => ShareView::File(root@),
            Share::Directory(root) => ShareView::Directory(root@),
        }
    }
}

/// What was found at a path in the filesystem.
#[derive(Clone, Copy, Debug, PartialEq, Eq, Structural)]
pub enum EntryKind {
    /// Nothing is there.
    Missing,
    /// A directory.
    Directory,
    /// A regular file.
    File,
    /// A symbolic link. It is not followed: it may point outside the root.
    Symlink,
    /// Anything else: a socket, a device, a pipe.
    Other,
}

/// What is to be done next for a request.
#[derive(Debug, PartialEq, Eq)]
pub enum Step {
    /// Send this response: the request is done.
    Reply(Response),
    /// Find out what is at this path, and go on with `probed`.
    Probe(ResolvedPath),
    /// Read the names of the entries of this directory, and go on with
    /// `listed`.
    ListDirectory(ResolvedPath),
    /// Read the contents of this file, and go on with `read`.
    ReadFile(ResolvedPath),
}

/// What a `Step` stands for.
pub enum StepView {
    Reply(ResponseView),
    Probe(ResolvedPathView),
    ListDirectory(ResolvedPathView),
    ReadFile(ResolvedPathView),
}

impl View for Step {
    type V = StepView;

    open spec fn view(&self) -> StepView {
        match *self {
            Step::Reply(response) => StepView::Reply(response@),
            Step::Probe(path) => StepView::Probe(path@),
            Step::ListDirectory(path) => StepView::ListDirectory(path@),
            Step::ReadFile(path) => StepView::ReadFile(path@),
        }
    }
}

/// The request path that browsers ask for on their own account.
pub open spec fn is_favicon(tail: Seq<char>) -> bool {
    tail == "favicon.ico"@
}

/// The first step for a decoded request path below a shared directory: look
/// at the path it resolves to, or nothing found where it does not resolve or
/// could not be decoded.
pub open spec fn lookup(root: Seq<char>, decoded: Option<Seq<char>>) -> StepView {
    match decoded {
        None => StepView::Reply(ResponseView::NotFound),
        Some(path) => match resolution(root, path) {
            Ok(resolved) => StepView::Probe(resolved),
            Err(_) => StepView::Reply(ResponseView::NotFound),
        },
    }
}

/// The first step for a request, given what decoding makes of its path.
/// The path `tail` is the request's as it came, `decoded` what it decodes to.
pub open spec fn first_step(
    share: ShareView,
    tail: Seq<char>,
    decoded: Option<Seq<char>>,
) -> StepView {
    match share {
        ShareView::File(root) => if tail.len() == 0 {
            StepView::ReadFile(ResolvedPathView { root, names: Seq::<Seq<char>>::empty() })
        } else {
            StepView::Reply(ResponseView::NotFound)
        },
        ShareView::Directory(root) => if is_favicon(tail) {
            StepView::Reply(ResponseView::NotFound)
        } else {
            lookup(root, decoded)
        },
    }
}

/// The kind of an entry, from what the filesystem says of it without
/// following a link: a link stays a link, whatever it points to.
pub open spec fn kind_of(
    found: bool,
    is_symlink: bool,
    is_directory: bool,
    is_file: bool,
) -> EntryKind {
    if !found {
        EntryKind::Missing
    } else if is_symlink {
        EntryKind::Symlink
    } else if is_directory {
        EntryKind::Directory
    } else if is_file {
        EntryKind::File
    } else {
        EntryKind::Other
    }
}

/// The step that follows on what was found at a resolved path.
pub open spec fn next_step(resolved: ResolvedPathView, kind: EntryKind) -> StepView {
    match kind {
        EntryKind::Directory => StepView::ListDirectory(resolved),
        EntryKind::File => StepView::ReadFile(resolved),
        _ => StepView::Reply(ResponseView::NotFound),
    }
}

/// The response for a directory whose entries were read, or could not be.
pub open spec fn listing_response(
    dir: ResolvedPathView,
    entries: Option<Seq<Seq<char>>>,
) -> ResponseView {
    match entries {
        Some(names) => ResponseView::Found {
            body: encode_utf8(page(links_for(dir, names))),
            headers: Seq::<HeaderView>::empty(),
        },
        None => ResponseView::NotFound,
    }
}

/// The response for a file whose contents were read, or could not be.
pub open spec fn file_response(
    file: ResolvedPathView,
    contents: Option<Seq<u8>>,
) -> ResponseView {
    match (contents, entry_name_of(file)) {
        (Some(bytes), Some(name)) => download(bytes, name),
        _ => ResponseView::NotFound,
    }
}

/// The first step for a path below a shared directory that has been decoded,
/// or could not be.
pub fn lookup_decoded(root: &str, decoded: Option<String>) -> (step: Step)
    ensures
        step@ == lookup(root@, text_view(decoded)),
{
    match decoded {
        None => Step::Reply(Response::NotFound),
        Some(path) => match resolve(root, path.as_str()) {
            Ok(resolved) => Step::Probe(resolved),
            Err(_) => Step::Reply(Response::NotFound),
        },
    }
}

/// The first step for a request. `tail` is the path of the request as it
/// came, without the `/` at its front and still percent-encoded.
///
/// Where one file is shared, the empty path asks for it and every other
/// path finds nothing. Where a directory is shared, `favicon.ico` finds
/// nothing whatever the directory holds; every other path is decoded once
/// and resolved below the root, and what does not decode or resolve finds
/// nothing.
pub fn start(share: &Share, tail: &str) -> (step: Step)
    ensures
        step@ == first_step(share@, tail@, percent_decoded(tail@)),
        !tail@.contains('%') ==> step@ == first_step(share@, tail@, Some(tail@)),
{
    match share {
        Share::File(root) => {
            if tail.is_empty() {
                Step::ReadFile(ResolvedPath::at_root(root.as_str()))
            } else {
                Step::Reply(Response::NotFound)
            }
        },
        Share::Directory(root) => {
            if same_text(tail, "favicon.ico") {
                Step::Reply(Response::NotFound)
            } else {
                lookup_decoded(root.as_str(), percent_decode(tail))
            }
        },
    }
}

/// Tells the kind of an entry from what the filesystem says of it.
/// `found` is whether anything is there; the other three are what it is,
/// asked without following a link.
pub fn entry_kind(found: bool, is_symlink: bool, is_directory: bool, is_file: bool) -> (kind:
    EntryKind)
    ensures
        kind == kind_of(found, is_symlink, is_directory, is_file),
{
    if !found {
        EntryKind::Missing
    } else if is_symlink {
        EntryKind::Symlink
    } else if is_directory {
        EntryKind::Directory
    } else if is_file {
        EntryKind::File
    } else {
        EntryKind::Other
    }
}

/// The step that follows on what was found at `resolved`: a directory is
/// listed, a regular file is read, and everything else finds nothing.
pub fn probed(resolved: ResolvedPath, kind: EntryKind) -> (step: Step)
    ensures
        step@ == next_step(resolved@, kind),
{
    match kind {
        EntryKind::Directory => Step::ListDirectory(resolved),
        EntryKind::File => Step::ReadFile(resolved),
        _ => Step::Reply(Response::NotFound),
    }
}

/// The response for the directory `dir`, given the names of its entries, or
/// `None` where they could not be read.
pub fn listed(dir: &ResolvedPath, entries: Option<Vec<String>>) -> (response: Response)
    ensures
        response@ == listing_response(
            dir@,
            match entries {
                Some(names) => Some(name_views(names@)),
                None => None,
            },
        ),
{
    match entries {
        Some(names) => {
            let body = list(dir, &names);
            let headers: Vec<Header> = Vec::new();
            assert(crate::response::header_views(headers@) == Seq::<HeaderView>::empty());
            Response::Found { body, headers }
        },
        None => Response::NotFound,
    }
}

/// The response for the file `file`, given its contents, or `None` where
/// they could not be read. The file goes out under its own name.
pub fn read(file: &ResolvedPath, contents: Option<Vec<u8>>) -> (response: Response)
    ensures
        response@ == file_response(
            file@,
            match contents {
                Some(bytes) => Some(bytes@),
                None => None,
            },
        ),
{
    match contents {
        Some(bytes) => match file.entry_name() {
            Some(name) => respond(bytes, name.as_str()),
            None => Response::NotFound,
        },
        None => Response::NotFound,
    }
}

/// A request whose decoded path climbs above the shared directory finds
/// nothing, however the path was written before decoding.
pub proof fn lemma_escape_finds_nothing(root: Seq<char>, tail: Seq<char>, decoded: Seq<char>)
    requires
        climbs_out(split(decoded)),
    ensures
        first_step(ShareView::Directory(root), tail, Some(decoded)) == StepView::Reply(
            ResponseView::NotFound,
        ),
{
    lemma_escape_is_refused(root, decoded);
}

/// A request for a regular file below the shared directory, by the file's
/// path relative to the root, is answered with the file's contents, byte
/// for byte, for download under the file's own name. This holds of every
/// file whose name can stand in a header, and of every request but the one
/// for `favicon.ico`.
pub proof fn lemma_file_is_served(
    root: Seq<char>,
    names: Seq<Seq<char>>,
    tail: Seq<char>,
    contents: Seq<u8>,
)
    requires
        names.len() > 0,
        all_plain(names),
        !is_favicon(tail),
        is_header_text(names.last()),
    ensures
        ({
            let file = ResolvedPathView { root, names };
            &&& first_step(ShareView::Directory(root), tail, Some(join(names))) == StepView::Probe(
                file,
            )
            &&& next_step(file, EntryKind::File) == StepView::ReadFile(file)
            &&& file_response(file, Some(contents)) == (ResponseView::Found {
                body: contents,
                headers: download_headers(names.last()),
            })
        }),
{
    lemma_relative_path_resolves(root, names);
}

/// A request for `favicon.ico` in a shared directory finds nothing, before
/// anything is looked up: whether such a file is there makes no difference.
pub proof fn lemma_favicon_finds_nothing(root: Seq<char>, decoded: Option<Seq<char>>)
    ensures
        first_step(ShareView::Directory(root), "favicon.ico"@, decoded) == StepView::Reply(
            ResponseView::NotFound,
        ),
{
}

/// A request for a path at which nothing is found is answered with status
/// 404 and an empty body.
pub proof fn lemma_missing_finds_nothing(resolved: ResolvedPathView)
    ensures
        next_step(resolved, EntryKind::Missing) matches StepView::Reply(response) && status_of(
            response,
        ) == 404 && body_of(response).len() == 0,
{
}

/// Where one file is shared, every request but the one for `/` finds nothing.
pub proof fn lemma_single_file_only_at_root(
    root: Seq<char>,
    tail: Seq<char>,
    decoded: Option<Seq<char>>,
)
    requires
        tail.len() > 0,
    ensures
        first_step(ShareView::File(root), tail, decoded) == StepView::Reply(
            ResponseView::NotFound,
        ),
{
}

} // verus!
