//! What is shared, where the server listens, and the link that is shown.

use crate::router::{Share, ShareView};
use crate::text::{decimal, decimal_digits, string_of, text_view};
use vstd::prelude::*;
use vstd::string::StringExecFns;

verus! {

/// What is shared: a text, one file, or a directory with all below it.
#[derive(Debug, PartialEq, Eq)]
pub enum ShareItem {
    Text(String),
    File(String),
    Directory(String),
}

/// What a `ShareItem` stands for.
pub enum ShareItemView {
    Text(Seq<char>),
    File(Seq<char>),
    Directory(Seq<char>),
}

impl View for ShareItem {
    type V = ShareItemView;

    open spec fn view(&self) -> ShareItemView {
        match *self {
            ShareItem::Text(text) => ShareItemView::Text(text@),
            ShareItem::File(path) => ShareItemView::File(path@),
            ShareItem::Directory(path) => ShareItemView::Directory(path@),
        }
    }
}

/// Where the server listens and what it serves.
#[derive(Debug, PartialEq, Eq)]
pub struct ServerConfig {
    /// The path of the file or directory that is shared.
    pub root: String,
    /// The name or address under which other devices reach this one.
    pub hostname: String,
    /// The port on which the server listens.
    pub port: u16,
}

/// What a `ServerConfig` stands for.
pub struct ServerConfigView {
    pub root: Seq<char>,
    pub hostname: Seq<char>,
    pub port: u16,
}

impl View for ServerConfig {
    type V = ServerConfigView;

    open spec fn view(&self) -> ServerConfigView {
        ServerConfigView { root: self.root@, hostname: self.hostname@, port: self.port }
    }
}

/// Why no server can be started.
#[derive(Clone, Copy, Debug, PartialEq, Eq, Structural)]
pub enum StartupError {
    /// No port was asked for and none was found free.
    NoFreePort,
    /// No hostname was asked for and the address of this device is not known.
    NoLocalAddress,
}

/// What is to be done once the choices are made.
#[derive(Debug, PartialEq, Eq)]
pub enum Plan {
    /// Show this text; no server is needed.
    Show(String),
    /// Start a server, and show the link to it.
    Serve { config: ServerConfig, share: Share },
}

/// What a `Plan` stands for.
pub enum PlanView {
    Show(Seq<char>),
    Serve { config: ServerConfigView, share: ShareView },
}

impl View for Plan {
    type V = PlanView;

    open spec fn view(&self) -> PlanView {
        match *self {
            Plan::Show(text) => PlanView::Show(text@),
            Plan::Serve { config, share } => PlanView::Serve { config: config@, share: share@ },
        }
    }
}

/// The item that is shared where a text, a file and a directory may each be
/// given: the text before the file, and the file before the directory.
pub open spec fn selected(
    text: Option<Seq<char>>,
    file: Option<Seq<char>>,
    directory: Option<Seq<char>>,
) -> Option<ShareItemView> {
    match (text, file, directory) {
        (Some(t), _, _) => Some(ShareItemView::Text(t)),
        (None, Some(f), _) => Some(ShareItemView::File(f)),
        (None, None, Some(d)) => Some(ShareItemView::Directory(d)),
        (None, None, None) => None,
    }
}

/// The link to a server: `http://`, the hostname, a colon, the port in base
/// ten, and a `/`.
pub open spec fn url_of(hostname: Seq<char>, port: u16) -> Seq<char> {
    "http://"@ + hostname + ":"@ + decimal(port as nat) + "/"@
}

/// The first of the two that is there.
pub open spec fn first_of<T>(asked: Option<T>, found: Option<T>) -> Option<T> {
    match asked {
        Some(_) => asked,
        None => found,
    }
}

/// The plan for an item, given what was asked for and what was found out
/// about this device. A text needs no server. For a file or a directory the
/// port is looked at first and the hostname second; what was asked for goes
/// before what was found.
pub open spec fn planned(
    item: ShareItemView,
    hostname: Option<Seq<char>>,
    port: Option<u16>,
    found_port: Option<u16>,
    found_address: Option<Seq<char>>,
) -> Result<PlanView, StartupError> {
    match item {
        ShareItemView::Text(text) => Ok(PlanView::Show(text)),
        ShareItemView::File(root) => served(
            root,
            ShareView::File(root),
            first_of(hostname, found_address),
            first_of(port, found_port),
        ),
        ShareItemView::Directory(root) => served(
            root,
            ShareView::Directory(root),
            first_of(hostname, found_address),
            first_of(port, found_port),
        ),
    }
}

/// The plan to serve `share`, where a port and a hostname are there.
pub open spec fn served(
    root: Seq<char>,
    share: ShareView,
    hostname: Option<Seq<char>>,
    port: Option<u16>,
) -> Result<PlanView, StartupError> {
    match (port, hostname) {
        (None, _) => Err(StartupError::NoFreePort),
        (Some(_), None) => Err(StartupError::NoLocalAddress),
        (Some(p), Some(h)) => Ok(
            PlanView::Serve { config: ServerConfigView { root, hostname: h, port: p }, share },
        ),
    }
}

/// The link that is shown for a plan: the text itself, or the link to the
/// server.
pub open spec fn link_of(plan: PlanView) -> Seq<char> {
    match plan {
        PlanView::Show(text) => text,
        PlanView::Serve { config, .. } => url_of(config.hostname, config.port),
    }
}

/// What an optional item stands for.
pub open spec fn item_view(item: Option<ShareItem>) -> Option<ShareItemView> {
    match item {
        Some(i) => Some(i@),
        None => None,
    }
}

/// Picks the item to share: the text if there is one, else the file, else
/// the directory, and `None` where none of the three is given.
pub fn select_item(text: Option<String>, file: Option<String>, directory: Option<String>) -> (item:
    Option<ShareItem>)
    ensures
        item_view(item) == selected(text_view(text), text_view(file), text_view(directory)),
{
    match text {
        Some(t) => Some(ShareItem::Text(t)),
        None => match file {
            Some(f) => Some(ShareItem::File(f)),
            None => match directory {
                Some(d) => Some(ShareItem::Directory(d)),
                None => None,
            },
        },
    }
}

/// Whether a free port has to be looked for: a server is needed and no port
/// was asked for.
pub fn needs_free_port(item: &ShareItem, port: Option<u16>) -> (needed: bool)
    ensures
        needed == (!(item@ is Text) && port is None),
{
    match item {
        ShareItem::Text(_) => false,
        _ => port.is_none(),
    }
}

/// Whether the address of this device has to be found out: a server is
/// needed and no hostname was asked for.
pub fn needs_local_address(item: &ShareItem, hostname: &Option<String>) -> (needed: bool)
    ensures
        needed == (!(item@ is Text) && hostname is None),
{
    match item {
        ShareItem::Text(_) => false,
        _ => hostname.is_none(),
    }
}

/// Puts the server's settings together, where a port and a hostname are
/// there.
fn serve(root: String, share: Share, hostname: Option<String>, port: Option<u16>) -> (r: Result<
    Plan,
    StartupError,
>)
    ensures
        match r {
            Ok(plan) => served(root@, share@, text_view(hostname), port) == Ok::<
                PlanView,
                StartupError,
            >(plan@),
            Err(e) => served(root@, share@, text_view(hostname), port) == Err::<
                PlanView,
                StartupError,
            >(e),
        },
{
    match port {
        None => Err(StartupError::NoFreePort),
        Some(p) => match hostname {
            None => Err(StartupError::NoLocalAddress),
            Some(h) => {
                let config = ServerConfig { root, hostname: h, port: p };
                Ok(Plan::Serve { config, share })
            },
        },
    }
}

/// Decides what is to be done for `item`. `hostname` and `port` are what was
/// asked for; `found_port` is a port that was found free and `found_address`
/// the address of this device, each `None` where it was not looked for or
/// not found.
pub fn plan(
    item: ShareItem,
    hostname: Option<String>,
    port: Option<u16>,
    found_port: Option<u16>,
    found_address: Option<String>,
) -> (r: Result<Plan, StartupError>)
    ensures
        match r {
            Ok(plan) => planned(
                item@,
                text_view(hostname),
                port,
                found_port,
                text_view(found_address),
            ) == Ok::<PlanView, StartupError>(plan@),
            Err(e) => planned(
                item@,
                text_view(hostname),
                port,
                found_port,
                text_view(found_address),
            ) == Err::<PlanView, StartupError>(e),
        },
{
    let the_port = match port {
        Some(_) => port,
        None => found_port,
    };
    let the_hostname = match hostname {
        Some(_) => hostname,
        None => found_address,
    };
    match item {
        ShareItem::Text(text) => Ok(Plan::Show(text)),
        ShareItem::File(root) => {
            let share = Share::File(root.clone());
            serve(root, share, the_hostname, the_port)
        },
        ShareItem::Directory(root) => {
            let share = Share::Directory(root.clone());
            serve(root, share, the_hostname, the_port)
        },
    }
}

impl ServerConfig {
    /// The link under which other devices reach the server.
    pub fn url(&self) -> (link: String)
        ensures
            link@ == url_of(self@.hostname, self@.port),
    {
        let digits = decimal_digits(self.port);
        let number = string_of(digits.as_slice());
        let mut link = String::from_str("http://");
        link.append(self.hostname.as_str());
        link.append(":");
        link.append(number.as_str());
        link.append("/");
        link
    }
}

impl Plan {
    /// The link to show: the text itself, or the link to the server.
    pub fn link(&self) -> (link: String)
        ensures
            link@ == link_of(self@),
    {
        match self {
            Plan::Show(text) => text.clone(),
            Plan::Serve { config, .. } => config.url(),
        }
    }
}

} // verus!
