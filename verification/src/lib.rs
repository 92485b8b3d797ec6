//! Sharing a text, a file or a directory with a nearby device: the link that
//! goes into the scannable code, and the request handling of the small HTTP
//! server behind that link.

pub mod code;
pub mod config;
pub mod listing;
pub mod path;
pub mod response;
pub mod router;
pub mod text;
