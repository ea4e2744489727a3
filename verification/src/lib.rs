//! Core of a disposable-mailbox client: address handling, the mailbox
//! service's wire format, message models, deterministic render caching,
//! and HTML rendering of a fetched message.

pub mod addr;
pub mod html;
pub mod json;
pub mod menu;
pub mod osm;
pub mod tmp_dir;
pub mod text;
pub mod timestamp;
