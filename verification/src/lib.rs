//! Discovers every file beneath a root URL that serves directory-index pages.
//!
//! The crate holds the decisions of such a crawl: which links of a page are
//! followed, how they are ordered, how the listing of a directory tree is put
//! together, and how the discovered entries are filtered and rendered. The
//! network itself stays with the caller, who performs the fetches that a
//! [`walker::Crawl`] asks for and hands their outcomes back.

pub mod enums;
pub mod errors;
pub mod filters;
pub mod html;
pub mod init;
pub mod json_struct;
pub mod order;
pub mod output;
pub mod parser;
pub mod simple_file_info;
pub mod site;
pub mod text;
pub mod walker;
