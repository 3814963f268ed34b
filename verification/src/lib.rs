//! A verified library for the request-processing logic of a static web
//! server: byte ranges, entity tags, content codings and other header
//! parsing, configuration values and response planning.
use vstd::prelude::*;

pub mod text;
pub mod numfmt;
pub mod range_header;
pub mod response;
pub mod range;
pub mod etag;
pub mod content_coding;
pub mod settings;
pub mod mem_cache;
pub mod helpers;
pub mod http_ext;
pub mod error_page;
pub mod path_ext;
pub mod manifest;
pub mod https_redirect;
pub mod metrics;
pub mod scripts;
pub mod security_headers;
pub mod health;
pub mod fallback_page;
pub mod maintenance_mode;
pub mod url_patterns;
pub mod redirects;
pub mod rewrites;
pub mod mime_ext;
pub mod quality_value;
pub mod browser;
pub mod handler;
pub mod fs_path;
pub mod log_addr;
pub mod rejection;
pub mod filters;

verus! {
} // verus!
