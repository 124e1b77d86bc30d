//! A static site generator: content files with metadata headers are parsed,
//! transformed to HTML, and assembled into an output tree; a watcher debounces
//! filesystem events between rebuilds and a preview server routes requests
//! into the generated tree.

pub mod assets;
pub mod config;
pub mod date;
pub mod errors;
pub mod init;
pub mod json;
pub mod frontmatter;
pub mod generator;
pub mod markdown;
pub mod post;
pub mod serve;
pub mod slug;
pub mod text;
pub mod watch;
