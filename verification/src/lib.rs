//! A fast, minimal markdown preview reader: the verified core.
//!
//! The library holds the logic of the preview server: the open-file store,
//! URL and request parsing, the tabbed application page, identifier rules and
//! the text helpers that they are built from.

pub mod cli;
pub mod clock;
pub mod icon;
pub mod ids;
pub mod renderer;
pub mod server;
pub mod store;
pub mod template;
pub mod text;
pub mod unicode;
pub mod url;

pub use clock::current_timestamp;
pub use ids::make_file_id;
pub use renderer::render_content;
pub use store::{FileEntry, FileStore};
