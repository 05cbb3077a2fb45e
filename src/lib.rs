//! A small publishing tool: posts written in markdown are rendered to HTML
//! and kept, newest first, in one static index page.
pub mod app;
pub mod config;
pub mod date;
pub mod laws;
pub mod page;
pub mod post;
pub mod recover;

pub use app::{App, Regeneration, INDEX_FILE, STYLESHEET_FILE};
pub use config::{Config, SetupError};
pub use date::{format_date, ordinal_suffix, Date};
pub use page::{default_stylesheet, render_index};
pub use post::Post;
pub use recover::{article_body, parse_posts, recover_posts, Fragment};
