//! Content indexing for a Markdown blog: frontmatter parsing, slug and date
//! rules, Markdown rendering, and an index of posts by tag, category and date.
use vstd::prelude::*;

pub mod buckets;
pub mod date;
pub mod filename;
pub mod index;
pub mod laws;
pub mod markdown;
pub mod metadata;
pub mod order;
pub mod slug;
pub mod state;
pub mod text;

pub use date::{Date, DateTime};
pub use filename::{extract_date_from_filename, is_markdown_path};
pub use index::{build_index, load_posts, LoadFailure, PostIndex, SourceFile};
pub use markdown::{parse_frontmatter, parse_markdown_content, process_markdown_content, render_markdown, Post};
pub use metadata::{FrontmatterError, PostMetadata};
pub use state::AppState;

verus! {

} // verus!
