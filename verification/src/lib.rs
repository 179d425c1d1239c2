//! Convert an archived social-media post, given as a parsed markup tree,
//! into a normalized record and render that record as a Markdown document
//! with TOML front matter.

pub mod dom;
pub mod markdown;
pub mod models;
pub mod parser;
pub mod text;
pub mod tree;
pub mod utils;

pub use markdown::generate_markdown;
pub use models::Comment;
pub use models::PostData;
pub use parser::extract_post_data;
pub use utils::format_filename_date;
