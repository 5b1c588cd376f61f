//! A small static site generator core: front-matter splitting, metadata
//! decoding, listing rendering and template composition, with contracts
//! stated over sequences of characters.

pub mod document;
pub mod front_matter;
pub mod listing;
pub mod markdown;
pub mod metadata;
pub mod site;
pub mod template;
pub mod text;

pub use crate::front_matter::parse_markdown;
pub use crate::listing::generate_post_list_html;
pub use crate::markdown::{markdown_to_html, RenderOptions};
pub use crate::metadata::{Metadata, MetadataInvalid, RequiredKey};
pub use crate::site::{run, ContentFile, EntryKind, SiteError};
pub use crate::template::create_index_html;
