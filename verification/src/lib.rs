//! Airgap formatter core: a verified share-payload protocol (compress,
//! encrypt, encode, and back), plus verified syntax highlighters for
//! Markdown and XML and helpers for the surrounding formatting tools.

pub mod base64url;
pub mod markdown_highlighter;
pub mod markdown_renderer;
pub mod share;
pub mod text;
pub mod xml_formatter;
pub mod xml_highlighter;

pub use markdown_highlighter::highlight_markdown;
pub use markdown_renderer::{render_markdown, RenderError};
pub use xml_formatter::position_to_line_column;
pub use xml_highlighter::highlight_xml;
