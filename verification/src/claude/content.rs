//! Conversation content blocks: text, images, tool invocations and results.

use vstd::prelude::*;

verus! {

/// A source citation attached to a text block by the remote model.
#[derive(Debug, PartialEq)]
pub struct Citation {
    pub kind: String,
    pub url: String,
    pub title: String,
    pub encrypted_index: String,
    pub cited_text: String,
}

/// An image carried inline as base64-encoded data.
#[derive(Debug, PartialEq)]
pub enum ImageSource {
    Base64 { media_type: String, data: String },
}

/// One atomic unit of conversation content.
///
/// The remote model must never itself emit `Image` or `ToolResult`;
/// receiving one of those from it is a protocol violation.  The two
/// server-side variants are opaque pass-through values whose payload the
/// library carries as raw JSON text.
#[derive(Debug, PartialEq)]
pub enum Content {
    Text { text: String, citations: Option<Vec<Citation>> },
    Image { source: ImageSource },
    ToolResult { tool_use_id: String, content: String, is_error: bool },
    ToolUse { id: String, name: String, input: Vec<(String, String)> },
    ServerToolUse { id: String, name: String, input_json: String },
    WebSearchToolResult { tool_use_id: String, content: String },
}

impl Content {
    /// Whether this block is an image.
    pub fn is_image(&self) -> (r: bool)
        ensures
            r == (self is Image),
    {
        match self {
            Content::Image { .. } => true,
            _ => false,
        }
    }

    /// A plain text block without citations.
    pub fn text(text: &str) -> (r: Content)
        ensures
            r matches Content::Text { text: t, citations } && t@ == text@ && citations is None,
    {
        Content::Text { text: text.to_owned(), citations: None }
    }
}

} // verus!
