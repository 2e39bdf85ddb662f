//! The event stream consumed by the renderer: a closed tagged-variant model of
//! the structural and inline tokens of a parsed Markdown document. Structural
//! variants come in properly nested start/end pairs; leaves stand alone. Text
//! payloads are carried as character vectors so that contracts can speak of
//! them as character sequences.

use vstd::prelude::*;

verus! {

/// How a link or image was written in the source.
#[derive(Debug, Clone, Copy, PartialEq, Eq)]
pub enum LinkKind {
    /// `[text](destination "title")`
    Inline,
    /// `<destination>`
    Auto,
    /// A reference-style link already resolved by the parser.
    Reference,
}

/// A structural tag opened by `MdEvent::Start`.
#[derive(Debug, Clone, PartialEq, Eq)]
pub enum MdTag {
    /// Heading with its level, 1 to 6.
    Heading(u32),
    Paragraph,
    BlockQuote,
    /// Fenced code block with its info string, or `None` for an indented one.
    CodeBlock(Option<Vec<char>>),
    /// Ordered list with its start number, or `None` for a bullet list.
    ListTag(Option<u64>),
    Item,
    Emphasis,
    Strong,
    Strikethrough,
    /// Link with how it was written, its destination and its title.
    Link(LinkKind, Vec<char>, Vec<char>),
    /// Image with how it was written, its destination and its title.
    Image(LinkKind, Vec<char>, Vec<char>),
    /// Footnote definition with its label.
    FootnoteDefinition(Vec<char>),
    /// A block of raw HTML lines.
    HtmlBlock,
    /// A structural tag this renderer passes over.
    OtherTag,
}

/// The closing counterpart of a structural tag.
#[derive(Debug, Clone, Copy, PartialEq, Eq)]
pub enum MdTagEnd {
    Heading,
    Paragraph,
    BlockQuote,
    CodeBlock,
    ListEnd,
    Item,
    Emphasis,
    Strong,
    Strikethrough,
    Link,
    Image,
    FootnoteDefinition,
    HtmlBlock,
    OtherTagEnd,
}

/// One parsed Markdown event.
#[derive(Debug, Clone, PartialEq, Eq)]
pub enum MdEvent {
    Start(MdTag),
    End(MdTagEnd),
    /// A run of literal text.
    Text(Vec<char>),
    /// An inline code span.
    Code(Vec<char>),
    /// A line of raw HTML in an HTML block.
    Html(Vec<char>),
    /// Raw inline HTML.
    InlineHtml(Vec<char>),
    SoftBreak,
    HardBreak,
    /// A thematic break.
    Rule,
    /// Task-list marker; true when checked.
    TaskListMarker(bool),
    /// Footnote reference with its label.
    FootnoteReference(Vec<char>),
    /// An event this renderer passes over.
    Other,
}

} // verus!
