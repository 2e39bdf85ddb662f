//! The parser boundary: the one place the external Markdown parser is
//! called. Parsing is a pure function of the input text; its value is named
//! by [`events_of`], and everything downstream — rendering, escaping,
//! post-processing — is verified against that name. Each converter below
//! moves one parser value into the library's event model, field by field.

use vstd::prelude::*;

use crate::events::{LinkKind, MdEvent, MdTag, MdTagEnd};

verus! {

/// The event stream the external parser produces for a text, under the
/// CommonMark grammar extended with footnotes, strikethrough and task lists.
/// The stream depends on the text alone.
pub uninterp spec fn events_of(s: Seq<char>) -> Seq<MdEvent>;

#[verifier::external_type_specification]
#[verifier::external_body]
pub struct ExEvent<'a>(pulldown_cmark::Event<'a>);

#[verifier::external_type_specification]
#[verifier::external_body]
pub struct ExTag<'a>(pulldown_cmark::Tag<'a>);

#[verifier::external_type_specification]
#[verifier::external_body]
pub struct ExTagEnd(pulldown_cmark::TagEnd);

#[verifier::external_type_specification]
#[verifier::external_body]
pub struct ExLinkType(pulldown_cmark::LinkType);

#[verifier::external_type_specification]
#[verifier::external_body]
pub struct ExCodeBlockKind<'a>(pulldown_cmark::CodeBlockKind<'a>);

/// Relies on `pulldown_cmark::Parser::new_ext`: the parser walks the text
/// and yields its event stream, balanced and in document order, a function
/// of the text alone — named here by [`events_of`].
#[verifier::external_body]
fn parse_events_raw(input: &str) -> (r: Vec<MdEvent>)
    ensures
        r@ == events_of(input@),
{
    let mut opts = pulldown_cmark::Options::empty();
    opts.insert(pulldown_cmark::Options::ENABLE_FOOTNOTES);
    opts.insert(pulldown_cmark::Options::ENABLE_STRIKETHROUGH);
    opts.insert(pulldown_cmark::Options::ENABLE_TASKLISTS);
    pulldown_cmark::Parser::new_ext(input, opts).map(conv_event).collect()
}

/// Moves one parser event into the library's event.
#[verifier::external_body]
fn conv_event(e: pulldown_cmark::Event<'_>) -> MdEvent {
    match e {
        pulldown_cmark::Event::Start(t) => MdEvent::Start(conv_tag(t)),
        pulldown_cmark::Event::End(t) => MdEvent::End(conv_tag_end(t)),
        pulldown_cmark::Event::Text(s) => MdEvent::Text(s.chars().collect()),
        pulldown_cmark::Event::Code(s) => MdEvent::Code(s.chars().collect()),
        pulldown_cmark::Event::Html(s) => MdEvent::Html(s.chars().collect()),
        pulldown_cmark::Event::InlineHtml(s) => MdEvent::InlineHtml(s.chars().collect()),
        other => conv_event_rest(other),
    }
}

/// Moves one inline leaf event into the library's event.
#[verifier::external_body]
fn conv_event_rest(e: pulldown_cmark::Event<'_>) -> MdEvent {
    match e {
        pulldown_cmark::Event::SoftBreak => MdEvent::SoftBreak,
        pulldown_cmark::Event::HardBreak => MdEvent::HardBreak,
        pulldown_cmark::Event::Rule => MdEvent::Rule,
        pulldown_cmark::Event::TaskListMarker(b) => MdEvent::TaskListMarker(b),
        pulldown_cmark::Event::FootnoteReference(s) => MdEvent::FootnoteReference(s.chars().collect()),
        _ => MdEvent::Other,
    }
}

/// Moves one block-level start tag into the library's tag.
#[verifier::external_body]
fn conv_tag(t: pulldown_cmark::Tag<'_>) -> MdTag {
    match t {
        pulldown_cmark::Tag::Paragraph => MdTag::Paragraph,
        pulldown_cmark::Tag::Heading { level, .. } => MdTag::Heading(level as u32),
        pulldown_cmark::Tag::BlockQuote(_) => MdTag::BlockQuote,
        pulldown_cmark::Tag::CodeBlock(k) => MdTag::CodeBlock(conv_code_kind(k)),
        pulldown_cmark::Tag::HtmlBlock => MdTag::HtmlBlock,
        pulldown_cmark::Tag::List(n) => MdTag::ListTag(n),
        pulldown_cmark::Tag::Item => MdTag::Item,
        pulldown_cmark::Tag::FootnoteDefinition(s) => MdTag::FootnoteDefinition(s.chars().collect()),
        other => conv_tag_inline(other),
    }
}

/// Moves one inline-level start tag into the library's tag.
#[verifier::external_body]
fn conv_tag_inline(t: pulldown_cmark::Tag<'_>) -> MdTag {
    match t {
        pulldown_cmark::Tag::Emphasis => MdTag::Emphasis,
        pulldown_cmark::Tag::Strong => MdTag::Strong,
        pulldown_cmark::Tag::Strikethrough => MdTag::Strikethrough,
        pulldown_cmark::Tag::Link { link_type, dest_url, title, .. } => conv_link(false, link_type, &dest_url, &title),
        pulldown_cmark::Tag::Image { link_type, dest_url, title, .. } => conv_link(true, link_type, &dest_url, &title),
        _ => MdTag::OtherTag,
    }
}

/// Moves one link or image tag into the library's tag.
#[verifier::external_body]
fn conv_link(image: bool, lt: pulldown_cmark::LinkType, dest: &str, title: &str) -> MdTag {
    let kind = conv_link_kind(lt);
    if image {
        MdTag::Image(kind, dest.chars().collect(), title.chars().collect())
    } else {
        MdTag::Link(kind, dest.chars().collect(), title.chars().collect())
    }
}

/// Moves the way a link was written into the library's model of it:
/// autolinks and bare email addresses stand apart, inline links keep their
/// shape, and every parser-resolved reference style is rendered inline.
#[verifier::external_body]
fn conv_link_kind(lt: pulldown_cmark::LinkType) -> LinkKind {
    match lt {
        pulldown_cmark::LinkType::Autolink | pulldown_cmark::LinkType::Email => LinkKind::Auto,
        pulldown_cmark::LinkType::Inline => LinkKind::Inline,
        _ => LinkKind::Reference,
    }
}

/// Moves one block-level end tag into the library's end tag.
#[verifier::external_body]
fn conv_tag_end(t: pulldown_cmark::TagEnd) -> MdTagEnd {
    match t {
        pulldown_cmark::TagEnd::Paragraph => MdTagEnd::Paragraph,
        pulldown_cmark::TagEnd::Heading(_) => MdTagEnd::Heading,
        pulldown_cmark::TagEnd::BlockQuote(_) => MdTagEnd::BlockQuote,
        pulldown_cmark::TagEnd::CodeBlock => MdTagEnd::CodeBlock,
        pulldown_cmark::TagEnd::HtmlBlock => MdTagEnd::HtmlBlock,
        pulldown_cmark::TagEnd::List(_) => MdTagEnd::ListEnd,
        pulldown_cmark::TagEnd::Item => MdTagEnd::Item,
        other => conv_tag_end_inline(other),
    }
}

/// Moves one inline-level end tag into the library's end tag.
#[verifier::external_body]
fn conv_tag_end_inline(t: pulldown_cmark::TagEnd) -> MdTagEnd {
    match t {
        pulldown_cmark::TagEnd::FootnoteDefinition => MdTagEnd::FootnoteDefinition,
        pulldown_cmark::TagEnd::Emphasis => MdTagEnd::Emphasis,
        pulldown_cmark::TagEnd::Strong => MdTagEnd::Strong,
        pulldown_cmark::TagEnd::Strikethrough => MdTagEnd::Strikethrough,
        pulldown_cmark::TagEnd::Link => MdTagEnd::Link,
        pulldown_cmark::TagEnd::Image => MdTagEnd::Image,
        _ => MdTagEnd::OtherTagEnd,
    }
}

/// Moves a code block kind into the library's info string: the fence's info
/// for a fenced block, nothing for an indented one.
#[verifier::external_body]
fn conv_code_kind(k: pulldown_cmark::CodeBlockKind<'_>) -> Option<Vec<char>> {
    match k {
        pulldown_cmark::CodeBlockKind::Fenced(s) => Option::Some(s.chars().collect()),
        pulldown_cmark::CodeBlockKind::Indented => Option::None,
    }
}

/// Parses a document into its event stream.
pub fn parse_document(input: &str) -> (r: Vec<MdEvent>)
    ensures
        r@ == events_of(input@),
{
    parse_events_raw(input)
}

} // verus!
