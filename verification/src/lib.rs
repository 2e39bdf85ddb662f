//! A Markdown canonicalizer: renders a stream of parsed Markdown events back
//! to style-normalized text, with minimal context-dependent escaping, and
//! post-processes the result (blank-line collapse, trailing-whitespace trim,
//! line-ending policy).

use vstd::prelude::*;

pub mod conf;
pub mod fixture;
pub mod escape;
pub mod events;
pub mod parse;
pub mod post;
pub mod render;
pub mod text;

use crate::events::MdEvent;
use crate::parse::events_of;
use crate::post::{normalize_spec, post_spec, with_trailing_newline};
use crate::render::{balanced, render_spec, RenderError};

verus! {


/// The renderer's style options.
#[derive(Debug, Clone, Copy, PartialEq, Eq, Structural)]
pub struct FormatterConfig {
    /// Column the paragraph wrapper would aim for; the core renderer reflows
    /// paragraphs and leaves wrapping to a later pass.
    pub wrap_width: usize,
    /// Headings deeper than this are clamped to it.
    pub max_header_level: u32,
    /// Recorded intent only: the renderer always emits the one canonical
    /// thematic-break token, so this flag changes nothing here.
    pub standardize_horizontal_lines: bool,
    /// Collapse runs of blanks inside text to one space.
    pub normalize_spaces: bool,
    /// Recorded intent only: the post-processing pass always collapses runs
    /// of blank lines between blocks to one, so this flag changes nothing
    /// here.
    pub remove_extra_blank_lines: bool,
    /// Recorded intent only: every parser-resolved link is rendered in the
    /// inline style regardless, so this flag changes nothing here.
    pub uniform_links_style: bool,
    /// Indentation unit the source used; rendered indentation is normalized
    /// to three columns per level regardless.
    pub indent_size: u32,
    /// Recorded intent only: the event stream carries a list's start number
    /// but not its items' source numbers, so numbering is consecutive from
    /// the start either way and this flag changes nothing here.
    pub consecutive_numbering: bool,
}

impl Default for FormatterConfig {
    /// The defaults: wrap at eighty, all six heading levels, every
    /// normalization on.
    fn default() -> (r: FormatterConfig)
        ensures
            r == FormatterConfig::standard(),
    {
        FormatterConfig {
            wrap_width: 80,
            max_header_level: 6,
            standardize_horizontal_lines: true,
            normalize_spaces: true,
            remove_extra_blank_lines: true,
            uniform_links_style: true,
            indent_size: 4,
            consecutive_numbering: true,
        }
    }
}

impl FormatterConfig {
    /// The default configuration, as a value specs can name.
    pub open spec fn standard() -> FormatterConfig {
        FormatterConfig {
            wrap_width: 80,
            max_header_level: 6,
            standardize_horizontal_lines: true,
            normalize_spaces: true,
            remove_extra_blank_lines: true,
            uniform_links_style: true,
            indent_size: 4,
            consecutive_numbering: true,
        }
    }
}

/// What formatting a document yields: its event stream rendered canonically
/// and post-processed. A stream that is not properly nested — which the
/// external parser never hands over — yields nothing, rather than corrupt
/// output.
pub open spec fn format_spec(s: Seq<char>, cfg: FormatterConfig) -> Seq<char> {
    if balanced(events_of(s)) {
        with_trailing_newline(post_spec(render_spec(events_of(s), cfg)))
    } else {
        Seq::empty()
    }
}

/// Formats Markdown text canonically under the default configuration:
/// parses it, renders the event stream, and post-processes the text, exactly
/// as [`format_spec`] describes.
pub fn format_markdown(input: &str) -> (r: String)
    ensures
        r@ == format_spec(input@, FormatterConfig::standard()),
{
    let events = crate::parse::parse_document(input);
    let cfg = FormatterConfig::default();
    match crate::render::render_events(&events, &cfg) {
        Result::Ok(o) => {
            let mut trimmed = crate::post::post_chars(&o);
            trimmed.push('\n');
            proof {
                assert(trimmed@ =~= format_spec(input@, FormatterConfig::standard()));
            }
            crate::text::chars_string(&trimmed)
        },
        Result::Err(_) => String::new(),
    }
}

/// The renderer with its configuration: one value formats any number of
/// documents, one at a time, sharing no state between them.
pub struct MarkdownFormatter<'a> {
    pub config: &'a FormatterConfig,
}

/// What [`MarkdownFormatter::format_string`] yields: the document formatted
/// under the given configuration and fully normalized, with one trailing
/// newline; nothing for a stream that is not properly nested.
pub open spec fn format_string_spec(s: Seq<char>, cfg: FormatterConfig) -> Seq<char> {
    if balanced(events_of(s)) {
        normalize_spec(render_spec(events_of(s), cfg), false)
    } else {
        Seq::empty()
    }
}

impl<'a> MarkdownFormatter<'a> {
    /// A formatter over a borrowed configuration.
    pub fn new(config: &'a FormatterConfig) -> (r: Self)
        ensures
            r.config == config,
    {
        MarkdownFormatter { config }
    }

    /// Renders one event stream and normalizes the text. A stream whose
    /// structural pairs do not nest is an internal invariant violation: it
    /// is refused whole, with a diagnostic, and no partial output.
    pub fn format(&self, events: &Vec<MdEvent>) -> (r: Result<String, RenderError>)
        ensures
            r is Ok <==> balanced(events@),
            r matches Ok(o) ==> o@ == normalize_spec(render_spec(events@, *self.config), false),
    {
        match crate::render::render_events(events, self.config) {
            Result::Ok(o) => {
                let text = crate::text::chars_string(&o);
                Result::Ok(crate::post::normalize(text.as_str(), false))
            },
            Result::Err(e) => Result::Err(e),
        }
    }

    /// Formats one document from text to text, exactly as
    /// [`format_string_spec`] describes.
    pub fn format_string(&self, input: &str) -> (r: String)
        ensures
            r@ == format_string_spec(input@, *self.config),
    {
        let events = crate::parse::parse_document(input);
        match self.format(&events) {
            Result::Ok(s) => s,
            Result::Err(_) => String::new(),
        }
    }
}

} // verus!
