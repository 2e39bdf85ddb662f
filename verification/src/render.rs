//! The renderer: a single forward pass over the event stream that emits
//! canonical Markdown text. It owns the list context stack and the block
//! context (quote depth, open code block, link labels) and consults the
//! escape policy engine for every text run. Its whole behaviour is pinned to
//! the spec-level fold [`render_fold`]: one step function, [`render_step`],
//! says for every event exactly what text is appended and how the state
//! moves.

use vstd::prelude::*;

use crate::escape::{escape_seq, EscapeCtx};
use crate::events::{LinkKind, MdEvent, MdTag, MdTagEnd};
use crate::text::{
    char_run, dec_rep, inline_blank, is_inline_blank, is_md_whitespace, leading_run, max_run,
};

verus! {

/// One entry of the list context stack: one open list.
#[derive(Debug, Clone, Copy, PartialEq, Eq, Structural)]
pub struct ListFrame {
    /// Whether the list is ordered.
    pub ordered: bool,
    /// The first item's number, as the source gave it.
    pub start_number: u64,
    /// The number the next item will carry.
    pub current_number: u64,
}

/// One open link or image: what the closing bracket will need.
#[derive(Debug, Clone, PartialEq, Eq)]
pub struct LinkInfo {
    /// An autolink: emitted whole at its start, content suppressed.
    pub auto: bool,
    pub dest: Vec<char>,
    pub title: Vec<char>,
}

/// Ghost image of one open link.
pub struct LinkModel {
    pub auto: bool,
    pub dest: Seq<char>,
    pub title: Seq<char>,
}

/// The renderer's mutable context, reset per document.
pub struct RenderState {
    /// The list context stack; the last frame is the innermost open list.
    pub lists: Vec<ListFrame>,
    /// The open links and images, innermost last.
    pub links: Vec<LinkInfo>,
    /// How many block quotes are open.
    pub quote: usize,
    /// Whether a code block is open (its text is buffered, not escaped).
    pub in_code: bool,
    /// Whether an HTML block is open (its text is raw lines, not escaped).
    pub in_html: bool,
    /// The open code block's info string; `None` inside an indented block.
    pub code_info: Option<Vec<char>>,
    /// The open code block's buffered content.
    pub code_buf: Vec<char>,
    /// Whether any block has been emitted yet.
    pub started: bool,
    /// Whether the block just closed was a top-level list.
    pub prev_list: bool,
    /// A marker was just emitted: its one trailing space is still pending.
    pub fresh: bool,
    /// A block quote was just opened and has no block yet.
    pub fresh_quote: bool,
    /// Inside paragraph or heading inline content.
    pub in_para: bool,
    /// Inside an autolink: inline content is suppressed.
    pub suppress: bool,
    /// The last text run ended in `!`, withheld until the next event shows
    /// whether it stands before a link and must be escaped.
    pub bang: bool,
    /// Buffered text runs: the parser splits literal text at delimiter
    /// candidates, so runs are joined here and escaped as one maximal run
    /// when the next non-text event arrives.
    pub tbuf: Vec<char>,
    /// The next text run begins a content line.
    pub line_start: bool,
    /// The last inline character emitted on the current line.
    pub prev_char: Option<char>,
}

/// Ghost image of the renderer state.
#[verifier::ext_equal]
pub struct RenderModel {
    pub lists: Seq<ListFrame>,
    pub links: Seq<LinkModel>,
    pub quote: nat,
    pub in_code: bool,
    pub in_html: bool,
    pub code_info: Option<Seq<char>>,
    pub code_buf: Seq<char>,
    pub started: bool,
    pub prev_list: bool,
    pub fresh: bool,
    pub fresh_quote: bool,
    pub in_para: bool,
    pub suppress: bool,
    pub bang: bool,
    pub tbuf: Seq<char>,
    pub line_start: bool,
    pub prev_char: Option<char>,
}

impl LinkInfo {
    /// The ghost image of this open link.
    pub open spec fn model(&self) -> LinkModel {
        LinkModel { auto: self.auto, dest: self.dest@, title: self.title@ }
    }
}

impl RenderState {
    /// The ghost image of the whole context.
    pub open spec fn model(&self) -> RenderModel {
        RenderModel {
            lists: self.lists@,
            links: self.links@.map_values(|l: LinkInfo| l.model()),
            quote: self.quote as nat,
            in_code: self.in_code,
            in_html: self.in_html,
            code_info: match self.code_info {
                Option::Some(v) => Option::Some(v@),
                Option::None => Option::None,
            },
            code_buf: self.code_buf@,
            started: self.started,
            prev_list: self.prev_list,
            fresh: self.fresh,
            fresh_quote: self.fresh_quote,
            in_para: self.in_para,
            suppress: self.suppress,
            bang: self.bang,
            tbuf: self.tbuf@,
            line_start: self.line_start,
            prev_char: self.prev_char,
        }
    }

    /// A fresh context, before the first event.
    pub fn new() -> (r: RenderState)
        ensures
            r.model() == init_model(),
    {
        let r = RenderState {
            lists: Vec::new(),
            links: Vec::new(),
            quote: 0,
            in_code: false,
            in_html: false,
            code_info: Option::None,
            code_buf: Vec::new(),
            started: false,
            prev_list: false,
            fresh: false,
            fresh_quote: false,
            in_para: false,
            suppress: false,
            bang: false,
            tbuf: Vec::new(),
            line_start: false,
            prev_char: Option::None,
        };
        assert(r.model() =~= init_model());
        r
    }
}

/// The state before the first event.
pub open spec fn init_model() -> RenderModel {
    RenderModel {
        lists: Seq::empty(),
        links: Seq::empty(),
        quote: 0,
        in_code: false,
        in_html: false,
        code_info: Option::None,
        code_buf: Seq::empty(),
        started: false,
        prev_list: false,
        fresh: false,
        fresh_quote: false,
        in_para: false,
        suppress: false,
        bang: false,
        tbuf: Seq::empty(),
        line_start: false,
        prev_char: Option::None,
    }
}

/// The block quote prefix for a nesting depth: `"> "` per level.
pub open spec fn qp(n: nat) -> Seq<char>
    decreases n,
{
    if n == 0 {
        Seq::empty()
    } else {
        qp((n - 1) as nat) + seq!['>', ' ']
    }
}

/// A blank line inside a block quote: the prefix with no trailing space.
pub open spec fn quote_blank(n: nat) -> Seq<char> {
    if n == 0 {
        Seq::empty()
    } else {
        qp((n - 1) as nat) + seq!['>']
    }
}

/// List indentation: three columns per nesting level, so that ordered and
/// bullet markers leave content at one column per level however wide the
/// marker is.
pub open spec fn ind(n: nat) -> Seq<char>
    decreases n,
{
    if n == 0 {
        Seq::empty()
    } else {
        ind((n - 1) as nat) + seq![' ', ' ', ' ']
    }
}

/// The one pending space after a fresh marker, if any.
pub open spec fn fresh_sp(st: RenderModel) -> Seq<char> {
    if st.fresh {
        seq![' ']
    } else {
        Seq::empty()
    }
}

/// What separates a non-list block from what stands before it: nothing at
/// the start of the document (except the quote prefix), nothing right after
/// a fresh marker, a blank line otherwise — drawn with its prefix inside a
/// block quote, and indented as item content inside a list item.
pub open spec fn block_sep(st: RenderModel) -> Seq<char> {
    if !st.started {
        qp(st.quote)
    } else if st.lists.len() > 0 {
        if st.fresh {
            Seq::empty()
        } else {
            seq!['\n', '\n'] + qp(st.quote) + ind(st.lists.len())
        }
    } else if st.fresh {
        Seq::empty()
    } else if st.fresh_quote {
        seq!['\n', '\n'] + qp(st.quote)
    } else if st.quote > 0 {
        seq!['\n'] + quote_blank(st.quote) + seq!['\n'] + qp(st.quote)
    } else {
        seq!['\n', '\n']
    }
}

/// A clamped heading level: at least one, at most the configured maximum,
/// itself clamped to the grammar's six.
pub open spec fn clamp_level(level: u32, max_level: u32) -> nat {
    let mh: nat = if max_level < 1 {
        1
    } else if max_level > 6 {
        6
    } else {
        max_level as nat
    };
    if level < 1 {
        1
    } else if level as nat > mh {
        mh
    } else {
        level as nat
    }
}

/// The number the next ordered item gets, one past the current one, saturating.
pub open spec fn next_number(n: u64) -> u64 {
    if n == u64::MAX {
        n
    } else {
        (n + 1) as u64
    }
}

/// Inline whitespace runs collapsed to one space, from position `i` on.
pub open spec fn collapse_from(s: Seq<char>, i: int) -> Seq<char>
    decreases s.len() - i,
{
    if i < 0 || i >= s.len() {
        Seq::empty()
    } else if is_inline_blank(s[i]) && i + 1 < s.len() && is_inline_blank(s[i + 1]) {
        collapse_from(s, i + 1)
    } else if is_inline_blank(s[i]) {
        seq![' '] + collapse_from(s, i + 1)
    } else {
        seq![s[i]] + collapse_from(s, i + 1)
    }
}

/// Inline whitespace runs collapsed to one space each.
pub open spec fn collapse_blanks(s: Seq<char>) -> Seq<char> {
    collapse_from(s, 0)
}

/// The text run as the renderer emits it: space-normalized if configured,
/// then minimally escaped for the context.
pub open spec fn text_out(st: RenderModel, t: Seq<char>, normalize_spaces: bool) -> Seq<char> {
    let collapsed = if normalize_spaces {
        collapse_blanks(t)
    } else {
        t
    };
    escape_seq(collapsed, text_ctx(st))
}

/// The escape context the renderer hands the policy engine for a text run.
pub open spec fn text_ctx(st: RenderModel) -> EscapeCtx {
    EscapeCtx {
        at_line_start: st.line_start,
        in_label: st.links.len() > 0,
        prev_char: if st.fresh {
            Option::Some(' ')
        } else {
            st.prev_char
        },
    }
}

/// Every occurrence of `c` in `s` escaped with a backslash, from `i` on.
pub open spec fn esc_char_from(s: Seq<char>, c: char, i: int) -> Seq<char>
    decreases s.len() - i,
{
    if i < 0 || i >= s.len() {
        Seq::empty()
    } else if s[i] == c {
        seq!['\\', c] + esc_char_from(s, c, i + 1)
    } else {
        seq![s[i]] + esc_char_from(s, c, i + 1)
    }
}

/// Leading blanks removed at the start and after every newline: raw HTML
/// lines keep their content but lose their indentation.
pub open spec fn trim_html_from(s: Seq<char>, i: int, at_ls: bool) -> Seq<char>
    decreases s.len() - i,
{
    if i < 0 || i >= s.len() {
        Seq::empty()
    } else if at_ls && is_inline_blank(s[i]) {
        trim_html_from(s, i + 1, true)
    } else {
        seq![s[i]] + trim_html_from(s, i + 1, s[i] == '\n')
    }
}

/// Whether a link destination must be wrapped in angle brackets: it is empty
/// or holds whitespace or a parenthesis.
pub open spec fn dest_needs_angle(d: Seq<char>) -> bool {
    d.len() == 0 || exists|i: int|
        0 <= i < d.len() && (is_md_whitespace(#[trigger] d[i]) || d[i] == '(' || d[i] == ')')
}

/// The destination as written after a label: bare, or in angle brackets
/// with any angle bracket inside escaped, so the text reads back unchanged.
pub open spec fn dest_out(d: Seq<char>) -> Seq<char> {
    if dest_needs_angle(d) {
        seq!['<'] + esc_char_from(esc_char_from(d, '<', 0), '>', 0) + seq!['>']
    } else {
        d
    }
}

/// The title as written after a destination: nothing, or a quoted string
/// with any quote inside escaped.
pub open spec fn title_out(t: Seq<char>) -> Seq<char> {
    if t.len() == 0 {
        Seq::empty()
    } else {
        seq![' ', '"'] + esc_char_from(t, '"', 0) + seq!['"']
    }
}

/// The closing fence text of a code block: the fence character is a tilde
/// when the info string holds a backtick, else a backtick; the fence is one
/// longer than the longest run of that character in the content, three at
/// least; the fence character is escaped inside the emitted info string.
pub open spec fn code_block_out(info: Option<Seq<char>>, content: Seq<char>) -> Seq<char> {
    let inf = match info {
        Option::Some(i) => i,
        Option::None => Seq::empty(),
    };
    let fc: char = if inf.contains('`') {
        '~'
    } else {
        '`'
    };
    let n: nat = if max_run(content, fc) + 1 >= 3 {
        max_run(content, fc) + 1
    } else {
        3
    };
    let body: Seq<char> = if content.len() > 0 && content.last() == '\n' {
        content
    } else {
        content + seq!['\n']
    };
    char_run(fc, n) + esc_char_from(inf, fc, 0) + seq!['\n'] + body + char_run(fc, n)
}

/// An inline code span: delimited by one backtick more than the longest run
/// inside, padded with spaces when the content touches the delimiter.
pub open spec fn code_span_out(t: Seq<char>) -> Seq<char> {
    let n: nat = max_run(t, '`') + 1;
    let pad: Seq<char> = if t.len() > 0 && (t[0] == '`' || t.last() == '`') {
        seq![' ']
    } else {
        Seq::empty()
    };
    char_run('`', n) + pad + t + pad + char_run('`', n)
}

/// Whether an event opens a link written with brackets: the one position
/// where a withheld `!` must gain a backslash, lest it turn the link into an
/// image when read back.
pub open spec fn opens_bracket_link(e: MdEvent) -> bool {
    match e {
        MdEvent::Start(MdTag::Link(kind, _, _)) => kind != LinkKind::Auto,
        _ => false,
    }
}

/// What a withheld trailing `!` becomes once the next event is known.
pub open spec fn flush_bang(st: RenderModel, e: MdEvent) -> Seq<char> {
    if !st.bang {
        Seq::empty()
    } else if opens_bracket_link(e) {
        seq!['\\', '!']
    } else {
        seq!['!']
    }
}

/// The leaf arms of [`render_step`].
pub open spec fn step_leaf(st: RenderModel, e: MdEvent, cfg: crate::FormatterConfig) -> (
    RenderModel,
    Seq<char>,
) {
    match e {
        MdEvent::Text(t) => step_text(st, t@, cfg),
        MdEvent::Code(t) => (
            RenderModel {
                fresh: false,
                line_start: false,
                prev_char: Option::Some('`'),
                ..st
            },
            fresh_sp(st) + code_span_out(t@),
        ),
        MdEvent::Html(t) => (
            RenderModel { started: true, line_start: false, prev_char: Option::None, ..st },
            trim_html_from(t@, 0, true),
        ),
        MdEvent::InlineHtml(t) => (
            RenderModel {
                fresh: false,
                line_start: false,
                prev_char: if t@.len() > 0 {
                    Option::Some(t@.last())
                } else {
                    st.prev_char
                },
                ..st
            },
            fresh_sp(st) + t@,
        ),
        MdEvent::SoftBreak => step_soft_break(st),
        MdEvent::HardBreak => (
            RenderModel {
                fresh: false,
                line_start: true,
                prev_char: Option::None,
                ..st
            },
            seq!['\\', '\n'] + qp(st.quote) + ind(st.lists.len()),
        ),
        MdEvent::Rule => (
            RenderModel {
                started: true,
                fresh: false,
                fresh_quote: false,
                prev_list: false,
                in_para: false,
                line_start: false,
                prev_char: Option::None,
                ..st
            },
            block_sep(st) + fresh_sp(st) + char_run('_', 70),
        ),
        MdEvent::TaskListMarker(b) => (
            RenderModel { line_start: false, prev_char: Option::Some(']'), ..st },
            fresh_sp(st) + seq!['['] + seq![
                if b {
                    'x'
                } else {
                    ' '
                },
            ] + seq![']'],
        ),
        MdEvent::FootnoteReference(name) => (
            RenderModel {
                fresh: false,
                line_start: false,
                prev_char: Option::Some(']'),
                ..st
            },
            fresh_sp(st) + seq!['[', '^'] + name@ + seq![']'],
        ),
        MdEvent::Other => (st, Seq::<char>::empty()),
        _ => (st, Seq::<char>::empty()),
    }
}

/// One event of the pass: the new state and the text appended for it.
pub open spec fn render_step(st_in: RenderModel, e: MdEvent, cfg: crate::FormatterConfig) -> (
    RenderModel,
    Seq<char>,
) {
    let fl = if buffers_text(st_in, e) {
        (st_in, Seq::<char>::empty())
    } else {
        flush_text(st_in, cfg)
    };
    let st_fl = fl.0;
    let pre = flush_bang(st_fl, e);
    let st = RenderModel { bang: false, ..st_fl };
    let r = if st.suppress && !(e matches MdEvent::End(MdTagEnd::Link)) {
        (st, Seq::<char>::empty())
    } else {
        match e {
            MdEvent::Start(tag) => step_start(st, tag, cfg),
            MdEvent::End(tag) => step_end(st, tag),
            _ => step_leaf(st, e, cfg),
        }
    };
    (r.0, fl.1 + pre + r.1)
}

/// Some start-tag arms of [`render_event`], matching [`step_start`].
#[verifier::rlimit(100)]
#[verifier::spinoff_prover]
fn exec_start1(st: &mut RenderState, out: &mut Vec<char>, tag: &MdTag, cfg: &crate::FormatterConfig)
    requires
        (*tag matches MdTag::Heading(_)) || (*tag matches MdTag::Paragraph) || (*tag matches MdTag::BlockQuote),
    ensures
        final(st).model() == step_start(old(st).model(), *tag, *cfg).0,
        final(out)@ == old(out)@ + step_start(old(st).model(), *tag, *cfg).1,
{
    let ghost m1a = old(st).model();
    let ghost target_a = step_start(m1a, *tag, *cfg);
    match tag {
        MdTag::Heading(lv) => {
            app_block_sep(out, st);
            if st.fresh {
                out.push(' ');
            }
            let mh: u32 = if cfg.max_header_level < 1 {
                1
            } else if cfg.max_header_level > 6 {
                6
            } else {
                cfg.max_header_level
            };
            let lvl: u32 = if *lv < 1 {
                1
            } else if *lv > mh {
                mh
            } else {
                *lv
            };
            crate::text::app_repeat(out, '#', lvl as usize);
            out.push(' ');
            st.started = true;
            st.fresh = false;
            st.fresh_quote = false;
            st.prev_list = false;
            st.in_para = true;
            st.line_start = false;
            st.prev_char = Option::Some(' ');
            proof {
                assert(lvl as nat == clamp_level(*lv, cfg.max_header_level));
                assert(st.model() =~= target_a.0);
                assert(out@ =~= old(out)@ + target_a.1);
            }
        },
        MdTag::Paragraph => {
            app_block_sep(out, st);
            st.started = true;
            st.fresh_quote = false;
            if st.lists.len() == 0 {
                st.prev_list = false;
            }
            st.in_para = true;
            st.line_start = true;
            st.prev_char = Option::None;
            proof {
                assert(st.model() =~= target_a.0);
                assert(out@ =~= old(out)@ + target_a.1);
            }
        },
        MdTag::BlockQuote => {
            if st.quote < usize::MAX {
                st.quote = st.quote + 1;
            }
            st.fresh_quote = true;
            st.prev_list = false;
            proof {
                assert(st.model() =~= target_a.0);
                assert(out@ =~= old(out)@ + target_a.1);
            }
        },
        _ => {
            proof {
                assert(false);
            }
        },
    }
}

/// Some start-tag arms of [`render_event`], matching [`step_start`].
#[verifier::rlimit(100)]
#[verifier::spinoff_prover]
fn exec_start2(st: &mut RenderState, out: &mut Vec<char>, tag: &MdTag, cfg: &crate::FormatterConfig)
    requires
        (*tag matches MdTag::CodeBlock(_)) || (*tag matches MdTag::ListTag(_)) || (*tag matches MdTag::Item),
    ensures
        final(st).model() == step_start(old(st).model(), *tag, *cfg).0,
        final(out)@ == old(out)@ + step_start(old(st).model(), *tag, *cfg).1,
{
    let ghost m1a = old(st).model();
    let ghost target_a = step_start(m1a, *tag, *cfg);
    match tag {
        MdTag::CodeBlock(info) => {
            app_block_sep(out, st);
            st.in_code = true;
            st.code_info = match info {
                Option::Some(v) => Option::Some(copy_chars(v)),
                Option::None => Option::None,
            };
            st.code_buf = Vec::new();
            st.started = true;
            st.fresh = false;
            st.fresh_quote = false;
            st.prev_list = false;
            st.line_start = false;
            st.prev_char = Option::None;
            proof {
                assert(st.model() =~= target_a.0);
                assert(out@ =~= old(out)@ + target_a.1);
            }
        },
        MdTag::ListTag(opt) => {
            if st.lists.len() == 0 && st.started && !st.prev_list {
                out.push('\n');
            }
            let frame = match opt {
                Option::Some(n) => ListFrame {
                    ordered: true,
                    start_number: *n,
                    current_number: *n,
                },
                Option::None => ListFrame {
                    ordered: false,
                    start_number: 1,
                    current_number: 1,
                },
            };
            st.lists.push(frame);
            st.started = true;
            st.fresh = false;
            st.fresh_quote = false;
            st.in_para = false;
            proof {
                assert(st.lists@ =~= m1a.lists.push(frame));
                assert(st.model() =~= target_a.0);
                assert(out@ =~= old(out)@ + target_a.1);
            }
        },
        MdTag::Item => {
            if st.lists.len() > 0 {
                out.push('\n');
                app_qp(out, st.quote);
                app_ind(out, st.lists.len() - 1);
                let top = st.lists[st.lists.len() - 1];
                if top.ordered {
                    let digits = crate::text::u64_chars(top.current_number);
                    crate::text::app_vec(out, &digits);
                    out.push('.');
                } else {
                    out.push('-');
                }
                let popped = st.lists.pop();
                let f = match popped {
                    Option::Some(f) => f,
                    Option::None => {
                        proof {
                            assert(false);
                        }
                        top
                    },
                };
                let nxt: u64 = if f.current_number < u64::MAX {
                    f.current_number + 1
                } else {
                    f.current_number
                };
                st.lists.push(
                    ListFrame {
                        ordered: f.ordered,
                        start_number: f.start_number,
                        current_number: if f.ordered {
                            nxt
                        } else {
                            f.current_number
                        },
                    },
                );
                st.fresh = true;
                st.in_para = false;
                st.line_start = true;
                st.prev_char = Option::None;
                proof {
                    assert(st.lists@ =~= m1a.lists.update(
                        m1a.lists.len() - 1,
                        advance(top),
                    ));
                    assert(st.model() =~= target_a.0);
                    assert(out@ =~= old(out)@ + target_a.1);
                }
            } else {
                proof {
                    assert(st.model() =~= target_a.0);
                    assert(out@ =~= old(out)@ + target_a.1);
                }
            }
        },
        _ => {
            proof {
                assert(false);
            }
        },
    }
}

/// Some start-tag arms of [`render_event`], matching [`step_start`].
#[verifier::rlimit(100)]
#[verifier::spinoff_prover]
fn exec_start3(st: &mut RenderState, out: &mut Vec<char>, tag: &MdTag, cfg: &crate::FormatterConfig)
    requires
        (*tag matches MdTag::Emphasis) || (*tag matches MdTag::Strong) || (*tag matches MdTag::Strikethrough) || (*tag matches MdTag::Link(_, _, _)),
    ensures
        final(st).model() == step_start(old(st).model(), *tag, *cfg).0,
        final(out)@ == old(out)@ + step_start(old(st).model(), *tag, *cfg).1,
{
    let ghost m1a = old(st).model();
    let ghost target_a = step_start(m1a, *tag, *cfg);
    match tag {
        MdTag::Emphasis => {
            if st.fresh {
                out.push(' ');
            }
            out.push('*');
            st.fresh = false;
            st.line_start = false;
            st.prev_char = Option::Some('*');
            proof {
                assert(st.model() =~= target_a.0);
                assert(out@ =~= old(out)@ + target_a.1);
            }
        },
        MdTag::Strong => {
            if st.fresh {
                out.push(' ');
            }
            out.push('*');
            out.push('*');
            st.fresh = false;
            st.line_start = false;
            st.prev_char = Option::Some('*');
            proof {
                assert(st.model() =~= target_a.0);
                assert(out@ =~= old(out)@ + target_a.1);
            }
        },
        MdTag::Strikethrough => {
            if st.fresh {
                out.push(' ');
            }
            out.push('~');
            out.push('~');
            st.fresh = false;
            st.line_start = false;
            st.prev_char = Option::Some('~');
            proof {
                assert(st.model() =~= target_a.0);
                assert(out@ =~= old(out)@ + target_a.1);
            }
        },
        MdTag::Link(kind, dest, title) => {
            if st.fresh {
                out.push(' ');
            }
            let li = LinkInfo {
                auto: matches!(kind, LinkKind::Auto),
                dest: copy_chars(dest),
                title: copy_chars(title),
            };
            if li.auto {
                out.push('<');
                crate::text::app_vec(out, dest);
                out.push('>');
                st.suppress = true;
                st.prev_char = Option::Some('>');
            } else {
                out.push('[');
                st.prev_char = Option::Some('[');
            }
            st.links.push(li);
            st.fresh = false;
            st.line_start = false;
            proof {
                assert(st.links@.map_values(|l: LinkInfo| l.model()) =~= m1a.links.push(
                    li.model(),
                ));
                assert(st.model() =~= target_a.0);
                assert(out@ =~= old(out)@ + target_a.1);
            }
        },
        _ => {
            proof {
                assert(false);
            }
        },
    }
}

/// Some start-tag arms of [`render_event`], matching [`step_start`].
#[verifier::rlimit(100)]
#[verifier::spinoff_prover]
fn exec_start4(st: &mut RenderState, out: &mut Vec<char>, tag: &MdTag, cfg: &crate::FormatterConfig)
    requires
        (*tag matches MdTag::Image(_, _, _)) || (*tag matches MdTag::FootnoteDefinition(_)) || (*tag matches MdTag::HtmlBlock) || (*tag matches MdTag::OtherTag),
    ensures
        final(st).model() == step_start(old(st).model(), *tag, *cfg).0,
        final(out)@ == old(out)@ + step_start(old(st).model(), *tag, *cfg).1,
{
    let ghost m1a = old(st).model();
    let ghost target_a = step_start(m1a, *tag, *cfg);
    match tag {
        MdTag::Image(kind, dest, title) => {
            if st.fresh {
                out.push(' ');
            }
            let li = LinkInfo { auto: false, dest: copy_chars(dest), title: copy_chars(title) };
            out.push('!');
            out.push('[');
            st.links.push(li);
            st.fresh = false;
            st.line_start = false;
            st.prev_char = Option::Some('[');
            proof {
                assert(st.links@.map_values(|l: LinkInfo| l.model()) =~= m1a.links.push(
                    li.model(),
                ));
                assert(st.model() =~= target_a.0);
                assert(out@ =~= old(out)@ + target_a.1);
            }
        },
        MdTag::FootnoteDefinition(name) => {
            app_block_sep(out, st);
            out.push('[');
            out.push('^');
            crate::text::app_vec(out, name);
            out.push(']');
            out.push(':');
            st.started = true;
            st.fresh = true;
            st.fresh_quote = false;
            st.prev_list = false;
            st.line_start = false;
            st.prev_char = Option::None;
            proof {
                assert(st.model() =~= target_a.0);
                assert(out@ =~= old(out)@ + target_a.1);
            }
        },
        MdTag::HtmlBlock => {
            app_block_sep(out, st);
            st.started = true;
            st.in_html = true;
            st.fresh = false;
            st.fresh_quote = false;
            st.prev_list = false;
            st.line_start = false;
            st.prev_char = Option::None;
            proof {
                assert(st.model() =~= target_a.0);
                assert(out@ =~= old(out)@ + target_a.1);
            }
        },
        MdTag::OtherTag => {
            proof {
                assert(st.model() =~= target_a.0);
                assert(out@ =~= old(out)@ + target_a.1);
            }
        },
        _ => {
            proof {
                assert(false);
            }
        },
    }
}

/// The start-tag arms of [`render_step`].
pub open spec fn step_start(st: RenderModel, tag: MdTag, cfg: crate::FormatterConfig) -> (
    RenderModel,
    Seq<char>,
) {
    match tag {
        MdTag::Heading(lv) => (
            RenderModel {
                started: true,
                fresh: false,
                fresh_quote: false,
                prev_list: false,
                in_para: true,
                line_start: false,
                prev_char: Option::Some(' '),
                ..st
            },
            block_sep(st) + fresh_sp(st) + char_run('#', clamp_level(lv, cfg.max_header_level))
                + seq![' '],
        ),
        MdTag::Paragraph => (
            RenderModel {
                started: true,
                fresh_quote: false,
                prev_list: if st.lists.len() > 0 {
                    st.prev_list
                } else {
                    false
                },
                in_para: true,
                line_start: true,
                prev_char: Option::None,
                ..st
            },
            block_sep(st),
        ),
        MdTag::BlockQuote => (
            RenderModel {
                quote: if st.quote < usize::MAX as nat {
                    st.quote + 1
                } else {
                    st.quote
                },
                fresh_quote: true,
                prev_list: false,
                ..st
            },
            Seq::<char>::empty(),
        ),
        MdTag::CodeBlock(info) => (
            RenderModel {
                in_code: true,
                code_info: match info {
                    Option::Some(v) => Option::Some(v@),
                    Option::None => Option::None,
                },
                code_buf: Seq::empty(),
                started: true,
                fresh: false,
                fresh_quote: false,
                prev_list: false,
                line_start: false,
                prev_char: Option::None,
                ..st
            },
            block_sep(st),
        ),
        MdTag::ListTag(opt) => (
            RenderModel {
                lists: st.lists.push(
                    match opt {
                        Option::Some(n) => ListFrame {
                            ordered: true,
                            start_number: n,
                            current_number: n,
                        },
                        Option::None => ListFrame {
                            ordered: false,
                            start_number: 1,
                            current_number: 1,
                        },
                    },
                ),
                started: true,
                fresh: false,
                fresh_quote: false,
                in_para: false,
                ..st
            },
            if st.lists.len() > 0 || !st.started || st.prev_list {
                Seq::<char>::empty()
            } else {
                seq!['\n']
            },
        ),
        MdTag::Item => {
            if st.lists.len() == 0 {
                (st, Seq::<char>::empty())
            } else {
                let top = st.lists.last();
                (
                    RenderModel {
                        lists: st.lists.update(st.lists.len() - 1, advance(top)),
                        fresh: true,
                        in_para: false,
                        line_start: true,
                        prev_char: Option::None,
                        ..st
                    },
                    seq!['\n'] + qp(st.quote) + ind((st.lists.len() - 1) as nat) + (
                    if top.ordered {
                        dec_rep(top.current_number as nat) + seq!['.']
                    } else {
                        seq!['-']
                    }),
                )
            }
        },
        MdTag::Emphasis => (
            RenderModel { fresh: false, line_start: false, prev_char: Option::Some('*'), ..st },
            fresh_sp(st) + seq!['*'],
        ),
        MdTag::Strong => (
            RenderModel { fresh: false, line_start: false, prev_char: Option::Some('*'), ..st },
            fresh_sp(st) + seq!['*', '*'],
        ),
        MdTag::Strikethrough => (
            RenderModel { fresh: false, line_start: false, prev_char: Option::Some('~'), ..st },
            fresh_sp(st) + seq!['~', '~'],
        ),
        MdTag::Link(kind, dest, title) => {
            if kind == LinkKind::Auto {
                (
                    RenderModel {
                        links: st.links.push(
                            LinkModel { auto: true, dest: dest@, title: title@ },
                        ),
                        suppress: true,
                        fresh: false,
                        line_start: false,
                        prev_char: Option::Some('>'),
                        ..st
                    },
                    fresh_sp(st) + seq!['<'] + dest@ + seq!['>'],
                )
            } else {
                (
                    RenderModel {
                        links: st.links.push(
                            LinkModel { auto: false, dest: dest@, title: title@ },
                        ),
                        fresh: false,
                        line_start: false,
                        prev_char: Option::Some('['),
                        ..st
                    },
                    fresh_sp(st) + seq!['['],
                )
            }
        },
        MdTag::Image(kind, dest, title) => (
            RenderModel {
                links: st.links.push(LinkModel { auto: false, dest: dest@, title: title@ }),
                fresh: false,
                line_start: false,
                prev_char: Option::Some('['),
                ..st
            },
            fresh_sp(st) + seq!['!', '['],
        ),
        MdTag::FootnoteDefinition(name) => (
            RenderModel {
                started: true,
                fresh: true,
                fresh_quote: false,
                prev_list: false,
                line_start: false,
                prev_char: Option::None,
                ..st
            },
            block_sep(st) + seq!['[', '^'] + name@ + seq![']', ':'],
        ),
        MdTag::HtmlBlock => (
            RenderModel {
                started: true,
                in_html: true,
                fresh: false,
                fresh_quote: false,
                prev_list: false,
                line_start: false,
                prev_char: Option::None,
                ..st
            },
            block_sep(st),
        ),
        MdTag::OtherTag => (st, Seq::<char>::empty()),
    }
}

/// Some end-tag arms of [`render_event`], matching [`step_end`].
#[verifier::rlimit(100)]
#[verifier::spinoff_prover]
fn exec_end1(st: &mut RenderState, out: &mut Vec<char>, tag: &MdTagEnd)
    requires
        (*tag matches MdTagEnd::Heading) || (*tag matches MdTagEnd::Paragraph) || (*tag matches MdTagEnd::BlockQuote),
    ensures
        final(st).model() == step_end(old(st).model(), *tag).0,
        final(out)@ == old(out)@ + step_end(old(st).model(), *tag).1,
{
    let ghost m1a = old(st).model();
    let ghost target_a = step_end(m1a, *tag);
    match tag {
        MdTagEnd::Heading => {
            st.in_para = false;
            st.line_start = false;
            st.prev_char = Option::None;
            st.prev_list = false;
            proof {
                assert(st.model() =~= target_a.0);
                assert(out@ =~= old(out)@ + target_a.1);
            }
        },
        MdTagEnd::Paragraph => {
            st.in_para = false;
            st.prev_char = Option::None;
            if st.lists.len() == 0 {
                st.prev_list = false;
            }
            proof {
                assert(st.model() =~= target_a.0);
                assert(out@ =~= old(out)@ + target_a.1);
            }
        },
        MdTagEnd::BlockQuote => {
            if st.quote > 0 {
                st.quote = st.quote - 1;
            }
            st.fresh_quote = false;
            st.prev_list = false;
            proof {
                assert(st.model() =~= target_a.0);
                assert(out@ =~= old(out)@ + target_a.1);
            }
        },
        _ => {
            proof {
                assert(false);
            }
        },
    }
}

/// Some end-tag arms of [`render_event`], matching [`step_end`].
#[verifier::rlimit(100)]
#[verifier::spinoff_prover]
fn exec_end2(st: &mut RenderState, out: &mut Vec<char>, tag: &MdTagEnd)
    requires
        (*tag matches MdTagEnd::CodeBlock) || (*tag matches MdTagEnd::ListEnd) || (*tag matches MdTagEnd::Item),
    ensures
        final(st).model() == step_end(old(st).model(), *tag).0,
        final(out)@ == old(out)@ + step_end(old(st).model(), *tag).1,
{
    let ghost m1a = old(st).model();
    let ghost target_a = step_end(m1a, *tag);
    match tag {
        MdTagEnd::CodeBlock => {
            let inf: Vec<char> = match &st.code_info {
                Option::Some(v) => copy_chars(v),
                Option::None => Vec::new(),
            };
            let has_tick = contains_char(&inf, '`');
            let fc: char = if has_tick {
                '~'
            } else {
                '`'
            };
            let mr = max_run_of(&st.code_buf, fc);
            let ghost n: nat = if max_run(m1a.code_buf, fc) + 1 >= 3 {
                max_run(m1a.code_buf, fc) + 1
            } else {
                3
            };
            if mr >= 2 {
                crate::text::app_repeat(out, fc, mr);
                out.push(fc);
                assert(char_run(fc, mr as nat).push(fc) =~= char_run(fc, n));
            } else {
                crate::text::app_repeat(out, fc, 3);
            }
            app_esc_char(out, &inf, fc);
            out.push('\n');
            crate::text::app_vec(out, &st.code_buf);
            let needs_nl = st.code_buf.len() == 0 || !last_is_newline(&st.code_buf);
            if needs_nl {
                out.push('\n');
            }
            if mr >= 2 {
                crate::text::app_repeat(out, fc, mr);
                out.push(fc);
            } else {
                crate::text::app_repeat(out, fc, 3);
            }
            st.in_code = false;
            st.code_info = Option::None;
            st.code_buf = Vec::new();
            st.prev_list = false;
            st.line_start = false;
            st.prev_char = Option::None;
            proof {
                assert(st.model() =~= target_a.0);
                assert(out@ =~= old(out)@ + target_a.1);
            }
        },
        MdTagEnd::ListEnd => {
            if st.lists.len() > 0 {
                let _ = st.lists.pop();
                proof {
                    assert(st.lists@ =~= m1a.lists.drop_last());
                }
            }
            st.prev_list = st.lists.len() == 0;
            st.fresh = false;
            st.in_para = false;
            proof {
                assert(st.model() =~= target_a.0);
                assert(out@ =~= old(out)@ + target_a.1);
            }
        },
        MdTagEnd::Item => {
            st.fresh = false;
            proof {
                assert(st.model() =~= target_a.0);
                assert(out@ =~= old(out)@ + target_a.1);
            }
        },
        _ => {
            proof {
                assert(false);
            }
        },
    }
}

/// Some end-tag arms of [`render_event`], matching [`step_end`].
#[verifier::rlimit(100)]
#[verifier::spinoff_prover]
fn exec_end3(st: &mut RenderState, out: &mut Vec<char>, tag: &MdTagEnd)
    requires
        (*tag matches MdTagEnd::Emphasis) || (*tag matches MdTagEnd::Strong) || (*tag matches MdTagEnd::Strikethrough) || (*tag matches MdTagEnd::Link) || (*tag matches MdTagEnd::Image),
    ensures
        final(st).model() == step_end(old(st).model(), *tag).0,
        final(out)@ == old(out)@ + step_end(old(st).model(), *tag).1,
{
    let ghost m1a = old(st).model();
    let ghost target_a = step_end(m1a, *tag);
    match tag {
        MdTagEnd::Emphasis => {
            out.push('*');
            st.line_start = false;
            st.prev_char = Option::Some('*');
            proof {
                assert(st.model() =~= target_a.0);
                assert(out@ =~= old(out)@ + target_a.1);
            }
        },
        MdTagEnd::Strong => {
            out.push('*');
            out.push('*');
            st.line_start = false;
            st.prev_char = Option::Some('*');
            proof {
                assert(st.model() =~= target_a.0);
                assert(out@ =~= old(out)@ + target_a.1);
            }
        },
        MdTagEnd::Strikethrough => {
            out.push('~');
            out.push('~');
            st.line_start = false;
            st.prev_char = Option::Some('~');
            proof {
                assert(st.model() =~= target_a.0);
                assert(out@ =~= old(out)@ + target_a.1);
            }
        },
        MdTagEnd::Link | MdTagEnd::Image => {
            if st.links.len() > 0 {
                let popped = st.links.pop();
                let f = match popped {
                    Option::Some(f) => f,
                    Option::None => {
                        proof {
                            assert(false);
                        }
                        LinkInfo { auto: false, dest: Vec::new(), title: Vec::new() }
                    },
                };
                proof {
                    assert(st.links@.map_values(|l: LinkInfo| l.model())
                        =~= m1a.links.drop_last());
                    assert(f.model() == m1a.links.last());
                }
                if f.auto {
                    st.suppress = false;
                    proof {
                        assert(st.model() =~= target_a.0);
                        assert(out@ =~= old(out)@ + target_a.1);
                    }
                } else {
                    out.push(']');
                    out.push('(');
                    if dest_angle(&f.dest) {
                        out.push('<');
                        let mut esc_dest: Vec<char> = Vec::new();
                        app_esc_char(&mut esc_dest, &f.dest, '<');
                        app_esc_char(out, &esc_dest, '>');
                        out.push('>');
                    } else {
                        crate::text::app_vec(out, &f.dest);
                    }
                    if f.title.len() > 0 {
                        out.push(' ');
                        out.push('"');
                        app_esc_char(out, &f.title, '"');
                        out.push('"');
                    }
                    out.push(')');
                    st.line_start = false;
                    st.prev_char = Option::Some(')');
                    proof {
                        assert(st.model() =~= target_a.0);
                        assert(out@ =~= old(out)@ + target_a.1);
                    }
                }
            } else {
                proof {
                    assert(st.model() =~= target_a.0);
                    assert(out@ =~= old(out)@ + target_a.1);
                }
            }
        },
        _ => {
            proof {
                assert(false);
            }
        },
    }
}

/// Some end-tag arms of [`render_event`], matching [`step_end`].
#[verifier::rlimit(100)]
#[verifier::spinoff_prover]
fn exec_end4(st: &mut RenderState, out: &mut Vec<char>, tag: &MdTagEnd)
    requires
        (*tag matches MdTagEnd::FootnoteDefinition) || (*tag matches MdTagEnd::HtmlBlock) || (*tag matches MdTagEnd::OtherTagEnd),
    ensures
        final(st).model() == step_end(old(st).model(), *tag).0,
        final(out)@ == old(out)@ + step_end(old(st).model(), *tag).1,
{
    let ghost m1a = old(st).model();
    let ghost target_a = step_end(m1a, *tag);
    match tag {
        MdTagEnd::FootnoteDefinition => {
            st.fresh = false;
            st.prev_list = false;
            st.in_para = false;
            proof {
                assert(st.model() =~= target_a.0);
                assert(out@ =~= old(out)@ + target_a.1);
            }
        },
        MdTagEnd::HtmlBlock => {
            st.in_html = false;
            st.prev_list = false;
            proof {
                assert(st.model() =~= target_a.0);
                assert(out@ =~= old(out)@ + target_a.1);
            }
        },
        MdTagEnd::OtherTagEnd => {
            proof {
                assert(st.model() =~= target_a.0);
                assert(out@ =~= old(out)@ + target_a.1);
            }
        },
        _ => {
            proof {
                assert(false);
            }
        },
    }
}

/// The end-tag arms of [`render_step`].
pub open spec fn step_end(st: RenderModel, tag: MdTagEnd) -> (RenderModel, Seq<char>) {
    match tag {
        MdTagEnd::Heading => (
            RenderModel {
                in_para: false,
                line_start: false,
                prev_char: Option::None,
                prev_list: false,
                ..st
            },
            Seq::<char>::empty(),
        ),
        MdTagEnd::Paragraph => (
            RenderModel {
                in_para: false,
                prev_char: Option::None,
                prev_list: if st.lists.len() > 0 {
                    st.prev_list
                } else {
                    false
                },
                ..st
            },
            Seq::<char>::empty(),
        ),
        MdTagEnd::BlockQuote => (
            RenderModel {
                quote: if st.quote > 0 {
                    (st.quote - 1) as nat
                } else {
                    0
                },
                fresh_quote: false,
                prev_list: false,
                ..st
            },
            Seq::<char>::empty(),
        ),
        MdTagEnd::CodeBlock => (
            RenderModel {
                in_code: false,
                code_info: Option::None,
                code_buf: Seq::empty(),
                prev_list: false,
                line_start: false,
                prev_char: Option::None,
                ..st
            },
            code_block_out(st.code_info, st.code_buf),
        ),
        MdTagEnd::ListEnd => {
            let lists = if st.lists.len() > 0 {
                st.lists.drop_last()
            } else {
                st.lists
            };
            (
                RenderModel {
                    lists: lists,
                    prev_list: lists.len() == 0,
                    fresh: false,
                    in_para: false,
                    ..st
                },
                Seq::<char>::empty(),
            )
        },
        MdTagEnd::Item => (RenderModel { fresh: false, ..st }, Seq::<char>::empty()),
        MdTagEnd::Emphasis => (
            RenderModel { line_start: false, prev_char: Option::Some('*'), ..st },
            seq!['*'],
        ),
        MdTagEnd::Strong => (
            RenderModel { line_start: false, prev_char: Option::Some('*'), ..st },
            seq!['*', '*'],
        ),
        MdTagEnd::Strikethrough => (
            RenderModel { line_start: false, prev_char: Option::Some('~'), ..st },
            seq!['~', '~'],
        ),
        MdTagEnd::Link => step_close_link(st),
        MdTagEnd::Image => step_close_link(st),
        MdTagEnd::FootnoteDefinition => (
            RenderModel { fresh: false, prev_list: false, in_para: false, ..st },
            Seq::<char>::empty(),
        ),
        MdTagEnd::HtmlBlock => (
            RenderModel { in_html: false, prev_list: false, ..st },
            Seq::<char>::empty(),
        ),
        MdTagEnd::OtherTagEnd => (st, Seq::<char>::empty()),
    }
}

/// Closing a link or image: an autolink was emitted whole at its start; a
/// bracketed one gets its label closed and its destination and title written.
pub open spec fn step_close_link(st: RenderModel) -> (RenderModel, Seq<char>) {
    if st.links.len() == 0 {
        (st, Seq::<char>::empty())
    } else {
        let f = st.links.last();
        if f.auto {
            (
                RenderModel { links: st.links.drop_last(), suppress: false, ..st },
                Seq::<char>::empty(),
            )
        } else {
            (
                RenderModel {
                    links: st.links.drop_last(),
                    line_start: false,
                    prev_char: Option::Some(')'),
                    ..st
                },
                seq![']', '('] + dest_out(f.dest) + title_out(f.title) + seq![')'],
            )
        }
    }
}

/// The text arm: buffered verbatim inside a code block; inside an HTML
/// block, raw content — indentation-only runs are dropped, the unindent
/// policy for HTML lines; otherwise joined onto the pending text run, which
/// the next non-text event escapes and emits whole.
pub open spec fn step_text(st: RenderModel, t: Seq<char>, cfg: crate::FormatterConfig) -> (
    RenderModel,
    Seq<char>,
) {
    if st.in_code {
        (RenderModel { code_buf: st.code_buf + t, ..st }, Seq::<char>::empty())
    } else if st.in_html {
        (
            st,
            if all_blanks(t) {
                Seq::<char>::empty()
            } else {
                t
            },
        )
    } else {
        (RenderModel { tbuf: st.tbuf + t, ..st }, Seq::<char>::empty())
    }
}

/// Emits the pending text run: space-normalized if configured, minimally
/// escaped for the context it began in — with a trailing `!` withheld until
/// the next event shows whether it stands before a link.
pub open spec fn flush_text(st: RenderModel, cfg: crate::FormatterConfig) -> (
    RenderModel,
    Seq<char>,
) {
    if st.tbuf.len() == 0 {
        (st, Seq::<char>::empty())
    } else {
        let body = text_out(st, st.tbuf, cfg.normalize_spaces);
        if body.len() == 0 {
            (RenderModel { tbuf: Seq::empty(), ..st }, Seq::<char>::empty())
        } else {
            let withhold = body.last() == '!';
            (
                RenderModel {
                    tbuf: Seq::empty(),
                    fresh: false,
                    bang: withhold,
                    line_start: false,
                    prev_char: Option::Some(body.last()),
                    ..st
                },
                fresh_sp(st) + if withhold {
                    body.drop_last()
                } else {
                    body
                },
            )
        }
    }
}

/// A run of inline blanks only: inside an HTML block, the indentation the
/// parser hands over as separate text.
pub open spec fn all_blanks(s: Seq<char>) -> bool {
    forall|i: int| 0 <= i < s.len() ==> is_inline_blank(#[trigger] s[i])
}

/// Whether an event joins the pending text run rather than flushing it: a
/// text run always, and a soft break that reflows to one space — so the
/// escape rules see the whole paragraph line, not fragments of it.
pub open spec fn buffers_text(st: RenderModel, e: MdEvent) -> bool {
    ||| (e matches MdEvent::Text(_) && !st.in_code && !st.in_html && !st.suppress)
    ||| (e matches MdEvent::SoftBreak && st.lists.len() == 0 && st.quote == 0 && !st.in_code
        && !st.in_html && !st.suppress)
}

/// The soft-break arm: a newline with the nesting's indentation inside a
/// list or block quote; elsewhere paragraph reflow to one space, joined
/// onto the pending text run so the line stays one run for escaping.
pub open spec fn step_soft_break(st: RenderModel) -> (RenderModel, Seq<char>) {
    if st.lists.len() > 0 {
        (
            RenderModel {
                fresh: false,
                line_start: true,
                prev_char: Option::None,
                ..st
            },
            seq!['\n'] + qp(st.quote) + ind(st.lists.len()),
        )
    } else if st.quote > 0 {
        (
            RenderModel {
                fresh: false,
                line_start: true,
                prev_char: Option::None,
                ..st
            },
            seq!['\n'] + qp(st.quote),
        )
    } else if !st.in_code && !st.in_html {
        (RenderModel { tbuf: st.tbuf.push(' '), ..st }, Seq::<char>::empty())
    } else {
        (
            RenderModel {
                fresh: false,
                line_start: false,
                prev_char: Option::Some(' '),
                ..st
            },
            seq![' '],
        )
    }
}

/// The next number an ordered frame hands out after one item.
pub open spec fn advance(f: ListFrame) -> ListFrame {
    if f.ordered {
        ListFrame { ordered: f.ordered, start_number: f.start_number, current_number: next_number(f.current_number) }
    } else {
        f
    }
}

/// The whole pass: state and output after every event, in order.
pub open spec fn render_fold(events: Seq<MdEvent>, cfg: crate::FormatterConfig) -> (
    RenderModel,
    Seq<char>,
)
    decreases events.len(),
{
    if events.len() == 0 {
        (init_model(), Seq::<char>::empty())
    } else {
        let p = render_fold(events.drop_last(), cfg);
        let q = render_step(p.0, events.last(), cfg);
        (q.0, p.1 + q.1)
    }
}

/// The canonical text the renderer emits for an event stream: the fold over
/// every event, with a still-pending text run flushed at the end.
pub open spec fn render_spec(events: Seq<MdEvent>, cfg: crate::FormatterConfig) -> Seq<char> {
    let p = render_fold(events, cfg);
    p.1 + flush_text(p.0, cfg).1 + (if flush_text(p.0, cfg).0.bang {
        seq!['!']
    } else {
        Seq::<char>::empty()
    })
}

/// The stream invariant the external parser guarantees, checked before
/// rendering so that a violation aborts the document rather than producing
/// corrupt output: the structural pairs the renderer tracks nest properly,
/// every item stands inside a list, and every heading level lies in the
/// grammar's one to six.
pub open spec fn balanced_from(
    s: Seq<MdEvent>,
    i: int,
    lists: nat,
    quotes: nat,
    links: nat,
) -> bool
    decreases s.len() - i,
{
    if i < 0 || i >= s.len() {
        lists == 0 && quotes == 0 && links == 0
    } else {
        match s[i] {
            MdEvent::Start(MdTag::Heading(lv)) => 1 <= lv <= 6 && balanced_from(
                s,
                i + 1,
                lists,
                quotes,
                links,
            ),
            MdEvent::Start(MdTag::ListTag(_)) => balanced_from(s, i + 1, lists + 1, quotes, links),
            MdEvent::End(MdTagEnd::ListEnd) => lists > 0 && balanced_from(
                s,
                i + 1,
                (lists - 1) as nat,
                quotes,
                links,
            ),
            MdEvent::Start(MdTag::Item) => lists > 0 && balanced_from(s, i + 1, lists, quotes, links),
            MdEvent::Start(MdTag::BlockQuote) => balanced_from(s, i + 1, lists, quotes + 1, links),
            MdEvent::End(MdTagEnd::BlockQuote) => quotes > 0 && balanced_from(
                s,
                i + 1,
                lists,
                (quotes - 1) as nat,
                links,
            ),
            MdEvent::Start(MdTag::Link(_, _, _)) => balanced_from(s, i + 1, lists, quotes, links + 1),
            MdEvent::Start(MdTag::Image(_, _, _)) => balanced_from(s, i + 1, lists, quotes, links + 1),
            MdEvent::End(MdTagEnd::Link) => links > 0 && balanced_from(
                s,
                i + 1,
                lists,
                quotes,
                (links - 1) as nat,
            ),
            MdEvent::End(MdTagEnd::Image) => links > 0 && balanced_from(
                s,
                i + 1,
                lists,
                quotes,
                (links - 1) as nat,
            ),
            _ => balanced_from(s, i + 1, lists, quotes, links),
        }
    }
}

/// A stream whose lists, quotes, links and items nest properly.
pub open spec fn balanced(s: Seq<MdEvent>) -> bool {
    balanced_from(s, 0, 0, 0, 0)
}

/// A fresh copy of a character vector.
pub fn copy_chars(s: &Vec<char>) -> (r: Vec<char>)
    ensures
        r@ == s@,
{
    let mut r: Vec<char> = Vec::new();
    crate::text::app_vec(&mut r, s);
    assert(r@ =~= s@);
    r
}

/// Appends the block quote prefix for a depth.
fn app_qp(out: &mut Vec<char>, q: usize)
    ensures
        final(out)@ == old(out)@ + qp(q as nat),
{
    let mut i: usize = 0;
    while i < q
        invariant
            i <= q,
            out@ == old(out)@ + qp(i as nat),
        decreases q - i,
    {
        out.push('>');
        out.push(' ');
        assert(out@ =~= old(out)@ + qp((i + 1) as nat));
        i = i + 1;
    }
}

/// Appends a blank block quote line: the prefix without its trailing space.
fn app_quote_blank(out: &mut Vec<char>, q: usize)
    requires
        q >= 1,
    ensures
        final(out)@ == old(out)@ + quote_blank(q as nat),
{
    let ghost pre = out@;
    app_qp(out, q - 1);
    out.push('>');
    assert(out@ =~= pre + quote_blank(q as nat));
}

/// Appends list indentation: three spaces per level.
fn app_ind(out: &mut Vec<char>, d: usize)
    ensures
        final(out)@ == old(out)@ + ind(d as nat),
{
    let mut i: usize = 0;
    while i < d
        invariant
            i <= d,
            out@ == old(out)@ + ind(i as nat),
        decreases d - i,
    {
        out.push(' ');
        out.push(' ');
        out.push(' ');
        assert(out@ =~= old(out)@ + ind((i + 1) as nat));
        i = i + 1;
    }
}

/// Appends the separation a non-list block needs, as [`block_sep`] gives it.
fn app_block_sep(out: &mut Vec<char>, st: &RenderState)
    ensures
        final(out)@ == old(out)@ + block_sep(st.model()),
{
    let ghost pre = out@;
    if !st.started {
        app_qp(out, st.quote);
        assert(out@ =~= pre + block_sep(st.model()));
    } else if st.lists.len() > 0 {
        if !st.fresh {
            out.push('\n');
            out.push('\n');
            app_qp(out, st.quote);
            app_ind(out, st.lists.len());
            assert(out@ =~= pre + block_sep(st.model()));
        } else {
            assert(out@ =~= pre + block_sep(st.model()));
        }
    } else if st.fresh {
        assert(out@ =~= pre + block_sep(st.model()));
    } else if st.fresh_quote {
        out.push('\n');
        out.push('\n');
        app_qp(out, st.quote);
        assert(out@ =~= pre + block_sep(st.model()));
    } else if st.quote > 0 {
        out.push('\n');
        app_quote_blank(out, st.quote);
        out.push('\n');
        app_qp(out, st.quote);
        assert(out@ =~= pre + block_sep(st.model()));
    } else {
        out.push('\n');
        out.push('\n');
        assert(out@ =~= pre + block_sep(st.model()));
    }
}

/// Executable twin of [`collapse_blanks`].
pub fn collapse_run(s: &Vec<char>) -> (r: Vec<char>)
    ensures
        r@ == collapse_blanks(s@),
{
    let mut out: Vec<char> = Vec::new();
    let mut i: usize = 0;
    while i < s.len()
        invariant
            i <= s.len(),
            out@ + collapse_from(s@, i as int) == collapse_blanks(s@),
        decreases s.len() - i,
    {
        let ghost pre = out@;
        let c = s[i];
        if inline_blank(c) && i + 1 < s.len() && inline_blank(s[i + 1]) {
            // one of a run: dropped
        } else if inline_blank(c) {
            out.push(' ');
            assert(out@ =~= pre + seq![' ']);
        } else {
            out.push(c);
            assert(out@ =~= pre + seq![c]);
        }
        assert(out@ + collapse_from(s@, i as int + 1) =~= collapse_blanks(s@));
        i = i + 1;
    }
    assert(out@ =~= collapse_blanks(s@));
    out
}

/// Executable leading run of `c` in the suffix of `s` from `i`.
fn leading_run_from(s: &Vec<char>, c: char, i: usize) -> (r: usize)
    requires
        i <= s.len(),
    ensures
        r as nat == leading_run(s@.skip(i as int), c),
        i + r <= s.len(),
{
    let mut j: usize = i;
    proof {
        assert(s@.skip(i as int).skip(0) =~= s@.skip(i as int));
    }
    while j < s.len() && s[j] == c
        invariant
            i <= j <= s.len(),
            leading_run(s@.skip(i as int), c) == (j - i) as nat + leading_run(
                s@.skip(j as int),
                c,
            ),
        decreases s.len() - j,
    {
        proof {
            assert(s@.skip(j as int)[0] == s@[j as int]);
            assert(s@.skip(j as int).skip(1) =~= s@.skip(j as int + 1));
        }
        j = j + 1;
    }
    proof {
        if j < s.len() {
            assert(s@.skip(j as int)[0] == s@[j as int]);
            assert(leading_run(s@.skip(j as int), c) == 0);
        } else {
            assert(s@.skip(j as int) =~= Seq::<char>::empty());
        }
    }
    j - i
}

/// Executable twin of [`max_run`].
pub fn max_run_of(s: &Vec<char>, c: char) -> (r: usize)
    ensures
        r as nat == max_run(s@, c),
        r <= s.len(),
{
    let mut best: usize = 0;
    let mut i: usize = 0;
    proof {
        assert(s@.skip(0) =~= s@);
    }
    while i < s.len()
        invariant
            i <= s.len(),
            best <= s.len(),
            max_run(s@, c) == if best as nat >= max_run(s@.skip(i as int), c) {
                best as nat
            } else {
                max_run(s@.skip(i as int), c)
            },
        decreases s.len() - i,
    {
        let lr = leading_run_from(s, c, i);
        proof {
            assert(s@.skip(i as int).skip(1) =~= s@.skip(i as int + 1));
            assert(max_run(s@.skip(i as int), c) == if leading_run(s@.skip(i as int), c)
                >= max_run(s@.skip(i as int + 1), c) {
                leading_run(s@.skip(i as int), c)
            } else {
                max_run(s@.skip(i as int + 1), c)
            });
        }
        if lr > best {
            best = lr;
        }
        i = i + 1;
    }
    proof {
        assert(s@.skip(s@.len() as int) =~= Seq::<char>::empty());
    }
    best
}

/// Appends `s` with every occurrence of `c` backslash-escaped.
fn app_esc_char(out: &mut Vec<char>, s: &Vec<char>, c: char)
    ensures
        final(out)@ == old(out)@ + esc_char_from(s@, c, 0),
{
    let mut i: usize = 0;
    while i < s.len()
        invariant
            i <= s.len(),
            out@ + esc_char_from(s@, c, i as int) == old(out)@ + esc_char_from(s@, c, 0),
        decreases s.len() - i,
    {
        let ghost pre = out@;
        if s[i] == c {
            out.push('\\');
            out.push(c);
            assert(out@ =~= pre + seq!['\\', c]);
        } else {
            out.push(s[i]);
            assert(out@ =~= pre + seq![s@[i as int]]);
        }
        assert(out@ + esc_char_from(s@, c, i as int + 1) =~= old(out)@ + esc_char_from(
            s@,
            c,
            0,
        ));
        i = i + 1;
    }
}

/// The start-tag arms of [`render_event`], matching [`step_start`].
fn exec_start(st: &mut RenderState, out: &mut Vec<char>, tag: &MdTag, cfg: &crate::FormatterConfig)
    ensures
        final(st).model() == step_start(old(st).model(), *tag, *cfg).0,
        final(out)@ == old(out)@ + step_start(old(st).model(), *tag, *cfg).1,
{
    match tag {
        MdTag::Heading(_) | MdTag::Paragraph | MdTag::BlockQuote => exec_start1(st, out, tag, cfg),
        MdTag::CodeBlock(_) | MdTag::ListTag(_) | MdTag::Item => exec_start2(st, out, tag, cfg),
        MdTag::Emphasis | MdTag::Strong | MdTag::Strikethrough | MdTag::Link(_, _, _) => exec_start3(
            st,
            out,
            tag,
            cfg,
        ),
        MdTag::Image(_, _, _) | MdTag::FootnoteDefinition(_) | MdTag::HtmlBlock
            | MdTag::OtherTag => exec_start4(st, out, tag, cfg),
    }
}

/// The end-tag arms of [`render_event`], matching [`step_end`].
fn exec_end(st: &mut RenderState, out: &mut Vec<char>, tag: &MdTagEnd)
    ensures
        final(st).model() == step_end(old(st).model(), *tag).0,
        final(out)@ == old(out)@ + step_end(old(st).model(), *tag).1,
{
    match tag {
        MdTagEnd::Heading | MdTagEnd::Paragraph | MdTagEnd::BlockQuote => exec_end1(st, out, tag),
        MdTagEnd::CodeBlock | MdTagEnd::ListEnd | MdTagEnd::Item => exec_end2(st, out, tag),
        MdTagEnd::Emphasis | MdTagEnd::Strong | MdTagEnd::Strikethrough | MdTagEnd::Link
            | MdTagEnd::Image => exec_end3(st, out, tag),
        MdTagEnd::FootnoteDefinition | MdTagEnd::HtmlBlock | MdTagEnd::OtherTagEnd => exec_end4(
            st,
            out,
            tag,
        ),
    }
}

/// The leaf arms of [`render_event`], matching [`step_leaf`].
fn exec_leaf(st: &mut RenderState, out: &mut Vec<char>, e: &MdEvent, cfg: &crate::FormatterConfig)
    requires
        !(*e matches MdEvent::Start(_)),
        !(*e matches MdEvent::End(_)),
    ensures
        final(st).model() == step_leaf(old(st).model(), *e, *cfg).0,
        final(out)@ == old(out)@ + step_leaf(old(st).model(), *e, *cfg).1,
{
    match e {
        MdEvent::Text(_) | MdEvent::Code(_) => exec_leaf1(st, out, e, cfg),
        MdEvent::Html(_) | MdEvent::InlineHtml(_) => exec_leaf2(st, out, e, cfg),
        MdEvent::SoftBreak | MdEvent::HardBreak => exec_leaf4(st, out, e, cfg),
        _ => exec_leaf3(st, out, e, cfg),
    }
}

/// The text and code-span arms of [`exec_leaf`].
#[verifier::rlimit(100)]
#[verifier::spinoff_prover]
fn exec_leaf1(st: &mut RenderState, out: &mut Vec<char>, e: &MdEvent, cfg: &crate::FormatterConfig)
    requires
        (*e matches MdEvent::Text(_)) || (*e matches MdEvent::Code(_)),
    ensures
        final(st).model() == step_leaf(old(st).model(), *e, *cfg).0,
        final(out)@ == old(out)@ + step_leaf(old(st).model(), *e, *cfg).1,
{
    let ghost m1a = old(st).model();
    let ghost target_a = step_leaf(m1a, *e, *cfg);
    match e {
        MdEvent::Text(t) => {
            if st.in_code {
                crate::text::app_vec(&mut st.code_buf, t);
            } else if st.in_html {
                if !blanks_only(t) {
                    crate::text::app_vec(out, t);
                }
            } else {
                crate::text::app_vec(&mut st.tbuf, t);
            }
            proof {
                assert(st.model() =~= target_a.0);
                assert(out@ =~= old(out)@ + target_a.1);
            }
        },
        MdEvent::Code(t) => {
            if st.fresh {
                out.push(' ');
            }
            let mr = max_run_of(t, '`');
            crate::text::app_repeat(out, '`', mr);
            out.push('`');
            proof {
                assert(char_run('`', mr as nat).push('`') =~= char_run(
                    '`',
                    max_run(t@, '`') + 1,
                ));
            }
            let pad = t.len() > 0 && (is_tick(t, 0) || is_tick(t, t.len() - 1));
            if pad {
                out.push(' ');
            }
            crate::text::app_vec(out, t);
            if pad {
                out.push(' ');
            }
            crate::text::app_repeat(out, '`', mr);
            out.push('`');
            st.fresh = false;
            st.line_start = false;
            st.prev_char = Option::Some('`');
            proof {
                assert(st.model() =~= target_a.0);
                assert(out@ =~= old(out)@ + target_a.1);
            }
        },
        _ => {
            proof {
                assert(false);
            }
        },
    }
}

/// The break arms of [`exec_leaf`].
#[verifier::rlimit(100)]
#[verifier::spinoff_prover]
fn exec_leaf4(st: &mut RenderState, out: &mut Vec<char>, e: &MdEvent, cfg: &crate::FormatterConfig)
    requires
        (*e matches MdEvent::SoftBreak) || (*e matches MdEvent::HardBreak),
    ensures
        final(st).model() == step_leaf(old(st).model(), *e, *cfg).0,
        final(out)@ == old(out)@ + step_leaf(old(st).model(), *e, *cfg).1,
{
    let ghost m1a = old(st).model();
    let ghost target_a = step_leaf(m1a, *e, *cfg);
    match e {
        MdEvent::SoftBreak => {
            if st.lists.len() > 0 {
                out.push('\n');
                app_qp(out, st.quote);
                app_ind(out, st.lists.len());
                st.line_start = true;
                st.prev_char = Option::None;
                st.fresh = false;
            } else if st.quote > 0 {
                out.push('\n');
                app_qp(out, st.quote);
                st.line_start = true;
                st.prev_char = Option::None;
                st.fresh = false;
            } else if !st.in_code && !st.in_html {
                st.tbuf.push(' ');
            } else {
                out.push(' ');
                st.line_start = false;
                st.prev_char = Option::Some(' ');
                st.fresh = false;
            }
            proof {
                assert(st.model() =~= target_a.0);
                assert(out@ =~= old(out)@ + target_a.1);
            }
        },
        MdEvent::HardBreak => {
            out.push('\\');
            out.push('\n');
            app_qp(out, st.quote);
            app_ind(out, st.lists.len());
            st.fresh = false;
            st.line_start = true;
            st.prev_char = Option::None;
            proof {
                assert(st.model() =~= target_a.0);
                assert(out@ =~= old(out)@ + target_a.1);
            }
        },
        _ => {
            proof {
                assert(false);
            }
        },
    }
}

/// The raw-HTML arms of [`exec_leaf`].
#[verifier::rlimit(100)]
#[verifier::spinoff_prover]
fn exec_leaf2(st: &mut RenderState, out: &mut Vec<char>, e: &MdEvent, cfg: &crate::FormatterConfig)
    requires
        (*e matches MdEvent::Html(_)) || (*e matches MdEvent::InlineHtml(_)),
    ensures
        final(st).model() == step_leaf(old(st).model(), *e, *cfg).0,
        final(out)@ == old(out)@ + step_leaf(old(st).model(), *e, *cfg).1,
{
    let ghost m1a = old(st).model();
    let ghost target_a = step_leaf(m1a, *e, *cfg);
    match e {
        MdEvent::Html(t) => {
            app_trim_html(out, t);
            st.started = true;
            st.line_start = false;
            st.prev_char = Option::None;
            proof {
                assert(st.model() =~= target_a.0);
                assert(out@ =~= old(out)@ + target_a.1);
            }
        },
        MdEvent::InlineHtml(t) => {
            if st.fresh {
                out.push(' ');
            }
            crate::text::app_vec(out, t);
            if t.len() > 0 {
                st.prev_char = Option::Some(t[t.len() - 1]);
            }
            st.fresh = false;
            st.line_start = false;
            proof {
                assert(st.model() =~= target_a.0);
                assert(out@ =~= old(out)@ + target_a.1);
            }
        },
        _ => {
            proof {
                assert(false);
            }
        },
    }
}

/// The block-leaf arms of [`exec_leaf`]: rules, task markers, footnote
/// references.
#[verifier::rlimit(100)]
#[verifier::spinoff_prover]
fn exec_leaf3(st: &mut RenderState, out: &mut Vec<char>, e: &MdEvent, cfg: &crate::FormatterConfig)
    requires
        (*e matches MdEvent::Rule) || (*e matches MdEvent::TaskListMarker(_)) || (*e matches
        MdEvent::FootnoteReference(_)) || (*e matches MdEvent::Other),
    ensures
        final(st).model() == step_leaf(old(st).model(), *e, *cfg).0,
        final(out)@ == old(out)@ + step_leaf(old(st).model(), *e, *cfg).1,
{
    let ghost m1a = old(st).model();
    let ghost target_a = step_leaf(m1a, *e, *cfg);
    match e {
        MdEvent::Rule => {
            app_block_sep(out, st);
            if st.fresh {
                out.push(' ');
            }
            crate::text::app_repeat(out, '_', 70);
            st.started = true;
            st.fresh = false;
            st.fresh_quote = false;
            st.prev_list = false;
            st.in_para = false;
            st.line_start = false;
            st.prev_char = Option::None;
            proof {
                assert(st.model() =~= target_a.0);
                assert(out@ =~= old(out)@ + target_a.1);
            }
        },
        MdEvent::TaskListMarker(b) => {
            if st.fresh {
                out.push(' ');
            }
            out.push('[');
            if *b {
                out.push('x');
            } else {
                out.push(' ');
            }
            out.push(']');
            st.line_start = false;
            st.prev_char = Option::Some(']');
            proof {
                assert(st.model() =~= target_a.0);
                assert(out@ =~= old(out)@ + target_a.1);
            }
        },
        MdEvent::FootnoteReference(name) => {
            if st.fresh {
                out.push(' ');
            }
            out.push('[');
            out.push('^');
            crate::text::app_vec(out, name);
            out.push(']');
            st.fresh = false;
            st.line_start = false;
            st.prev_char = Option::Some(']');
            proof {
                assert(st.model() =~= target_a.0);
                assert(out@ =~= old(out)@ + target_a.1);
            }
        },
        MdEvent::Other => {
            proof {
                assert(st.model() =~= target_a.0);
                assert(out@ =~= old(out)@ + target_a.1);
            }
        },
        _ => {
            proof {
                assert(false);
            }
        },
    }
}

/// Emits the pending text run, exactly as [`flush_text`] gives it.
#[verifier::rlimit(100)]
#[verifier::spinoff_prover]
fn exec_flush_text(st: &mut RenderState, out: &mut Vec<char>, cfg: &crate::FormatterConfig)
    ensures
        final(st).model() == flush_text(old(st).model(), *cfg).0,
        final(out)@ == old(out)@ + flush_text(old(st).model(), *cfg).1,
{
    let ghost m1a = old(st).model();
    let ghost target_a = flush_text(m1a, *cfg);
    if st.tbuf.len() > 0 {
        let collapsed = if cfg.normalize_spaces {
            collapse_run(&st.tbuf)
        } else {
            copy_chars(&st.tbuf)
        };
        let ctx = EscapeCtx {
            at_line_start: st.line_start,
            in_label: st.links.len() > 0,
            prev_char: if st.fresh {
                Option::Some(' ')
            } else {
                st.prev_char
            },
        };
        proof {
            assert(ctx == text_ctx(m1a));
        }
        let mut body = crate::escape::escape_run(&collapsed, &ctx);
        proof {
            assert(body@ == text_out(m1a, m1a.tbuf, cfg.normalize_spaces));
        }
        if body.len() > 0 {
            let ghost full_body = body@;
            let lastc = body[body.len() - 1];
            if st.fresh {
                out.push(' ');
            }
            if lastc == '!' {
                let _ = body.pop();
                proof {
                    assert(body@ =~= full_body.drop_last());
                }
                crate::text::app_vec(out, &body);
                st.bang = true;
            } else {
                crate::text::app_vec(out, &body);
                st.bang = false;
            }
            st.fresh = false;
            st.line_start = false;
            st.prev_char = Option::Some(lastc);
            st.tbuf = Vec::new();
            proof {
                assert(lastc == full_body.last());
                assert(st.model() =~= target_a.0);
                assert(out@ =~= old(out)@ + target_a.1);
            }
        } else {
            st.tbuf = Vec::new();
            proof {
                assert(st.model() =~= target_a.0);
                assert(out@ =~= old(out)@ + target_a.1);
            }
        }
    } else {
        proof {
            assert(st.model() =~= target_a.0);
            assert(out@ =~= old(out)@ + target_a.1);
        }
    }
}

/// One start event, executed: the flush preamble and the arm, together
/// matching [`render_step`].
#[verifier::rlimit(100)]
#[verifier::spinoff_prover]
fn render_event_start(st: &mut RenderState, out: &mut Vec<char>, e: &MdEvent, cfg: &crate::FormatterConfig)
    requires
        *e matches MdEvent::Start(_),
    ensures
        final(st).model() == render_step(old(st).model(), *e, *cfg).0,
        final(out)@ == old(out)@ + render_step(old(st).model(), *e, *cfg).1,
{
    let ghost m0 = old(st).model();
    let ghost target = render_step(m0, *e, *cfg);
    let buffering = match e {
        MdEvent::Text(_) => !st.in_code && !st.in_html && !st.suppress,
        MdEvent::SoftBreak => st.lists.len() == 0 && st.quote == 0 && !st.in_code && !st.in_html
            && !st.suppress,
        _ => false,
    };
    if !buffering {
        exec_flush_text(st, out, cfg);
    }
    let ghost m_fl = if buffers_text(m0, *e) {
        m0
    } else {
        flush_text(m0, *cfg).0
    };
    let ghost out_fl = old(out)@ + (if buffers_text(m0, *e) {
        Seq::<char>::empty()
    } else {
        flush_text(m0, *cfg).1
    });
    proof {
        assert(st.model() =~= m_fl);
        assert(out@ =~= out_fl);
    }
    if st.bang {
        let bracket_link = match e {
            MdEvent::Start(MdTag::Link(kind, _, _)) => !matches!(kind, LinkKind::Auto),
            _ => false,
        };
        if bracket_link {
            out.push('\\');
            out.push('!');
        } else {
            out.push('!');
        }
        st.bang = false;
    }
    let ghost m1 = (RenderModel { bang: false, ..m_fl });
    let ghost flushed = out_fl + flush_bang(m_fl, *e);
    proof {
        assert(st.model() =~= m1);
        assert(out@ =~= flushed);
    }
    if st.suppress && !matches!(e, MdEvent::End(MdTagEnd::Link)) {
        proof {
            assert(target.0 =~= m1);
            assert(st.model() =~= target.0);
            assert(target.1 =~= (if buffers_text(m0, *e) {
                Seq::<char>::empty()
            } else {
                flush_text(m0, *cfg).1
            }) + flush_bang(m_fl, *e) + Seq::<char>::empty());
            assert(out@ =~= old(out)@ + target.1);
        }
        return ;
    }
    match e {
        MdEvent::Start(tag) => {
            let ghost arm = step_start(m1, *tag, *cfg);
            exec_start(st, out, tag, cfg);
            proof {
                assert(st.model() == arm.0 && out@ == flushed + arm.1);
                assert(target.0 == arm.0);
                assert(target.1 =~= (if buffers_text(m0, *e) {
                    Seq::<char>::empty()
                } else {
                    flush_text(m0, *cfg).1
                }) + flush_bang(m_fl, *e) + arm.1);
                assert(out@ =~= old(out)@ + target.1);
            }
        },
        _ => {
            proof {
                assert(false);
            }
        },
    }
}

/// One end event, executed: the flush preamble and the arm, together
/// matching [`render_step`].
#[verifier::rlimit(100)]
#[verifier::spinoff_prover]
fn render_event_end(st: &mut RenderState, out: &mut Vec<char>, e: &MdEvent, cfg: &crate::FormatterConfig)
    requires
        *e matches MdEvent::End(_),
    ensures
        final(st).model() == render_step(old(st).model(), *e, *cfg).0,
        final(out)@ == old(out)@ + render_step(old(st).model(), *e, *cfg).1,
{
    let ghost m0 = old(st).model();
    let ghost target = render_step(m0, *e, *cfg);
    let buffering = match e {
        MdEvent::Text(_) => !st.in_code && !st.in_html && !st.suppress,
        MdEvent::SoftBreak => st.lists.len() == 0 && st.quote == 0 && !st.in_code && !st.in_html
            && !st.suppress,
        _ => false,
    };
    if !buffering {
        exec_flush_text(st, out, cfg);
    }
    let ghost m_fl = if buffers_text(m0, *e) {
        m0
    } else {
        flush_text(m0, *cfg).0
    };
    let ghost out_fl = old(out)@ + (if buffers_text(m0, *e) {
        Seq::<char>::empty()
    } else {
        flush_text(m0, *cfg).1
    });
    proof {
        assert(st.model() =~= m_fl);
        assert(out@ =~= out_fl);
    }
    if st.bang {
        let bracket_link = match e {
            MdEvent::Start(MdTag::Link(kind, _, _)) => !matches!(kind, LinkKind::Auto),
            _ => false,
        };
        if bracket_link {
            out.push('\\');
            out.push('!');
        } else {
            out.push('!');
        }
        st.bang = false;
    }
    let ghost m1 = (RenderModel { bang: false, ..m_fl });
    let ghost flushed = out_fl + flush_bang(m_fl, *e);
    proof {
        assert(st.model() =~= m1);
        assert(out@ =~= flushed);
    }
    if st.suppress && !matches!(e, MdEvent::End(MdTagEnd::Link)) {
        proof {
            assert(target.0 =~= m1);
            assert(st.model() =~= target.0);
            assert(target.1 =~= (if buffers_text(m0, *e) {
                Seq::<char>::empty()
            } else {
                flush_text(m0, *cfg).1
            }) + flush_bang(m_fl, *e) + Seq::<char>::empty());
            assert(out@ =~= old(out)@ + target.1);
        }
        return ;
    }
    match e {
        MdEvent::End(tag) => {
            let ghost arm = step_end(m1, *tag);
            exec_end(st, out, tag);
            proof {
                assert(st.model() == arm.0 && out@ == flushed + arm.1);
                assert(target.0 == arm.0);
                assert(target.1 =~= (if buffers_text(m0, *e) {
                    Seq::<char>::empty()
                } else {
                    flush_text(m0, *cfg).1
                }) + flush_bang(m_fl, *e) + arm.1);
                assert(out@ =~= old(out)@ + target.1);
            }
        },
        _ => {
            proof {
                assert(false);
            }
        },
    }
}

/// One leaf event, executed: the flush preamble and the arm, together
/// matching [`render_step`].
#[verifier::rlimit(100)]
#[verifier::spinoff_prover]
fn render_event_leaf(st: &mut RenderState, out: &mut Vec<char>, e: &MdEvent, cfg: &crate::FormatterConfig)
    requires
        !(*e matches MdEvent::Start(_)) && !(*e matches MdEvent::End(_)),
    ensures
        final(st).model() == render_step(old(st).model(), *e, *cfg).0,
        final(out)@ == old(out)@ + render_step(old(st).model(), *e, *cfg).1,
{
    let ghost m0 = old(st).model();
    let ghost target = render_step(m0, *e, *cfg);
    let buffering = match e {
        MdEvent::Text(_) => !st.in_code && !st.in_html && !st.suppress,
        MdEvent::SoftBreak => st.lists.len() == 0 && st.quote == 0 && !st.in_code && !st.in_html
            && !st.suppress,
        _ => false,
    };
    if !buffering {
        exec_flush_text(st, out, cfg);
    }
    let ghost m_fl = if buffers_text(m0, *e) {
        m0
    } else {
        flush_text(m0, *cfg).0
    };
    let ghost out_fl = old(out)@ + (if buffers_text(m0, *e) {
        Seq::<char>::empty()
    } else {
        flush_text(m0, *cfg).1
    });
    proof {
        assert(st.model() =~= m_fl);
        assert(out@ =~= out_fl);
    }
    if st.bang {
        let bracket_link = match e {
            MdEvent::Start(MdTag::Link(kind, _, _)) => !matches!(kind, LinkKind::Auto),
            _ => false,
        };
        if bracket_link {
            out.push('\\');
            out.push('!');
        } else {
            out.push('!');
        }
        st.bang = false;
    }
    let ghost m1 = (RenderModel { bang: false, ..m_fl });
    let ghost flushed = out_fl + flush_bang(m_fl, *e);
    proof {
        assert(st.model() =~= m1);
        assert(out@ =~= flushed);
    }
    if st.suppress && !matches!(e, MdEvent::End(MdTagEnd::Link)) {
        proof {
            assert(target.0 =~= m1);
            assert(st.model() =~= target.0);
            assert(target.1 =~= (if buffers_text(m0, *e) {
                Seq::<char>::empty()
            } else {
                flush_text(m0, *cfg).1
            }) + flush_bang(m_fl, *e) + Seq::<char>::empty());
            assert(out@ =~= old(out)@ + target.1);
        }
        return ;
    }
    match e {
        _ => {
            let ghost arm = step_leaf(m1, *e, *cfg);
            exec_leaf(st, out, e, cfg);
            proof {
                assert(st.model() == arm.0 && out@ == flushed + arm.1);
                assert(target.0 == arm.0);
                assert(target.1 =~= (if buffers_text(m0, *e) {
                    Seq::<char>::empty()
                } else {
                    flush_text(m0, *cfg).1
                }) + flush_bang(m_fl, *e) + arm.1);
                assert(out@ =~= old(out)@ + target.1);
            }
        },
        _ => {
            proof {
                assert(false);
            }
        },
    }
}

/// One event of the pass, executed: appends exactly the text and applies
/// exactly the state change that [`render_step`] gives for it.
fn render_event(st: &mut RenderState, out: &mut Vec<char>, e: &MdEvent, cfg: &crate::FormatterConfig)
    ensures
        final(st).model() == render_step(old(st).model(), *e, *cfg).0,
        final(out)@ == old(out)@ + render_step(old(st).model(), *e, *cfg).1,
{
    match e {
        MdEvent::Start(_) => render_event_start(st, out, e, cfg),
        MdEvent::End(_) => render_event_end(st, out, e, cfg),
        _ => render_event_leaf(st, out, e, cfg),
    }
}

/// Appends `s` with the indentation of every line removed.
fn app_trim_html(out: &mut Vec<char>, s: &Vec<char>)
    ensures
        final(out)@ == old(out)@ + trim_html_from(s@, 0, true),
{
    let mut i: usize = 0;
    let mut at_ls: bool = true;
    while i < s.len()
        invariant
            i <= s.len(),
            out@ + trim_html_from(s@, i as int, at_ls) == old(out)@ + trim_html_from(s@, 0, true),
        decreases s.len() - i,
    {
        let ghost pre = out@;
        let c = s[i];
        if at_ls && inline_blank(c) {
            // indentation: dropped
        } else {
            out.push(c);
            assert(out@ =~= pre + seq![c]);
            at_ls = c == '\n';
        }
        assert(out@ + trim_html_from(s@, i as int + 1, at_ls) =~= old(out)@ + trim_html_from(
            s@,
            0,
            true,
        ));
        i = i + 1;
    }
}

/// Executable twin of [`all_blanks`].
fn blanks_only(t: &Vec<char>) -> (r: bool)
    ensures
        r == all_blanks(t@),
{
    let mut i: usize = 0;
    while i < t.len()
        invariant
            i <= t@.len(),
            forall|j: int| 0 <= j < i ==> is_inline_blank(#[trigger] t@[j]),
        decreases t.len() - i,
    {
        if !inline_blank(t[i]) {
            return false;
        }
        i = i + 1;
    }
    true
}

/// Whether the character at `i` is a backtick.
fn is_tick(t: &Vec<char>, i: usize) -> (r: bool)
    requires
        i < t@.len(),
    ensures
        r == (t@[i as int] == '`'),
{
    t[i] == '`'
}

/// Whether a vector holds a given character.
fn contains_char(s: &Vec<char>, c: char) -> (r: bool)
    ensures
        r == s@.contains(c),
{
    let mut i: usize = 0;
    while i < s.len()
        invariant
            i <= s.len(),
            forall|j: int| 0 <= j < i ==> s@[j] != c,
        decreases s.len() - i,
    {
        if s[i] == c {
            return true;
        }
        i = i + 1;
    }
    proof {
        assert(!s@.contains(c));
    }
    false
}

/// Whether a nonempty vector ends in a newline.
fn last_is_newline(s: &Vec<char>) -> (r: bool)
    requires
        s@.len() > 0,
    ensures
        r == (s@.last() == '\n'),
{
    s[s.len() - 1] == '\n'
}

/// An event stream the renderer refuses: its structural pairs do not nest,
/// an item stands outside any list, or a heading level lies outside one to
/// six — so that no corrupt output is emitted for it.
#[derive(Debug, Clone, Copy, PartialEq, Eq, Structural)]
pub struct RenderError {
    /// Index of the first offending event.
    pub at: usize,
}

impl RenderError {
    /// A diagnostic line for this error.
    pub fn message(&self) -> (r: String)
        ensures
            r@ == "markdown event stream is not properly nested"@,
    {
        String::from_str("markdown event stream is not properly nested")
    }
}

/// Executable check of [`balanced`]: scans the stream once, keeping the
/// three nesting counters and testing heading levels, and reports the first
/// violation.
pub fn check_balanced(events: &Vec<MdEvent>) -> (r: Option<usize>)
    ensures
        r is None <==> balanced(events@),
        r matches Some(k) ==> k < events@.len(),
{
    let mut lists: usize = 0;
    let mut quotes: usize = 0;
    let mut links: usize = 0;
    let mut i: usize = 0;
    while i < events.len()
        invariant
            i <= events.len(),
            lists <= i,
            quotes <= i,
            links <= i,
            balanced(events@) == balanced_from(
                events@,
                i as int,
                lists as nat,
                quotes as nat,
                links as nat,
            ),
        decreases events.len() - i,
    {
        match &events[i] {
            MdEvent::Start(MdTag::Heading(lv)) => {
                if *lv < 1 || *lv > 6 {
                    return Option::Some(i);
                }
            },
            MdEvent::Start(MdTag::ListTag(_)) => {
                lists = lists + 1;
            },
            MdEvent::End(MdTagEnd::ListEnd) => {
                if lists == 0 {
                    return Option::Some(i);
                }
                lists = lists - 1;
            },
            MdEvent::Start(MdTag::Item) => {
                if lists == 0 {
                    return Option::Some(i);
                }
            },
            MdEvent::Start(MdTag::BlockQuote) => {
                quotes = quotes + 1;
            },
            MdEvent::End(MdTagEnd::BlockQuote) => {
                if quotes == 0 {
                    return Option::Some(i);
                }
                quotes = quotes - 1;
            },
            MdEvent::Start(MdTag::Link(_, _, _)) => {
                links = links + 1;
            },
            MdEvent::Start(MdTag::Image(_, _, _)) => {
                links = links + 1;
            },
            MdEvent::End(MdTagEnd::Link) => {
                if links == 0 {
                    return Option::Some(i);
                }
                links = links - 1;
            },
            MdEvent::End(MdTagEnd::Image) => {
                if links == 0 {
                    return Option::Some(i);
                }
                links = links - 1;
            },
            _ => {},
        }
        i = i + 1;
    }
    if lists == 0 && quotes == 0 && links == 0 {
        Option::None
    } else {
        proof {
            assert(!balanced(events@));
        }
        Option::Some(events.len() - 1)
    }
}

/// Renders an event stream to canonical Markdown text, exactly as
/// [`render_spec`] describes; a stream that violates the invariant —
/// improper nesting, an item outside a list, a heading level outside one to
/// six — is refused whole, and nothing is emitted for it.
pub fn render_events(events: &Vec<MdEvent>, cfg: &crate::FormatterConfig) -> (r: Result<
    Vec<char>,
    RenderError,
>)
    ensures
        r is Ok <==> balanced(events@),
        r matches Ok(o) ==> o@ == render_spec(events@, *cfg),
{
    match check_balanced(events) {
        Option::Some(k) => Result::Err(RenderError { at: k }),
        Option::None => {
            let mut st = RenderState::new();
            let mut out: Vec<char> = Vec::new();
            let mut i: usize = 0;
            proof {
                assert(events@.take(0) =~= Seq::<MdEvent>::empty());
            }
            while i < events.len()
                invariant
                    i <= events.len(),
                    st.model() == render_fold(events@.take(i as int), *cfg).0,
                    out@ == render_fold(events@.take(i as int), *cfg).1,
                decreases events.len() - i,
            {
                render_event(&mut st, &mut out, &events[i], cfg);
                proof {
                    assert(events@.take(i + 1).drop_last() =~= events@.take(i as int));
                    assert(events@.take(i + 1).last() == events@[i as int]);
                }
                i = i + 1;
            }
            proof {
                assert(events@.take(events@.len() as int) =~= events@);
            }
            exec_flush_text(&mut st, &mut out, cfg);
            if st.bang {
                out.push('!');
                st.bang = false;
            }
            proof {
                assert(out@ =~= render_spec(events@, *cfg));
            }
            Result::Ok(out)
        },
    }
}

/// An ordered frame as a list start pushes it.
pub open spec fn ordered_frame(start: u64) -> ListFrame {
    ListFrame { ordered: true, start_number: start, current_number: start }
}

/// A frame after `k` items have been emitted from it.
pub open spec fn advance_k(f: ListFrame, k: nat) -> ListFrame
    decreases k,
{
    if k == 0 {
        f
    } else {
        advance(advance_k(f, (k - 1) as nat))
    }
}

/// List renumbering: in an ordered list started at `start`, the frame that
/// has emitted `i` items carries `start + i` as its next number, whatever
/// numbers the source document carried — so item `i`, zero-indexed, renders
/// as `start + i`, since the item arm of [`render_step`] emits
/// `dec_rep(current_number)` and advances the frame by exactly one.
pub proof fn lemma_list_renumbering(start: u64, i: nat)
    requires
        start + i <= u64::MAX,
    ensures
        advance_k(ordered_frame(start), i).current_number == start + i,
        advance_k(ordered_frame(start), i).ordered,
        advance_k(ordered_frame(start), i).start_number == start,
    decreases i,
{
    if i > 0 {
        lemma_list_renumbering(start, (i - 1) as nat);
    }
}

/// Executable twin of [`dest_needs_angle`].
fn dest_angle(d: &Vec<char>) -> (r: bool)
    ensures
        r == dest_needs_angle(d@),
{
    if d.len() == 0 {
        return true;
    }
    let mut i: usize = 0;
    while i < d.len()
        invariant
            i <= d.len(),
            forall|j: int|
                0 <= j < i ==> !(is_md_whitespace(#[trigger] d@[j]) || d@[j] == '(' || d@[j]
                    == ')'),
        decreases d.len() - i,
    {
        let c = d[i];
        if crate::text::md_whitespace(c) || c == '(' || c == ')' {
            return true;
        }
        i = i + 1;
    }
    false
}

} // verus!
