//! The escape policy engine: given one run of literal text and the rendering
//! context around it, it inserts a backslash exactly before the characters
//! that would otherwise be read back as syntax, and nowhere else. The
//! ambiguity rules are written down once, in [`needs_escape`]; the engine's
//! output is pinned to them character by character, and the lemmas at the end
//! state the two halves of minimal escaping: re-reading the output under the
//! grammar's unescaping gives back the run unchanged, and the number of
//! backslashes inserted equals the number of positions the rules mark.

use vstd::prelude::*;

use crate::text::{
    ascii_punct, digit, inline_blank, is_ascii_punct, is_digit, is_inline_blank, is_md_whitespace,
    md_whitespace,
};

verus! {

/// The part of the rendering context the escape rules consult.
#[derive(Debug, Clone, Copy, PartialEq, Eq)]
pub struct EscapeCtx {
    /// The run begins at the start of a content line.
    pub at_line_start: bool,
    /// The run stands inside a link or image label.
    pub in_label: bool,
    /// The character emitted just before the run on the same line, if any.
    pub prev_char: Option<char>,
}

/// Whitespace, with the ends of the run counting as whitespace.
pub open spec fn ws_opt(oc: Option<char>) -> bool {
    match oc {
        Option::None => true,
        Option::Some(c) => is_md_whitespace(c),
    }
}

/// ASCII punctuation, with the ends of the run counting as none.
pub open spec fn punct_opt(oc: Option<char>) -> bool {
    match oc {
        Option::None => false,
        Option::Some(c) => is_ascii_punct(c),
    }
}

/// The character before position `i`, reaching into the context at the head.
pub open spec fn prev_of(s: Seq<char>, ctx: EscapeCtx, i: int) -> Option<char> {
    if i > 0 {
        Option::Some(s[i - 1])
    } else {
        ctx.prev_char
    }
}

/// The character after position `i`, if the run has one.
pub open spec fn next_of(s: Seq<char>, i: int) -> Option<char> {
    if i + 1 < s.len() {
        Option::Some(s[i + 1])
    } else {
        Option::None
    }
}

/// The length of the run of decimal digits at the head of `s`.
pub open spec fn leading_digits(s: Seq<char>) -> nat
    decreases s.len(),
{
    if s.len() == 0 || !is_digit(s[0]) {
        0
    } else {
        1 + leading_digits(s.skip(1))
    }
}

/// Where, if anywhere, the run begins with an ordered-list marker: a run of
/// one to nine digits at the start of a line, then `.` or `)`, then
/// whitespace or the end of the run. The position returned is that of the
/// `.` or `)`, the one character that must be escaped — and the only one on
/// its line, since marker recognition is line-start-only.
pub open spec fn digit_marker_pos(s: Seq<char>, ctx: EscapeCtx) -> Option<int> {
    if !ctx.at_line_start {
        Option::None
    } else {
        let k = leading_digits(s) as int;
        if 1 <= k && k <= 9 && k < s.len() && (s[k] == '.' || s[k] == ')') && ws_opt(
            next_of(s, k),
        ) {
            Option::Some(k)
        } else {
            Option::None
        }
    }
}

/// Whether an underscore between these neighbours forms a valid emphasis
/// delimiter: it must be left- or right-flanking, and an intraword
/// underscore (flanked by letters on both sides) never opens or closes.
pub open spec fn underscore_delim(prev: Option<char>, next: Option<char>) -> bool {
    let lf = !ws_opt(next) && (!punct_opt(next) || ws_opt(prev) || punct_opt(prev));
    let rf = !ws_opt(prev) && (!punct_opt(prev) || ws_opt(next) || punct_opt(next));
    (lf && (!rf || punct_opt(prev))) || (rf && (!lf || punct_opt(next)))
}

/// The ambiguity rules: whether the character at position `i` of the run
/// would be read back as syntax if emitted bare, so that a backslash is
/// required — and, read the other way, the only positions where one is
/// allowed. A closing bracket directly before an opening parenthesis is
/// among them: bare, it could close a label and turn literal text into a
/// link.
pub open spec fn needs_escape(s: Seq<char>, ctx: EscapeCtx, i: int) -> bool {
    let c = s[i];
    let prev = prev_of(s, ctx, i);
    let next = next_of(s, i);
    let line_start_here = ctx.at_line_start && i == 0;
    ||| (c == '\\' && punct_or_end(next))
    ||| c == '`'
    ||| (c == '*' && (!ws_opt(prev) || !ws_opt(next)))
    ||| ((c == '*' || c == '-' || c == '+') && line_start_here && ws_opt(next))
    ||| (c == '_' && underscore_delim(prev, next))
    ||| (c == '~' && (prev == Option::Some('~') || next == Option::Some('~')))
    ||| (c == '<' && !ws_some(next))
    ||| (c == '>' && line_start_here)
    ||| ((c == '[' || c == ']') && ctx.in_label)
    ||| (c == ']' && next == Option::Some('('))
    ||| ((c == '.' || c == ')') && digit_marker_pos(s, ctx) == Option::Some(i))
}

/// Punctuation, or the end of the run.
pub open spec fn punct_or_end(oc: Option<char>) -> bool {
    match oc {
        Option::None => true,
        Option::Some(c) => is_ascii_punct(c),
    }
}

/// A present whitespace character.
pub open spec fn ws_some(oc: Option<char>) -> bool {
    match oc {
        Option::None => false,
        Option::Some(c) => is_md_whitespace(c),
    }
}

/// What position `i` contributes to the output.
pub open spec fn esc_at(s: Seq<char>, ctx: EscapeCtx, i: int) -> Seq<char> {
    if needs_escape(s, ctx, i) {
        seq!['\\', s[i]]
    } else {
        seq![s[i]]
    }
}

/// The output from position `i` on.
pub open spec fn escape_from(s: Seq<char>, ctx: EscapeCtx, i: int) -> Seq<char>
    decreases s.len() - i,
{
    if i < 0 || i >= s.len() {
        Seq::empty()
    } else {
        esc_at(s, ctx, i) + escape_from(s, ctx, i + 1)
    }
}

/// The minimally escaped form of the whole run.
pub open spec fn escape_seq(s: Seq<char>, ctx: EscapeCtx) -> Seq<char> {
    escape_from(s, ctx, 0)
}

/// Executable twin of [`leading_digits`].
pub fn leading_digits_run(s: &Vec<char>) -> (r: usize)
    ensures
        r as nat == leading_digits(s@),
        r <= s.len(),
{
    let mut i: usize = 0;
    proof {
        assert(s@.skip(0) =~= s@);
    }
    while i < s.len() && digit(s[i])
        invariant
            i <= s.len(),
            leading_digits(s@) == i as nat + leading_digits(s@.skip(i as int)),
        decreases s.len() - i,
    {
        proof {
            assert(s@.skip(i as int)[0] == s@[i as int]);
            assert(s@.skip(i as int).skip(1) =~= s@.skip(i as int + 1));
        }
        i = i + 1;
    }
    proof {
        if i < s.len() {
            assert(s@.skip(i as int)[0] == s@[i as int]);
            assert(leading_digits(s@.skip(i as int)) == 0);
        } else {
            assert(s@.skip(i as int) =~= Seq::<char>::empty());
        }
    }
    i
}

/// Executable twin of [`digit_marker_pos`].
pub fn digit_marker(s: &Vec<char>, ctx: &EscapeCtx) -> (r: Option<usize>)
    ensures
        match r {
            Option::Some(k) => digit_marker_pos(s@, *ctx) == Option::Some(k as int),
            Option::None => digit_marker_pos(s@, *ctx) is None,
        },
{
    if !ctx.at_line_start {
        return Option::None;
    }
    let k = leading_digits_run(s);
    if 1 <= k && k <= 9 && k < s.len() && (s[k] == '.' || s[k] == ')') && (k + 1 == s.len()
        || md_whitespace(s[k + 1])) {
        Option::Some(k)
    } else {
        Option::None
    }
}

/// Executable twin of [`needs_escape`], given the precomputed marker position.
fn needs_escape_at(s: &Vec<char>, ctx: &EscapeCtx, i: usize, marker: &Option<usize>) -> (r: bool)
    requires
        i < s@.len(),
        match marker {
            Option::Some(k) => digit_marker_pos(s@, *ctx) == Option::Some(*k as int),
            Option::None => digit_marker_pos(s@, *ctx) is None,
        },
    ensures
        r == needs_escape(s@, *ctx, i as int),
{
    assert(i < s.len());
    let c = s[i];
    let prev: Option<char> = if i > 0 {
        Option::Some(s[i - 1])
    } else {
        ctx.prev_char
    };
    let next: Option<char> = if i + 1 < s.len() {
        Option::Some(s[i + 1])
    } else {
        Option::None
    };
    let prev_ws = match prev {
        Option::None => true,
        Option::Some(p) => md_whitespace(p),
    };
    let next_ws_opt = match next {
        Option::None => true,
        Option::Some(p) => md_whitespace(p),
    };
    let next_ws_some = match next {
        Option::None => false,
        Option::Some(p) => md_whitespace(p),
    };
    let prev_punct = match prev {
        Option::None => false,
        Option::Some(p) => ascii_punct(p),
    };
    let next_punct = match next {
        Option::None => false,
        Option::Some(p) => ascii_punct(p),
    };
    let next_punct_or_end = match next {
        Option::None => true,
        Option::Some(p) => ascii_punct(p),
    };
    let line_start_here = ctx.at_line_start && i == 0;
    let lf = !next_ws_opt && (!next_punct || prev_ws || prev_punct);
    let rf = !prev_ws && (!prev_punct || next_ws_opt || next_punct);
    let underscore = (lf && (!rf || prev_punct)) || (rf && (!lf || next_punct));
    let at_marker = match marker {
        Option::Some(k) => *k == i,
        Option::None => false,
    };
    (c == '\\' && next_punct_or_end) || c == '`' || (c == '*' && (!prev_ws || !next_ws_opt)) || ((c
        == '*' || c == '-' || c == '+') && line_start_here && next_ws_opt) || (c == '_'
        && underscore) || (c == '~' && (prev == Option::Some('~') || next == Option::Some('~')))
        || (c == '<' && !next_ws_some) || (c == '>' && line_start_here) || ((c == '[' || c == ']')
        && ctx.in_label) || (c == ']' && next == Option::Some('(')) || ((c == '.' || c == ')')
        && at_marker)
}

/// Escapes one run of text for the given context, exactly as [`escape_seq`]
/// describes.
pub fn escape_run(s: &Vec<char>, ctx: &EscapeCtx) -> (out: Vec<char>)
    ensures
        out@ == escape_seq(s@, *ctx),
{
    let marker = digit_marker(s, ctx);
    let mut out: Vec<char> = Vec::new();
    let mut i: usize = 0;
    while i < s.len()
        invariant
            i <= s.len(),
            out@ + escape_from(s@, *ctx, i as int) == escape_seq(s@, *ctx),
            match marker {
                Option::Some(k) => digit_marker_pos(s@, *ctx) == Option::Some(k as int),
                Option::None => digit_marker_pos(s@, *ctx) is None,
            },
        decreases s.len() - i,
    {
        let ghost pre = out@;
        if needs_escape_at(s, ctx, i, &marker) {
            out.push('\\');
            out.push(s[i]);
            assert(out@ =~= pre + esc_at(s@, *ctx, i as int));
        } else {
            out.push(s[i]);
            assert(out@ =~= pre + esc_at(s@, *ctx, i as int));
        }
        assert(out@ + escape_from(s@, *ctx, i + 1) =~= escape_seq(s@, *ctx));
        i = i + 1;
    }
    assert(out@ =~= escape_seq(s@, *ctx));
    out
}

/// The context of a fresh run of paragraph text: at the start of a line,
/// outside any label, with nothing before it.
pub open spec fn fresh_line_ctx() -> EscapeCtx {
    EscapeCtx { at_line_start: true, in_label: false, prev_char: Option::None }
}

/// Escapes one run of text taken at the start of a content line, outside any
/// label: the escape pass as it applies to the first run of a paragraph.
pub fn process_escapes(text: &str) -> (r: String)
    ensures
        r@ == escape_seq(text@, fresh_line_ctx()),
{
    let chars = crate::text::str_chars(text);
    let ctx = EscapeCtx { at_line_start: true, in_label: false, prev_char: Option::None };
    let out = escape_run(&chars, &ctx);
    crate::text::chars_string(&out)
}

/// How the grammar reads escapes back: a backslash standing before ASCII
/// punctuation disappears and leaves the punctuation literal; any other
/// character, a backslash before anything else included, stands for itself.
pub open spec fn unescape(s: Seq<char>) -> Seq<char>
    decreases s.len(),
{
    if s.len() == 0 {
        Seq::empty()
    } else if s[0] == '\\' && s.len() >= 2 && is_ascii_punct(s[1]) {
        seq![s[1]] + unescape(s.skip(2))
    } else {
        seq![s[0]] + unescape(s.skip(1))
    }
}

/// Every character the rules mark is ASCII punctuation, so a backslash put
/// before it is one the grammar will read as an escape.
proof fn lemma_marked_is_punct(s: Seq<char>, ctx: EscapeCtx, i: int)
    requires
        0 <= i < s.len(),
        needs_escape(s, ctx, i),
    ensures
        is_ascii_punct(s[i]),
{
}

/// How many positions of the run, from `i` on, the rules mark.
pub open spec fn marked_count(s: Seq<char>, ctx: EscapeCtx, i: int) -> nat
    decreases s.len() - i,
{
    if i < 0 || i >= s.len() {
        0
    } else {
        (if needs_escape(s, ctx, i) {
            1 as nat
        } else {
            0 as nat
        }) + marked_count(s, ctx, i + 1)
    }
}

proof fn lemma_escape_reads_back_from(s: Seq<char>, ctx: EscapeCtx, i: int)
    requires
        0 <= i <= s.len(),
    ensures
        unescape(escape_from(s, ctx, i)) == s.skip(i),
    decreases s.len() - i,
{
    if i == s.len() {
        assert(s.skip(i) =~= Seq::<char>::empty());
    } else {
        lemma_escape_reads_back_from(s, ctx, i + 1);
        let rest = escape_from(s, ctx, i + 1);
        if needs_escape(s, ctx, i) {
            lemma_marked_is_punct(s, ctx, i);
            let w = seq!['\\', s[i]] + rest;
            assert(escape_from(s, ctx, i) =~= w);
            assert(w[0] == '\\' && w.len() >= 2 && is_ascii_punct(w[1]));
            assert(w.skip(2) =~= rest);
            assert(unescape(w) == seq![s[i]] + unescape(rest));
            assert(seq![s[i]] + s.skip(i + 1) =~= s.skip(i));
        } else {
            let w = seq![s[i]] + rest;
            assert(escape_from(s, ctx, i) =~= w);
            if s[i] == '\\' && w.len() >= 2 && is_ascii_punct(w[1]) {
                // An unescaped backslash is never followed in the output by
                // punctuation: the next source character is not punctuation
                // (else this backslash would have been marked), so the next
                // output character is either it, or a backslash inserted for
                // it — and inserted backslashes only precede punctuation.
                assert(i + 1 < s.len());
                assert(!is_ascii_punct(s[i + 1]));
                if needs_escape(s, ctx, i + 1) {
                    lemma_marked_is_punct(s, ctx, i + 1);
                    assert(false);
                }
                assert(rest =~= esc_at(s, ctx, i + 1) + escape_from(s, ctx, i + 2));
                assert(w[1] == s[i + 1]);
                assert(false);
            }
            assert(w.skip(1) =~= rest);
            assert(unescape(w) == seq![s[i]] + unescape(rest));
            assert(seq![s[i]] + s.skip(i + 1) =~= s.skip(i));
        }
    }
}

/// Round-trip half of minimal escaping: reading the escaped run back under
/// the grammar's unescaping yields the original run, character for
/// character — the pass changes form, never content.
pub proof fn lemma_escape_reads_back(s: Seq<char>, ctx: EscapeCtx)
    ensures
        unescape(escape_seq(s, ctx)) == s,
{
    lemma_escape_reads_back_from(s, ctx, 0);
    assert(s.skip(0) =~= s);
}

proof fn lemma_escape_count_from(s: Seq<char>, ctx: EscapeCtx, i: int)
    requires
        0 <= i <= s.len(),
    ensures
        escape_from(s, ctx, i).len() == s.len() - i + marked_count(s, ctx, i),
    decreases s.len() - i,
{
    if i < s.len() {
        lemma_escape_count_from(s, ctx, i + 1);
    }
}

/// Minimality half: the escaped run holds exactly one backslash per position
/// the ambiguity rules mark, and not one more — no character carries an
/// escape unless leaving it bare would change how the text reads back.
pub proof fn lemma_escape_minimal(s: Seq<char>, ctx: EscapeCtx)
    ensures
        escape_seq(s, ctx).len() == s.len() + marked_count(s, ctx, 0),
{
    lemma_escape_count_from(s, ctx, 0);
}

} // verus!
