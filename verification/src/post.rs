//! The post-processor: a final text-to-text pass over the rendered document.
//! It trims trailing whitespace from every line, collapses any run of two or
//! more blank lines between blocks to exactly one, trims leading whitespace
//! and blank lines at the start of the document and all whitespace at its
//! end. [`normalize`] additionally guarantees a single trailing newline and
//! rewrites line terminators for the configured end-of-line style.
//!
//! The pass is modelled as a fold over the characters with a small explicit
//! state: committed output, a capped count of pending newlines, and a pending
//! run of line-internal whitespace. The lemmas at the end state that the
//! output is in canonical form, that canonical text is left unchanged — so
//! the pass is idempotent — and that no two consecutive blank lines survive.

use vstd::prelude::*;

use crate::text::{char_run, chars_string, is_md_whitespace, md_whitespace, str_chars};

verus! {

/// The fold state: `out` is committed text, `nls` counts pending newlines
/// (capped at two, which is one blank line), `tail` is pending
/// line-internal whitespace after those newlines, and `content` says whether
/// anything has been committed yet.
pub struct PostState {
    pub out: Seq<char>,
    pub nls: nat,
    pub tail: Seq<char>,
    pub content: bool,
}

/// The state before any character.
pub open spec fn post_init() -> PostState {
    PostState { out: Seq::empty(), nls: 0, tail: Seq::empty(), content: false }
}

/// One character of the pass. A newline discards pending line-internal
/// whitespace (trailing-line trim) and caps the pending newlines at two
/// (blank-line collapse); other whitespace joins the pending run; a content
/// character commits what is pending — unless nothing was committed yet, in
/// which case the pending whitespace is leading and is dropped.
pub open spec fn post_step(st: PostState, c: char) -> PostState {
    if c == '\n' {
        PostState {
            out: st.out,
            nls: if st.nls >= 2 {
                2
            } else {
                st.nls + 1
            },
            tail: Seq::empty(),
            content: st.content,
        }
    } else if is_md_whitespace(c) {
        PostState { out: st.out, nls: st.nls, tail: st.tail.push(c), content: st.content }
    } else {
        PostState {
            out: st.out + (if st.content {
                char_run('\n', st.nls) + st.tail
            } else {
                Seq::empty()
            }) + seq![c],
            nls: 0,
            tail: Seq::empty(),
            content: true,
        }
    }
}

/// The state after the first `i` characters of `s`.
pub open spec fn post_fold(s: Seq<char>, i: int) -> PostState
    decreases i,
{
    if i <= 0 {
        post_init()
    } else {
        post_step(post_fold(s, i - 1), s[i - 1])
    }
}

/// What the pass makes of a whole text: the committed output; whatever is
/// still pending at the end is trailing whitespace and is dropped.
pub open spec fn post_spec(s: Seq<char>) -> Seq<char> {
    post_fold(s, s.len() as int).out
}

/// Runs the pass over a character vector, exactly as [`post_spec`] describes.
pub fn post_chars(s: &Vec<char>) -> (out: Vec<char>)
    ensures
        out@ == post_spec(s@),
{
    let mut out: Vec<char> = Vec::new();
    let mut nls: usize = 0;
    let mut tail: Vec<char> = Vec::new();
    let mut content: bool = false;
    let mut i: usize = 0;
    while i < s.len()
        invariant
            i <= s.len(),
            post_fold(s@, i as int) == (PostState {
                out: out@,
                nls: nls as nat,
                tail: tail@,
                content,
            }),
            nls <= 2,
        decreases s.len() - i,
    {
        let c = s[i];
        let ghost pre = out@;
        if c == '\n' {
            if nls < 2 {
                nls = nls + 1;
            }
            tail.clear();
        } else if md_whitespace(c) {
            tail.push(c);
        } else {
            if content {
                crate::text::app_repeat(&mut out, '\n', nls);
                crate::text::app_vec(&mut out, &tail);
                out.push(c);
                assert(out@ =~= pre + (char_run('\n', nls as nat) + tail@) + seq![c]);
            } else {
                out.push(c);
                assert(out@ =~= pre + Seq::<char>::empty() + seq![c]);
            }
            nls = 0;
            tail.clear();
            content = true;
        }
        i = i + 1;
        assert(post_fold(s@, i as int) == post_step(post_fold(s@, i - 1), s@[i - 1]));
    }
    out
}

/// Exactly one trailing newline: the trimmed text never ends in one, so
/// appending one leaves exactly one.
pub open spec fn with_trailing_newline(s: Seq<char>) -> Seq<char> {
    s + seq!['\n']
}

/// The trailing-trim, blank-line-collapse and edge-trim pass on a string,
/// closed by exactly one trailing newline.
pub fn post_process_markdown(input: &str) -> (r: String)
    ensures
        r@ == with_trailing_newline(post_spec(input@)),
{
    let chars = str_chars(input);
    let mut out = post_chars(&chars);
    out.push('\n');
    proof {
        assert(out@ =~= with_trailing_newline(post_spec(input@)));
    }
    chars_string(&out)
}

/// Line terminators under the end-of-line policy: carriage-return–newline
/// pairs when `crlf` is set, bare newlines otherwise.
pub open spec fn eol_expand(s: Seq<char>, crlf: bool) -> Seq<char>
    decreases s.len(),
{
    if s.len() == 0 {
        Seq::empty()
    } else {
        (if s[0] == '\n' && crlf {
            seq!['\r', '\n']
        } else {
            seq![s[0]]
        }) + eol_expand(s.skip(1), crlf)
    }
}

/// The full normalization of rendered text: the [`post_spec`] passes, then
/// exactly one trailing newline on nonempty output, then the end-of-line
/// rewrite.
pub open spec fn normalize_spec(s: Seq<char>, crlf: bool) -> Seq<char> {
    eol_expand(with_trailing_newline(post_spec(s)), crlf)
}

/// Normalizes rendered text, exactly as [`normalize_spec`] describes.
pub fn normalize(text: &str, crlf: bool) -> (r: String)
    ensures
        r@ == normalize_spec(text@, crlf),
{
    let chars = str_chars(text);
    let mut core = post_chars(&chars);
    core.push('\n');
    assert(core@ =~= with_trailing_newline(post_spec(text@)));
    let mut out: Vec<char> = Vec::new();
    let mut i: usize = 0;
    proof {
        assert(core@.skip(0) =~= core@);
    }
    while i < core.len()
        invariant
            i <= core.len(),
            out@ + eol_expand(core@.skip(i as int), crlf) == eol_expand(core@, crlf),
        decreases core.len() - i,
    {
        let ghost pre = out@;
        let c = core[i];
        proof {
            assert(core@.skip(i as int)[0] == core@[i as int]);
            assert(core@.skip(i as int).skip(1) =~= core@.skip(i as int + 1));
        }
        if c == '\n' && crlf {
            out.push('\r');
            out.push('\n');
            assert(out@ =~= pre + seq!['\r', '\n']);
        } else {
            out.push(c);
            assert(out@ =~= pre + seq![c]);
        }
        assert(out@ + eol_expand(core@.skip(i as int + 1), crlf) =~= eol_expand(core@, crlf));
        i = i + 1;
    }
    proof {
        assert(core@.skip(core@.len() as int) =~= Seq::<char>::empty());
        assert(out@ =~= eol_expand(core@, crlf));
    }
    chars_string(&out)
}

/// No line ends in whitespace: a newline is never preceded by line-internal
/// whitespace.
pub open spec fn no_line_trailing_ws(s: Seq<char>) -> bool {
    forall|i: int|
        0 < i < s.len() && #[trigger] s[i] == '\n' ==> s[i - 1] == '\n' || !is_md_whitespace(
            s[i - 1],
        )
}

/// No two consecutive blank lines: the text never holds three newlines in a
/// row.
pub open spec fn no_double_blank(s: Seq<char>) -> bool {
    forall|i: int|
        0 <= i && i + 2 < s.len() ==> !(#[trigger] s[i] == '\n' && s[i + 1] == '\n' && s[i + 2]
            == '\n')
}

/// Canonical form: no line-trailing whitespace, no two consecutive blank
/// lines, and no whitespace at either edge of the document.
pub open spec fn is_clean(s: Seq<char>) -> bool {
    &&& no_line_trailing_ws(s)
    &&& no_double_blank(s)
    &&& (s.len() > 0 ==> !is_md_whitespace(s[0]))
    &&& (s.len() > 0 ==> !is_md_whitespace(s[s.len() - 1]))
}

/// What the fold keeps true of its state, on any input.
spec fn inv_clean(st: PostState) -> bool {
    &&& st.content == (st.out.len() > 0)
    &&& st.out.len() > 0 ==> !is_md_whitespace(st.out[0])
    &&& st.out.len() > 0 ==> !is_md_whitespace(st.out[st.out.len() - 1]) && st.out[st.out.len()
        - 1] != '\n'
    &&& no_line_trailing_ws(st.out)
    &&& no_double_blank(st.out)
    &&& st.nls <= 2
    &&& forall|j: int|
        0 <= j < st.tail.len() ==> is_md_whitespace(#[trigger] st.tail[j]) && st.tail[j] != '\n'
}

proof fn lemma_inv_clean_step(st: PostState, c: char)
    requires
        inv_clean(st),
    ensures
        inv_clean(post_step(st, c)),
{
    let st2 = post_step(st, c);
    if c != '\n' && !is_md_whitespace(c) {
        let mid: Seq<char> = if st.content {
            char_run('\n', st.nls) + st.tail
        } else {
            Seq::empty()
        };
        let w = st.out + mid + seq![c];
        assert(st2.out == w);
        assert(w[w.len() - 1] == c);
        assert(w.len() > 0 ==> !is_md_whitespace(w[0])) by {
            if st.out.len() > 0 {
                assert(w[0] == st.out[0]);
            } else {
                assert(mid =~= Seq::<char>::empty());
                assert(w[0] == c);
            }
        }
        assert forall|i: int| 0 < i < w.len() && #[trigger] w[i] == '\n' implies w[i - 1] == '\n'
            || !is_md_whitespace(w[i - 1]) by {
            if i < st.out.len() {
                assert(w[i] == st.out[i] && w[i - 1] == st.out[i - 1]);
            } else if i < st.out.len() + mid.len() {
                // inside `mid`: newlines stand only in its leading run
                let k = i - st.out.len();
                assert(mid[k] == '\n' ==> k < st.nls);
                if mid[k] == '\n' {
                    if k == 0 {
                        assert(w[i - 1] == st.out[st.out.len() - 1]);
                        assert(!is_md_whitespace(w[i - 1]));
                    } else {
                        assert(w[i - 1] == mid[k - 1]);
                        assert(mid[k - 1] == '\n');
                    }
                }
            } else {
                assert(w[i] == c);
            }
        }
        assert forall|i: int| 0 <= i && i + 2 < w.len() implies !(#[trigger] w[i] == '\n' && w[i
            + 1] == '\n' && w[i + 2] == '\n') by {
            if i + 2 < st.out.len() {
                assert(w[i] == st.out[i] && w[i + 1] == st.out[i + 1] && w[i + 2] == st.out[i
                    + 2]);
            } else if i < st.out.len() {
                // the window crosses from `out` into `mid`: it holds the last
                // character of `out`, which is not a newline
                assert(w[st.out.len() - 1] == st.out[st.out.len() - 1]);
                assert(i <= st.out.len() - 1 <= i + 2);
            } else {
                // the window lies in `mid + [c]`: at most two newlines lead
                // `mid`, and what follows them is not a newline
                let k = i - st.out.len();
                assert(mid.len() <= st.nls + st.tail.len());
                if k + 2 < mid.len() {
                    assert(w[i + 2] == mid[k + 2]);
                    assert(mid[k + 2] == '\n' ==> k + 2 < st.nls);
                    assert(k + 2 < st.nls ==> false) by {
                        assert(st.nls <= 2);
                    }
                } else {
                    assert(w[i + 2] == c || w[i + 2] == mid[k + 2]);
                }
            }
        }
    } else {
        // a whitespace step leaves the committed output unchanged
        assert(st2.out == st.out);
    }
}

proof fn lemma_inv_clean_fold(s: Seq<char>, i: int)
    ensures
        inv_clean(post_fold(s, i)),
    decreases
            if i <= 0 {
                0
            } else {
                i
            },
{
    if i <= 0 {
        assert(post_fold(s, i) == post_init());
    } else {
        lemma_inv_clean_fold(s, i - 1);
        lemma_inv_clean_step(post_fold(s, i - 1), s[i - 1]);
    }
}

/// The pass always leaves its output in canonical form.
pub proof fn lemma_post_canonical(s: Seq<char>)
    ensures
        is_clean(post_spec(s)),
{
    lemma_inv_clean_fold(s, s.len() as int);
}

/// Blank-line collapse: whatever the input held, the output never has two
/// consecutive blank lines — every longer run was collapsed.
pub proof fn lemma_blank_line_collapse(s: Seq<char>)
    ensures
        no_double_blank(post_spec(s)),
{
    lemma_post_canonical(s);
}

/// What the fold keeps true of its state on a canonical input: nothing is
/// ever dropped, so committed output and pending whitespace together are
/// exactly the prefix read so far.
spec fn inv_fixed(s: Seq<char>, i: int, st: PostState) -> bool {
    &&& st.out + char_run('\n', st.nls) + st.tail == s.take(i)
    &&& st.content == (st.out.len() > 0)
    &&& st.out.len() > 0 ==> !is_md_whitespace(st.out[st.out.len() - 1])
    &&& st.nls <= 2
    &&& forall|j: int|
        0 <= j < st.tail.len() ==> is_md_whitespace(#[trigger] st.tail[j]) && st.tail[j] != '\n'
    &&& (st.nls > 0 || st.tail.len() > 0) ==> st.content
}

proof fn lemma_inv_fixed_step(s: Seq<char>, i: int)
    requires
        is_clean(s),
        0 <= i < s.len(),
        inv_fixed(s, i, post_fold(s, i)),
    ensures
        inv_fixed(s, i + 1, post_fold(s, i + 1)),
{
    let st = post_fold(s, i);
    let c = s[i];
    let pend = char_run('\n', st.nls) + st.tail;
    assert(s.take(i).len() == i);
    assert((st.out + pend).len() == st.out.len() + st.nls + st.tail.len());
    assert(st.out.len() + st.nls + st.tail.len() == i);
    assert forall|j: int| 0 <= j < i implies s[j] == (st.out + pend)[j] by {
        assert(s.take(i)[j] == s[j]);
    }
    if c == '\n' {
        // the line being closed cannot end in whitespace, and a third
        // newline in a row cannot occur, because `s` is canonical
        if st.tail.len() > 0 {
            assert(s[i - 1] == st.tail[st.tail.len() - 1]);
            assert(is_md_whitespace(s[i - 1]) && s[i - 1] != '\n');
            assert(false);
        }
        if st.nls >= 2 {
            assert(s[i - 1] == pend[st.nls - 1] && s[i - 2] == pend[st.nls - 2]);
            assert(s[i - 1] == '\n' && s[i - 2] == '\n');
            assert(false);
        }
        if !st.content {
            assert(st.out.len() == 0 && st.nls == 0 && st.tail.len() == 0);
            assert(i == 0);
            assert(is_md_whitespace(s[0]));
            assert(false);
        }
        assert(post_fold(s, i + 1).out + char_run('\n', post_fold(s, i + 1).nls) + post_fold(
            s,
            i + 1,
        ).tail =~= s.take(i + 1));
    } else if is_md_whitespace(c) {
        if !st.content {
            if i == 0 {
                assert(is_md_whitespace(s[0]));
                assert(false);
            } else {
                assert(st.out.len() == 0 && st.nls == 0 && st.tail.len() == 0);
                assert(s.take(i).len() == 0);
                assert(false);
            }
        }
        assert(post_fold(s, i + 1).out + char_run('\n', post_fold(s, i + 1).nls) + post_fold(
            s,
            i + 1,
        ).tail =~= s.take(i + 1));
    } else {
        if !st.content {
            assert(st.out.len() == 0);
            if i > 0 {
                assert(st.nls == 0 && st.tail.len() == 0);
                assert(s.take(i).len() == 0);
                assert(false);
            }
        }
        assert(post_fold(s, i + 1).out + char_run('\n', post_fold(s, i + 1).nls) + post_fold(
            s,
            i + 1,
        ).tail =~= s.take(i + 1));
    }
}

proof fn lemma_inv_fixed_fold(s: Seq<char>, i: int)
    requires
        is_clean(s),
        0 <= i <= s.len(),
    ensures
        inv_fixed(s, i, post_fold(s, i)),
    decreases i,
{
    if i == 0 {
        assert(post_fold(s, 0) == post_init());
        assert(post_init().out + char_run('\n', 0) + post_init().tail =~= s.take(0));
    } else {
        lemma_inv_fixed_fold(s, i - 1);
        lemma_inv_fixed_step(s, i - 1);
    }
}

/// Canonical text is a fixed point of the pass.
pub proof fn lemma_post_fixed(s: Seq<char>)
    requires
        is_clean(s),
    ensures
        post_spec(s) == s,
{
    lemma_inv_fixed_fold(s, s.len() as int);
    let st = post_fold(s, s.len() as int);
    assert(st.out + char_run('\n', st.nls) + st.tail == s.take(s.len() as int));
    assert(s.take(s.len() as int) =~= s);
    if st.nls > 0 || st.tail.len() > 0 {
        let pend = char_run('\n', st.nls) + st.tail;
        assert(s[s.len() - 1] == pend[pend.len() - 1]);
        assert(is_md_whitespace(s[s.len() - 1]));
        assert(false);
    }
    assert(st.out =~= s);
}

/// Idempotence of the pass: running it on its own output changes nothing.
pub proof fn lemma_post_idempotent(s: Seq<char>)
    ensures
        post_spec(post_spec(s)) == post_spec(s),
{
    lemma_post_canonical(s);
    lemma_post_fixed(post_spec(s));
}

} // verus!
