//! Fixture-driven testing support: parses the dot-separated fixture format —
//! a description line, a line holding only `.`, input lines, a dot line,
//! expected lines, a dot line — and runs the formatter over every case,
//! collecting the mismatches.

use vstd::prelude::*;

use crate::text::{chars_string, is_md_whitespace, md_whitespace, str_chars};
use crate::{format_string_spec, FormatterConfig, MarkdownFormatter};

verus! {

/// One fixture case: a description, the input document, and the text the
/// formatter is expected to produce.
pub struct TestCase {
    pub description: String,
    pub input: String,
    pub expected: String,
}

/// One mismatch: the case, and what the formatter actually produced.
pub struct TestFailure {
    pub description: String,
    pub input: String,
    pub expected: String,
    pub actual: String,
}

/// Every mismatch of one fixture file.
pub struct TestFailures {
    pub file_name: String,
    pub failures: Vec<TestFailure>,
}

/// One mismatch written out: its description, input, expected and actual
/// text, each on its own labelled block.
pub open spec fn failure_text(f: (Seq<char>, Seq<char>, Seq<char>, Seq<char>)) -> Seq<char> {
    "\n\ndescription: "@ + f.0 + "\ninput:\n"@ + f.1 + "\nexpected:\n"@ + f.2 + "\nactual:\n"@
        + f.3
}

/// The first `i` mismatches written out, in order.
pub open spec fn failures_text(
    fs: Seq<(Seq<char>, Seq<char>, Seq<char>, Seq<char>)>,
    i: int,
) -> Seq<char>
    decreases i,
{
    if i <= 0 {
        Seq::empty()
    } else {
        failures_text(fs, i - 1) + failure_text(fs[i - 1])
    }
}

impl TestFailures {
    /// The full diagnostic: the file's name, then every mismatch with its
    /// description, input, expected and actual text.
    pub fn message(&self) -> (r: String)
        ensures
            r@ == "test failures in "@ + self.file_name@ + failures_text(
                self.failures@.map_values(|x: TestFailure| x.model()),
                self.failures@.len() as int,
            ),
    {
        let ghost fs = self.failures@.map_values(|x: TestFailure| x.model());
        let mut m = String::from_str("test failures in ");
        m.append(self.file_name.as_str());
        let mut i: usize = 0;
        while i < self.failures.len()
            invariant
                i <= self.failures@.len(),
                fs == self.failures@.map_values(|x: TestFailure| x.model()),
                m@ == "test failures in "@ + self.file_name@ + failures_text(fs, i as int),
            decreases self.failures@.len() - i,
        {
            let f = &self.failures[i];
            m.append("\n\ndescription: ");
            m.append(f.description.as_str());
            m.append("\ninput:\n");
            m.append(f.input.as_str());
            m.append("\nexpected:\n");
            m.append(f.expected.as_str());
            m.append("\nactual:\n");
            m.append(f.actual.as_str());
            proof {
                assert(fs[i as int] == self.failures@[i as int].model());
                assert(m@ =~= "test failures in "@ + self.file_name@ + failures_text(
                    fs,
                    i as int + 1,
                ));
            }
            i = i + 1;
        }
        m
    }
}

impl TestCase {
    /// The ghost image of a case: description, input, expected.
    pub open spec fn model(self) -> (Seq<char>, Seq<char>, Seq<char>) {
        (self.description@, self.input@, self.expected@)
    }
}

impl TestFailure {
    /// The ghost image of a mismatch: description, input, expected, actual.
    pub open spec fn model(self) -> (Seq<char>, Seq<char>, Seq<char>, Seq<char>) {
        (self.description@, self.input@, self.expected@, self.actual@)
    }
}

/// Leading whitespace removed.
pub open spec fn trim_lead_ws(s: Seq<char>) -> Seq<char>
    decreases s.len(),
{
    if s.len() > 0 && is_md_whitespace(s[0]) {
        trim_lead_ws(s.skip(1))
    } else {
        s
    }
}

/// Trailing whitespace removed.
pub open spec fn trim_trail_ws(s: Seq<char>) -> Seq<char>
    decreases s.len(),
{
    if s.len() > 0 && is_md_whitespace(s[s.len() - 1]) {
        trim_trail_ws(s.drop_last())
    } else {
        s
    }
}

/// Whitespace removed from both ends.
pub open spec fn trim_ws(s: Seq<char>) -> Seq<char> {
    trim_trail_ws(trim_lead_ws(s))
}

/// Trims whitespace from both ends of a character vector.
pub fn trim_chars(v: &Vec<char>) -> (r: Vec<char>)
    ensures
        r@ == trim_ws(v@),
{
    let mut a: usize = 0;
    proof {
        assert(v@.skip(0) =~= v@);
    }
    while a < v.len() && md_whitespace(v[a])
        invariant
            a <= v.len(),
            trim_lead_ws(v@) == trim_lead_ws(v@.skip(a as int)),
        decreases v.len() - a,
    {
        proof {
            assert(v@.skip(a as int)[0] == v@[a as int]);
            assert(v@.skip(a as int).skip(1) =~= v@.skip(a as int + 1));
        }
        a = a + 1;
    }
    proof {
        if a < v.len() {
            assert(v@.skip(a as int)[0] == v@[a as int]);
        }
        assert(trim_lead_ws(v@) == v@.skip(a as int));
    }
    let mut b: usize = v.len();
    while b > a && md_whitespace(v[b - 1])
        invariant
            a <= b <= v.len(),
            trim_trail_ws(v@.skip(a as int)) == trim_trail_ws(v@.subrange(a as int, b as int)),
        decreases b,
    {
        proof {
            let cur = v@.subrange(a as int, b as int);
            assert(cur[cur.len() - 1] == v@[b - 1]);
            assert(cur.drop_last() =~= v@.subrange(a as int, b as int - 1));
        }
        b = b - 1;
    }
    proof {
        let cur = v@.subrange(a as int, b as int);
        if b > a {
            assert(cur[cur.len() - 1] == v@[b - 1]);
        }
        assert(trim_trail_ws(cur) == cur);
    }
    let mut r: Vec<char> = Vec::new();
    let mut j: usize = a;
    while j < b
        invariant
            a <= j <= b <= v.len(),
            r@ == v@.subrange(a as int, j as int),
        decreases b - j,
    {
        r.push(v[j]);
        assert(r@ =~= v@.subrange(a as int, j as int + 1));
        j = j + 1;
    }
    r
}

/// The fixture scanner's state: the finished cases, which section of a case
/// is open (description, input, or expected), the line being read, the lines
/// of the open section, and the line before.
#[verifier::ext_equal]
pub struct FixState {
    pub cases: Seq<(Seq<char>, Seq<char>, Seq<char>)>,
    pub section: nat,
    pub cur: Seq<char>,
    pub buf: Seq<char>,
    pub buf_any: bool,
    pub prev: Seq<char>,
}

/// The scanner before any character.
pub open spec fn fix_init() -> FixState {
    FixState {
        cases: Seq::empty(),
        section: 0,
        cur: Seq::empty(),
        buf: Seq::empty(),
        buf_any: false,
        prev: Seq::empty(),
    }
}

/// One finished line: a dot line moves the scanner to the next section —
/// opening a case with the preceding line as its description, or closing the
/// input or expected text with the joined lines read since the last dot —
/// and any other line joins the open section.
pub open spec fn fix_line(st: FixState, l: Seq<char>) -> FixState {
    if trim_ws(l) == seq!['.'] {
        let cases = if st.section == 0 {
            st.cases.push((trim_ws(st.prev), Seq::<char>::empty(), Seq::<char>::empty()))
        } else if st.cases.len() == 0 {
            st.cases
        } else if st.section == 1 {
            st.cases.update(
                st.cases.len() - 1,
                (st.cases.last().0, st.buf, st.cases.last().2),
            )
        } else {
            st.cases.update(
                st.cases.len() - 1,
                (st.cases.last().0, st.cases.last().1, st.buf),
            )
        };
        FixState {
            cases: cases,
            section: if st.section >= 2 {
                0
            } else {
                st.section + 1
            },
            cur: Seq::empty(),
            buf: Seq::empty(),
            buf_any: false,
            prev: l,
        }
    } else {
        FixState {
            cases: st.cases,
            section: st.section,
            cur: Seq::empty(),
            buf: if st.buf_any {
                st.buf + seq!['\n'] + l
            } else {
                l
            },
            buf_any: true,
            prev: l,
        }
    }
}

/// One character of the scan.
pub open spec fn fix_step(st: FixState, c: char) -> FixState {
    if c == '\n' {
        fix_line(st, st.cur)
    } else {
        FixState {
            cases: st.cases,
            section: st.section,
            cur: st.cur.push(c),
            buf: st.buf,
            buf_any: st.buf_any,
            prev: st.prev,
        }
    }
}

/// The scanner's state after the first `i` characters.
pub open spec fn fix_fold(s: Seq<char>, i: int) -> FixState
    decreases i,
{
    if i <= 0 {
        fix_init()
    } else {
        fix_step(fix_fold(s, i - 1), s[i - 1])
    }
}

/// The cases a fixture text holds: the scan of all its characters, with a
/// final unterminated line counted as a line.
pub open spec fn read_fixture_spec(s: Seq<char>) -> Seq<(Seq<char>, Seq<char>, Seq<char>)> {
    let st = fix_fold(s, s.len() as int);
    if st.cur.len() > 0 {
        fix_line(st, st.cur).cases
    } else {
        st.cases
    }
}

/// Parses a fixture text into its cases, exactly as [`read_fixture_spec`]
/// describes.
pub fn read_fixture_file(text: &str) -> (r: Vec<TestCase>)
    ensures
        r@.map_values(|c: TestCase| c.model()) == read_fixture_spec(text@),
{
    let chars = str_chars(text);
    let mut cases: Vec<TestCase> = Vec::new();
    let mut section: usize = 0;
    let mut cur: Vec<char> = Vec::new();
    let mut buf: Vec<char> = Vec::new();
    let mut buf_any: bool = false;
    let mut prev: Vec<char> = Vec::new();
    let mut i: usize = 0;
    while i < chars.len()
        invariant
            i <= chars@.len(),
            section <= 2,
            fix_fold(chars@, i as int) == (FixState {
                cases: cases@.map_values(|c: TestCase| c.model()),
                section: section as nat,
                cur: cur@,
                buf: buf@,
                buf_any,
                prev: prev@,
            }),
        decreases chars.len() - i,
    {
        let ghost st_i = fix_fold(chars@, i as int);
        let c = chars[i];
        if c == '\n' {
            exec_fix_line(&mut cases, &mut section, &mut buf, &mut buf_any, &mut prev, cur);
            cur = Vec::new();
            proof {
                let st0 = FixState { cur: Seq::empty(), ..st_i };
                assert(fix_line(st_i, st_i.cur) =~= fix_line(st0, st_i.cur));
            }
        } else {
            cur.push(c);
        }
        proof {
            assert(fix_fold(chars@, i + 1) == fix_step(st_i, chars@[i as int]));
            assert(fix_fold(chars@, i + 1) =~= (FixState {
                cases: cases@.map_values(|c: TestCase| c.model()),
                section: section as nat,
                cur: cur@,
                buf: buf@,
                buf_any,
                prev: prev@,
            }));
        }
        i = i + 1;
    }
    let ghost st_end = fix_fold(chars@, chars@.len() as int);
    if cur.len() > 0 {
        exec_fix_line(&mut cases, &mut section, &mut buf, &mut buf_any, &mut prev, cur);
        proof {
            let st0 = FixState { cur: Seq::empty(), ..st_end };
            assert(fix_line(st_end, st_end.cur) =~= fix_line(st0, st_end.cur));
        }
    }
    cases
}

/// Applies [`fix_line`] to the executable state.
fn exec_fix_line(
    cases: &mut Vec<TestCase>,
    section: &mut usize,
    buf: &mut Vec<char>,
    buf_any: &mut bool,
    prev: &mut Vec<char>,
    l: Vec<char>,
)
    requires
        *old(section) <= 2,
    ensures
        *final(section) <= 2,
        fix_line(
            (FixState {
                cases: old(cases)@.map_values(|c: TestCase| c.model()),
                section: *old(section) as nat,
                cur: Seq::empty(),
                buf: old(buf)@,
                buf_any: *old(buf_any),
                prev: old(prev)@,
            }),
            l@,
        ) == (FixState {
            cases: final(cases)@.map_values(|c: TestCase| c.model()),
            section: *final(section) as nat,
            cur: Seq::empty(),
            buf: final(buf)@,
            buf_any: *final(buf_any),
            prev: final(prev)@,
        }),
{
    let ghost pre = cases@.map_values(|c: TestCase| c.model());
    let trimmed = trim_chars(&l);
    let is_dot = trimmed.len() == 1 && trimmed[0] == '.';
    proof {
        assert(trimmed@ =~= trim_ws(l@));
        if is_dot {
            assert(trim_ws(l@) =~= seq!['.']);
        } else {
            assert(!(trim_ws(l@) =~= seq!['.']));
        }
    }
    if is_dot {
        if *section == 0 {
            let d = trim_chars(prev);
            let tc = TestCase {
                description: chars_string(&d),
                input: String::new(),
                expected: String::new(),
            };
            cases.push(tc);
            proof {
                assert(cases@.map_values(|c: TestCase| c.model()) =~= pre.push(
                    (trim_ws(prev@), Seq::<char>::empty(), Seq::<char>::empty()),
                ));
            }
        } else if cases.len() > 0 {
            let popped = cases.pop();
            match popped {
                Option::Some(tc) => {
                    let filled = chars_string(buf);
                    let tc2 = if *section == 1 {
                        TestCase {
                            description: tc.description,
                            input: filled,
                            expected: tc.expected,
                        }
                    } else {
                        TestCase { description: tc.description, input: tc.input, expected: filled }
                    };
                    cases.push(tc2);
                    proof {
                        assert(cases@.map_values(|c: TestCase| c.model()) =~= pre.update(
                            pre.len() - 1,
                            if *section == 1 {
                                (pre.last().0, buf@, pre.last().2)
                            } else {
                                (pre.last().0, pre.last().1, buf@)
                            },
                        ));
                    }
                },
                Option::None => {
                    proof {
                        assert(false);
                    }
                },
            }
        }
        if *section >= 2 {
            *section = 0;
        } else {
            *section = *section + 1;
        }
        *buf = Vec::new();
        *buf_any = false;
        *prev = l;
    } else {
        if *buf_any {
            buf.push('\n');
            crate::text::app_vec(buf, &l);
        } else {
            *buf = clone_line(&l);
        }
        *buf_any = true;
        *prev = l;
        proof {
            assert(cases@.map_values(|c: TestCase| c.model()) =~= pre);
        }
    }
}

/// A fresh copy of one line.
fn clone_line(l: &Vec<char>) -> (r: Vec<char>)
    ensures
        r@ == l@,
{
    crate::render::copy_chars(l)
}

/// One case passes when the formatter's output and the expected text agree
/// up to surrounding whitespace.
pub open spec fn case_passes(
    c: (Seq<char>, Seq<char>, Seq<char>),
    cfg: FormatterConfig,
) -> bool {
    trim_ws(format_string_spec(c.1, cfg)) == trim_ws(c.2)
}

/// The failing cases among the first `i`, in order, each with the output
/// the formatter produces for its input.
pub open spec fn failing_cases(
    cases: Seq<(Seq<char>, Seq<char>, Seq<char>)>,
    cfg: FormatterConfig,
    i: int,
) -> Seq<(Seq<char>, Seq<char>, Seq<char>, Seq<char>)>
    decreases i,
{
    if i <= 0 {
        Seq::empty()
    } else {
        let rest = failing_cases(cases, cfg, i - 1);
        let c = cases[i - 1];
        if case_passes(c, cfg) {
            rest
        } else {
            rest.push((c.0, c.1, c.2, format_string_spec(c.1, cfg)))
        }
    }
}

/// Runs every case of a fixture text through the formatter: succeeds when
/// each case's formatted input matches its expected text up to surrounding
/// whitespace, and otherwise hands back the file's name with exactly the
/// failing cases, in fixture order, each carrying its description, input,
/// expected text and the output actually produced.
pub fn run_tests_from_file(file_name: &str, fixture: &str, config: FormatterConfig) -> (r: Result<
    (),
    TestFailures,
>)
    ensures
        r is Ok <==> (forall|i: int|
            0 <= i < read_fixture_spec(fixture@).len() ==> case_passes(
                #[trigger] read_fixture_spec(fixture@)[i],
                config,
            )),
        r matches Err(f) ==> f.file_name@ == file_name@ && f.failures@.len() > 0
            && f.failures@.map_values(|x: TestFailure| x.model()) == failing_cases(
            read_fixture_spec(fixture@),
            config,
            read_fixture_spec(fixture@).len() as int,
        ),
{
    let cases = read_fixture_file(fixture);
    let formatter = MarkdownFormatter::new(&config);
    let mut failures: Vec<TestFailure> = Vec::new();
    let mut i: usize = 0;
    let ghost spec_cases = read_fixture_spec(fixture@);
    proof {
        assert(spec_cases.len() == cases@.len());
    }
    while i < cases.len()
        invariant
            i <= cases@.len(),
            spec_cases == read_fixture_spec(fixture@),
            spec_cases == cases@.map_values(|c: TestCase| c.model()),
            *formatter.config == config,
            failures@.map_values(|x: TestFailure| x.model()) == failing_cases(
                spec_cases,
                config,
                i as int,
            ),
            (failures@.len() == 0) <==> (forall|j: int|
                0 <= j < i ==> case_passes(#[trigger] spec_cases[j], config)),
        decreases cases.len() - i,
    {
        let case = &cases[i];
        let actual = formatter.format_string(case.input.as_str());
        let at = trim_chars(&str_chars(actual.as_str()));
        let et = trim_chars(&str_chars(case.expected.as_str()));
        let same = chars_eq(&at, &et);
        proof {
            assert(spec_cases[i as int] == cases@[i as int].model());
            assert(same == case_passes(spec_cases[i as int], config));
        }
        if !same {
            let ghost pre_f = failures@.map_values(|x: TestFailure| x.model());
            failures.push(
                TestFailure {
                    description: clone_string(&case.description),
                    input: clone_string(&case.input),
                    expected: clone_string(&case.expected),
                    actual,
                },
            );
            proof {
                assert(failures@.map_values(|x: TestFailure| x.model()) =~= pre_f.push(
                    (
                        spec_cases[i as int].0,
                        spec_cases[i as int].1,
                        spec_cases[i as int].2,
                        format_string_spec(spec_cases[i as int].1, config),
                    ),
                ));
            }
        }
        i = i + 1;
    }
    if failures.len() == 0 {
        Result::Ok(())
    } else {
        Result::Err(TestFailures { file_name: String::from_str(file_name), failures })
    }
}

/// Equality of two character vectors.
fn chars_eq(a: &Vec<char>, b: &Vec<char>) -> (r: bool)
    ensures
        r == (a@ == b@),
{
    if a.len() != b.len() {
        proof {
            assert(a@ != b@);
        }
        return false;
    }
    let mut i: usize = 0;
    while i < a.len()
        invariant
            i <= a@.len(),
            a@.len() == b@.len(),
            forall|j: int| 0 <= j < i ==> a@[j] == b@[j],
        decreases a.len() - i,
    {
        if a[i] != b[i] {
            return false;
        }
        i = i + 1;
    }
    proof {
        assert(a@ =~= b@);
    }
    true
}

/// A fresh copy of a string.
fn clone_string(s: &String) -> (r: String)
    ensures
        r@ == s@,
{
    String::from_str(s.as_str())
}

} // verus!
