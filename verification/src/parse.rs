//! The configuration text format and its verified parser.
//!
//! The format is line-based. A line is blank, a comment starting with `#`,
//! a table header `[name]`, or a key assignment `key = "value"`. Tool
//! entries are the sub-tables of the `tool` table, written `[tool.name]`,
//! each with the two required string fields `source` and `target`; every
//! other table coexists unread. Values are double-quoted strings without
//! escape sequences. The home placeholder in a value is expanded at parse
//! time.

use vstd::prelude::*;
use vstd::string::StrSliceExecFns;
use vstd::string::StringExecFns;
use crate::config::Outer;
use crate::config::Tool;
use crate::config::ToolV;
use crate::errors::ConfigError;
use crate::errors::ConfigErrorV;
use crate::errors::FieldName;
use crate::errors::ParseError;
use crate::errors::ParseErrorV;
use crate::paths::MyPath;
use crate::paths::expand_home_path;
use crate::paths::expand_result;
use crate::paths::has_tilde;
use crate::paths::opt_view;

verus! {

/// Whitespace that may surround tokens on a line.
pub open spec fn is_space(c: char) -> bool {
    c == ' ' || c == '\t' || c == '\r'
}

/// `s` split at every newline; always at least one (possibly empty) line.
pub open spec fn spec_lines(s: Seq<char>) -> Seq<Seq<char>>
    decreases s.len(),
{
    if s.len() == 0 {
        seq![Seq::<char>::empty()]
    } else {
        let rest = spec_lines(s.drop_last());
        if s.last() == '\n' {
            rest.push(Seq::<char>::empty())
        } else {
            rest.update(rest.len() - 1, rest.last().push(s.last()))
        }
    }
}

/// `s` without leading whitespace.
pub open spec fn trim_left(s: Seq<char>) -> Seq<char>
    decreases s.len(),
{
    if s.len() > 0 && is_space(s[0]) {
        trim_left(s.drop_first())
    } else {
        s
    }
}

/// `s` without trailing whitespace.
pub open spec fn trim_right(s: Seq<char>) -> Seq<char>
    decreases s.len(),
{
    if s.len() > 0 && is_space(s.last()) {
        trim_right(s.drop_last())
    } else {
        s
    }
}

/// `s` without surrounding whitespace.
pub open spec fn trim(s: Seq<char>) -> Seq<char> {
    trim_right(trim_left(s))
}

/// The position of the first `c` in `s`, or `-1` when there is none.
pub open spec fn find_char(s: Seq<char>, c: char) -> int
    decreases s.len(),
{
    if s.len() == 0 {
        -1
    } else if s[0] == c {
        0
    } else {
        let r = find_char(s.drop_first(), c);
        if r < 0 {
            -1
        } else {
            1 + r
        }
    }
}

/// Whether `c` occurs in `s`.
pub open spec fn contains_char(s: Seq<char>, c: char) -> bool {
    exists|i: int| 0 <= i < s.len() && s[i] == c
}

/// What `find_char` finds: the first occurrence, or nothing to find.
proof fn lemma_find_char(s: Seq<char>, c: char)
    ensures
        -1 <= find_char(s, c) < s.len(),
        find_char(s, c) >= 0 ==> s[find_char(s, c)] == c && forall|j: int|
            0 <= j < find_char(s, c) ==> s[j] != c,
        find_char(s, c) == -1 ==> forall|j: int| 0 <= j < s.len() ==> s[j] != c,
    decreases s.len(),
{
    if s.len() == 0 {
    } else if s[0] == c {
    } else {
        lemma_find_char(s.drop_first(), c);
        let r = find_char(s.drop_first(), c);
        if r >= 0 {
            assert(s[1 + r] == s.drop_first()[r]);
            assert forall|j: int| 0 <= j < 1 + r implies s[j] != c by {
                if j > 0 {
                    assert(s.drop_first()[j - 1] == s[j]);
                }
            }
        } else {
            assert forall|j: int| 0 <= j < s.len() implies s[j] != c by {
                if j > 0 {
                    assert(s.drop_first()[j - 1] == s[j]);
                }
            }
        }
    }
}

/// Whether `inner` is exactly the recognized table name `tool`.
pub open spec fn is_tool_name(inner: Seq<char>) -> bool {
    inner.len() == 4 && inner[0] == 't' && inner[1] == 'o' && inner[2] == 'o' && inner[3] == 'l'
}

/// Whether `inner` starts with `tool.`, naming a sub-table of `tool`.
pub open spec fn is_tool_prefix(inner: Seq<char>) -> bool {
    inner.len() >= 5 && inner[0] == 't' && inner[1] == 'o' && inner[2] == 'o' && inner[3] == 'l'
        && inner[4] == '.'
}

/// Mathematical form of a classified configuration line.
pub ghost enum LineV {
    /// Blank or a comment: carries nothing.
    Blank,
    /// The header `[tool]`.
    ToolHeader,
    /// The header `[tool.name]` of one entry.
    EntryHeader { name: Seq<char> },
    /// Any other header; its section coexists unread.
    OtherHeader,
    /// `key = "value"`, with the quotes stripped from the value.
    KeyVal { key: Seq<char>, value: Seq<char> },
    /// A line in no accepted shape; carries its trimmed text.
    Bad { text: Seq<char> },
}

/// A classified configuration line.
enum Line {
    Blank,
    ToolHeader,
    EntryHeader { name: String },
    OtherHeader,
    KeyVal { key: String, value: String },
    Bad { text: String },
}

impl View for Line {
    type V = LineV;

    closed spec fn view(&self) -> LineV {
        match self {
            Line::Blank => LineV::Blank,
            Line::ToolHeader => LineV::ToolHeader,
            Line::EntryHeader { name } => LineV::EntryHeader { name: name@ },
            Line::OtherHeader => LineV::OtherHeader,
            Line::KeyVal { key, value } => LineV::KeyVal { key: key@, value: value@ },
            Line::Bad { text } => LineV::Bad { text: text@ },
        }
    }
}

/// How a trimmed header line `[...]` is read.
pub open spec fn classify_header(t: Seq<char>) -> LineV {
    if t.len() < 3 || t.last() != ']' {
        LineV::Bad { text: t }
    } else {
        let inner = t.subrange(1, t.len() - 1);
        if is_tool_name(inner) {
            LineV::ToolHeader
        } else if is_tool_prefix(inner) {
            let name = inner.subrange(5, inner.len() as int);
            if name.len() == 0 || contains_char(name, '.') {
                LineV::OtherHeader
            } else {
                LineV::EntryHeader { name }
            }
        } else {
            LineV::OtherHeader
        }
    }
}

/// How a trimmed key assignment is read: the key before the first `=`, the
/// value a double-quoted string free of quotes and backslashes.
pub open spec fn classify_keyval(t: Seq<char>) -> LineV {
    let i = find_char(t, '=');
    if i < 0 {
        LineV::Bad { text: t }
    } else {
        let key = trim(t.subrange(0, i));
        let val = trim(t.subrange(i + 1, t.len() as int));
        if key.len() == 0 {
            LineV::Bad { text: t }
        } else if val.len() < 2 || val[0] != '"' || val.last() != '"' {
            LineV::Bad { text: t }
        } else {
            let content = val.subrange(1, val.len() - 1);
            if contains_char(content, '"') || contains_char(content, '\\') {
                LineV::Bad { text: t }
            } else {
                LineV::KeyVal { key, value: content }
            }
        }
    }
}

/// How one configuration line is read.
pub open spec fn classify(line: Seq<char>) -> LineV {
    let t = trim(line);
    if t.len() == 0 {
        LineV::Blank
    } else if t[0] == '#' {
        LineV::Blank
    } else if t[0] == '[' {
        classify_header(t)
    } else {
        classify_keyval(t)
    }
}

/// `s` without leading whitespace.
fn trim_left_str(s: &str) -> (r: String)
    ensures
        r@ == trim_left(s@),
    decreases s@.len(),
{
    let n = s.unicode_len();
    if n > 0 {
        let c = s.get_char(0);
        if c == ' ' || c == '\t' || c == '\r' {
            let rest = s.substring_char(1, n);
            proof {
                assert(rest@ =~= s@.drop_first());
            }
            return trim_left_str(rest);
        }
    }
    s.to_owned()
}

/// `s` without trailing whitespace.
fn trim_right_str(s: &str) -> (r: String)
    ensures
        r@ == trim_right(s@),
    decreases s@.len(),
{
    let n = s.unicode_len();
    if n > 0 {
        let c = s.get_char(n - 1);
        if c == ' ' || c == '\t' || c == '\r' {
            let rest = s.substring_char(0, n - 1);
            proof {
                assert(rest@ =~= s@.drop_last());
            }
            return trim_right_str(rest);
        }
    }
    s.to_owned()
}

/// `s` without surrounding whitespace.
fn trim_string(s: &str) -> (r: String)
    ensures
        r@ == trim(s@),
{
    let l = trim_left_str(s);
    trim_right_str(l.as_str())
}

/// The position of the first `c` in `s`, if any.
fn find_char_str(s: &str, c: char) -> (r: Option<usize>)
    ensures
        (match r {
            Some(i) => find_char(s@, c) == i as int && i < s@.len(),
            None => find_char(s@, c) == -1,
        }),
{
    let n = s.unicode_len();
    let mut i: usize = 0;
    while i < n
        invariant
            n == s@.len(),
            i <= n,
            forall|j: int| 0 <= j < i ==> s@[j] != c,
        decreases n - i,
    {
        if s.get_char(i) == c {
            proof {
                lemma_find_char(s@, c);
            }
            return Some(i);
        }
        i = i + 1;
    }
    proof {
        lemma_find_char(s@, c);
    }
    None
}

/// Whether `c` occurs in `s`.
fn str_contains_char(s: &str, c: char) -> (b: bool)
    ensures
        b == contains_char(s@, c),
{
    let n = s.unicode_len();
    let mut i: usize = 0;
    while i < n
        invariant
            n == s@.len(),
            i <= n,
            forall|j: int| 0 <= j < i ==> s@[j] != c,
        decreases n - i,
    {
        if s.get_char(i) == c {
            return true;
        }
        i = i + 1;
    }
    false
}

/// Whether `s` is exactly `tool`.
fn str_is_tool(s: &str) -> (b: bool)
    ensures
        b == is_tool_name(s@),
{
    let n = s.unicode_len();
    n == 4 && s.get_char(0) == 't' && s.get_char(1) == 'o' && s.get_char(2) == 'o' && s.get_char(3)
        == 'l'
}

/// Whether `s` starts with `tool.`.
fn str_has_tool_prefix(s: &str) -> (b: bool)
    ensures
        b == is_tool_prefix(s@),
{
    let n = s.unicode_len();
    n >= 5 && s.get_char(0) == 't' && s.get_char(1) == 'o' && s.get_char(2) == 'o' && s.get_char(3)
        == 'l' && s.get_char(4) == '.'
}

/// Reads one configuration line.
fn classify_line(line: &str) -> (k: Line)
    ensures
        k@ == classify(line@),
{
    let t = trim_string(line);
    let n = t.as_str().unicode_len();
    if n == 0 {
        return Line::Blank;
    }
    let c0 = t.as_str().get_char(0);
    if c0 == '#' {
        return Line::Blank;
    }
    if c0 == '[' {
        if n < 3 || t.as_str().get_char(n - 1) != ']' {
            return Line::Bad { text: t };
        }
        let inner = t.as_str().substring_char(1, n - 1).to_owned();
        if str_is_tool(inner.as_str()) {
            Line::ToolHeader
        } else if str_has_tool_prefix(inner.as_str()) {
            let m = inner.as_str().unicode_len();
            let name = inner.as_str().substring_char(5, m).to_owned();
            if name.as_str().unicode_len() == 0 || str_contains_char(name.as_str(), '.') {
                Line::OtherHeader
            } else {
                Line::EntryHeader { name }
            }
        } else {
            Line::OtherHeader
        }
    } else {
        match find_char_str(t.as_str(), '=') {
            None => Line::Bad { text: t },
            Some(i) => {
                let key = trim_string(t.as_str().substring_char(0, i));
                let val = trim_string(t.as_str().substring_char(i + 1, n));
                let kl = key.as_str().unicode_len();
                let vl = val.as_str().unicode_len();
                if kl == 0 {
                    Line::Bad { text: t }
                } else if vl < 2 || val.as_str().get_char(0) != '"' || val.as_str().get_char(
                    vl - 1,
                ) != '"' {
                    Line::Bad { text: t }
                } else {
                    let content = val.as_str().substring_char(1, vl - 1).to_owned();
                    if str_contains_char(content.as_str(), '"') || str_contains_char(
                        content.as_str(),
                        '\\',
                    ) {
                        Line::Bad { text: t }
                    } else {
                        Line::KeyVal { key, value: content }
                    }
                }
            },
        }
    }
}

/// `text` split at every newline.
fn split_lines(text: &str) -> (lines: Vec<String>)
    ensures
        lines@.map_values(|l: String| l@) == spec_lines(text@),
{
    let n = text.unicode_len();
    let mut lines: Vec<String> = Vec::new();
    let mut cur = String::new();
    let mut i: usize = 0;
    proof {
        assert(lines@.map_values(|l: String| l@).push(cur@) =~= spec_lines(
            text@.subrange(0, 0),
        ));
    }
    while i < n
        invariant
            n == text@.len(),
            i <= n,
            lines@.map_values(|l: String| l@).push(cur@) == spec_lines(
                text@.subrange(0, i as int),
            ),
        decreases n - i,
    {
        let ghost old_map = lines@.map_values(|l: String| l@);
        let ghost old_cur = cur@;
        let c = text.get_char(i);
        if c == '\n' {
            lines.push(cur);
            cur = String::new();
        } else {
            cur.append(text.substring_char(i, i + 1));
        }
        proof {
            let pre = text@.subrange(0, i + 1);
            assert(pre.drop_last() =~= text@.subrange(0, i as int));
            assert(pre.last() == text@[i as int]);
            let rest = spec_lines(text@.subrange(0, i as int));
            if c == '\n' {
                assert(lines@.map_values(|l: String| l@) =~= old_map.push(old_cur));
                assert(lines@.map_values(|l: String| l@).push(cur@) =~= rest.push(
                    Seq::<char>::empty(),
                ));
            } else {
                assert(text@.subrange(i as int, i + 1) =~= seq![text@[i as int]]);
                assert(cur@ =~= old_cur.push(text@[i as int]));
                assert(rest.last() == old_cur);
                assert(lines@.map_values(|l: String| l@).push(cur@) =~= rest.update(
                    rest.len() - 1,
                    rest.last().push(text@[i as int]),
                ));
            }
        }
        i = i + 1;
    }
    lines.push(cur);
    proof {
        assert(text@.subrange(0, n as int) =~= text@);
        assert(lines@.map_values(|l: String| l@) =~= spec_lines(text@));
    }
    lines
}

/// Mathematical form of where the parser stands in the text.
pub ghost enum SectionV {
    /// Before any table header.
    Top,
    /// Directly under `[tool]`.
    ToolTable,
    /// Under a table that coexists unread.
    Other,
    /// Under `[tool.name]`, collecting the two required fields.
    Entry { name: Seq<char>, source: Option<Seq<char>>, target: Option<Seq<char>> },
}

/// Mathematical form of the parser state.
pub ghost struct StateV {
    pub seen_tool: bool,
    pub section: SectionV,
    pub done: Seq<(Seq<char>, ToolV)>,
}

/// Where the parser starts: nothing seen, nothing collected.
pub open spec fn init_state() -> StateV {
    StateV { seen_tool: false, section: SectionV::Top, done: Seq::empty() }
}

/// Whether a finished entry of that name is already collected.
pub open spec fn has_key(done: Seq<(Seq<char>, ToolV)>, name: Seq<char>) -> bool {
    exists|i: int| 0 <= i < done.len() && done[i].0 == name
}

/// Closing the current section: an entry must have both required fields and
/// joins the collected entries; any other section just ends.
pub open spec fn finalize_spec(st: StateV) -> Result<StateV, ConfigErrorV> {
    match st.section {
        SectionV::Entry { name, source, target } => {
            if source is None {
                Err(
                    ConfigErrorV::Parse {
                        kind: ParseErrorV::MissingField { tool: name, field: FieldName::Source },
                    },
                )
            } else if target is None {
                Err(
                    ConfigErrorV::Parse {
                        kind: ParseErrorV::MissingField { tool: name, field: FieldName::Target },
                    },
                )
            } else {
                Ok(
                    StateV {
                        seen_tool: st.seen_tool,
                        section: SectionV::Top,
                        done: st.done.push(
                            (
                                name,
                                ToolV { source: source->Some_0, target: target->Some_0 },
                            ),
                        ),
                    },
                )
            }
        },
        _ => Ok(StateV { seen_tool: st.seen_tool, section: SectionV::Top, done: st.done }),
    }
}

/// How one line advances the parser.
pub open spec fn step(st: StateV, line: Seq<char>, home: Option<Seq<char>>) -> Result<
    StateV,
    ConfigErrorV,
> {
    match classify(line) {
        LineV::Blank => Ok(st),
        LineV::Bad { text } => Err(ConfigErrorV::Parse { kind: ParseErrorV::BadLine { text } }),
        LineV::ToolHeader => {
            if st.seen_tool {
                Err(ConfigErrorV::Parse { kind: ParseErrorV::DuplicateTable { name: "tool"@ } })
            } else {
                match finalize_spec(st) {
                    Err(e) => Err(e),
                    Ok(st2) => Ok(
                        StateV { seen_tool: true, section: SectionV::ToolTable, done: st2.done },
                    ),
                }
            }
        },
        LineV::EntryHeader { name } => {
            match finalize_spec(st) {
                Err(e) => Err(e),
                Ok(st2) => {
                    if has_key(st2.done, name) {
                        Err(ConfigErrorV::Parse { kind: ParseErrorV::DuplicateTable { name } })
                    } else {
                        Ok(
                            StateV {
                                seen_tool: true,
                                section: SectionV::Entry { name, source: None, target: None },
                                done: st2.done,
                            },
                        )
                    }
                },
            }
        },
        LineV::OtherHeader => {
            match finalize_spec(st) {
                Err(e) => Err(e),
                Ok(st2) => Ok(
                    StateV { seen_tool: st2.seen_tool, section: SectionV::Other, done: st2.done },
                ),
            }
        },
        LineV::KeyVal { key, value } => {
            match st.section {
                SectionV::Top => Ok(st),
                SectionV::Other => Ok(st),
                SectionV::ToolTable => Err(
                    ConfigErrorV::Parse { kind: ParseErrorV::NotATable { name: key } },
                ),
                SectionV::Entry { name, source, target } => {
                    if key == "source"@ {
                        if source is Some {
                            Err(
                                ConfigErrorV::Parse {
                                    kind: ParseErrorV::DuplicateField {
                                        tool: name,
                                        field: FieldName::Source,
                                    },
                                },
                            )
                        } else {
                            match expand_result(value, home) {
                                Err(e) => Err(e),
                                Ok(v) => Ok(
                                    StateV {
                                        seen_tool: st.seen_tool,
                                        section: SectionV::Entry {
                                            name,
                                            source: Some(v),
                                            target,
                                        },
                                        done: st.done,
                                    },
                                ),
                            }
                        }
                    } else if key == "target"@ {
                        if target is Some {
                            Err(
                                ConfigErrorV::Parse {
                                    kind: ParseErrorV::DuplicateField {
                                        tool: name,
                                        field: FieldName::Target,
                                    },
                                },
                            )
                        } else {
                            match expand_result(value, home) {
                                Err(e) => Err(e),
                                Ok(v) => Ok(
                                    StateV {
                                        seen_tool: st.seen_tool,
                                        section: SectionV::Entry {
                                            name,
                                            source,
                                            target: Some(v),
                                        },
                                        done: st.done,
                                    },
                                ),
                            }
                        }
                    } else {
                        Ok(st)
                    }
                },
            }
        },
    }
}

/// The parser run over a sequence of lines.
pub open spec fn run_lines(lines: Seq<Seq<char>>, home: Option<Seq<char>>) -> Result<
    StateV,
    ConfigErrorV,
>
    decreases lines.len(),
{
    if lines.len() == 0 {
        Ok(init_state())
    } else {
        match run_lines(lines.drop_last(), home) {
            Err(e) => Err(e),
            Ok(st) => step(st, lines.last(), home),
        }
    }
}

/// What parsing `text` against an optional home directory yields: the
/// collected entries in writing order, or the first error.
pub open spec fn spec_parse(text: Seq<char>, home: Option<Seq<char>>) -> Result<
    Seq<(Seq<char>, ToolV)>,
    ConfigErrorV,
> {
    match run_lines(spec_lines(text), home) {
        Err(e) => Err(e),
        Ok(st) => match finalize_spec(st) {
            Err(e) => Err(e),
            Ok(st2) => {
                if st2.seen_tool {
                    Ok(st2.done)
                } else {
                    Err(ConfigErrorV::Parse { kind: ParseErrorV::MissingToolTable })
                }
            },
        },
    }
}

/// Collected entries never repeat a name, and an open entry's name is not
/// among them.
pub open spec fn state_inv(st: StateV) -> bool {
    (forall|i: int, j: int| 0 <= i < j < st.done.len() ==> st.done[i].0 != st.done[j].0)
        && (st.section matches SectionV::Entry { name, .. } ==> !has_key(st.done, name))
}

proof fn lemma_finalize_inv(st: StateV)
    requires
        state_inv(st),
        finalize_spec(st) is Ok,
    ensures
        state_inv(finalize_spec(st)->Ok_0),
        finalize_spec(st)->Ok_0.section is Top,
        forall|n: Seq<char>| has_key(finalize_spec(st)->Ok_0.done, n) ==> has_key(st.done, n) || (
        st.section matches SectionV::Entry { name, .. } && name == n),
{
    match st.section {
        SectionV::Entry { name, source, target } => {
            let d2 = finalize_spec(st)->Ok_0.done;
            assert(d2 =~= st.done.push((name, ToolV { source: source->Some_0, target: target->Some_0 })));
            assert forall|i: int, j: int| 0 <= i < j < d2.len() implies d2[i].0 != d2[j].0 by {
                if j == d2.len() - 1 {
                    assert(!has_key(st.done, name));
                    assert(st.done[i].0 != name);
                }
            }
            assert forall|n: Seq<char>| has_key(d2, n) implies has_key(st.done, n) || name == n by {
                let k = choose|k: int| 0 <= k < d2.len() && d2[k].0 == n;
                if k < st.done.len() {
                    assert(st.done[k].0 == n);
                }
            }
        },
        _ => {},
    }
}

proof fn lemma_step_inv(st: StateV, line: Seq<char>, home: Option<Seq<char>>)
    requires
        state_inv(st),
        step(st, line, home) is Ok,
    ensures
        state_inv(step(st, line, home)->Ok_0),
{
    match classify(line) {
        LineV::ToolHeader => {
            if !st.seen_tool {
                lemma_finalize_inv(st);
            }
        },
        LineV::EntryHeader { name } => {
            lemma_finalize_inv(st);
        },
        LineV::OtherHeader => {
            lemma_finalize_inv(st);
        },
        _ => {},
    }
}

proof fn lemma_run_inv(lines: Seq<Seq<char>>, home: Option<Seq<char>>)
    ensures
        run_lines(lines, home) is Ok ==> state_inv(run_lines(lines, home)->Ok_0),
    decreases lines.len(),
{
    if lines.len() == 0 {
    } else {
        lemma_run_inv(lines.drop_last(), home);
        match run_lines(lines.drop_last(), home) {
            Err(_) => {},
            Ok(st) => {
                if step(st, lines.last(), home) is Ok {
                    lemma_step_inv(st, lines.last(), home);
                }
            },
        }
    }
}

/// Once a prefix of the lines fails, the whole run fails the same way.
proof fn lemma_run_error_persists(lines: Seq<Seq<char>>, k: int, home: Option<Seq<char>>)
    requires
        0 <= k <= lines.len(),
        run_lines(lines.take(k), home) is Err,
    ensures
        run_lines(lines, home) == run_lines(lines.take(k), home),
    decreases lines.len() - k,
{
    if k == lines.len() {
        assert(lines.take(k) =~= lines);
    } else {
        assert(lines.take(k + 1).drop_last() =~= lines.take(k));
        assert(lines.take(k + 1).last() == lines[k]);
        lemma_run_error_persists(lines, k + 1, home);
    }
}

/// Where the parser stands in the text.
enum Section {
    Top,
    ToolTable,
    Other,
    Entry { name: String, source: Option<String>, target: Option<String> },
}

impl View for Section {
    type V = SectionV;

    closed spec fn view(&self) -> SectionV {
        match self {
            Section::Top => SectionV::Top,
            Section::ToolTable => SectionV::ToolTable,
            Section::Other => SectionV::Other,
            Section::Entry { name, source, target } => SectionV::Entry {
                name: name@,
                source: opt_view(*source),
                target: opt_view(*target),
            },
        }
    }
}

/// The parser state.
struct State {
    seen_tool: bool,
    section: Section,
    done: Vec<(String, Tool)>,
}

impl View for State {
    type V = StateV;

    closed spec fn view(&self) -> StateV {
        StateV {
            seen_tool: self.seen_tool,
            section: self.section@,
            done: self.done@.map_values(|p: (String, Tool)| (p.0@, p.1@)),
        }
    }
}

/// Whether a finished entry of that name is already collected.
fn has_key_exec(done: &Vec<(String, Tool)>, name: &String) -> (b: bool)
    ensures
        b == has_key(done@.map_values(|p: (String, Tool)| (p.0@, p.1@)), name@),
{
    let ghost dv = done@.map_values(|p: (String, Tool)| (p.0@, p.1@));
    let n = done.len();
    let mut i: usize = 0;
    while i < n
        invariant
            n == done@.len(),
            i <= n,
            dv == done@.map_values(|p: (String, Tool)| (p.0@, p.1@)),
            forall|j: int| 0 <= j < i ==> dv[j].0 != name@,
        decreases n - i,
    {
        proof {
            assert(dv[i as int] == (done@[i as int].0@, done@[i as int].1@));
        }
        if done[i].0 == *name {
            return true;
        }
        i = i + 1;
    }
    false
}

/// The home placeholder in a value expanded, if it can be.
fn expand_value(value: String, home: &Option<String>) -> (r: Result<String, ConfigError>)
    ensures
        (match r {
            Ok(s) => expand_result(value@, opt_view(*home)) == Ok::<Seq<char>, ConfigErrorV>(s@),
            Err(e) => expand_result(value@, opt_view(*home)) == Err::<Seq<char>, ConfigErrorV>(
                e@,
            ),
        }),
{
    if has_tilde(&value) {
        match home {
            Some(h) => Ok(expand_home_path(&value, h)),
            None => Err(ConfigError::HomeResolution),
        }
    } else {
        Ok(value)
    }
}

/// Closes the current section.
fn finalize_exec(st: State) -> (r: Result<State, ConfigError>)
    ensures
        (match r {
            Ok(s2) => finalize_spec(st@) == Ok::<StateV, ConfigErrorV>(s2@),
            Err(e) => finalize_spec(st@) == Err::<StateV, ConfigErrorV>(e@),
        }),
{
    let State { seen_tool, section, done } = st;
    match section {
        Section::Entry { name, source, target } => {
            match source {
                None => Err(
                    ConfigError::Parse {
                        kind: ParseError::MissingField { tool: name, field: FieldName::Source },
                    },
                ),
                Some(s) => match target {
                    None => Err(
                        ConfigError::Parse {
                            kind: ParseError::MissingField {
                                tool: name,
                                field: FieldName::Target,
                            },
                        },
                    ),
                    Some(t) => {
                        let ghost old_done = done@.map_values(|p: (String, Tool)| (p.0@, p.1@));
                        let ghost namev = name@;
                        let ghost sv = s@;
                        let ghost tv = t@;
                        let mut done = done;
                        done.push(
                            (
                                name,
                                Tool {
                                    source: MyPath::from_string(s),
                                    target: MyPath::from_string(t),
                                },
                            ),
                        );
                        proof {
                            assert(done@.map_values(|p: (String, Tool)| (p.0@, p.1@))
                                =~= old_done.push((namev, ToolV { source: sv, target: tv })));
                        }
                        Ok(State { seen_tool, section: Section::Top, done })
                    },
                },
            }
        },
        Section::Top => Ok(State { seen_tool, section: Section::Top, done }),
        Section::ToolTable => Ok(State { seen_tool, section: Section::Top, done }),
        Section::Other => Ok(State { seen_tool, section: Section::Top, done }),
    }
}

/// Advances the parser by one line.
fn step_exec(st: State, line: &String, home: &Option<String>) -> (r: Result<State, ConfigError>)
    ensures
        (match r {
            Ok(s2) => step(st@, line@, opt_view(*home)) == Ok::<StateV, ConfigErrorV>(s2@),
            Err(e) => step(st@, line@, opt_view(*home)) == Err::<StateV, ConfigErrorV>(e@),
        }),
{
    match classify_line(line.as_str()) {
        Line::Blank => Ok(st),
        Line::Bad { text } => Err(ConfigError::Parse { kind: ParseError::BadLine { text } }),
        Line::ToolHeader => {
            if st.seen_tool {
                Err(
                    ConfigError::Parse {
                        kind: ParseError::DuplicateTable { name: String::from_str("tool") },
                    },
                )
            } else {
                match finalize_exec(st) {
                    Err(e) => Err(e),
                    Ok(st2) => {
                        let State { seen_tool: _, section: _, done } = st2;
                        Ok(State { seen_tool: true, section: Section::ToolTable, done })
                    },
                }
            }
        },
        Line::EntryHeader { name } => {
            match finalize_exec(st) {
                Err(e) => Err(e),
                Ok(st2) => {
                    if has_key_exec(&st2.done, &name) {
                        Err(ConfigError::Parse { kind: ParseError::DuplicateTable { name } })
                    } else {
                        let State { seen_tool: _, section: _, done } = st2;
                        Ok(
                            State {
                                seen_tool: true,
                                section: Section::Entry { name, source: None, target: None },
                                done,
                            },
                        )
                    }
                },
            }
        },
        Line::OtherHeader => {
            match finalize_exec(st) {
                Err(e) => Err(e),
                Ok(st2) => {
                    let State { seen_tool, section: _, done } = st2;
                    Ok(State { seen_tool, section: Section::Other, done })
                },
            }
        },
        Line::KeyVal { key, value } => {
            let State { seen_tool, section, done } = st;
            match section {
                Section::Top => Ok(State { seen_tool, section: Section::Top, done }),
                Section::Other => Ok(State { seen_tool, section: Section::Other, done }),
                Section::ToolTable => Err(
                    ConfigError::Parse { kind: ParseError::NotATable { name: key } },
                ),
                Section::Entry { name, source, target } => {
                    if key == String::from_str("source") {
                        if source.is_some() {
                            Err(
                                ConfigError::Parse {
                                    kind: ParseError::DuplicateField {
                                        tool: name,
                                        field: FieldName::Source,
                                    },
                                },
                            )
                        } else {
                            match expand_value(value, home) {
                                Err(e) => Err(e),
                                Ok(v) => Ok(
                                    State {
                                        seen_tool,
                                        section: Section::Entry {
                                            name,
                                            source: Some(v),
                                            target,
                                        },
                                        done,
                                    },
                                ),
                            }
                        }
                    } else if key == String::from_str("target") {
                        if target.is_some() {
                            Err(
                                ConfigError::Parse {
                                    kind: ParseError::DuplicateField {
                                        tool: name,
                                        field: FieldName::Target,
                                    },
                                },
                            )
                        } else {
                            match expand_value(value, home) {
                                Err(e) => Err(e),
                                Ok(v) => Ok(
                                    State {
                                        seen_tool,
                                        section: Section::Entry {
                                            name,
                                            source,
                                            target: Some(v),
                                        },
                                        done,
                                    },
                                ),
                            }
                        }
                    } else {
                        Ok(
                            State {
                                seen_tool,
                                section: Section::Entry { name, source, target },
                                done,
                            },
                        )
                    }
                },
            }
        },
    }
}

/// Parses configuration text against the given home directory; the result
/// is exactly what `spec_parse` says, and its tool names are unique.
pub fn parse_config_with_home(text: &str, home: &Option<String>) -> (r: Result<Outer, ConfigError>)
    ensures
        (match r {
            Ok(o) => spec_parse(text@, opt_view(*home)) == Ok::<
                Seq<(Seq<char>, ToolV)>,
                ConfigErrorV,
            >(o@) && o.wf(),
            Err(e) => spec_parse(text@, opt_view(*home)) == Err::<
                Seq<(Seq<char>, ToolV)>,
                ConfigErrorV,
            >(e@),
        }),
{
    let ghost lv = spec_lines(text@);
    let ghost hv = opt_view(*home);
    let lines = split_lines(text);
    let mut st = State { seen_tool: false, section: Section::Top, done: Vec::new() };
    proof {
        assert(st@.done =~= init_state().done);
        assert(lv.take(0) =~= Seq::<Seq<char>>::empty());
    }
    let n = lines.len();
    let mut i: usize = 0;
    while i < n
        invariant
            n == lines@.len(),
            i <= n,
            lines@.map_values(|l: String| l@) == lv,
            lv == spec_lines(text@),
            hv == opt_view(*home),
            run_lines(lv.take(i as int), hv) == Ok::<StateV, ConfigErrorV>(st@),
        decreases n - i,
    {
        let ghost pre = st@;
        proof {
            assert(lines@.map_values(|l: String| l@)[i as int] == lines@[i as int]@);
        }
        st = match step_exec(st, &lines[i], home) {
            Ok(s2) => s2,
            Err(e) => {
                proof {
                    assert(lv.take(i + 1).drop_last() =~= lv.take(i as int));
                    assert(lv.take(i + 1).last() == lv[i as int]);
                    assert(run_lines(lv.take(i + 1), hv) == Err::<StateV, ConfigErrorV>(e@));
                    lemma_run_error_persists(lv, i + 1, hv);
                }
                return Err(e);
            },
        };
        proof {
            assert(lv.take(i + 1).drop_last() =~= lv.take(i as int));
            assert(lv.take(i + 1).last() == lv[i as int]);
        }
        i = i + 1;
    }
    proof {
        assert(lv.take(n as int) =~= lv);
        lemma_run_inv(lv, hv);
    }
    let ghost pre = st@;
    match finalize_exec(st) {
        Err(e) => Err(e),
        Ok(st2) => {
            if st2.seen_tool {
                proof {
                    lemma_finalize_inv(pre);
                }
                let o = Outer { tool: st2.done };
                proof {
                    assert(o@ =~= finalize_spec(pre)->Ok_0.done);
                }
                Ok(o)
            } else {
                Err(ConfigError::Parse { kind: ParseError::MissingToolTable })
            }
        },
    }
}

/// Whether a parse outcome is the one `spec_parse` gives for some home
/// directory reading.
pub open spec fn parse_outcome_matches(
    r: Result<Outer, ConfigError>,
    text: Seq<char>,
    home: Option<Seq<char>>,
) -> bool {
    match r {
        Ok(o) => spec_parse(text, home) == Ok::<Seq<(Seq<char>, ToolV)>, ConfigErrorV>(o@)
            && o.wf(),
        Err(e) => spec_parse(text, home) == Err::<Seq<(Seq<char>, ToolV)>, ConfigErrorV>(e@),
    }
}

/// Parses configuration text, reading the home directory of the running
/// user for placeholder expansion.
pub fn parse_config(text: &str) -> (r: Result<Outer, ConfigError>)
    ensures
        exists|h: Option<Seq<char>>| #[trigger] parse_outcome_matches(r, text@, h),
{
    let home = crate::paths::home_dir_string();
    let r = parse_config_with_home(text, &home);
    proof {
        assert(parse_outcome_matches(r, text@, opt_view(home)));
    }
    r
}

} // verus!
