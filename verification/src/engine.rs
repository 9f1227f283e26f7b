//! The three link-management operations, as verified decision and
//! formatting logic.
//!
//! Filesystem presence is checked, symlinks are created and targets are
//! removed by the surrounding program; this module decides, per entry, what
//! is to be done and what is to be reported, given the freshly checked
//! presence of each path.

use vstd::prelude::*;
use vstd::string::StrSliceExecFns;
use vstd::string::StringExecFns;
use crate::config::Outer;
use crate::config::Tool;
use crate::config::max_source_width;
use crate::paths::MyPath;
use crate::paths::quoted;

verus! {

/// `n` copies of `c`.
pub open spec fn repeat_char(c: char, n: nat) -> Seq<char> {
    Seq::new(n, |i| c)
}

/// `s` padded on the right with `fill` up to width `w`; a longer `s` is
/// kept whole, never truncated.
pub open spec fn pad_right(s: Seq<char>, w: int, fill: char) -> Seq<char> {
    if s.len() >= w {
        s
    } else {
        s + repeat_char(fill, (w - s.len()) as nat)
    }
}

/// `s` padded on the left with `fill` up to width `w`.
pub open spec fn pad_left(s: Seq<char>, w: int, fill: char) -> Seq<char> {
    if s.len() >= w {
        s
    } else {
        repeat_char(fill, (w - s.len()) as nat) + s
    }
}

/// The existence indicator of a path.
pub open spec fn indicator(ok: bool) -> Seq<char> {
    if ok {
        "Ok"@
    } else {
        ":("@
    }
}

/// One status line: the quoted source padded with dots to the table width,
/// its indicator, an arrow, the quoted target padded to a fixed width, and
/// its indicator.
pub open spec fn formatted_line(
    source: Seq<char>,
    source_ok: bool,
    target: Seq<char>,
    target_ok: bool,
    width: int,
) -> Seq<char> {
    pad_right(quoted(source), width, '.') + " "@ + pad_left(indicator(source_ok), 3, ' ')
        + " -> "@ + pad_right(quoted(target), 40, '.') + " "@ + pad_left(
        indicator(target_ok),
        3,
        '.',
    )
}

/// Whether `needle` occurs in `hay` as a contiguous run.
pub open spec fn contains_seq(hay: Seq<char>, needle: Seq<char>) -> bool {
    exists|i: int|
        0 <= i && i + needle.len() <= hay.len() && #[trigger] hay.subrange(
            i,
            i + needle.len(),
        ) == needle
}

/// Every status line carries both path strings and both existence
/// indicators, whatever the table width.
pub proof fn lemma_formatted_line_contains(
    source: Seq<char>,
    source_ok: bool,
    target: Seq<char>,
    target_ok: bool,
    width: int,
)
    ensures
        contains_seq(formatted_line(source, source_ok, target, target_ok, width), source),
        contains_seq(formatted_line(source, source_ok, target, target_ok, width), target),
        contains_seq(
            formatted_line(source, source_ok, target, target_ok, width),
            indicator(source_ok),
        ),
        contains_seq(
            formatted_line(source, source_ok, target, target_ok, width),
            indicator(target_ok),
        ),
{
    reveal_strlit(" ");
    reveal_strlit(" -> ");
    let line = formatted_line(source, source_ok, target, target_ok, width);
    let a = pad_right(quoted(source), width, '.');
    let b = pad_left(indicator(source_ok), 3, ' ');
    let c = pad_right(quoted(target), 40, '.');
    let d = pad_left(indicator(target_ok), 3, '.');
    assert(a.len() >= source.len() + 2);
    assert(line.subrange(1, 1 + source.len() as int) =~= source);
    assert(contains_seq(line, source));
    let is = a.len() + 1 + (b.len() - indicator(source_ok).len());
    assert(line.subrange(is as int, is + indicator(source_ok).len() as int) =~= indicator(source_ok));
    assert(contains_seq(line, indicator(source_ok)));
    let it = a.len() + 1 + b.len() + 4 + 1;
    assert(line.subrange(it as int, it + target.len() as int) =~= target);
    assert(contains_seq(line, target));
    let id = line.len() - indicator(target_ok).len();
    assert(line.subrange(id as int, id + indicator(target_ok).len() as int) =~= indicator(target_ok));
    assert(contains_seq(line, indicator(target_ok)));
}

/// `n` dots.
fn dots(n: usize) -> (r: String)
    ensures
        r@ == repeat_char('.', n as nat),
{
    let mut out = String::new();
    let mut i: usize = 0;
    while i < n
        invariant
            i <= n,
            out@ == repeat_char('.', i as nat),
        decreases n - i,
    {
        out.append(".");
        proof {
            reveal_strlit(".");
            assert(out@ =~= repeat_char('.', (i + 1) as nat));
        }
        i = i + 1;
    }
    out
}

/// `n` spaces.
fn spaces(n: usize) -> (r: String)
    ensures
        r@ == repeat_char(' ', n as nat),
{
    let mut out = String::new();
    let mut i: usize = 0;
    while i < n
        invariant
            i <= n,
            out@ == repeat_char(' ', i as nat),
        decreases n - i,
    {
        out.append(" ");
        proof {
            reveal_strlit(" ");
            assert(out@ =~= repeat_char(' ', (i + 1) as nat));
        }
        i = i + 1;
    }
    out
}

/// `s` padded on the right with dots up to width `w`.
fn pad_right_dots(s: String, w: usize) -> (r: String)
    ensures
        r@ == pad_right(s@, w as int, '.'),
{
    let len = s.as_str().unicode_len();
    if len >= w {
        s
    } else {
        s.concat(dots(w - len).as_str())
    }
}

/// `s` padded on the left with `fill` up to width `w`.
fn pad_left_fill(s: String, w: usize, dot: bool) -> (r: String)
    ensures
        dot ==> r@ == pad_left(s@, w as int, '.'),
        !dot ==> r@ == pad_left(s@, w as int, ' '),
{
    let len = s.as_str().unicode_len();
    if len >= w {
        s
    } else {
        let fill = if dot {
            dots(w - len)
        } else {
            spaces(w - len)
        };
        fill.concat(s.as_str())
    }
}

/// The existence indicator of a path.
fn indicator_string(ok: bool) -> (r: String)
    ensures
        r@ == indicator(ok),
{
    if ok {
        String::from_str("Ok")
    } else {
        String::from_str(":(")
    }
}

impl Tool {
    /// The status line of this entry for a table of the given width, given
    /// the freshly checked presence of its two paths.
    pub fn get_fromatted(&self, width: &usize, source_exists: bool, target_exists: bool) -> (r:
        String)
        ensures
            r@ == formatted_line(self@.source, source_exists, self@.target, target_exists,
            *width as int),
    {
        let a = pad_right_dots(self.source.display_string(), *width);
        let b = pad_left_fill(indicator_string(source_exists), 3, false);
        let c = pad_right_dots(self.target.display_string(), 40);
        let d = pad_left_fill(indicator_string(target_exists), 3, true);
        a.concat(" ").concat(b.as_str()).concat(" -> ").concat(c.as_str()).concat(" ").concat(
            d.as_str(),
        )
    }
}

/// The status table: one line per entry, in configuration order.
pub fn show_report(config: &Outer, source_exists: &Vec<bool>, target_exists: &Vec<bool>) -> (lines:
    Vec<String>)
    requires
        source_exists@.len() == config@.len(),
        target_exists@.len() == config@.len(),
        forall|i: int| 0 <= i < config@.len() ==> #[trigger] config@[i].1.source.len() + 2
            <= usize::MAX,
    ensures
        lines@.len() == config@.len(),
        forall|i: int| 0 <= i < config@.len() ==> #[trigger] lines@[i]@ == formatted_line(
            config@[i].1.source,
            source_exists@[i],
            config@[i].1.target,
            target_exists@[i],
            max_source_width(config@),
        ),
{
    let width = config.max();
    let mut lines: Vec<String> = Vec::new();
    let n = config.tool.len();
    let mut i: usize = 0;
    while i < n
        invariant
            n == config@.len(),
            i <= n,
            source_exists@.len() == n,
            target_exists@.len() == n,
            width == max_source_width(config@),
            lines@.len() == i,
            forall|k: int| 0 <= k < i ==> #[trigger] lines@[k]@ == formatted_line(
                config@[k].1.source,
                source_exists@[k],
                config@[k].1.target,
                target_exists@[k],
                max_source_width(config@),
            ),
        decreases n - i,
    {
        proof {
            assert(config@[i as int].1 == config.tool@[i as int].1@);
        }
        let line = config.tool[i].1.get_fromatted(&width, source_exists[i], target_exists[i]);
        lines.push(line);
        i = i + 1;
    }
    lines
}

/// Mathematical form of one planned link creation.
pub ghost struct LinkActionV {
    pub name: Seq<char>,
    pub source: Seq<char>,
    pub target: Seq<char>,
    pub already_valid: bool,
}

/// One planned link creation: a symlink at `target` pointing to `source`.
/// `already_valid` records whether both paths were already present; it is
/// informational only and gates nothing — creation is always attempted.
#[derive(Debug)]
pub struct LinkAction {
    pub name: String,
    pub source: MyPath,
    pub target: MyPath,
    pub already_valid: bool,
}

impl View for LinkAction {
    type V = LinkActionV;

    open spec fn view(&self) -> LinkActionV {
        LinkActionV {
            name: self.name@,
            source: self.source@,
            target: self.target@,
            already_valid: self.already_valid,
        }
    }
}

/// The link operation's plan: one attempted creation per entry, in
/// configuration order, regardless of what is already present. A failed
/// attempt is an outcome of its own entry alone; it never touches the rest.
pub fn link_plan(config: &Outer, source_exists: &Vec<bool>, target_exists: &Vec<bool>) -> (plan:
    Vec<LinkAction>)
    requires
        source_exists@.len() == config@.len(),
        target_exists@.len() == config@.len(),
    ensures
        plan@.len() == config@.len(),
        forall|i: int| 0 <= i < config@.len() ==> #[trigger] plan@[i]@ == (LinkActionV {
            name: config@[i].0,
            source: config@[i].1.source,
            target: config@[i].1.target,
            already_valid: target_exists@[i] && source_exists@[i],
        }),
{
    let mut plan: Vec<LinkAction> = Vec::new();
    let n = config.tool.len();
    let mut i: usize = 0;
    while i < n
        invariant
            n == config@.len(),
            i <= n,
            source_exists@.len() == n,
            target_exists@.len() == n,
            plan@.len() == i,
            forall|k: int| 0 <= k < i ==> #[trigger] plan@[k]@ == (LinkActionV {
                name: config@[k].0,
                source: config@[k].1.source,
                target: config@[k].1.target,
                already_valid: target_exists@[k] && source_exists@[k],
            }),
        decreases n - i,
    {
        proof {
            assert(config@[i as int] == (config.tool@[i as int].0@, config.tool@[i as int].1@));
        }
        let entry = &config.tool[i];
        let already_valid = entry.1.validate(source_exists[i], target_exists[i]);
        plan.push(
            LinkAction {
                name: entry.0.clone(),
                source: entry.1.source.clone(),
                target: entry.1.target.clone(),
                already_valid,
            },
        );
        i = i + 1;
    }
    plan
}

/// The purge operation's plan: the indices, in configuration order, of
/// exactly those entries whose target is present. An absent target asks for
/// nothing — purging it is a no-op.
pub fn purge_plan(config: &Outer, target_exists: &Vec<bool>) -> (idx: Vec<usize>)
    requires
        target_exists@.len() == config@.len(),
    ensures
        forall|a: int, b: int| 0 <= a < b < idx@.len() ==> idx@[a] < idx@[b],
        forall|a: int| 0 <= a < idx@.len() ==> idx@[a] < config@.len() && target_exists@[#[trigger]
        idx@[a] as int],
        forall|j: int| 0 <= j < config@.len() && #[trigger] target_exists@[j] ==> idx@.contains(
            j as usize,
        ),
{
    let mut idx: Vec<usize> = Vec::new();
    let n = config.tool.len();
    let mut i: usize = 0;
    while i < n
        invariant
            n == config@.len(),
            i <= n,
            target_exists@.len() == n,
            forall|a: int, b: int| 0 <= a < b < idx@.len() ==> idx@[a] < idx@[b],
            forall|a: int| 0 <= a < idx@.len() ==> idx@[a] < i && target_exists@[#[trigger]
            idx@[a] as int],
            forall|j: int| 0 <= j < i && #[trigger] target_exists@[j] ==> idx@.contains(
                j as usize,
            ),
        decreases n - i,
    {
        let ghost prev = idx@;
        if target_exists[i] {
            idx.push(i);
        }
        proof {
            if target_exists@[i as int] {
                assert(idx@ =~= prev.push(i as usize));
                assert(idx@[prev.len() as int] == i as usize);
                assert(idx@.contains(i as usize));
            }
            assert forall|j: int| 0 <= j < i + 1 && #[trigger] target_exists@[j] implies idx@
                .contains(j as usize) by {
                if j < i {
                    let k = choose|k: int| 0 <= k < prev.len() && prev[k] == (j as usize);
                    assert(idx@[k] == j as usize);
                }
            }
        }
        i = i + 1;
    }
    idx
}

/// The reported outcome of one attempted link creation.
pub open spec fn link_line(name: Seq<char>, already_valid: bool, created: bool) -> Seq<char> {
    if created {
        "created link for `"@ + name + "`"@
    } else if already_valid {
        "link for `"@ + name + "` already in place"@
    } else {
        "could not create link for `"@ + name + "`"@
    }
}

/// The per-entry outcome line of the link operation.
pub fn link_result_line(name: &String, already_valid: bool, created: bool) -> (r: String)
    ensures
        r@ == link_line(name@, already_valid, created),
{
    if created {
        String::from_str("created link for `").concat(name.as_str()).concat("`")
    } else if already_valid {
        String::from_str("link for `").concat(name.as_str()).concat("` already in place")
    } else {
        String::from_str("could not create link for `").concat(name.as_str()).concat("`")
    }
}

/// The reported outcome of one attempted target removal.
pub open spec fn purge_line(name: Seq<char>, removed: bool) -> Seq<char> {
    if removed {
        "removed target for `"@ + name + "`"@
    } else {
        "could not remove target for `"@ + name + "`"@
    }
}

/// The per-entry outcome line of the purge operation; a failed removal is
/// surfaced as a warning, never discarded.
pub fn purge_result_line(name: &String, removed: bool) -> (r: String)
    ensures
        r@ == purge_line(name@, removed),
{
    if removed {
        String::from_str("removed target for `").concat(name.as_str()).concat("`")
    } else {
        String::from_str("could not remove target for `").concat(name.as_str()).concat("`")
    }
}

} // verus!
