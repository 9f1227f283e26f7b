//! The configuration model: a named mapping from tool identifiers to
//! `{source, target}` path pairs.

use vstd::prelude::*;
use crate::paths::MyPath;

verus! {

/// Mathematical form of a tool entry: the two resolved paths.
pub ghost struct ToolV {
    pub source: Seq<char>,
    pub target: Seq<char>,
}

/// One tool entry: where the dotfile lives and where it is expected.
#[derive(Debug)]
pub struct Tool {
    pub source: MyPath,
    pub target: MyPath,
}

impl View for Tool {
    type V = ToolV;

    open spec fn view(&self) -> ToolV {
        ToolV { source: self.source@, target: self.target@ }
    }
}

impl Tool {
    /// Whether both paths are present on the filesystem, given their
    /// freshly checked presence; informational only, it gates nothing.
    pub fn validate(&self, source_exists: bool, target_exists: bool) -> (r: bool)
        ensures
            r == (target_exists && source_exists),
    {
        target_exists && source_exists
    }
}

/// The whole configuration: tool entries in the order they were written,
/// keyed by unique tool identifiers.
#[derive(Debug)]
pub struct Outer {
    pub tool: Vec<(String, Tool)>,
}

impl View for Outer {
    type V = Seq<(Seq<char>, ToolV)>;

    open spec fn view(&self) -> Seq<(Seq<char>, ToolV)> {
        self.tool@.map_values(|p: (String, Tool)| (p.0@, p.1@))
    }
}

/// The largest rendered source-path width over `entries`; rendering quotes
/// a path, so each width is the path length plus two.
pub open spec fn max_source_width(entries: Seq<(Seq<char>, ToolV)>) -> int
    decreases entries.len(),
{
    if entries.len() == 0 {
        0
    } else {
        let rest = max_source_width(entries.drop_last());
        let w = entries.last().1.source.len() as int + 2;
        if rest < w {
            w
        } else {
            rest
        }
    }
}

impl Outer {
    /// Tool identifiers never repeat.
    pub open spec fn wf(&self) -> bool {
        forall|i: int, j: int| 0 <= i < j < self@.len() ==> self@[i].0 != self@[j].0
    }

    /// The column width of a status table: the largest rendered source path.
    pub fn max(&self) -> (w: usize)
        requires
            forall|i: int| 0 <= i < self@.len() ==> #[trigger] self@[i].1.source.len() + 2
                <= usize::MAX,
        ensures
            w == max_source_width(self@),
    {
        let mut w: usize = 0;
        let mut i: usize = 0;
        let n = self.tool.len();
        while i < n
            invariant
                n == self@.len(),
                i <= n,
                forall|k: int| 0 <= k < n ==> #[trigger] self@[k].1.source.len() + 2
                    <= usize::MAX,
                w == max_source_width(self@.take(i as int)),
            decreases n - i,
        {
            let len = self.tool[i].1.source.path_len();
            proof {
                assert(self@[i as int].1 == self.tool@[i as int].1@);
                assert(self@[i as int].1.source.len() + 2 <= usize::MAX);
            }
            let cand = len + 2;
            if w < cand {
                w = cand;
            }
            proof {
                assert(self@.take(i + 1).drop_last() =~= self@.take(i as int));
                assert(self@.take(i + 1).last() == self@[i as int]);
            }
            i = i + 1;
        }
        proof {
            assert(self@.take(n as int) =~= self@);
        }
        w
    }
}

} // verus!
