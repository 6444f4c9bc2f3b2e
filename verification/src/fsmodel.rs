//! An in-memory filesystem model, and resolution against it.
//!
//! The model maps paths to nodes: directories, readable files with their
//! text, and files that exist but cannot be read. Against it, resolution
//! can be run — and stated — as a whole: [`resolve_in`] drives the machine
//! of [`crate::resolve`], answers every probe from the model, and is
//! proved to return exactly [`resolve_path`], the recursive description of
//! the lookup algorithm.

use crate::content::tag_of;
use crate::resolve::advance_view;
use crate::resolve::index_html;
use crate::resolve::index_shtml;
use crate::resolve::index_txt;
use crate::resolve::join_path;
use crate::resolve::ProbeResult;
use crate::resolve::ProbeView;
use crate::resolve::Resolution;
use crate::resolve::ResolutionView;
use crate::resolve::Resolver;
use crate::resolve::Step;
use crate::resolve::StepView;
use crate::resolve::MAX_DEPTH;
use vstd::prelude::*;

verus! {

/// One filesystem entry: a directory, a readable file with its text, or a
/// file whose open or read fails.
#[derive(Debug)]
pub enum FsNode {
    Dir,
    FileContent(String),
    FileDenied,
}

/// [`FsNode`] at the specification level.
pub enum FsNodeView {
    Dir,
    FileContent(Seq<char>),
    FileDenied,
}

impl View for FsNode {
    type V = FsNodeView;

    open spec fn view(&self) -> FsNodeView {
        match self {
            FsNode::Dir => FsNodeView::Dir,
            FsNode::FileContent(c) => FsNodeView::FileContent(c@),
            FsNode::FileDenied => FsNodeView::FileDenied,
        }
    }
}

/// The map that a sequence of (path, node) entries describes; an earlier
/// entry shadows a later one with the same path.
spec fn map_of(entries: Seq<(String, FsNode)>) -> Map<Seq<char>, FsNodeView>
    decreases entries.len(),
{
    if entries.len() == 0 {
        Map::empty()
    } else {
        map_of(entries.drop_first()).insert(entries.first().0@, entries.first().1@)
    }
}

/// An in-memory filesystem: paths mapped to nodes.
#[derive(Debug)]
pub struct FsModel {
    entries: Vec<(String, FsNode)>,
}

impl View for FsModel {
    type V = Map<Seq<char>, FsNodeView>;

    closed spec fn view(&self) -> Map<Seq<char>, FsNodeView> {
        map_of(self.entries@)
    }
}

/// What probing `path` in the filesystem `fs` finds.
pub open spec fn probe_of(fs: Map<Seq<char>, FsNodeView>, path: Seq<char>) -> ProbeView {
    if !fs.contains_key(path) {
        ProbeView::Missing
    } else {
        match fs[path] {
            FsNodeView::Dir => ProbeView::Dir,
            FsNodeView::FileContent(c) => ProbeView::Content(c),
            FsNodeView::FileDenied => ProbeView::Denied,
        }
    }
}

impl FsModel {
    /// An empty filesystem.
    pub fn new() -> (r: FsModel)
        ensures
            r@ == Map::<Seq<char>, FsNodeView>::empty(),
    {
        FsModel { entries: Vec::new() }
    }

    /// Adds the entry at `path`, replacing any node already there.
    pub fn insert(&mut self, path: String, node: FsNode)
        ensures
            final(self)@ == old(self)@.insert(path@, node@),
    {
        let ghost prior = self.entries@;
        self.entries.insert(0, (path, node));
        proof {
            assert(self.entries@.drop_first() =~= prior);
            assert(self@ =~= old(self)@.insert(path@, node@));
        }
    }

    /// Probes `path`: the node at it, or missing.
    pub fn probe(&self, path: &String) -> (pr: ProbeResult)
        ensures
            pr@ == probe_of(self@, path@),
    {
        let n = self.entries.len();
        let mut i: usize = 0;
        proof {
            assert(self.entries@.skip(0) =~= self.entries@);
        }
        while i < n
            invariant
                i <= n,
                n == self.entries.len(),
                probe_of(self@, path@) == probe_of(map_of(self.entries@.skip(i as int)), path@),
            decreases n - i,
        {
            let e = &self.entries[i];
            let ghost rest = self.entries@.skip(i as int);
            proof {
                assert(rest.first() == self.entries@[i as int]);
                assert(rest.drop_first() =~= self.entries@.skip(i as int + 1));
            }
            if e.0 == *path {
                return match &e.1 {
                    FsNode::Dir => ProbeResult::Dir,
                    FsNode::FileContent(c) => ProbeResult::Content(c.clone()),
                    FsNode::FileDenied => ProbeResult::Denied,
                };
            }
            i += 1;
        }
        proof {
            assert(self.entries@.skip(n as int).len() == 0);
        }
        ProbeResult::Missing
    }
}

/// Resolution of `path` against the filesystem `fs`, descending at most
/// `depth` directory levels. A missing entry resolves as missing; a
/// readable file as found, with its content and tag; a file that cannot be
/// read as unreadable; a directory as the first of its index candidates —
/// `index.html`, then `index.shtml`, then `index.txt` — that does not
/// resolve as missing, or as missing when all three do. A directory met
/// with no depth left resolves as unreadable.
pub open spec fn resolve_path(
    fs: Map<Seq<char>, FsNodeView>,
    path: Seq<char>,
    depth: nat,
) -> ResolutionView
    decreases depth,
{
    match probe_of(fs, path) {
        ProbeView::Missing => ResolutionView::Missing,
        ProbeView::Denied => ResolutionView::Unreadable,
        ProbeView::Content(c) => ResolutionView::Found { body: c, tag: tag_of(path) },
        ProbeView::Dir => {
            if depth == 0 {
                ResolutionView::Unreadable
            } else {
                let r1 = resolve_path(fs, join_path(path, index_html()), (depth - 1) as nat);
                let r2 = resolve_path(fs, join_path(path, index_shtml()), (depth - 1) as nat);
                let r3 = resolve_path(fs, join_path(path, index_txt()), (depth - 1) as nat);
                if !(r1 is Missing) {
                    r1
                } else if !(r2 is Missing) {
                    r2
                } else if !(r3 is Missing) {
                    r3
                } else {
                    ResolutionView::Missing
                }
            }
        },
    }
}

/// Resolution of a whole candidate stack: that of the topmost candidate
/// that does not resolve as missing, or missing when every one does.
spec fn resolve_stack(
    fs: Map<Seq<char>, FsNodeView>,
    stack: Seq<(Seq<char>, nat)>,
) -> ResolutionView
    decreases stack.len(),
{
    if stack.len() == 0 {
        ResolutionView::Missing
    } else {
        let r = resolve_path(fs, stack.last().0, stack.last().1);
        if !(r is Missing) {
            r
        } else {
            resolve_stack(fs, stack.drop_last())
        }
    }
}

/// Four to the power `n`: the termination measure of one candidate, which
/// outweighs the three candidates of the next depth that may replace it.
spec fn pow4(n: nat) -> nat
    decreases n,
{
    if n == 0 {
        1
    } else {
        4 * pow4((n - 1) as nat)
    }
}

proof fn lemma_pow4_pos(n: nat)
    ensures
        pow4(n) >= 1,
    decreases n,
{
    if n > 0 {
        lemma_pow4_pos((n - 1) as nat);
    }
}

/// The termination measure of a candidate stack.
spec fn stack_measure(stack: Seq<(Seq<char>, nat)>) -> nat
    decreases stack.len(),
{
    if stack.len() == 0 {
        0
    } else {
        pow4(stack.last().1) + stack_measure(stack.drop_last())
    }
}

/// One machine transition fed a truthful probe keeps the stack's
/// resolution (or ends with exactly it) and shrinks the measure.
proof fn lemma_advance_preserves(
    fs: Map<Seq<char>, FsNodeView>,
    stack: Seq<(Seq<char>, nat)>,
    pr: ProbeView,
)
    requires
        stack.len() > 0,
        pr == probe_of(fs, stack.last().0),
    ensures
        stack_measure(advance_view(stack, pr).0) < stack_measure(stack),
        match advance_view(stack, pr).1 {
            StepView::Probe(p) => advance_view(stack, pr).0.len() > 0 && advance_view(
                stack,
                pr,
            ).0.last().0 == p && resolve_stack(fs, advance_view(stack, pr).0) == resolve_stack(
                fs,
                stack,
            ),
            StepView::Done(r) => r == resolve_stack(fs, stack),
        },
{
    let p = stack.last().0;
    let d = stack.last().1;
    let rest = stack.drop_last();
    lemma_pow4_pos(d);
    assert(stack_measure(stack) == pow4(d) + stack_measure(rest));
    if rest.len() == 0 {
        assert(resolve_stack(fs, rest) == ResolutionView::Missing);
    }
    if pr is Dir && d > 0 {
        let a = (join_path(p, index_txt()), (d - 1) as nat);
        let b = (join_path(p, index_shtml()), (d - 1) as nat);
        let h = (join_path(p, index_html()), (d - 1) as nat);
        let ns = rest.push(a).push(b).push(h);
        assert(ns.drop_last() =~= rest.push(a).push(b));
        assert(rest.push(a).push(b).drop_last() =~= rest.push(a));
        assert(rest.push(a).drop_last() =~= rest);
        lemma_pow4_pos((d - 1) as nat);
        assert(pow4(d) == 4 * pow4((d - 1) as nat));
        assert(advance_view(stack, pr).0 == ns);
        assert(stack_measure(ns) == pow4((d - 1) as nat) + stack_measure(rest.push(a).push(b)));
        assert(stack_measure(rest.push(a).push(b)) == pow4((d - 1) as nat) + stack_measure(
            rest.push(a),
        ));
        assert(stack_measure(rest.push(a)) == pow4((d - 1) as nat) + stack_measure(rest));
        let rh = resolve_path(fs, h.0, h.1);
        let rs = resolve_path(fs, b.0, b.1);
        let rt = resolve_path(fs, a.0, a.1);
        assert(resolve_stack(fs, ns) == if !(rh is Missing) {
            rh
        } else {
            resolve_stack(fs, rest.push(a).push(b))
        });
        assert(resolve_stack(fs, rest.push(a).push(b)) == if !(rs is Missing) {
            rs
        } else {
            resolve_stack(fs, rest.push(a))
        });
        assert(resolve_stack(fs, rest.push(a)) == if !(rt is Missing) {
            rt
        } else {
            resolve_stack(fs, rest)
        });
    }
}

/// Resolves `path` against the filesystem model `fs` by running the
/// resolution machine and answering each of its probes from the model:
/// the result is exactly [`resolve_path`], with depth [`MAX_DEPTH`].
pub fn resolve_in(fs: &FsModel, path: &String) -> (r: Resolution)
    ensures
        r@ == resolve_path(fs@, path@, MAX_DEPTH as nat),
{
    let mut m = Resolver::new(path.clone());
    let mut step = m.next_action();
    proof {
        assert(m@.drop_last() =~= Seq::<(Seq<char>, nat)>::empty());
        assert(m@.last() == (path@, MAX_DEPTH as nat));
        assert(resolve_stack(fs@, m@.drop_last()) == ResolutionView::Missing);
        assert(resolve_stack(fs@, m@) == resolve_path(fs@, path@, MAX_DEPTH as nat));
    }
    loop
        invariant
            match step@ {
                StepView::Probe(p) => m@.len() > 0 && m@.last().0 == p && resolve_stack(fs@, m@)
                    == resolve_path(fs@, path@, MAX_DEPTH as nat),
                StepView::Done(r) => r == resolve_path(fs@, path@, MAX_DEPTH as nat),
            },
        decreases stack_measure(m@),
    {
        match step {
            Step::Done(r) => {
                return r;
            },
            Step::Probe(p) => {
                let pr = fs.probe(&p);
                proof {
                    lemma_advance_preserves(fs@, m@, pr@);
                }
                step = m.advance(pr);
            },
        }
    }
}

/// Directory index precedence: a directory path with depth left resolves
/// to the resolution of its `index.html` candidate when that is not
/// missing, else to that of `index.shtml`, else to that of `index.txt`,
/// else to missing.
pub proof fn lemma_directory_index_precedence(
    fs: Map<Seq<char>, FsNodeView>,
    path: Seq<char>,
    depth: nat,
)
    requires
        fs.contains_key(path),
        fs[path] is Dir,
        depth > 0,
    ensures
        (resolve_path(fs, path, depth) == {
            let r1 = resolve_path(fs, join_path(path, index_html()), (depth - 1) as nat);
            let r2 = resolve_path(fs, join_path(path, index_shtml()), (depth - 1) as nat);
            let r3 = resolve_path(fs, join_path(path, index_txt()), (depth - 1) as nat);
            if !(r1 is Missing) {
                r1
            } else if !(r2 is Missing) {
                r2
            } else if !(r3 is Missing) {
                r3
            } else {
                ResolutionView::Missing
            }
        }),
{
}

} // verus!
