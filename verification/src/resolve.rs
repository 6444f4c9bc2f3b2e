//! Resource resolution, as a state machine.
//!
//! Resolving a path means finding a readable file for it: a path that
//! names a directory is retried with `index.html`, `index.shtml` and
//! `index.txt` appended, in that order, descending further when a
//! candidate is itself a directory. The machine never touches the
//! filesystem: it hands its caller one candidate path at a time, and the
//! caller feeds back what a probe of that path found. Nested directory
//! lookups are bounded by [`MAX_DEPTH`]; a deeper chain (a symlink loop,
//! say) resolves as unreadable rather than recursing without end.

use crate::content::{content_tag, tag_of, ContentTag};
use vstd::prelude::*;

verus! {

/// What probing one path in the filesystem found: no such entry, a
/// directory, a readable file with its text, or an entry whose open or
/// read failed.
#[derive(Debug)]
pub enum ProbeResult {
    Missing,
    Dir,
    Content(String),
    Denied,
}

/// [`ProbeResult`] at the specification level.
pub enum ProbeView {
    Missing,
    Dir,
    Content(Seq<char>),
    Denied,
}

impl View for ProbeResult {
    type V = ProbeView;

    open spec fn view(&self) -> ProbeView {
        match self {
            ProbeResult::Missing => ProbeView::Missing,
            ProbeResult::Dir => ProbeView::Dir,
            ProbeResult::Content(c) => ProbeView::Content(c@),
            ProbeResult::Denied => ProbeView::Denied,
        }
    }
}

/// The terminal result of resolving one path: a readable file with its
/// content and tag, no file at all (owing a 404), or a file that exists
/// but cannot be read (owing a 403).
#[derive(Debug, PartialEq)]
pub enum Resolution {
    Found { body: String, tag: ContentTag },
    Missing,
    Unreadable,
}

/// [`Resolution`] at the specification level.
pub enum ResolutionView {
    Found { body: Seq<char>, tag: ContentTag },
    Missing,
    Unreadable,
}

impl View for Resolution {
    type V = ResolutionView;

    open spec fn view(&self) -> ResolutionView {
        match self {
            Resolution::Found { body, tag } => ResolutionView::Found { body: body@, tag: *tag },
            Resolution::Missing => ResolutionView::Missing,
            Resolution::Unreadable => ResolutionView::Unreadable,
        }
    }
}

/// What the machine asks of its caller next: probe a path, or stop with
/// the resolution.
#[derive(Debug)]
pub enum Step {
    Probe(String),
    Done(Resolution),
}

/// [`Step`] at the specification level.
pub enum StepView {
    Probe(Seq<char>),
    Done(ResolutionView),
}

impl View for Step {
    type V = StepView;

    open spec fn view(&self) -> StepView {
        match self {
            Step::Probe(p) => StepView::Probe(p@),
            Step::Done(r) => StepView::Done(r@),
        }
    }
}

/// The first index-file name tried inside a directory.
pub open spec fn index_html() -> Seq<char> {
    "index.html"@
}

/// The second index-file name tried inside a directory.
pub open spec fn index_shtml() -> Seq<char> {
    "index.shtml"@
}

/// The third index-file name tried inside a directory.
pub open spec fn index_txt() -> Seq<char> {
    "index.txt"@
}

/// `dir` and `name` joined with exactly one `/` between them.
pub open spec fn join_path(dir: Seq<char>, name: Seq<char>) -> Seq<char> {
    if dir.len() > 0 && dir[dir.len() - 1] == '/' {
        dir + name
    } else {
        dir + seq!['/'] + name
    }
}

/// Joins a directory path and an index-file name.
fn join_index(dir: &String, name: &str) -> (r: String)
    ensures
        r@ == join_path(dir@, name@),
{
    let mut out = dir.clone();
    let n = dir.as_str().unicode_len();
    if n == 0 || dir.as_str().get_char(n - 1) != '/' {
        out.append("/");
        proof {
            reveal_strlit("/");
            assert(out@ =~= dir@ + seq!['/']);
        }
    }
    out.append(name);
    proof {
        if dir@.len() > 0 && dir@[dir@.len() - 1] == '/' {
            assert(out@ =~= join_path(dir@, name@));
        } else {
            assert(out@ =~= dir@ + seq!['/'] + name@);
        }
    }
    out
}

/// Bound on nested directory lookups. A chain of directories deeper than
/// this (only a pathological tree or a symlink loop reaches it) resolves
/// as unreadable instead of descending without end.
pub const MAX_DEPTH: usize = 32;

/// The resolution machine: a stack of candidate paths still to try, each
/// with the directory depth it may still descend. The top of the stack is
/// the candidate probed next.
pub struct Resolver {
    stack: Vec<(String, usize)>,
}

impl View for Resolver {
    type V = Seq<(Seq<char>, nat)>;

    closed spec fn view(&self) -> Seq<(Seq<char>, nat)> {
        self.stack@.map_values(|e: (String, usize)| (e.0@, e.1 as nat))
    }
}

/// One transition of the machine, at the specification level: from the
/// candidate stack and what the probe of its top found, to the new stack
/// and what the machine asks next. A missing candidate is dropped and the
/// next one probed; a readable file ends resolution with its content and
/// tag; a denied one ends it as unreadable; a directory is replaced by its
/// three index-file candidates (probing `index.html` first) unless its
/// depth is spent, which counts as unreadable.
pub open spec fn advance_view(stack: Seq<(Seq<char>, nat)>, pr: ProbeView) -> (Seq<
    (Seq<char>, nat),
>, StepView) {
    if stack.len() == 0 {
        (stack, StepView::Done(ResolutionView::Missing))
    } else {
        let p = stack.last().0;
        let d = stack.last().1;
        let rest = stack.drop_last();
        match pr {
            ProbeView::Missing => (
                rest,
                if rest.len() == 0 {
                    StepView::Done(ResolutionView::Missing)
                } else {
                    StepView::Probe(rest.last().0)
                },
            ),
            ProbeView::Denied => (rest, StepView::Done(ResolutionView::Unreadable)),
            ProbeView::Content(c) => (
                rest,
                StepView::Done(ResolutionView::Found { body: c, tag: tag_of(p) }),
            ),
            ProbeView::Dir => {
                if d == 0 {
                    (rest, StepView::Done(ResolutionView::Unreadable))
                } else {
                    let pushed = rest.push((join_path(p, index_txt()), (d - 1) as nat)).push(
                        (join_path(p, index_shtml()), (d - 1) as nat),
                    ).push((join_path(p, index_html()), (d - 1) as nat));
                    (pushed, StepView::Probe(join_path(p, index_html())))
                }
            },
        }
    }
}

impl Resolver {
    /// Starts resolving `path`.
    pub fn new(path: String) -> (r: Resolver)
        ensures
            r@ == seq![(path@, MAX_DEPTH as nat)],
    {
        let mut stack: Vec<(String, usize)> = Vec::new();
        stack.push((path, MAX_DEPTH));
        let r = Resolver { stack };
        proof {
            assert(r@ =~= seq![(path@, MAX_DEPTH as nat)]);
        }
        r
    }

    /// What to do next: probe the top candidate, or — with no candidate
    /// left — stop, the resource is missing.
    pub fn next_action(&self) -> (s: Step)
        ensures
            self@.len() == 0 ==> s@ == StepView::Done(ResolutionView::Missing),
            self@.len() > 0 ==> s@ == StepView::Probe(self@.last().0),
    {
        if self.stack.len() == 0 {
            Step::Done(Resolution::Missing)
        } else {
            let p = self.stack[self.stack.len() - 1].0.clone();
            Step::Probe(p)
        }
    }

    /// Feeds the machine what the probe of the top candidate found, and
    /// hands back what to do next. With an empty stack (only reachable by
    /// calling past a final [`Step::Done`]) nothing changes and the answer
    /// stays missing.
    pub fn advance(&mut self, pr: ProbeResult) -> (s: Step)
        ensures
            final(self)@ == advance_view(old(self)@, pr@).0,
            s@ == advance_view(old(self)@, pr@).1,
    {
        if self.stack.len() == 0 {
            return Step::Done(Resolution::Missing);
        }
        let top = self.stack.pop().unwrap();
        proof {
            assert(self@ =~= old(self)@.drop_last());
            assert(top.0@ == old(self)@.last().0);
            assert(top.1 as nat == old(self)@.last().1);
        }
        match pr {
            ProbeResult::Missing => self.next_action(),
            ProbeResult::Denied => Step::Done(Resolution::Unreadable),
            ProbeResult::Content(c) => {
                let t = content_tag(top.0.as_str());
                Step::Done(Resolution::Found { body: c, tag: t })
            },
            ProbeResult::Dir => {
                if top.1 == 0 {
                    Step::Done(Resolution::Unreadable)
                } else {
                    let d = top.1 - 1;
                    let txt = join_index(&top.0, "index.txt");
                    let shtml = join_index(&top.0, "index.shtml");
                    let html = join_index(&top.0, "index.html");
                    let probe = html.clone();
                    self.stack.push((txt, d));
                    self.stack.push((shtml, d));
                    self.stack.push((html, d));
                    proof {
                        assert(self@ =~= advance_view(old(self)@, pr@).0);
                    }
                    Step::Probe(probe)
                }
            },
        }
    }
}

} // verus!
