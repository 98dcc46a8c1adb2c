//! Walks over a directory tree held in memory.
//!
//! A [`Node`] is a snapshot of a directory entry and of what lies below it.
//! [`walk`] says what a search finds in such a tree; [`find`] computes it by
//! driving a [`Walker`] over the tree.

use crate::config::{Config, ConfigView, MatchMode};
use crate::matcher::MatchFn;
use crate::walk::{
    entry_views, visit, Entry, EntryView, FindError, FindErrorView, FindResult, Found, FrameView,
    Step, StepView, Walker,
};
use vstd::prelude::*;

verus! {

/// A directory entry together with what a listing of it gives.
pub struct Node {
    pub entry: Entry,
    /// The entries of the directory; `None` where it cannot be listed.
    pub listing: Option<Vec<Node>>,
}

/// How a walk ended: what it found, and the error that stopped it, if any.
pub struct Walked {
    pub found: Found,
    pub error: Option<FindErrorView>,
}

/// The entries of a listing, without what lies below them.
pub open spec fn listing_entries(children: Seq<Node>) -> Seq<EntryView> {
    Seq::new(children.len(), |i: int| children[i].entry@)
}

/// The walk through the entries of a directory from position `at` on.
///
/// The directory lies at `dir`, `depth` directories below the start, and
/// `found` is what the walk has found before. Each entry is dealt with as
/// [`visit`] says. A directory that is to be opened is walked through from
/// its first entry, one level deeper, and counted afterwards; if it cannot
/// be listed, the walk ends there. An error ends the walk at once.
pub open spec fn walk_children(
    children: Seq<Node>,
    at: int,
    dir: Seq<Seq<char>>,
    depth: nat,
    config: ConfigView,
    mode: MatchMode,
    found: Found,
) -> Walked
    decreases config.max_depth - depth, children.len() - at,
{
    if at < 0 || at >= children.len() {
        Walked { found, error: None }
    } else {
        let child = children[at];
        let (seen, step) = visit(child.entry@, dir, depth, config, mode, found);
        match step {
            StepView::Fail(error) => Walked { found: seen, error: Some(error) },
            StepView::Open(path) => match child.listing {
                None => Walked { found: seen, error: Some(FindErrorView::ReadDir(path)) },
                Some(below) => if depth < config.max_depth {
                    let inner = walk_children(below@, 0, path, depth + 1, config, mode, seen);
                    if inner.error is Some {
                        inner
                    } else {
                        walk_children(children, at + 1, dir, depth, config, mode, inner.found.count())
                    }
                } else {
                    Walked { found: seen, error: None }
                },
            },
            _ => walk_children(children, at + 1, dir, depth, config, mode, seen),
        }
    }
}

/// The walk that starts at `root`, taken to lie `depth` directories below
/// the point from which depth is counted.
///
/// Beyond the greatest depth nothing is opened and nothing found. Otherwise
/// the root is listed, which fails if it cannot be, and its entries are
/// walked through. Paths are relative to the root.
pub open spec fn walk(
    root: Node,
    depth: nat,
    config: ConfigView,
    mode: MatchMode,
    found: Found,
) -> Walked {
    if depth > config.max_depth {
        Walked { found, error: None }
    } else {
        match root.listing {
            None => Walked { found, error: Some(FindErrorView::ReadDir(Seq::empty())) },
            Some(children) => walk_children(children@, 0, Seq::empty(), depth, config, mode, found),
        }
    }
}

/// How many entries lie in a listing from position `at` on and in the
/// listings below them, down to the greatest depth.
pub open spec fn entries_within(children: Seq<Node>, at: int, depth: nat, max_depth: nat) -> nat
    decreases max_depth - depth, children.len() - at,
{
    if at < 0 || at >= children.len() {
        0
    } else {
        let below = match children[at].listing {
            Some(below) => if depth < max_depth {
                entries_within(below@, 0, depth + 1, max_depth)
            } else {
                0
            },
            None => 0,
        };
        1 + below + entries_within(children, at + 1, depth, max_depth)
    }
}

/// How many entries a walk from `root` can come to look at.
pub open spec fn entries_in_reach(root: Node, depth: nat, max_depth: nat) -> nat {
    if depth > max_depth {
        0
    } else {
        match root.listing {
            None => 0,
            Some(children) => entries_within(children@, 0, depth, max_depth),
        }
    }
}

/// A walk never lowers a counter, and raises neither by more than the number
/// of entries within its reach.
pub proof fn lemma_walk_counts(
    children: Seq<Node>,
    at: int,
    dir: Seq<Seq<char>>,
    depth: nat,
    config: ConfigView,
    mode: MatchMode,
    found: Found,
)
    requires
        0 <= at,
        depth <= config.max_depth,
    ensures
        ({
            let walked = walk_children(children, at, dir, depth, config, mode, found);
            let reach = entries_within(children, at, depth, config.max_depth);
            &&& found.analyzed <= walked.found.analyzed <= found.analyzed + reach
            &&& found.skipped <= walked.found.skipped <= found.skipped + reach
        }),
    decreases config.max_depth - depth, children.len() - at,
{
    if at < children.len() {
        let child = children[at];
        let (seen, step) = visit(child.entry@, dir, depth, config, mode, found);
        match step {
            StepView::Fail(error) => {},
            StepView::Open(path) => match child.listing {
                None => {},
                Some(below) => {
                    lemma_walk_counts(below@, 0, path, depth + 1, config, mode, seen);
                    let inner = walk_children(below@, 0, path, depth + 1, config, mode, seen);
                    if inner.error is None {
                        lemma_walk_counts(
                            children,
                            at + 1,
                            dir,
                            depth,
                            config,
                            mode,
                            inner.found.count(),
                        );
                    }
                },
            },
            _ => {
                lemma_walk_counts(children, at + 1, dir, depth, config, mode, seen);
            },
        }
    }
}

/// A copy of the entries of a listing, without what lies below them.
fn entries_of(children: &Vec<Node>) -> (listing: Vec<Entry>)
    ensures
        entry_views(listing@) == listing_entries(children@),
{
    let mut listing: Vec<Entry> = Vec::new();
    let mut i: usize = 0;
    while i < children.len()
        invariant
            i <= children.len(),
            listing.len() == i,
            forall|k: int| 0 <= k < i ==> listing[k]@ == children[k].entry@,
        decreases children.len() - i,
    {
        let name = match &children[i].entry.name {
            Some(name) => Some(name.clone()),
            None => None,
        };
        listing.push(Entry { name, kind: children[i].entry.kind });
        i += 1;
    }
    listing
}

/// Drives the walker through the directory it has just entered, whose
/// entries are `children`, and back out of it.
fn walk_listing(
    children: &Vec<Node>,
    walker: &mut Walker,
    config: &Config,
    match_fn: &MatchFn,
    result: &mut FindResult,
) -> (outcome: Result<(), FindError>)
    requires
        old(walker)@.wf(),
        old(walker)@.phase is Walking,
        old(walker)@.frames.last().entries == listing_entries(children@),
        old(walker)@.frames.last().next == 0,
        old(walker)@.frames.last().depth <= config@.max_depth,
        old(result)@.analyzed + entries_within(
            children@,
            0,
            old(walker)@.frames.last().depth,
            config@.max_depth,
        ) + 1 < usize::MAX,
        old(result)@.skipped + entries_within(
            children@,
            0,
            old(walker)@.frames.last().depth,
            config@.max_depth,
        ) + 1 < usize::MAX,
    ensures
        ({
            let top = old(walker)@.frames.last();
            let outer = old(walker)@.frames.drop_last();
            let walked = walk_children(
                children@,
                0,
                top.path,
                top.depth,
                config@,
                match_fn.mode,
                old(result)@,
            );
            match outcome {
                Ok(_) => {
                    &&& walked.error is None
                    &&& final(walker)@.wf()
                    &&& final(walker)@.frames == outer
                    &&& outer.len() > 0 ==> final(walker)@.phase is Walking && final(result)@
                        == walked.found.count()
                    &&& outer.len() == 0 ==> final(walker)@.phase is Finished && final(result)@
                        == walked.found
                },
                Err(error) => walked.error == Some(error@) && final(result)@ == walked.found,
            }
        }),
    decreases config@.max_depth - old(walker)@.frames.last().depth,
{
    let ghost top = walker@.frames.last();
    let ghost outer = walker@.frames.drop_last();
    let ghost whole = walk_children(
        children@,
        0,
        top.path,
        top.depth,
        config@,
        match_fn.mode,
        result@,
    );
    let mut i: usize = 0;
    while i < children.len()
        invariant
            i <= children.len(),
            old(walker)@.frames.len() > 0,
            top == old(walker)@.frames.last(),
            outer == old(walker)@.frames.drop_last(),
            whole == walk_children(
                children@,
                0,
                top.path,
                top.depth,
                config@,
                match_fn.mode,
                old(result)@,
            ),
            walker@.wf(),
            walker@.phase is Walking,
            walker@.frames == outer.push(FrameView { next: i as nat, ..top }),
            top.entries == listing_entries(children@),
            top.depth <= config@.max_depth,
            walk_children(children@, i as int, top.path, top.depth, config@, match_fn.mode, result@)
                == whole,
            result@.analyzed + entries_within(children@, i as int, top.depth, config@.max_depth) + 1
                < usize::MAX,
            result@.skipped + entries_within(children@, i as int, top.depth, config@.max_depth) + 1
                < usize::MAX,
        decreases children.len() - i,
    {
        let step = walker.step(config, match_fn, result);
        match step {
            Step::Continue => {},
            Step::Open(path) => {
                match &children[i].listing {
                    None => {
                        return Err(FindError::ReadDir(path));
                    },
                    Some(below) => {
                        walker.enter(entries_of(below));
                        let ghost seen = result@;
                        let ghost inside = walker@.frames;
                        assert(inside.drop_last() =~= outer.push(
                            FrameView { next: (i + 1) as nat, ..top },
                        ));
                        match walk_listing(below, walker, config, match_fn, result) {
                            Err(error) => {
                                return Err(error);
                            },
                            Ok(_) => {},
                        }
                        proof {
                            lemma_walk_counts(
                                below@,
                                0,
                                inside.last().path,
                                top.depth + 1,
                                config@,
                                match_fn.mode,
                                seen,
                            );
                        }
                    },
                }
            },
            Step::Done => {
                assert(false);
            },
            Step::Fail(error) => {
                return Err(error);
            },
        }
        i += 1;
    }
    let _ = walker.step(config, match_fn, result);
    Ok(())
}

/// Searches the tree below `root` and adds what it finds to `result`.
///
/// `root` is taken to lie `depth` directories below the point from which
/// depth is counted; its own name and kind play no part. The matched paths
/// are added in the order of a depth-first walk that reports an entry before
/// it goes into it, and the counters are raised as the walk goes. The result
/// is that of [`walk`]; the search fails exactly where [`walk`] ends in an
/// error, with that error.
///
/// The counters must have room for the entries within reach of the walk.
pub fn find(
    root: &Node,
    depth: usize,
    config: &Config,
    result: &mut FindResult,
    match_fn: &MatchFn,
) -> (outcome: Result<(), FindError>)
    requires
        old(result)@.analyzed + entries_in_reach(*root, depth as nat, config@.max_depth) + 1
            < usize::MAX,
        old(result)@.skipped + entries_in_reach(*root, depth as nat, config@.max_depth) + 1
            < usize::MAX,
    ensures
        ({
            let walked = walk(*root, depth as nat, config@, match_fn.mode, old(result)@);
            &&& final(result)@ == walked.found
            &&& match outcome {
                Ok(_) => walked.error is None,
                Err(error) => walked.error == Some(error@),
            }
        }),
{
    let mut walker = Walker::new(depth);
    match walker.step(config, match_fn, result) {
        Step::Open(path) => match &root.listing {
            None => Err(FindError::ReadDir(path)),
            Some(children) => {
                walker.enter(entries_of(children));
                walk_listing(children, &mut walker, config, match_fn, result)
            },
        },
        _ => Ok(()),
    }
}

} // verus!
