//! What holds of every search.
//!
//! The paths that a walk reports are characterised without reference to the
//! order of the walk: [`reported`] says which relative paths of a tree are
//! reported, [`lemma_emitted_is_reported`] and [`lemma_reported_is_emitted`]
//! show that a walk adds exactly those, and the laws that follow are read off
//! that characterisation.

use crate::config::{default_excludes, ConfigView, MatchMode};
use crate::matcher::name_matches;
use crate::tree::{walk, walk_children, Node, Walked};
use crate::walk::{
    comparison_name, pruned, selected, visit, EntryKind, EntryView, Found, StepView,
};
use vstd::prelude::*;

verus! {

/// Some entry of the listing `children`, at position `at` or later, lies on
/// the reported path `rel`: it bears the first name of the path and its kind
/// is known; where the path ends with it, it is selected; where the path
/// goes on, it is a directory that the walk enters, and the rest of the path
/// is reported in its listing. The listing lies `depth` directories below
/// the start.
pub open spec fn reported_from(
    children: Seq<Node>,
    at: int,
    rel: Seq<Seq<char>>,
    depth: nat,
    config: ConfigView,
    mode: MatchMode,
) -> bool
    decreases rel.len(), children.len() - at,
{
    &&& 0 <= at < children.len()
    &&& rel.len() > 0
    &&& {
        let child = children[at];
        ||| {
            &&& child.entry@.name == Some(rel[0])
            &&& child.entry.kind != EntryKind::Unknown
            &&& if rel.len() == 1 {
                selected(rel[0], child.entry.kind, mode, config)
            } else {
                &&& child.entry.kind == EntryKind::Directory
                &&& !pruned(rel[0], config)
                &&& depth < config.max_depth
                &&& child.listing is Some
                &&& reported_from(
                    child.listing->0@,
                    0,
                    rel.drop_first(),
                    depth + 1,
                    config,
                    mode,
                )
            }
        }
        ||| reported_from(children, at + 1, rel, depth, config, mode)
    }
}

/// The path `rel`, relative to a directory with the listing `children` that
/// lies `depth` directories below the start, is one that a search reports.
pub open spec fn reported(
    children: Seq<Node>,
    rel: Seq<Seq<char>>,
    depth: nat,
    config: ConfigView,
    mode: MatchMode,
) -> bool {
    reported_from(children, 0, rel, depth, config, mode)
}

/// The listing `children` holds, at position `at` or later, the beginning of
/// the path `rel`, and the path leads through listable directories to an
/// entry of kind `kind`.
pub open spec fn present_from(
    children: Seq<Node>,
    at: int,
    rel: Seq<Seq<char>>,
    kind: EntryKind,
) -> bool
    decreases rel.len(), children.len() - at,
{
    &&& 0 <= at < children.len()
    &&& rel.len() > 0
    &&& {
        let child = children[at];
        ||| {
            &&& child.entry@.name == Some(rel[0])
            &&& if rel.len() == 1 {
                child.entry.kind == kind
            } else {
                &&& child.entry.kind == EntryKind::Directory
                &&& child.listing is Some
                &&& present_from(child.listing->0@, 0, rel.drop_first(), kind)
            }
        }
        ||| present_from(children, at + 1, rel, kind)
    }
}

/// The tree below a directory with the listing `children` holds an entry of
/// kind `kind` at the path `rel`.
pub open spec fn present(children: Seq<Node>, rel: Seq<Seq<char>>, kind: EntryKind) -> bool {
    present_from(children, 0, rel, kind)
}

/// The kind of entry that a search reports.
pub open spec fn wanted_kind(config: ConfigView) -> EntryKind {
    if config.is_dir {
        EntryKind::Directory
    } else {
        EntryKind::File
    }
}

/// No directory on the way to the entry at `rel` is pruned.
pub open spec fn way_unpruned(rel: Seq<Seq<char>>, config: ConfigView) -> bool {
    forall|j: int| 0 <= j < rel.len() - 1 ==> !pruned(#[trigger] rel[j], config)
}

/// A walk only adds to the matches: what was found before stays in place.
pub proof fn lemma_walk_appends(
    children: Seq<Node>,
    at: int,
    dir: Seq<Seq<char>>,
    depth: nat,
    config: ConfigView,
    mode: MatchMode,
    found: Found,
)
    requires
        0 <= at,
    ensures
        found.entries.is_prefix_of(
            walk_children(children, at, dir, depth, config, mode, found).found.entries,
        ),
    decreases config.max_depth - depth, children.len() - at,
{
    if at < children.len() {
        let child = children[at];
        let (seen, step) = visit(child.entry@, dir, depth, config, mode, found);
        assert(found.entries.is_prefix_of(seen.entries));
        match step {
            StepView::Fail(error) => {},
            StepView::Open(path) => match child.listing {
                None => {},
                Some(below) => {
                    lemma_walk_appends(below@, 0, path, depth + 1, config, mode, seen);
                    let inner = walk_children(below@, 0, path, depth + 1, config, mode, seen);
                    if inner.error is None {
                        lemma_walk_appends(
                            children,
                            at + 1,
                            dir,
                            depth,
                            config,
                            mode,
                            inner.found.count(),
                        );
                    }
                },
            },
            _ => {
                lemma_walk_appends(children, at + 1, dir, depth, config, mode, seen);
            },
        }
    }
}

/// What the walk adds for an entry itself stays where it was put while the
/// walk goes on.
proof fn lemma_rest_keeps(
    children: Seq<Node>,
    at: int,
    dir: Seq<Seq<char>>,
    depth: nat,
    config: ConfigView,
    mode: MatchMode,
    found: Found,
    k: int,
)
    requires
        0 <= at < children.len(),
        0 <= k < visit(children[at].entry@, dir, depth, config, mode, found).0.entries.len(),
    ensures
        k < walk_children(children, at, dir, depth, config, mode, found).found.entries.len(),
        walk_children(children, at, dir, depth, config, mode, found).found.entries[k] == visit(
            children[at].entry@,
            dir,
            depth,
            config,
            mode,
            found,
        ).0.entries[k],
{
    let child = children[at];
    let (seen, step) = visit(child.entry@, dir, depth, config, mode, found);
    match step {
        StepView::Fail(error) => {},
        StepView::Open(path) => match child.listing {
            None => {},
            Some(below) => {
                lemma_walk_appends(below@, 0, path, depth + 1, config, mode, seen);
                let inner = walk_children(below@, 0, path, depth + 1, config, mode, seen);
                if inner.error is None {
                    lemma_walk_appends(
                        children,
                        at + 1,
                        dir,
                        depth,
                        config,
                        mode,
                        inner.found.count(),
                    );
                }
            },
        },
        _ => {
            lemma_walk_appends(children, at + 1, dir, depth, config, mode, seen);
        },
    }
}

/// Every path that a walk adds lies below the directory walked through, and
/// the part of it below that directory is a reported path.
pub proof fn lemma_emitted_is_reported(
    children: Seq<Node>,
    at: int,
    dir: Seq<Seq<char>>,
    depth: nat,
    config: ConfigView,
    mode: MatchMode,
    found: Found,
    k: int,
)
    requires
        0 <= at,
        found.entries.len() <= k < walk_children(
            children,
            at,
            dir,
            depth,
            config,
            mode,
            found,
        ).found.entries.len(),
    ensures
        ({
            let path = walk_children(children, at, dir, depth, config, mode, found).found.entries[k];
            &&& dir.is_prefix_of(path)
            &&& reported_from(children, at, path.skip(dir.len() as int), depth, config, mode)
        }),
    decreases config.max_depth - depth, children.len() - at,
{
    let walked = walk_children(children, at, dir, depth, config, mode, found);
    if at < children.len() {
        let child = children[at];
        let (seen, step) = visit(child.entry@, dir, depth, config, mode, found);
        if k < seen.entries.len() {
            lemma_rest_keeps(children, at, dir, depth, config, mode, found, k);
        } else {
            match step {
                StepView::Fail(error) => {},
                StepView::Open(path) => match child.listing {
                    None => {},
                    Some(below) => {
                        let inner = walk_children(below@, 0, path, depth + 1, config, mode, seen);
                        if k < inner.found.entries.len() {
                            lemma_emitted_is_reported(
                                below@,
                                0,
                                path,
                                depth + 1,
                                config,
                                mode,
                                seen,
                                k,
                            );
                            if inner.error is None {
                                lemma_walk_appends(
                                    children,
                                    at + 1,
                                    dir,
                                    depth,
                                    config,
                                    mode,
                                    inner.found.count(),
                                );
                            }
                            let whole = walked.found.entries[k];
                            let rel = whole.skip(dir.len() as int);
                            assert(path[dir.len() as int] == child.entry@.name->0);
                            assert(rel.drop_first() =~= whole.skip(path.len() as int));
                        } else {
                            lemma_emitted_is_reported(
                                children,
                                at + 1,
                                dir,
                                depth,
                                config,
                                mode,
                                inner.found.count(),
                                k,
                            );
                        }
                    },
                },
                _ => {
                    lemma_emitted_is_reported(children, at + 1, dir, depth, config, mode, seen, k);
                },
            }
        }
    }
}

/// Where a walk ends without an error, it has added every reported path: the
/// position of the path among the matches is returned.
pub proof fn lemma_reported_is_emitted(
    children: Seq<Node>,
    at: int,
    dir: Seq<Seq<char>>,
    depth: nat,
    config: ConfigView,
    mode: MatchMode,
    found: Found,
    rel: Seq<Seq<char>>,
) -> (k: int)
    requires
        walk_children(children, at, dir, depth, config, mode, found).error is None,
        reported_from(children, at, rel, depth, config, mode),
    ensures
        found.entries.len() <= k < walk_children(
            children,
            at,
            dir,
            depth,
            config,
            mode,
            found,
        ).found.entries.len(),
        walk_children(children, at, dir, depth, config, mode, found).found.entries[k] == dir + rel,
    decreases rel.len(), children.len() - at,
{
    let child = children[at];
    let (seen, step) = visit(child.entry@, dir, depth, config, mode, found);
    let here = child.entry@.name == Some(rel[0]) && child.entry.kind != EntryKind::Unknown;
    if here && rel.len() == 1 && selected(rel[0], child.entry.kind, mode, config) {
        let k = found.entries.len() as int;
        lemma_rest_keeps(children, at, dir, depth, config, mode, found, k);
        k
    } else if here && rel.len() > 1 && child.entry.kind == EntryKind::Directory && !pruned(
        rel[0],
        config,
    ) && depth < config.max_depth && child.listing is Some && reported_from(
        child.listing->0@,
        0,
        rel.drop_first(),
        depth + 1,
        config,
        mode,
    ) {
        let path = dir.push(rel[0]);
        let below = child.listing->0;
        let inner = walk_children(below@, 0, path, depth + 1, config, mode, seen);
        let k = lemma_reported_is_emitted(
            below@,
            0,
            path,
            depth + 1,
            config,
            mode,
            seen,
            rel.drop_first(),
        );
        lemma_walk_appends(children, at + 1, dir, depth, config, mode, inner.found.count());
        k
    } else {
        match step {
            StepView::Fail(error) => arbitrary(),
            StepView::Open(path) => match child.listing {
                None => arbitrary(),
                Some(below) => {
                    lemma_walk_appends(below@, 0, path, depth + 1, config, mode, seen);
                    let inner = walk_children(below@, 0, path, depth + 1, config, mode, seen);
                    lemma_reported_is_emitted(
                        children,
                        at + 1,
                        dir,
                        depth,
                        config,
                        mode,
                        inner.found.count(),
                        rel,
                    )
                },
            },
            _ => lemma_reported_is_emitted(children, at + 1, dir, depth, config, mode, seen, rel),
        }
    }
}

/// What a reported path says of the tree and of the configuration: the
/// entry at the path is there and of the kind asked for, its comparison name
/// satisfies the predicate, it lies within the greatest depth, and no
/// directory on the way to it is pruned.
pub proof fn lemma_reported_means(
    children: Seq<Node>,
    at: int,
    rel: Seq<Seq<char>>,
    depth: nat,
    config: ConfigView,
    mode: MatchMode,
)
    requires
        depth <= config.max_depth,
        reported_from(children, at, rel, depth, config, mode),
    ensures
        present_from(children, at, rel, wanted_kind(config)),
        name_matches(mode, comparison_name(rel.last(), config), config),
        rel.len() + depth <= config.max_depth + 1,
        way_unpruned(rel, config),
    decreases rel.len(), children.len() - at,
{
    let child = children[at];
    let here = child.entry@.name == Some(rel[0]) && child.entry.kind != EntryKind::Unknown;
    if here && rel.len() == 1 && selected(rel[0], child.entry.kind, mode, config) {
    } else if here && rel.len() > 1 && child.entry.kind == EntryKind::Directory && !pruned(
        rel[0],
        config,
    ) && depth < config.max_depth && child.listing is Some && reported_from(
        child.listing->0@,
        0,
        rel.drop_first(),
        depth + 1,
        config,
        mode,
    ) {
        let rest = rel.drop_first();
        lemma_reported_means(child.listing->0@, 0, rest, depth + 1, config, mode);
        assert forall|j: int| 0 <= j < rel.len() - 1 implies !pruned(#[trigger] rel[j], config) by {
            if j > 0 {
                assert(rel[j] == rest[j - 1]);
            }
        }
    } else {
        lemma_reported_means(children, at + 1, rel, depth, config, mode);
    }
}

/// An entry of the kind asked for whose comparison name satisfies the
/// predicate, that lies within the greatest depth and is reached through
/// directories none of which is pruned, is at a reported path.
pub proof fn lemma_present_is_reported(
    children: Seq<Node>,
    at: int,
    rel: Seq<Seq<char>>,
    depth: nat,
    config: ConfigView,
    mode: MatchMode,
)
    requires
        present_from(children, at, rel, wanted_kind(config)),
        name_matches(mode, comparison_name(rel.last(), config), config),
        rel.len() + depth <= config.max_depth + 1,
        way_unpruned(rel, config),
    ensures
        reported_from(children, at, rel, depth, config, mode),
    decreases rel.len(), children.len() - at,
{
    let child = children[at];
    let here = child.entry@.name == Some(rel[0]);
    if here && rel.len() == 1 && child.entry.kind == wanted_kind(config) {
    } else if here && rel.len() > 1 && child.entry.kind == EntryKind::Directory
        && child.listing is Some && present_from(
        child.listing->0@,
        0,
        rel.drop_first(),
        wanted_kind(config),
    ) {
        let rest = rel.drop_first();
        assert forall|j: int| 0 <= j < rest.len() - 1 implies !pruned(#[trigger] rest[j], config) by {
        }
        lemma_present_is_reported(child.listing->0@, 0, rest, depth + 1, config, mode);
    } else {
        lemma_present_is_reported(children, at + 1, rel, depth, config, mode);
    }
}

/// What was found before a search stays in place, whether the search ends
/// in an error or not.
pub proof fn lemma_earlier_matches_stay(
    root: Node,
    depth: nat,
    config: ConfigView,
    mode: MatchMode,
    found: Found,
)
    ensures
        found.entries.is_prefix_of(walk(root, depth, config, mode, found).found.entries),
{
    if depth <= config.max_depth && root.listing is Some {
        lemma_walk_appends(root.listing->0@, 0, Seq::empty(), depth, config, mode, found);
    }
}

/// A search that starts beyond the greatest depth opens nothing, finds
/// nothing and ends without an error.
pub proof fn lemma_too_deep_finds_nothing(
    root: Node,
    depth: nat,
    config: ConfigView,
    mode: MatchMode,
    found: Found,
)
    requires
        depth > config.max_depth,
    ensures
        walk(root, depth, config, mode, found) == (Walked { found, error: None }),
{
}

/// A directory whose name is among the included names is not counted as
/// skipped, whatever else holds of its name.
pub proof fn lemma_included_is_not_skipped(
    name: Seq<char>,
    dir: Seq<Seq<char>>,
    depth: nat,
    config: ConfigView,
    mode: MatchMode,
    found: Found,
)
    requires
        config.included.contains(name),
    ensures
        !pruned(name, config),
        visit(
            EntryView { name: Some(name), kind: EntryKind::Directory },
            dir,
            depth,
            config,
            mode,
            found,
        ).0.skipped == found.skipped,
{
}

/// Soundness. Every path that a search adds to the matches names an entry
/// of the tree that has the kind asked for and whose basename, in lowercase
/// where case is ignored, satisfies the predicate.
pub proof fn lemma_matches_are_sound(
    root: Node,
    depth: nat,
    config: ConfigView,
    mode: MatchMode,
    found: Found,
    k: int,
)
    requires
        found.entries.len() <= k < walk(root, depth, config, mode, found).found.entries.len(),
    ensures
        ({
            let path = walk(root, depth, config, mode, found).found.entries[k];
            &&& root.listing is Some
            &&& present(root.listing->0@, path, wanted_kind(config))
            &&& name_matches(mode, comparison_name(path.last(), config), config)
        }),
{
    let children = root.listing->0@;
    let path = walk(root, depth, config, mode, found).found.entries[k];
    lemma_emitted_is_reported(children, 0, Seq::empty(), depth, config, mode, found, k);
    assert(path.skip(0) =~= path);
    lemma_reported_means(children, 0, path, depth, config, mode);
}

/// Completeness. Where a search ends without an error, it has added every
/// entry of the kind asked for whose basename satisfies the predicate, that
/// lies within the greatest depth and is reached through directories none
/// of which is pruned. The position of the entry's path among the matches
/// is returned.
pub proof fn lemma_matches_are_complete(
    root: Node,
    depth: nat,
    config: ConfigView,
    mode: MatchMode,
    found: Found,
    path: Seq<Seq<char>>,
) -> (k: int)
    requires
        walk(root, depth, config, mode, found).error is None,
        root.listing is Some,
        present(root.listing->0@, path, wanted_kind(config)),
        name_matches(mode, comparison_name(path.last(), config), config),
        path.len() + depth <= config.max_depth + 1,
        way_unpruned(path, config),
    ensures
        found.entries.len() <= k < walk(root, depth, config, mode, found).found.entries.len(),
        walk(root, depth, config, mode, found).found.entries[k] == path,
{
    let children = root.listing->0@;
    lemma_present_is_reported(children, 0, path, depth, config, mode);
    let k = lemma_reported_is_emitted(children, 0, Seq::empty(), depth, config, mode, found, path);
    k
}

/// Included names override pruning. A directory whose name is among the
/// included names is never pruned; so an entry that is reached through
/// included directories only is added whatever is excluded or hidden. The
/// position of the entry's path among the matches is returned.
pub proof fn lemma_include_overrides(
    root: Node,
    depth: nat,
    config: ConfigView,
    mode: MatchMode,
    found: Found,
    path: Seq<Seq<char>>,
) -> (k: int)
    requires
        walk(root, depth, config, mode, found).error is None,
        root.listing is Some,
        present(root.listing->0@, path, wanted_kind(config)),
        name_matches(mode, comparison_name(path.last(), config), config),
        path.len() + depth <= config.max_depth + 1,
        forall|j: int| 0 <= j < path.len() - 1 ==> config.included.contains(#[trigger] path[j]),
    ensures
        forall|name: Seq<char>| config.included.contains(name) ==> !pruned(name, config),
        found.entries.len() <= k < walk(root, depth, config, mode, found).found.entries.len(),
        walk(root, depth, config, mode, found).found.entries[k] == path,
{
    lemma_matches_are_complete(root, depth, config, mode, found, path)
}

/// Depth bound. A path that a search adds has at most as many names as the
/// greatest depth allows: one more than the number of directories that may
/// still be entered below the start.
pub proof fn lemma_depth_is_bounded(
    root: Node,
    depth: nat,
    config: ConfigView,
    mode: MatchMode,
    found: Found,
    k: int,
)
    requires
        found.entries.len() <= k < walk(root, depth, config, mode, found).found.entries.len(),
    ensures
        walk(root, depth, config, mode, found).found.entries[k].len() + depth <= config.max_depth
            + 1,
{
    let children = root.listing->0@;
    let path = walk(root, depth, config, mode, found).found.entries[k];
    lemma_emitted_is_reported(children, 0, Seq::empty(), depth, config, mode, found, k);
    assert(path.skip(0) =~= path);
    lemma_reported_means(children, 0, path, depth, config, mode);
}

/// Excluded names are honored. No path that a search adds passes through a
/// pruned directory. In particular, where the default names are excluded, a
/// path passes through a directory with a default name only if that name is
/// among the included names.
pub proof fn lemma_excludes_are_honored(
    root: Node,
    depth: nat,
    config: ConfigView,
    mode: MatchMode,
    found: Found,
    k: int,
)
    requires
        found.entries.len() <= k < walk(root, depth, config, mode, found).found.entries.len(),
    ensures
        ({
            let path = walk(root, depth, config, mode, found).found.entries[k];
            &&& way_unpruned(path, config)
            &&& default_excludes().subset_of(config.exclude) ==> forall|j: int|
                0 <= j < path.len() - 1 && default_excludes().contains(#[trigger] path[j])
                    ==> config.included.contains(path[j])
        }),
{
    let children = root.listing->0@;
    let path = walk(root, depth, config, mode, found).found.entries[k];
    lemma_emitted_is_reported(children, 0, Seq::empty(), depth, config, mode, found, k);
    assert(path.skip(0) =~= path);
    lemma_reported_means(children, 0, path, depth, config, mode);
}

/// No entry of the listing at position `at` or later bears `name`.
pub open spec fn name_free_from(children: Seq<Node>, at: int, name: Seq<char>) -> bool
    decreases children.len() - at,
{
    at < 0 || at >= children.len() || (children[at].entry@.name != Some(name) && name_free_from(
        children,
        at + 1,
        name,
    ))
}

/// From position `at` of the listing `children` on, and in every listing
/// below it down to the greatest depth, no name stands twice in one listing.
pub open spec fn names_differ_from(
    children: Seq<Node>,
    at: int,
    depth: nat,
    max_depth: nat,
) -> bool
    decreases max_depth - depth, children.len() - at,
{
    at < 0 || at >= children.len() || {
        let child = children[at];
        &&& child.entry@.name is Some ==> name_free_from(children, at + 1, child.entry@.name->0)
        &&& child.listing is Some && depth < max_depth ==> names_differ_from(
            child.listing->0@,
            0,
            depth + 1,
            max_depth,
        )
        &&& names_differ_from(children, at + 1, depth, max_depth)
    }
}

/// A reported path begins with the name of an entry of the listing.
pub proof fn lemma_first_name_is_borne(
    children: Seq<Node>,
    at: int,
    rel: Seq<Seq<char>>,
    depth: nat,
    config: ConfigView,
    mode: MatchMode,
    name: Seq<char>,
)
    requires
        reported_from(children, at, rel, depth, config, mode),
        name_free_from(children, at, name),
    ensures
        rel.len() > 0,
        rel[0] != name,
    decreases children.len() - at,
{
    if children[at].entry@.name != Some(rel[0]) {
        lemma_first_name_is_borne(children, at + 1, rel, depth, config, mode, name);
    }
}

/// Where no listing holds a name twice, a walk adds no path twice.
pub proof fn lemma_walk_adds_once(
    children: Seq<Node>,
    at: int,
    dir: Seq<Seq<char>>,
    depth: nat,
    config: ConfigView,
    mode: MatchMode,
    found: Found,
    i: int,
    j: int,
)
    requires
        0 <= at,
        names_differ_from(children, at, depth, config.max_depth),
        found.entries.len() <= i < j < walk_children(
            children,
            at,
            dir,
            depth,
            config,
            mode,
            found,
        ).found.entries.len(),
    ensures
        walk_children(children, at, dir, depth, config, mode, found).found.entries[i]
            != walk_children(children, at, dir, depth, config, mode, found).found.entries[j],
    decreases config.max_depth - depth, children.len() - at,
{
    let walked = walk_children(children, at, dir, depth, config, mode, found);
    if at < children.len() {
        let child = children[at];
        let (seen, step) = visit(child.entry@, dir, depth, config, mode, found);
        let first = walked.found.entries[i];
        let second = walked.found.entries[j];
        let name = child.entry@.name->0;
        match step {
            StepView::Fail(error) => {},
            StepView::Open(path) => match child.listing {
                None => {},
                Some(below) => {
                    let inner = walk_children(below@, 0, path, depth + 1, config, mode, seen);
                    let after = inner.found.count();
                    lemma_walk_appends(below@, 0, path, depth + 1, config, mode, seen);
                    if inner.error is None {
                        lemma_walk_appends(children, at + 1, dir, depth, config, mode, after);
                    }
                    if j < inner.found.entries.len() {
                        lemma_emitted_is_reported(below@, 0, path, depth + 1, config, mode, seen, j);
                        if i < seen.entries.len() {
                            lemma_rest_keeps(children, at, dir, depth, config, mode, found, i);
                        } else {
                            lemma_walk_adds_once(below@, 0, path, depth + 1, config, mode, seen, i, j);
                        }
                    } else {
                        lemma_emitted_is_reported(children, at + 1, dir, depth, config, mode, after, j);
                        let rel = second.skip(dir.len() as int);
                        lemma_first_name_is_borne(children, at + 1, rel, depth, config, mode, name);
                        if i < inner.found.entries.len() {
                            if i >= seen.entries.len() {
                                lemma_emitted_is_reported(
                                    below@,
                                    0,
                                    path,
                                    depth + 1,
                                    config,
                                    mode,
                                    seen,
                                    i,
                                );
                            } else {
                                lemma_rest_keeps(children, at, dir, depth, config, mode, found, i);
                            }
                            assert(first[dir.len() as int] == path[dir.len() as int]);
                        } else {
                            lemma_walk_adds_once(children, at + 1, dir, depth, config, mode, after, i, j);
                        }
                    }
                },
            },
            _ => {
                lemma_walk_appends(children, at + 1, dir, depth, config, mode, seen);
                if i < seen.entries.len() {
                    lemma_emitted_is_reported(children, at + 1, dir, depth, config, mode, seen, j);
                    let rel = second.skip(dir.len() as int);
                    lemma_first_name_is_borne(children, at + 1, rel, depth, config, mode, name);
                    lemma_rest_keeps(children, at, dir, depth, config, mode, found, i);
                } else {
                    lemma_walk_adds_once(children, at + 1, dir, depth, config, mode, seen, i, j);
                }
            },
        }
    }
}

/// No match twice. Where no listing of the tree holds a name twice, a search
/// adds every path at most once; with completeness, an entry that is to be
/// reported is among the new matches exactly once.
pub proof fn lemma_matches_are_found_once(
    root: Node,
    depth: nat,
    config: ConfigView,
    mode: MatchMode,
    found: Found,
    i: int,
    j: int,
)
    requires
        root.listing is Some ==> names_differ_from(root.listing->0@, 0, depth, config.max_depth),
        found.entries.len() <= i < j < walk(root, depth, config, mode, found).found.entries.len(),
    ensures
        walk(root, depth, config, mode, found).found.entries[i] != walk(
            root,
            depth,
            config,
            mode,
            found,
        ).found.entries[j],
{
    lemma_walk_adds_once(root.listing->0@, 0, Seq::empty(), depth, config, mode, found, i, j);
}

/// What was found before, with what a walk added put behind it.
pub open spec fn joined(before: Found, added: Found) -> Found {
    Found {
        entries: before.entries + added.entries,
        analyzed: before.analyzed + added.analyzed,
        skipped: before.skipped + added.skipped,
    }
}

/// What a walk adds does not depend on what was found before it.
pub proof fn lemma_walk_adds(
    children: Seq<Node>,
    at: int,
    dir: Seq<Seq<char>>,
    depth: nat,
    config: ConfigView,
    mode: MatchMode,
    found: Found,
)
    ensures
        ({
            let fresh = walk_children(children, at, dir, depth, config, mode, Found::empty());
            walk_children(children, at, dir, depth, config, mode, found) == (Walked {
                found: joined(found, fresh.found),
                error: fresh.error,
            })
        }),
    decreases config.max_depth - depth, children.len() - at,
{
    let none = Found::empty();
    if 0 <= at < children.len() {
        let child = children[at];
        let (seen, step) = visit(child.entry@, dir, depth, config, mode, found);
        let (seen0, step0) = visit(child.entry@, dir, depth, config, mode, none);
        lemma_joined_eq(seen, found, seen0);
        match step {
            StepView::Fail(error) => {},
            StepView::Open(path) => match child.listing {
                None => {},
                Some(below) => {
                    lemma_walk_adds(below@, 0, path, depth + 1, config, mode, seen);
                    lemma_walk_adds(below@, 0, path, depth + 1, config, mode, seen0);
                    let fresh = walk_children(below@, 0, path, depth + 1, config, mode, none);
                    let inner = walk_children(below@, 0, path, depth + 1, config, mode, seen);
                    let inner0 = walk_children(below@, 0, path, depth + 1, config, mode, seen0);
                    lemma_joined_assoc(found, seen0, fresh.found);
                    lemma_joined_eq(inner.found, found, inner0.found);
                    if inner.error is None {
                        let rest = walk_children(children, at + 1, dir, depth, config, mode, none);
                        lemma_walk_adds(children, at + 1, dir, depth, config, mode, inner.found.count());
                        lemma_walk_adds(children, at + 1, dir, depth, config, mode, inner0.found.count());
                        lemma_joined_eq(inner.found.count(), found, inner0.found.count());
                        lemma_joined_assoc(found, inner0.found.count(), rest.found);
                    }
                },
            },
            _ => {
                let rest = walk_children(children, at + 1, dir, depth, config, mode, none);
                lemma_walk_adds(children, at + 1, dir, depth, config, mode, seen);
                lemma_walk_adds(children, at + 1, dir, depth, config, mode, seen0);
                lemma_joined_assoc(found, seen0, rest.found);
            },
        }
    } else {
        lemma_joined_eq(found, found, none);
    }
}

/// Two findings are equal when their parts are.
proof fn lemma_joined_eq(whole: Found, before: Found, added: Found)
    requires
        whole.entries =~= before.entries + added.entries,
        whole.analyzed == before.analyzed + added.analyzed,
        whole.skipped == before.skipped + added.skipped,
    ensures
        whole == joined(before, added),
{
}

/// Joining findings is associative.
proof fn lemma_joined_assoc(a: Found, b: Found, c: Found)
    ensures
        joined(joined(a, b), c) == joined(a, joined(b, c)),
{
    assert((a.entries + b.entries) + c.entries =~= a.entries + (b.entries + c.entries));
}

/// Repeatability. Two searches of the same tree with the same configuration
/// add the same paths in the same order, raise the counters by the same
/// amounts and end alike, whatever had been found before each.
pub proof fn lemma_search_is_repeatable(
    root: Node,
    depth: nat,
    config: ConfigView,
    mode: MatchMode,
    first: Found,
    second: Found,
)
    ensures
        ({
            let one = walk(root, depth, config, mode, first);
            let two = walk(root, depth, config, mode, second);
            &&& one.error == two.error
            &&& one.found.entries.skip(first.entries.len() as int) == two.found.entries.skip(
                second.entries.len() as int,
            )
            &&& one.found.analyzed - first.analyzed == two.found.analyzed - second.analyzed
            &&& one.found.skipped - first.skipped == two.found.skipped - second.skipped
        }),
{
    if depth <= config.max_depth && root.listing is Some {
        let children = root.listing->0@;
        lemma_walk_adds(children, 0, Seq::empty(), depth, config, mode, first);
        lemma_walk_adds(children, 0, Seq::empty(), depth, config, mode, second);
    }
}

} // verus!
