//! The walk through a directory tree, one decision at a time.
//!
//! A [`Walker`] decides what a depth-first walk does next; it reads no
//! directory itself. Whoever drives it lists each directory that the walker
//! asks for and hands the listing back with [`Walker::enter`]. The walk is
//! written down once, as [`step_spec`], and [`Walker::step`] computes it.

use crate::config::{Config, ConfigView, MatchMode};
use crate::matcher::{name_matches, MatchFn};
use crate::names::holds_name;
use crate::text::{copy_texts, leads_with, lowercase, starts_with_char, texts, to_lowercase, with_last};
use vstd::prelude::*;

verus! {

/// What a directory entry is.
#[derive(Debug, Clone, Copy, PartialEq, Eq, Structural)]
pub enum EntryKind {
    File,
    Directory,
    /// The kind of the entry could not be determined.
    Unknown,
}

/// One child of a directory, as a listing reports it.
#[derive(Debug)]
pub struct Entry {
    /// The entry's basename; `None` where it is not valid text.
    pub name: Option<String>,
    pub kind: EntryKind,
}

/// The mathematical content of an [`Entry`].
pub struct EntryView {
    pub name: Option<Seq<char>>,
    pub kind: EntryKind,
}

impl View for Entry {
    type V = EntryView;

    open spec fn view(&self) -> EntryView {
        EntryView {
            name: match self.name {
                Some(name) => Some(name@),
                None => None,
            },
            kind: self.kind,
        }
    }
}

/// The views of the entries of a listing.
pub open spec fn entry_views(listing: Seq<Entry>) -> Seq<EntryView> {
    Seq::new(listing.len(), |i: int| listing[i]@)
}

/// Why a walk was given up.
#[derive(Debug)]
pub enum FindError {
    /// The directory at this path could not be listed.
    ReadDir(Vec<String>),
    /// The kind of the entry at this path could not be determined.
    FileType(Vec<String>),
}

/// The mathematical content of a [`FindError`].
pub enum FindErrorView {
    ReadDir(Seq<Seq<char>>),
    FileType(Seq<Seq<char>>),
}

impl View for FindError {
    type V = FindErrorView;

    open spec fn view(&self) -> FindErrorView {
        match self {
            FindError::ReadDir(path) => FindErrorView::ReadDir(texts(path@)),
            FindError::FileType(path) => FindErrorView::FileType(texts(path@)),
        }
    }
}

/// What a walk has found so far. A path is the list of names that lead from
/// the directory where the walk started to the entry.
pub struct FindResult {
    /// The matched paths, in the order in which the walk met them.
    pub entries: Vec<Vec<String>>,
    /// How many entries the walk has looked at.
    pub entries_analyzed: usize,
    /// How many directories the walk has declined to enter.
    pub skipped_entries: usize,
}

/// The mathematical content of a [`FindResult`].
pub struct Found {
    pub entries: Seq<Seq<Seq<char>>>,
    pub analyzed: nat,
    pub skipped: nat,
}

impl Found {
    /// Nothing found, nothing looked at.
    pub open spec fn empty() -> Found {
        Found { entries: Seq::empty(), analyzed: 0, skipped: 0 }
    }

    /// With `path` as one more match.
    pub open spec fn emit(self, path: Seq<Seq<char>>) -> Found {
        Found { entries: self.entries.push(path), ..self }
    }

    /// With one more entry looked at.
    pub open spec fn count(self) -> Found {
        Found { analyzed: self.analyzed + 1, ..self }
    }

    /// With one more directory not entered.
    pub open spec fn skip(self) -> Found {
        Found { skipped: self.skipped + 1, ..self }
    }

    /// Both counters can be raised by one without leaving `usize`.
    pub open spec fn has_room(self) -> bool {
        self.analyzed < usize::MAX && self.skipped < usize::MAX
    }
}

/// The paths of a list of matches, each as a sequence of names.
pub open spec fn path_views(paths: Seq<Vec<String>>) -> Seq<Seq<Seq<char>>> {
    Seq::new(paths.len(), |i: int| texts(paths[i]@))
}

impl View for FindResult {
    type V = Found;

    open spec fn view(&self) -> Found {
        Found {
            entries: path_views(self.entries@),
            analyzed: self.entries_analyzed as nat,
            skipped: self.skipped_entries as nat,
        }
    }
}

impl Default for FindResult {
    fn default() -> (result: FindResult)
        ensures
            result@ == Found::empty(),
    {
        let result = FindResult { entries: Vec::new(), entries_analyzed: 0, skipped_entries: 0 };
        assert(result@.entries =~= Seq::empty());
        result
    }
}

/// The name that is held against the target: the lowercase form of the
/// basename where case is ignored, the basename itself otherwise.
pub open spec fn comparison_name(name: Seq<char>, config: ConfigView) -> Seq<char> {
    if config.ignore_case {
        lowercase(name)
    } else {
        name
    }
}

/// An entry is reported when it is of the kind asked for and its comparison
/// name satisfies the predicate.
pub open spec fn selected(name: Seq<char>, kind: EntryKind, mode: MatchMode, config: ConfigView) -> bool {
    (kind == EntryKind::Directory) == config.is_dir && name_matches(
        mode,
        comparison_name(name, config),
        config,
    )
}

/// A name is hidden when it begins with a dot.
pub open spec fn is_hidden(name: Seq<char>) -> bool {
    leads_with(name, '.')
}

/// A directory is pruned, that is not entered, when its name is hidden and
/// hidden directories are not asked for, or when its name is excluded;
/// unless its name is among the included names, which are always entered.
pub open spec fn pruned(name: Seq<char>, config: ConfigView) -> bool {
    !config.included.contains(name) && ((is_hidden(name) && !config.include_hidden)
        || config.exclude.contains(name))
}

/// Whether an entry with this name and kind is reported.
pub fn is_selected(name: &str, kind: EntryKind, config: &Config, match_fn: &MatchFn) -> (yes: bool)
    ensures
        yes == selected(name@, kind, match_fn.mode, config@),
{
    let is_dir = match kind {
        EntryKind::Directory => true,
        _ => false,
    };
    if config.is_dir != is_dir {
        false
    } else if config.ignore_case {
        let lower = to_lowercase(name);
        match_fn.matches(lower.as_str(), config)
    } else {
        match_fn.matches(name, config)
    }
}

/// Whether a directory with this name is left out of the walk.
pub fn is_pruned(name: &str, config: &Config) -> (yes: bool)
    ensures
        yes == pruned(name@, config@),
{
    if holds_name(&config.included, name) {
        false
    } else {
        (starts_with_char(name, '.') && !config.include_hidden) || holds_name(&config.exclude, name)
    }
}

/// What the walk does next.
#[derive(Debug)]
pub enum Step {
    /// Nothing to do for the driver: ask again.
    Continue,
    /// The directory at this path is to be listed, and the listing handed to
    /// [`Walker::enter`].
    Open(Vec<String>),
    /// The walk is over.
    Done,
    /// The walk is given up.
    Fail(FindError),
}

/// The mathematical content of a [`Step`].
pub enum StepView {
    Continue,
    Open(Seq<Seq<char>>),
    Done,
    Fail(FindErrorView),
}

impl View for Step {
    type V = StepView;

    open spec fn view(&self) -> StepView {
        match self {
            Step::Continue => StepView::Continue,
            Step::Open(path) => StepView::Open(texts(path@)),
            Step::Done => StepView::Done,
            Step::Fail(error) => StepView::Fail(error@),
        }
    }
}

/// What the walk does with one entry of the directory at `dir`, which lies
/// `depth` directories below the start.
///
/// An entry without a name is passed over. One whose kind is unknown ends
/// the walk. Any other entry is reported if it is selected, and counted; but
/// a directory that is neither pruned nor too deep is to be opened first, and
/// is counted once the walk has come back from it.
pub open spec fn visit(
    entry: EntryView,
    dir: Seq<Seq<char>>,
    depth: nat,
    config: ConfigView,
    mode: MatchMode,
    found: Found,
) -> (Found, StepView) {
    match entry.name {
        None => (found, StepView::Continue),
        Some(name) => {
            let path = dir.push(name);
            if entry.kind == EntryKind::Unknown {
                (found, StepView::Fail(FindErrorView::FileType(path)))
            } else {
                let seen = if selected(name, entry.kind, mode, config) {
                    found.emit(path)
                } else {
                    found
                };
                if entry.kind == EntryKind::Directory && pruned(name, config) {
                    (seen.skip().count(), StepView::Continue)
                } else if entry.kind == EntryKind::Directory && depth < config.max_depth {
                    (seen, StepView::Open(path))
                } else {
                    (seen.count(), StepView::Continue)
                }
            }
        },
    }
}

/// Deals with one entry of an open directory, as [`visit`] says.
pub fn visit_entry(
    entry: &Entry,
    dir: &Vec<String>,
    depth: usize,
    config: &Config,
    match_fn: &MatchFn,
    result: &mut FindResult,
) -> (step: Step)
    requires
        old(result)@.has_room(),
    ensures
        (final(result)@, step@) == visit(
            entry@,
            texts(dir@),
            depth as nat,
            config@,
            match_fn.mode,
            old(result)@,
        ),
{
    match &entry.name {
        None => Step::Continue,
        Some(name) => {
            let path = with_last(dir, name.as_str());
            match entry.kind {
                EntryKind::Unknown => Step::Fail(FindError::FileType(path)),
                EntryKind::File => {
                    if is_selected(name.as_str(), EntryKind::File, config, match_fn) {
                        let ghost before = result.entries@;
                        result.entries.push(path);
                        assert(path_views(result.entries@) =~= path_views(before).push(texts(path@)));
                    }
                    result.entries_analyzed = result.entries_analyzed + 1;
                    Step::Continue
                },
                EntryKind::Directory => {
                    if is_selected(name.as_str(), EntryKind::Directory, config, match_fn) {
                        let ghost before = result.entries@;
                        let copy = copy_texts(&path);
                        result.entries.push(copy);
                        assert(path_views(result.entries@) =~= path_views(before).push(texts(path@)));
                    }
                    if is_pruned(name.as_str(), config) {
                        result.skipped_entries = result.skipped_entries + 1;
                        result.entries_analyzed = result.entries_analyzed + 1;
                        Step::Continue
                    } else if depth < config.max_depth {
                        Step::Open(path)
                    } else {
                        result.entries_analyzed = result.entries_analyzed + 1;
                        Step::Continue
                    }
                },
            }
        },
    }
}

/// An open directory: its path, its listing, and how far the walk is in it.
pub struct FrameView {
    pub path: Seq<Seq<char>>,
    pub entries: Seq<EntryView>,
    /// The position of the entry that is dealt with next.
    pub next: nat,
    /// How many directories below the start this one lies.
    pub depth: nat,
}

/// Where a walk stands.
pub enum PhaseView {
    /// Nothing has been done; the walk starts at this depth.
    Start { depth: nat },
    /// The directory at `path` has been asked for and its listing is awaited.
    Waiting { path: Seq<Seq<char>>, depth: nat },
    /// The walk is inside the innermost open directory.
    Walking,
    /// The walk is over.
    Finished,
}

/// The mathematical content of a [`Walker`]: its phase and the directories
/// that are open, the innermost last.
pub struct WalkerView {
    pub phase: PhaseView,
    pub frames: Seq<FrameView>,
}

impl WalkerView {
    /// While walking some directory is open, and no open directory has been
    /// read past its end.
    pub open spec fn wf(self) -> bool {
        &&& self.phase is Walking ==> self.frames.len() > 0
        &&& forall|i: int|
            0 <= i < self.frames.len() ==> (#[trigger] self.frames[i]).next
                <= self.frames[i].entries.len()
    }

    /// A walk that is about to start at `depth`.
    pub open spec fn start(depth: nat) -> WalkerView {
        WalkerView { phase: PhaseView::Start { depth }, frames: Seq::empty() }
    }
}

/// One step of the walk: the walker and the findings after it, and what the
/// driver is told.
///
/// At the start the directory where the walk begins is asked for, unless the
/// starting depth is already beyond the greatest depth. While a listing is
/// awaited the request is repeated. Inside a directory the next entry is
/// dealt with as [`visit`] says; at the end of a directory the walk goes back
/// to the one it came from, where the directory just left is counted, or is
/// over where there is none.
pub open spec fn step_spec(
    walker: WalkerView,
    config: ConfigView,
    mode: MatchMode,
    found: Found,
) -> (WalkerView, Found, StepView) {
    match walker.phase {
        PhaseView::Start { depth } => if depth > config.max_depth {
            (WalkerView { phase: PhaseView::Finished, ..walker }, found, StepView::Done)
        } else {
            (
                WalkerView { phase: PhaseView::Waiting { path: Seq::empty(), depth }, ..walker },
                found,
                StepView::Open(Seq::empty()),
            )
        },
        PhaseView::Waiting { path, depth } => (walker, found, StepView::Open(path)),
        PhaseView::Finished => (walker, found, StepView::Done),
        PhaseView::Walking => {
            let top = walker.frames.last();
            let below = walker.frames.drop_last();
            if top.next >= top.entries.len() {
                if below.len() == 0 {
                    (
                        WalkerView { phase: PhaseView::Finished, frames: below },
                        found,
                        StepView::Done,
                    )
                } else {
                    (
                        WalkerView { phase: PhaseView::Walking, frames: below },
                        found.count(),
                        StepView::Continue,
                    )
                }
            } else {
                let (seen, step) = visit(
                    top.entries[top.next as int],
                    top.path,
                    top.depth,
                    config,
                    mode,
                    found,
                );
                let frames = below.push(FrameView { next: top.next + 1, ..top });
                let phase = match step {
                    StepView::Continue => PhaseView::Walking,
                    StepView::Open(path) => PhaseView::Waiting { path, depth: top.depth + 1 },
                    _ => PhaseView::Finished,
                };
                (WalkerView { phase, frames }, seen, step)
            }
        },
    }
}

/// The walker after a listing has been handed in: while one is awaited, the
/// directory asked for is open and the walk is at its first entry; at any
/// other time the listing is dropped.
pub open spec fn enter_spec(walker: WalkerView, listing: Seq<EntryView>) -> WalkerView {
    match walker.phase {
        PhaseView::Waiting { path, depth } => WalkerView {
            phase: PhaseView::Walking,
            frames: walker.frames.push(FrameView { path, entries: listing, next: 0, depth }),
        },
        _ => walker,
    }
}

enum Phase {
    Start(usize),
    Waiting(Vec<String>, usize),
    Walking,
    Finished,
}

struct Frame {
    path: Vec<String>,
    entries: Vec<Entry>,
    next: usize,
    depth: usize,
}

impl Frame {
    spec fn view(&self) -> FrameView {
        FrameView {
            path: texts(self.path@),
            entries: entry_views(self.entries@),
            next: self.next as nat,
            depth: self.depth as nat,
        }
    }
}

/// A depth-first walk in progress.
pub struct Walker {
    phase: Phase,
    frames: Vec<Frame>,
}

impl View for Walker {
    type V = WalkerView;

    closed spec fn view(&self) -> WalkerView {
        WalkerView {
            phase: match self.phase {
                Phase::Start(depth) => PhaseView::Start { depth: depth as nat },
                Phase::Waiting(path, depth) => PhaseView::Waiting {
                    path: texts(path@),
                    depth: depth as nat,
                },
                Phase::Walking => PhaseView::Walking,
                Phase::Finished => PhaseView::Finished,
            },
            frames: Seq::new(self.frames@.len(), |i: int| self.frames@[i].view()),
        }
    }
}

impl Walker {
    /// A walk that is about to start `depth` directories below the point
    /// from which depth is counted.
    pub fn new(depth: usize) -> (walker: Walker)
        ensures
            walker@ == WalkerView::start(depth as nat),
            walker@.wf(),
    {
        let walker = Walker { phase: Phase::Start(depth), frames: Vec::new() };
        assert(walker@.frames =~= Seq::empty());
        walker
    }

    /// Whether the walker has asked for a directory and awaits its listing.
    pub fn is_waiting(&self) -> (waiting: bool)
        ensures
            waiting == (self@.phase is Waiting),
    {
        match &self.phase {
            Phase::Waiting(_, _) => true,
            _ => false,
        }
    }

    /// Hands in the listing of the directory that the walker asked for.
    pub fn enter(&mut self, listing: Vec<Entry>)
        requires
            old(self)@.wf(),
        ensures
            final(self)@ == enter_spec(old(self)@, entry_views(listing@)),
            final(self)@.wf(),
    {
        let ghost before = self@;
        let mut asked: Option<(Vec<String>, usize)> = None;
        match &self.phase {
            Phase::Waiting(path, depth) => {
                asked = Some((copy_texts(path), *depth));
            },
            _ => {},
        }
        match asked {
            Some((path, depth)) => {
                self.frames.push(Frame { path, entries: listing, next: 0, depth });
                self.phase = Phase::Walking;
                assert(self@.frames =~= before.frames.push(
                    FrameView {
                        path: texts(path@),
                        entries: entry_views(listing@),
                        next: 0,
                        depth: depth as nat,
                    },
                ));
            },
            None => {},
        }
    }

    /// Takes one step of the walk, as [`step_spec`] says.
    pub fn step(&mut self, config: &Config, match_fn: &MatchFn, result: &mut FindResult) -> (step:
        Step)
        requires
            old(self)@.wf(),
            old(result)@.has_room(),
        ensures
            (final(self)@, final(result)@, step@) == step_spec(
                old(self)@,
                config@,
                match_fn.mode,
                old(result)@,
            ),
            final(self)@.wf(),
    {
        let ghost before = self@;
        let mut start: Option<usize> = None;
        match &self.phase {
            Phase::Start(depth) => {
                start = Some(*depth);
            },
            Phase::Waiting(path, _) => {
                return Step::Open(copy_texts(path));
            },
            Phase::Finished => {
                return Step::Done;
            },
            Phase::Walking => {},
        }
        match start {
            Some(depth) => {
                if depth > config.max_depth {
                    self.phase = Phase::Finished;
                    return Step::Done;
                }
                self.phase = Phase::Waiting(Vec::new(), depth);
                let path: Vec<String> = Vec::new();
                assert(texts(path@) =~= Seq::empty());
                return Step::Open(path);
            },
            None => {},
        }
        let last = self.frames.len() - 1;
        let at = self.frames[last].next;
        if at >= self.frames[last].entries.len() {
            self.frames.pop();
            assert(self@.frames =~= before.frames.drop_last());
            if last == 0 {
                self.phase = Phase::Finished;
                return Step::Done;
            }
            result.entries_analyzed = result.entries_analyzed + 1;
            return Step::Continue;
        }
        let depth = self.frames[last].depth;
        let step = visit_entry(
            &self.frames[last].entries[at],
            &self.frames[last].path,
            depth,
            config,
            match_fn,
            result,
        );
        let mut top = self.frames.pop().unwrap();
        top.next = at + 1;
        self.frames.push(top);
        assert(self@.frames =~= before.frames.drop_last().push(
            FrameView { next: before.frames.last().next + 1, ..before.frames.last() },
        ));
        match &step {
            Step::Open(path) => {
                self.phase = Phase::Waiting(copy_texts(path), depth + 1);
            },
            Step::Continue => {},
            _ => {
                self.phase = Phase::Finished;
            },
        }
        step
    }
}

} // verus!
