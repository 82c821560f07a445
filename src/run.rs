//! The course of a run: the options, the normalised selection, and the
//! decision taken on each event of the walk.
use vstd::prelude::*;
use crate::rule::{target_spec, Command};

verus! {

/// The options of a run.
#[derive(Clone, Debug)]
pub struct Opt {
    /// The directory whose entries are renamed; the working directory when absent.
    pub root_dir: Option<String>,
    /// Rename directories.
    pub dirs: bool,
    /// Rename files.
    pub files: bool,
    /// Descend below the root's direct children.
    pub recursive: bool,
    /// The rule that gives the new names.
    pub cmd: Command,
}

/// Why a run stopped short.
#[derive(Clone, Copy, Debug, PartialEq, Eq, Structural)]
pub enum RunError {
    /// The root directory does not exist.
    RootMissing,
    /// The walk could not read an entry.
    Walk,
    /// A rename failed.
    Rename,
}

/// Where a run stands.
#[derive(Clone, Copy, Debug, PartialEq, Eq, Structural)]
pub enum Phase {
    /// The root has not been checked yet.
    Start,
    /// The walk is under way.
    Walking,
    /// The walk has ended with every rename done.
    Done,
    /// The run stopped at an error.
    Failed(RunError),
}

/// What the walk reports to the run.
#[derive(Clone, Debug, PartialEq, Eq)]
pub enum Event {
    /// Whether the root directory exists.
    Root { exists: bool },
    /// An entry of the tree, at `depth` below the root, as the file system
    /// classifies it at the moment it is reached.
    Entry { depth: usize, name: String, is_dir: bool, is_file: bool },
    /// The walk could not read an entry.
    WalkFailed,
    /// The last rename asked for was done.
    Renamed,
    /// The last rename asked for failed.
    RenameFailed,
    /// The walk has no entries left.
    Exhausted,
}

/// What the run asks of the caller.
#[derive(Clone, Debug, PartialEq, Eq)]
pub enum Action {
    /// Walk the root, excluding the root itself, each directory's contents
    /// before the directory, down to `max_depth` levels (no bound when `None`).
    Walk { max_depth: Option<usize> },
    /// Rename the entry just reported to `to`, in the same directory.
    Rename { to: String },
    /// Go on to the next event.
    Next,
    /// The run has succeeded.
    Finish,
    /// The run has failed.
    Fail(RunError),
}

/// The model of an `Action`.
pub enum Decision {
    Walk { max_depth: Option<usize> },
    Rename(Seq<char>),
    Next,
    Finish,
    Fail(RunError),
}

impl View for Action {
    type V = Decision;

    open spec fn view(&self) -> Decision {
        match self {
            Action::Walk { max_depth } => Decision::Walk { max_depth: *max_depth },
            Action::Rename { to } => Decision::Rename(to@),
            Action::Next => Decision::Next,
            Action::Finish => Decision::Finish,
            Action::Fail(e) => Decision::Fail(*e),
        }
    }
}

/// The selection flags as they apply: neither flag given means both.
pub open spec fn selection_spec(dirs: bool, files: bool) -> (bool, bool) {
    if !dirs && !files {
        (true, true)
    } else {
        (dirs, files)
    }
}

/// Applies the default selection: where neither directories nor files were
/// asked for, both are.
pub fn normalize_selection(dirs: bool, files: bool) -> (r: (bool, bool))
    ensures
        r == selection_spec(dirs, files),
        r.0 || r.1,
{
    if !(dirs || files) {
        (true, true)
    } else {
        (dirs, files)
    }
}

/// The options with the default selection applied.
pub open spec fn normalized(opt: Opt) -> Opt {
    Opt {
        root_dir: opt.root_dir,
        dirs: selection_spec(opt.dirs, opt.files).0,
        files: selection_spec(opt.dirs, opt.files).1,
        recursive: opt.recursive,
        cmd: opt.cmd,
    }
}

/// Whether an entry is one that the selection renames.
pub open spec fn selects_spec(dirs: bool, files: bool, is_dir: bool, is_file: bool) -> bool {
    (dirs && is_dir) || (files && is_file)
}

/// Whether the walk reaches an entry at `depth` below the root.
pub open spec fn admits_depth_spec(recursive: bool, depth: nat) -> bool {
    depth >= 1 && (recursive || depth == 1)
}

/// The deepest level that the walk reaches: the root's children alone
/// unless it is recursive.
pub open spec fn max_depth_spec(recursive: bool) -> Option<usize> {
    if recursive {
        None
    } else {
        Some(1usize)
    }
}

/// The phase that follows `p` on an event.
pub open spec fn next_phase_spec(p: Phase, ev: Event) -> Phase {
    match (p, ev) {
        (Phase::Start, Event::Root { exists }) => if exists {
            Phase::Walking
        } else {
            Phase::Failed(RunError::RootMissing)
        },
        (Phase::Walking, Event::WalkFailed) => Phase::Failed(RunError::Walk),
        (Phase::Walking, Event::RenameFailed) => Phase::Failed(RunError::Rename),
        (Phase::Walking, Event::Exhausted) => Phase::Done,
        _ => p,
    }
}

/// A run: its options, with the selection normalised, and its phase.
pub struct Run {
    pub opt: Opt,
    pub phase: Phase,
}

impl Run {
    /// Whether the options hold a normalised selection.
    pub open spec fn wf(&self) -> bool {
        self.opt.dirs || self.opt.files
    }

    /// What the run asks for on an event.
    pub open spec fn decision_spec(&self, ev: Event) -> Decision {
        match (self.phase, ev) {
            (Phase::Start, Event::Root { exists }) => if exists {
                Decision::Walk { max_depth: max_depth_spec(self.opt.recursive) }
            } else {
                Decision::Fail(RunError::RootMissing)
            },
            (Phase::Start, _) => Decision::Next,
            (Phase::Walking, Event::Entry { depth, name, is_dir, is_file }) => {
                if admits_depth_spec(self.opt.recursive, depth as nat) && selects_spec(
                    self.opt.dirs,
                    self.opt.files,
                    is_dir,
                    is_file,
                ) {
                    match target_spec(self.opt.cmd, name@) {
                        Some(t) => Decision::Rename(t),
                        None => Decision::Next,
                    }
                } else {
                    Decision::Next
                }
            },
            (Phase::Walking, Event::WalkFailed) => Decision::Fail(RunError::Walk),
            (Phase::Walking, Event::RenameFailed) => Decision::Fail(RunError::Rename),
            (Phase::Walking, Event::Exhausted) => Decision::Finish,
            (Phase::Walking, _) => Decision::Next,
            (Phase::Done, _) => Decision::Finish,
            (Phase::Failed(e), _) => Decision::Fail(e),
        }
    }

    /// Starts a run on the options, with the default selection applied.
    pub fn new(opt: Opt) -> (r: Run)
        ensures
            r.wf(),
            r.phase == Phase::Start,
            r.opt == normalized(opt),
    {
        let (dirs, files) = normalize_selection(opt.dirs, opt.files);
        Run {
            opt: Opt { root_dir: opt.root_dir, dirs, files, recursive: opt.recursive, cmd: opt.cmd },
            phase: Phase::Start,
        }
    }

    /// Whether the directory to walk is the working directory.
    pub fn uses_current_dir(&self) -> (r: bool)
        ensures
            r == (self.opt.root_dir is None),
    {
        self.opt.root_dir.is_none()
    }

    /// Takes in an event of the walk and says what to do next.
    pub fn step(&mut self, ev: Event) -> (r: Action)
        ensures
            r@ == old(self).decision_spec(ev),
            final(self).phase == next_phase_spec(old(self).phase, ev),
            final(self).opt == old(self).opt,
    {
        match self.phase {
            Phase::Start => match ev {
                Event::Root { exists } => {
                    if exists {
                        self.phase = Phase::Walking;
                        let max_depth = if self.opt.recursive {
                            None
                        } else {
                            Some(1usize)
                        };
                        Action::Walk { max_depth }
                    } else {
                        self.phase = Phase::Failed(RunError::RootMissing);
                        Action::Fail(RunError::RootMissing)
                    }
                },
                _ => Action::Next,
            },
            Phase::Walking => match ev {
                Event::Entry { depth, name, is_dir, is_file } => {
                    let deep_enough = depth >= 1 && (self.opt.recursive || depth == 1);
                    let selected = (self.opt.dirs && is_dir) || (self.opt.files && is_file);
                    if deep_enough && selected {
                        match self.opt.cmd.target(name.as_str()) {
                            Some(to) => Action::Rename { to },
                            None => Action::Next,
                        }
                    } else {
                        Action::Next
                    }
                },
                Event::WalkFailed => {
                    self.phase = Phase::Failed(RunError::Walk);
                    Action::Fail(RunError::Walk)
                },
                Event::RenameFailed => {
                    self.phase = Phase::Failed(RunError::Rename);
                    Action::Fail(RunError::Rename)
                },
                Event::Exhausted => {
                    self.phase = Phase::Done;
                    Action::Finish
                },
                _ => Action::Next,
            },
            Phase::Done => Action::Finish,
            Phase::Failed(e) => Action::Fail(e),
        }
    }
}

/// Options given with neither selection flag behave as options given with
/// both: in every phase, on every event, the run decides the same and moves
/// to the same phase.
pub proof fn lemma_default_selection(unset: Opt, set: Opt, phase: Phase, ev: Event)
    requires
        !unset.dirs && !unset.files,
        set.dirs && set.files,
        unset.root_dir == set.root_dir,
        unset.recursive == set.recursive,
        unset.cmd == set.cmd,
    ensures
        normalized(unset) == normalized(set),
        (Run { opt: normalized(unset), phase }).decision_spec(ev) == (Run {
            opt: normalized(set),
            phase,
        }).decision_spec(ev),
{
}

/// Only entries at a depth that the walk admits are renamed: the root's
/// children, and deeper entries only in a recursive run. Every admitted and
/// selected entry whose name the rule rewrites is renamed.
pub proof fn lemma_depth(run: Run, depth: usize, name: String, is_dir: bool, is_file: bool)
    requires
        run.phase == Phase::Walking,
    ensures
        ({
            let ev = Event::Entry { depth, name, is_dir, is_file };
            &&& run.decision_spec(ev) is Rename ==> depth >= 1 && (run.opt.recursive || depth == 1)
            &&& (admits_depth_spec(run.opt.recursive, depth as nat) && selects_spec(
                run.opt.dirs,
                run.opt.files,
                is_dir,
                is_file,
            ) && target_spec(run.opt.cmd, name@) is Some) ==> run.decision_spec(ev) is Rename
        }),
{
}

/// A run whose root is missing fails before it walks, and a failed run asks
/// for no rename whatever comes after.
pub proof fn lemma_root_missing(run: Run, ev: Event)
    requires
        run.phase == Phase::Start,
    ensures
        run.decision_spec(Event::Root { exists: false }) == Decision::Fail(RunError::RootMissing),
        next_phase_spec(run.phase, Event::Root { exists: false }) == Phase::Failed(
            RunError::RootMissing,
        ),
        !((Run { opt: run.opt, phase: Phase::Failed(RunError::RootMissing) }).decision_spec(
            ev,
        ) is Rename),
{
}

/// A rename is asked for only while the walk is under way.
pub proof fn lemma_rename_only_walking(run: Run, ev: Event)
    requires
        run.decision_spec(ev) is Rename,
    ensures
        run.phase == Phase::Walking,
        ev is Entry,
{
}

} // verus!
