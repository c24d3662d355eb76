//! Where a screenshot goes, and the steps that take it there.
//!
//! A screenshot found in a directory moves to
//! `<directory>/twitch-screenshots/<channel>/<file name>`. The library works
//! on names: it gives the destination as the components to append to the
//! directory, and decides the order of the steps. Touching the file system is
//! left to the caller, who reports how each step went.

use crate::classifier::{channel_name, channel_of, SEGMENT_DELIMITER};
use crate::text::split_on;
use vstd::prelude::*;

verus! {

/// The directory, beside the screenshots, under which they are sorted.
pub const SAVE_TO: &'static str = "twitch-screenshots";

/// How long a file that was just created is left alone before it is moved,
/// so that its writer can finish.
pub const SETTLE_DELAY_SECS: u64 = 2;

/// The move of one screenshot into the directory of its channel.
#[derive(Debug)]
pub struct MoveOperation {
    /// The name of the file, which it keeps.
    pub file_name: String,
    /// The channel whose directory receives it.
    pub channel: String,
    /// Whether the move waits for the file to settle.
    pub delayed: bool,
}

/// What a `MoveOperation` stands for.
pub struct MoveOperationView {
    pub file_name: Seq<char>,
    pub channel: Seq<char>,
    pub delayed: bool,
}

impl View for MoveOperation {
    type V = MoveOperationView;

    open spec fn view(&self) -> MoveOperationView {
        MoveOperationView {
            file_name: self.file_name@,
            channel: self.channel@,
            delayed: self.delayed,
        }
    }
}

impl MoveOperationView {
    /// The destination directory, as components below the directory that
    /// holds the file.
    pub open spec fn destination_dir(self) -> Seq<Seq<char>> {
        seq![SAVE_TO@, self.channel]
    }

    /// The destination of the file itself, as components below the directory
    /// that holds it.
    pub open spec fn destination_path(self) -> Seq<Seq<char>> {
        seq![SAVE_TO@, self.channel, self.file_name]
    }

    /// The seconds to wait before the move.
    pub open spec fn settle_delay_secs(self) -> u64 {
        if self.delayed {
            SETTLE_DELAY_SECS
        } else {
            0
        }
    }
}

/// The move that a file of the given name calls for.
pub open spec fn planned_move(name: Seq<char>, delayed: bool) -> MoveOperationView {
    MoveOperationView { file_name: name, channel: channel_of(name), delayed }
}

/// The character sequences that a vector of strings stands for.
pub open spec fn component_views(components: Seq<String>) -> Seq<Seq<char>> {
    components.map_values(|c: String| c@)
}

impl MoveOperation {
    /// Plans the move of the file called `filename`. The file keeps its name,
    /// counter included; the channel is read from the name, which must have
    /// the four segments behind the channel.
    pub fn plan(filename: &str, delayed: bool) -> (op: MoveOperation)
        requires
            split_on(filename@, SEGMENT_DELIMITER).len() >= 4,
        ensures
            op@ == planned_move(filename@, delayed),
    {
        MoveOperation { file_name: filename.to_owned(), channel: channel_name(filename), delayed }
    }

    /// The components of the destination directory.
    pub fn destination_dir(&self) -> (components: Vec<String>)
        ensures
            component_views(components@) == self@.destination_dir(),
    {
        let mut components: Vec<String> = Vec::new();
        components.push(SAVE_TO.to_owned());
        components.push(self.channel.clone());
        assert(component_views(components@) =~= self@.destination_dir());
        components
    }

    /// The components of the destination of the file.
    pub fn destination_path(&self) -> (components: Vec<String>)
        ensures
            component_views(components@) == self@.destination_path(),
    {
        let mut components: Vec<String> = Vec::new();
        components.push(SAVE_TO.to_owned());
        components.push(self.channel.clone());
        components.push(self.file_name.clone());
        assert(component_views(components@) =~= self@.destination_path());
        components
    }

    /// The seconds to wait before the move: the settle delay for a delayed
    /// move, none otherwise.
    pub fn settle_delay_secs(&self) -> (secs: u64)
        ensures
            secs == self@.settle_delay_secs(),
    {
        if self.delayed {
            SETTLE_DELAY_SECS
        } else {
            0
        }
    }
}

/// How a step on the file system went.
#[derive(Clone, Copy, Debug, PartialEq, Eq, Structural)]
pub enum Outcome {
    Succeeded,
    Failed,
}

/// How far a relocation has come.
#[derive(Clone, Copy, Debug, PartialEq, Eq, Structural)]
pub enum Phase {
    /// Nothing was done yet.
    Planned,
    /// The destination directory was asked for.
    DirectoryRequested,
    /// The rename was asked for, or scheduled.
    RenameRequested,
    /// The relocation is over, with the outcome that its caller sees.
    Finished(Outcome),
}

/// What to do next for a relocation.
#[derive(Clone, Copy, Debug, PartialEq, Eq, Structural)]
pub enum Action {
    /// Create the destination directory and what is missing above it. A
    /// directory that is already there counts as success.
    EnsureDirectory,
    /// Rename the file to its destination now, and report how it went.
    RenameNow,
    /// Let an independent unit of work rename the file after the settle
    /// delay. Scheduling cannot fail; how the rename goes is only logged.
    RenameAfterDelay,
    /// Hand the outcome to the caller.
    Return(Outcome),
}

/// The phase that follows `phase` once the step asked for there has gone as
/// `last` says, and the action to take then.
pub open spec fn next_step(delayed: bool, phase: Phase, last: Outcome) -> (Phase, Action) {
    match phase {
        Phase::Planned => (Phase::DirectoryRequested, Action::EnsureDirectory),
        Phase::DirectoryRequested => match last {
            Outcome::Failed => (Phase::Finished(Outcome::Failed), Action::Return(Outcome::Failed)),
            Outcome::Succeeded => if delayed {
                (Phase::RenameRequested, Action::RenameAfterDelay)
            } else {
                (Phase::RenameRequested, Action::RenameNow)
            },
        },
        Phase::RenameRequested => {
            let seen = if delayed {
                Outcome::Succeeded
            } else {
                last
            };
            (Phase::Finished(seen), Action::Return(seen))
        },
        Phase::Finished(seen) => (Phase::Finished(seen), Action::Return(seen)),
    }
}

/// What the caller of a relocation sees, given how creating the directory
/// and the rename went: failure if the directory could not be made, or if a
/// move that does not wait could not rename. A move that waits is reported
/// as done once it is scheduled.
pub open spec fn relocation_outcome(delayed: bool, directory: Outcome, rename: Outcome) -> Outcome {
    if directory == Outcome::Failed {
        Outcome::Failed
    } else if delayed {
        Outcome::Succeeded
    } else {
        rename
    }
}

/// Decides the next step of a relocation. `last` tells how the step asked
/// for in `phase` went; it is not looked at where none was asked for.
pub fn relocation_step(op: &MoveOperation, phase: Phase, last: Outcome) -> (next: (Phase, Action))
    ensures
        next == next_step(op.delayed, phase, last),
{
    match phase {
        Phase::Planned => (Phase::DirectoryRequested, Action::EnsureDirectory),
        Phase::DirectoryRequested => match last {
            Outcome::Failed => (Phase::Finished(Outcome::Failed), Action::Return(Outcome::Failed)),
            Outcome::Succeeded => if op.delayed {
                (Phase::RenameRequested, Action::RenameAfterDelay)
            } else {
                (Phase::RenameRequested, Action::RenameNow)
            },
        },
        Phase::RenameRequested => {
            let seen = if op.delayed {
                Outcome::Succeeded
            } else {
                last
            };
            (Phase::Finished(seen), Action::Return(seen))
        },
        Phase::Finished(seen) => (Phase::Finished(seen), Action::Return(seen)),
    }
}

/// A relocation is over after three steps, however its steps go. It first
/// asks for the directory. If that fails it ends there, and no rename is
/// asked for. Otherwise it asks for the rename, at once or after the delay as
/// the move says. The caller then sees `relocation_outcome`, and further
/// steps change nothing. What is reported before anything was asked for,
/// `first`, makes no difference.
pub proof fn lemma_relocation_finishes(
    delayed: bool,
    first: Outcome,
    directory: Outcome,
    rename: Outcome,
)
    ensures
        ({
            let (started, opening) = next_step(delayed, Phase::Planned, first);
            let (moving, middle) = next_step(delayed, started, directory);
            let (over, closing) = next_step(delayed, moving, rename);
            let seen = relocation_outcome(delayed, directory, rename);
            &&& opening == Action::EnsureDirectory
            &&& middle == if directory == Outcome::Failed {
                Action::Return(Outcome::Failed)
            } else if delayed {
                Action::RenameAfterDelay
            } else {
                Action::RenameNow
            }
            &&& closing == Action::Return(seen)
            &&& over == Phase::Finished(seen)
            &&& next_step(delayed, over, first) == (over, closing)
        }),
{
}

/// The destination depends on the name of the file alone: the same name
/// gives the same directory and the same path, whatever is on disk and
/// whether the move waits or not; and the last component of the path is the
/// name, unchanged.
pub proof fn lemma_destination_is_fixed(name: Seq<char>, delayed: bool, other: bool)
    ensures
        planned_move(name, delayed).destination_dir() == planned_move(name, other).destination_dir(),
        planned_move(name, delayed).destination_path() == planned_move(
            name,
            other,
        ).destination_path(),
        planned_move(name, delayed).destination_path().last() == name,
        planned_move(name, delayed).destination_path().drop_last() == planned_move(
            name,
            delayed,
        ).destination_dir(),
{
}

} // verus!
