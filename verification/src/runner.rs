//! The two ways to run: one sweep over what a directory holds, and a watch
//! that reacts to files as they are created. Both hand every name to the same
//! classifier and plan every move the same way; they differ in whether the
//! move waits for the file to settle.

use crate::classifier::{is_screenshot, is_screenshot_name, lemma_screenshot_has_channel};
use crate::relocation::{planned_move, MoveOperation, MoveOperationView};
use vstd::prelude::*;

verus! {

/// What an optional move stands for.
pub open spec fn decided(decision: Option<MoveOperation>) -> Option<MoveOperationView> {
    match decision {
        Some(op) => Some(op@),
        None => None,
    }
}

/// What a vector of optional moves stands for.
pub open spec fn all_decided(decisions: Seq<Option<MoveOperation>>) -> Seq<
    Option<MoveOperationView>,
> {
    decisions.map_values(|d: Option<MoveOperation>| decided(d))
}

/// The move that a file of this name calls for: the planned move if the name
/// is that of a screenshot, none otherwise.
pub open spec fn decision_for(name: Seq<char>, delayed: bool) -> Option<MoveOperationView> {
    if is_screenshot_name(name) {
        Some(planned_move(name, delayed))
    } else {
        None
    }
}

/// Classifies a file by its name and, if it is a screenshot, plans its move.
pub fn relocation_for(filename: &str, delayed: bool) -> (decision: Option<MoveOperation>)
    ensures
        decided(decision) == decision_for(filename@, delayed),
{
    if is_screenshot(filename) {
        proof {
            lemma_screenshot_has_channel(filename@);
        }
        Some(MoveOperation::plan(filename, delayed))
    } else {
        None
    }
}

/// One entry of a directory listing.
#[derive(Debug)]
pub struct ListingEntry {
    /// The name of the entry, without the directory.
    pub name: String,
    /// Whether the entry is a regular file.
    pub is_file: bool,
}

/// What a sweep does with one entry: regular files that are screenshots move
/// at once, everything else stays.
pub open spec fn sweep_decision(entry: ListingEntry) -> Option<MoveOperationView> {
    if entry.is_file {
        decision_for(entry.name@, false)
    } else {
        None
    }
}

/// What a sweep does with a listing, entry by entry.
pub open spec fn sweep_decisions(entries: Seq<ListingEntry>) -> Seq<Option<MoveOperationView>> {
    entries.map_values(|e: ListingEntry| sweep_decision(e))
}

/// Decides, for each entry of a directory listing, whether and where it
/// moves. The result has one decision per entry, in the order of the listing.
pub fn sweep(entries: &Vec<ListingEntry>) -> (decisions: Vec<Option<MoveOperation>>)
    ensures
        all_decided(decisions@) == sweep_decisions(entries@),
{
    let mut decisions: Vec<Option<MoveOperation>> = Vec::new();
    let mut i: usize = 0;
    while i < entries.len()
        invariant
            i <= entries.len(),
            all_decided(decisions@) == sweep_decisions(entries@.take(i as int)),
        decreases entries.len() - i,
    {
        let entry = &entries[i];
        let decision = if entry.is_file {
            relocation_for(entry.name.as_str(), false)
        } else {
            None
        };
        proof {
            assert(entries@.take(i + 1) == entries@.take(i as int).push(entries@[i as int]));
            assert(all_decided(decisions@.push(decision)) == all_decided(decisions@).push(
                decided(decision),
            ));
            assert(sweep_decisions(entries@.take(i as int).push(entries@[i as int]))
                == sweep_decisions(entries@.take(i as int)).push(sweep_decision(entries@[i as int])));
        }
        decisions.push(decision);
        i += 1;
    }
    proof {
        assert(entries@.take(i as int) == entries@);
    }
    decisions
}

/// What the notification layer hands to a watch.
#[derive(Debug)]
pub enum WatchEvent {
    /// The subscription to the directory was established.
    Subscribed,
    /// The subscription could not be established.
    SetupFailed,
    /// Files were created; these are their names.
    Created(Vec<String>),
    /// Something else happened to a file.
    Other,
    /// The notification layer reported an error.
    Error,
    /// The notification channel was closed.
    Closed,
}

/// The state of a watch.
#[derive(Clone, Copy, Debug, PartialEq, Eq, Structural)]
pub enum WatchState {
    /// The subscription is being set up.
    Initial,
    /// Notifications are being processed.
    Active,
    /// The watch is over.
    Terminal,
}

/// What a watch does in answer to an event.
#[derive(Debug)]
pub enum WatchAction {
    /// Wait for the next event.
    Wait,
    /// Relocate the created files as decided, one decision per name, each
    /// move after the settle delay; then wait for the next event.
    Relocate(Vec<Option<MoveOperation>>),
    /// Log the error and wait for the next event.
    LogError,
    /// Return to the caller without error.
    Finish,
    /// Return the setup error to the caller.
    Fail,
}

/// What a `WatchAction` stands for.
pub enum WatchActionView {
    Wait,
    Relocate(Seq<Option<MoveOperationView>>),
    LogError,
    Finish,
    Fail,
}

impl View for WatchAction {
    type V = WatchActionView;

    open spec fn view(&self) -> WatchActionView {
        match self {
            WatchAction::Wait => WatchActionView::Wait,
            WatchAction::Relocate(decisions) => WatchActionView::Relocate(all_decided(decisions@)),
            WatchAction::LogError => WatchActionView::LogError,
            WatchAction::Finish => WatchActionView::Finish,
            WatchAction::Fail => WatchActionView::Fail,
        }
    }
}

/// What a watch does with the names of created files: screenshots move after
/// the settle delay, everything else stays.
pub open spec fn watch_decisions(names: Seq<String>) -> Seq<Option<MoveOperationView>> {
    names.map_values(|n: String| decision_for(n@, true))
}

/// The state that follows `state` on `event`.
pub open spec fn watch_next_state(state: WatchState, event: WatchEvent) -> WatchState {
    match (state, event) {
        (WatchState::Initial, WatchEvent::Subscribed) => WatchState::Active,
        (WatchState::Initial, WatchEvent::SetupFailed) => WatchState::Terminal,
        (WatchState::Active, WatchEvent::Closed) => WatchState::Terminal,
        _ => state,
    }
}

/// The answer of a watch in `state` to `event`. Only an active watch acts on
/// notifications, and only on the creation of files; a watch that has not
/// started or is over waits whatever comes.
pub open spec fn watch_answer(state: WatchState, event: WatchEvent) -> WatchActionView {
    match (state, event) {
        (WatchState::Initial, WatchEvent::SetupFailed) => WatchActionView::Fail,
        (WatchState::Active, WatchEvent::Created(names)) => WatchActionView::Relocate(
            watch_decisions(names@),
        ),
        (WatchState::Active, WatchEvent::Error) => WatchActionView::LogError,
        (WatchState::Active, WatchEvent::Closed) => WatchActionView::Finish,
        _ => WatchActionView::Wait,
    }
}

/// Decides, for each name of a creation event, whether and where the file
/// moves.
fn decide_created(names: &Vec<String>) -> (decisions: Vec<Option<MoveOperation>>)
    ensures
        all_decided(decisions@) == watch_decisions(names@),
{
    let mut decisions: Vec<Option<MoveOperation>> = Vec::new();
    let mut i: usize = 0;
    while i < names.len()
        invariant
            i <= names.len(),
            all_decided(decisions@) == watch_decisions(names@.take(i as int)),
        decreases names.len() - i,
    {
        let decision = relocation_for(names[i].as_str(), true);
        proof {
            assert(names@.take(i + 1) == names@.take(i as int).push(names@[i as int]));
            assert(all_decided(decisions@.push(decision)) == all_decided(decisions@).push(
                decided(decision),
            ));
            assert(watch_decisions(names@.take(i as int).push(names@[i as int]))
                == watch_decisions(names@.take(i as int)).push(
                decision_for(names@[i as int]@, true),
            ));
        }
        decisions.push(decision);
        i += 1;
    }
    proof {
        assert(names@.take(i as int) == names@);
    }
    decisions
}

/// Takes a watch one event further: the state that follows, and what to do.
pub fn watch_step(state: WatchState, event: &WatchEvent) -> (next: (WatchState, WatchAction))
    ensures
        next.0 == watch_next_state(state, *event),
        next.1@ == watch_answer(state, *event),
{
    match state {
        WatchState::Initial => match event {
            WatchEvent::Subscribed => (WatchState::Active, WatchAction::Wait),
            WatchEvent::SetupFailed => (WatchState::Terminal, WatchAction::Fail),
            _ => (WatchState::Initial, WatchAction::Wait),
        },
        WatchState::Active => match event {
            WatchEvent::Created(names) => (
                WatchState::Active,
                WatchAction::Relocate(decide_created(names)),
            ),
            WatchEvent::Error => (WatchState::Active, WatchAction::LogError),
            WatchEvent::Closed => (WatchState::Terminal, WatchAction::Finish),
            _ => (WatchState::Active, WatchAction::Wait),
        },
        WatchState::Terminal => (WatchState::Terminal, WatchAction::Wait),
    }
}

} // verus!
