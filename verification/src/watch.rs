//! When a file-system event counts as a change, and what a watch session
//! does next.
//!
//! A watcher remembers the modification time of each watched path. An event
//! is a change only if it reports a creation or a modification and at least
//! one path is strictly newer than remembered: editors often fire several
//! events for one save.

use vstd::prelude::*;

verus! {

/// What a file-system event reports.
#[derive(Clone, Copy, Debug, PartialEq, Eq, Structural)]
pub enum ChangeKind {
    Any,
    Access,
    Create,
    Modify,
    Remove,
    Other,
}

impl ChangeKind {
    /// The event reports a creation or a modification.
    pub open spec fn spec_is_relevant(self) -> bool {
        self == ChangeKind::Create || self == ChangeKind::Modify
    }

    /// The event reports a creation or a modification.
    pub fn is_relevant(self) -> (r: bool)
        ensures
            r == self.spec_is_relevant(),
    {
        match self {
            ChangeKind::Create => true,
            ChangeKind::Modify => true,
            _ => false,
        }
    }
}

/// Some path has a time in `current` that is strictly later than its time in
/// `last`. Times are paired by position.
pub open spec fn any_advanced(last: Seq<u128>, current: Seq<u128>) -> bool {
    exists|i: int| 0 <= i < last.len() && i < current.len() && #[trigger] current[i] > last[i]
}

/// An event of this kind, with these fresh modification times, is a change.
pub open spec fn is_change(last: Seq<u128>, kind: ChangeKind, current: Seq<u128>) -> bool {
    kind.spec_is_relevant() && any_advanced(last, current)
}

/// Several events for one save are one change: once a change was taken,
/// an event that comes with the same modification times is none, whatever
/// its kind.
pub proof fn lemma_repeat_is_no_change(current: Seq<u128>, kind: ChangeKind)
    ensures
        !is_change(current, kind, current),
{
}

/// Tells whether some path is strictly newer in `current` than in `last`.
pub fn times_advanced(last: &Vec<u128>, current: &Vec<u128>) -> (r: bool)
    ensures
        r == any_advanced(last@, current@),
{
    let mut i: usize = 0;
    while i < last.len() && i < current.len()
        invariant
            forall|j: int| 0 <= j < i && j < last.len() && j < current.len() ==> !(#[trigger] current[j]
                > last[j]),
        decreases last.len() - i,
    {
        if current[i] > last[i] {
            return true;
        }
        i += 1;
    }
    false
}

/// The modification times that a watch session remembers, one for each
/// watched path.
#[derive(Debug)]
pub struct ChangeWatcher {
    pub last_modified: Vec<u128>,
}

impl View for ChangeWatcher {
    type V = Seq<u128>;

    open spec fn view(&self) -> Seq<u128> {
        self.last_modified@
    }
}

impl ChangeWatcher {
    /// A watcher that remembers `initial`.
    pub fn new(initial: Vec<u128>) -> (w: ChangeWatcher)
        ensures
            w@ == initial@,
    {
        ChangeWatcher { last_modified: initial }
    }

    /// Takes an event with the fresh modification times of the watched
    /// paths. Tells whether it is a change; if so the watcher remembers the
    /// fresh times, all of them, else it stays as it was.
    pub fn observe(self, kind: ChangeKind, current: Vec<u128>) -> (r: (ChangeWatcher, bool))
        ensures
            r.1 == is_change(self@, kind, current@),
            r.0@ == (if r.1 {
                current@
            } else {
                self@
            }),
    {
        if kind.is_relevant() && times_advanced(&self.last_modified, &current) {
            (ChangeWatcher { last_modified: current }, true)
        } else {
            (self, false)
        }
    }
}

/// What one bounded wait on the notification channel gave.
#[derive(Debug)]
pub enum Poll {
    /// An event arrived; `current` holds the fresh modification times.
    Notified { kind: ChangeKind, current: Vec<u128> },
    /// Nothing arrived in time; `present` says whether every watched file
    /// still exists.
    Quiet { present: bool },
}

/// A poll as plain values.
pub enum PollView {
    Notified { kind: ChangeKind, current: Seq<u128> },
    Quiet { present: bool },
}

impl View for Poll {
    type V = PollView;

    open spec fn view(&self) -> PollView {
        match self {
            Poll::Notified { kind, current } => PollView::Notified { kind: *kind, current: current@ },
            Poll::Quiet { present } => PollView::Quiet { present: *present },
        }
    }
}

/// What a watch session does after a poll.
#[derive(Clone, Copy, Debug, PartialEq, Eq, Structural)]
pub enum WatchAction {
    /// A watched file changed: compile and run again.
    Rebuild,
    /// Nothing to do: poll again.
    Wait,
    /// The session was cancelled: leave.
    Stop,
    /// A watched file is gone: leave with an error.
    Abort,
}

/// What a session that remembers `last` does after `poll`: it stops when
/// cancelled, rebuilds on a change, gives up when a watched file is gone,
/// and waits otherwise.
pub open spec fn spec_next_action(last: Seq<u128>, poll: PollView, cancelled: bool) -> (
    Seq<u128>,
    WatchAction,
) {
    if cancelled {
        (last, WatchAction::Stop)
    } else {
        match poll {
            PollView::Notified { kind, current } => if is_change(last, kind, current) {
                (current, WatchAction::Rebuild)
            } else {
                (last, WatchAction::Wait)
            },
            PollView::Quiet { present } => if present {
                (last, WatchAction::Wait)
            } else {
                (last, WatchAction::Abort)
            },
        }
    }
}

/// Decides what a watch session does after one poll, and what it remembers
/// from then on.
pub fn next_action(watcher: ChangeWatcher, poll: Poll, cancelled: bool) -> (r: (
    ChangeWatcher,
    WatchAction,
))
    ensures
        (r.0@, r.1) == spec_next_action(watcher@, poll@, cancelled),
{
    if cancelled {
        return (watcher, WatchAction::Stop);
    }
    match poll {
        Poll::Notified { kind, current } => {
            let (watcher, changed) = watcher.observe(kind, current);
            if changed {
                (watcher, WatchAction::Rebuild)
            } else {
                (watcher, WatchAction::Wait)
            }
        },
        Poll::Quiet { present } => {
            if present {
                (watcher, WatchAction::Wait)
            } else {
                (watcher, WatchAction::Abort)
            }
        },
    }
}

} // verus!
