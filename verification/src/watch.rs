//! The decisions of the file-system watch: which changes matter, and when a
//! change is passed on as a signal to reload.
//!
//! Time is a count of milliseconds on a clock that does not go back; the
//! caller reads the clock and hands the reading in.

use crate::paths::{ignore_path, ignored_under, string_views};
use vstd::prelude::*;

verus! {

/// After a signal, changes are swallowed for this many milliseconds.
pub const DEBOUNCE_MILLIS: u64 = 100;

/// An event telling a client what to do.
///
/// This looks silly, but this is an enum to allow for future extensibility: for
/// example, a future command could reload only a single page instead of
/// everything.
#[derive(Debug, Clone, Copy, PartialEq, Eq)]
pub enum ReloadEvent {
    Reload,
}

/// A change reported by the file system.
#[derive(Debug, PartialEq, Eq)]
pub struct Change {
    /// Whether the change is one to the data of a file, rather than to its
    /// metadata, or a file made or removed.
    pub data_modified: bool,
    /// The paths it touches, in absolute form.
    pub paths: Vec<String>,
}

/// Whether one of the paths `paths[from..]` is not ignored under `bases`.
pub open spec fn any_watched(bases: Seq<Seq<char>>, paths: Seq<Seq<char>>, from: int) -> bool
    decreases paths.len() - from,
{
    if from < 0 || from >= paths.len() {
        false
    } else {
        !ignored_under(bases, paths[from], 0) || any_watched(bases, paths, from + 1)
    }
}

/// A change qualifies for a signal if it modifies data and at least one of
/// its paths is not ignored.
pub open spec fn qualifies(bases: Seq<Seq<char>>, data_modified: bool, paths: Seq<Seq<char>>) -> bool {
    data_modified && any_watched(bases, paths, 0)
}

/// The time that has passed from `last` to `now`; none if the clock reads
/// earlier than it did.
pub open spec fn elapsed(last: u64, now: u64) -> int {
    if now >= last {
        now - last
    } else {
        0
    }
}

/// Whether a change at `now` falls into the window after the last signal,
/// given at `last`. Where no signal has been given yet, there is no window.
pub open spec fn suppressed(last: Option<u64>, now: u64) -> bool {
    match last {
        Some(at) => elapsed(at, now) < DEBOUNCE_MILLIS,
        None => false,
    }
}

/// Whether a change at `now` is passed on as a signal.
pub open spec fn signals(last: Option<u64>, now: u64, qualifying: bool) -> bool {
    !suppressed(last, now) && qualifying
}

/// The time of the last signal after a change at `now`: `now` if it was
/// passed on, what it was before if it was not.
pub open spec fn next_last(last: Option<u64>, now: u64, qualifying: bool) -> Option<u64> {
    if signals(last, now, qualifying) {
        Some(now)
    } else {
        last
    }
}

/// How many signals two qualifying changes give, one at `first` and then one
/// at `second`, where the last signal before them was at `last`.
pub open spec fn signals_of_two(last: Option<u64>, first: u64, second: u64) -> nat {
    let after_first = next_last(last, first, true);
    let one: nat = if signals(last, first, true) {
        1
    } else {
        0
    };
    let other: nat = if signals(after_first, second, true) {
        1
    } else {
        0
    };
    one + other
}

/// While no signal has been given, every qualifying change is passed on,
/// whatever the clock reads.
pub proof fn lemma_idle_passes_first_change(now: u64)
    ensures
        signals(None, now, true),
        next_last(None, now, true) == Some(now),
{
}

/// Two qualifying changes less than the window apart give exactly one
/// signal, unless both fall into the window of a signal before them.
pub proof fn lemma_burst_gives_one_signal(last: Option<u64>, first: u64, second: u64)
    requires
        first <= second,
        second - first < DEBOUNCE_MILLIS,
        !suppressed(last, second),
    ensures
        signals_of_two(last, first, second) == 1,
{
}

/// Two qualifying changes at least the window apart give two signals, unless
/// the first falls into the window of a signal before it.
pub proof fn lemma_spaced_changes_give_two_signals(last: Option<u64>, first: u64, second: u64)
    requires
        first <= second,
        second - first >= DEBOUNCE_MILLIS,
        !suppressed(last, first),
    ensures
        signals_of_two(last, first, second) == 2,
{
}

/// Changes that fall into the window of a signal give none, however many
/// they are: a window is not made longer by what it swallows.
pub proof fn lemma_swallowed_changes_keep_the_window(
    last: Option<u64>,
    now: u64,
    qualifying: bool,
)
    requires
        suppressed(last, now),
    ensures
        !signals(last, now, qualifying),
        next_last(last, now, qualifying) == last,
{
}

/// A change that does not qualify leaves no trace: it gives no signal and
/// does not move the window.
pub proof fn lemma_other_changes_leave_no_trace(last: Option<u64>, now: u64)
    ensures
        !signals(last, now, false),
        next_last(last, now, false) == last,
{
}

/// Whether a change touches a path that is not ignored, computed.
pub fn touches_watched(bases: &Vec<String>, paths: &Vec<String>) -> (found: bool)
    ensures
        found == any_watched(string_views(bases@), string_views(paths@), 0),
{
    let ghost b = string_views(bases@);
    let ghost p = string_views(paths@);
    let mut i: usize = 0;
    while i < paths.len()
        invariant
            i <= paths@.len(),
            b == string_views(bases@),
            p == string_views(paths@),
            any_watched(b, p, 0) == any_watched(b, p, i as int),
        decreases paths@.len() - i,
    {
        assert(p[i as int] == paths@[i as int]@);
        if !ignore_path(bases, paths[i].as_str()) {
            return true;
        }
        i += 1;
    }
    false
}

/// The state of the watch between two changes: the roots it watches and the
/// time of the last signal, if one has been given.
pub struct Handler {
    bases: Vec<String>,
    last_event: Option<u64>,
}

impl Handler {
    /// A watch over `bases`, given in absolute form, that has given no
    /// signal yet.
    pub fn new(bases: Vec<String>) -> (handler: Handler)
        ensures
            handler.bases() == string_views(bases@),
            handler.last_event() is None,
    {
        Handler { bases, last_event: None }
    }

    /// The roots that are watched.
    pub closed spec fn bases(&self) -> Seq<Seq<char>> {
        string_views(self.bases@)
    }

    /// The time of the last signal, if one has been given.
    pub closed spec fn last_event(&self) -> Option<u64> {
        self.last_event
    }

    /// Takes a change reported at `now`, or `None` where the report was an
    /// error, and decides whether to pass it on: within the window after
    /// the last signal nothing is, and outside it, or before any signal,
    /// only a qualifying change, from which the next window is counted.
    pub fn handle_event(&mut self, now: u64, change: Option<&Change>) -> (signal: Option<
        ReloadEvent,
    >)
        ensures
            final(self).bases() == old(self).bases(),
            ({
                let qualifying = match change {
                    Some(c) => qualifies(
                        old(self).bases(),
                        c.data_modified,
                        string_views(c.paths@),
                    ),
                    None => false,
                };
                &&& final(self).last_event() == next_last(old(self).last_event(), now, qualifying)
                &&& signal == if signals(old(self).last_event(), now, qualifying) {
                    Some(ReloadEvent::Reload)
                } else {
                    None::<ReloadEvent>
                }
            }),
    {
        // Ignore events that happen close together.
        match self.last_event {
            Some(last) => {
                if now < last || now - last < DEBOUNCE_MILLIS {
                    return None;
                }
            },
            None => {},
        }
        // Is this a modification of a file we care about?
        match change {
            Some(c) => {
                if c.data_modified && touches_watched(&self.bases, &c.paths) {
                    self.last_event = Some(now);
                    Some(ReloadEvent::Reload)
                } else {
                    None
                }
            },
            None => None,
        }
    }
}

} // verus!
