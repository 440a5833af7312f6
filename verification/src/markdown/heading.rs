//! The shape that headings give to a stream of events: where a heading is
//! open, where it ends, and what its text is.

use crate::markdown::event::{models, EventModel, MdEvent};
use vstd::prelude::*;

verus! {

/// Whether a heading is open after the events of `events`: the last heading
/// event among them, if any, is a start.
pub open spec fn heading_open(events: Seq<EventModel>) -> bool
    decreases events.len(),
{
    if events.len() == 0 {
        false
    } else {
        match events.last() {
            EventModel::HeadingStart { .. } => true,
            EventModel::HeadingEnd { .. } => false,
            _ => heading_open(events.drop_last()),
        }
    }
}

/// Headings do not nest and do not end unopened: every heading start comes
/// while no heading is open, and every heading end while one is.
pub open spec fn headings_paired(events: Seq<EventModel>) -> bool {
    forall|i: int|
        0 <= i < events.len() ==> match #[trigger] events[i] {
            EventModel::HeadingStart { .. } => !heading_open(events.take(i)),
            EventModel::HeadingEnd { .. } => heading_open(events.take(i)),
            _ => true,
        }
}

/// The text that an event carries: its characters for a text event, nothing
/// for any other.
pub open spec fn text_piece(e: EventModel) -> Seq<char> {
    match e {
        EventModel::Text(t) => t,
        _ => Seq::empty(),
    }
}

/// The position just after the first heading end at or after `from`, or the
/// length of `s` if there is none.
pub open spec fn span_end(s: Seq<EventModel>, from: int) -> int
    decreases s.len() - from,
{
    if from < 0 || from >= s.len() {
        s.len() as int
    } else if s[from] is HeadingEnd {
        from + 1
    } else {
        span_end(s, from + 1)
    }
}

/// The text of the events `s[from..to]`, concatenated.
pub open spec fn text_between(s: Seq<EventModel>, from: int, to: int) -> Seq<char>
    decreases to - from,
{
    if to <= from {
        Seq::empty()
    } else {
        text_between(s, from, to - 1) + text_piece(s[to - 1])
    }
}

/// The text of the heading whose content begins at `from`: that of all the
/// events up to the heading's end.
pub open spec fn heading_text(s: Seq<EventModel>, from: int) -> Seq<char> {
    text_between(s, from, span_end(s, from))
}

/// Two streams have the same outline if, place by place, they agree on where
/// headings end and on the text that the events carry.
pub open spec fn same_outline(a: Seq<EventModel>, b: Seq<EventModel>) -> bool {
    &&& a.len() == b.len()
    &&& forall|i: int|
        0 <= i < a.len() ==> (#[trigger] a[i] is HeadingEnd) == (b[i] is HeadingEnd) && text_piece(
            a[i],
        ) == text_piece(b[i])
}

/// In streams with the same outline, headings end at the same places.
pub proof fn lemma_outline_span(a: Seq<EventModel>, b: Seq<EventModel>, from: int)
    requires
        same_outline(a, b),
    ensures
        span_end(a, from) == span_end(b, from),
        span_end(a, from) <= a.len(),
    decreases a.len() - from,
{
    if 0 <= from < a.len() {
        let _ = a[from];
        if !(a[from] is HeadingEnd) {
            lemma_outline_span(a, b, from + 1);
        }
    }
}

/// In streams with the same outline, the same stretches carry the same text.
pub proof fn lemma_outline_text(a: Seq<EventModel>, b: Seq<EventModel>, from: int, to: int)
    requires
        same_outline(a, b),
        0 <= from,
        to <= a.len(),
    ensures
        text_between(a, from, to) == text_between(b, from, to),
    decreases to - from,
{
    if from < to {
        lemma_outline_text(a, b, from, to - 1);
        let _ = a[to - 1];
    }
}

/// In streams with the same outline, headings have the same text.
pub proof fn lemma_outline_heading_text(a: Seq<EventModel>, b: Seq<EventModel>, from: int)
    requires
        same_outline(a, b),
        0 <= from,
    ensures
        heading_text(a, from) == heading_text(b, from),
{
    lemma_outline_span(a, b, from);
    lemma_outline_text(a, b, from, span_end(a, from));
}

/// While a heading is open and the stream is paired, the next event is no
/// heading start.
pub proof fn lemma_no_start_while_open(s: Seq<EventModel>, k: int)
    requires
        headings_paired(s),
        0 <= k < s.len(),
        heading_open(s.take(k)),
    ensures
        !(s[k] is HeadingStart),
        !(s[k] is HeadingEnd) ==> heading_open(s.take(k + 1)),
{
    let _ = s[k];
    assert(s.take(k + 1).drop_last() == s.take(k));
    assert(s.take(k + 1).last() == s[k]);
}

/// If no event of `s[from..to]` ends a heading, the heading's end lies at
/// or after `to`, where the search for it goes on.
pub proof fn lemma_span_end_skips(s: Seq<EventModel>, from: int, to: int)
    requires
        0 <= from <= to <= s.len(),
        forall|j: int| from <= j < to ==> !(#[trigger] s[j] is HeadingEnd),
    ensures
        span_end(s, from) == span_end(s, to),
    decreases to - from,
{
    if from < to {
        lemma_span_end_skips(s, from + 1, to);
    }
}

/// Whether the headings of `events` are paired, computed.
pub fn check_headings(events: &Vec<MdEvent>) -> (ok: bool)
    ensures
        ok == headings_paired(models(events@)),
{
    let ghost all = models(events@);
    let mut open = false;
    let mut i: usize = 0;
    while i < events.len()
        invariant
            i <= events@.len(),
            all == models(events@),
            open == heading_open(all.take(i as int)),
            headings_paired(all.take(i as int)),
        decreases events@.len() - i,
    {
        proof {
            assert(all.take(i + 1).drop_last() == all.take(i as int));
            assert(all.take(i + 1).last() == all[i as int]);
            assert(all[i as int] == events@[i as int]@);
        }
        match &events[i] {
            MdEvent::HeadingStart { .. } => {
                if open {
                    return false;
                }
                open = true;
            },
            MdEvent::HeadingEnd { .. } => {
                if !open {
                    return false;
                }
                open = false;
            },
            _ => {},
        }
        proof {
            assert forall|j: int| 0 <= j < i + 1 implies match #[trigger] all.take(i + 1)[j] {
                EventModel::HeadingStart { .. } => !heading_open(all.take(i + 1).take(j)),
                EventModel::HeadingEnd { .. } => heading_open(all.take(i + 1).take(j)),
                _ => true,
            } by {
                assert(all.take(i + 1).take(j) == all.take(j));
                if j < i {
                    assert(all.take(i as int).take(j) == all.take(j));
                    assert(all.take(i as int)[j] == all[j]);
                }
            }
        }
        i += 1;
    }
    proof {
        assert(all.take(i as int) == all);
    }
    true
}

} // verus!
