//! The stage that watches the stream go by and lists its headings.

use crate::markdown::event::{EventModel, EventSource, MdEvent};
use crate::markdown::heading::{
    heading_open, heading_text, headings_paired, span_end, text_between, text_piece,
};
use vstd::prelude::*;
use vstd::string::StringExecFns;

verus! {

/// One heading of a document: its depth (1 to 6), its anchor if it has one,
/// and its text.
#[derive(Debug, PartialEq, Eq)]
pub struct TocEntry {
    pub level: u8,
    pub id: Option<String>,
    pub title: String,
}

/// The mathematical value of a [`TocEntry`].
pub struct TocModel {
    pub level: u8,
    pub id: Option<Seq<char>>,
    pub title: Seq<char>,
}

impl View for TocEntry {
    type V = TocModel;

    open spec fn view(&self) -> TocModel {
        TocModel {
            level: self.level,
            id: match self.id {
                Some(s) => Some(s@),
                None => None,
            },
            title: self.title@,
        }
    }
}

/// The values of a list of entries.
pub open spec fn toc_models(entries: Seq<TocEntry>) -> Seq<TocModel> {
    entries.map_values(|e: TocEntry| e@)
}

/// The title of a page, from its table of contents: the text of the first
/// heading, where that heading is of depth 1.
pub open spec fn title_of(toc: Seq<TocModel>) -> Option<Seq<char>> {
    if toc.len() > 0 && toc[0].level == 1 {
        Some(toc[0].title)
    } else {
        None
    }
}

/// Extract the top-level title, if any.
pub fn page_title(entries: &Vec<TocEntry>) -> (title: Option<String>)
    ensures
        match title {
            Some(t) => title_of(toc_models(entries@)) == Some(t@),
            None => title_of(toc_models(entries@)) is None,
        },
{
    if entries.len() > 0 && entries[0].level == 1 {
        assert(toc_models(entries@)[0] == entries@[0]@);
        Some(entries[0].title.clone())
    } else {
        None
    }
}

/// The entries for the headings that start at or after `i`, in the order of
/// their starts: each has the depth and the anchor of its start event, and
/// the heading's text as its title.
pub open spec fn toc_from(s: Seq<EventModel>, i: int) -> Seq<TocModel>
    decreases s.len() - i,
{
    if i < 0 || i >= s.len() {
        Seq::empty()
    } else {
        match s[i] {
            EventModel::HeadingStart { level, id, .. } => seq![
                TocModel { level, id, title: heading_text(s, i + 1) },
            ] + toc_from(s, i + 1),
            _ => toc_from(s, i + 1),
        }
    }
}

/// The table of contents of a stream: one entry for each heading start.
pub open spec fn toc_of(s: Seq<EventModel>) -> Seq<TocModel> {
    toc_from(s, 0)
}

/// The number of heading starts at or after `i`.
pub open spec fn starts_from(s: Seq<EventModel>, i: int) -> nat
    decreases s.len() - i,
{
    if i < 0 || i >= s.len() {
        0
    } else if s[i] is HeadingStart {
        1 + starts_from(s, i + 1)
    } else {
        starts_from(s, i + 1)
    }
}

/// The number of heading ends at or after `i`.
pub open spec fn ends_from(s: Seq<EventModel>, i: int) -> nat
    decreases s.len() - i,
{
    if i < 0 || i >= s.len() {
        0
    } else if s[i] is HeadingEnd {
        1 + ends_from(s, i + 1)
    } else {
        ends_from(s, i + 1)
    }
}

/// The table of contents has exactly one entry for each heading start.
pub proof fn lemma_toc_counts_starts(s: Seq<EventModel>, i: int)
    requires
        0 <= i <= s.len(),
    ensures
        toc_from(s, i).len() == starts_from(s, i),
    decreases s.len() - i,
{
    if i < s.len() {
        lemma_toc_counts_starts(s, i + 1);
    }
}

/// In a stream whose headings are paired, from any place on there are as many
/// heading starts as heading ends, but for a heading open at that place
/// (its end is still to come) or left open when the stream stops.
pub proof fn lemma_starts_match_ends(s: Seq<EventModel>, i: int)
    requires
        headings_paired(s),
        0 <= i <= s.len(),
    ensures
        starts_from(s, i) + (if heading_open(s.take(i)) {
            1int
        } else {
            0int
        }) == ends_from(s, i) + (if heading_open(s) {
            1int
        } else {
            0int
        }),
    decreases s.len() - i,
{
    if i < s.len() {
        lemma_starts_match_ends(s, i + 1);
        let _ = s[i];
        assert(s.take(i + 1).drop_last() == s.take(i));
        assert(s.take(i + 1).last() == s[i]);
    } else {
        assert(s.take(i) == s);
    }
}

/// The table of contents of a stream whose headings are paired and all
/// closed has as many entries as the stream has pairs of a heading start and
/// a heading end.
pub proof fn lemma_toc_counts_pairs(s: Seq<EventModel>)
    requires
        headings_paired(s),
        !heading_open(s),
    ensures
        toc_of(s).len() == starts_from(s, 0),
        toc_of(s).len() == ends_from(s, 0),
{
    lemma_toc_counts_starts(s, 0);
    lemma_starts_match_ends(s, 0);
    assert(s.take(0) == Seq::<EventModel>::empty());
}

/// The entries for the headings from `i` on are the tail of the whole table.
pub proof fn lemma_toc_tail(s: Seq<EventModel>, i: int)
    requires
        0 <= i <= s.len(),
    ensures
        toc_from(s, i).len() <= toc_of(s).len(),
        toc_of(s).skip(toc_of(s).len() - toc_from(s, i).len()) == toc_from(s, i),
    decreases i,
{
    if i > 0 {
        lemma_toc_tail(s, i - 1);
        let prev = toc_from(s, i - 1);
        let whole = toc_of(s);
        if s[i - 1] is HeadingStart {
            assert(prev.skip(1) == toc_from(s, i));
            assert(whole.skip(whole.len() - prev.len()).skip(1) == whole.skip(
                whole.len() - prev.len() + 1,
            ));
        }
    } else {
        assert(toc_of(s).skip(0) == toc_of(s));
    }
}

/// The entries of the table stand in document order: of two headings, the
/// one that starts first has its entry first, and each entry is made from
/// its own heading.
pub proof fn lemma_toc_document_order(s: Seq<EventModel>, i: int, j: int)
    requires
        0 <= i < j < s.len(),
        s[i] is HeadingStart,
        s[j] is HeadingStart,
    ensures
        ({
            let toc = toc_of(s);
            let at_i = toc.len() - toc_from(s, i).len();
            let at_j = toc.len() - toc_from(s, j).len();
            &&& 0 <= at_i < at_j < toc.len()
            &&& toc[at_i] == toc_from(s, i)[0]
            &&& toc[at_j] == toc_from(s, j)[0]
        }),
{
    lemma_toc_tail(s, i);
    lemma_toc_tail(s, j);
    lemma_toc_shrinks(s, i + 1, j);
    let toc = toc_of(s);
    assert(toc.skip(toc.len() - toc_from(s, i).len())[0] == toc_from(s, i)[0]);
    assert(toc.skip(toc.len() - toc_from(s, j).len())[0] == toc_from(s, j)[0]);
}

/// From a later place on there are no more entries than from an earlier one.
proof fn lemma_toc_shrinks(s: Seq<EventModel>, i: int, j: int)
    requires
        0 <= i <= j <= s.len(),
    ensures
        toc_from(s, j).len() <= toc_from(s, i).len(),
    decreases j - i,
{
    if i < j {
        lemma_toc_shrinks(s, i + 1, j);
    }
}

/// What one more event does to a table of contents: a heading start opens
/// an entry with an empty title; text inside a heading is added to the
/// title of the last entry; any other event changes nothing.
pub open spec fn absorb(toc: Seq<TocModel>, open: bool, e: EventModel) -> Seq<TocModel> {
    match e {
        EventModel::HeadingStart { level, id, .. } => toc.push(
            TocModel { level, id, title: Seq::empty() },
        ),
        EventModel::Text(t) => if open && toc.len() > 0 {
            toc.update(
                toc.len() - 1,
                TocModel { level: toc.last().level, id: toc.last().id, title: toc.last().title + t },
            )
        } else {
            toc
        },
        _ => toc,
    }
}

/// Whether one of the events `s[from..to]` ends a heading.
spec fn has_end(s: Seq<EventModel>, from: int, to: int) -> bool
    decreases to - from,
{
    if to <= from {
        false
    } else {
        s[to - 1] is HeadingEnd || has_end(s, from, to - 1)
    }
}

proof fn lemma_has_end_front(s: Seq<EventModel>, from: int, to: int)
    requires
        0 <= from < to <= s.len(),
    ensures
        has_end(s, from, to) == (s[from] is HeadingEnd || has_end(s, from + 1, to)),
    decreases to - from,
{
    if from + 1 < to {
        lemma_has_end_front(s, from, to - 1);
    } else {
        assert(!has_end(s, from, from));
        assert(!has_end(s, from + 1, to));
    }
}

proof fn lemma_has_end_prefix(t: Seq<EventModel>, u: Seq<EventModel>, from: int, to: int)
    requires
        0 <= from,
        to <= u.len() <= t.len(),
        forall|k: int| 0 <= k < u.len() ==> u[k] == t[k],
    ensures
        has_end(t, from, to) == has_end(u, from, to),
        text_between(t, from, to) == text_between(u, from, to),
    decreases to - from,
{
    if from < to {
        lemma_has_end_prefix(t, u, from, to - 1);
    }
}

/// Where the heading that begins at `from` ends, in a stream and in the
/// stream with its last event taken off.
proof fn lemma_span_end_grows(t: Seq<EventModel>, from: int)
    requires
        t.len() > 0,
        0 <= from <= t.len() - 1,
    ensures
        from <= span_end(t.drop_last(), from) <= t.len() - 1,
        has_end(t, from, t.len() - 1) ==> span_end(t, from) == span_end(t.drop_last(), from),
        !has_end(t, from, t.len() - 1) ==> span_end(t, from) == t.len() && span_end(
            t.drop_last(),
            from,
        ) == t.len() - 1,
    decreases t.len() - from,
{
    let u = t.drop_last();
    if from < t.len() - 1 {
        lemma_has_end_front(t, from, t.len() - 1);
        assert(u[from] == t[from]);
        if !(t[from] is HeadingEnd) {
            lemma_span_end_grows(t, from + 1);
        }
    } else {
        assert(span_end(t, from + 1) == t.len());
    }
}

/// The text of the heading that begins at `from` grows by the text of the
/// stream's last event if the heading has not ended before it, and is
/// untouched if it has.
proof fn lemma_heading_text_grows(t: Seq<EventModel>, from: int)
    requires
        t.len() > 0,
        0 <= from <= t.len() - 1,
    ensures
        heading_text(t, from) == heading_text(t.drop_last(), from) + (if has_end(
            t,
            from,
            t.len() - 1,
        ) {
            Seq::<char>::empty()
        } else {
            text_piece(t.last())
        }),
{
    let u = t.drop_last();
    let m = t.len() as int;
    lemma_span_end_grows(t, from);
    if has_end(t, from, m - 1) {
        lemma_has_end_prefix(t, u, from, span_end(u, from));
        assert(heading_text(u, from) + Seq::<char>::empty() == heading_text(u, from));
    } else {
        lemma_has_end_prefix(t, u, from, m - 1);
    }
}

/// After a heading start at `i`, if no heading is open at `j`, a heading end
/// lies between the two.
proof fn lemma_closed_before(s: Seq<EventModel>, i: int, j: int)
    requires
        0 <= i < j <= s.len(),
        s[i] is HeadingStart,
        !heading_open(s.take(j)),
    ensures
        has_end(s, i + 1, j),
    decreases j - i,
{
    assert(s.take(j).last() == s[j - 1]);
    assert(s.take(j).drop_last() == s.take(j - 1));
    if j - 1 > i && !(s[j - 1] is HeadingEnd) {
        lemma_closed_before(s, i, j - 1);
    }
}

/// After a heading start at `i` that no other start follows before `n`, a
/// heading is open at `n` exactly if no heading end lies between.
proof fn lemma_open_after_last_start(s: Seq<EventModel>, i: int, n: int)
    requires
        0 <= i < n <= s.len(),
        s[i] is HeadingStart,
        forall|k: int| i < k < n ==> !(#[trigger] s[k] is HeadingStart),
    ensures
        heading_open(s.take(n)) == !has_end(s, i + 1, n),
    decreases n - i,
{
    assert(s.take(n).last() == s[n - 1]);
    assert(s.take(n).drop_last() == s.take(n - 1));
    if n - 1 > i {
        lemma_open_after_last_start(s, i, n - 1);
    }
}

proof fn lemma_has_end_widens(s: Seq<EventModel>, from: int, to: int, wider: int)
    requires
        to <= wider,
        has_end(s, from, to),
    ensures
        has_end(s, from, wider),
    decreases wider - to,
{
    if to < wider {
        lemma_has_end_widens(s, from, to, wider - 1);
    }
}

/// Where no entry comes from `i` on, no heading starts from `i` on.
proof fn lemma_no_entry_no_start(s: Seq<EventModel>, i: int, k: int)
    requires
        0 <= i <= k < s.len(),
        toc_from(s, i).len() == 0,
    ensures
        !(s[k] is HeadingStart),
    decreases k - i,
{
    if i < k {
        lemma_no_entry_no_start(s, i + 1, k);
    }
}

/// Where an entry comes from `i` on, a heading starts at some place from `i`
/// on.
proof fn lemma_entry_has_start(s: Seq<EventModel>, i: int) -> (k: int)
    requires
        0 <= i,
        toc_from(s, i).len() > 0,
    ensures
        i <= k < s.len(),
        s[k] is HeadingStart,
    decreases s.len() - i,
{
    if s[i] is HeadingStart {
        i
    } else {
        lemma_entry_has_start(s, i + 1)
    }
}

/// A prefix of a stream with paired headings has paired headings.
pub proof fn lemma_paired_prefix(s: Seq<EventModel>, n: int)
    requires
        headings_paired(s),
        0 <= n <= s.len(),
    ensures
        headings_paired(s.take(n)),
{
    assert forall|i: int| 0 <= i < n implies match #[trigger] s.take(n)[i] {
        EventModel::HeadingStart { .. } => !heading_open(s.take(n).take(i)),
        EventModel::HeadingEnd { .. } => heading_open(s.take(n).take(i)),
        _ => true,
    } by {
        assert(s.take(n).take(i) == s.take(i));
        let _ = s[i];
    }
}

/// The title of the entry for the heading that starts at `i`, in a stream
/// and in the stream with its last event taken off: it grows by that event's
/// text if the event is text inside this heading, and is the same otherwise.
proof fn lemma_head_title(t: Seq<EventModel>, i: int)
    requires
        t.len() > 0,
        headings_paired(t),
        0 <= i < t.len() - 1,
        t[i] is HeadingStart,
    ensures
        ({
            let u = t.drop_last();
            let inside = heading_open(u) && toc_from(u, i + 1).len() == 0;
            heading_text(t, i + 1) == if inside {
                heading_text(u, i + 1) + text_piece(t.last())
            } else {
                heading_text(u, i + 1)
            }
        }),
{
    let u = t.drop_last();
    let m = t.len() as int;
    assert(u[i] == t[i]);
    lemma_heading_text_grows(t, i + 1);
    lemma_has_end_prefix(t, u, i + 1, m - 1);
    assert(heading_text(u, i + 1) + Seq::<char>::empty() == heading_text(u, i + 1));
    if toc_from(u, i + 1).len() > 0 {
        // A later heading starts in `u`, so this one has ended.
        let k = lemma_entry_has_start(u, i + 1);
        assert(t[k] == u[k]);
        assert(t.take(k) == u.take(k));
        lemma_closed_before(u, i, k);
        lemma_has_end_widens(u, i + 1, k, m - 1);
    } else {
        // This is the last heading of `u`.
        assert forall|k: int| i < k < m - 1 implies !(#[trigger] u[k] is HeadingStart) by {
            lemma_no_entry_no_start(u, i + 1, k);
        }
        lemma_open_after_last_start(u, i, m - 1);
        assert(u.take(m - 1) == u);
    }
}

/// Where a heading is open, a heading has started, so the table is not empty.
proof fn lemma_open_has_start(u: Seq<EventModel>, n: int)
    requires
        0 <= n <= u.len(),
        heading_open(u.take(n)),
    ensures
        toc_of(u).len() > 0,
    decreases n,
{
    assert(n > 0);
    assert(u.take(n).last() == u[n - 1]);
    assert(u.take(n).drop_last() == u.take(n - 1));
    if u[n - 1] is HeadingStart {
        lemma_toc_tail(u, n - 1);
    } else {
        lemma_open_has_start(u, n - 1);
    }
}

/// The entries from `i` on, in a stream and in the stream with its last
/// event taken off.
proof fn lemma_toc_from_step(t: Seq<EventModel>, i: int)
    requires
        t.len() > 0,
        headings_paired(t),
        0 <= i <= t.len() - 1,
    ensures
        toc_from(t, i) == absorb(
            toc_from(t.drop_last(), i),
            heading_open(t.drop_last()),
            t.last(),
        ),
    decreases t.len() - i,
{
    let u = t.drop_last();
    let m = t.len() as int;
    let e = t.last();
    if i == m - 1 {
        assert(toc_from(t, i + 1) == Seq::<TocModel>::empty());
        assert(toc_from(u, i) == Seq::<TocModel>::empty());
        match e {
            EventModel::HeadingStart { level, id, .. } => {
                assert(span_end(t, m) == m);
                assert(heading_text(t, m) == Seq::<char>::empty());
                assert(toc_from(t, i) == Seq::<TocModel>::empty().push(
                    TocModel { level, id, title: Seq::empty() },
                ));
            },
            _ => {},
        }
    } else {
        lemma_toc_from_step(t, i + 1);
        assert(u[i] == t[i]);
        if t[i] is HeadingStart {
            lemma_head_title(t, i);
            lemma_toc_step_heading(t, i);
        }
    }
}

/// The step of [`lemma_toc_from_step`] at a heading start, given the
/// entries after it.
proof fn lemma_toc_step_heading(t: Seq<EventModel>, i: int)
    requires
        t.len() > 0,
        0 <= i < t.len() - 1,
        t[i] is HeadingStart,
        toc_from(t, i + 1) == absorb(
            toc_from(t.drop_last(), i + 1),
            heading_open(t.drop_last()),
            t.last(),
        ),
        ({
            let u = t.drop_last();
            let inside = heading_open(u) && toc_from(u, i + 1).len() == 0;
            heading_text(t, i + 1) == if inside {
                heading_text(u, i + 1) + text_piece(t.last())
            } else {
                heading_text(u, i + 1)
            }
        }),
    ensures
        toc_from(t, i) == absorb(
            toc_from(t.drop_last(), i),
            heading_open(t.drop_last()),
            t.last(),
        ),
{
    let u = t.drop_last();
    let e = t.last();
    let open = heading_open(u);
    let rest_u = toc_from(u, i + 1);
    let rest_t = toc_from(t, i + 1);
    assert(u[i] == t[i]);
    let level = t[i]->HeadingStart_level;
    let id = t[i]->HeadingStart_id;
    let head_u = TocModel { level, id, title: heading_text(u, i + 1) };
    let head_t = TocModel { level, id, title: heading_text(t, i + 1) };
    let all_u = seq![head_u] + rest_u;
    assert(toc_from(u, i) == all_u);
    assert(toc_from(t, i) == seq![head_t] + rest_t);
    match e {
        EventModel::HeadingStart { level: l2, id: id2, .. } => {
            let fresh = TocModel { level: l2, id: id2, title: Seq::empty() };
            assert(head_t == head_u);
            assert(seq![head_u] + rest_u.push(fresh) == all_u.push(fresh));
        },
        EventModel::Text(x) => {
            if open {
                if rest_u.len() > 0 {
                    let last = rest_u.last();
                    let grown = TocModel { level: last.level, id: last.id, title: last.title + x };
                    assert(all_u.last() == last);
                    assert(seq![head_u] + rest_u.update(rest_u.len() - 1, grown) == all_u.update(
                        all_u.len() - 1,
                        grown,
                    ));
                } else {
                    assert(rest_t == rest_u);
                    assert(all_u.last() == head_u);
                    assert(all_u.update(0, head_t) == seq![head_t] + rest_t);
                }
            } else {
                assert(head_t == head_u);
            }
        },
        _ => {
            assert(head_t == head_u);
        },
    }
}

/// The table of contents of a stream with paired headings is that of the
/// stream without its last event, after [`absorb`]ing that event.
pub proof fn lemma_toc_push(t: Seq<EventModel>)
    requires
        t.len() > 0,
        headings_paired(t),
    ensures
        toc_of(t) == absorb(toc_of(t.drop_last()), heading_open(t.drop_last()), t.last()),
{
    lemma_toc_from_step(t, 0);
}

/// A stage that extracts a table of contents, i.e. a list of all the
/// headings, from the events it passes on unchanged. Its stream is what the
/// wrapped source had still to give when the stage was made.
pub struct TableOfContents<I: EventSource> {
    iter: I,
    entries: Vec<TocEntry>,
    in_heading: bool,
    start: Ghost<nat>,
}

impl<I: EventSource> TableOfContents<I> {
    /// Wraps `iter`; the headings of the events that it has still to give
    /// must be paired.
    pub fn new(iter: I) -> (stage: Self)
        requires
            iter.inv(),
            headings_paired(iter.stream().skip(iter.position() as int)),
        ensures
            stage.inv(),
            stage.stream() == iter.stream().skip(iter.position() as int),
            stage.position() == 0,
    {
        let ghost start = iter.position();
        let stage = Self { iter, entries: Vec::new(), in_heading: false, start: Ghost(start) };
        proof {
            stage.iter.lemma_in_bounds();
            assert(stage.stream().take(0) == Seq::<EventModel>::empty());
            assert(toc_models(stage.entries@) == Seq::<TocModel>::empty());
        }
        stage
    }

    /// The entries collected so far: the table of contents of the events
    /// that have passed through the stage.
    pub fn into_entries(self) -> (entries: Vec<TocEntry>)
        requires
            self.inv(),
        ensures
            toc_models(entries@) == toc_of(self.stream().take(self.position() as int)),
    {
        self.entries
    }
}

impl<I: EventSource> EventSource for TableOfContents<I> {
    closed spec fn inv(&self) -> bool {
        let u = self.stream();
        let q = self.position() as int;
        &&& self.iter.inv()
        &&& self.start@ <= self.iter.position() <= self.iter.stream().len()
        &&& headings_paired(u)
        &&& toc_models(self.entries@) == toc_of(u.take(q))
        &&& self.in_heading == heading_open(u.take(q))
    }

    closed spec fn stream(&self) -> Seq<EventModel> {
        self.iter.stream().skip(self.start@ as int)
    }

    closed spec fn position(&self) -> nat {
        (self.iter.position() - self.start@) as nat
    }

    proof fn lemma_in_bounds(&self) {
    }

    fn next(&mut self) -> (event: Option<MdEvent>) {
        let ghost u = self.stream();
        let ghost q = self.position() as int;
        let ghost before = self.entries@;
        let event = self.iter.next();
        proof {
            self.iter.lemma_in_bounds();
            if event is Some {
                let t = u.take(q + 1);
                assert(t.drop_last() == u.take(q));
                assert(t.last() == u[q]);
                assert(u[q] == self.iter.stream()[q + self.start@]);
                lemma_paired_prefix(u, q + 1);
                lemma_toc_push(t);
            }
        }
        match &event {
            Some(MdEvent::HeadingStart { level, id, .. }) => {
                // Start building a new TOC entry for this heading.
                let id = match id {
                    Some(s) => Some(s.clone()),
                    None => None,
                };
                let entry = TocEntry { level: *level, id, title: String::new() };
                self.entries.push(entry);
                self.in_heading = true;
                proof {
                    assert(toc_models(self.entries@) == toc_models(before).push(entry@));
                }
            },
            Some(MdEvent::HeadingEnd { .. }) => {
                // Finish a TOC entry.
                assert(self.in_heading);
                self.in_heading = false;
            },
            Some(MdEvent::Text(text)) => {
                if self.in_heading {
                    proof {
                        assert(u.take(q).take(q) == u.take(q));
                        lemma_open_has_start(u.take(q), q);
                    }
                    let mut entry = self.entries.pop().unwrap();
                    let ghost last = entry@;
                    entry.title.append(text.as_str());
                    self.entries.push(entry);
                    proof {
                        assert(toc_models(before).last() == last);
                        assert(toc_models(self.entries@) == toc_models(before).update(
                            before.len() - 1,
                            entry@,
                        ));
                    }
                }
            },
            _ => {},
        }
        event
    }
}

} // verus!
