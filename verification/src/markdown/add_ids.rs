//! The stage that gives an anchor to every heading that has none, made from
//! the heading's text.

use crate::markdown::event::{level_ok, levels_ok, models, EventModel, EventSource, MdEvent};
use crate::markdown::heading::{
    heading_open, heading_text, headings_paired, lemma_no_start_while_open, lemma_span_end_skips,
    same_outline, span_end, text_between, text_piece,
};
use crate::text::{alphanumeric, ascii_lower, is_ascii_char};
use std::collections::VecDeque;
use vstd::prelude::*;
use vstd::string::StringExecFns;

verus! {

/// What the character at `i` adds to the slug of `s`: itself in lower case
/// if it is alphanumeric; one hyphen if it opens a run of other characters;
/// nothing if it continues such a run.
pub open spec fn slug_piece(s: Seq<char>, i: int) -> Seq<char> {
    if alphanumeric(s[i]) {
        seq![ascii_lower(s[i])]
    } else if i > 0 && !alphanumeric(s[i - 1]) {
        Seq::empty()
    } else {
        seq!['-']
    }
}

/// The slug of `s`: its alphanumeric characters in lower case, with each run
/// of other characters replaced by a single hyphen.
pub open spec fn slugify(s: Seq<char>) -> Seq<char>
    decreases s.len(),
{
    if s.len() == 0 {
        Seq::empty()
    } else {
        slugify(s.drop_last()) + slug_piece(s, s.len() - 1)
    }
}

/// The slug of a string grows by one piece with each character.
pub proof fn lemma_slugify_step(s: Seq<char>, n: int)
    requires
        0 <= n < s.len(),
    ensures
        slugify(s.take(n + 1)) == slugify(s.take(n)) + slug_piece(s, n),
{
    assert(s.take(n + 1).drop_last() == s.take(n));
    assert(slug_piece(s.take(n + 1), n) == slug_piece(s, n));
}

/// In a slug, a run of separators counts once, however long it is: a
/// second character that is not alphanumeric, right after a first one,
/// changes nothing.
pub proof fn lemma_separators_collapse(a: Seq<char>, x: char, y: char, b: Seq<char>)
    requires
        !alphanumeric(x),
        !alphanumeric(y),
    ensures
        slugify(a + seq![x, y] + b) == slugify(a + seq![x] + b),
    decreases b.len(),
{
    let long = a + seq![x, y] + b;
    let short = a + seq![x] + b;
    if b.len() == 0 {
        assert(long.drop_last() == short);
        assert(long[long.len() - 2] == x);
        assert(slug_piece(long, long.len() - 1) == Seq::<char>::empty());
        assert(slugify(long) == slugify(short) + Seq::<char>::empty());
    } else {
        lemma_separators_collapse(a, x, y, b.drop_last());
        assert(long.drop_last() == a + seq![x, y] + b.drop_last());
        assert(short.drop_last() == a + seq![x] + b.drop_last());
        assert(long.last() == short.last());
        assert(long[long.len() - 2] == if b.len() == 1 {
            y
        } else {
            b[b.len() - 2]
        });
        assert(short[short.len() - 2] == if b.len() == 1 {
            x
        } else {
            b[b.len() - 2]
        });
        assert(slug_piece(long, long.len() - 1) == slug_piece(short, short.len() - 1));
    }
}

/// No hyphen is followed by a hyphen.
pub open spec fn no_double_hyphen(a: Seq<char>) -> bool {
    forall|i: int| 0 <= i < a.len() - 1 ==> !(#[trigger] a[i] == '-' && a[i + 1] == '-')
}

/// A lower-case ASCII letter, a digit or a hyphen.
pub open spec fn slug_char(c: char) -> bool {
    ('a' <= c <= 'z') || ('0' <= c <= '9') || c == '-'
}

/// The shape of a slug: it is no longer than the text it is made from and
/// empty only if the text is; it ends in a hyphen exactly if the text ends
/// in a character that is not alphanumeric; and no two hyphens stand side
/// by side in it, so that each run of separators has left one hyphen.
pub proof fn lemma_slug_shape(s: Seq<char>)
    ensures
        slugify(s).len() <= s.len(),
        (slugify(s).len() == 0) == (s.len() == 0),
        s.len() > 0 ==> (slugify(s).last() == '-') == !alphanumeric(s.last()),
        no_double_hyphen(slugify(s)),
    decreases s.len(),
{
    if s.len() > 0 {
        let rest = s.drop_last();
        let c = s.last();
        let before = slugify(rest);
        let piece = slug_piece(s, s.len() - 1);
        lemma_slug_shape(rest);
        assert(slugify(s) == before + piece);
        assert(!alphanumeric('-'));
        if s.len() > 1 {
            assert(rest.last() == s[s.len() - 2]);
        }
        if alphanumeric(c) {
            assert(ascii_lower(c) != '-');
            assert(piece == seq![ascii_lower(c)]);
        }
        assert forall|i: int| 0 <= i < slugify(s).len() - 1 implies !(#[trigger] slugify(s)[i]
            == '-' && slugify(s)[i + 1] == '-') by {
            if i + 1 < before.len() {
                assert(slugify(s)[i] == before[i]);
                assert(slugify(s)[i + 1] == before[i + 1]);
            } else {
                assert(piece.len() == 1);
                assert(slugify(s)[i] == before.last());
                assert(slugify(s)[i + 1] == piece[0]);
            }
        }
    }
}

/// The slug of an ASCII text is made of lower-case ASCII letters, digits
/// and hyphens.
pub proof fn lemma_ascii_slug_alphabet(s: Seq<char>)
    requires
        forall|i: int| 0 <= i < s.len() ==> is_ascii_char(#[trigger] s[i]),
    ensures
        forall|k: int| 0 <= k < slugify(s).len() ==> slug_char(#[trigger] slugify(s)[k]),
    decreases s.len(),
{
    if s.len() > 0 {
        let rest = s.drop_last();
        let c = s.last();
        let before = slugify(rest);
        let piece = slug_piece(s, s.len() - 1);
        assert forall|i: int| 0 <= i < rest.len() implies is_ascii_char(#[trigger] rest[i]) by {
            assert(rest[i] == s[i]);
        }
        lemma_ascii_slug_alphabet(rest);
        assert(slugify(s) == before + piece);
        assert(is_ascii_char(c));
        if alphanumeric(c) {
            assert(slug_char(ascii_lower(c)));
        }
        assert forall|k: int| 0 <= k < slugify(s).len() implies slug_char(
            #[trigger] slugify(s)[k],
        ) by {
            if k < before.len() {
                assert(slugify(s)[k] == before[k]);
            } else {
                assert(slugify(s)[k] == piece[k - before.len()]);
            }
        }
    }
}

/// Slugify a string and append it to a buffer.
pub fn slug_append(buf: &mut String, s: &str)
    ensures
        final(buf)@ == old(buf)@ + slugify(s@),
{
    let ghost start = buf@;
    let mut last_is_dash = false;
    for c in it: s.chars()
        invariant
            it.seq() == s@,
            buf@ == start + slugify(s@.take(it.index())),
            last_is_dash == (it.index() > 0 && !alphanumeric(s@[it.index() - 1])),
    {
        proof {
            lemma_slugify_step(s@, it.index());
        }
        if c.is_alphanumeric() {
            last_is_dash = false;
            buf.push(c.to_ascii_lowercase());
        } else if !last_is_dash {
            last_is_dash = true;
            buf.push('-');
        }
    }
    proof {
        assert(s@.take(s@.len() as int) == s@);
    }
}

/// The event at `i`, with an anchor if it is a heading start that had none:
/// the slug of the heading's text.
pub open spec fn anchored(s: Seq<EventModel>, i: int) -> EventModel {
    match s[i] {
        EventModel::HeadingStart { level, id: None, classes, attrs } => EventModel::HeadingStart {
            level,
            id: Some(slugify(heading_text(s, i + 1))),
            classes,
            attrs,
        },
        e => e,
    }
}

/// The stream `s` with every heading anchored.
pub open spec fn with_heading_ids(s: Seq<EventModel>) -> Seq<EventModel> {
    Seq::new(s.len(), |i: int| anchored(s, i))
}

/// A heading that comes with an anchor keeps it: the stage leaves such an
/// event exactly as it was.
pub proof fn lemma_explicit_id_preserved(s: Seq<EventModel>, i: int)
    requires
        0 <= i < s.len(),
        s[i] matches EventModel::HeadingStart { id: Some(_), .. },
    ensures
        with_heading_ids(s)[i] == s[i],
{
}

/// The anchor given to a heading depends on the heading's text alone: two
/// headings without an anchor, in any two streams, whose texts are equal get
/// equal anchors.
pub proof fn lemma_id_from_text_alone(a: Seq<EventModel>, i: int, b: Seq<EventModel>, j: int)
    requires
        0 <= i < a.len(),
        0 <= j < b.len(),
        a[i] matches EventModel::HeadingStart { id: None, .. },
        b[j] matches EventModel::HeadingStart { id: None, .. },
        heading_text(a, i + 1) == heading_text(b, j + 1),
    ensures
        with_heading_ids(a)[i] matches EventModel::HeadingStart { id: Some(x), .. }
            && with_heading_ids(b)[j] matches EventModel::HeadingStart { id: Some(y), .. } && x
            == y && x == slugify(heading_text(a, i + 1)),
{
}

/// Anchoring changes no event's kind, so a heading is open after a prefix of
/// the anchored stream exactly when it is open after the same prefix of `s`.
pub proof fn lemma_anchoring_keeps_open(s: Seq<EventModel>, n: int)
    requires
        0 <= n <= s.len(),
    ensures
        heading_open(with_heading_ids(s).take(n)) == heading_open(s.take(n)),
    decreases n,
{
    if n > 0 {
        lemma_anchoring_keeps_open(s, n - 1);
        assert(with_heading_ids(s).take(n).drop_last() == with_heading_ids(s).take(n - 1));
        assert(s.take(n).drop_last() == s.take(n - 1));
        assert(with_heading_ids(s).take(n).last() == anchored(s, n - 1));
        assert(s.take(n).last() == s[n - 1]);
    }
}

/// Anchoring changes neither where headings end nor any text.
pub proof fn lemma_anchoring_keeps_outline(s: Seq<EventModel>)
    ensures
        same_outline(with_heading_ids(s), s),
{
    let w = with_heading_ids(s);
    assert forall|i: int| 0 <= i < w.len() implies (#[trigger] w[i] is HeadingEnd) == (
    s[i] is HeadingEnd) && text_piece(w[i]) == text_piece(s[i]) by {
        assert(w[i] == anchored(s, i));
    }
}

/// Anchoring keeps headings paired and depths in range.
pub proof fn lemma_anchoring_keeps_shape(s: Seq<EventModel>)
    ensures
        with_heading_ids(s).len() == s.len(),
        headings_paired(s) ==> headings_paired(with_heading_ids(s)),
        levels_ok(s) ==> levels_ok(with_heading_ids(s)),
{
    let w = with_heading_ids(s);
    if headings_paired(s) {
        assert forall|i: int| 0 <= i < w.len() implies match #[trigger] w[i] {
            EventModel::HeadingStart { .. } => !heading_open(w.take(i)),
            EventModel::HeadingEnd { .. } => heading_open(w.take(i)),
            _ => true,
        } by {
            lemma_anchoring_keeps_open(s, i);
            assert(w[i] == anchored(s, i));
            let _ = s[i];
        }
    }
    if levels_ok(s) {
        assert forall|i: int| 0 <= i < w.len() implies level_ok(#[trigger] w[i]) by {
            assert(level_ok(s[i]));
        }
    }
}

/// A stage that adds anchors to the headings that have none, buffering one
/// heading's events at a time.
pub struct AddHeadingIds<I: EventSource> {
    iter: I,
    buffer: VecDeque<MdEvent>,
}

impl<I: EventSource> AddHeadingIds<I> {
    /// Wraps `iter`, whose headings must be paired.
    pub fn new(iter: I) -> (stage: Self)
        requires
            iter.inv(),
            headings_paired(iter.stream()),
        ensures
            stage.inv(),
            stage.stream() == with_heading_ids(iter.stream()),
            stage.position() == iter.position(),
    {
        let stage = Self { iter, buffer: VecDeque::new() };
        proof {
            stage.iter.lemma_in_bounds();
            let s = stage.iter.stream();
            let p = stage.iter.position() as int;
            assert(models(stage.buffer@) == s.subrange(p, p));
        }
        stage
    }

    /// How many events have been read from the wrapped source and not yet
    /// handed out.
    pub closed spec fn pending(&self) -> nat {
        self.buffer@.len()
    }

    /// The stage looks ahead by no more than the rest of one heading: among
    /// the events read and not yet handed out there is no heading start, and
    /// no heading end but, at most, the last of them.
    pub proof fn lemma_lookahead_is_one_heading(&self, j: int)
        requires
            self.inv(),
            self.position() <= j < self.position() + self.pending(),
        ensures
            j < self.stream().len(),
            !(self.stream()[j] is HeadingStart),
            j < self.position() + self.pending() - 1 ==> !(self.stream()[j] is HeadingEnd),
    {
        let s = self.iter.stream();
        assert(self.stream()[j] == anchored(s, j));
        let _ = s[j];
    }

    /// Assuming that `self` is now just after the beginning of a heading,
    /// buffer up all the events until the heading ends. Return the
    /// slugified version of the heading's text contents.
    fn consume_heading(&mut self) -> (slug: String)
        requires
            old(self).iter.inv(),
            old(self).buffer@.len() == 0,
            headings_paired(old(self).iter.stream()),
            0 < old(self).iter.position() <= old(self).iter.stream().len(),
            heading_open(old(self).iter.stream().take(old(self).iter.position() as int)),
        ensures
            final(self).iter.inv(),
            final(self).iter.stream() == old(self).iter.stream(),
            old(self).iter.position() <= final(self).iter.position(),
            final(self).iter.position() <= final(self).iter.stream().len(),
            final(self).iter.position() == old(self).iter.position() + final(self).buffer@.len(),
            models(final(self).buffer@) == old(self).iter.stream().subrange(
                old(self).iter.position() as int,
                final(self).iter.position() as int,
            ),
            forall|j: int|
                old(self).iter.position() <= j < final(self).iter.position() ==> !(
                #[trigger] old(self).iter.stream()[j] is HeadingStart),
            forall|j: int|
                old(self).iter.position() <= j < final(self).iter.position() - 1 ==> !(
                #[trigger] old(self).iter.stream()[j] is HeadingEnd),
            slug@ == slugify(
                heading_text(old(self).iter.stream(), old(self).iter.position() as int),
            ),
    {
        let ghost s = self.iter.stream();
        let ghost from = self.iter.position() as int;
        let mut text = String::new();
        let mut ended = false;
        proof {
            assert(models(self.buffer@) == s.subrange(from, from));
        }
        while !ended
            invariant
                self.iter.inv(),
                self.iter.stream() == s,
                headings_paired(s),
                0 <= from <= self.iter.position() <= s.len(),
                self.iter.position() == from + self.buffer@.len(),
                models(self.buffer@) == s.subrange(from, self.iter.position() as int),
                text@ == text_between(s, from, self.iter.position() as int),
                forall|j: int|
                    from <= j < self.iter.position() ==> !(#[trigger] s[j] is HeadingStart),
                !ended ==> heading_open(s.take(self.iter.position() as int)),
                !ended ==> forall|j: int|
                    from <= j < self.iter.position() ==> !(#[trigger] s[j] is HeadingEnd),
                forall|j: int|
                    from <= j < self.iter.position() - 1 ==> !(#[trigger] s[j] is HeadingEnd),
                ended ==> span_end(s, from) == self.iter.position(),
            decreases s.len() - self.iter.position() + (if ended { 0int } else { 1int }),
        {
            let ghost k = self.iter.position() as int;
            let ghost buffered = self.buffer@;
            match self.iter.next() {
                None => {
                    proof {
                        lemma_span_end_skips(s, from, k);
                    }
                    ended = true;
                },
                Some(future_event) => {
                    proof {
                        lemma_no_start_while_open(s, k);
                        lemma_span_end_skips(s, from, k);
                    }
                    match &future_event {
                        MdEvent::HeadingEnd { .. } => {
                            ended = true;
                        },
                        MdEvent::Text(t) => {
                            text.append(t.as_str());
                        },
                        _ => {},
                    }
                    self.buffer.push_back(future_event);
                    proof {
                        assert(models(self.buffer@) == models(buffered).push(s[k]));
                        assert(models(buffered).push(s[k]) == s.subrange(from, k + 1));
                    }
                },
            }
        }
        let mut slug = String::new();
        slug_append(&mut slug, text.as_str());
        slug
    }
}

impl<I: EventSource> EventSource for AddHeadingIds<I> {
    closed spec fn inv(&self) -> bool {
        let s = self.iter.stream();
        let p = self.iter.position() as int;
        &&& self.iter.inv()
        &&& headings_paired(s)
        &&& self.buffer@.len() <= p <= s.len()
        &&& models(self.buffer@) == s.subrange(p - self.buffer@.len(), p)
        &&& forall|j: int| p - self.buffer@.len() <= j < p ==> !(#[trigger] s[j] is HeadingStart)
        &&& forall|j: int| p - self.buffer@.len() <= j < p - 1 ==> !(#[trigger] s[j] is HeadingEnd)
    }

    closed spec fn stream(&self) -> Seq<EventModel> {
        with_heading_ids(self.iter.stream())
    }

    closed spec fn position(&self) -> nat {
        (self.iter.position() - self.buffer@.len()) as nat
    }

    proof fn lemma_in_bounds(&self) {
    }

    fn next(&mut self) -> (event: Option<MdEvent>) {
        let ghost s = self.iter.stream();
        let ghost at = self.position() as int;
        let ghost buffered = self.buffer@;
        // Unbuffer the next buffered event, if any.
        if let Some(event) = self.buffer.pop_front() {
            proof {
                let p = self.iter.position() as int;
                assert(buffered.len() > 0);
                assert(0 <= at < p);
                assert(event@ == models(buffered)[0]);
                assert(models(buffered)[0] == s[at]);
                assert(models(self.buffer@) == models(buffered).subrange(
                    1,
                    buffered.len() as int,
                ));
                assert(s.subrange(at, p).subrange(1, buffered.len() as int) == s.subrange(
                    at + 1,
                    p,
                ));
                assert(!(s[at] is HeadingStart));
                assert(anchored(s, at) == s[at]);
            }
            return Some(event);
        }
        match self.iter.next() {
            None => None,
            Some(MdEvent::HeadingStart { level, id: None, classes, attrs }) => {
                // It's a heading without an ID. We do our thing.
                proof {
                    assert(s.take(at + 1).drop_last() == s.take(at));
                    assert(s.take(at + 1).last() == s[at]);
                }
                let slug = self.consume_heading();
                Some(MdEvent::HeadingStart { level, id: Some(slug), classes, attrs })
            },
            Some(event) => {
                proof {
                    assert(anchored(s, at) == s[at]);
                    assert(models(self.buffer@) == s.subrange(at + 1, at + 1));
                }
                Some(event)
            },
        }
    }
}

} // verus!
