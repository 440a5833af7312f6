//! Markdown to HTML, as a chain of stages over a stream of parse events:
//! parse, add heading anchors, collect the table of contents, rewrite
//! relative links, write HTML.

pub mod add_ids;
pub mod event;
pub mod heading;
pub mod rel_links;
pub mod toc;

use crate::markdown::add_ids::{
    anchored, lemma_anchoring_keeps_outline, lemma_anchoring_keeps_shape, slugify,
    with_heading_ids, AddHeadingIds,
};
use crate::markdown::event::{
    drain, events_html, extension_flags, levels_ok, markdown_events, models, parse, to_html,
    EventList, EventModel, EventSource, Extensions, MdEvent,
};
use crate::markdown::heading::{
    check_headings, heading_open, heading_text, headings_paired, lemma_outline_heading_text,
};
use crate::markdown::rel_links::{
    lemma_relinked_levels, lemma_toc_ignores_links, relinked, RewriteRelativeLinks,
};
use crate::markdown::toc::{
    ends_from, lemma_toc_counts_pairs, page_title, starts_from, title_of, toc_from, toc_models,
    toc_of, TableOfContents, TocEntry, TocModel,
};
use vstd::prelude::*;

verus! {

/// The extensions under which notes are parsed: all of them.
pub open spec fn note_extensions() -> Extensions {
    Extensions {
        heading_attributes: true,
        smart_punctuation: true,
        tables: true,
        footnotes: true,
        tasklists: true,
        yaml_metadata: true,
    }
}

/// The events of a page, from those of its source: every heading anchored,
/// then every link rewritten.
pub open spec fn page_events(events: Seq<EventModel>) -> Seq<EventModel> {
    relinked(with_heading_ids(events))
}

/// The table of contents of a page, from the events of its source: that of
/// the events with every heading anchored.
pub open spec fn page_toc(events: Seq<EventModel>) -> Seq<TocModel> {
    toc_of(with_heading_ids(events))
}

/// An entry with an anchor: its own where it has one, else the slug of its
/// title.
pub open spec fn anchored_entry(entry: TocModel) -> TocModel {
    TocModel {
        level: entry.level,
        id: match entry.id {
            Some(id) => Some(id),
            None => Some(slugify(entry.title)),
        },
        title: entry.title,
    }
}

proof fn lemma_anchored_toc_from(events: Seq<EventModel>, i: int)
    requires
        0 <= i,
    ensures
        toc_from(with_heading_ids(events), i) == toc_from(events, i).map_values(
            |e: TocModel| anchored_entry(e),
        ),
    decreases events.len() - i,
{
    let anchor = |e: TocModel| anchored_entry(e);
    let w = with_heading_ids(events);
    if i < events.len() {
        lemma_anchored_toc_from(events, i + 1);
        lemma_anchoring_keeps_outline(events);
        lemma_outline_heading_text(w, events, i + 1);
        assert(w[i] == anchored(events, i));
        match events[i] {
            EventModel::HeadingStart { level, id, .. } => {
                let entry = TocModel { level, id, title: heading_text(events, i + 1) };
                let rest = toc_from(events, i + 1);
                assert(toc_from(events, i) == seq![entry] + rest);
                assert((seq![entry] + rest).map_values(anchor) == seq![anchored_entry(entry)]
                    + rest.map_values(anchor));
            },
            _ => {},
        }
    } else {
        assert(toc_from(events, i).map_values(anchor) == Seq::<TocModel>::empty());
    }
}

/// Because anchors are added before the table of contents is taken, every
/// entry of a page's table carries one: the table is that of the source
/// events, with the slug of its title given to each entry that had no
/// anchor.
pub proof fn lemma_page_toc_is_anchored(events: Seq<EventModel>)
    ensures
        page_toc(events) == toc_of(events).map_values(|e: TocModel| anchored_entry(e)),
        page_toc(events).len() == toc_of(events).len(),
        forall|k: int| 0 <= k < page_toc(events).len() ==> (#[trigger] page_toc(events)[k]).id is Some,
{
    lemma_anchored_toc_from(events, 0);
}

/// The table of contents of a page whose source has its headings paired and
/// all closed has as many entries as the source has pairs of a heading
/// start and a heading end.
pub proof fn lemma_page_toc_counts_headings(events: Seq<EventModel>)
    requires
        headings_paired(events),
        !heading_open(events),
    ensures
        page_toc(events).len() == starts_from(events, 0),
        page_toc(events).len() == ends_from(events, 0),
{
    lemma_page_toc_is_anchored(events);
    lemma_toc_counts_pairs(events);
}

/// Runs parsed events through the chain of stages and writes the HTML. The
/// headings of `events` must be paired, as those of a parsed document are.
pub fn render_events(events: Vec<MdEvent>) -> (page: (String, Vec<TocEntry>))
    requires
        headings_paired(models(events@)),
        levels_ok(models(events@)),
    ensures
        page.0@ == events_html(page_events(models(events@))),
        toc_models(page.1@) == page_toc(models(events@)),
{
    let ghost source = models(events@);
    let iter = EventList::new(events);
    let iter = AddHeadingIds::new(iter);
    proof {
        lemma_anchoring_keeps_shape(source);
        assert(with_heading_ids(source).skip(0) == with_heading_ids(source));
    }
    let iter = TableOfContents::new(iter);
    let mut iter = RewriteRelativeLinks::new(iter);
    let out = drain(&mut iter);
    proof {
        lemma_relinked_levels(with_heading_ids(source));
        assert(models(out@) == page_events(source)) by {
            assert(page_events(source).skip(0) == page_events(source));
        }
    }
    let html = to_html(out);
    let toc = iter.into_inner();
    proof {
        // The links stage has seen the whole stream, so the stage below it
        // has too, and rewriting links changes no entry.
        lemma_toc_ignores_links(toc.stream());
        lemma_toc_ignores_links(with_heading_ids(source));
        assert(toc.stream().take(toc.position() as int) == toc.stream());
    }
    let entries = toc.into_entries();
    (html, entries)
}

/// A rendered note, as it is handed to the page template.
#[derive(Debug, PartialEq, Eq)]
pub struct Page {
    /// The top-level title, if any.
    pub title: Option<String>,
    /// The body, as HTML.
    pub body: String,
    /// The table of contents.
    pub toc: Vec<TocEntry>,
}

/// Renders the Markdown text of a note and extracts its title: the text of
/// its first heading, where that is of depth 1.
///
/// The result is `None` where that of [`render`] is.
pub fn render_page(source: &str) -> (page: Option<Page>)
    ensures
        ({
            let events = markdown_events(source@, extension_flags(note_extensions()));
            match page {
                Some(p) => {
                    &&& headings_paired(events)
                    &&& p.body@ == events_html(page_events(events))
                    &&& toc_models(p.toc@) == page_toc(events)
                    &&& match p.title {
                        Some(t) => title_of(page_toc(events)) == Some(t@),
                        None => title_of(page_toc(events)) is None,
                    }
                },
                None => !headings_paired(events),
            }
        }),
{
    match render(source) {
        Some((body, toc)) => {
            let title = page_title(&toc);
            Some(Page { title, body, toc })
        },
        None => None,
    }
}

/// Renders the Markdown text of a note to HTML, with its table of contents.
///
/// The result is `None` if the parsed document has a heading inside a
/// heading, or a heading end with no start: the stages are not made for
/// such a stream, and a parser that keeps its word gives none.
pub fn render(source: &str) -> (page: Option<(String, Vec<TocEntry>)>)
    ensures
        ({
            let events = markdown_events(source@, extension_flags(note_extensions()));
            match page {
                Some((html, toc)) => {
                    &&& headings_paired(events)
                    &&& html@ == events_html(page_events(events))
                    &&& toc_models(toc@) == page_toc(events)
                },
                None => !headings_paired(events),
            }
        }),
{
    let events = parse(source, Extensions::notes());
    if check_headings(&events) {
        Some(render_events(events))
    } else {
        None
    }
}

} // verus!
