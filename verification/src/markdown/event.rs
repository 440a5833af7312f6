//! The events that flow through the rendering stages, the interface every
//! stage offers to the next one, and the two ends of the chain: the Markdown
//! parser and the HTML writer.

use pulldown_cmark::{CowStr, Event, HeadingLevel, LinkType, Options, Parser, Tag, TagEnd};
use std::collections::VecDeque;
use vstd::prelude::*;

verus! {

/// `pulldown_cmark::Event`, an event of the parser, carried through as it
/// is: nothing is said of what it holds.
#[verifier::external_type_specification]
#[verifier::external_body]
pub struct ExEvent<'a>(pulldown_cmark::Event<'a>);

/// `pulldown_cmark::CowStr`, the parser's string type, carried through as it
/// is.
#[verifier::external_type_specification]
#[verifier::external_body]
pub struct ExCowStr<'a>(pulldown_cmark::CowStr<'a>);

/// `pulldown_cmark::LinkType`, the way a link was written, carried through
/// as it is.
#[verifier::external_type_specification]
#[verifier::external_body]
pub struct ExLinkType(pulldown_cmark::LinkType);

/// One parse event. The variants with named fields are the ones the stages
/// read or change; every other event of the parser travels through untouched
/// as `Other`.
#[derive(Debug, PartialEq)]
pub enum MdEvent {
    /// The start of a heading of depth `level`, with its anchor if it has one.
    HeadingStart {
        level: u8,
        id: Option<String>,
        classes: Vec<CowStr<'static>>,
        attrs: Vec<(CowStr<'static>, Option<CowStr<'static>>)>,
    },
    /// The end of a heading of depth `level`.
    HeadingEnd { level: u8 },
    /// A run of text.
    Text(String),
    /// The start of a link to `dest_url`.
    LinkStart {
        link_type: LinkType,
        dest_url: String,
        title: CowStr<'static>,
        label: CowStr<'static>,
    },
    /// Any other event. No stage looks inside it: it is passed on as it is,
    /// whatever it holds.
    Other(Event<'static>),
}

/// The mathematical value of an [`MdEvent`]: strings become character
/// sequences, and the parts no stage looks at stay as they are.
pub enum EventModel {
    HeadingStart {
        level: u8,
        id: Option<Seq<char>>,
        classes: Vec<CowStr<'static>>,
        attrs: Vec<(CowStr<'static>, Option<CowStr<'static>>)>,
    },
    HeadingEnd { level: u8 },
    Text(Seq<char>),
    LinkStart {
        link_type: LinkType,
        dest_url: Seq<char>,
        title: CowStr<'static>,
        label: CowStr<'static>,
    },
    Other(Event<'static>),
}

impl View for MdEvent {
    type V = EventModel;

    open spec fn view(&self) -> EventModel {
        match *self {
            MdEvent::HeadingStart { level, id, classes, attrs } => EventModel::HeadingStart {
                level,
                id: match id {
                    Some(s) => Some(s@),
                    None => None,
                },
                classes,
                attrs,
            },
            MdEvent::HeadingEnd { level } => EventModel::HeadingEnd { level },
            MdEvent::Text(s) => EventModel::Text(s@),
            MdEvent::LinkStart { link_type, dest_url, title, label } => EventModel::LinkStart {
                link_type,
                dest_url: dest_url@,
                title,
                label,
            },
            MdEvent::Other(e) => EventModel::Other(e),
        }
    }
}

/// The values of a sequence of events.
pub open spec fn models(events: Seq<MdEvent>) -> Seq<EventModel> {
    events.map_values(|e: MdEvent| e@)
}

/// A heading's depth lies between 1 and 6; other events carry no depth.
pub open spec fn level_ok(e: EventModel) -> bool {
    match e {
        EventModel::HeadingStart { level, .. } => 1 <= level <= 6,
        EventModel::HeadingEnd { level } => 1 <= level <= 6,
        _ => true,
    }
}

/// Every event of `events` satisfies [`level_ok`].
pub open spec fn levels_ok(events: Seq<EventModel>) -> bool {
    forall|i: int| 0 <= i < events.len() ==> level_ok(#[trigger] events[i])
}

/// The Markdown extensions that a parse turns on.
#[derive(Clone, Copy, Debug, PartialEq, Eq)]
pub struct Extensions {
    pub heading_attributes: bool,
    pub smart_punctuation: bool,
    pub tables: bool,
    pub footnotes: bool,
    pub tasklists: bool,
    pub yaml_metadata: bool,
}

impl Extensions {
    /// No extension at all: plain CommonMark.
    pub fn none() -> (ext: Extensions)
        ensures
            ext == (Extensions {
                heading_attributes: false,
                smart_punctuation: false,
                tables: false,
                footnotes: false,
                tasklists: false,
                yaml_metadata: false,
            }),
    {
        Extensions {
            heading_attributes: false,
            smart_punctuation: false,
            tables: false,
            footnotes: false,
            tasklists: false,
            yaml_metadata: false,
        }
    }

    /// Only `{#id}` attributes on headings.
    pub fn heading_attributes() -> (ext: Extensions)
        ensures
            ext == (Extensions {
                heading_attributes: true,
                smart_punctuation: false,
                tables: false,
                footnotes: false,
                tasklists: false,
                yaml_metadata: false,
            }),
    {
        Extensions {
            heading_attributes: true,
            smart_punctuation: false,
            tables: false,
            footnotes: false,
            tasklists: false,
            yaml_metadata: false,
        }
    }

    /// Everything a note may use.
    pub fn notes() -> (ext: Extensions)
        ensures
            ext == (Extensions {
                heading_attributes: true,
                smart_punctuation: true,
                tables: true,
                footnotes: true,
                tasklists: true,
                yaml_metadata: true,
            }),
    {
        Extensions {
            heading_attributes: true,
            smart_punctuation: true,
            tables: true,
            footnotes: true,
            tasklists: true,
            yaml_metadata: true,
        }
    }
}

/// The bit of an option that is on; nothing for one that is off.
pub open spec fn flag(on: bool, bit: int) -> int {
    if on {
        bit
    } else {
        0
    }
}

/// The bit pattern of the parser options that stand for `ext`: bit 1 for
/// tables, 2 for footnotes, 4 for task lists, 5 for smart punctuation, 6 for
/// heading attributes and 7 for YAML metadata blocks.
pub open spec fn extension_flags(ext: Extensions) -> u32 {
    (flag(ext.tables, 2) + flag(ext.footnotes, 4) + flag(ext.tasklists, 16) + flag(
        ext.smart_punctuation,
        32,
    ) + flag(ext.heading_attributes, 64) + flag(ext.yaml_metadata, 128)) as u32
}

/// The events that the parser yields for `source` under the option bits
/// `flags`.
pub uninterp spec fn markdown_events(source: Seq<char>, flags: u32) -> Seq<EventModel>;

/// The HTML that the writer produces for a sequence of events.
pub uninterp spec fn events_html(events: Seq<EventModel>) -> Seq<char>;

/// Builds a `pulldown_cmark::Options` with `Options::set` from
/// `Options::empty`, one flag for each field of `ext`, and returns
/// `Options::bits` of it: the bits that the crate gives to the six flags,
/// each set where its field is.
#[verifier::external_body]
fn option_bits(ext: Extensions) -> (flags: u32)
    ensures
        flags == extension_flags(ext),
{
    let mut options = Options::empty();
    options.set(Options::ENABLE_HEADING_ATTRIBUTES, ext.heading_attributes);
    options.set(Options::ENABLE_SMART_PUNCTUATION, ext.smart_punctuation);
    options.set(Options::ENABLE_TABLES, ext.tables);
    options.set(Options::ENABLE_FOOTNOTES, ext.footnotes);
    options.set(Options::ENABLE_TASKLISTS, ext.tasklists);
    options.set(Options::ENABLE_YAML_STYLE_METADATA_BLOCKS, ext.yaml_metadata);
    options.bits()
}

/// Runs `pulldown_cmark::Parser::new_ext` over `source` with the options whose
/// bits are `flags` (`Options::from_bits_truncate`), and hands out each event it
/// yields, made owned with `Event::into_static`. The contract names the
/// resulting sequence, and says that heading depths are 1 to 6, as
/// `HeadingLevel` has no other value.
#[verifier::external_body]
fn parse_events(source: &str, flags: u32) -> (events: Vec<MdEvent>)
    ensures
        models(events@) == markdown_events(source@, flags),
        levels_ok(models(events@)),
{
    Parser::new_ext(source, Options::from_bits_truncate(flags)).map(|e| match e.into_static() {
        Event::Start(Tag::Heading { level, id, classes, attrs }) =>
            MdEvent::HeadingStart { level: level as u8, id: id.map(String::from), classes, attrs },
        Event::End(TagEnd::Heading(level)) => MdEvent::HeadingEnd { level: level as u8 },
        Event::Text(text) => MdEvent::Text(text.into()),
        Event::Start(Tag::Link { link_type, dest_url, title, id }) =>
            MdEvent::LinkStart { link_type, dest_url: dest_url.into(), title, label: id },
        other => MdEvent::Other(other),
    }).collect()
}

/// Runs `pulldown_cmark::html::push_html` over the events, each turned back
/// into the parser's own event type, and returns the string it filled. The
/// contract names that string.
#[verifier::external_body]
fn write_html(events: Vec<MdEvent>) -> (html: String)
    requires
        levels_ok(models(events@)),
    ensures
        html@ == events_html(models(events@)),
{
    let mut html = String::new();
    pulldown_cmark::html::push_html(&mut html, events.into_iter().map(|e| match e {
        MdEvent::HeadingStart { level, id, classes, attrs } => Event::Start(Tag::Heading {
            level: HeadingLevel::try_from(level as usize).unwrap(), id: id.map(CowStr::from), classes, attrs }),
        MdEvent::HeadingEnd { level } =>
            Event::End(TagEnd::Heading(HeadingLevel::try_from(level as usize).unwrap())),
        MdEvent::Text(text) => Event::Text(text.into()),
        MdEvent::LinkStart { link_type, dest_url, title, label } =>
            Event::Start(Tag::Link { link_type, dest_url: dest_url.into(), title, id: label }),
        MdEvent::Other(other) => other,
    }));
    html
}

/// Parses `source` as Markdown with the extensions `ext`.
pub fn parse(source: &str, ext: Extensions) -> (events: Vec<MdEvent>)
    ensures
        models(events@) == markdown_events(source@, extension_flags(ext)),
        levels_ok(models(events@)),
{
    parse_events(source, option_bits(ext))
}

/// Writes a sequence of events out as HTML.
pub fn to_html(events: Vec<MdEvent>) -> (html: String)
    requires
        levels_ok(models(events@)),
    ensures
        html@ == events_html(models(events@)),
{
    write_html(events)
}

/// A stage of the chain, seen from the stage after it: a fixed sequence of
/// events, handed out one at a time from the front.
pub trait EventSource {
    /// What must hold of a source before it is asked for an event.
    spec fn inv(&self) -> bool;

    /// All the events of this source, those already handed out included.
    spec fn stream(&self) -> Seq<EventModel>;

    /// How many events have been handed out.
    spec fn position(&self) -> nat;

    /// A source never stands beyond the end of its stream.
    proof fn lemma_in_bounds(&self)
        requires
            self.inv(),
        ensures
            self.position() <= self.stream().len(),
    ;

    /// Hands out the next event, or `None` once the stream is exhausted.
    fn next(&mut self) -> (event: Option<MdEvent>)
        requires
            old(self).inv(),
        ensures
            final(self).inv(),
            final(self).stream() == old(self).stream(),
            match event {
                Some(e) => {
                    &&& old(self).position() < old(self).stream().len()
                    &&& e@ == old(self).stream()[old(self).position() as int]
                    &&& final(self).position() == old(self).position() + 1
                },
                None => {
                    &&& old(self).position() == old(self).stream().len()
                    &&& final(self).position() == old(self).position()
                },
            },
    ;
}

/// A source over a list of events held in memory.
pub struct EventList {
    items: VecDeque<MdEvent>,
    done: Ghost<Seq<EventModel>>,
}

impl EventList {
    /// A source that hands out `events` from the first to the last.
    pub fn new(events: Vec<MdEvent>) -> (list: EventList)
        ensures
            list.inv(),
            list.stream() == models(events@),
            list.position() == 0,
    {
        let ghost all = events@;
        let mut items: VecDeque<MdEvent> = VecDeque::new();
        for e in it: events
            invariant
                it.seq() == all,
                items@ == all.take(it.index()),
        {
            items.push_back(e);
        }
        proof {
            assert(items@ == all);
            assert(Seq::<EventModel>::empty() + models(items@) == models(all));
        }
        EventList { items, done: Ghost(Seq::empty()) }
    }
}

impl EventSource for EventList {
    closed spec fn inv(&self) -> bool {
        true
    }

    closed spec fn stream(&self) -> Seq<EventModel> {
        self.done@ + models(self.items@)
    }

    closed spec fn position(&self) -> nat {
        self.done@.len()
    }

    proof fn lemma_in_bounds(&self) {
    }

    fn next(&mut self) -> (event: Option<MdEvent>) {
        let ghost before = self.items@;
        match self.items.pop_front() {
            Some(e) => {
                proof {
                    self.done@ = self.done@.push(e@);
                    assert(self.done@ + models(self.items@) == self.done@.drop_last() + models(
                        before,
                    ));
                }
                Some(e)
            },
            None => None,
        }
    }
}

/// Asks `source` for events until it has no more, and returns them in order.
pub fn drain<I: EventSource>(source: &mut I) -> (events: Vec<MdEvent>)
    requires
        old(source).inv(),
    ensures
        final(source).inv(),
        final(source).stream() == old(source).stream(),
        final(source).position() == final(source).stream().len(),
        models(events@) == old(source).stream().skip(old(source).position() as int),
{
    let ghost all = source.stream();
    let ghost start = source.position();
    let mut events: Vec<MdEvent> = Vec::new();
    proof {
        source.lemma_in_bounds();
        assert(models(events@) == all.subrange(start as int, start as int));
    }
    loop
        invariant
            source.inv(),
            source.stream() == all,
            source.position() == start + events@.len(),
            source.position() <= all.len(),
            models(events@) == all.subrange(start as int, source.position() as int),
        ensures
            source.inv(),
            source.stream() == all,
            source.position() == all.len(),
            models(events@) == all.skip(start as int),
        decreases all.len() - source.position(),
    {
        let ghost before = events@;
        match source.next() {
            Some(e) => {
                events.push(e);
                proof {
                    assert(models(events@) == models(before).push(e@));
                }
            },
            None => {
                break ;
            },
        }
    }
    events
}

} // verus!
