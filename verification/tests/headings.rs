use notes::markdown::add_ids::{slug_append, AddHeadingIds};
use notes::markdown::event::{
    drain, parse, to_html, EventList, EventSource, Extensions, MdEvent,
};
use notes::markdown::heading::check_headings;
use notes::markdown::toc::{page_title, TableOfContents, TocEntry};

fn render_with_ids(source: &str) -> String {
    let events = parse(source, Extensions::heading_attributes());
    let mut stage = AddHeadingIds::new(EventList::new(events));
    to_html(drain(&mut stage))
}

#[test]
fn add_ids_non_header() {
    assert_eq!(render_with_ids("*hi*"), "<p><em>hi</em></p>\n");
}

#[test]
fn add_ids_header_with_id() {
    assert_eq!(render_with_ids("# hi {#x}"), "<h1 id=\"x\">hi</h1>\n");
}

#[test]
fn add_ids_simple_header() {
    assert_eq!(render_with_ids("# hi"), "<h1 id=\"hi\">hi</h1>\n");
}

#[test]
fn add_ids_style() {
    assert_eq!(
        render_with_ids("# *hi*"),
        "<h1 id=\"hi\"><em>hi</em></h1>\n"
    );
}

#[test]
fn add_ids_space() {
    assert_eq!(render_with_ids("# h i"), "<h1 id=\"h-i\">h i</h1>\n");
}

#[test]
fn add_ids_punctuation() {
    assert_eq!(render_with_ids("# h'i"), "<h1 id=\"h-i\">h'i</h1>\n");
}

#[test]
fn add_ids_multi_gap() {
    assert_eq!(render_with_ids("# h ' i"), "<h1 id=\"h-i\">h ' i</h1>\n");
}

#[test]
fn markdown_non_header() {
    assert_eq!(render_with_ids("*hi*"), "<p><em>hi</em></p>\n");
}

#[test]
fn markdown_header_with_id() {
    assert_eq!(render_with_ids("# hi {#x}"), "<h1 id=\"x\">hi</h1>\n");
}

#[test]
fn markdown_simple_header() {
    assert_eq!(render_with_ids("# hi"), "<h1 id=\"hi\">hi</h1>\n");
}

#[test]
fn markdown_style() {
    assert_eq!(
        render_with_ids("# *hi*"),
        "<h1 id=\"hi\"><em>hi</em></h1>\n"
    );
}

#[test]
fn markdown_space() {
    assert_eq!(render_with_ids("# h i"), "<h1 id=\"h-i\">h i</h1>\n");
}

#[test]
fn markdown_punctuation() {
    assert_eq!(render_with_ids("# h'i"), "<h1 id=\"h-i\">h'i</h1>\n");
}

#[test]
fn markdown_multi_gap() {
    assert_eq!(render_with_ids("# h ' i"), "<h1 id=\"h-i\">h ' i</h1>\n");
}

fn slug(s: &str) -> String {
    let mut buf = String::new();
    slug_append(&mut buf, s);
    buf
}

#[test]
fn slug_examples() {
    assert_eq!(slug("hi"), "hi");
    assert_eq!(slug("h i"), "h-i");
    assert_eq!(slug("h'i"), "h-i");
    assert_eq!(slug("h ' i"), "h-i");
}

#[test]
fn slug_of_nothing_is_empty() {
    assert_eq!(slug(""), "");
}

#[test]
fn slug_without_alphanumerics_is_one_hyphen() {
    assert_eq!(slug("?!"), "-");
    assert_eq!(slug(" "), "-");
}

#[test]
fn slug_keeps_hyphens_at_the_ends() {
    assert_eq!(slug("Hello, World!"), "hello-world-");
    assert_eq!(slug("  lead"), "-lead");
}

#[test]
fn slug_lowers_ascii_only() {
    assert_eq!(slug("ABC xyz 123"), "abc-xyz-123");
    assert_eq!(slug("\u{c9}t\u{e9}"), "\u{c9}t\u{e9}");
}

#[test]
fn slug_appends_to_the_buffer() {
    let mut buf = "x:".to_string();
    slug_append(&mut buf, "A b");
    assert_eq!(buf, "x:a-b");
}

#[test]
fn slug_run_of_separators_collapses() {
    assert_eq!(slug("a -- b"), slug("a b"));
    assert_eq!(slug("a - b"), "a-b");
}

#[test]
fn heading_id_is_the_slug_of_the_whole_text() {
    let events = vec![
        MdEvent::HeadingStart { level: 1, id: None, classes: vec![], attrs: vec![] },
        MdEvent::Text("My ".to_string()),
        MdEvent::Text("\u{2019}".to_string()),
        MdEvent::Text(" Title".to_string()),
        MdEvent::HeadingEnd { level: 1 },
    ];
    let mut stage = AddHeadingIds::new(EventList::new(events));
    let out = drain(&mut stage);
    assert_eq!(out.len(), 5);
    assert!(matches!(&out[0], MdEvent::HeadingStart { level: 1, id: Some(id), .. } if id == "my-title"));
    assert!(matches!(&out[1], MdEvent::Text(t) if t == "My "));
    assert!(matches!(&out[4], MdEvent::HeadingEnd { level: 1 }));
}

#[test]
fn same_heading_text_gives_same_id() {
    assert_eq!(render_with_ids("# A *b* c"), render_with_ids("# A *b* c"));
    let first = render_with_ids("# Some Title\n\ntext");
    let second = render_with_ids("para\n\n# Some Title");
    assert!(first.contains("<h1 id=\"some-title\">"));
    assert!(second.contains("<h1 id=\"some-title\">"));
}

#[test]
fn explicit_id_is_kept_verbatim() {
    assert_eq!(
        render_with_ids("## Some Title {#My_ID}"),
        "<h2 id=\"My_ID\">Some Title</h2>\n"
    );
}

#[test]
fn unfinished_heading_is_anchored_from_what_there_is() {
    let events = vec![
        MdEvent::HeadingStart { level: 3, id: None, classes: vec![], attrs: vec![] },
        MdEvent::Text("a b".to_string()),
    ];
    let mut stage = AddHeadingIds::new(EventList::new(events));
    let out = drain(&mut stage);
    assert_eq!(out.len(), 2);
    assert!(matches!(&out[0], MdEvent::HeadingStart { level: 3, id: Some(id), .. } if id == "a-b"));
}

fn get_toc(source: &str) -> Vec<TocEntry> {
    let events = parse(source, Extensions::heading_attributes());
    let mut toc = TableOfContents::new(EventList::new(events));
    drain(&mut toc);
    toc.into_entries()
}

#[test]
fn no_headings() {
    assert_eq!(get_toc("hi"), &[]);
}

#[test]
fn a_heading() {
    assert_eq!(
        get_toc("# hi"),
        &[TocEntry {
            level: 1,
            id: None,
            title: "hi".to_string(),
        }]
    );
}

#[test]
fn heading_with_id() {
    assert_eq!(
        get_toc("# hi {#x}"),
        &[TocEntry {
            level: 1,
            id: Some("x".to_string()),
            title: "hi".to_string(),
        }]
    );
}

#[test]
fn two_headings() {
    assert_eq!(
        get_toc("# hi {#x}\n## bye {#y}"),
        &[
            TocEntry {
                level: 1,
                id: Some("x".to_string()),
                title: "hi".to_string(),
            },
            TocEntry {
                level: 2,
                id: Some("y".to_string()),
                title: "bye".to_string(),
            },
        ]
    );
}

#[test]
fn heading_and_other_text() {
    assert_eq!(
        get_toc("above\n# hi\nbelow"),
        &[TocEntry {
            level: 1,
            id: None,
            title: "hi".to_string(),
        }]
    );
}

#[test]
fn toc_passes_events_on_unchanged() {
    let source = "# a *b*\n\ntext [l](x.md)\n\n## c";
    let plain = to_html(parse(source, Extensions::heading_attributes()));
    let events = parse(source, Extensions::heading_attributes());
    let mut toc = TableOfContents::new(EventList::new(events));
    let through = to_html(drain(&mut toc));
    assert_eq!(through, plain);
}

#[test]
fn toc_has_one_entry_per_heading_in_order() {
    let toc = get_toc("# one\n\ntext\n\n### two *x*\n\n## three\n");
    assert_eq!(toc.len(), 3);
    assert_eq!(toc[0].title, "one");
    assert_eq!(toc[1].title, "two x");
    assert_eq!(toc[2].title, "three");
    assert_eq!(toc[0].level, 1);
    assert_eq!(toc[1].level, 3);
    assert_eq!(toc[2].level, 2);
}

#[test]
fn title_is_the_first_heading_of_depth_one() {
    assert_eq!(page_title(&get_toc("# Top\n## Sub")), Some("Top".to_string()));
    assert_eq!(page_title(&get_toc("## Sub\n# Top")), None);
    assert_eq!(page_title(&get_toc("no heading")), None);
}

#[test]
fn paired_headings_are_checked() {
    let start = || MdEvent::HeadingStart { level: 1, id: None, classes: vec![], attrs: vec![] };
    let end = || MdEvent::HeadingEnd { level: 1 };
    let text = || MdEvent::Text("t".to_string());
    assert!(check_headings(&vec![]));
    assert!(check_headings(&vec![text(), start(), text(), end(), start(), end()]));
    assert!(check_headings(&vec![start(), text()]));
    assert!(!check_headings(&vec![start(), start(), end(), end()]));
    assert!(!check_headings(&vec![end()]));
    assert!(!check_headings(&vec![start(), end(), end()]));
}

#[test]
fn toc_lists_what_passes_after_the_stage_is_made() {
    let events = parse("# one\n\n## two\n\n### three\n", Extensions::heading_attributes());
    let mut list = EventList::new(events);
    for _ in 0..3 {
        assert!(list.next().is_some());
    }
    let mut toc = TableOfContents::new(list);
    assert_eq!(drain(&mut toc).len(), 6);
    assert_eq!(
        toc.into_entries(),
        vec![
            TocEntry { level: 2, id: None, title: "two".to_string() },
            TocEntry { level: 3, id: None, title: "three".to_string() },
        ]
    );
}

#[test]
fn toc_of_a_stage_stopped_early_has_the_headings_passed() {
    let events = parse("# one\n\n## two\n", Extensions::heading_attributes());
    let mut toc = TableOfContents::new(EventList::new(events));
    assert!(toc.next().is_some());
    assert!(toc.next().is_some());
    assert_eq!(toc.into_entries(), vec![TocEntry { level: 1, id: None, title: "one".to_string() }]);
}

#[test]
fn slug_of_ascii_text_has_its_shape() {
    for text in ["", "a", "-", "--a--", "A  B\tC!!", "x_y.z", "  ", "a-b", "9 to 5"] {
        let s = slug(text);
        assert!(s.len() <= text.len());
        assert_eq!(s.is_empty(), text.is_empty());
        assert!(!s.contains("--"));
        assert!(s.chars().all(|c| c.is_ascii_lowercase() || c.is_ascii_digit() || c == '-'));
    }
    assert_eq!(slug("--a--"), "-a-");
    assert_eq!(slug("x_y.z"), "x-y-z");
    assert_eq!(slug("9 to 5"), "9-to-5");
}
