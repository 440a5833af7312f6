use notes::markdown::event::{
    drain, parse, to_html, EventList, EventSource, Extensions, MdEvent,
};
use notes::markdown::{render, render_events, render_page, Page};
use notes::markdown::toc::TocEntry;

#[test]
fn render_anchors_lists_and_rewrites() {
    let (html, toc) = render("# Hi there\n\nSee [other](other.md).\n\n## More {#m}\n").unwrap();
    assert_eq!(
        html,
        "<h1 id=\"hi-there\">Hi there</h1>\n<p>See <a href=\"other.html\">other</a>.</p>\n<h2 id=\"m\">More</h2>\n"
    );
    assert_eq!(
        toc,
        vec![
            TocEntry { level: 1, id: Some("hi-there".to_string()), title: "Hi there".to_string() },
            TocEntry { level: 2, id: Some("m".to_string()), title: "More".to_string() },
        ]
    );
}

#[test]
fn render_twice_gives_the_same_page() {
    let source = "# A *b* `c`\n\n| x | y |\n|---|---|\n| 1 | 2 |\n\n- [ ] task\n\n[^1]: note\n";
    assert_eq!(render(source), render(source));
}

#[test]
fn render_without_headings_has_no_toc() {
    let (html, toc) = render("*hi*").unwrap();
    assert_eq!(html, "<p><em>hi</em></p>\n");
    assert!(toc.is_empty());
}

#[test]
fn render_of_nothing_is_empty() {
    assert_eq!(render(""), Some((String::new(), Vec::new())));
}

#[test]
fn render_uses_smart_punctuation_in_ids() {
    let (html, toc) = render("# it's").unwrap();
    assert_eq!(html, "<h1 id=\"it-s\">it\u{2019}s</h1>\n");
    assert_eq!(toc[0].title, "it\u{2019}s");
}

#[test]
fn render_knows_tables_and_tasks() {
    let (html, _) = render("| x |\n|---|\n| 1 |\n").unwrap();
    assert!(html.starts_with("<table>"));
    let (html, _) = render("- [x] done\n").unwrap();
    assert!(html.contains("type=\"checkbox\""));
}

#[test]
fn events_without_pairing_problems_render() {
    let events = vec![
        MdEvent::HeadingStart { level: 2, id: None, classes: vec![], attrs: vec![] },
        MdEvent::Text("A B".to_string()),
        MdEvent::HeadingEnd { level: 2 },
    ];
    let (html, toc) = render_events(events);
    assert_eq!(html, "<h2 id=\"a-b\">A B</h2>\n");
    assert_eq!(toc, vec![TocEntry { level: 2, id: Some("a-b".to_string()), title: "A B".to_string() }]);
}

#[test]
fn parse_then_write_is_plain_markdown() {
    assert_eq!(to_html(parse("*hi*", Extensions::none())), "<p><em>hi</em></p>\n");
    assert_eq!(to_html(parse("# hi {#x}", Extensions::none())), "<h1>hi {#x}</h1>\n");
    assert_eq!(
        to_html(parse("# hi {#x}", Extensions::heading_attributes())),
        "<h1 id=\"x\">hi</h1>\n"
    );
}

#[test]
fn extensions_switch_features_on() {
    let plain = to_html(parse("a -- b", Extensions::none()));
    let smart = to_html(parse("a -- b", Extensions::notes()));
    assert_eq!(plain, "<p>a -- b</p>\n");
    assert_eq!(smart, "<p>a \u{2013} b</p>\n");
}

#[test]
fn parse_gives_the_events_the_stages_read() {
    let events = parse("## t [l](d.md \"T\")", Extensions::none());
    assert!(matches!(&events[0], MdEvent::HeadingStart { level: 2, id: None, .. }));
    assert!(matches!(&events[1], MdEvent::Text(t) if t == "t "));
    assert!(matches!(&events[2], MdEvent::LinkStart { dest_url, .. } if dest_url == "d.md"));
    assert!(matches!(&events[3], MdEvent::Text(t) if t == "l"));
    assert!(matches!(&events[4], MdEvent::Other(_)));
    assert!(matches!(&events[5], MdEvent::HeadingEnd { level: 2 }));
    assert_eq!(events.len(), 6);
}

#[test]
fn page_has_title_body_and_toc() {
    assert_eq!(
        render_page("# Top\n\n## Sub\n"),
        Some(Page {
            title: Some("Top".to_string()),
            body: "<h1 id=\"top\">Top</h1>\n<h2 id=\"sub\">Sub</h2>\n".to_string(),
            toc: vec![
                TocEntry { level: 1, id: Some("top".to_string()), title: "Top".to_string() },
                TocEntry { level: 2, id: Some("sub".to_string()), title: "Sub".to_string() },
            ],
        })
    );
}

#[test]
fn page_without_top_heading_has_no_title() {
    let page = render_page("## Sub\n\n# Late\n").unwrap();
    assert_eq!(page.title, None);
    assert_eq!(page.toc.len(), 2);
    assert_eq!(render_page("text").unwrap().title, None);
}

#[test]
fn a_list_hands_out_its_events_in_order() {
    let events = || {
        vec![
            MdEvent::Text("a".to_string()),
            MdEvent::HeadingEnd { level: 6 },
            MdEvent::Text("b".to_string()),
        ]
    };
    let mut list = EventList::new(events());
    assert_eq!(list.next(), Some(MdEvent::Text("a".to_string())));
    assert_eq!(drain(&mut list), events().split_off(1));
    assert_eq!(list.next(), None);
    assert_eq!(drain(&mut EventList::new(Vec::new())), Vec::new());
}

#[test]
fn option_bits_are_those_of_the_parser() {
    use_bits(pulldown_cmark::Options::ENABLE_TABLES.bits(), 2);
    use_bits(pulldown_cmark::Options::ENABLE_FOOTNOTES.bits(), 4);
    use_bits(pulldown_cmark::Options::ENABLE_TASKLISTS.bits(), 16);
    use_bits(pulldown_cmark::Options::ENABLE_SMART_PUNCTUATION.bits(), 32);
    use_bits(pulldown_cmark::Options::ENABLE_HEADING_ATTRIBUTES.bits(), 64);
    use_bits(pulldown_cmark::Options::ENABLE_YAML_STYLE_METADATA_BLOCKS.bits(), 128);
}

fn use_bits(found: u32, stated: u32) {
    assert_eq!(found, stated);
}

#[test]
fn each_extension_switches_its_own_feature() {
    let only = |f: fn(&mut Extensions)| {
        let mut ext = Extensions::none();
        f(&mut ext);
        ext
    };
    let tables = "| x |\n|---|\n| 1 |\n";
    assert!(to_html(parse(tables, only(|e| e.tables = true))).starts_with("<table>"));
    assert!(!to_html(parse(tables, only(|e| e.footnotes = true))).starts_with("<table>"));
    let tasks = "- [x] done\n";
    assert!(to_html(parse(tasks, only(|e| e.tasklists = true))).contains("checkbox"));
    assert!(!to_html(parse(tasks, only(|e| e.tables = true))).contains("checkbox"));
    let note = "a[^1]\n\n[^1]: b\n";
    assert!(to_html(parse(note, only(|e| e.footnotes = true))).contains("footnote"));
    assert!(!to_html(parse(note, only(|e| e.tasklists = true))).contains("footnote"));
    let meta = "---\nk: v\n---\n\ntext\n";
    assert_eq!(to_html(parse(meta, only(|e| e.yaml_metadata = true))), "<p>text</p>\n");
    assert!(to_html(parse("a -- b", only(|e| e.smart_punctuation = true))).contains('\u{2013}'));
    assert!(to_html(parse("# h {#x}", only(|e| e.heading_attributes = true))).contains("id=\"x\""));
}
