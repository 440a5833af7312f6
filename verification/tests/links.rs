use notes::markdown::event::{drain, parse, to_html, EventList, Extensions, MdEvent};
use notes::markdown::rel_links::{is_absolute_url, rewrite_url, RewriteRelativeLinks};

#[test]
fn filename_is_relative() {
    assert!(!is_absolute_url("foo.html"));
}

#[test]
fn full_url_is_absolute() {
    assert!(is_absolute_url("http://foo.org/bar"));
}

#[test]
fn empty_protocol_is_absolute() {
    assert!(is_absolute_url("//foo.org/bar"));
}

#[test]
fn absolute_path_is_relative() {
    assert!(!is_absolute_url("/foo/bar"));
}

#[test]
fn dot_is_relative() {
    assert!(!is_absolute_url("./bar"));
}

#[test]
fn dotdot_is_relative() {
    assert!(!is_absolute_url("../bar"));
}

#[test]
fn later_double_slash_is_relative() {
    assert!(!is_absolute_url("foo/bar//baz"));
}

#[test]
fn colon_after_slash_is_relative() {
    assert!(!is_absolute_url("foo/bar:baz"));
    assert!(!is_absolute_url("/a:b"));
}

#[test]
fn colon_without_slash_is_absolute() {
    assert!(is_absolute_url("mailto:me"));
    assert!(is_absolute_url("mailto:a@b.md"));
    assert!(is_absolute_url("a:"));
    assert!(is_absolute_url(":"));
    assert!(!is_absolute_url(""));
    assert!(!is_absolute_url("a"));
}

#[test]
fn colon_before_first_slash_is_absolute() {
    assert!(is_absolute_url("a:b/c"));
    assert!(is_absolute_url("a:/b:c"));
    assert!(is_absolute_url(":/"));
}

#[test]
fn double_slash_counts_at_the_start_only() {
    assert!(is_absolute_url("//"));
    assert!(is_absolute_url("//a"));
    assert!(is_absolute_url("///"));
    assert!(!is_absolute_url("/"));
    assert!(!is_absolute_url("foo//bar"));
    assert!(!is_absolute_url("a//b"));
    assert!(!is_absolute_url("/a//b"));
}

#[test]
fn md_extension_becomes_html() {
    assert_eq!(rewrite_url("bar.md".to_string()), "bar.html");
    assert_eq!(rewrite_url("./a/b.c.md".to_string()), "./a/b.c.html");
    assert_eq!(rewrite_url(".md".to_string()), ".html");
}

#[test]
fn other_extensions_stay() {
    assert_eq!(rewrite_url("bar.png".to_string()), "bar.png");
    assert_eq!(rewrite_url("bar.md#top".to_string()), "bar.md#top");
    assert_eq!(rewrite_url("bar.MD".to_string()), "bar.MD");
    assert_eq!(rewrite_url("barmd".to_string()), "barmd");
    assert_eq!(rewrite_url("md".to_string()), "md");
    assert_eq!(rewrite_url(String::new()), "");
}

fn render_rewrite(source: &str) -> String {
    let events = parse(source, Extensions::none());
    let mut stage = RewriteRelativeLinks::new(EventList::new(events));
    to_html(drain(&mut stage))
}

#[test]
fn absolute_md_link() {
    assert_eq!(
        render_rewrite("[hi](http://foo.com/bar.md)"),
        "<p><a href=\"http://foo.com/bar.md\">hi</a></p>\n"
    );
}

#[test]
fn relative_md_link() {
    assert_eq!(
        render_rewrite("[hi](bar.md)"),
        "<p><a href=\"bar.html\">hi</a></p>\n"
    );
}

#[test]
fn relative_other_link() {
    assert_eq!(
        render_rewrite("[hi](./bar.png)"),
        "<p><a href=\"./bar.png\">hi</a></p>\n"
    );
}

#[test]
fn relative_md_link_refstyle() {
    assert_eq!(
        render_rewrite("[hi][h]\n\n[h]: ./bar.md"),
        "<p><a href=\"./bar.html\">hi</a></p>\n"
    );
}

#[test]
fn reference_and_inline_links_rewrite_alike() {
    assert_eq!(render_rewrite("[hi][h]\n\n[h]: bar.md"), render_rewrite("[hi](bar.md)"));
}

#[test]
fn link_stage_touches_link_starts_only() {
    let events = vec![
        MdEvent::Text("a.md".to_string()),
        MdEvent::HeadingStart { level: 2, id: Some("b.md".to_string()), classes: vec![], attrs: vec![] },
        MdEvent::HeadingEnd { level: 2 },
    ];
    let mut stage = RewriteRelativeLinks::new(EventList::new(events));
    let out = drain(&mut stage);
    assert_eq!(out.len(), 3);
    assert!(matches!(&out[0], MdEvent::Text(t) if t == "a.md"));
    assert!(matches!(&out[1], MdEvent::HeadingStart { level: 2, id: Some(id), .. } if id == "b.md"));
    assert!(matches!(&out[2], MdEvent::HeadingEnd { level: 2 }));
}

#[test]
fn image_destinations_are_left_alone() {
    assert_eq!(
        render_rewrite("![alt](pic.md)"),
        "<p><img src=\"pic.md\" alt=\"alt\" /></p>\n"
    );
}

#[test]
fn links_with_a_scheme_and_no_slash_are_left_alone() {
    assert_eq!(
        render_rewrite("[hi](mailto:a@b.md)"),
        "<p><a href=\"mailto:a@b.md\">hi</a></p>\n"
    );
    assert_eq!(render_rewrite("[hi](a:.md)"), "<p><a href=\"a:.md\">hi</a></p>\n");
}

#[test]
fn links_with_a_later_double_slash_are_rewritten() {
    assert_eq!(render_rewrite("[hi](a//b.md)"), "<p><a href=\"a//b.html\">hi</a></p>\n");
}

#[test]
fn protocol_relative_links_are_left_alone() {
    assert_eq!(
        render_rewrite("[hi](//host/b.md)"),
        "<p><a href=\"//host/b.md\">hi</a></p>\n"
    );
}
