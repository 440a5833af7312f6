use notes::assets::{Assets, ContentList, NameList};
use notes::git::{log_arguments, split_fields, CommitData, CommitInfo};

fn embedded() -> Assets<ContentList> {
    Assets::<ContentList>::new(
        "templates",
        ContentList(&[("note.html", "<html>"), ("style.css", "body {}"), ("note.html", "again")]),
    )
}

fn on_disk() -> Assets<NameList> {
    Assets::<NameList>::new("templates", NameList(&["note.html", "style.css"]))
}

#[test]
fn embedded_assets_are_found_by_name() {
    let assets = embedded();
    assert!(assets.contains("note.html"));
    assert!(assets.contains("style.css"));
    assert!(!assets.contains("other.html"));
    assert_eq!(assets.get("style.css"), Some("body {}"));
    assert_eq!(assets.get("note.html"), Some("<html>"));
    assert_eq!(assets.get("other.html"), None);
}

#[test]
fn embedded_assets_list_their_contents() {
    assert_eq!(
        embedded().contents(),
        vec![("note.html", "<html>"), ("style.css", "body {}"), ("note.html", "again")]
    );
}

#[test]
fn assets_on_disk_have_no_contents() {
    let assets = on_disk();
    assert!(assets.contains("note.html"));
    assert!(!assets.contains("other.html"));
    assert_eq!(assets.get("note.html"), None);
    assert!(assets.contents().is_empty());
}

#[test]
fn assets_are_read_from_their_directory() {
    let assets = on_disk();
    assert_eq!(assets.dir, "templates");
    assert_eq!(assets.read_path("note.html"), Some("templates/note.html".to_string()));
    assert_eq!(assets.read_path("other.html"), None);
    assert_eq!(
        assets.read_all(),
        vec![
            ("note.html", "templates/note.html".to_string()),
            ("style.css", "templates/style.css".to_string()),
        ]
    );
}

fn info(hash: &str, date: &str, email: &str, name: &str) -> CommitInfo {
    CommitInfo {
        hash: hash.to_string(),
        date: date.to_string(),
        email: email.to_string(),
        name: name.to_string(),
    }
}

#[test]
fn commit_line_is_cut_into_four() {
    let data = CommitData(b"abc123 2024-05-06 me@example.org Some One\n".to_vec());
    assert_eq!(data.info(), Some(info("abc123", "2024-05-06", "me@example.org", "Some One")));
}

#[test]
fn commit_name_keeps_its_spaces() {
    let data = CommitData(b"h d e A  B C \n".to_vec());
    assert_eq!(data.info(), Some(info("h", "d", "e", "A  B C ")));
}

#[test]
fn commit_fields_may_be_empty() {
    let data = CommitData(b"   \n".to_vec());
    assert_eq!(data.info(), Some(info("", "", "", "")));
}

#[test]
fn commit_line_needs_its_newline() {
    assert_eq!(CommitData(b"h d e n".to_vec()).info(), None);
    assert_eq!(CommitData(Vec::new()).info(), None);
}

#[test]
fn commit_line_needs_four_fields() {
    assert_eq!(CommitData(b"h d e\n".to_vec()).info(), None);
    assert_eq!(CommitData(b"\n".to_vec()).info(), None);
}

#[test]
fn commit_line_needs_utf8() {
    assert_eq!(CommitData(vec![0xff, b' ', b' ', b' ', b'\n']).info(), None);
}

#[test]
fn commit_line_may_hold_any_text() {
    let data = CommitData("h d e J\u{fc}rgen\n".as_bytes().to_vec());
    assert_eq!(data.info(), Some(info("h", "d", "e", "J\u{fc}rgen")));
}

#[test]
fn fields_of_a_line() {
    let line: Vec<char> = "a b c d e".chars().collect();
    assert_eq!(split_fields(&line), Some(info("a", "b", "c", "d e")));
    let line: Vec<char> = "a b".chars().collect();
    assert_eq!(split_fields(&line), None);
}

#[test]
fn git_is_asked_for_the_line_that_is_parsed() {
    assert_eq!(
        log_arguments("notes/a.md"),
        vec!["log", "-1", "--format=%H %cs %ce %cn", "--", "notes/a.md"]
    );
}
