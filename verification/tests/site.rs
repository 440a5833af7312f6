use notes::serve::{content_type, open_failed, plan_reply, render_failed, Reply};
use notes::site::{
    directory_placeholder, resolve, BuildStep, Candidates, Context, EntryKind, Found, Resource,
};

fn found(verbatim_is_file: bool, verbatim_is_dir: bool, note_is_file: bool) -> Found {
    Found { verbatim_is_file, verbatim_is_dir, note_is_file }
}

fn page() -> Candidates {
    Candidates { verbatim: "src/foo.html".to_string(), note: Some("src/foo.md".to_string()) }
}

#[test]
fn page_resolves_to_its_note() {
    assert_eq!(
        resolve(page(), found(false, false, true)),
        Some(Resource::Note("src/foo.md".to_string()))
    );
}

#[test]
fn verbatim_file_wins_over_note() {
    assert_eq!(
        resolve(page(), found(true, false, true)),
        Some(Resource::Static("src/foo.html".to_string()))
    );
    assert_eq!(
        resolve(page(), found(true, true, false)),
        Some(Resource::Static("src/foo.html".to_string()))
    );
}

#[test]
fn directory_wins_over_note() {
    assert_eq!(
        resolve(page(), found(false, true, true)),
        Some(Resource::Directory("src/foo.html".to_string()))
    );
}

#[test]
fn nothing_found_resolves_to_nothing() {
    assert_eq!(resolve(page(), found(false, false, false)), None);
    let plain = Candidates { verbatim: "src/a.txt".to_string(), note: None };
    assert_eq!(resolve(plain, found(false, false, true)), None);
}

#[test]
fn candidates_of_a_page() {
    let ctx = Context::new("src", "out");
    assert_eq!(
        ctx.candidates("/dir/foo.html"),
        Some(Candidates {
            verbatim: "src/dir/foo.html".to_string(),
            note: Some("src/dir/foo.md".to_string()),
        })
    );
}

#[test]
fn candidates_of_another_file() {
    let ctx = Context::new("src", "out");
    assert_eq!(
        ctx.candidates("style.css"),
        Some(Candidates { verbatim: "src/style.css".to_string(), note: None })
    );
    assert_eq!(
        ctx.candidates("dir"),
        Some(Candidates { verbatim: "src/dir".to_string(), note: None })
    );
}

#[test]
fn candidates_of_an_unsafe_path() {
    let ctx = Context::new("src", "out");
    assert_eq!(ctx.candidates("../secret.html"), None);
    assert_eq!(ctx.candidates("_private/a.html"), None);
    assert_eq!(ctx.candidates(".hidden.html"), None);
}

#[test]
fn mirrored_paths() {
    let ctx = Context::new("src", "out");
    assert_eq!(ctx.mirrored_path("src/a/b.txt"), Some("out/a/b.txt".to_string()));
    assert_eq!(ctx.mirrored_path("src"), Some("out/".to_string()));
    assert_eq!(ctx.mirrored_path("elsewhere/b.txt"), None);
    assert_eq!(ctx.mirrored_path("srcs/b.txt"), None);
}

#[test]
fn note_destinations() {
    let ctx = Context::new("src", "out");
    assert_eq!(ctx.note_dest("src/a/b.md"), Some("out/a/b.html".to_string()));
    assert_eq!(ctx.note_dest("src/a/b.txt"), None);
    assert_eq!(ctx.note_dest("src/a/md"), None);
    assert_eq!(ctx.note_dest("other/b.md"), None);
}

#[test]
fn build_steps() {
    let ctx = Context::new("src", "out");
    assert_eq!(
        ctx.plan_entry("src/dir", EntryKind::Directory),
        Some(BuildStep::MakeDir("out/dir".to_string()))
    );
    assert_eq!(
        ctx.plan_entry("src/dir/a.md", EntryKind::File),
        Some(BuildStep::RenderNote {
            src: "src/dir/a.md".to_string(),
            dest: "out/dir/a.html".to_string(),
        })
    );
    assert_eq!(
        ctx.plan_entry("src/dir/a.png", EntryKind::File),
        Some(BuildStep::LinkOrCopy {
            src: "src/dir/a.png".to_string(),
            dest: "out/dir/a.png".to_string(),
        })
    );
    assert_eq!(ctx.plan_entry("src/dir/sock", EntryKind::Other), Some(BuildStep::Skip));
    assert_eq!(ctx.plan_entry("other/a.md", EntryKind::File), None);
}

#[test]
fn private_subtrees_are_skipped() {
    let ctx = Context::new("src", "out");
    assert_eq!(ctx.plan_entry("src/_drafts", EntryKind::Directory), Some(BuildStep::Skip));
    assert_eq!(ctx.plan_entry("src/_drafts/a.md", EntryKind::File), Some(BuildStep::Skip));
    assert_eq!(ctx.plan_entry("src/.git/objects/ab", EntryKind::File), Some(BuildStep::Skip));
    assert_eq!(ctx.plan_entry("src/dir/.hidden.png", EntryKind::File), Some(BuildStep::Skip));
}

#[test]
fn the_root_itself_is_built() {
    let ctx = Context::new("_src", "out");
    assert_eq!(
        ctx.plan_entry("_src", EntryKind::Directory),
        Some(BuildStep::MakeDir("out/".to_string()))
    );
    assert_eq!(
        ctx.plan_entry("_src/a.md", EntryKind::File),
        Some(BuildStep::RenderNote { src: "_src/a.md".to_string(), dest: "out/a.html".to_string() })
    );
    let here = Context::new(".", "_public");
    assert_eq!(
        here.plan_entry("./a.md", EntryKind::File),
        Some(BuildStep::RenderNote { src: "./a.md".to_string(), dest: "_public/a.html".to_string() })
    );
    assert_eq!(here.plan_entry("./_public/a.html", EntryKind::File), Some(BuildStep::Skip));
}

#[test]
fn replies() {
    assert_eq!(
        plan_reply(Some(Resource::Note("src/a.md".to_string()))),
        Reply::RenderNote("src/a.md".to_string())
    );
    assert_eq!(
        plan_reply(Some(Resource::Static("src/a.css".to_string()))),
        Reply::SendFile { path: "src/a.css".to_string(), content_type: "text/css" }
    );
    assert_eq!(
        plan_reply(Some(Resource::Directory("src/d".to_string()))),
        Reply::Fail { status: 501, message: "directory listings not implemented".to_string() }
    );
    assert_eq!(
        plan_reply(None),
        Reply::Fail { status: 404, message: "not found".to_string() }
    );
}

#[test]
fn failures() {
    assert_eq!(
        render_failed("boom"),
        Reply::Fail { status: 500, message: "note rendering failed: boom".to_string() }
    );
    assert_eq!(
        open_failed("gone"),
        Reply::Fail { status: 404, message: "not found: gone".to_string() }
    );
}

#[test]
fn media_types() {
    assert_eq!(content_type("a/b.html"), "text/html");
    assert_eq!(content_type("a/b.PNG"), "image/png");
    assert_eq!(content_type("a/b"), "octet-stream");
    assert_eq!(content_type("a/b.no-such-extension"), "octet-stream");
}

#[test]
fn requests_resolve_under_the_root() {
    let ctx = Context::new("src", "out");
    assert_eq!(
        ctx.resolve_resource("foo.html", found(false, false, true)),
        Some(Resource::Note("src/foo.md".to_string()))
    );
    assert_eq!(
        ctx.resolve_resource("foo.html", found(true, false, true)),
        Some(Resource::Static("src/foo.html".to_string()))
    );
    assert_eq!(
        ctx.resolve_resource("/dir", found(false, true, false)),
        Some(Resource::Directory("src/dir".to_string()))
    );
    assert_eq!(ctx.resolve_resource("foo.txt", found(false, false, true)), None);
    assert_eq!(ctx.resolve_resource("foo.html", found(false, false, false)), None);
}

#[test]
fn unsafe_requests_resolve_to_nothing() {
    let ctx = Context::new("src", "out");
    assert_eq!(ctx.resolve_resource("../foo.html", found(true, true, true)), None);
    assert_eq!(ctx.resolve_resource("_x/foo.html", found(true, true, true)), None);
}

#[test]
fn directories_get_a_placeholder() {
    assert_eq!(directory_placeholder("src/dir"), "directory: src/dir\n");
}
