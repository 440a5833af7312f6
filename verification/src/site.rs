//! The site as a tree of sources and its mirror of pages: what a requested
//! path resolves to, and what the build does with each entry of the tree.

use crate::paths::{
    any_ignored, components, extension, has_ignored_segment, join, opt_chars, path_extension,
    path_joined, path_segments, path_stripped, path_with_extension, sanitize_path, sanitized,
    strip_prefix, with_extension,
};
use crate::text::same_text;
use vstd::prelude::*;
use vstd::string::StringExecFns;

verus! {

/// What a path of the site stands for.
#[derive(Debug, PartialEq, Eq)]
pub enum Resource {
    /// A file that is served as it is.
    Static(String),
    /// A Markdown note, rendered to a page.
    Note(String),
    /// A directory.
    Directory(String),
}

/// The mathematical value of a [`Resource`].
pub enum ResourceModel {
    Static(Seq<char>),
    Note(Seq<char>),
    Directory(Seq<char>),
}

impl View for Resource {
    type V = ResourceModel;

    open spec fn view(&self) -> ResourceModel {
        match *self {
            Resource::Static(p) => ResourceModel::Static(p@),
            Resource::Note(p) => ResourceModel::Note(p@),
            Resource::Directory(p) => ResourceModel::Directory(p@),
        }
    }
}

/// The value of an optional resource.
pub open spec fn opt_resource(r: Option<Resource>) -> Option<ResourceModel> {
    match r {
        Some(r) => Some(r@),
        None => None,
    }
}

/// The places under the source root where a requested path may be found.
#[derive(Debug, PartialEq, Eq)]
pub struct Candidates {
    /// The requested path itself, under the source root.
    pub verbatim: String,
    /// For a request of an `.html` page, the note it would be made from.
    pub note: Option<String>,
}

/// What the file system holds at the places of a [`Candidates`].
#[derive(Debug, Clone, Copy, PartialEq, Eq)]
pub struct Found {
    pub verbatim_is_file: bool,
    pub verbatim_is_dir: bool,
    pub note_is_file: bool,
}

/// The resource that a request resolves to: the path itself where it is a
/// file, then where it is a directory; failing both, the note behind a
/// requested page, where that is a file; else nothing.
pub open spec fn resolution(
    verbatim: Seq<char>,
    note: Option<Seq<char>>,
    found: Found,
) -> Option<ResourceModel> {
    if found.verbatim_is_file {
        Some(ResourceModel::Static(verbatim))
    } else if found.verbatim_is_dir {
        Some(ResourceModel::Directory(verbatim))
    } else if note is Some && found.note_is_file {
        Some(ResourceModel::Note(note->0))
    } else {
        None
    }
}

/// Decides what a request resolves to, from what was found at its
/// candidate places.
pub fn resolve(candidates: Candidates, found: Found) -> (resource: Option<Resource>)
    ensures
        opt_resource(resource) == resolution(
            candidates.verbatim@,
            opt_chars(candidates.note),
            found,
        ),
{
    // If the path exists verbatim within the source directory, then this is
    // either a static file or a directory.
    if found.verbatim_is_file {
        return Some(Resource::Static(candidates.verbatim));
    } else if found.verbatim_is_dir {
        return Some(Resource::Directory(candidates.verbatim));
    }
    // If this is an HTML file with a corresponding note, then we'll render it.
    match candidates.note {
        Some(note) => {
            if found.note_is_file {
                Some(Resource::Note(note))
            } else {
                None
            }
        },
        // Not found.
        None => None,
    }
}

/// A file that exists verbatim wins over a note of the same name: whatever
/// else is found, the request resolves to the static file.
pub proof fn lemma_verbatim_file_wins(verbatim: Seq<char>, note: Option<Seq<char>>, found: Found)
    requires
        found.verbatim_is_file,
    ensures
        resolution(verbatim, note, found) == Some(ResourceModel::Static(verbatim)),
{
}

/// A requested page that does not exist verbatim resolves to its note, where
/// the note exists as a file.
pub proof fn lemma_page_falls_back_to_note(verbatim: Seq<char>, note: Seq<char>, found: Found)
    requires
        !found.verbatim_is_file,
        !found.verbatim_is_dir,
        found.note_is_file,
    ensures
        resolution(verbatim, Some(note), found) == Some(ResourceModel::Note(note)),
{
}

/// The kind of an entry met while walking the source tree.
#[derive(Debug, Clone, Copy, PartialEq, Eq)]
pub enum EntryKind {
    Directory,
    File,
    /// Neither of the two: a socket, a dangling link and the like.
    Other,
}

/// What the build does for one entry of the source tree.
#[derive(Debug, PartialEq, Eq)]
pub enum BuildStep {
    /// Create the mirrored directory.
    MakeDir(String),
    /// Render the note at `src` to the page at `dest`.
    RenderNote { src: String, dest: String },
    /// Hard-link or copy the file at `src` to `dest`.
    LinkOrCopy { src: String, dest: String },
    /// Nothing to do.
    Skip,
}

/// The mathematical value of a [`BuildStep`].
pub enum BuildStepModel {
    MakeDir(Seq<char>),
    RenderNote { src: Seq<char>, dest: Seq<char> },
    LinkOrCopy { src: Seq<char>, dest: Seq<char> },
    Skip,
}

impl View for BuildStep {
    type V = BuildStepModel;

    open spec fn view(&self) -> BuildStepModel {
        match *self {
            BuildStep::MakeDir(p) => BuildStepModel::MakeDir(p@),
            BuildStep::RenderNote { src, dest } => BuildStepModel::RenderNote {
                src: src@,
                dest: dest@,
            },
            BuildStep::LinkOrCopy { src, dest } => BuildStepModel::LinkOrCopy {
                src: src@,
                dest: dest@,
            },
            BuildStep::Skip => BuildStepModel::Skip,
        }
    }
}

/// The value of an optional build step.
pub open spec fn opt_step(s: Option<BuildStep>) -> Option<BuildStepModel> {
    match s {
        Some(s) => Some(s@),
        None => None,
    }
}

/// The place in the destination tree that mirrors `src` in the source tree;
/// none for a path outside the source tree.
pub open spec fn mirrored(src_dir: Seq<char>, dest_dir: Seq<char>, src: Seq<char>) -> Option<
    Seq<char>,
> {
    match path_stripped(src, src_dir) {
        Some(rel) => Some(path_joined(dest_dir, rel)),
        None => None,
    }
}

/// Whether `src` is a Markdown note, by its extension.
pub open spec fn is_note(src: Seq<char>) -> bool {
    path_extension(src) == Some("md"@)
}

/// The page that the note at `src` is rendered to; none if `src` is not a
/// note or lies outside the source tree.
pub open spec fn note_page(src_dir: Seq<char>, dest_dir: Seq<char>, src: Seq<char>) -> Option<
    Seq<char>,
> {
    if is_note(src) {
        match mirrored(src_dir, dest_dir, src) {
            Some(mirror) => Some(path_with_extension(mirror, "html"@)),
            None => None,
        }
    } else {
        None
    }
}

/// What the build does for the entry at `path`; none for a path outside the
/// source tree. An entry with a private name anywhere on its way down from
/// the source root is skipped, so that a private directory hides all that
/// is below it.
pub open spec fn planned(
    src_dir: Seq<char>,
    dest_dir: Seq<char>,
    path: Seq<char>,
    kind: EntryKind,
) -> Option<BuildStepModel> {
    match path_stripped(path, src_dir) {
        None => None,
        Some(rel) => Some(
            if any_ignored(path_segments(rel)) {
                BuildStepModel::Skip
            } else {
                let mirror = path_joined(dest_dir, rel);
                match kind {
                    EntryKind::Directory => BuildStepModel::MakeDir(mirror),
                    EntryKind::File => if is_note(path) {
                        BuildStepModel::RenderNote {
                            src: path,
                            dest: path_with_extension(mirror, "html"@),
                        }
                    } else {
                        BuildStepModel::LinkOrCopy { src: path, dest: mirror }
                    },
                    EntryKind::Other => BuildStepModel::Skip,
                }
            },
        ),
    }
}

/// Nothing is built for an entry below a private name, whatever its kind.
pub proof fn lemma_private_subtree_is_skipped(
    src_dir: Seq<char>,
    dest_dir: Seq<char>,
    path: Seq<char>,
    kind: EntryKind,
)
    requires
        path_stripped(path, src_dir) matches Some(rel) && any_ignored(path_segments(rel)),
    ensures
        planned(src_dir, dest_dir, path, kind) == Some(BuildStepModel::Skip),
{
}

/// Where a safe relative path is looked for under the source root.
pub open spec fn verbatim_place(src_dir: Seq<char>, rel: Seq<char>) -> Seq<char> {
    path_joined(src_dir, rel)
}

/// Where the note behind a requested page is looked for: at the place of
/// the page, with the extension `md` for `html`; none for a request of
/// anything but a page.
pub open spec fn note_place(src_dir: Seq<char>, rel: Seq<char>) -> Option<Seq<char>> {
    if path_extension(rel) == Some("html"@) {
        Some(path_with_extension(path_joined(src_dir, rel), "md"@))
    } else {
        None
    }
}

/// What a requested path resolves to under the source root `src_dir`, given
/// what is found at its candidate places: nothing for a path that is not
/// safe, else the [`resolution`] of its places.
pub open spec fn resolved(src_dir: Seq<char>, rel_path: Seq<char>, found: Found) -> Option<
    ResourceModel,
> {
    match sanitized(path_segments(rel_path)) {
        None => None,
        Some(rel) => resolution(verbatim_place(src_dir, rel), note_place(src_dir, rel), found),
    }
}

/// The placeholder that stands for a directory.
pub open spec fn directory_text(path: Seq<char>) -> Seq<char> {
    "directory: "@ + path + seq!['\n']
}

/// The placeholder that is written out for a directory: a line with its
/// path.
pub fn directory_placeholder(path: &str) -> (text: String)
    ensures
        text@ == directory_text(path@),
{
    let mut text = "directory: ".to_owned();
    text.append(path);
    text.push('\n');
    text
}

/// The source tree of a site and the tree its pages are built into.
#[derive(Debug, PartialEq, Eq)]
pub struct Context {
    pub src_dir: String,
    pub dest_dir: String,
}

impl Context {
    /// A site with its sources under `src_dir` and its pages under `dest_dir`.
    pub fn new(src_dir: &str, dest_dir: &str) -> (ctx: Context)
        ensures
            ctx.src_dir@ == src_dir@,
            ctx.dest_dir@ == dest_dir@,
    {
        Context { src_dir: src_dir.to_owned(), dest_dir: dest_dir.to_owned() }
    }

    /// Given a path that is within the source directory, produce a mirrored
    /// path that is at the same place within the destination directory; none
    /// for a path that is not within the source directory.
    pub fn mirrored_path(&self, src: &str) -> (mirror: Option<String>)
        ensures
            opt_chars(mirror) == mirrored(self.src_dir@, self.dest_dir@, src@),
    {
        match strip_prefix(src, self.src_dir.as_str()) {
            Some(rel) => Some(join(self.dest_dir.as_str(), rel.as_str())),
            None => None,
        }
    }

    /// If `src` is the path to a Markdown note file within the source
    /// directory, return its HTML destination path. Otherwise, return None.
    pub fn note_dest(&self, src: &str) -> (dest: Option<String>)
        ensures
            opt_chars(dest) == note_page(self.src_dir@, self.dest_dir@, src@),
    {
        if has_extension(src, "md") {
            match self.mirrored_path(src) {
                Some(mirror) => {
                    proof {
                        reveal_strlit("html");
                    }
                    Some(with_extension(mirror.as_str(), "html"))
                },
                None => None,
            }
        } else {
            None
        }
    }

    /// Decides what the build does for one entry of the walk over the source
    /// tree: mirror a directory, render a note, link or copy any other file.
    pub fn plan_entry(&self, path: &str, kind: EntryKind) -> (step: Option<BuildStep>)
        ensures
            opt_step(step) == planned(self.src_dir@, self.dest_dir@, path@, kind),
    {
        let rel = match strip_prefix(path, self.src_dir.as_str()) {
            Some(rel) => rel,
            None => {
                return None;
            },
        };
        let below = components(rel.as_str());
        if has_ignored_segment(&below) {
            return Some(BuildStep::Skip);
        }
        let mirror = join(self.dest_dir.as_str(), rel.as_str());
        match kind {
            // Create mirrored directories.
            EntryKind::Directory => Some(BuildStep::MakeDir(mirror)),
            // Is this a Markdown note? Render it. Otherwise, just copy it.
            EntryKind::File => match self.note_dest(path) {
                Some(dest) => Some(BuildStep::RenderNote { src: path.to_owned(), dest }),
                None => Some(BuildStep::LinkOrCopy { src: path.to_owned(), dest: mirror }),
            },
            EntryKind::Other => Some(BuildStep::Skip),
        }
    }

    /// Given a relative path to a rendered file (i.e., something that would
    /// go in the destination directory), and what the file system holds at
    /// its [`candidates`](Self::candidates), get the underlying resource
    /// for that path.
    pub fn resolve_resource(&self, rel_path: &str, found: Found) -> (resource: Option<Resource>)
        ensures
            opt_resource(resource) == resolved(self.src_dir@, rel_path@, found),
    {
        match self.candidates(rel_path) {
            Some(places) => resolve(places, found),
            None => None,
        }
    }

    /// Given a relative path to a rendered file (i.e., something that would
    /// go in the destination directory), get the places in the source
    /// directory where the underlying resource may be; none for a path that
    /// is not safe.
    pub fn candidates(&self, rel_path: &str) -> (places: Option<Candidates>)
        ensures
            match sanitized(path_segments(rel_path@)) {
                None => places is None,
                Some(rel) => {
                    &&& places matches Some(c)
                    &&& c.verbatim@ == verbatim_place(self.src_dir@, rel)
                    &&& opt_chars(c.note) == note_place(self.src_dir@, rel)
                },
            },
    {
        // Ensure that we actually have a safe, relative path fragment, and
        // then join it under the source directory.
        let rel = match sanitize_path(rel_path) {
            Some(rel) => rel,
            None => {
                return None;
            },
        };
        let verbatim = join(self.src_dir.as_str(), rel.as_str());
        let note = if has_extension(rel.as_str(), "html") {
            proof {
                reveal_strlit("md");
            }
            Some(with_extension(verbatim.as_str(), "md"))
        } else {
            None
        };
        Some(Candidates { verbatim, note })
    }
}

/// Whether the extension of `path` is exactly `ext`.
pub fn has_extension(path: &str, ext: &str) -> (has: bool)
    ensures
        has == (path_extension(path@) == Some(ext@)),
{
    match extension(path) {
        Some(found) => same_text(found.as_str(), ext),
        None => false,
    }
}

} // verus!
