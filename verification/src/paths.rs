//! Paths as the site sees them: which names are private, which requested
//! paths are safe to look up under a root, and which changed paths matter.
//!
//! The standard library takes paths apart and puts them together; what it
//! returns is named here, for the platform the crate is built for, and the
//! rules of the site are stated over those names.

use crate::text::chars_of;
use std::path::{Component, Path, PathBuf};
use vstd::prelude::*;
use vstd::string::StringExecFns;

verus! {

/// A name is private, and skipped wherever the site looks, if it starts with
/// a dot without being `.` itself, or starts with an underscore.
pub open spec fn ignored_name(name: Seq<char>) -> bool {
    name.len() > 0 && ((name[0] == '.' && name.len() != 1) || name[0] == '_')
}

/// Should we skip a given file from the rendering process? We skip hidden
/// files (prefixed with .) and ones starting with _, which are special.
pub fn ignore_filename(name: &str) -> (ignored: bool)
    ensures
        ignored == ignored_name(name@),
{
    let chars = chars_of(name);
    chars.len() > 0 && ((chars[0] == '.' && chars.len() != 1) || chars[0] == '_')
}

/// One component of a path.
#[derive(Debug, PartialEq, Eq)]
pub enum Segment {
    /// A volume or drive prefix, such as `C:`.
    Prefix,
    /// The root marker at the front of an absolute path.
    RootDir,
    /// A reference to the current directory, `.`.
    CurDir,
    /// A reference to the parent directory, `..`.
    ParentDir,
    /// The name of a file or directory.
    Normal(String),
}

/// The mathematical value of a [`Segment`].
pub enum SegmentModel {
    Prefix,
    RootDir,
    CurDir,
    ParentDir,
    Normal(Seq<char>),
}

impl View for Segment {
    type V = SegmentModel;

    open spec fn view(&self) -> SegmentModel {
        match *self {
            Segment::Prefix => SegmentModel::Prefix,
            Segment::RootDir => SegmentModel::RootDir,
            Segment::CurDir => SegmentModel::CurDir,
            Segment::ParentDir => SegmentModel::ParentDir,
            Segment::Normal(name) => SegmentModel::Normal(name@),
        }
    }
}

/// The values of a list of segments.
pub open spec fn segment_models(segments: Seq<Segment>) -> Seq<SegmentModel> {
    segments.map_values(|s: Segment| s@)
}

/// The value of an optional string.
pub open spec fn opt_chars(s: Option<String>) -> Option<Seq<char>> {
    match s {
        Some(s) => Some(s@),
        None => None,
    }
}

/// The components of `path`, as `Path::components` gives them.
pub uninterp spec fn path_segments(path: Seq<char>) -> Seq<SegmentModel>;

/// `path` relative to `base`, as `Path::strip_prefix` gives it; `None` where
/// `base` is not a prefix of `path`.
pub uninterp spec fn path_stripped(path: Seq<char>, base: Seq<char>) -> Option<Seq<char>>;

/// `rel` joined onto `base`, as `Path::join` gives it.
pub uninterp spec fn path_joined(base: Seq<char>, rel: Seq<char>) -> Seq<char>;

/// The extension of `path`, as `Path::extension` gives it.
pub uninterp spec fn path_extension(path: Seq<char>) -> Option<Seq<char>>;

/// `path` with its extension set to `ext`, as `PathBuf::set_extension`
/// leaves it.
pub uninterp spec fn path_with_extension(path: Seq<char>, ext: Seq<char>) -> Seq<char>;

/// Walks `Path::components` over `path` and hands out each component, a
/// normal one with its name. The contract names the resulting sequence.
#[verifier::external_body]
pub(crate) fn components(path: &str) -> (segments: Vec<Segment>)
    ensures
        segment_models(segments@) == path_segments(path@),
{
    Path::new(path).components().map(|c| match c {
        Component::Prefix(_) => Segment::Prefix,
        Component::RootDir => Segment::RootDir,
        Component::CurDir => Segment::CurDir,
        Component::ParentDir => Segment::ParentDir,
        Component::Normal(name) => Segment::Normal(name.to_string_lossy().into_owned()),
    }).collect()
}

/// Calls `Path::strip_prefix` on `path` with `base`. The contract names the
/// result: the rest of the path, or `None` where the call fails.
#[verifier::external_body]
pub(crate) fn strip_prefix(path: &str, base: &str) -> (rest: Option<String>)
    ensures
        opt_chars(rest) == path_stripped(path@, base@),
{
    Path::new(path).strip_prefix(base).ok().map(|p| p.to_string_lossy().into_owned())
}

/// Calls `Path::join` on `base` with `rel`. The contract names the result.
#[verifier::external_body]
pub(crate) fn join(base: &str, rel: &str) -> (joined: String)
    ensures
        joined@ == path_joined(base@, rel@),
{
    Path::new(base).join(rel).to_string_lossy().into_owned()
}

/// Calls `Path::extension` on `path`. The contract names the result.
#[verifier::external_body]
pub(crate) fn extension(path: &str) -> (ext: Option<String>)
    ensures
        opt_chars(ext) == path_extension(path@),
{
    Path::new(path).extension().map(|e| e.to_string_lossy().into_owned())
}

/// Calls `PathBuf::set_extension` on a copy of `path`. The extension may
/// hold no path separator: the call panics on one. The contract names the
/// path that the call leaves.
#[verifier::external_body]
pub(crate) fn with_extension(path: &str, ext: &str) -> (out: String)
    requires
        forall|i: int| 0 <= i < ext@.len() ==> ext@[i] != '/' && ext@[i] != '\\',
    ensures
        out@ == path_with_extension(path@, ext@),
{
    let mut buf = PathBuf::from(path);
    buf.set_extension(ext);
    buf.to_string_lossy().into_owned()
}

/// Whether a component bars a requested path: a parent-directory reference,
/// a prefix, or a private name.
pub open spec fn barred(segment: SegmentModel) -> bool {
    match segment {
        SegmentModel::ParentDir => true,
        SegmentModel::Prefix => true,
        SegmentModel::Normal(name) => ignored_name(name),
        _ => false,
    }
}

/// Whether any of the components bars the path.
pub open spec fn any_barred(segments: Seq<SegmentModel>) -> bool {
    exists|i: int| 0 <= i < segments.len() && barred(#[trigger] segments[i])
}

/// The names of the normal components, in order.
pub open spec fn names_of(segments: Seq<SegmentModel>) -> Seq<Seq<char>>
    decreases segments.len(),
{
    if segments.len() == 0 {
        Seq::empty()
    } else {
        match segments.last() {
            SegmentModel::Normal(name) => names_of(segments.drop_last()).push(name),
            _ => names_of(segments.drop_last()),
        }
    }
}

/// The names joined by single slashes.
pub open spec fn slash_joined(names: Seq<Seq<char>>) -> Seq<char>
    decreases names.len(),
{
    if names.len() == 0 {
        Seq::empty()
    } else if names.len() == 1 {
        names[0]
    } else {
        slash_joined(names.drop_last()) + seq!['/'] + names.last()
    }
}

/// The safe relative path that a list of components stands for: none if a
/// component bars it; else the names of the normal components joined by
/// slashes, root marker and `.` components dropped.
pub open spec fn sanitized(segments: Seq<SegmentModel>) -> Option<Seq<char>> {
    if any_barred(segments) {
        None
    } else {
        Some(slash_joined(names_of(segments)))
    }
}

/// A sanitized path is made of names that are not private, and of nothing
/// else: where a path is accepted, no component is a parent-directory
/// reference or a prefix, and no name among them is ignored.
pub proof fn lemma_sanitized_is_safe(segments: Seq<SegmentModel>, i: int)
    requires
        sanitized(segments) is Some,
        0 <= i < segments.len(),
    ensures
        !(segments[i] is ParentDir),
        !(segments[i] is Prefix),
        segments[i] matches SegmentModel::Normal(name) ==> !ignored_name(name),
        sanitized(segments) == Some(slash_joined(names_of(segments))),
{
    assert(!barred(segments[i]));
}

/// A name that holds no slash.
pub open spec fn plain_name(name: Seq<char>) -> bool {
    forall|i: int| 0 <= i < name.len() ==> name[i] != '/'
}

/// Names that hold no slash.
pub open spec fn plain_names(names: Seq<Seq<char>>) -> bool {
    forall|k: int| 0 <= k < names.len() ==> plain_name(#[trigger] names[k])
}

/// The pieces of a path between its slashes, in order; a path without a
/// slash is one piece.
pub open spec fn slash_pieces(path: Seq<char>) -> Seq<Seq<char>>
    decreases path.len(),
{
    if path.len() == 0 {
        seq![Seq::empty()]
    } else {
        let before = slash_pieces(path.drop_last());
        if path.last() == '/' {
            before.push(Seq::empty())
        } else {
            before.update(before.len() - 1, before.last().push(path.last()))
        }
    }
}

proof fn lemma_pieces_exist(path: Seq<char>)
    ensures
        slash_pieces(path).len() > 0,
    decreases path.len(),
{
    if path.len() > 0 {
        lemma_pieces_exist(path.drop_last());
    }
}

/// A name without a slash, put after a path, lengthens the last piece.
proof fn lemma_pieces_append(path: Seq<char>, name: Seq<char>)
    requires
        plain_name(name),
    ensures
        slash_pieces(path).len() > 0,
        slash_pieces(path + name) == slash_pieces(path).update(
            slash_pieces(path).len() - 1,
            slash_pieces(path).last() + name,
        ),
    decreases name.len(),
{
    let pieces = slash_pieces(path);
    let last = pieces.len() - 1;
    lemma_pieces_exist(path);
    if name.len() == 0 {
        assert(path + name == path);
        assert(pieces.last() + name == pieces.last());
        assert(pieces.update(last, pieces.last()) == pieces);
    } else {
        let shorter = name.drop_last();
        assert forall|i: int| 0 <= i < shorter.len() implies shorter[i] != '/' by {
            assert(shorter[i] == name[i]);
        }
        lemma_pieces_append(path, shorter);
        assert((path + name).drop_last() == path + shorter);
        assert((path + name).last() == name.last());
        assert(name.last() == name[name.len() - 1]);
        let grown = pieces.update(last, pieces.last() + shorter);
        assert(grown.last().push(name.last()) == pieces.last() + name);
        assert(grown.update(last, pieces.last() + name) == pieces.update(
            last,
            pieces.last() + name,
        ));
    }
}

/// Names without slashes, joined by slashes, are the pieces of what they
/// give.
pub proof fn lemma_pieces_of_joined(names: Seq<Seq<char>>)
    requires
        names.len() > 0,
        plain_names(names),
    ensures
        slash_pieces(slash_joined(names)) == names,
    decreases names.len(),
{
    let name = names.last();
    assert(plain_name(name));
    if names.len() == 1 {
        lemma_pieces_append(Seq::empty(), name);
        assert(Seq::<char>::empty() + name == name);
        assert(slash_pieces(Seq::<char>::empty()) == seq![Seq::<char>::empty()]);
        assert(seq![Seq::<char>::empty()].update(0, name) == names);
    } else {
        let front = names.drop_last();
        assert forall|k: int| 0 <= k < front.len() implies plain_name(#[trigger] front[k]) by {
            assert(front[k] == names[k]);
        }
        lemma_pieces_of_joined(front);
        let head = slash_joined(front) + seq!['/'];
        assert(head.drop_last() == slash_joined(front));
        assert(head.last() == '/');
        assert(slash_pieces(head) == front.push(Seq::<char>::empty()));
        lemma_pieces_append(head, name);
        assert(Seq::<char>::empty() + name == name);
        assert(front.push(Seq::<char>::empty()).update(front.len() as int, name) == names);
    }
}

/// Where no component bars the path, none of the names kept is private.
proof fn lemma_kept_names_are_public(segments: Seq<SegmentModel>, k: int)
    requires
        !any_barred(segments),
        0 <= k < names_of(segments).len(),
    ensures
        !ignored_name(names_of(segments)[k]),
    decreases segments.len(),
{
    if segments.len() > 0 {
        let front = segments.drop_last();
        assert forall|i: int| 0 <= i < front.len() implies !barred(#[trigger] front[i]) by {
            assert(front[i] == segments[i]);
            assert(!barred(segments[i]));
        }
        assert(!barred(segments[segments.len() - 1]));
        if k < names_of(front).len() {
            lemma_kept_names_are_public(front, k);
        }
    }
}

/// What a sanitized path is made of, read off the path itself: where the
/// names of the components hold no slash, the pieces of the path between
/// its slashes are those names, and none of them is private; so none is
/// `..`, and none is hidden.
pub proof fn lemma_sanitized_path_is_safe(segments: Seq<SegmentModel>, k: int)
    requires
        sanitized(segments) is Some,
        names_of(segments).len() > 0,
        plain_names(names_of(segments)),
        0 <= k < names_of(segments).len(),
    ensures
        slash_pieces(sanitized(segments)->0) == names_of(segments),
        !ignored_name(slash_pieces(sanitized(segments)->0)[k]),
        slash_pieces(sanitized(segments)->0)[k] != seq!['.', '.'],
{
    lemma_pieces_of_joined(names_of(segments));
    lemma_kept_names_are_public(segments, k);
    assert(ignored_name(seq!['.', '.']));
}

/// Validates a list of path components and puts the surviving names
/// together as a relative path.
pub fn sanitize_segments(segments: &Vec<Segment>) -> (path: Option<String>)
    ensures
        opt_chars(path) == sanitized(segment_models(segments@)),
{
    let ghost all = segment_models(segments@);
    let mut out = String::new();
    let mut first = true;
    let mut i: usize = 0;
    while i < segments.len()
        invariant
            i <= segments@.len(),
            all == segment_models(segments@),
            forall|j: int| 0 <= j < i ==> !barred(#[trigger] all[j]),
            out@ == slash_joined(names_of(all.take(i as int))),
            first == (names_of(all.take(i as int)).len() == 0),
        decreases segments@.len() - i,
    {
        proof {
            assert(all.take(i + 1).drop_last() == all.take(i as int));
            assert(all.take(i + 1).last() == all[i as int]);
            assert(all[i as int] == segments@[i as int]@);
        }
        match &segments[i] {
            Segment::Normal(name) => {
                if ignore_filename(name.as_str()) {
                    assert(barred(all[i as int]));
                    return None;
                }
                let ghost names = names_of(all.take(i as int));
                if first {
                    first = false;
                } else {
                    out.push('/');
                }
                out.append(name.as_str());
                proof {
                    let grown = names.push(name@);
                    assert(grown.drop_last() == names);
                    if names.len() > 0 {
                        assert(out@ == slash_joined(names) + seq!['/'] + name@);
                    } else {
                        assert(out@ == name@);
                    }
                }
            },
            Segment::ParentDir => {
                // Disallow `..`.
                assert(barred(all[i as int]));
                return None;
            },
            Segment::Prefix => {
                // Disallow `C:`.
                assert(barred(all[i as int]));
                return None;
            },
            // Strip leading `/`.
            Segment::RootDir => {},
            // Ignore `.`.
            Segment::CurDir => {},
        }
        i += 1;
    }
    proof {
        assert(all.take(i as int) == all);
    }
    Some(out)
}

/// Validate and relative-ize a requested path. If we return a path, it is now
/// safe to join with a base directory without "escaping" that directory. May
/// return `None` for any disallowed path.
pub fn sanitize_path(path: &str) -> (safe: Option<String>)
    ensures
        opt_chars(safe) == sanitized(path_segments(path@)),
{
    let segments = components(path);
    sanitize_segments(&segments)
}

/// Whether a normal component among `segments` has a private name.
pub open spec fn any_ignored(segments: Seq<SegmentModel>) -> bool {
    exists|i: int|
        0 <= i < segments.len() && (#[trigger] segments[i] matches SegmentModel::Normal(name)
            && ignored_name(name))
}

/// Whether a list of components holds a private name, computed.
pub fn has_ignored_segment(segments: &Vec<Segment>) -> (found: bool)
    ensures
        found == any_ignored(segment_models(segments@)),
{
    let ghost all = segment_models(segments@);
    let mut i: usize = 0;
    while i < segments.len()
        invariant
            i <= segments@.len(),
            all == segment_models(segments@),
            forall|j: int|
                0 <= j < i ==> !(#[trigger] all[j] matches SegmentModel::Normal(name)
                    && ignored_name(name)),
        decreases segments@.len() - i,
    {
        assert(all[i as int] == segments@[i as int]@);
        if let Segment::Normal(name) = &segments[i] {
            if ignore_filename(name.as_str()) {
                return true;
            }
        }
        i += 1;
    }
    false
}

/// Whether a path is ignored, with respect to the bases from `from` on: it
/// is judged by the first base it lies under, where it is ignored if one of
/// its components below that base has a private name; a path under no base
/// is ignored.
pub open spec fn ignored_under(bases: Seq<Seq<char>>, path: Seq<char>, from: int) -> bool
    decreases bases.len() - from,
{
    if from < 0 || from >= bases.len() {
        true
    } else {
        match path_stripped(path, bases[from]) {
            Some(rest) => any_ignored(path_segments(rest)),
            None => ignored_under(bases, path, from + 1),
        }
    }
}

/// A path that lies under none of the bases is ignored.
pub proof fn lemma_outside_all_bases_is_ignored(bases: Seq<Seq<char>>, path: Seq<char>, from: int)
    requires
        0 <= from,
        forall|i: int| from <= i < bases.len() ==> path_stripped(path, #[trigger] bases[i]) is None,
    ensures
        ignored_under(bases, path, from),
    decreases bases.len() - from,
{
    if from < bases.len() {
        let _ = bases[from];
        lemma_outside_all_bases_is_ignored(bases, path, from + 1);
    }
}

/// The values of a list of strings.
pub open spec fn string_views(strings: Seq<String>) -> Seq<Seq<char>> {
    strings.map_values(|s: String| s@)
}

/// Check whether we should ignore a given path inside of base directories.
///
/// Anything outside `bases` is ignored. Inside of the base directories, any
/// file or directory with an ignored pattern is (recursively) ignored. All
/// paths must be provided in absolute form.
pub fn ignore_path(bases: &Vec<String>, path: &str) -> (ignored: bool)
    ensures
        ignored == ignored_under(string_views(bases@), path@, 0),
{
    let ghost all = string_views(bases@);
    let mut i: usize = 0;
    while i < bases.len()
        invariant
            i <= bases@.len(),
            all == string_views(bases@),
            ignored_under(all, path@, 0) == ignored_under(all, path@, i as int),
        decreases bases@.len() - i,
    {
        assert(all[i as int] == bases@[i as int]@);
        match strip_prefix(path, bases[i].as_str()) {
            Some(rest) => {
                let segments = components(rest.as_str());
                return has_ignored_segment(&segments);
            },
            None => {},
        }
        i += 1;
    }
    true
}

} // verus!
