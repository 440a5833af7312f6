//! The stage that makes relative links to Markdown files point at the HTML
//! pages made from them.

use crate::markdown::event::{level_ok, levels_ok, EventModel, EventSource, MdEvent};
use crate::markdown::heading::{lemma_outline_heading_text, same_outline, text_piece};
use crate::markdown::toc::{toc_from, toc_of};
use crate::text::{
    chars_of, find_char, find_from, lemma_find_char, lemma_find_skips, string_of,
};
use vstd::prelude::*;

verus! {

/// A URL is absolute if it begins with `//` (an empty scheme, as in
/// `//host/x`), or if it has a colon with no slash before it (a scheme, as
/// in `http://host/x` or `mailto:me`). Every other URL is relative.
pub open spec fn absolute_url(url: Seq<char>) -> bool {
    let slash = find_char(url, '/', 0);
    let colon = find_char(url, ':', 0);
    (url.len() >= 2 && url[0] == '/' && url[1] == '/') || (colon < url.len() && colon < slash)
}

/// Check whether a URL is absolute, i.e., starts with a protocol.
pub fn is_absolute_url(url: &str) -> (absolute: bool)
    ensures
        absolute == absolute_url(url@),
{
    let chars = chars_of(url);
    let n = chars.len();
    let colon = find_from(&chars, ':', 0);
    let slash = find_from(&chars, '/', 0);
    (n >= 2 && chars[0] == '/' && chars[1] == '/') || (colon < n && colon < slash)
}

/// Whether a URL ends in `.md`.
pub open spec fn ends_with_md(url: Seq<char>) -> bool {
    url.len() >= 3 && url[url.len() - 3] == '.' && url[url.len() - 2] == 'm' && url[url.len() - 1]
        == 'd'
}

/// The URL with a final `.md` replaced by `.html`; any other URL as it is.
pub open spec fn md_to_html(url: Seq<char>) -> Seq<char> {
    if ends_with_md(url) {
        url.subrange(0, url.len() - 2) + seq!['h', 't', 'm', 'l']
    } else {
        url
    }
}

/// Rewrite any `.md` extension to `.html`. If it doesn't have this extension,
/// return the path unchanged.
pub fn rewrite_url(url: String) -> (out: String)
    ensures
        out@ == md_to_html(url@),
{
    let chars = chars_of(url.as_str());
    let n = chars.len();
    if n >= 3 && chars[n - 3] == '.' && chars[n - 2] == 'm' && chars[n - 1] == 'd' {
        let mut out = string_of(&chars, 0, n - 2);
        out.push('h');
        out.push('t');
        out.push('m');
        out.push('l');
        proof {
            assert(out@ == url@.subrange(0, n - 2) + seq!['h', 't', 'm', 'l']);
        }
        out
    } else {
        url
    }
}

/// Where a link leads after rewriting: absolute URLs stay, relative ones
/// have a final `.md` replaced by `.html`.
pub open spec fn rewritten_dest(url: Seq<char>) -> Seq<char> {
    if absolute_url(url) {
        url
    } else {
        md_to_html(url)
    }
}

/// An event after rewriting: a link start with its destination rewritten,
/// any other event as it is.
pub open spec fn relinked_event(e: EventModel) -> EventModel {
    match e {
        EventModel::LinkStart { link_type, dest_url, title, label } => EventModel::LinkStart {
            link_type,
            dest_url: rewritten_dest(dest_url),
            title,
            label,
        },
        e => e,
    }
}

/// A stream with every link rewritten.
pub open spec fn relinked(s: Seq<EventModel>) -> Seq<EventModel> {
    s.map_values(|e: EventModel| relinked_event(e))
}

/// The stage keeps the number and the order of the events, passes on every
/// event that is not a link start as it is, and of a link start changes the
/// destination alone.
pub proof fn lemma_relinking_touches_destinations_only(s: Seq<EventModel>, k: int)
    requires
        0 <= k < s.len(),
    ensures
        relinked(s).len() == s.len(),
        !(s[k] is LinkStart) ==> relinked(s)[k] == s[k],
        s[k] matches EventModel::LinkStart { link_type, dest_url, title, label } ==> relinked(s)[k]
            == (EventModel::LinkStart {
            link_type,
            dest_url: rewritten_dest(dest_url),
            title,
            label,
        }),
{
}

/// Replacing a final `.md` by `.html` moves no slash and no colon: the
/// first `c`, one of the two, is where it was, or nowhere as before.
proof fn lemma_find_after_rewrite(url: Seq<char>, c: char)
    requires
        ends_with_md(url),
        c == '/' || c == ':',
    ensures
        find_char(url, c, 0) < url.len() ==> find_char(md_to_html(url), c, 0) == find_char(
            url,
            c,
            0,
        ) && find_char(url, c, 0) < url.len() - 3,
        find_char(url, c, 0) >= url.len() ==> find_char(md_to_html(url), c, 0) == md_to_html(
            url,
        ).len(),
{
    let v = md_to_html(url);
    let n = url.len() as int;
    let at = find_char(url, c, 0);
    lemma_find_char(url, c, 0);
    assert(v.len() == n + 2);
    assert forall|j: int| 0 <= j < n - 2 implies v[j] == url[j] by {}
    if at < n {
        assert(at < n - 3);
        lemma_find_skips(v, c, 0, at);
    } else {
        assert forall|j: int| 0 <= j < n + 2 implies v[j] != c by {
            if j < n - 2 {
                assert(v[j] == url[j]);
            }
        }
        lemma_find_skips(v, c, 0, n + 2);
    }
}

/// A destination that has been rewritten is left alone when rewritten again.
pub proof fn lemma_rewritten_dest_is_settled(url: Seq<char>)
    ensures
        rewritten_dest(rewritten_dest(url)) == rewritten_dest(url),
{
    if !absolute_url(url) && ends_with_md(url) {
        let v = md_to_html(url);
        let n = url.len() as int;
        lemma_find_after_rewrite(url, '/');
        lemma_find_after_rewrite(url, ':');
        lemma_find_char(url, '/', 0);
        lemma_find_char(url, ':', 0);
        assert(v.len() == n + 2);
        assert(v[v.len() - 1] == 'l');
        assert(!ends_with_md(v));
        assert(v[0] == url[0]);
        if n >= 4 {
            assert(v[1] == url[1]);
        }
        assert(!absolute_url(v));
    }
}

/// The stage changes the destinations of relative links only: an absolute
/// destination is left as it is, and so is any that does not end in `.md`.
pub proof fn lemma_only_relative_md_is_rewritten(url: Seq<char>)
    ensures
        absolute_url(url) ==> rewritten_dest(url) == url,
        !ends_with_md(url) ==> rewritten_dest(url) == url,
        !absolute_url(url) && ends_with_md(url) ==> rewritten_dest(url) == url.subrange(
            0,
            url.len() - 2,
        ) + seq!['h', 't', 'm', 'l'],
{
}

/// A URL with a colon and no slash is absolute, whatever else it holds.
pub proof fn lemma_colon_without_slash_is_absolute(url: Seq<char>)
    requires
        find_char(url, ':', 0) < url.len(),
        find_char(url, '/', 0) >= url.len(),
    ensures
        absolute_url(url),
{
}

/// A URL that has neither a colon nor `//` at its start is relative.
pub proof fn lemma_plain_path_is_relative(url: Seq<char>)
    requires
        find_char(url, ':', 0) >= url.len(),
        !(url.len() >= 2 && url[0] == '/' && url[1] == '/'),
    ensures
        !absolute_url(url),
{
}

/// Rewriting the links of a stream a second time changes nothing.
pub proof fn lemma_relinking_is_idempotent(s: Seq<EventModel>)
    ensures
        relinked(relinked(s)) == relinked(s),
{
    assert forall|i: int| 0 <= i < s.len() implies relinked(relinked(s))[i] == relinked(s)[i] by {
        match s[i] {
            EventModel::LinkStart { dest_url, .. } => {
                lemma_rewritten_dest_is_settled(dest_url);
            },
            _ => {},
        }
    }
}

/// Rewriting links leaves heading depths alone.
pub proof fn lemma_relinked_levels(s: Seq<EventModel>)
    requires
        levels_ok(s),
    ensures
        levels_ok(relinked(s)),
{
    assert forall|i: int| 0 <= i < relinked(s).len() implies level_ok(
        #[trigger] relinked(s)[i],
    ) by {
        assert(level_ok(s[i]));
    }
}

/// Rewriting links changes neither where headings end nor any text.
pub proof fn lemma_relinked_outline(s: Seq<EventModel>)
    ensures
        same_outline(relinked(s), s),
{
    assert forall|i: int| 0 <= i < s.len() implies (#[trigger] relinked(s)[i] is HeadingEnd) == (
    s[i] is HeadingEnd) && text_piece(relinked(s)[i]) == text_piece(s[i]) by {
        let _ = s[i];
    }
}

proof fn lemma_relinked_toc_from(s: Seq<EventModel>, i: int)
    requires
        0 <= i,
    ensures
        toc_from(relinked(s), i) == toc_from(s, i),
    decreases s.len() - i,
{
    if i < s.len() {
        lemma_relinked_toc_from(s, i + 1);
        lemma_relinked_outline(s);
        lemma_outline_heading_text(relinked(s), s, i + 1);
    }
}

/// Rewriting links does not change the table of contents.
pub proof fn lemma_toc_ignores_links(s: Seq<EventModel>)
    ensures
        toc_of(relinked(s)) == toc_of(s),
{
    lemma_relinked_toc_from(s, 0);
}

/// A stage that rewrites relative Markdown links to be HTML links. So a link
/// to `./foo.md` becomes a link to `./foo.html` when rendered, but all
/// absolute links are left unchanged.
pub struct RewriteRelativeLinks<I: EventSource> {
    iter: I,
}

impl<I: EventSource> RewriteRelativeLinks<I> {
    /// Wraps `iter`.
    pub fn new(iter: I) -> (stage: Self)
        requires
            iter.inv(),
        ensures
            stage.inv(),
            stage.stream() == relinked(iter.stream()),
            stage.position() == iter.position(),
    {
        Self { iter }
    }

    /// Gives back the stage that this one wraps, as far along as this one.
    pub fn into_inner(self) -> (iter: I)
        requires
            self.inv(),
        ensures
            iter.inv(),
            self.stream() == relinked(iter.stream()),
            self.position() == iter.position(),
    {
        self.iter
    }
}

impl<I: EventSource> EventSource for RewriteRelativeLinks<I> {
    closed spec fn inv(&self) -> bool {
        self.iter.inv()
    }

    closed spec fn stream(&self) -> Seq<EventModel> {
        relinked(self.iter.stream())
    }

    closed spec fn position(&self) -> nat {
        self.iter.position()
    }

    proof fn lemma_in_bounds(&self) {
        self.iter.lemma_in_bounds();
    }

    fn next(&mut self) -> (event: Option<MdEvent>) {
        match self.iter.next() {
            None => None,
            Some(MdEvent::LinkStart { link_type, dest_url, title, label }) => {
                let url = if is_absolute_url(dest_url.as_str()) {
                    dest_url
                } else {
                    rewrite_url(dest_url)
                };
                Some(MdEvent::LinkStart { link_type, dest_url: url, title, label })
            },
            Some(e) => Some(e),
        }
    }
}

} // verus!
