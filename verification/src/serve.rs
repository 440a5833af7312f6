//! What the server answers to a request, decided from what the requested
//! path resolved to.

use crate::assets::opt_str;
use crate::site::{Resource, ResourceModel};
use vstd::prelude::*;
use vstd::string::StringExecFns;

verus! {

/// The status for a path that resolves to nothing, or to a file that cannot
/// be opened.
pub const NOT_FOUND: u16 = 404;

/// The status for a note that failed to render.
pub const INTERNAL_SERVER_ERROR: u16 = 500;

/// The status for a directory: listings are not made.
pub const NOT_IMPLEMENTED: u16 = 501;

/// What to do about a request.
#[derive(Debug, PartialEq, Eq)]
pub enum Reply {
    /// Render the note at this path and send the page.
    RenderNote(String),
    /// Send the file at `path`, under the media type `content_type`.
    SendFile { path: String, content_type: &'static str },
    /// Send nothing but a status and a message.
    Fail { status: u16, message: String },
}

/// The mathematical value of a [`Reply`].
pub enum ReplyModel {
    RenderNote(Seq<char>),
    SendFile { path: Seq<char>, content_type: Seq<char> },
    Fail { status: u16, message: Seq<char> },
}

impl View for Reply {
    type V = ReplyModel;

    open spec fn view(&self) -> ReplyModel {
        match *self {
            Reply::RenderNote(p) => ReplyModel::RenderNote(p@),
            Reply::SendFile { path, content_type } => ReplyModel::SendFile {
                path: path@,
                content_type: content_type@,
            },
            Reply::Fail { status, message } => ReplyModel::Fail { status, message: message@ },
        }
    }
}

/// The media type that `mime_guess` lists first for the extension of
/// `path`, if it lists any.
pub uninterp spec fn guessed_mime(path: Seq<char>) -> Option<Seq<char>>;

/// Calls `mime_guess::from_path` on `path`, which looks at the path's text
/// only, and takes `MimeGuess::first_raw` of the guess. The contract names
/// the result.
#[verifier::external_body]
fn first_guess(path: &str) -> (mime: Option<&'static str>)
    ensures
        opt_str(mime) == guessed_mime(path@),
{
    mime_guess::from_path(path).first_raw()
}

/// The text of the constant `mime::OCTET_STREAM`, which is `octet-stream`.
#[verifier::external_body]
fn octet_stream() -> (name: &'static str)
    ensures
        name@ == "octet-stream"@,
{
    mime_guess::mime::OCTET_STREAM.as_str()
}

/// The media type under which a file is sent: the first guess for its
/// extension, or `octet-stream` where there is none.
pub open spec fn media_type(path: Seq<char>) -> Seq<char> {
    match guessed_mime(path) {
        Some(mime) => mime,
        None => "octet-stream"@,
    }
}

/// The media type of a file, by its extension.
pub fn content_type(path: &str) -> (mime: &'static str)
    ensures
        mime@ == media_type(path@),
{
    match first_guess(path) {
        Some(mime) => mime,
        None => octet_stream(),
    }
}

/// The answer to a request that resolved to `resource`: a note is rendered,
/// a static file is sent with its media type, a directory is not
/// implemented, and nothing is not found.
pub open spec fn reply_for(resource: Option<ResourceModel>) -> ReplyModel {
    match resource {
        Some(ResourceModel::Note(path)) => ReplyModel::RenderNote(path),
        Some(ResourceModel::Static(path)) => ReplyModel::SendFile {
            path,
            content_type: media_type(path),
        },
        Some(ResourceModel::Directory(_)) => ReplyModel::Fail {
            status: NOT_IMPLEMENTED,
            message: "directory listings not implemented"@,
        },
        None => ReplyModel::Fail { status: NOT_FOUND, message: "not found"@ },
    }
}

/// The value of an optional resource.
pub open spec fn resource_view(r: Option<Resource>) -> Option<ResourceModel> {
    match r {
        Some(r) => Some(r@),
        None => None,
    }
}

/// Decides how to serve a resource from the site.
pub fn plan_reply(resource: Option<Resource>) -> (reply: Reply)
    ensures
        reply@ == reply_for(resource_view(resource)),
{
    match resource {
        Some(Resource::Note(path)) => Reply::RenderNote(path),
        Some(Resource::Static(path)) => {
            let content_type = content_type(path.as_str());
            Reply::SendFile { path, content_type }
        },
        Some(Resource::Directory(_)) => Reply::Fail {
            status: NOT_IMPLEMENTED,
            message: "directory listings not implemented".to_owned(),
        },
        None => Reply::Fail { status: NOT_FOUND, message: "not found".to_owned() },
    }
}

/// The answer where rendering a note failed with `error`.
pub fn render_failed(error: &str) -> (reply: Reply)
    ensures
        reply@ == (ReplyModel::Fail {
            status: INTERNAL_SERVER_ERROR,
            message: "note rendering failed: "@ + error@,
        }),
{
    let mut message = "note rendering failed: ".to_owned();
    message.append(error);
    Reply::Fail { status: INTERNAL_SERVER_ERROR, message }
}

/// The answer where a static file could not be opened, with `error`.
pub fn open_failed(error: &str) -> (reply: Reply)
    ensures
        reply@ == (ReplyModel::Fail { status: NOT_FOUND, message: "not found: "@ + error@ }),
{
    let mut message = "not found: ".to_owned();
    message.append(error);
    Reply::Fail { status: NOT_FOUND, message }
}

} // verus!
