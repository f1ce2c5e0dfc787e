//! Building a notification: attaching content, sniffing its MIME type from
//! the bytes themselves, and choosing among the possible attachment sources.

use vstd::prelude::*;
use vstd::string::StringExecFns;

use crate::pushover::{only_required_fields, Request};

verus! {

/// An attachment resolved to bytes, carrying the filename and the MIME type
/// that the provider is told about.
pub struct Attachment {
    pub filename: String,
    pub mime_type: String,
    pub content: Vec<u8>,
}

/// A notification request together with its optional attachment. At most one
/// attachment is ever carried.
pub struct Notification {
    pub request: Request,
    pub attachment: Option<Attachment>,
}

/// An error raised while assembling a notification, before anything is sent.
#[derive(Clone, Copy, Debug, PartialEq, Eq, Structural)]
pub enum BuildError {
    /// Both a local attachment path and a remote image URL were supplied.
    ConflictingSources,
    /// The MIME type of the attachment could not be detected from its bytes.
    UnknownMime,
}

/// The MIME type and the canonical filename extension that content sniffing
/// detects for the given bytes, if any. The result depends on the bytes
/// alone; no filename or declared type takes part.
pub uninterp spec fn sniffed_mime(bytes: Seq<u8>) -> Option<(Seq<char>, Seq<char>)>;

/// A short buffer opening with the PNG signature. The length bound keeps
/// the claim within what that signature alone decides: a longer buffer can
/// also carry another format's signature at a higher offset, and the
/// earlier of the two matchers would then win.
pub open spec fn png_signature(bytes: Seq<u8>) -> bool {
    &&& 4 <= bytes.len() <= 67
    &&& bytes[0] == 0x89
    &&& bytes[1] == 0x50
    &&& bytes[2] == 0x4e
    &&& bytes[3] == 0x47
}

/// Relies on infer::get: the first magic-byte matcher that accepts the
/// buffer decides the MIME type and extension, a function of the bytes
/// alone. Of the matchers tried before PNG, every one either pins a first
/// byte other than 0x89 or wants more than 67 bytes, so a short buffer
/// bearing the PNG signature is decided by that signature.
#[verifier::external_body]
fn sniff_mime(content: &Vec<u8>) -> (r: Option<(String, String)>)
    ensures
        match r {
            Some(m) => sniffed_mime(content@) == Some((m.0@, m.1@)),
            None => sniffed_mime(content@) is None,
        },
        match r {
            Some(m) => png_signature(content@) ==> (m.0@ == "image/png"@ && m.1@ == "png"@),
            None => !png_signature(content@),
        },
{
    match infer::get(content) {
        Some(t) => Some((t.mime_type().to_string(), t.extension().to_string())),
        None => None,
    }
}

/// What resolving an attachment from `content` yields: the filename, the
/// MIME type, and the bytes. The filename is the supplied path when one was
/// given, and `file.<extension>` of the sniffed type otherwise. `None` means
/// the MIME type was undetectable and resolution fails.
pub open spec fn spec_attachment(content: Seq<u8>, path: Option<Seq<char>>) -> Option<
    (Seq<char>, Seq<char>, Seq<u8>),
> {
    match sniffed_mime(content) {
        Some(m) => Some(
            (
                match path {
                    Some(p) => p,
                    None => "file."@ + m.1,
                },
                m.0,
                content,
            ),
        ),
        None => None,
    }
}

/// Resolves content bytes into an attachment. The MIME type is sniffed from
/// the bytes; a caller-supplied path only ever names the file.
pub fn attachment_from_content(content: Vec<u8>, path: Option<String>) -> (r: Result<
    Attachment,
    BuildError,
>)
    ensures
        match r {
            Ok(a) => spec_attachment(content@, path.deep_view()) == Some(
                (a.filename@, a.mime_type@, a.content@),
            ),
            Err(e) => e == BuildError::UnknownMime && spec_attachment(
                content@,
                path.deep_view(),
            ) is None,
        },
        png_signature(content@) ==> (r matches Ok(a) && a.mime_type@ == "image/png"@ && (
        path is None ==> a.filename@ == "file."@ + "png"@)),
{
    match sniff_mime(&content) {
        None => Err(BuildError::UnknownMime),
        Some(m) => {
            let filename = match path {
                Some(p) => p,
                None => {
                    let mut f = "file.".to_owned();
                    f.append(m.1.as_str());
                    f
                },
            };
            Ok(Attachment { filename, mime_type: m.0, content })
        },
    }
}

/// MIME-type inference is content-based: for the same bytes, the sniffed
/// type and the attached bytes are the same whatever filename the caller
/// supplied, and resolution fails for one filename exactly when it fails for
/// every other.
pub proof fn lemma_mime_ignores_filename(
    content: Seq<u8>,
    p1: Option<Seq<char>>,
    p2: Option<Seq<char>>,
)
    ensures
        match (spec_attachment(content, p1), spec_attachment(content, p2)) {
            (Some(a1), Some(a2)) => a1.1 == a2.1 && a1.2 == a2.2,
            (None, None) => true,
            _ => false,
        },
{
}

/// Where the attachment bytes come from, decided before any I/O is done:
/// piped standard input wins, then a named file, then a remote URL.
pub enum AttachmentSource {
    Piped,
    LocalFile(String),
    RemoteUrl(String),
    NoSource,
}

/// Chooses the attachment source. Supplying both a local path and a remote
/// image URL is a configuration error, rejected here, before any network or
/// file access takes place.
pub fn select_source(stdin_piped: bool, path: Option<String>, image_url: Option<String>) -> (r:
    Result<AttachmentSource, BuildError>)
    ensures
        r is Err <==> (path is Some && image_url is Some),
        r matches Err(e) ==> e == BuildError::ConflictingSources,
        r matches Ok(s) ==> match s {
            AttachmentSource::Piped => stdin_piped,
            AttachmentSource::LocalFile(f) => !stdin_piped && (path matches Some(p) && f@ == p@),
            AttachmentSource::RemoteUrl(u) => !stdin_piped && path is None && (
            image_url matches Some(w) && u@ == w@),
            AttachmentSource::NoSource => !stdin_piped && path is None && image_url is None,
        },
{
    if path.is_some() && image_url.is_some() {
        Err(BuildError::ConflictingSources)
    } else if stdin_piped {
        Ok(AttachmentSource::Piped)
    } else if let Some(p) = path {
        Ok(AttachmentSource::LocalFile(p))
    } else if let Some(u) = image_url {
        Ok(AttachmentSource::RemoteUrl(u))
    } else {
        Ok(AttachmentSource::NoSource)
    }
}

impl Notification {
    /// A notification holding the given credentials and message, with no
    /// optional field set and no attachment.
    pub fn new(token: &str, user: &str, message: &str) -> (r: Notification)
        ensures
            r.request.token@ == token@,
            r.request.user@ == user@,
            r.request.message@ == message@,
            only_required_fields(r.request),
            r.attachment is None,
    {
        Notification { request: Request::new(token, user, message), attachment: None }
    }

    /// Attaches explicit bytes under the given filename and MIME type,
    /// replacing any attachment already present.
    pub fn attach(self, filename: &str, mime_type: &str, content: Vec<u8>) -> (r: Notification)
        ensures
            r.request == self.request,
            r.attachment matches Some(a) && a.filename@ == filename@ && a.mime_type@ == mime_type@
                && a.content@ == content@,
    {
        Notification {
            request: self.request,
            attachment: Some(
                Attachment {
                    filename: filename.to_owned(),
                    mime_type: mime_type.to_owned(),
                    content,
                },
            ),
        }
    }

    /// Attaches downloaded or piped bytes whose filename is not known: the
    /// MIME type is sniffed from the bytes and the filename is synthesized
    /// from the detected extension.
    pub fn attach_content(self, content: Vec<u8>) -> (r: Result<Notification, BuildError>)
        ensures
            match r {
                Ok(n) => n.request == self.request && (n.attachment matches Some(a)
                    && spec_attachment(content@, Option::None) == Some(
                    (a.filename@, a.mime_type@, a.content@),
                )),
                Err(e) => e == BuildError::UnknownMime && spec_attachment(
                    content@,
                    Option::None,
                ) is None,
            },
            png_signature(content@) ==> (r matches Ok(n) && (n.attachment matches Some(a)
                && a.mime_type@ == "image/png"@ && a.filename@ == "file."@ + "png"@)),
    {
        match attachment_from_content(content, None) {
            Ok(a) => Ok(Notification { request: self.request, attachment: Some(a) }),
            Err(e) => Err(e),
        }
    }
}

impl Default for Notification {
    fn default() -> (r: Notification)
        ensures
            r.request.token@ == Seq::<char>::empty(),
            r.request.user@ == Seq::<char>::empty(),
            r.request.message@ == Seq::<char>::empty(),
            only_required_fields(r.request),
            r.attachment is None,
    {
        Notification { request: Request::default(), attachment: None }
    }
}

} // verus!
