//! The canonical notification request and response types, and the provider
//! endpoint.

use vstd::prelude::*;

verus! {

/// A notification to be submitted to the provider: credentials, the message,
/// and the optional metadata fields. Optional fields that are `None` are
/// omitted from the outbound form entirely.
pub struct Request {
    pub token: String,
    pub user: String,
    pub message: String,
    pub device: Option<String>,
    pub title: Option<String>,
    pub html: Option<u8>,
    pub timestamp: Option<u64>,
    pub priority: Option<u8>,
    pub url: Option<String>,
    pub url_title: Option<String>,
    pub sound: Option<String>,
}

/// True when none of the optional fields of `req` is set.
pub open spec fn only_required_fields(req: Request) -> bool {
    &&& req.device is None
    &&& req.title is None
    &&& req.html is None
    &&& req.timestamp is None
    &&& req.priority is None
    &&& req.url is None
    &&& req.url_title is None
    &&& req.sound is None
}

impl Request {
    /// A request holding the given credentials and message, with every
    /// optional field unset.
    pub fn new(token: &str, user: &str, message: &str) -> (r: Request)
        ensures
            r.token@ == token@,
            r.user@ == user@,
            r.message@ == message@,
            only_required_fields(r),
    {
        Request {
            token: token.to_owned(),
            user: user.to_owned(),
            message: message.to_owned(),
            device: None,
            title: None,
            html: None,
            timestamp: None,
            priority: None,
            url: None,
            url_title: None,
            sound: None,
        }
    }
}

impl Default for Request {
    fn default() -> (r: Request)
        ensures
            r.token@ == Seq::<char>::empty(),
            r.user@ == Seq::<char>::empty(),
            r.message@ == Seq::<char>::empty(),
            only_required_fields(r),
    {
        proof {
            reveal_strlit("");
            assert(""@ =~= Seq::<char>::empty());
        }
        Request::new("", "", "")
    }
}

/// The provider's answer to a submission: a status code (1 means success by
/// provider convention), a request-tracking identifier, and an optional list
/// of error strings.
pub struct Response {
    pub status: u64,
    pub request: String,
    pub errors: Option<Vec<String>>,
}

/// The base URL of the provider that the dispatcher submits to.
pub fn endpoint_url() -> (r: String)
    ensures
        r@ == "https://api.pushover.net"@,
{
    "https://api.pushover.net".to_owned()
}

} // verus!
