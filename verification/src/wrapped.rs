//! A bare submission pairing a request with its optional attachment.

use vstd::prelude::*;

use crate::notification::Attachment;
use crate::pushover::{only_required_fields, Request};

verus! {

/// A notification submission: the request and the attachment, with no
/// builder around them.
pub struct Wrapped {
    pub request: Request,
    pub attachment: Option<Attachment>,
}

impl Default for Wrapped {
    fn default() -> (r: Wrapped)
        ensures
            r.request.token@ == Seq::<char>::empty(),
            r.request.user@ == Seq::<char>::empty(),
            r.request.message@ == Seq::<char>::empty(),
            only_required_fields(r.request),
            r.attachment is None,
    {
        Wrapped { request: Request::default(), attachment: None }
    }
}

} // verus!
