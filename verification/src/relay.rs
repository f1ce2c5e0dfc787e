//! The relay server's per-request decisions: the body size ceiling, the
//! bearer-secret check, and turning an authorized JSON payload into an
//! outbound request under the server's own credentials. Everything here is
//! a pure function of the request; the surrounding HTTP plumbing only
//! carries bytes in and the decision out.

use vstd::prelude::*;

use crate::json::{members_view, parse_document, spec_parse_document, Json, Member, SpecJson};
use crate::pushover::Request;
use crate::support::key_is;

verus! {

/// The largest body, in bytes, the relay accepts; anything larger is
/// rejected before any parsing.
pub const MAX_BODY_BYTES: usize = 16384;

/// The notification payload a relay caller submits: the message and the
/// optional fields, plus an optional remote image to attach.
pub struct Payload {
    pub message: String,
    pub device: Option<String>,
    pub title: Option<String>,
    pub html: Option<bool>,
    pub timestamp: Option<u64>,
    pub priority: Option<u8>,
    pub url: Option<String>,
    pub url_title: Option<String>,
    pub sound: Option<String>,
    pub image_url: Option<String>,
}

/// The mathematical counterpart of a payload.
pub struct SpecPayload {
    pub message: Seq<char>,
    pub device: Option<Seq<char>>,
    pub title: Option<Seq<char>>,
    pub html: Option<bool>,
    pub timestamp: Option<u64>,
    pub priority: Option<u8>,
    pub url: Option<Seq<char>>,
    pub url_title: Option<Seq<char>>,
    pub sound: Option<Seq<char>>,
    pub image_url: Option<Seq<char>>,
}

impl View for Payload {
    type V = SpecPayload;

    open spec fn view(&self) -> SpecPayload {
        SpecPayload {
            message: self.message@,
            device: self.device.deep_view(),
            title: self.title.deep_view(),
            html: self.html,
            timestamp: self.timestamp,
            priority: self.priority,
            url: self.url.deep_view(),
            url_title: self.url_title.deep_view(),
            sound: self.sound.deep_view(),
            image_url: self.image_url.deep_view(),
        }
    }
}

/// A payload being folded from object members: each field is unset, or was
/// seen with a null, or was seen with a value. A second member under the
/// same key is a duplicate and rejects the payload.
struct Draft {
    message: Option<String>,
    device: Option<Option<String>>,
    title: Option<Option<String>>,
    html: Option<Option<bool>>,
    timestamp: Option<Option<u64>>,
    priority: Option<Option<u8>>,
    url: Option<Option<String>>,
    url_title: Option<Option<String>>,
    sound: Option<Option<String>>,
    image_url: Option<Option<String>>,
}

/// The mathematical counterpart of a draft.
pub struct SpecDraft {
    pub message: Option<Seq<char>>,
    pub device: Option<Option<Seq<char>>>,
    pub title: Option<Option<Seq<char>>>,
    pub html: Option<Option<bool>>,
    pub timestamp: Option<Option<u64>>,
    pub priority: Option<Option<u8>>,
    pub url: Option<Option<Seq<char>>>,
    pub url_title: Option<Option<Seq<char>>>,
    pub sound: Option<Option<Seq<char>>>,
    pub image_url: Option<Option<Seq<char>>>,
}

impl View for Draft {
    type V = SpecDraft;

    closed spec fn view(&self) -> SpecDraft {
        SpecDraft {
            message: self.message.deep_view(),
            device: self.device.deep_view(),
            title: self.title.deep_view(),
            html: self.html.deep_view(),
            timestamp: self.timestamp.deep_view(),
            priority: self.priority.deep_view(),
            url: self.url.deep_view(),
            url_title: self.url_title.deep_view(),
            sound: self.sound.deep_view(),
            image_url: self.image_url.deep_view(),
        }
    }
}

/// The empty draft: nothing seen yet.
pub open spec fn spec_empty_draft() -> SpecDraft {
    SpecDraft {
        message: None,
        device: None,
        title: None,
        html: None,
        timestamp: None,
        priority: None,
        url: None,
        url_title: None,
        sound: None,
        image_url: None,
    }
}

/// A field that was seen with null counts as absent in the final payload.
pub open spec fn spec_flat<T>(x: Option<Option<T>>) -> Option<T> {
    match x {
        Some(y) => y,
        None => None,
    }
}

/// An optional string field takes a string or null, once.
pub open spec fn spec_take_str(
    seen: Option<Option<Seq<char>>>,
    v: SpecJson,
) -> Option<Option<Option<Seq<char>>>> {
    if seen is Some {
        None
    } else {
        match v {
            SpecJson::Str(x) => Some(Some(Some(x))),
            SpecJson::Null => Some(Some(None)),
            _ => None,
        }
    }
}

/// Takes one object member into the draft: `message` must be a string; the
/// optional fields take a value of their type or null; a field already seen
/// rejects the payload; a member under an unknown key changes nothing.
pub open spec fn spec_apply_member(d: SpecDraft, kv: (Seq<char>, SpecJson)) -> Option<SpecDraft> {
    if kv.0 == "message"@ {
        if d.message is Some {
            None
        } else {
            match kv.1 {
                SpecJson::Str(x) => Some(SpecDraft { message: Some(x), ..d }),
                _ => None,
            }
        }
    } else if kv.0 == "device"@ {
        match spec_take_str(d.device, kv.1) {
            None => None,
            Some(f) => Some(SpecDraft { device: f, ..d }),
        }
    } else if kv.0 == "title"@ {
        match spec_take_str(d.title, kv.1) {
            None => None,
            Some(f) => Some(SpecDraft { title: f, ..d }),
        }
    } else if kv.0 == "html"@ {
        if d.html is Some {
            None
        } else {
            match kv.1 {
                SpecJson::Bool(b) => Some(SpecDraft { html: Some(Some(b)), ..d }),
                SpecJson::Null => Some(SpecDraft { html: Some(None), ..d }),
                _ => None,
            }
        }
    } else if kv.0 == "timestamp"@ {
        if d.timestamp is Some {
            None
        } else {
            match kv.1 {
                SpecJson::UInt(n) => Some(SpecDraft { timestamp: Some(Some(n)), ..d }),
                SpecJson::Null => Some(SpecDraft { timestamp: Some(None), ..d }),
                _ => None,
            }
        }
    } else if kv.0 == "priority"@ {
        if d.priority is Some {
            None
        } else {
            match kv.1 {
                SpecJson::UInt(n) => if n <= 255 {
                    Some(SpecDraft { priority: Some(Some(n as u8)), ..d })
                } else {
                    None
                },
                SpecJson::Null => Some(SpecDraft { priority: Some(None), ..d }),
                _ => None,
            }
        }
    } else if kv.0 == "url"@ {
        match spec_take_str(d.url, kv.1) {
            None => None,
            Some(f) => Some(SpecDraft { url: f, ..d }),
        }
    } else if kv.0 == "url_title"@ {
        match spec_take_str(d.url_title, kv.1) {
            None => None,
            Some(f) => Some(SpecDraft { url_title: f, ..d }),
        }
    } else if kv.0 == "sound"@ {
        match spec_take_str(d.sound, kv.1) {
            None => None,
            Some(f) => Some(SpecDraft { sound: f, ..d }),
        }
    } else if kv.0 == "image_url"@ {
        match spec_take_str(d.image_url, kv.1) {
            None => None,
            Some(f) => Some(SpecDraft { image_url: f, ..d }),
        }
    } else {
        Some(d)
    }
}

/// The payload a finished draft denotes: `message` must have been seen; a
/// field seen with null counts as absent.
pub open spec fn spec_finish_draft(d: SpecDraft) -> Option<SpecPayload> {
    match d.message {
        Some(m) => Some(
            SpecPayload {
                message: m,
                device: spec_flat(d.device),
                title: spec_flat(d.title),
                html: spec_flat(d.html),
                timestamp: spec_flat(d.timestamp),
                priority: spec_flat(d.priority),
                url: spec_flat(d.url),
                url_title: spec_flat(d.url_title),
                sound: spec_flat(d.sound),
                image_url: spec_flat(d.image_url),
            },
        ),
        None => None,
    }
}

/// Folds the object members into a payload, left to right, one member at a
/// time.
pub open spec fn spec_bind_payload(ms: Seq<(Seq<char>, SpecJson)>, i: int, d: SpecDraft) -> Option<
    SpecPayload,
>
    decreases ms.len() - i,
{
    if 0 <= i < ms.len() {
        match spec_apply_member(d, ms[i]) {
            None => None,
            Some(d2) => spec_bind_payload(ms, i + 1, d2),
        }
    } else {
        spec_finish_draft(d)
    }
}

/// What a relay body denotes: a payload, or nothing where the bytes are not
/// a well-formed payload object.
pub open spec fn spec_parse_payload(s: Seq<u8>) -> Option<SpecPayload> {
    match spec_parse_document(s) {
        None => None,
        Some(ms) => spec_bind_payload(ms, 0, spec_empty_draft()),
    }
}

/// Whether a caller holding `auth` may use a relay configured with
/// `secret`: with no secret configured every caller is accepted; with one,
/// only a caller presenting exactly that value.
pub open spec fn spec_authorized(secret: Option<Seq<char>>, auth: Option<Seq<char>>) -> bool {
    match secret {
        None => true,
        Some(s) => auth matches Some(a) && a == s,
    }
}

/// When a secret is configured, a request without the authorization value
/// is never authorized; when none is configured, every request is.
pub proof fn lemma_authorization(secret: Option<Seq<char>>, auth: Option<Seq<char>>)
    ensures
        secret is Some && auth is None ==> !spec_authorized(secret, auth),
        secret is None ==> spec_authorized(secret, auth),
{
}

fn apply_member(d: Draft, m: &Member) -> (r: Option<Draft>)
    ensures
        match r {
            Some(d2) => spec_apply_member(d@, m@) == Some(d2@),
            None => spec_apply_member(d@, m@) is None,
        },
{
    if key_is(&m.key, "message") {
        if d.message.is_some() {
            None
        } else {
            match &m.value {
                Json::Str(x) => {
                    let mut d2 = d;
                    d2.message = Some(x.clone());
                    Some(d2)
                },
                _ => None,
            }
        }
    } else if key_is(&m.key, "device") {
        if d.device.is_some() {
            None
        } else {
            match &m.value {
                Json::Str(x) => {
                    let mut d2 = d;
                    d2.device = Some(Some(x.clone()));
                    Some(d2)
                },
                Json::Null => {
                    let mut d2 = d;
                    d2.device = Some(None);
                    Some(d2)
                },
                _ => None,
            }
        }
    } else if key_is(&m.key, "title") {
        if d.title.is_some() {
            None
        } else {
            match &m.value {
                Json::Str(x) => {
                    let mut d2 = d;
                    d2.title = Some(Some(x.clone()));
                    Some(d2)
                },
                Json::Null => {
                    let mut d2 = d;
                    d2.title = Some(None);
                    Some(d2)
                },
                _ => None,
            }
        }
    } else if key_is(&m.key, "html") {
        if d.html.is_some() {
            None
        } else {
            match &m.value {
                Json::Bool(b) => {
                    let mut d2 = d;
                    d2.html = Some(Some(*b));
                    Some(d2)
                },
                Json::Null => {
                    let mut d2 = d;
                    d2.html = Some(None);
                    Some(d2)
                },
                _ => None,
            }
        }
    } else if key_is(&m.key, "timestamp") {
        if d.timestamp.is_some() {
            None
        } else {
            match &m.value {
                Json::UInt(n) => {
                    let mut d2 = d;
                    d2.timestamp = Some(Some(*n));
                    Some(d2)
                },
                Json::Null => {
                    let mut d2 = d;
                    d2.timestamp = Some(None);
                    Some(d2)
                },
                _ => None,
            }
        }
    } else if key_is(&m.key, "priority") {
        if d.priority.is_some() {
            None
        } else {
            match &m.value {
                Json::UInt(n) => {
                    if *n <= 255 {
                        let mut d2 = d;
                        d2.priority = Some(Some(*n as u8));
                        Some(d2)
                    } else {
                        None
                    }
                },
                Json::Null => {
                    let mut d2 = d;
                    d2.priority = Some(None);
                    Some(d2)
                },
                _ => None,
            }
        }
    } else if key_is(&m.key, "url") {
        if d.url.is_some() {
            None
        } else {
            match &m.value {
                Json::Str(x) => {
                    let mut d2 = d;
                    d2.url = Some(Some(x.clone()));
                    Some(d2)
                },
                Json::Null => {
                    let mut d2 = d;
                    d2.url = Some(None);
                    Some(d2)
                },
                _ => None,
            }
        }
    } else if key_is(&m.key, "url_title") {
        if d.url_title.is_some() {
            None
        } else {
            match &m.value {
                Json::Str(x) => {
                    let mut d2 = d;
                    d2.url_title = Some(Some(x.clone()));
                    Some(d2)
                },
                Json::Null => {
                    let mut d2 = d;
                    d2.url_title = Some(None);
                    Some(d2)
                },
                _ => None,
            }
        }
    } else if key_is(&m.key, "sound") {
        if d.sound.is_some() {
            None
        } else {
            match &m.value {
                Json::Str(x) => {
                    let mut d2 = d;
                    d2.sound = Some(Some(x.clone()));
                    Some(d2)
                },
                Json::Null => {
                    let mut d2 = d;
                    d2.sound = Some(None);
                    Some(d2)
                },
                _ => None,
            }
        }
    } else if key_is(&m.key, "image_url") {
        if d.image_url.is_some() {
            None
        } else {
            match &m.value {
                Json::Str(x) => {
                    let mut d2 = d;
                    d2.image_url = Some(Some(x.clone()));
                    Some(d2)
                },
                Json::Null => {
                    let mut d2 = d;
                    d2.image_url = Some(None);
                    Some(d2)
                },
                _ => None,
            }
        }
    } else {
        Some(d)
    }
}

fn finish_draft(d: Draft) -> (r: Option<Payload>)
    ensures
        match r {
            Some(p) => spec_finish_draft(d@) == Some(p@),
            None => spec_finish_draft(d@) is None,
        },
{
    match d.message {
        Some(m) => Some(
            Payload {
                message: m,
                device: match d.device {
                    Some(y) => y,
                    None => None,
                },
                title: match d.title {
                    Some(y) => y,
                    None => None,
                },
                html: match d.html {
                    Some(y) => y,
                    None => None,
                },
                timestamp: match d.timestamp {
                    Some(y) => y,
                    None => None,
                },
                priority: match d.priority {
                    Some(y) => y,
                    None => None,
                },
                url: match d.url {
                    Some(y) => y,
                    None => None,
                },
                url_title: match d.url_title {
                    Some(y) => y,
                    None => None,
                },
                sound: match d.sound {
                    Some(y) => y,
                    None => None,
                },
                image_url: match d.image_url {
                    Some(y) => y,
                    None => None,
                },
            },
        ),
        None => None,
    }
}

fn bind_payload_rec(ms: &Vec<Member>, i: usize, d: Draft) -> (r: Option<Payload>)
    requires
        i <= ms@.len(),
    ensures
        match r {
            Some(p) => spec_bind_payload(members_view(ms@), i as int, d@) == Some(p@),
            None => spec_bind_payload(members_view(ms@), i as int, d@) is None,
        },
    decreases ms@.len() - i,
{
    if i < ms.len() {
        match apply_member(d, &ms[i]) {
            None => None,
            Some(d2) => bind_payload_rec(ms, i + 1, d2),
        }
    } else {
        finish_draft(d)
    }
}

/// Parses a relay body into a payload. Exactly the documents that
/// `spec_parse_payload` accepts yield a value, with exactly those fields.
pub fn parse_payload(body: &Vec<u8>) -> (r: Option<Payload>)
    ensures
        match r {
            Some(p) => spec_parse_payload(body@) == Some(p@),
            None => spec_parse_payload(body@) is None,
        },
{
    match parse_document(body) {
        None => None,
        Some(ms) => {
            let d = Draft {
                message: None,
                device: None,
                title: None,
                html: None,
                timestamp: None,
                priority: None,
                url: None,
                url_title: None,
                sound: None,
                image_url: None,
            };
            proof {
                assert(d@ == spec_empty_draft());
            }
            bind_payload_rec(&ms, 0, d)
        },
    }
}

/// Whether the caller's bearer value satisfies the configured secret.
pub fn authorized(secret: &Option<String>, auth: &Option<String>) -> (r: bool)
    ensures
        r == spec_authorized(secret.deep_view(), auth.deep_view()),
{
    match secret {
        None => true,
        Some(s) => match auth {
            Some(a) => *a == *s,
            None => false,
        },
    }
}

/// The html flag of a payload as the numeric field the provider expects.
pub open spec fn spec_html_flag(h: Option<bool>) -> Option<u8> {
    match h {
        Some(b) => Some(
            if b {
                1u8
            } else {
                0u8
            },
        ),
        None => None,
    }
}

/// What the relay decides for one request.
pub enum RelayOutcome {
    /// The body is over the size ceiling; nothing was parsed.
    TooLarge,
    /// The body is not a well-formed payload object.
    Malformed,
    /// A secret is configured and the caller's bearer value does not match.
    Unauthorized,
    /// The request to submit under the server's credentials, and the remote
    /// image still to be fetched and attached, if one was named.
    Forward(Request, Option<String>),
}

/// Decides one relay request: an oversized body is rejected by its length
/// alone, before any parsing; then the body must parse as a payload; then
/// the caller must be authorized; and an accepted payload becomes a request
/// carrying the server's own credentials, never the caller's.
pub fn handle_relay(
    secret: &Option<String>,
    auth: &Option<String>,
    body: &Vec<u8>,
    token: &str,
    user: &str,
) -> (r: RelayOutcome)
    ensures
        (r is TooLarge <==> body@.len() > MAX_BODY_BYTES),
        (r is Malformed <==> (body@.len() <= MAX_BODY_BYTES && spec_parse_payload(
            body@,
        ) is None)),
        (r is Unauthorized <==> (body@.len() <= MAX_BODY_BYTES && spec_parse_payload(
            body@,
        ) is Some && !spec_authorized(secret.deep_view(), auth.deep_view()))),
        r matches RelayOutcome::Forward(req, img) ==> (spec_parse_payload(
            body@,
        ) matches Some(p) && spec_authorized(secret.deep_view(), auth.deep_view()) && body@.len()
            <= MAX_BODY_BYTES && req.token@ == token@ && req.user@ == user@ && req.message@
            == p.message && req.device.deep_view() == p.device && req.title.deep_view() == p.title
            && req.html == spec_html_flag(p.html) && req.timestamp == p.timestamp && req.priority
            == p.priority && req.url.deep_view() == p.url && req.url_title.deep_view()
            == p.url_title && req.sound.deep_view() == p.sound && img.deep_view() == p.image_url),
{
    if body.len() > MAX_BODY_BYTES {
        return RelayOutcome::TooLarge;
    }
    let payload = match parse_payload(body) {
        None => {
            return RelayOutcome::Malformed;
        },
        Some(p) => p,
    };
    if !authorized(secret, auth) {
        return RelayOutcome::Unauthorized;
    }
    let req = Request {
        token: token.to_owned(),
        user: user.to_owned(),
        message: payload.message,
        device: payload.device,
        title: payload.title,
        html: match payload.html {
            Some(b) => Some(
                if b {
                    1
                } else {
                    0
                },
            ),
            None => None,
        },
        timestamp: payload.timestamp,
        priority: payload.priority,
        url: payload.url,
        url_title: payload.url_title,
        sound: payload.sound,
    };
    RelayOutcome::Forward(req, payload.image_url)
}

} // verus!
