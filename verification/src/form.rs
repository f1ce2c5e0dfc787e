//! Encoding a notification as a multipart form: one text part per populated
//! field, in a fixed order, plus at most one binary attachment part.

use vstd::prelude::*;
use vstd::slice::slice_to_vec;

use crate::notification::{Attachment, Notification};
use crate::numeric::dec_digits;
use crate::pushover::{only_required_fields, Request};
use crate::wrapped::Wrapped;

verus! {

/// One named text part of the outbound multipart form.
pub struct TextPart {
    pub name: String,
    pub value: String,
}

impl View for TextPart {
    type V = (Seq<char>, Seq<char>);

    open spec fn view(&self) -> (Seq<char>, Seq<char>) {
        (self.name@, self.value@)
    }
}

/// The encoded form: the text parts in order, and the binary attachment
/// part, when one is present, carrying filename, MIME type and bytes.
pub struct Form {
    pub texts: Vec<TextPart>,
    pub attachment: Option<Attachment>,
}

/// The (name, value) views of a sequence of text parts.
pub open spec fn parts_view(texts: Seq<TextPart>) -> Seq<(Seq<char>, Seq<char>)> {
    texts.map_values(|p: TextPart| p@)
}

/// The text part that an optional field contributes: none when the field is
/// unset, exactly one carrying the value when it is set.
pub open spec fn opt_part(name: Seq<char>, v: Option<Seq<char>>) -> Seq<(Seq<char>, Seq<char>)> {
    match v {
        Some(x) => seq![(name, x)],
        None => seq![],
    }
}

/// The stringified view of an optional numeric field.
pub open spec fn opt_dec(v: Option<u64>) -> Option<Seq<char>> {
    match v {
        Some(n) => Some(dec_digits(n as nat)),
        None => None,
    }
}

/// The stringified view of an optional byte-sized numeric field.
pub open spec fn opt_dec8(v: Option<u8>) -> Option<Seq<char>> {
    match v {
        Some(n) => Some(dec_digits(n as nat)),
        None => None,
    }
}

/// The three text parts that every request carries.
pub open spec fn required_parts(req: Request) -> Seq<(Seq<char>, Seq<char>)> {
    seq![("token"@, req.token@), ("user"@, req.user@), ("message"@, req.message@)]
}

/// Every text part of the encoded form, in the order they are emitted: the
/// three required parts, then one part per populated optional field.
pub open spec fn spec_text_parts(req: Request) -> Seq<(Seq<char>, Seq<char>)> {
    required_parts(req) + opt_part("device"@, req.device.deep_view()) + opt_part(
        "title"@,
        req.title.deep_view(),
    ) + opt_part("html"@, opt_dec8(req.html)) + opt_part("timestamp"@, opt_dec(req.timestamp))
        + opt_part("priority"@, opt_dec8(req.priority)) + opt_part("url"@, req.url.deep_view())
        + opt_part("url_title"@, req.url_title.deep_view()) + opt_part(
        "sound"@,
        req.sound.deep_view(),
    )
}

fn push_text(texts: &mut Vec<TextPart>, name: &str, value: String)
    ensures
        parts_view(final(texts)@) =~= parts_view(old(texts)@).push((name@, value@)),
{
    let n = name.to_owned();
    texts.push(TextPart { name: n, value });
}

fn push_opt_text(texts: &mut Vec<TextPart>, name: &str, value: &Option<String>)
    ensures
        parts_view(final(texts)@) =~= parts_view(old(texts)@) + opt_part(name@, value.deep_view()),
{
    match value {
        Some(v) => {
            push_text(texts, name, v.clone());
        },
        None => (),
    }
    proof {
        assert(parts_view(texts@) =~= parts_view(old(texts)@) + opt_part(
            name@,
            value.deep_view(),
        ));
    }
}

fn clone_attachment(att: &Option<Attachment>) -> (r: Option<Attachment>)
    ensures
        r is Some <==> att is Some,
        r matches Some(a) ==> (att matches Some(b) && a.filename@ == b.filename@ && a.mime_type@
            == b.mime_type@ && a.content@ == b.content@),
{
    match att {
        Some(a) => Some(
            Attachment {
                filename: a.filename.clone(),
                mime_type: a.mime_type.clone(),
                content: slice_to_vec(a.content.as_slice()),
            },
        ),
        None => None,
    }
}

fn encode_request(request: &Request, attachment: &Option<Attachment>) -> (f: Form)
    ensures
        parts_view(f.texts@) == spec_text_parts(*request),
        f.attachment is Some <==> attachment is Some,
        f.attachment matches Some(a) ==> (attachment matches Some(b) && a.filename@ == b.filename@
            && a.mime_type@ == b.mime_type@ && a.content@ == b.content@),
{
    let mut texts: Vec<TextPart> = Vec::new();
    push_text(&mut texts, "token", request.token.clone());
    push_text(&mut texts, "user", request.user.clone());
    push_text(&mut texts, "message", request.message.clone());
    proof {
        assert(parts_view(texts@) =~= required_parts(*request));
    }
    push_opt_text(&mut texts, "device", &request.device);
    push_opt_text(&mut texts, "title", &request.title);
    match &request.html {
        Some(n) => push_text(&mut texts, "html", crate::numeric::u64_to_string(*n as u64)),
        None => (),
    }
    match &request.timestamp {
        Some(n) => push_text(&mut texts, "timestamp", crate::numeric::u64_to_string(*n)),
        None => (),
    }
    match &request.priority {
        Some(n) => push_text(&mut texts, "priority", crate::numeric::u64_to_string(*n as u64)),
        None => (),
    }
    push_opt_text(&mut texts, "url", &request.url);
    push_opt_text(&mut texts, "url_title", &request.url_title);
    push_opt_text(&mut texts, "sound", &request.sound);
    proof {
        assert(parts_view(texts@) =~= spec_text_parts(*request));
    }
    Form { texts, attachment: clone_attachment(attachment) }
}

impl Notification {
    /// Encodes the notification as a multipart form: every populated field
    /// becomes one text part with its exact stringified value, unset fields
    /// contribute nothing, and the attachment is carried over unchanged.
    pub fn encode(&self) -> (f: Form)
        ensures
            parts_view(f.texts@) == spec_text_parts(self.request),
            f.attachment is Some <==> self.attachment is Some,
            f.attachment matches Some(a) ==> (self.attachment matches Some(b) && a.filename@
                == b.filename@ && a.mime_type@ == b.mime_type@ && a.content@ == b.content@),
    {
        encode_request(&self.request, &self.attachment)
    }
}

impl Wrapped {
    /// Encodes the wrapped submission exactly as a notification is encoded:
    /// every populated field becomes one text part with its exact
    /// stringified value, plus the attachment.
    pub fn encode(&self) -> (f: Form)
        ensures
            parts_view(f.texts@) == spec_text_parts(self.request),
            f.attachment is Some <==> self.attachment is Some,
            f.attachment matches Some(a) ==> (self.attachment matches Some(b) && a.filename@
                == b.filename@ && a.mime_type@ == b.mime_type@ && a.content@ == b.content@),
    {
        encode_request(&self.request, &self.attachment)
    }
}

/// With only the required fields set, the encoded form holds exactly the
/// three text parts token, user and message, in that order, and nothing
/// else.
pub proof fn lemma_required_only_parts(req: Request)
    requires
        only_required_fields(req),
    ensures
        spec_text_parts(req).len() == 3,
        spec_text_parts(req) == required_parts(req),
{
    assert(spec_text_parts(req) =~= required_parts(req));
}

proof fn lemma_concat_contains<A>(s1: Seq<A>, s2: Seq<A>, x: A)
    ensures
        (s1 + s2).contains(x) <==> s1.contains(x) || s2.contains(x),
{
    if s1.contains(x) {
        let i = choose|i: int| 0 <= i < s1.len() && s1[i] == x;
        assert((s1 + s2)[i] == x);
    }
    if s2.contains(x) {
        let i = choose|i: int| 0 <= i < s2.len() && s2[i] == x;
        assert((s1 + s2)[s1.len() + i] == x);
    }
    if (s1 + s2).contains(x) {
        let i = choose|i: int| 0 <= i < (s1 + s2).len() && (s1 + s2)[i] == x;
        if i < s1.len() {
            assert(s1[i] == x);
        } else {
            assert(s2[i - s1.len()] == x);
        }
    }
}

proof fn lemma_opt_part_contains(name: Seq<char>, v: Option<Seq<char>>, x: (Seq<char>, Seq<char>))
    ensures
        opt_part(name, v).contains(x) <==> (v matches Some(w) && x == (name, w)),
{
    match v {
        Some(w) => {
            if x == (name, w) {
                assert(opt_part(name, v)[0] == x);
            }
            if opt_part(name, v).contains(x) {
                let i = choose|i: int|
                    0 <= i < opt_part(name, v).len() && opt_part(name, v)[i] == x;
                assert(i == 0);
            }
        },
        None => {
            assert(opt_part(name, v).len() == 0);
        },
    }
}

/// A pair is among the encoded text parts exactly when it is one of the
/// three required parts or its field is populated with that exact
/// stringified value.
pub proof fn lemma_parts_membership(req: Request, x: (Seq<char>, Seq<char>))
    ensures
        spec_text_parts(req).contains(x) <==> {
            ||| x == ("token"@, req.token@)
            ||| x == ("user"@, req.user@)
            ||| x == ("message"@, req.message@)
            ||| (req.device matches Some(d) && x == ("device"@, d@))
            ||| (req.title matches Some(t) && x == ("title"@, t@))
            ||| (req.html matches Some(h) && x == ("html"@, dec_digits(h as nat)))
            ||| (req.timestamp matches Some(t) && x == ("timestamp"@, dec_digits(t as nat)))
            ||| (req.priority matches Some(p) && x == ("priority"@, dec_digits(p as nat)))
            ||| (req.url matches Some(u) && x == ("url"@, u@))
            ||| (req.url_title matches Some(u) && x == ("url_title"@, u@))
            ||| (req.sound matches Some(s) && x == ("sound"@, s@))
        },
{
    let p0 = required_parts(req);
    let p1 = p0 + opt_part("device"@, req.device.deep_view());
    let p2 = p1 + opt_part("title"@, req.title.deep_view());
    let p3 = p2 + opt_part("html"@, opt_dec8(req.html));
    let p4 = p3 + opt_part("timestamp"@, opt_dec(req.timestamp));
    let p5 = p4 + opt_part("priority"@, opt_dec8(req.priority));
    let p6 = p5 + opt_part("url"@, req.url.deep_view());
    let p7 = p6 + opt_part("url_title"@, req.url_title.deep_view());
    let p8 = p7 + opt_part("sound"@, req.sound.deep_view());
    assert(spec_text_parts(req) == p8);
    lemma_concat_contains(p7, opt_part("sound"@, req.sound.deep_view()), x);
    lemma_concat_contains(p6, opt_part("url_title"@, req.url_title.deep_view()), x);
    lemma_concat_contains(p5, opt_part("url"@, req.url.deep_view()), x);
    lemma_concat_contains(p4, opt_part("priority"@, opt_dec8(req.priority)), x);
    lemma_concat_contains(p3, opt_part("timestamp"@, opt_dec(req.timestamp)), x);
    lemma_concat_contains(p2, opt_part("html"@, opt_dec8(req.html)), x);
    lemma_concat_contains(p1, opt_part("title"@, req.title.deep_view()), x);
    lemma_concat_contains(p0, opt_part("device"@, req.device.deep_view()), x);
    lemma_opt_part_contains("device"@, req.device.deep_view(), x);
    lemma_opt_part_contains("title"@, req.title.deep_view(), x);
    lemma_opt_part_contains("html"@, opt_dec8(req.html), x);
    lemma_opt_part_contains("timestamp"@, opt_dec(req.timestamp), x);
    lemma_opt_part_contains("priority"@, opt_dec8(req.priority), x);
    lemma_opt_part_contains("url"@, req.url.deep_view(), x);
    lemma_opt_part_contains("url_title"@, req.url_title.deep_view(), x);
    lemma_opt_part_contains("sound"@, req.sound.deep_view(), x);
    if x == ("token"@, req.token@) {
        assert(p0[0] == x);
    }
    if x == ("user"@, req.user@) {
        assert(p0[1] == x);
    }
    if x == ("message"@, req.message@) {
        assert(p0[2] == x);
    }
    if p0.contains(x) {
        let i = choose|i: int| 0 <= i < p0.len() && p0[i] == x;
        assert(i == 0 || i == 1 || i == 2);
    }
}

/// For any optional field set to a value, the encoded form contains a text
/// part carrying that exact stringified value; for any optional field left
/// unset, no part under that field's name appears at all.
pub proof fn lemma_optional_field_parts(req: Request)
    ensures
        req.device matches Some(d) ==> spec_text_parts(req).contains(("device"@, d@)),
        req.device is None ==> forall|v: Seq<char>| !spec_text_parts(req).contains(("device"@, v)),
        req.title matches Some(t) ==> spec_text_parts(req).contains(("title"@, t@)),
        req.title is None ==> forall|v: Seq<char>| !spec_text_parts(req).contains(("title"@, v)),
        req.html matches Some(h) ==> spec_text_parts(req).contains(("html"@, dec_digits(h as nat))),
        req.html is None ==> forall|v: Seq<char>| !spec_text_parts(req).contains(("html"@, v)),
        req.timestamp matches Some(t) ==> spec_text_parts(req).contains(
            ("timestamp"@, dec_digits(t as nat)),
        ),
        req.timestamp is None ==> forall|v: Seq<char>|
            !spec_text_parts(req).contains(("timestamp"@, v)),
        req.priority matches Some(p) ==> spec_text_parts(req).contains(
            ("priority"@, dec_digits(p as nat)),
        ),
        req.priority is None ==> forall|v: Seq<char>|
            !spec_text_parts(req).contains(("priority"@, v)),
        req.url matches Some(u) ==> spec_text_parts(req).contains(("url"@, u@)),
        req.url is None ==> forall|v: Seq<char>| !spec_text_parts(req).contains(("url"@, v)),
        req.url_title matches Some(u) ==> spec_text_parts(req).contains(("url_title"@, u@)),
        req.url_title is None ==> forall|v: Seq<char>|
            !spec_text_parts(req).contains(("url_title"@, v)),
        req.sound matches Some(s) ==> spec_text_parts(req).contains(("sound"@, s@)),
        req.sound is None ==> forall|v: Seq<char>| !spec_text_parts(req).contains(("sound"@, v)),
{
    reveal_strlit("token");
    reveal_strlit("user");
    reveal_strlit("message");
    reveal_strlit("device");
    reveal_strlit("title");
    reveal_strlit("html");
    reveal_strlit("timestamp");
    reveal_strlit("priority");
    reveal_strlit("url");
    reveal_strlit("url_title");
    reveal_strlit("sound");
    assert("token"@.len() == 5 && "user"@.len() == 4 && "message"@.len() == 7 && "device"@.len()
        == 6 && "title"@.len() == 5 && "html"@.len() == 4 && "timestamp"@.len() == 9
        && "priority"@.len() == 8 && "url"@.len() == 3 && "url_title"@.len() == 9 && "sound"@.len()
        == 5);
    assert("token"@[0] == 't' && "title"@[1] == 'i' && "token"@[1] == 'o' && "sound"@[0] == 's');
    assert("user"@[0] == 'u' && "html"@[0] == 'h');
    assert("timestamp"@[0] == 't' && "url_title"@[0] == 'u');
    assert forall|v: Seq<char>| req.device is None implies !spec_text_parts(req).contains(
        ("device"@, v),
    ) by {
        lemma_parts_membership(req, ("device"@, v));
    }
    assert forall|v: Seq<char>| req.title is None implies !spec_text_parts(req).contains(
        ("title"@, v),
    ) by {
        lemma_parts_membership(req, ("title"@, v));
    }
    assert forall|v: Seq<char>| req.html is None implies !spec_text_parts(req).contains(
        ("html"@, v),
    ) by {
        lemma_parts_membership(req, ("html"@, v));
    }
    assert forall|v: Seq<char>| req.timestamp is None implies !spec_text_parts(req).contains(
        ("timestamp"@, v),
    ) by {
        lemma_parts_membership(req, ("timestamp"@, v));
    }
    assert forall|v: Seq<char>| req.priority is None implies !spec_text_parts(req).contains(
        ("priority"@, v),
    ) by {
        lemma_parts_membership(req, ("priority"@, v));
    }
    assert forall|v: Seq<char>| req.url is None implies !spec_text_parts(req).contains(
        ("url"@, v),
    ) by {
        lemma_parts_membership(req, ("url"@, v));
    }
    assert forall|v: Seq<char>| req.url_title is None implies !spec_text_parts(req).contains(
        ("url_title"@, v),
    ) by {
        lemma_parts_membership(req, ("url_title"@, v));
    }
    assert forall|v: Seq<char>| req.sound is None implies !spec_text_parts(req).contains(
        ("sound"@, v),
    ) by {
        lemma_parts_membership(req, ("sound"@, v));
    }
    if let Some(d) = req.device {
        lemma_parts_membership(req, ("device"@, d@));
    }
    if let Some(t) = req.title {
        lemma_parts_membership(req, ("title"@, t@));
    }
    if let Some(h) = req.html {
        lemma_parts_membership(req, ("html"@, dec_digits(h as nat)));
    }
    if let Some(t) = req.timestamp {
        lemma_parts_membership(req, ("timestamp"@, dec_digits(t as nat)));
    }
    if let Some(p) = req.priority {
        lemma_parts_membership(req, ("priority"@, dec_digits(p as nat)));
    }
    if let Some(u) = req.url {
        lemma_parts_membership(req, ("url"@, u@));
    }
    if let Some(u) = req.url_title {
        lemma_parts_membership(req, ("url_title"@, u@));
    }
    if let Some(s) = req.sound {
        lemma_parts_membership(req, ("sound"@, s@));
    }
}

} // verus!
