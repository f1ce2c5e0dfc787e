//! Reading the provider's JSON reply into a response value.

use vstd::prelude::*;

use crate::json::{members_view, parse_document, spec_parse_document, Json, Member, SpecJson};
use crate::pushover::Response;
use crate::support::key_is;

verus! {

/// Folds the object members into the response fields, left to right:
/// `status` must be an unsigned integer, `request` a string, `errors` an
/// array of strings or null, each seen at most once; members under any other
/// key are ignored. At the end both `status` and `request` must have been
/// seen.
pub open spec fn spec_bind_response(
    ms: Seq<(Seq<char>, SpecJson)>,
    i: int,
    st: Option<u64>,
    rq: Option<Seq<char>>,
    er: Option<Option<Seq<Seq<char>>>>,
) -> Option<(u64, Seq<char>, Option<Seq<Seq<char>>>)>
    decreases ms.len() - i,
{
    if 0 <= i < ms.len() {
        let kv = ms[i];
        if kv.0 == "status"@ {
            if st is Some {
                None
            } else {
                match kv.1 {
                    SpecJson::UInt(n) => spec_bind_response(ms, i + 1, Some(n), rq, er),
                    _ => None,
                }
            }
        } else if kv.0 == "request"@ {
            if rq is Some {
                None
            } else {
                match kv.1 {
                    SpecJson::Str(x) => spec_bind_response(ms, i + 1, st, Some(x), er),
                    _ => None,
                }
            }
        } else if kv.0 == "errors"@ {
            if er is Some {
                None
            } else {
                match kv.1 {
                    SpecJson::StrArr(a) => spec_bind_response(ms, i + 1, st, rq, Some(Some(a))),
                    SpecJson::Null => spec_bind_response(ms, i + 1, st, rq, Some(None)),
                    _ => None,
                }
            }
        } else {
            spec_bind_response(ms, i + 1, st, rq, er)
        }
    } else {
        match (st, rq) {
            (Some(s0), Some(r0)) => Some(
                (
                    s0,
                    r0,
                    match er {
                        Some(e) => e,
                        None => None,
                    },
                ),
            ),
            _ => None,
        }
    }
}

/// What the provider's reply bytes denote: the status, the request
/// identifier, and the optional error list, or nothing where the bytes are
/// not a well-formed reply.
pub open spec fn spec_parse_response(s: Seq<u8>) -> Option<(u64, Seq<char>, Option<Seq<Seq<char>>>)> {
    match spec_parse_document(s) {
        None => None,
        Some(ms) => spec_bind_response(ms, 0, None, None, None),
    }
}

fn clone_string_vec(v: &Vec<String>) -> (r: Vec<String>)
    ensures
        r.deep_view() == v.deep_view(),
{
    let mut r: Vec<String> = Vec::new();
    let mut idx: usize = 0;
    while idx < v.len()
        invariant
            idx <= v@.len(),
            r.deep_view() =~= v.deep_view().take(idx as int),
        decreases v@.len() - idx,
    {
        let ghost before = r.deep_view();
        r.push(v[idx].clone());
        proof {
            assert(r.deep_view() =~= before.push(v@[idx as int]@));
            assert(v.deep_view().take(idx as int + 1) =~= v.deep_view().take(idx as int).push(
                v@[idx as int]@,
            ));
        }
        idx = idx + 1;
    }
    proof {
        assert(r.deep_view() =~= v.deep_view());
    }
    r
}

fn bind_response_rec(
    ms: &Vec<Member>,
    i: usize,
    st: Option<u64>,
    rq: Option<String>,
    er: Option<Option<Vec<String>>>,
) -> (r: Option<Response>)
    requires
        i <= ms@.len(),
    ensures
        match r {
            Some(resp) => spec_bind_response(
                members_view(ms@),
                i as int,
                st,
                rq.deep_view(),
                er.deep_view(),
            ) == Some((resp.status, resp.request@, resp.errors.deep_view())),
            None => spec_bind_response(
                members_view(ms@),
                i as int,
                st,
                rq.deep_view(),
                er.deep_view(),
            ) is None,
        },
    decreases ms@.len() - i,
{
    if i < ms.len() {
        let m = &ms[i];
        if key_is(&m.key, "status") {
            if st.is_some() {
                None
            } else {
                match &m.value {
                    Json::UInt(n) => bind_response_rec(ms, i + 1, Some(*n), rq, er),
                    _ => None,
                }
            }
        } else if key_is(&m.key, "request") {
            if rq.is_some() {
                None
            } else {
                match &m.value {
                    Json::Str(x) => bind_response_rec(ms, i + 1, st, Some(x.clone()), er),
                    _ => None,
                }
            }
        } else if key_is(&m.key, "errors") {
            if er.is_some() {
                None
            } else {
                match &m.value {
                    Json::StrArr(a) => bind_response_rec(
                        ms,
                        i + 1,
                        st,
                        rq,
                        Some(Some(clone_string_vec(a))),
                    ),
                    Json::Null => bind_response_rec(ms, i + 1, st, rq, Some(None)),
                    _ => None,
                }
            }
        } else {
            bind_response_rec(ms, i + 1, st, rq, er)
        }
    } else {
        match (st, rq) {
            (Some(s0), Some(r0)) => Some(
                Response {
                    status: s0,
                    request: r0,
                    errors: match er {
                        Some(e) => e,
                        None => None,
                    },
                },
            ),
            _ => None,
        }
    }
}

/// Parses the provider's JSON reply into a response. Exactly the documents
/// that `spec_parse_response` accepts yield a value, and its fields are
/// exactly what the document said.
pub fn parse_response(body: &Vec<u8>) -> (r: Option<Response>)
    ensures
        match r {
            Some(resp) => spec_parse_response(body@) == Some(
                (resp.status, resp.request@, resp.errors.deep_view()),
            ),
            None => spec_parse_response(body@) is None,
        },
{
    match parse_document(body) {
        None => None,
        Some(ms) => bind_response_rec(&ms, 0, None, None, None),
    }
}

} // verus!
