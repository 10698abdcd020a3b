//! Requests: the two operations a client can ask for, their JSON text, and the
//! rules by which the members of a received object make a request.
use vstd::prelude::*;
use vstd::string::StringExecFns;

use crate::json::{
    json_object_members, json_string_literal, member_from, members_view, parse_object, quote,
    string_member, string_member_of,
};

verus! {

/// What a client asks of the server.
#[derive(Clone, Debug, PartialEq, Eq)]
pub enum Request {
    /// Store `value` under `key`, replacing what was there.
    Store { key: String, value: String },
    /// Fetch the value stored under `key`.
    Load { key: String },
}

/// The mathematical value of a [`Request`].
pub ghost enum RequestView {
    Store { key: Seq<char>, value: Seq<char> },
    Load { key: Seq<char> },
}

impl View for Request {
    type V = RequestView;

    open spec fn view(&self) -> RequestView {
        match self {
            Request::Store { key, value } => RequestView::Store { key: key@, value: value@ },
            Request::Load { key } => RequestView::Load { key: key@ },
        }
    }
}

/// The compact JSON text of a request, members in the order
/// `request_type`, `key`, `hash`.
pub open spec fn request_text(r: RequestView) -> Seq<char> {
    match r {
        RequestView::Store { key, value } => "{\"request_type\":\"store\",\"key\":"@ + json_string_literal(key)
            + ",\"hash\":"@ + json_string_literal(value) + "}"@,
        RequestView::Load { key } => "{\"request_type\":\"load\",\"key\":"@ + json_string_literal(key) + "}"@,
    }
}

/// The request that an object with these members stands for: `request_type`
/// must be the string `store` or `load`; `store` needs the string members `key`
/// and `hash`, `load` needs `key`. Other members are ignored. Anything else is
/// no request.
pub open spec fn request_of_members(m: Seq<(Seq<char>, Option<Seq<char>>)>) -> Option<RequestView> {
    match string_member(m, "request_type"@) {
        Some(t) => if t == "store"@ {
            match (string_member(m, "key"@), string_member(m, "hash"@)) {
                (Some(key), Some(value)) => Some(RequestView::Store { key, value }),
                _ => None,
            }
        } else if t == "load"@ {
            match string_member(m, "key"@) {
                Some(key) => Some(RequestView::Load { key }),
                None => None,
            }
        } else {
            None
        },
        None => None,
    }
}

/// The members that the JSON text of a request holds, in order.
pub open spec fn members_of_request(r: RequestView) -> Seq<(Seq<char>, Option<Seq<char>>)> {
    match r {
        RequestView::Store { key, value } => seq![
            ("request_type"@, Some("store"@)),
            ("key"@, Some(key)),
            ("hash"@, Some(value)),
        ],
        RequestView::Load { key } => seq![("request_type"@, Some("load"@)), ("key"@, Some(key))],
    }
}

impl Request {
    /// A request to store `value` under `key`.
    pub fn new_store(key: &String, value: &String) -> (r: Request)
        ensures
            r@ == (RequestView::Store { key: key@, value: value@ }),
    {
        Request::Store { key: key.clone(), value: value.clone() }
    }

    /// A request to load the value under `key`.
    pub fn new_load(key: &String) -> (r: Request)
        ensures
            r@ == (RequestView::Load { key: key@ }),
    {
        Request::Load { key: key.clone() }
    }

    /// The compact JSON text of this request.
    pub fn to_json(&self) -> (r: String)
        ensures
            r@ == request_text(self@),
    {
        match self {
            Request::Store { key, value } => {
                let mut t = String::from_str("{\"request_type\":\"store\",\"key\":");
                t.append(quote(key.as_str()).as_str());
                t.append(",\"hash\":");
                t.append(quote(value.as_str()).as_str());
                t.append("}");
                t
            },
            Request::Load { key } => {
                let mut t = String::from_str("{\"request_type\":\"load\",\"key\":");
                t.append(quote(key.as_str()).as_str());
                t.append("}");
                t
            },
        }
    }

    /// The request that an object with these members stands for, if any.
    pub fn from_members(members: &Vec<(String, Option<String>)>) -> (r: Option<Request>)
        ensures
            r matches Some(q) ==> request_of_members(members_view(members@)) == Some(q@),
            r is None ==> request_of_members(members_view(members@)) is None,
    {
        let kind = string_member_of(members, &String::from_str("request_type"));
        let key = string_member_of(members, &String::from_str("key"));
        match kind {
            Some(t) => {
                if t == String::from_str("store") {
                    let value = string_member_of(members, &String::from_str("hash"));
                    match (key, value) {
                        (Some(key), Some(value)) => Some(Request::Store { key, value }),
                        _ => None,
                    }
                } else if t == String::from_str("load") {
                    match key {
                        Some(key) => Some(Request::Load { key }),
                        None => None,
                    }
                } else {
                    None
                }
            },
            None => None,
        }
    }

    /// Reads a request from the text of one frame.
    pub fn decode(text: &[u8]) -> (r: Option<Request>)
        ensures
            r matches Some(q) ==> decode_request(text@) == Some(q@),
            r is None ==> decode_request(text@) is None,
    {
        match parse_object(text) {
            Some(members) => Request::from_members(&members),
            None => None,
        }
    }
}

/// The request that the text of a frame stands for, if any.
pub open spec fn decode_request(text: Seq<u8>) -> Option<RequestView> {
    match json_object_members(text) {
        Some(m) => request_of_members(m),
        None => None,
    }
}

/// Reading back the members that a request's text holds gives the request again.
pub proof fn lemma_request_members_round_trip(r: RequestView)
    ensures
        request_of_members(members_of_request(r)) == Some(r),
{
    reveal_strlit("request_type");
    reveal_strlit("key");
    reveal_strlit("hash");
    reveal_strlit("store");
    reveal_strlit("load");
    let m = members_of_request(r);
    assert("request_type"@ != "key"@ && "request_type"@ != "hash"@ && "key"@ != "hash"@) by {
        assert("request_type"@.len() != "key"@.len());
        assert("request_type"@.len() != "hash"@.len());
        assert("key"@[0] != "hash"@[0]);
    }
    assert("store"@ != "load"@) by {
        assert("store"@.len() != "load"@.len());
    }
    assert(string_member(m, "request_type"@) == m[0].1);
    assert(member_from(m, "key"@, 1) == m[1].1);
    match r {
        RequestView::Store { key, value } => {
            assert(member_from(m, "hash"@, 2) == m[2].1);
            assert(member_from(m, "hash"@, 1) == m[2].1);
        },
        RequestView::Load { .. } => {},
    }
}

} // verus!
