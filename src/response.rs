//! Responses: the four answers the server gives, the record a client reads off
//! the wire, and their JSON text.
use vstd::prelude::*;
use vstd::string::StringExecFns;

use crate::json::{
    json_object_members, json_string_literal, member_from, members_view, opt_view, parse_object,
    quote, string_member, string_member_of,
};

verus! {

/// The server's answer to one request.
#[derive(Clone, Debug, PartialEq, Eq)]
pub enum ResponseType {
    /// The value was stored.
    SuccessStore,
    /// The value `value` was found under `key`.
    SuccessLoad { key: String, value: String },
    /// Nothing is stored under the requested key.
    KeyNotFound,
    /// The request could not be read.
    Error,
}

/// The mathematical value of a [`ResponseType`].
pub ghost enum ResponseView {
    SuccessStore,
    SuccessLoad { key: Seq<char>, value: Seq<char> },
    KeyNotFound,
    Error,
}

impl View for ResponseType {
    type V = ResponseView;

    open spec fn view(&self) -> ResponseView {
        match self {
            ResponseType::SuccessStore => ResponseView::SuccessStore,
            ResponseType::SuccessLoad { key, value } => ResponseView::SuccessLoad { key: key@, value: value@ },
            ResponseType::KeyNotFound => ResponseView::KeyNotFound,
            ResponseType::Error => ResponseView::Error,
        }
    }
}

/// A response as its JSON object holds it: the status, and the requested key
/// and value where the object has them.
#[derive(Clone, Debug)]
pub struct Response {
    pub response_status: String,
    pub requested_key: Option<String>,
    pub requested_hash: Option<String>,
}

/// The mathematical value of a [`Response`]: status, key, value.
pub type RecordView = (Seq<char>, Option<Seq<char>>, Option<Seq<char>>);

impl View for Response {
    type V = RecordView;

    open spec fn view(&self) -> RecordView {
        (self.response_status@, opt_view(self.requested_key), opt_view(self.requested_hash))
    }
}

/// The status word that a response's text carries.
pub open spec fn status_of(r: ResponseView) -> Seq<char> {
    match r {
        ResponseView::SuccessStore => "success"@,
        ResponseView::SuccessLoad { .. } => "success"@,
        ResponseView::KeyNotFound => "key not found"@,
        ResponseView::Error => "error"@,
    }
}

/// The record of a response: its status, with key and value for a found value.
pub open spec fn record_of(r: ResponseView) -> RecordView {
    match r {
        ResponseView::SuccessLoad { key, value } => (status_of(r), Some(key), Some(value)),
        _ => (status_of(r), None, None),
    }
}

/// The compact JSON text of a response, members in the order
/// `response_status`, `requested_key`, `requested_hash`.
pub open spec fn response_text(r: ResponseView) -> Seq<char> {
    match r {
        ResponseView::SuccessLoad { key, value } => "{\"response_status\":\"success\",\"requested_key\":"@
            + json_string_literal(key) + ",\"requested_hash\":"@ + json_string_literal(value) + "}"@,
        ResponseView::SuccessStore => "{\"response_status\":\"success\"}"@,
        ResponseView::KeyNotFound => "{\"response_status\":\"key not found\"}"@,
        ResponseView::Error => "{\"response_status\":\"error\"}"@,
    }
}

/// The record that an object with these members holds: `response_status` must
/// be a string; `requested_key` and `requested_hash` are kept when they are
/// strings. Other members are ignored.
pub open spec fn record_of_members(m: Seq<(Seq<char>, Option<Seq<char>>)>) -> Option<RecordView> {
    match string_member(m, "response_status"@) {
        Some(status) => Some((status, string_member(m, "requested_key"@), string_member(m, "requested_hash"@))),
        None => None,
    }
}

/// The response that a record stands for: `success` with both key and value
/// is a found value, `success` with neither a completed store; `key not found`
/// and `error` stand for themselves. Anything else is no response.
pub open spec fn response_of_record(v: RecordView) -> Option<ResponseView> {
    if v.0 == "success"@ {
        match (v.1, v.2) {
            (Some(key), Some(value)) => Some(ResponseView::SuccessLoad { key, value }),
            (None, None) => Some(ResponseView::SuccessStore),
            _ => None,
        }
    } else if v.0 == "key not found"@ {
        Some(ResponseView::KeyNotFound)
    } else if v.0 == "error"@ {
        Some(ResponseView::Error)
    } else {
        None
    }
}

/// The members that the JSON text of a response holds, in order.
pub open spec fn members_of_response(r: ResponseView) -> Seq<(Seq<char>, Option<Seq<char>>)> {
    match r {
        ResponseView::SuccessLoad { key, value } => seq![
            ("response_status"@, Some("success"@)),
            ("requested_key"@, Some(key)),
            ("requested_hash"@, Some(value)),
        ],
        _ => seq![("response_status"@, Some(status_of(r)))],
    }
}

/// The record that the text of a frame holds, if any.
pub open spec fn decode_record(text: Seq<u8>) -> Option<RecordView> {
    match json_object_members(text) {
        Some(m) => record_of_members(m),
        None => None,
    }
}

/// The response that the text of a frame stands for, if any.
pub open spec fn decode_response(text: Seq<u8>) -> Option<ResponseView> {
    match decode_record(text) {
        Some(v) => response_of_record(v),
        None => None,
    }
}

fn clone_opt(s: &Option<String>) -> (r: Option<String>)
    ensures
        opt_view(r) == opt_view(*s),
{
    match s {
        Some(t) => Some(t.clone()),
        None => None,
    }
}

impl Response {
    /// Whether the status is `success`.
    pub fn is_ok(&self) -> (r: bool)
        ensures
            r == (self.response_status@ == "success"@),
    {
        self.response_status == String::from_str("success")
    }

    /// Whether the status is `key not found`.
    pub fn not_found(&self) -> (r: bool)
        ensures
            r == (self.response_status@ == "key not found"@),
    {
        self.response_status == String::from_str("key not found")
    }

    /// The record that an object with these members holds, if any.
    pub fn from_members(members: &Vec<(String, Option<String>)>) -> (r: Option<Response>)
        ensures
            r matches Some(v) ==> record_of_members(members_view(members@)) == Some(v@),
            r is None ==> record_of_members(members_view(members@)) is None,
    {
        match string_member_of(members, &String::from_str("response_status")) {
            Some(status) => Some(Response {
                response_status: status,
                requested_key: string_member_of(members, &String::from_str("requested_key")),
                requested_hash: string_member_of(members, &String::from_str("requested_hash")),
            }),
            None => None,
        }
    }

    /// Reads the record from the text of one frame.
    pub fn decode(text: &[u8]) -> (r: Option<Response>)
        ensures
            r matches Some(v) ==> decode_record(text@) == Some(v@),
            r is None ==> decode_record(text@) is None,
    {
        match parse_object(text) {
            Some(members) => Response::from_members(&members),
            None => None,
        }
    }
}

impl ResponseType {
    /// The status word of this response.
    pub fn status(&self) -> (r: String)
        ensures
            r@ == status_of(self@),
    {
        match self {
            ResponseType::SuccessStore => String::from_str("success"),
            ResponseType::SuccessLoad { .. } => String::from_str("success"),
            ResponseType::KeyNotFound => String::from_str("key not found"),
            ResponseType::Error => String::from_str("error"),
        }
    }

    /// The record of this response.
    pub fn to_response(&self) -> (r: Response)
        ensures
            r@ == record_of(self@),
    {
        match self {
            ResponseType::SuccessLoad { key, value } => Response {
                response_status: self.status(),
                requested_key: Some(key.clone()),
                requested_hash: Some(value.clone()),
            },
            _ => Response { response_status: self.status(), requested_key: None, requested_hash: None },
        }
    }

    /// The response that a record stands for, if any.
    pub fn from_response(v: &Response) -> (r: Option<ResponseType>)
        ensures
            r matches Some(t) ==> response_of_record(v@) == Some(t@),
            r is None ==> response_of_record(v@) is None,
    {
        if v.is_ok() {
            match (&v.requested_key, &v.requested_hash) {
                (Some(key), Some(value)) => Some(ResponseType::SuccessLoad { key: key.clone(), value: value.clone() }),
                (None, None) => Some(ResponseType::SuccessStore),
                _ => None,
            }
        } else if v.not_found() {
            Some(ResponseType::KeyNotFound)
        } else if v.response_status == String::from_str("error") {
            Some(ResponseType::Error)
        } else {
            None
        }
    }

    /// The compact JSON text of this response.
    pub fn to_json(&self) -> (r: String)
        ensures
            r@ == response_text(self@),
    {
        match self {
            ResponseType::SuccessLoad { key, value } => {
                let mut t = String::from_str("{\"response_status\":\"success\",\"requested_key\":");
                t.append(quote(key.as_str()).as_str());
                t.append(",\"requested_hash\":");
                t.append(quote(value.as_str()).as_str());
                t.append("}");
                t
            },
            ResponseType::SuccessStore => String::from_str("{\"response_status\":\"success\"}"),
            ResponseType::KeyNotFound => String::from_str("{\"response_status\":\"key not found\"}"),
            ResponseType::Error => String::from_str("{\"response_status\":\"error\"}"),
        }
    }

    /// Reads a response from the text of one frame.
    pub fn decode(text: &[u8]) -> (r: Option<ResponseType>)
        ensures
            r matches Some(t) ==> decode_response(text@) == Some(t@),
            r is None ==> decode_response(text@) is None,
    {
        match Response::decode(text) {
            Some(v) => ResponseType::from_response(&v),
            None => None,
        }
    }
}

/// Reading back the members that a response's text holds gives the response again.
pub proof fn lemma_response_members_round_trip(r: ResponseView)
    ensures
        record_of_members(members_of_response(r)) == Some(record_of(r)),
        response_of_record(record_of(r)) == Some(r),
{
    reveal_strlit("response_status");
    reveal_strlit("requested_key");
    reveal_strlit("requested_hash");
    reveal_strlit("success");
    reveal_strlit("key not found");
    reveal_strlit("error");
    let m = members_of_response(r);
    assert("response_status"@ != "requested_key"@ && "response_status"@ != "requested_hash"@) by {
        assert("response_status"@.len() != "requested_key"@.len());
        assert("response_status"@.len() != "requested_hash"@.len());
    }
    assert("requested_key"@ != "requested_hash"@) by {
        assert("requested_key"@[10] != "requested_hash"@[10]);
    }
    assert("success"@ != "key not found"@ && "success"@ != "error"@ && "key not found"@ != "error"@) by {
        assert("success"@.len() != "key not found"@.len());
        assert("success"@.len() != "error"@.len());
        assert("key not found"@.len() != "error"@.len());
    }
    assert(string_member(m, "response_status"@) == m[0].1);
    match r {
        ResponseView::SuccessLoad { key, value } => {
            assert(member_from(m, "requested_key"@, 1) == m[1].1);
            assert(member_from(m, "requested_hash"@, 2) == m[2].1);
            assert(member_from(m, "requested_hash"@, 1) == m[2].1);
        },
        _ => {
            assert(member_from(m, "requested_key"@, 1) is None);
            assert(member_from(m, "requested_hash"@, 1) is None);
        },
    }
}

} // verus!
