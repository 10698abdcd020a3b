//! Frames: each message travels as its UTF-8 text followed by one delimiter
//! byte. The delimiter is a control byte that no message text can hold, since
//! JSON text escapes every control character inside its strings.
use vstd::prelude::*;
use vstd::utf8::*;

use crate::json::{escape_char, escape_chars, hex_digits, json_string_literal};
use crate::request::{request_text, Request, RequestView};
use crate::response::{response_text, ResponseType, ResponseView};

verus! {

/// The byte that ends every frame.
pub const DELIMITER: u8 = 1;

/// The frame that carries `text`: its UTF-8 bytes, then the delimiter.
pub open spec fn frame_of(text: Seq<char>) -> Seq<u8> {
    encode_utf8(text) + seq![DELIMITER]
}

/// No character of `s` is the one whose UTF-8 form is the delimiter byte.
pub open spec fn free_of_delimiter(s: Seq<char>) -> bool {
    forall|i: int| 0 <= i < s.len() ==> s[i] != '\u{1}'
}

/// Whether the byte sequence holds no delimiter.
pub open spec fn has_no_delimiter(b: Seq<u8>) -> bool {
    forall|i: int| 0 <= i < b.len() ==> b[i] != DELIMITER
}

/// The frame for `text`.
pub fn frame_text(text: &str) -> (r: Vec<u8>)
    ensures
        r@ == frame_of(text@),
{
    let mut r = vstd::slice::slice_to_vec(text.as_bytes());
    r.push(DELIMITER);
    r
}

/// The frame that carries a request.
pub fn encode_request(r: &Request) -> (f: Vec<u8>)
    ensures
        f@ == frame_of(request_text(r@)),
{
    frame_text(r.to_json().as_str())
}

/// The frame that carries a response.
pub fn encode_response(r: &ResponseType) -> (f: Vec<u8>)
    ensures
        f@ == frame_of(response_text(r@)),
{
    frame_text(r.to_json().as_str())
}

/// Takes the first whole frame off the front of `buf`. When `buf` holds a
/// delimiter, the bytes before the first one are returned and they and the
/// delimiter leave `buf`; otherwise nothing is returned and `buf` stays as it is.
pub fn take_frame(buf: &mut Vec<u8>) -> (r: Option<Vec<u8>>)
    ensures
        r is Some <==> !has_no_delimiter(old(buf)@),
        r is None ==> final(buf)@ == old(buf)@,
        r matches Some(f) ==> {
            &&& old(buf)@ == f@ + seq![DELIMITER] + final(buf)@
            &&& has_no_delimiter(f@)
        },
{
    let mut i: usize = 0;
    while i < buf.len()
        invariant
            i <= buf@.len(),
            buf@ == old(buf)@,
            has_no_delimiter(buf@.subrange(0, i as int)),
        decreases buf@.len() - i,
    {
        if buf[i] == DELIMITER {
            let ghost whole = buf@;
            let mut body = buf.split_off(i);
            core::mem::swap(buf, &mut body);
            let mut tail = buf.split_off(1);
            core::mem::swap(buf, &mut tail);
            assert(body@ == whole.subrange(0, i as int));
            assert(tail@ == seq![DELIMITER]);
            assert(buf@ == whole.subrange(i + 1, whole.len() as int));
            assert(whole == body@ + seq![DELIMITER] + buf@);
            return Some(body);
        }
        assert(buf@.subrange(0, i + 1) == buf@.subrange(0, i as int).push(buf@[i as int]));
        i = i + 1;
    }
    assert(buf@.subrange(0, i as int) == buf@);
    None
}

proof fn lemma_scalar_bytes(v: u32)
    by (bit_vector)
    requires
        v != 1,
    ensures
        has_width_1_encoding(v) ==> leading_byte_width_1(v) != 1,
        leading_byte_width_2(v) != 1,
        leading_byte_width_3(v) != 1,
        leading_byte_width_4(v) != 1,
        last_continuation_byte(v) != 1,
        second_last_continuation_byte(v) != 1,
        third_last_continuation_byte(v) != 1,
{
}

/// Text free of the delimiter character encodes to bytes free of the delimiter.
pub proof fn lemma_utf8_free(s: Seq<char>)
    requires
        free_of_delimiter(s),
    ensures
        has_no_delimiter(encode_utf8(s)),
    decreases s.len(),
{
    if s.len() > 0 {
        let v = s[0] as u32;
        if v == 1 {
            char_u32_cast(s[0], v);
            char_u32_cast('\u{1}', 1);
        }
        lemma_scalar_bytes(v);
        lemma_utf8_free(s.drop_first());
    }
}

proof fn lemma_escape_char_free(c: char)
    ensures
        free_of_delimiter(escape_char(c)),
{
    assert(free_of_delimiter(hex_digits()));
}

proof fn lemma_escape_chars_free(s: Seq<char>)
    ensures
        free_of_delimiter(escape_chars(s)),
    decreases s.len(),
{
    if s.len() > 0 {
        lemma_escape_chars_free(s.drop_last());
        lemma_escape_char_free(s.last());
    }
}

proof fn lemma_literal_free(s: Seq<char>)
    ensures
        free_of_delimiter(json_string_literal(s)),
{
    lemma_escape_chars_free(s);
}

proof fn lemma_concat_free(a: Seq<char>, b: Seq<char>)
    requires
        free_of_delimiter(a),
        free_of_delimiter(b),
    ensures
        free_of_delimiter(a + b),
{
    assert forall|i: int| 0 <= i < (a + b).len() implies (a + b)[i] != '\u{1}' by {
        if i >= a.len() {
            assert((a + b)[i] == b[i - a.len()]);
        }
    }
}

/// The text of every request is free of the delimiter character.
pub proof fn lemma_request_text_free(r: RequestView)
    ensures
        free_of_delimiter(request_text(r)),
{
    reveal_strlit("{\"request_type\":\"store\",\"key\":");
    reveal_strlit("{\"request_type\":\"load\",\"key\":");
    reveal_strlit(",\"hash\":");
    reveal_strlit("}");
    match r {
        RequestView::Store { key, value } => {
            let a = "{\"request_type\":\"store\",\"key\":"@;
            lemma_literal_free(key);
            lemma_literal_free(value);
            lemma_concat_free(a, json_string_literal(key));
            lemma_concat_free(a + json_string_literal(key), ",\"hash\":"@);
            lemma_concat_free(a + json_string_literal(key) + ",\"hash\":"@, json_string_literal(value));
            lemma_concat_free(
                a + json_string_literal(key) + ",\"hash\":"@ + json_string_literal(value),
                "}"@,
            );
        },
        RequestView::Load { key } => {
            let a = "{\"request_type\":\"load\",\"key\":"@;
            lemma_literal_free(key);
            lemma_concat_free(a, json_string_literal(key));
            lemma_concat_free(a + json_string_literal(key), "}"@);
        },
    }
}

/// The text of every response is free of the delimiter character.
pub proof fn lemma_response_text_free(r: ResponseView)
    ensures
        free_of_delimiter(response_text(r)),
{
    reveal_strlit("{\"response_status\":\"success\",\"requested_key\":");
    reveal_strlit(",\"requested_hash\":");
    reveal_strlit("}");
    reveal_strlit("{\"response_status\":\"success\"}");
    reveal_strlit("{\"response_status\":\"key not found\"}");
    reveal_strlit("{\"response_status\":\"error\"}");
    match r {
        ResponseView::SuccessLoad { key, value } => {
            let a = "{\"response_status\":\"success\",\"requested_key\":"@;
            let b = ",\"requested_hash\":"@;
            lemma_literal_free(key);
            lemma_literal_free(value);
            lemma_concat_free(a, json_string_literal(key));
            lemma_concat_free(a + json_string_literal(key), b);
            lemma_concat_free(a + json_string_literal(key) + b, json_string_literal(value));
            lemma_concat_free(a + json_string_literal(key) + b + json_string_literal(value), "}"@);
        },
        _ => {},
    }
}

/// Where a stream holds the bytes `e`, free of the delimiter, then the
/// delimiter, then `rest`, the first delimiter of the stream ends `e`.
proof fn lemma_first_delimiter(e: Seq<u8>, rest: Seq<u8>, body: Seq<u8>, after: Seq<u8>)
    requires
        has_no_delimiter(e),
        has_no_delimiter(body),
        e + seq![DELIMITER] + rest == body + seq![DELIMITER] + after,
    ensures
        body == e,
        after == rest,
{
    let whole = e + seq![DELIMITER] + rest;
    if body.len() < e.len() {
        assert(whole[body.len() as int] == DELIMITER);
        assert(whole[body.len() as int] == e[body.len() as int]);
    } else if body.len() > e.len() {
        assert(whole[e.len() as int] == DELIMITER);
        assert(whole[e.len() as int] == body[e.len() as int]);
    }
    assert(body == whole.subrange(0, e.len() as int));
    assert(e == whole.subrange(0, e.len() as int));
    assert(after == whole.subrange(e.len() as int + 1, whole.len() as int));
    assert(rest == whole.subrange(e.len() as int + 1, whole.len() as int));
}

/// Whatever characters a request's key and value hold, braces and the
/// delimiter character among them, the first frame taken off a stream that
/// starts with the request's frame is exactly the request's text, and the
/// bytes after that frame are left as they were.
pub proof fn lemma_request_frame_splits(r: RequestView, rest: Seq<u8>, body: Seq<u8>, after: Seq<u8>)
    requires
        frame_of(request_text(r)) + rest == body + seq![DELIMITER] + after,
        has_no_delimiter(body),
    ensures
        body == encode_utf8(request_text(r)),
        after == rest,
{
    lemma_request_text_free(r);
    lemma_utf8_free(request_text(r));
    lemma_first_delimiter(encode_utf8(request_text(r)), rest, body, after);
}

/// Whatever characters a response's key and value hold, the first frame taken
/// off a stream that starts with the response's frame is exactly the
/// response's text, and the bytes after that frame are left as they were.
pub proof fn lemma_response_frame_splits(r: ResponseView, rest: Seq<u8>, body: Seq<u8>, after: Seq<u8>)
    requires
        frame_of(response_text(r)) + rest == body + seq![DELIMITER] + after,
        has_no_delimiter(body),
    ensures
        body == encode_utf8(response_text(r)),
        after == rest,
{
    lemma_response_text_free(r);
    lemma_utf8_free(response_text(r));
    lemma_first_delimiter(encode_utf8(response_text(r)), rest, body, after);
}

} // verus!
