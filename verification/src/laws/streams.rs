//! Requests and streams: what is asked, what an answer shows, and what a reader of a
//! stream gets to see.

use vstd::prelude::*;
use vstd::string::*;
use vstd::utf8::{decode_utf8, encode_utf8, valid_utf8};

use crate::encoding::{base64_decoded, base64_encoded, content_of, encoded_bytes};
use crate::execution::pair_texts;
use crate::internal::http::{header_fault, headers_fault, is_fetched, is_header_value, is_http_plan};
use crate::internal::http::{is_http_token, is_token_char, request_body, request_method};
use crate::internal::http::{response_json, text_pairs, HttpPlan};
use crate::internal::http_stream::{chunk_of, chunks_from, cursor_in, idle, is_stream_close};
use crate::internal::http_stream::{is_stream_poll, is_stream_start, is_stream_step, lines_of};
use crate::internal::http_stream::{poll_json, PollStep, StreamEvent, StreamState};
use crate::json::{json_opt_str, json_uint, object_of};
use crate::laws::lemma_pair_is_member;
use crate::laws::outbound::lemma_string_members;
use crate::text::{is_blank, opt_string, upper};
use crate::value::{Json, Value};

verus! {

// ── Requests ─────────────────────────────────────────────────────────────────

/// Content is its text in UTF-8 unless it is said to be base64, and any other
/// encoding is refused.
pub proof fn lemma_encodings(
    content: Seq<char>,
    encoding: Seq<char>,
    bad: Seq<char>,
    unknown: Seq<char>,
)
    ensures
        encoded_bytes(content, "utf8"@, bad, unknown) == Ok::<Seq<u8>, Seq<char>>(
            encode_utf8(content),
        ),
        encoded_bytes(content, "base64"@, bad, unknown) is Ok <==> base64_decoded(content) is Ok,
        base64_decoded(content) matches Ok(b) ==> encoded_bytes(content, "base64"@, bad, unknown)
            == Ok::<Seq<u8>, Seq<char>>(b),
        encoding != "utf8"@ && encoding != "base64"@ ==> encoded_bytes(
            content,
            encoding,
            bad,
            unknown,
        ) is Err,
{
    reveal_strlit("utf8");
    reveal_strlit("base64");
    assert("utf8"@.len() == 4);
    assert("base64"@.len() == 6);
}

/// Bytes are shown as text where they are UTF-8, else in base64, and the encoding
/// says which.
pub proof fn lemma_how_bytes_are_shown(b: Seq<u8>)
    ensures
        valid_utf8(b) ==> content_of(b) == (decode_utf8(b), "utf8"@),
        !valid_utf8(b) ==> content_of(b) == (base64_encoded(b), "base64"@),
{
}

proof fn lemma_headers_fault(m: Seq<(Seq<char>, Json)>, n: nat)
    requires
        n <= m.len(),
    ensures
        headers_fault(m, n) is None <==> forall|i: int|
            0 <= i < n ==> header_fault((#[trigger] m[i]).0, m[i].1) is None,
    decreases n,
{
    if n > 0 {
        lemma_headers_fault(m, (n - 1) as nat);
    }
}

/// Whether a header can be sent: its value is a string without control characters
/// but tabs, and its name is a token.
pub open spec fn can_be_sent(name: Seq<char>, v: Json) -> bool {
    &&& v matches Json::Str(s)
    &&& (forall|i: int|
        0 <= i < s.len() ==> (#[trigger] s[i] == '\t' || s[i] >= ' ' && s[i] != '\u{7f}'))
    &&& 0 < name.len() <= 65535
    &&& (forall|i: int| 0 <= i < name.len() ==> is_token_char(#[trigger] name[i]))
}

/// A request is planned if and only if it names a URL, may take some time, its body
/// decodes, its method is a token and each of its headers can be sent.
pub proof fn lemma_what_can_be_requested(
    r: Result<HttpPlan, String>,
    params: Json,
    headers: Seq<(Seq<char>, Json)>,
)
    requires
        is_http_plan(r, params),
        params.get("headers"@) == Some(Json::Object(headers)),
    ensures
        r is Ok <==> {
            &&& params.get_str("url"@) is Some
            &&& params.get_u64("timeout_secs"@) != Some(0u64)
            &&& request_body(params) is Ok
            &&& is_http_token(request_method(params))
            &&& forall|i: int|
                0 <= i < headers.len() ==> can_be_sent((#[trigger] headers[i]).0, headers[i].1)
        },
{
    lemma_headers_fault(headers, headers.len());
    assert forall|i: int| 0 <= i < headers.len() implies (can_be_sent(
        (#[trigger] headers[i]).0,
        headers[i].1,
    ) <==> header_fault(headers[i].0, headers[i].1) is None) by {
        if let Json::Str(s) = headers[i].1 {
            assert(is_header_value(s) <==> forall|k: int|
                0 <= k < s.len() ==> (#[trigger] s[k] == '\t' || s[k] >= ' ' && s[k]
                    != '\u{7f}'));
        }
    }
}

/// A planned request goes to the URL as it was given, by the given method in
/// capitals or by `GET`, for the given time or for half a minute, with every header
/// and with the body, if there is one.
pub proof fn lemma_a_planned_request(
    r: Result<HttpPlan, String>,
    params: Json,
    headers: Seq<(Seq<char>, Json)>,
    i: int,
)
    requires
        is_http_plan(r, params),
        r is Ok,
        params.get("headers"@) == Some(Json::Object(headers)),
        0 <= i < headers.len(),
    ensures
        ({
            let p = r->Ok_0;
            &&& params.get_str("url"@) == Some(p.url@)
            &&& (params.get_str("method"@) matches Some(m) ==> p.method@ == upper(m))
            &&& (params.get_str("method"@) is None ==> p.method@ == "GET"@)
            &&& (params.get_u64("timeout_secs"@) matches Some(t) ==> p.timeout_secs == t)
            &&& (params.get_u64("timeout_secs"@) is None ==> p.timeout_secs == 30)
            &&& (headers[i].1 matches Json::Str(s) && pair_texts(p.headers@).contains(
                (headers[i].0, s),
            ))
            &&& (params.get_str("body"@) is None ==> p.body is None)
            &&& (params.get_str("body"@) matches Some(s) ==> p.body is Some)
            &&& (params.get_str("body"@) is Some && params.get_str("body_encoding"@) is None
                ==> p.body->0@ == encode_utf8(params.get_str("body"@)->0))
        }),
{
    reveal_strlit("GET");
    assert(upper("GET"@) =~= "GET"@);
    lemma_headers_fault(headers, headers.len());
    assert(header_fault(headers[i].0, headers[i].1) is None);
    if let Json::Str(s) = headers[i].1 {
        lemma_string_members(headers, headers.len(), headers[i].0, s);
        assert(headers[i] == (headers[i].0, Json::Str(s)));
    }
}

/// A request without headers is planned without any, and headers that are no object
/// are refused.
pub proof fn lemma_requests_without_headers(r: Result<HttpPlan, String>, params: Json)
    requires
        is_http_plan(r, params),
    ensures
        params.get("headers"@) is None ==> (r matches Ok(p) ==> p.headers@.len() == 0),
        params.get("headers"@) matches Some(h) ==> !(h is Object) ==> r is Err,
{
    if r is Ok && params.get("headers"@) is None {
        assert(pair_texts(r->Ok_0.headers@).len() == r->Ok_0.headers@.len());
    }
}

/// An answer shows its status, where it came from, its headers, and its body in the
/// encoding that it names.
pub proof fn lemma_what_an_answer_shows(
    status: u16,
    url: Seq<char>,
    content_type: Option<Seq<char>>,
    headers: Seq<(String, String)>,
    body: Seq<u8>,
    i: int,
)
    requires
        0 <= i < headers.len(),
        forall|j: int| i < j < headers.len() ==> (#[trigger] headers[j]).0@ != headers[i].0@,
    ensures
        ({
            let v = response_json(status, url, content_type, headers, body);
            &&& v.get("status"@) == Some(Json::UInt(status as u64))
            &&& v.get_str("url"@) == Some(url)
            &&& v.get("content_type"@) == Some(
                match content_type {
                    Some(t) => Json::Str(t),
                    None => Json::Null,
                },
            )
            &&& v.field("headers"@).get_str(headers[i].0@) == Some(headers[i].1@)
            &&& (valid_utf8(body) ==> v.get_str("body"@) == Some(decode_utf8(body)) && v.get_str(
                "body_encoding"@,
            ) == Some("utf8"@))
            &&& (!valid_utf8(body) ==> v.get_str("body"@) == Some(base64_encoded(body))
                && v.get_str("body_encoding"@) == Some("base64"@))
        }),
{
    reveal_strlit("status");
    reveal_strlit("url");
    reveal_strlit("content_type");
    reveal_strlit("headers");
    reveal_strlit("body");
    reveal_strlit("body_encoding");
    assert("status"@.len() == 6);
    assert("url"@.len() == 3);
    assert("content_type"@.len() == 12);
    assert("headers"@.len() == 7);
    assert("body"@.len() == 4);
    assert("body_encoding"@.len() == 13);
    let pairs = seq![
        ("status"@, json_uint(status as u64)),
        ("url"@, Json::Str(url)),
        ("content_type"@, json_opt_str(content_type)),
        ("headers"@, object_of(text_pairs(headers))),
        ("body"@, Json::Str(content_of(body).0)),
        ("body_encoding"@, Json::Str(content_of(body).1)),
    ];
    lemma_pair_is_member(pairs, 0);
    lemma_pair_is_member(pairs, 1);
    lemma_pair_is_member(pairs, 2);
    lemma_pair_is_member(pairs, 3);
    lemma_pair_is_member(pairs, 4);
    lemma_pair_is_member(pairs, 5);
    let h = text_pairs(headers);
    assert forall|j: int| i < j < h.len() implies (#[trigger] h[j]).0 != h[i].0 by {
        assert(headers[j].0@ != headers[i].0@);
    }
    lemma_pair_is_member(h, i);
}

/// A page is what was fetched, if it was; any other answer is an error.
pub proof fn lemma_fetched_pages(
    r: Result<Value, String>,
    success: bool,
    status: Seq<char>,
    text: Seq<char>,
)
    requires
        is_fetched(r, success, status, text),
    ensures
        r is Ok <==> success,
        r matches Ok(v) ==> v@.get_str("html"@) == Some(text),
{
    lemma_pair_is_member(seq![("html"@, Json::Str(text))], 0);
}

// ── Lines ────────────────────────────────────────────────────────────────────

/// A body is cut at its line ends: each line is what stands between two, without
/// them, and what stands behind the last one is kept back.
pub proof fn lemma_lines(a: Seq<u8>, b: Seq<u8>)
    requires
        forall|i: int| 0 <= i < a.len() ==> #[trigger] a[i] != 10,
    ensures
        lines_of(a) == (Seq::<Seq<u8>>::empty(), a),
        lines_of(a.push(10) + b) == (seq![a] + lines_of(b).0, lines_of(b).1),
    decreases a.len() + b.len(),
{
    if b.len() > 0 {
        lemma_lines(a, b.drop_last());
        let s = a.push(10) + b;
        assert(s.drop_last() =~= a.push(10) + b.drop_last());
        assert(s.last() == b.last());
        let (lines, rest) = lines_of(b.drop_last());
        assert((seq![a] + lines).push(rest) =~= seq![a] + lines.push(rest));
    } else {
        if a.len() > 0 {
            let r = a.drop_last();
            assert forall|i: int| 0 <= i < r.len() implies #[trigger] r[i] != 10 by {
                assert(r[i] == a[i]);
            }
            lemma_lines(r, b);
            assert(a[a.len() - 1] != 10);
            assert(r.push(a.last()) =~= a);
        } else {
            assert(a =~= Seq::<u8>::empty());
        }
        let s = a.push(10) + b;
        assert(s =~= a.push(10));
        assert(s.drop_last() =~= a);
        assert(s.last() == 10);
        assert(Seq::<Seq<u8>>::empty().push(a) =~= seq![a] + Seq::<Seq<u8>>::empty());
    }
}

/// What a line comes to: nothing where it is blank, its JSON where it parses, else
/// its text, and base64 where it is no text.
pub proof fn lemma_chunks(line: Seq<u8>, parsed: Option<Json>)
    ensures
        chunk_of(line, parsed) is None <==> line.len() == 0 || (valid_utf8(line) && is_blank(
            decode_utf8(line),
        )),
        line.len() > 0 && !valid_utf8(line) ==> chunk_of(line, parsed)->0.get_str("raw_base64"@)
            == Some(base64_encoded(line)),
        line.len() > 0 && valid_utf8(line) && !is_blank(decode_utf8(line)) ==> {
            &&& (parsed matches Some(v) ==> chunk_of(line, parsed) == Some(v))
            &&& (parsed is None ==> chunk_of(line, parsed)->0.get_str("raw"@) == Some(
                decode_utf8(line),
            ))
        },
{
    lemma_pair_is_member(seq![("raw_base64"@, Json::Str(base64_encoded(line)))], 0);
    lemma_pair_is_member(seq![("raw"@, Json::Str(decode_utf8(line)))], 0);
}

// ── Streams ──────────────────────────────────────────────────────────────────

/// A stream that was started is open, empty and under its own identifier, and no
/// other stream is touched.
pub proof fn lemma_a_started_stream(
    r: Json,
    before: Map<Seq<char>, StreamState>,
    after: Map<Seq<char>, StreamState>,
    id: Seq<char>,
    status: u16,
    now: u128,
    other: Seq<char>,
)
    requires
        is_stream_start(r, before, after, id, status, now),
    ensures
        r.get_str("stream_id"@) == Some(id),
        r.get("status"@) == Some(Json::UInt(status as u64)),
        after.contains_key(id),
        !after[id].done,
        after[id].error is None,
        after[id].chunks@.len() == 0,
        after[id].base_index == 0,
        after[id].dropped == 0,
        after[id].pending@.len() == 0,
        after[id].last_polled == now,
        other != id ==> (after.contains_key(other) <==> before.contains_key(other)),
        other != id && before.contains_key(other) ==> after[other] == before[other],
{
    reveal_strlit("stream_id");
    reveal_strlit("status");
    assert("stream_id"@.len() == 9);
    assert("status"@.len() == 6);
    let pairs = seq![("stream_id"@, Json::Str(id)), ("status"@, json_uint(status as u64))];
    lemma_pair_is_member(pairs, 0);
    lemma_pair_is_member(pairs, 1);
    let s = after[id];
    assert(s.buffer().chunks.len() == s.chunks@.len());
    assert(s.buffer().base == s.base_index);
    assert(s.buffer().dropped == s.dropped);
}

/// A cursor that is missing or negative is at the beginning.
pub proof fn lemma_cursors(params: Json)
    ensures
        params.get_i64("cursor"@) is None ==> cursor_in(params) == 0,
        params.get_i64("cursor"@) matches Some(c) ==> cursor_in(params) == (if c < 0 {
            0
        } else {
            c as int
        }),
{
}

/// A poll shows what is there from its cursor on, where the next one goes on, and
/// how the stream stands.
pub proof fn lemma_what_a_poll_shows(s: StreamState, cursor: int)
    requires
        s.end() <= u64::MAX,
    ensures
        ({
            let v = poll_json(s, cursor);
            &&& v.get("next_cursor"@) == Some(
                Json::UInt((s.base_index + s.chunks@.len()) as u64),
            )
            &&& v.get_bool("done"@) == Some(s.done)
            &&& v.get("dropped"@) == Some(Json::UInt(s.dropped))
            &&& v.get("status"@) == Some(
                match s.status {
                    Some(n) => Json::UInt(n as u64),
                    None => Json::Null,
                },
            )
            &&& v.get("error"@) == Some(
                match s.error {
                    Some(e) => Json::Str(e@),
                    None => Json::Null,
                },
            )
            &&& v.get("chunks"@) == Some(Json::Array(chunks_from(s.buffer(), cursor)))
        }),
        cursor <= s.base_index ==> chunks_from(s.buffer(), cursor).len() == s.chunks@.len(),
        s.base_index <= cursor <= s.end() ==> chunks_from(s.buffer(), cursor).len() == s.end()
            - cursor,
        cursor >= s.end() && s.end() > s.base_index ==> chunks_from(s.buffer(), cursor).len() == 0,
        forall|i: int|
            0 <= i < chunks_from(s.buffer(), cursor).len() && cursor >= s.base_index
                ==> #[trigger] chunks_from(s.buffer(), cursor)[i] == s.chunks@[cursor - s.base_index
                + i]@,
{
    reveal_strlit("chunks");
    reveal_strlit("next_cursor");
    reveal_strlit("done");
    reveal_strlit("dropped");
    reveal_strlit("status");
    reveal_strlit("error");
    assert("chunks"@.len() == 6 && "chunks"@[0] == 'c');
    assert("next_cursor"@.len() == 11);
    assert("done"@.len() == 4);
    assert("dropped"@.len() == 7);
    assert("status"@.len() == 6 && "status"@[0] == 's');
    assert("error"@.len() == 5);
    let pairs = seq![
        ("chunks"@, Json::Array(chunks_from(s.buffer(), cursor))),
        ("next_cursor"@, json_uint(s.end() as u64)),
        ("done"@, Json::Bool(s.done)),
        ("dropped"@, json_uint(s.dropped)),
        (
            "status"@,
            match s.status {
                Some(n) => json_uint(n as u64),
                None => Json::Null,
            },
        ),
        ("error"@, json_opt_str(opt_string(s.error))),
    ];
    lemma_pair_is_member(pairs, 0);
    lemma_pair_is_member(pairs, 1);
    lemma_pair_is_member(pairs, 2);
    lemma_pair_is_member(pairs, 3);
    lemma_pair_is_member(pairs, 4);
    lemma_pair_is_member(pairs, 5);
}

/// A poll answers at once where there is something to show or nothing to wait for:
/// where chunks are there, the stream has ended, or the wait is over. It marks the
/// stream as polled and touches no other; and a stream that is not there is an error.
pub proof fn lemma_a_stream_poll(
    r: Result<PollStep, String>,
    before: Map<Seq<char>, StreamState>,
    after: Map<Seq<char>, StreamState>,
    params: Json,
    now: u128,
    waited_ms: u64,
    id: Seq<char>,
    other: Seq<char>,
)
    requires
        is_stream_poll(r, before, after, params, now, waited_ms),
        params.get("stream_id"@) == Some(Json::Str(id)),
    ensures
        r is Ok <==> before.contains_key(id),
        r is Err ==> after == before,
        other != id ==> (after.contains_key(other) <==> before.contains_key(other)),
        other != id && before.contains_key(other) ==> after[other] == before[other],
        before.contains_key(id) ==> {
            let s = before[id];
            let wait = params.get_u64("wait_secs"@);
            &&& after.contains_key(id)
            &&& after[id].last_polled == now
            &&& after[id].chunks == s.chunks
            &&& after[id].base_index == s.base_index
            &&& after[id].done == s.done
            &&& after[id].error == s.error
            &&& after[id].pending == s.pending
            &&& (s.done ==> r matches Ok(PollStep::Reply(_)))
            &&& (wait is None ==> r matches Ok(PollStep::Reply(_)))
            &&& (waited_ms >= 60_000 ==> r matches Ok(PollStep::Reply(_)))
            &&& (cursor_in(params) < s.end() && s.chunks@.len() > 0 ==> r matches Ok(
                PollStep::Reply(_),
            ))
            &&& (r matches Ok(PollStep::Wait(ms)) ==> 0 < ms <= 250 && !s.done && wait is Some
                && waited_ms + ms <= wait->0 * 1000)
        },
{
    if before.contains_key(id) {
        let s = before[id];
        assert(s.buffer().chunks.len() == s.chunks@.len());
    }
}

/// A closed stream is gone and every other is there; closing one that is not there is
/// no error and says so.
pub proof fn lemma_a_closed_stream(
    r: Result<(bool, Value), String>,
    before: Map<Seq<char>, StreamState>,
    after: Map<Seq<char>, StreamState>,
    params: Json,
    id: Seq<char>,
    other: Seq<char>,
)
    requires
        is_stream_close(r, before, after, params),
        params.get("stream_id"@) == Some(Json::Str(id)),
    ensures
        r is Ok,
        r->Ok_0.0 == before.contains_key(id),
        r->Ok_0.1@.get_bool("closed"@) == Some(before.contains_key(id)),
        r->Ok_0.1@.get_str("stream_id"@) == Some(id),
        !after.contains_key(id),
        other != id ==> (after.contains_key(other) <==> before.contains_key(other)),
        other != id && before.contains_key(other) ==> after[other] == before[other],
{
    reveal_strlit("closed");
    reveal_strlit("stream_id");
    assert("closed"@.len() == 6);
    assert("stream_id"@.len() == 9);
    let pairs = seq![
        ("closed"@, Json::Bool(before.contains_key(id))),
        ("stream_id"@, Json::Str(id)),
    ];
    lemma_pair_is_member(pairs, 0);
    lemma_pair_is_member(pairs, 1);
}

/// A stream ends when its body does, when that cannot be read further, or when nobody
/// reads the stream, and with an error in the last two; while nothing happens it is
/// left as it is.
pub proof fn lemma_how_a_stream_ends<F: Fn(&str) -> Option<Value>>(
    r: bool,
    before: StreamState,
    after: StreamState,
    event: StreamEvent,
    max: int,
    parse: F,
)
    requires
        is_stream_step(r, before, after, event, max, parse),
    ensures
        r <==> !(event is Quiet || event is Bytes),
        r ==> after.done,
        event is Quiet ==> after == before,
        event is Bytes ==> after.done == before.done && after.error == before.error,
        event is Ended ==> after.error is None,
        event is Failed || event is Idle ==> after.error is Some,
        event is Idle ==> after.pending == before.pending && after.buffer() == before.buffer(),
        event is Failed || event is Ended ==> after.pending@.len() == 0,
        after.status == before.status,
        after.last_polled == before.last_polled,
{
}

/// A stream is idle once it has gone without a poll for longer than it may, to the
/// nanosecond.
pub proof fn lemma_idle_streams(last_polled: u128, now: u128, secs: u64)
    ensures
        now <= last_polled ==> !idle(last_polled, now, secs),
        now == last_polled + secs * 1_000_000_000 ==> !idle(last_polled, now, secs),
        now == last_polled + secs * 1_000_000_000 + 1 ==> idle(last_polled, now, secs),
        forall|later: u128|
            later >= now && idle(last_polled, now, secs) ==> #[trigger] idle(
                last_polled,
                later,
                secs,
            ),
{
}

/// What a token is made of: letters, digits and some marks; no space, no separator, no
/// control character, and nothing beyond ASCII.
pub proof fn lemma_token_chars(c: char)
    ensures
        'a' <= c <= 'z' || 'A' <= c <= 'Z' || '0' <= c <= '9' ==> is_token_char(c),
        c == '-' || c == '_' || c == '.' || c == '!' || c == '~' ==> is_token_char(c),
        c <= ' ' || c > '~' ==> !is_token_char(c),
        c == ':' || c == '/' || c == '(' || c == ')' || c == '<' || c == '>' || c == '@' || c == ','
            || c == ';' || c == '"' || c == '[' || c == ']' || c == '?' || c == '=' || c == '{' || c
            == '}' || c == '\\' ==> !is_token_char(c),
{
}

} // verus!
