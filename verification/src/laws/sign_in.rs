//! Signing in: listeners, redirects, and who gets to see them.

use vstd::prelude::*;
use vstd::string::*;

use crate::dispatcher::{DispatchRecord, DispatchResult};
use crate::internal::oauth::{is_oauth_await, is_oauth_awaited, is_oauth_stop, port_in};
use crate::internal::oauth::{started_json, stopped_json, AwaitOutcome};
use crate::json::json_uint;
use crate::laws::{lemma_no_pair_no_member, lemma_pair_is_member};
use crate::loopback_control::{awaited, is_await, is_loopback_call, is_start_failure, is_stop};
use crate::loopback_control::{started_record, LoopbackMode};
use crate::oauth_loopback::{callback_json, error_page, escaped, is_callback, opt_pair, page_for};
use crate::oauth_loopback::{redirect_from, redirect_of, CallbackOutcome, CallbackQuery};
use crate::oauth_loopback::{ERROR_HTML_HEAD, ERROR_HTML_TAIL, Redirect, SUCCESS_HTML};
use crate::text::{decimal, replaced};
use crate::value::{Json, Value};

verus! {

// ── Redirects ────────────────────────────────────────────────────────────────

/// What a redirect says: its code and its errors where they are not empty, and its
/// state as it is.
pub proof fn lemma_what_a_redirect_says(q: CallbackQuery)
    ensures
        ({
            let r = redirect_from(q);
            &&& (q.code matches Some(c) ==> r.code == (if c@.len() > 0 {
                Some(c@)
            } else {
                None
            }))
            &&& (q.code is None ==> r.code is None)
            &&& (q.state matches Some(s) ==> r.state == Some(s@))
            &&& (q.state is None ==> r.state is None)
            &&& (q.error matches Some(e) ==> r.error == (if e@.len() > 0 {
                Some(e@)
            } else {
                None
            }))
            &&& (q.error is None ==> r.error is None)
            &&& (q.error_description matches Some(e) ==> r.error_description == (if e@.len() > 0 {
                Some(e@)
            } else {
                None
            }))
            &&& (q.error_description is None ==> r.error_description is None)
        }),
{
}

/// A sign-in succeeded if and only if it brought a code and no error.
pub proof fn lemma_when_a_sign_in_succeeded(r: Redirect)
    ensures
        r.succeeded() <==> r.code is Some && r.error is None,
        r.succeeded() ==> page_for(r) == SUCCESS_HTML@,
        !r.succeeded() && r.error_description is Some ==> page_for(r) == error_page(
            r.error_description->0,
        ),
        !r.succeeded() && r.error_description is None && r.error is Some ==> page_for(r)
            == error_page(r.error->0),
{
}

/// A redirect goes to the one who waits for its state, once, and to nobody else; it is
/// answered with a page either way, and one without a state reaches nobody.
pub proof fn lemma_whom_a_redirect_reaches<T>(
    r: CallbackOutcome<T>,
    before: Map<Seq<char>, T>,
    after: Map<Seq<char>, T>,
    q: CallbackQuery,
    other: Seq<char>,
)
    requires
        is_callback(r, before, after, q),
    ensures
        r.status == 200,
        r.result@ == redirect_from(q),
        r.page@ == page_for(redirect_from(q)),
        q.state matches Some(s) ==> s@.len() > 0 ==> {
            &&& (before.contains_key(s@) <==> r.sender is Some)
            &&& (r.sender matches Some(t) ==> t == before[s@])
            &&& !after.contains_key(s@)
            &&& (other != s@ ==> (after.contains_key(other) <==> before.contains_key(other)))
            &&& (other != s@ && before.contains_key(other) ==> after[other] == before[other])
        },
        q.state is None || q.state->0@.len() == 0 ==> r.sender is None && after == before,
{
}

/// What is told of a redirect: everything that it said and nothing that it did not,
/// the state that was waited for, and whether it is a success.
pub proof fn lemma_what_is_told_of_a_redirect(state_value: Seq<char>, r: Redirect)
    ensures
        ({
            let v = callback_json(state_value, r);
            &&& v.get_str("state_value"@) == Some(state_value)
            &&& v.get_str("code"@) == r.code
            &&& v.get_str("state"@) == r.state
            &&& v.get_str("error"@) == r.error
            &&& v.get_str("error_description"@) == r.error_description
            &&& v.get_bool("succeeded"@) == Some(r.code is Some && r.error is None)
        }),
{
    reveal_strlit("state_value");
    reveal_strlit("code");
    reveal_strlit("state");
    reveal_strlit("error");
    reveal_strlit("error_description");
    reveal_strlit("succeeded");
    assert("state_value"@.len() == 11);
    assert("code"@.len() == 4);
    assert("state"@.len() == 5 && "state"@[0] == 's');
    assert("error"@.len() == 5 && "error"@[0] == 'e');
    assert("error_description"@.len() == 17);
    assert("succeeded"@.len() == 9);
    let a = seq![("state_value"@, Json::Str(state_value))];
    let b = a + opt_pair("code"@, r.code);
    let c = b + opt_pair("state"@, r.state);
    let d = c + opt_pair("error"@, r.error);
    let e = d + opt_pair("error_description"@, r.error_description);
    let all = e + seq![("succeeded"@, Json::Bool(r.succeeded()))];
    assert(all[0] == ("state_value"@, Json::Str(state_value)));
    lemma_pair_is_member(all, 0);
    lemma_pair_is_member(all, all.len() - 1);
    match r.code {
        Some(x) => {
            assert(all[a.len() as int] == ("code"@, Json::Str(x)));
            lemma_pair_is_member(all, a.len() as int);
        },
        None => {
            lemma_no_pair_no_member(all, "code"@);
        },
    }
    match r.state {
        Some(x) => {
            assert(all[b.len() as int] == ("state"@, Json::Str(x)));
            lemma_pair_is_member(all, b.len() as int);
        },
        None => {
            lemma_no_pair_no_member(all, "state"@);
        },
    }
    match r.error {
        Some(x) => {
            assert(all[c.len() as int] == ("error"@, Json::Str(x)));
            lemma_pair_is_member(all, c.len() as int);
        },
        None => {
            lemma_no_pair_no_member(all, "error"@);
        },
    }
    match r.error_description {
        Some(x) => {
            assert(all[d.len() as int] == ("error_description"@, Json::Str(x)));
            lemma_pair_is_member(all, d.len() as int);
        },
        None => {
            lemma_no_pair_no_member(all, "error_description"@);
        },
    }
}

/// A provider is told to come back to the callback of this machine, at the port that
/// the listener is on.
pub proof fn lemma_where_providers_come_back_to(port: u16)
    ensures
        redirect_of(port) == "http://127.0.0.1:"@ + decimal(port as nat) + "/callback"@,
{
}

// ── Listeners ────────────────────────────────────────────────────────────────

/// A listener that was started says where it is and what state to send along. It is
/// on the port that was asked for, or on the usual one.
pub proof fn lemma_what_a_listener_says(
    port: u16,
    state_value: Seq<char>,
    started_at: Seq<char>,
    params: Json,
)
    ensures
        ({
            let v = started_json(port, state_value, started_at);
            &&& v.get_bool("started"@) == Some(true)
            &&& v.get("port"@) == Some(Json::UInt(port as u64))
            &&& v.get_str("redirect_uri"@) == Some(redirect_of(port))
            &&& v.get_str("state_value"@) == Some(state_value)
            &&& v.get_str("started_at"@) == Some(started_at)
        }),
        ({
            let d = started_record(port, state_value, started_at);
            &&& d.success
            &&& d.action_name == "oauth-loopback"@
            &&& d.result == started_json(port, state_value, started_at)
        }),
        params.get_u64("port"@) is None ==> port_in(params) == 8765,
        params.get_u64("port"@) matches Some(p) ==> p <= u16::MAX ==> port_in(params) == p,
{
    reveal_strlit("started");
    reveal_strlit("port");
    reveal_strlit("redirect_uri");
    reveal_strlit("state_value");
    reveal_strlit("started_at");
    assert("started"@.len() == 7);
    assert("port"@.len() == 4);
    assert("redirect_uri"@.len() == 12);
    assert("state_value"@.len() == 11);
    assert("started_at"@.len() == 10);
    let pairs = seq![
        ("started"@, Json::Bool(true)),
        ("port"@, json_uint(port as u64)),
        ("redirect_uri"@, Json::Str(redirect_of(port))),
        ("state_value"@, Json::Str(state_value)),
        ("started_at"@, Json::Str(started_at)),
    ];
    lemma_pair_is_member(pairs, 0);
    lemma_pair_is_member(pairs, 1);
    lemma_pair_is_member(pairs, 2);
    lemma_pair_is_member(pairs, 3);
    lemma_pair_is_member(pairs, 4);
}

/// A redirect can be awaited by one at a time, and only where its listener was
/// started and not stopped. To begin to wait changes nothing else.
pub proof fn lemma_one_waits_at_a_time(
    r: Result<(String, Option<u64>), String>,
    params: Json,
    awaitable: Set<Seq<char>>,
    after: Set<Seq<char>>,
    open_states: Set<Seq<char>>,
    open_after: Set<Seq<char>>,
    s: Seq<char>,
    other: Seq<char>,
)
    requires
        is_oauth_await(r, params, awaitable, after, open_states, open_after),
        params.get("state_value"@) == Some(Json::Str(s)),
    ensures
        r is Ok <==> awaitable.contains(s),
        r matches Ok((x, t)) ==> x@ == s && t == params.get_u64("timeout_secs"@),
        !after.contains(s),
        other != s ==> (after.contains(other) <==> awaitable.contains(other)),
        open_after == open_states,
{
}

/// The loopback action begins to wait in the same way, and fails as an action does.
pub proof fn lemma_the_action_waits(
    d: Result<(String, Option<u64>), DispatchResult>,
    params: Json,
    awaitable: Set<Seq<char>>,
    after: Set<Seq<char>>,
    open_states: Set<Seq<char>>,
    open_after: Set<Seq<char>>,
    s: Seq<char>,
    other: Seq<char>,
)
    requires
        is_await(d, params, awaitable, after, open_states, open_after),
        params.get("state_value"@) == Some(Json::Str(s)),
    ensures
        d is Ok <==> awaitable.contains(s),
        d matches Ok((x, t)) ==> x@ == s && t == params.get_u64("timeout_secs"@),
        d matches Err(e) ==> !e@.success && e@.message is Some && e@.action_name
            == "oauth-loopback"@,
        !after.contains(s),
        other != s ==> (after.contains(other) <==> awaitable.contains(other)),
        open_after == open_states,
{
}

/// Without a state value nothing is awaited or stopped.
pub proof fn lemma_listeners_are_named(
    r: Result<(String, Option<u64>), String>,
    d: Result<(bool, Value), String>,
    params: Json,
    awaitable: Set<Seq<char>>,
    after: Set<Seq<char>>,
    open_states: Set<Seq<char>>,
    open_after: Set<Seq<char>>,
)
    requires
        params.get_str("state_value"@) is None,
    ensures
        is_oauth_await(r, params, awaitable, after, open_states, open_after) ==> r is Err && after
            == awaitable && open_after == open_states,
        is_oauth_stop(d, params, awaitable, after, open_states, open_after) ==> d is Err && after
            == awaitable && open_after == open_states,
{
}

/// A wait that timed out can be begun again, and one that ended otherwise cannot;
/// only a redirect that came is a result.
pub proof fn lemma_how_a_wait_ends(
    r: Result<Value, String>,
    s: Seq<char>,
    outcome: AwaitOutcome,
    awaitable: Set<Seq<char>>,
    after: Set<Seq<char>>,
    open_states: Set<Seq<char>>,
    open_after: Set<Seq<char>>,
    other: Seq<char>,
)
    requires
        is_oauth_awaited(r, s, outcome, awaitable, after, open_states, open_after),
        !awaitable.contains(s),
    ensures
        r is Ok <==> outcome is Received,
        r matches Ok(v) ==> v@ == callback_json(s, outcome->Received_0@),
        after.contains(s) <==> outcome is TimedOut,
        other != s ==> (after.contains(other) <==> awaitable.contains(other)),
        open_after == open_states,
{
}

/// A listener that is stopped is neither open nor awaitable any more, and every other
/// is as it was; the answer says whether there was one.
pub proof fn lemma_a_stopped_listener(
    r: Result<(bool, Value), String>,
    params: Json,
    awaitable: Set<Seq<char>>,
    after: Set<Seq<char>>,
    open_states: Set<Seq<char>>,
    open_after: Set<Seq<char>>,
    s: Seq<char>,
    other: Seq<char>,
)
    requires
        is_oauth_stop(r, params, awaitable, after, open_states, open_after),
        params.get("state_value"@) == Some(Json::Str(s)),
    ensures
        r is Ok,
        r->Ok_0.0 == open_states.contains(s),
        r->Ok_0.1@.get_bool("stopped"@) == Some(open_states.contains(s)),
        r->Ok_0.1@.get_str("state_value"@) == Some(s),
        !open_after.contains(s) && !after.contains(s),
        other != s ==> (open_after.contains(other) <==> open_states.contains(other)),
        other != s ==> (after.contains(other) <==> awaitable.contains(other)),
{
    reveal_strlit("stopped");
    reveal_strlit("state_value");
    reveal_strlit("error");
    assert("stopped"@.len() == 7);
    assert("state_value"@.len() == 11);
    assert("error"@.len() == 5);
    let yes = seq![("stopped"@, Json::Bool(true)), ("state_value"@, Json::Str(s))];
    let no = seq![
        ("stopped"@, Json::Bool(false)),
        ("state_value"@, Json::Str(s)),
        ("error"@, Json::Str(crate::internal::oauth::not_registered(s))),
    ];
    lemma_pair_is_member(yes, 0);
    lemma_pair_is_member(yes, 1);
    lemma_pair_is_member(no, 0);
    lemma_pair_is_member(no, 1);
}

/// The loopback action stops a listener in the same way, and is a success if and only
/// if there was one.
pub proof fn lemma_the_action_stops(
    d: Result<(bool, DispatchResult), String>,
    params: Json,
    awaitable: Set<Seq<char>>,
    after: Set<Seq<char>>,
    open_states: Set<Seq<char>>,
    open_after: Set<Seq<char>>,
    s: Seq<char>,
    other: Seq<char>,
)
    requires
        is_stop(d, params, awaitable, after, open_states, open_after),
        params.get("state_value"@) == Some(Json::Str(s)),
    ensures
        d is Ok,
        d->Ok_0.0 == open_states.contains(s),
        d->Ok_0.1@.success == open_states.contains(s),
        d->Ok_0.1@.result == stopped_json(open_states.contains(s), s),
        d->Ok_0.1@.message is Some,
        !open_after.contains(s) && !after.contains(s),
        other != s ==> (open_after.contains(other) <==> open_states.contains(other)),
        other != s ==> (after.contains(other) <==> awaitable.contains(other)),
{
}

// ── The action ───────────────────────────────────────────────────────────────

/// The loopback action is called by its own name alone, and in one of its three
/// modes.
pub proof fn lemma_modes(
    r: Option<Result<LoopbackMode, String>>,
    fn_name: Option<Seq<char>>,
    params: Json,
)
    requires
        is_loopback_call(r, fn_name, params),
    ensures
        r is Some <==> fn_name == Some("oauth-loopback"@),
        r matches Some(x) ==> {
            let m = params.get_str("mode"@);
            &&& (x is Ok <==> m == Some("start"@) || m == Some("await_callback"@) || m == Some(
                "stop"@,
            ))
            &&& (m == Some("start"@) <==> x == Ok::<LoopbackMode, String>(LoopbackMode::Start))
            &&& (m == Some("await_callback"@) <==> x == Ok::<LoopbackMode, String>(
                LoopbackMode::AwaitCallback,
            ))
            &&& (m == Some("stop"@) <==> x == Ok::<LoopbackMode, String>(LoopbackMode::Stop))
        },
{
    reveal_strlit("start");
    reveal_strlit("await_callback");
    reveal_strlit("stop");
    assert("start"@.len() == 5);
    assert("await_callback"@.len() == 14);
    assert("stop"@.len() == 4);
}

/// What a wait comes to as an action: a success if and only if the sign-in was one,
/// and a message in any case but of a redirect that says nothing.
pub proof fn lemma_what_a_wait_comes_to(s: Seq<char>, outcome: AwaitOutcome)
    ensures
        ({
            let d = awaited(s, outcome);
            &&& d.action_name == "oauth-loopback"@
            &&& (d.success <==> outcome is Received && outcome->Received_0@.code is Some
                && outcome->Received_0@.error is None)
            &&& (outcome matches AwaitOutcome::Received(x) ==> d.result == callback_json(s, x@))
            &&& (!(outcome is Received) ==> d.message is Some && d.result.get_str("state_value"@)
                == Some(s) && d.result.get_str("error"@) == d.message)
        }),
{
    reveal_strlit("error");
    reveal_strlit("state_value");
    assert("error"@.len() == 5);
    assert("state_value"@.len() == 11);
    let e = match awaited(s, outcome).message {
        Some(m) => m,
        None => Seq::empty(),
    };
    let pairs = seq![("error"@, Json::Str(e)), ("state_value"@, Json::Str(s))];
    lemma_pair_is_member(pairs, 0);
    lemma_pair_is_member(pairs, 1);
}

/// The page of a failure shows what went wrong as text: each character that would be
/// markup stands as its entity.
pub proof fn lemma_failure_pages(d: Seq<char>)
    ensures
        error_page(d) == ERROR_HTML_HEAD@ + escaped(d) + ERROR_HTML_TAIL@,
        escaped("&"@) == "&amp;"@,
        escaped("<"@) == "&lt;"@,
        escaped(">"@) == "&gt;"@,
        escaped("\""@) == "&quot;"@,
        (forall|i: int|
            0 <= i < d.len() ==> #[trigger] d[i] != '&' && d[i] != '<' && d[i] != '>' && d[i] != '"')
            ==> escaped(d) == d,
{
    reveal_with_fuel(replaced, 8);
    reveal_strlit("&");
    reveal_strlit("&amp;");
    reveal_strlit("<");
    reveal_strlit("&lt;");
    reveal_strlit(">");
    reveal_strlit("&gt;");
    reveal_strlit("\"");
    reveal_strlit("&quot;");
    lemma_one_replaced('&', "&amp;"@);
    lemma_one_replaced('<', "&lt;"@);
    lemma_one_replaced('>', "&gt;"@);
    lemma_one_replaced('"', "&quot;"@);
    assert("&"@ =~= seq!['&']);
    assert("<"@ =~= seq!['<']);
    assert(">"@ =~= seq!['>']);
    assert("\""@ =~= seq!['"']);
    lemma_not_replaced("&amp;"@, '<', "&lt;"@);
    lemma_not_replaced("&amp;"@, '>', "&gt;"@);
    lemma_not_replaced("&amp;"@, '"', "&quot;"@);
    lemma_not_replaced("<"@, '&', "&amp;"@);
    lemma_not_replaced("&lt;"@, '>', "&gt;"@);
    lemma_not_replaced("&lt;"@, '"', "&quot;"@);
    lemma_not_replaced(">"@, '&', "&amp;"@);
    lemma_not_replaced(">"@, '<', "&lt;"@);
    lemma_not_replaced("&gt;"@, '"', "&quot;"@);
    lemma_not_replaced("\""@, '&', "&amp;"@);
    lemma_not_replaced("\""@, '<', "&lt;"@);
    lemma_not_replaced("\""@, '>', "&gt;"@);
    if forall|i: int|
        0 <= i < d.len() ==> #[trigger] d[i] != '&' && d[i] != '<' && d[i] != '>' && d[i] != '"' {
        lemma_not_replaced(d, '&', "&amp;"@);
        lemma_not_replaced(d, '<', "&lt;"@);
        lemma_not_replaced(d, '>', "&gt;"@);
        lemma_not_replaced(d, '"', "&quot;"@);
    }
}

/// A text is shown piece by piece.
pub proof fn lemma_pieces_of_a_failure_page(a: Seq<char>, b: Seq<char>)
    ensures
        escaped(a + b) == escaped(a) + escaped(b),
{
    reveal_strlit("&");
    reveal_strlit("<");
    reveal_strlit(">");
    reveal_strlit("\"");
    assert("&"@ =~= seq!['&']);
    assert("<"@ =~= seq!['<']);
    assert(">"@ =~= seq!['>']);
    assert("\""@ =~= seq!['"']);
    lemma_replaced_apart(a, b, '&', "&amp;"@);
    let (a1, b1) = (replaced(a, "&"@, "&amp;"@), replaced(b, "&"@, "&amp;"@));
    lemma_replaced_apart(a1, b1, '<', "&lt;"@);
    let (a2, b2) = (replaced(a1, "<"@, "&lt;"@), replaced(b1, "<"@, "&lt;"@));
    lemma_replaced_apart(a2, b2, '>', "&gt;"@);
    let (a3, b3) = (replaced(a2, ">"@, "&gt;"@), replaced(b2, ">"@, "&gt;"@));
    lemma_replaced_apart(a3, b3, '"', "&quot;"@);
}

proof fn lemma_replaced_apart(a: Seq<char>, b: Seq<char>, c: char, by: Seq<char>)
    ensures
        replaced(a + b, seq![c], by) == replaced(a, seq![c], by) + replaced(b, seq![c], by),
    decreases a.len(),
{
    let s = a + b;
    if a.len() == 0 {
        assert(s =~= b);
        assert(replaced(a, seq![c], by) =~= Seq::<char>::empty());
        assert(replaced(s, seq![c], by) =~= replaced(a, seq![c], by) + replaced(b, seq![c], by));
    } else {
        lemma_replaced_apart(a.skip(1), b, c, by);
        assert(s.skip(1) =~= a.skip(1) + b);
        assert(seq![c].is_prefix_of(s) <==> s[0] == c) by {
            assert(s.subrange(0, 1) =~= seq![s[0]]);
            assert(seq![c][0] == c && seq![s[0]][0] == s[0]);
        }
        assert(seq![c].is_prefix_of(a) <==> a[0] == c) by {
            assert(a.subrange(0, 1) =~= seq![a[0]]);
            assert(seq![c][0] == c && seq![a[0]][0] == a[0]);
        }
        assert(replaced(s, seq![c], by) =~= replaced(a, seq![c], by) + replaced(b, seq![c], by));
    }
}

proof fn lemma_one_replaced(c: char, by: Seq<char>)
    ensures
        replaced(seq![c], seq![c], by) == by,
{
    reveal_with_fuel(replaced, 2);
    assert(seq![c].is_prefix_of(seq![c])) by {
        assert(seq![c].subrange(0, 1) =~= seq![c]);
    }
    assert(seq![c].skip(1) =~= Seq::<char>::empty());
    assert(by + Seq::<char>::empty() =~= by);
}

proof fn lemma_not_replaced(s: Seq<char>, c: char, by: Seq<char>)
    requires
        forall|i: int| 0 <= i < s.len() ==> #[trigger] s[i] != c,
    ensures
        replaced(s, seq![c], by) == s,
    decreases s.len(),
{
    if s.len() > 0 {
        let r = s.skip(1);
        assert forall|i: int| 0 <= i < r.len() implies #[trigger] r[i] != c by {
            assert(r[i] == s[i + 1]);
        }
        lemma_not_replaced(r, c, by);
        assert(!seq![c].is_prefix_of(s)) by {
            if seq![c].is_prefix_of(s) {
                assert(s.subrange(0, 1)[0] == seq![c][0]);
                assert(s[0] == c);
            }
        }
        assert(seq![s[0]] + r =~= s);
    }
}

/// A listener that could not start is no success, and says why.
pub proof fn lemma_a_listener_that_did_not_start(r: DispatchRecord, error: Seq<char>)
    requires
        is_start_failure(r, error),
    ensures
        !r.success,
        r.message == Some(error),
        r.result.get_bool("started"@) == Some(false),
        r.result.get_str("error"@) == Some(error),
{
    reveal_strlit("started");
    reveal_strlit("error");
    assert("started"@.len() == 7 && "error"@.len() == 5);
    let pairs = seq![("started"@, Json::Bool(false)), ("error"@, Json::Str(error))];
    lemma_pair_is_member(pairs, 0);
    lemma_pair_is_member(pairs, 1);
}

} // verus!
