//! The OAuth sign-in operations: start a listener, await its redirect, stop it.

use vstd::prelude::*;
use vstd::string::*;

use crate::chance::{generate_token, is_token, is_utc_time, now_rfc3339};
use crate::internal::{require_str, required};
use crate::json::{json_uint, object_of, pairs_view};
use crate::oauth_loopback::{address_of, callback_json, callback_value, loopback_address};
use crate::oauth_loopback::{redirect_of, redirect_uri, LoopbackResult, DEFAULT_LOOPBACK_PORT};
use crate::table::Table;
use crate::text::{cat3, cat4, cat5, decimal, print_u64};
use crate::value::{Json, Value};

verus! {

broadcast use crate::value::group_value_views;

/// A value that the provider has to echo: sixteen random bytes in hexadecimal.
pub fn generate_state_value() -> (r: String)
    ensures
        is_token(r@),
{
    generate_token()
}

/// The listeners that are open, and those among them whose redirect nobody has
/// taken yet.
pub struct LoopbackRegistry {
    pub listeners: Table<()>,
    pub inbox: Table<()>,
}

pub open spec fn not_registered(state_value: Seq<char>) -> Seq<char> {
    "no loopback registered for state_value '"@ + state_value + "'"@
}

pub open spec fn stopped_early(state_value: Seq<char>) -> Seq<char> {
    "loopback for state '"@ + state_value + "' was stopped before the callback arrived"@
}

pub(crate) fn not_registered_text(state_value: &str) -> (r: String)
    ensures
        r@ == not_registered(state_value@),
{
    cat3("no loopback registered for state_value '", state_value, "'")
}

pub(crate) fn stopped_early_text(state_value: &str) -> (r: String)
    ensures
        r@ == stopped_early(state_value@),
{
    cat3("loopback for state '", state_value, "' was stopped before the callback arrived")
}

/// The port that a call names.
pub open spec fn port_in(params: Json) -> u16 {
    match params.get_u64("port"@) {
        Some(p) => p as u16,
        None => DEFAULT_LOOPBACK_PORT,
    }
}

/// The port that a call names; of a number that is no port its lowest sixteen
/// bits.
pub fn loopback_port(params: &Value) -> (r: u16)
    ensures
        r == port_in(params@),
{
    match params.get_u64("port") {
        Some(p) => p as u16,
        None => DEFAULT_LOOPBACK_PORT,
    }
}

/// What is said of a listener that cannot be bound.
pub fn bind_failed(port: u16, error: &str) -> (r: String)
    ensures
        r@ == "failed to bind oauth loopback on "@ + address_of(port) + ": "@ + error@,
{
    let a = loopback_address(port);
    cat4("failed to bind oauth loopback on ", a.as_str(), ": ", error)
}

pub open spec fn started_json(port: u16, state_value: Seq<char>, started_at: Seq<char>) -> Json {
    object_of(
        seq![
            ("started"@, Json::Bool(true)),
            ("port"@, json_uint(port as u64)),
            ("redirect_uri"@, Json::Str(redirect_of(port))),
            ("state_value"@, Json::Str(state_value)),
            ("started_at"@, Json::Str(started_at)),
        ],
    )
}

pub(crate) fn started_value(port: u16, state_value: &str, started_at: &str) -> (r: Value)
    ensures
        r@ == started_json(port, state_value@, started_at@),
{
    let uri = redirect_uri(port);
    let pairs: Vec<(&'static str, Value)> = vec![
        ("started", Value::Bool(true)),
        ("port", Value::uint(port as u64)),
        ("redirect_uri", Value::Str(uri)),
        ("state_value", Value::text(state_value)),
        ("started_at", Value::text(started_at)),
    ];
    assert(pairs_view(pairs@) =~= seq![
        ("started"@, Json::Bool(true)),
        ("port"@, json_uint(port as u64)),
        ("redirect_uri"@, Json::Str(redirect_of(port))),
        ("state_value"@, Json::Str(state_value@)),
        ("started_at"@, Json::Str(started_at@)),
    ]);
    Value::object(pairs)
}

/// What stopping a listener answers.
pub open spec fn stopped_json(stopped: bool, state_value: Seq<char>) -> Json {
    if stopped {
        object_of(seq![("stopped"@, Json::Bool(true)), ("state_value"@, Json::Str(state_value))])
    } else {
        object_of(
            seq![
                ("stopped"@, Json::Bool(false)),
                ("state_value"@, Json::Str(state_value)),
                ("error"@, Json::Str(not_registered(state_value))),
            ],
        )
    }
}

pub(crate) fn stopped_value(stopped: bool, state_value: &str) -> (r: Value)
    ensures
        r@ == stopped_json(stopped, state_value@),
{
    if stopped {
        let pairs: Vec<(&'static str, Value)> = vec![
            ("stopped", Value::Bool(true)),
            ("state_value", Value::text(state_value)),
        ];
        assert(pairs_view(pairs@) =~= seq![
            ("stopped"@, Json::Bool(true)),
            ("state_value"@, Json::Str(state_value@)),
        ]);
        Value::object(pairs)
    } else {
        let e = not_registered_text(state_value);
        let pairs: Vec<(&'static str, Value)> = vec![
            ("stopped", Value::Bool(false)),
            ("state_value", Value::text(state_value)),
            ("error", Value::Str(e)),
        ];
        assert(pairs_view(pairs@) =~= seq![
            ("stopped"@, Json::Bool(false)),
            ("state_value"@, Json::Str(state_value@)),
            ("error"@, Json::Str(not_registered(state_value@))),
        ]);
        Value::object(pairs)
    }
}

/// How the wait for a redirect ended.
#[derive(Debug)]
pub enum AwaitOutcome {
    /// The redirect came.
    Received(LoopbackResult),
    /// The listener was stopped before it came.
    Stopped,
    /// It did not come within so many seconds.
    TimedOut(u64),
}

pub open spec fn timed_out(secs: u64, state_value: Seq<char>) -> Seq<char> {
    "oauth callback timed out after "@ + decimal(secs as nat) + "s for state_value '"@
        + state_value
        + "'; the loopback is still running and a later oauth_await call for the same state_value may still succeed"@
}

/// Whether this begins to await a redirect, which takes the listener's inbox.
pub open spec fn is_oauth_await(
    r: Result<(String, Option<u64>), String>,
    params: Json,
    awaitable: Set<Seq<char>>,
    awaitable_after: Set<Seq<char>>,
    open_states: Set<Seq<char>>,
    open_after: Set<Seq<char>>,
) -> bool {
    &&& match required(params, "state_value"@) {
        Err(e) => r is Err && r->Err_0@ == e && awaitable_after == awaitable,
        Ok(s) => if awaitable.contains(s) {
            &&& r is Ok
            &&& r->Ok_0.0@ == s
            &&& r->Ok_0.1 == params.get_u64("timeout_secs"@)
            &&& awaitable_after == awaitable.remove(s)
        } else {
            r is Err && r->Err_0@ == not_registered(s) && awaitable_after == awaitable
        },
    }
    &&& open_after == open_states
}

/// Whether this ends the wait for a redirect; one that timed out may be begun again.
pub open spec fn is_oauth_awaited(
    r: Result<Value, String>,
    state_value: Seq<char>,
    outcome: AwaitOutcome,
    awaitable: Set<Seq<char>>,
    awaitable_after: Set<Seq<char>>,
    open_states: Set<Seq<char>>,
    open_after: Set<Seq<char>>,
) -> bool {
    &&& match outcome {
        AwaitOutcome::Received(x) => r is Ok && r->Ok_0@ == callback_json(
            state_value,
            x@,
        ),
        AwaitOutcome::Stopped => r is Err && r->Err_0@ == stopped_early(state_value),
        AwaitOutcome::TimedOut(secs) => r is Err && r->Err_0@ == timed_out(
            secs,
            state_value,
        ),
    }
    &&& awaitable_after == (if outcome is TimedOut {
        awaitable.insert(state_value)
    } else {
        awaitable
    })
    &&& open_after == open_states
}

/// Whether this stops a listener.
pub open spec fn is_oauth_stop(
    r: Result<(bool, Value), String>,
    params: Json,
    awaitable: Set<Seq<char>>,
    awaitable_after: Set<Seq<char>>,
    open_states: Set<Seq<char>>,
    open_after: Set<Seq<char>>,
) -> bool {
    match required(params, "state_value"@) {
        Err(e) => r is Err && r->Err_0@ == e && open_after == open_states && awaitable_after == awaitable,
        Ok(s) => {
            &&& r is Ok
            &&& r->Ok_0.0 == open_states.contains(s)
            &&& r->Ok_0.1@ == stopped_json(open_states.contains(s), s)
            &&& open_after == open_states.remove(s)
            &&& awaitable_after == awaitable.remove(s)
        },
    }
}

impl LoopbackRegistry {
    /// The state values of the listeners that are open.
    pub open spec fn open_states(&self) -> Set<Seq<char>> {
        self.listeners@.dom()
    }

    /// The state values whose redirect can be awaited.
    pub open spec fn awaitable(&self) -> Set<Seq<char>> {
        self.inbox@.dom()
    }

    pub fn new() -> (r: LoopbackRegistry)
        ensures
            r.open_states() == Set::<Seq<char>>::empty(),
            r.awaitable() == Set::<Seq<char>>::empty(),
    {
        let r = LoopbackRegistry { listeners: Table::new(), inbox: Table::new() };
        assert(r.open_states() =~= Set::<Seq<char>>::empty());
        assert(r.awaitable() =~= Set::<Seq<char>>::empty());
        r
    }

    /// Note that a listener is open under a state value.
    pub fn opened(&mut self, state_value: &str)
        ensures
            final(self).open_states() == old(self).open_states().insert(state_value@),
            final(self).awaitable() == old(self).awaitable().insert(state_value@),
    {
        let ghost l = self.listeners@;
        let ghost i = self.inbox@;
        self.inbox.insert(state_value, ());
        self.listeners.insert(state_value, ());
        assert(self.listeners@.dom() =~= l.dom().insert(state_value@));
        assert(self.inbox@.dom() =~= i.dom().insert(state_value@));
    }

    /// Take the right to the redirect of a state value. Says whether there was
    /// one to take.
    pub fn take(&mut self, state_value: &str) -> (r: bool)
        ensures
            r == old(self).awaitable().contains(state_value@),
            final(self).awaitable() == old(self).awaitable().remove(state_value@),
            final(self).open_states() == old(self).open_states(),
    {
        let ghost i = self.inbox@;
        let r = self.inbox.remove(state_value).is_some();
        assert(self.inbox@.dom() =~= i.dom().remove(state_value@));
        r
    }

    /// Give the right to a redirect back.
    pub fn put_back(&mut self, state_value: &str)
        ensures
            final(self).awaitable() == old(self).awaitable().insert(state_value@),
            final(self).open_states() == old(self).open_states(),
    {
        let ghost i = self.inbox@;
        self.inbox.insert(state_value, ());
        assert(self.inbox@.dom() =~= i.dom().insert(state_value@));
    }

    /// Forget a listener and its redirect. Says whether it was open.
    pub fn closed(&mut self, state_value: &str) -> (r: bool)
        ensures
            r == old(self).open_states().contains(state_value@),
            final(self).open_states() == old(self).open_states().remove(state_value@),
            final(self).awaitable() == old(self).awaitable().remove(state_value@),
    {
        let ghost l = self.listeners@;
        let ghost i = self.inbox@;
        let r = self.listeners.remove(state_value).is_some();
        let _ = self.inbox.remove(state_value);
        assert(self.listeners@.dom() =~= l.dom().remove(state_value@));
        assert(self.inbox@.dom() =~= i.dom().remove(state_value@));
        r
    }

    /// Note that a listener was bound, and answer with how to reach it, under a
    /// fresh state value.
    pub fn oauth_start(&mut self, port: u16) -> (r: (String, Value))
        ensures
            is_token(r.0@),
            exists|started_at: Seq<char>|
                is_utc_time(started_at) && r.1@ == #[trigger] started_json(port, r.0@, started_at),
            final(self).open_states() == old(self).open_states().insert(r.0@),
            final(self).awaitable() == old(self).awaitable().insert(r.0@),
    {
        let state_value = generate_state_value();
        let started_at = now_rfc3339();
        let v = self.oauth_started(port, state_value.as_str(), started_at.as_str());
        assert(v@ == started_json(port, state_value@, started_at@));
        (state_value, v)
    }

    /// Note that a listener was bound under the given state value, and answer
    /// with how to reach it.
    pub fn oauth_started(&mut self, port: u16, state_value: &str, started_at: &str) -> (r: Value)
        ensures
            r@ == started_json(port, state_value@, started_at@),
            final(self).open_states() == old(self).open_states().insert(state_value@),
            final(self).awaitable() == old(self).awaitable().insert(state_value@),
    {
        self.opened(state_value);
        started_value(port, state_value, started_at)
    }

    /// Begin to await the redirect of a state value: hands out the state value
    /// and the time limit.
    pub fn oauth_await(&mut self, params: &Value) -> (r: Result<(String, Option<u64>), String>)
        ensures
            is_oauth_await(
                r,
                params@,
                old(self).awaitable(),
                final(self).awaitable(),
                old(self).open_states(),
                final(self).open_states(),
            ),
    {
        let state_value = match require_str(params, "state_value") {
            Ok(s) => s,
            Err(e) => {
                return Err(e);
            },
        };
        let ghost before = self.awaitable();
        if self.take(state_value) {
            Ok((state_value.to_owned(), params.get_u64("timeout_secs")))
        } else {
            assert(self.awaitable() =~= before);
            Err(not_registered_text(state_value))
        }
    }

    /// What the end of the wait comes to. Where the time ran out the redirect
    /// can still be awaited later.
    pub fn oauth_awaited(&mut self, state_value: &str, outcome: AwaitOutcome) -> (r: Result<
        Value,
        String,
    >)
        ensures
            is_oauth_awaited(
                r,
                state_value@,
                outcome,
                old(self).awaitable(),
                final(self).awaitable(),
                old(self).open_states(),
                final(self).open_states(),
            ),
    {
        match outcome {
            AwaitOutcome::Received(x) => Ok(callback_value(state_value, &x)),
            AwaitOutcome::Stopped => Err(stopped_early_text(state_value)),
            AwaitOutcome::TimedOut(secs) => {
                self.put_back(state_value);
                let d = print_u64(secs);
                Err(
                    cat5(
                        "oauth callback timed out after ",
                        d.as_str(),
                        "s for state_value '",
                        state_value,
                        "'; the loopback is still running and a later oauth_await call for the same state_value may still succeed",
                    ),
                )
            },
        }
    }

    /// Stop a listener. Says whether there is one to shut down, and the answer.
    pub fn oauth_stop(&mut self, params: &Value) -> (r: Result<(bool, Value), String>)
        ensures
            is_oauth_stop(
                r,
                params@,
                old(self).awaitable(),
                final(self).awaitable(),
                old(self).open_states(),
                final(self).open_states(),
            ),
    {
        let state_value = match require_str(params, "state_value") {
            Ok(s) => s,
            Err(e) => {
                return Err(e);
            },
        };
        let stopped = self.closed(state_value);
        Ok((stopped, stopped_value(stopped, state_value)))
    }
}

/// A wait that ran out of time leaves the redirect to a later one, and nothing
/// can be awaited once a listener was stopped.
pub proof fn lemma_awaitable_until_stopped(awaitable: Set<Seq<char>>, s: Seq<char>)
    requires
        awaitable.contains(s),
    ensures
        awaitable.remove(s).insert(s) == awaitable,
        !awaitable.remove(s).contains(s),
{
    assert(awaitable.remove(s).insert(s) =~= awaitable);
}

} // verus!
