//! Custom component actions: what a guest is run with, what its end comes to,
//! and what it is answered when it runs another action.

use vstd::prelude::*;
use vstd::string::*;

use std::collections::HashMap;
use std::hash::{Hash, Hasher};

use crate::entities::{ActionExecResult, ExecRecord};
use crate::error::{Failure, SolxError};
use crate::execution::DEFAULT_TIMEOUT_SECS;
use crate::json::{json_text, to_text};
use crate::text::{cat2, cat4, cat5, debug_opt, decimal, may_call, opt_string, opt_text, print_u64, quoted_opt};
use crate::value::{opt_value, Json, Value};

verus! {

broadcast use crate::value::group_value_views;

// ── The component cache ──────────────────────────────────────────────────────

/// The hash of an artifact's bytes, by `std::collections::hash_map::DefaultHasher`.
/// Equal bytes have equal hashes within one build of a program. The algorithm is
/// std's own business and differs between releases and machines, so nothing is
/// said of the number.
#[verifier::external_body]
fn cache_key(bytes: &[u8]) -> (r: u64) {
    let mut h = std::collections::hash_map::DefaultHasher::new();
    bytes.hash(&mut h);
    h.finish()
}

/// The compiled components, each under the hash of its artifact.
pub struct ComponentCache<C> {
    entries: HashMap<u64, C>,
}

impl<C> ComponentCache<C> {
    pub closed spec fn view(&self) -> Map<u64, C> {
        self.entries@
    }

    pub fn new() -> (r: ComponentCache<C>)
        ensures
            r@ == Map::<u64, C>::empty(),
    {
        ComponentCache { entries: HashMap::new() }
    }

    /// The component under a key.
    pub fn get(&self, key: u64) -> (r: Option<&C>)
        ensures
            match r {
                Some(c) => self@.contains_key(key) && *c == self@[key],
                None => !self@.contains_key(key),
            },
    {
        broadcast use vstd::std_specs::hash::group_hash_axioms;

        self.entries.get(&key)
    }

    /// Look an artifact up: its key, and the component where it was compiled
    /// before.
    pub fn lookup(&self, bytes: &[u8]) -> (r: (u64, Option<&C>))
        ensures
            match r.1 {
                Some(c) => self@.contains_key(r.0) && *c == self@[r.0],
                None => !self@.contains_key(r.0),
            },
    {
        let key = cache_key(bytes);
        (key, self.get(key))
    }

    /// Keep a component under its key; the last one kept counts.
    pub fn keep(&mut self, key: u64, component: C)
        ensures
            final(self)@ == old(self)@.insert(key, component),
    {
        broadcast use vstd::std_specs::hash::group_hash_axioms;

        self.entries.insert(key, component);
    }
}

/// What is said where compiling a component ended the task.
pub fn compile_panicked(error: &str) -> (r: SolxError)
    ensures
        r@ == Failure::Exec("component compile task panicked: "@ + error@),
{
    SolxError::Exec(cat2("component compile task panicked: ", error))
}

/// What is said of an artifact that is no component.
pub fn invalid_component(error: &str) -> (r: SolxError)
    ensures
        r@ == Failure::Exec("invalid WASM component: "@ + error@),
{
    SolxError::Exec(cat2("invalid WASM component: ", error))
}

/// What is said where a component cannot be brought to run: `step` is what
/// failed.
pub fn link_failed(step: &str, error: &str) -> (r: SolxError)
    ensures
        r@ == Failure::Exec("failed to "@ + step@ + ": "@ + error@),
{
    SolxError::Exec(cat4("failed to ", step, ": ", error))
}

// ── Running a guest ──────────────────────────────────────────────────────────

/// What a guest is run with.
#[derive(Debug)]
pub struct GuestRun {
    pub fn_name: Option<String>,
    pub params_json: String,
    pub budget_secs: u64,
}

/// Whether this is what a component is run with.
pub open spec fn is_guest_run(
    r: GuestRun,
    fn_name: Option<Seq<char>>,
    params: Json,
    timeout_secs: Option<u64>,
) -> bool {
    &&& opt_string(r.fn_name) == fn_name
    &&& r.params_json@ == json_text(params)
    &&& r.budget_secs == (match timeout_secs {
        Some(s) => s,
        None => DEFAULT_TIMEOUT_SECS,
    })
}

/// What a guest is run with: the entry point, the parameters as JSON text, and
/// the time that it has with everything that it runs in turn.
pub fn guest_run(fn_name: Option<&str>, params: &Value, timeout_secs: Option<u64>) -> (r: GuestRun)
    ensures
        is_guest_run(r, opt_text(fn_name), params@, timeout_secs),
{
    GuestRun {
        fn_name: match fn_name {
            Some(f) => Some(f.to_owned()),
            None => None,
        },
        params_json: to_text(params),
        budget_secs: match timeout_secs {
            Some(s) => s,
            None => DEFAULT_TIMEOUT_SECS,
        },
    }
}

/// How the run of a guest ended.
#[derive(Debug)]
pub enum GuestEnd {
    /// It returned a report.
    Returned { success: bool, message: Option<String>, output: Option<String> },
    /// It returned an error.
    Refused(String),
    /// It trapped.
    Trapped(String),
    /// It ran out of time.
    TimedOut,
    /// The host panicked under it, with a message where there is one.
    Panicked(Option<String>),
}

/// The JSON that the output of a guest holds; null where it holds none.
pub open spec fn output_json(parsed: Option<Json>) -> Json {
    match parsed {
        Some(v) => v,
        None => Json::Null,
    }
}

pub open spec fn guest_record(
    action_ref: Seq<char>,
    result: Json,
    success: bool,
    message: Option<Seq<char>>,
) -> ExecRecord {
    ExecRecord { action: action_ref, result, success, message }
}

pub open spec fn guest_timed_out(secs: u64, fn_name: Option<Seq<char>>) -> Seq<char> {
    "wasm action timed out after "@ + decimal(secs as nat) + "s (fn_name="@ + debug_opt(fn_name)
        + ")"@
}

/// Whether a result is what the end of a guest comes to, with what its output
/// parses to.
pub open spec fn is_guest_result(
    r: Result<ActionExecResult, SolxError>,
    action_ref: Seq<char>,
    run: GuestRun,
    end: GuestEnd,
    parsed: Option<Json>,
) -> bool {
    match end {
        GuestEnd::Returned { success, message, output } => r is Ok && r->Ok_0@ == guest_record(
            action_ref,
            output_json(parsed),
            success,
            opt_string(message),
        ),
        GuestEnd::Refused(e) => r is Ok && r->Ok_0@ == guest_record(
            action_ref,
            Json::Null,
            false,
            Some(e@),
        ),
        GuestEnd::Trapped(e) => r is Ok && r->Ok_0@ == guest_record(
            action_ref,
            Json::Null,
            false,
            Some(e@),
        ),
        GuestEnd::TimedOut => r is Ok && r->Ok_0@ == guest_record(
            action_ref,
            Json::Null,
            false,
            Some(guest_timed_out(run.budget_secs, opt_string(run.fn_name))),
        ),
        GuestEnd::Panicked(m) => r is Err && r->Err_0@ == Failure::Exec(
            "panic in WASM execution (fn_name="@ + debug_opt(opt_string(run.fn_name)) + "): "@
                + (match m {
                Some(s) => s@,
                None => "unknown panic in WASM execution"@,
            }),
        ),
    }
}

fn failed(action_ref: &str, message: String) -> (r: Result<ActionExecResult, SolxError>)
    ensures
        r is Ok,
        r->Ok_0@ == guest_record(action_ref@, Json::Null, false, Some(message@)),
{
    Ok(
        ActionExecResult {
            action: action_ref.to_owned(),
            result: Value::Null,
            success: false,
            message: Some(message),
        },
    )
}

/// What the end of a guest comes to. `parse` reads JSON text; it is asked about
/// the output that a guest returns.
pub fn exec<F: FnOnce(&str) -> Option<Value>>(
    action_ref: &str,
    run: &GuestRun,
    end: GuestEnd,
    parse: F,
) -> (r: Result<ActionExecResult, SolxError>)
    requires
        end matches GuestEnd::Returned { success: _, message: _, output: Some(text) } ==> may_call(
            parse,
            text@,
        ),
    ensures
        match end {
            GuestEnd::Returned { success: _, message: _, output: Some(text) } => exists|
                s: &str,
                o: Option<Value>,
            |
                s@ == text@ && #[trigger] call_ensures(parse, (s,), o) && is_guest_result(
                    r,
                    action_ref@,
                    *run,
                    end,
                    opt_value(o),
                ),
            _ => is_guest_result(r, action_ref@, *run, end, None),
        },
{
    match end {
        GuestEnd::Returned { success, message, output } => {
            let result = match &output {
                Some(text) => {
                    let t: &str = text.as_str();
                    let o = parse(t);
                    assert(call_ensures(parse, (t,), o));
                    match o {
                        Some(v) => v,
                        None => Value::Null,
                    }
                },
                None => Value::Null,
            };
            Ok(ActionExecResult { action: action_ref.to_owned(), result, success, message })
        },
        GuestEnd::Refused(e) => failed(action_ref, e),
        GuestEnd::Trapped(e) => failed(action_ref, e),
        GuestEnd::TimedOut => {
            let d = print_u64(run.budget_secs);
            let f = quoted_opt(
                match &run.fn_name {
                    Some(s) => Some(s.as_str()),
                    None => None,
                },
            );
            failed(
                action_ref,
                cat5("wasm action timed out after ", d.as_str(), "s (fn_name=", f.as_str(), ")"),
            )
        },
        GuestEnd::Panicked(m) => {
            let f = quoted_opt(
                match &run.fn_name {
                    Some(s) => Some(s.as_str()),
                    None => None,
                },
            );
            let text: &str = match &m {
                Some(s) => s.as_str(),
                None => "unknown panic in WASM execution",
            };
            Err(
                SolxError::Exec(
                    cat4("panic in WASM execution (fn_name=", f.as_str(), "): ", text),
                ),
            )
        },
    }
}

// ── What a guest is answered ─────────────────────────────────────────────────

/// What a guest that ran another action is answered.
#[derive(Debug)]
pub struct GuestResult {
    pub success: bool,
    pub message: Option<String>,
    pub output: Option<String>,
}

/// The report of an action to the guest that ran it, its result as JSON text.
pub fn guest_reply(result: ActionExecResult) -> (r: GuestResult)
    ensures
        r.success == result.success,
        opt_string(r.message) == opt_string(result.message),
        opt_string(r.output) == Some(json_text(result.result@)),
{
    let output = to_text(&result.result);
    GuestResult { success: result.success, message: result.message, output: Some(output) }
}

/// The parameters that a guest hands to an action. `parse` reads JSON text.
pub fn guest_params<F: FnOnce(&str) -> Result<Value, String>>(payload: &str, parse: F) -> (r: Result<
    Value,
    String,
>)
    requires
        may_call(parse, payload@),
    ensures
        exists|s: &str, o: Result<Value, String>|
            s@ == payload@ && #[trigger] call_ensures(parse, (s,), o) && (match o {
                Ok(v) => r is Ok && r->Ok_0@ == v@,
                Err(e) => r is Err && r->Err_0@ == "invalid params: "@ + e@,
            }),
{
    match parse(payload) {
        Ok(v) => Ok(v),
        Err(e) => Err(cat2("invalid params: ", e.as_str())),
    }
}

} // verus!
