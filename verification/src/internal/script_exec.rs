//! Running a script that a call brings along, without saving it first.

use vstd::prelude::*;
use vstd::string::*;

use crate::caller::{frame_of, Caller, CallerFrame};
use crate::chance::is_uuid;
use crate::execution::DEFAULT_TIMEOUT_SECS;
use crate::internal::{require_str, required};
use crate::manager::caller_frame;
use crate::value::{members, Json, Value};

verus! {

broadcast use crate::value::group_value_views;

/// Whom a script runs as that no action called.
pub const ANON_CALLER_REF: &'static str = "/builtin/script/exec";

/// A script to run.
#[derive(Debug)]
pub struct ScriptRun {
    pub source: String,
    /// What the script finds in its variable `params`.
    pub params: Value,
    pub budget_secs: u64,
    /// Whom the stages of the script run as.
    pub caller: Caller,
}

/// Whether this is the script that some parameters run, and whom it runs as.
pub open spec fn is_script_run(
    r: Result<ScriptRun, String>,
    params: Json,
    caller: Option<CallerFrame>,
) -> bool {
    match required(params, "script"@) {
        Err(e) => r is Err && r->Err_0@ == e,
        Ok(source) => {
            &&& r is Ok
            &&& r->Ok_0.source@ == source
            &&& r->Ok_0.params@ == (match params.get("params"@) {
                Some(p) => p,
                None => Json::Object(Seq::empty()),
            })
            &&& r->Ok_0.budget_secs == (match params.get_u64("timeout_secs"@) {
                Some(s) => s,
                None => DEFAULT_TIMEOUT_SECS,
            })
            &&& (match caller {
                Some(c) => r->Ok_0.caller@ == c,
                None => is_uuid(r->Ok_0.caller@.invocation_id) && r->Ok_0.caller@ == frame_of(
                    ANON_CALLER_REF@,
                    None,
                    r->Ok_0.caller@.invocation_id,
                ),
            })
        },
    }
}

/// What a call asks to be run. The stages run as the calling action, and so
/// reach its secrets; without one they run as nobody, who has none.
pub fn script_run(params: &Value, caller: Option<&Caller>) -> (r: Result<ScriptRun, String>)
    ensures
        is_script_run(r, params@, caller_frame(caller)),
{
    let source = match require_str(params, "script") {
        Ok(s) => s,
        Err(e) => {
            return Err(e);
        },
    };
    let inner = match params.get("params") {
        Some(p) => p.clone(),
        None => {
            let none: Vec<(String, Value)> = Vec::new();
            assert(members(none@) =~= Seq::<(Seq<char>, Json)>::empty());
            Value::Object(none)
        },
    };
    let budget_secs: u64 = match params.get_u64("timeout_secs") {
        Some(s) => s,
        None => DEFAULT_TIMEOUT_SECS,
    };
    let who = match caller {
        Some(c) => c.copy(),
        None => Caller::from_action(ANON_CALLER_REF, None),
    };
    Ok(ScriptRun { source: source.to_owned(), params: inner, budget_secs, caller: who })
}

/// What is said of a script that ran out of time.
pub fn script_timed_out() -> (r: String)
    ensures
        r@ == "script-exec: script timed out"@,
{
    "script-exec: script timed out".to_owned()
}

/// A script that no action called reaches no secret.
pub proof fn lemma_nobody_has_no_secrets(id: Seq<char>, name: Seq<char>)
    ensures
        frame_of(ANON_CALLER_REF@, None, id).secret_key(name) is None,
{
}

} // verus!
