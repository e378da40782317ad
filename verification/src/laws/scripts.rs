//! Scripts and components: what their stages run, and what their ends come to.

use vstd::prelude::*;
use vstd::string::*;

use crate::caller::CallerFrame;
use crate::entities::{ActionExecResult, ExecRecord};
use crate::error::{Failure, SolxError};
use crate::internal::console::ConsolePrint;
use crate::json::{json_opt_str, json_text};
use crate::laws::lemma_pair_is_member;
use crate::script::{exec_arguments, exec_value, is_exec_run, is_json_run, is_script_entry};
use crate::script::{is_stage, piped_params, stage_label, Stage};
use crate::text::{opt_string, texts};
use crate::value::{Json, Value};
use crate::wasm::{is_guest_result, is_guest_run, GuestEnd, GuestRun};

verus! {

// ── Stages ───────────────────────────────────────────────────────────────────

/// Whether a word of a stage introduces its parameters.
pub open spec fn is_flag(w: Seq<char>) -> bool {
    w == "--json"@ || w == "-j"@
}

/// A stage runs the one action that it names. Its parameters, where it has any, stand
/// behind a flag, before the name or after it, and may be written in any way.
pub proof fn lemma_what_a_stage_names(
    cmd: Seq<char>,
    a: Seq<char>,
    b: Seq<char>,
    flag: Seq<char>,
    json: Seq<char>,
)
    requires
        !is_flag(a),
        !is_flag(b),
        is_flag(flag),
    ensures
        exec_arguments(seq![cmd, a], 1, None, None) == Ok::<_, Failure>((a, None::<Seq<char>>)),
        exec_arguments(seq![cmd, a, flag, json], 1, None, None) == Ok::<_, Failure>((a, Some(json))),
        exec_arguments(seq![cmd, flag, json, a], 1, None, None) == Ok::<_, Failure>((a, Some(json))),
        exec_arguments(seq![cmd], 1, None, None) is Err,
        exec_arguments(seq![cmd, flag, json], 1, None, None) is Err,
        exec_arguments(seq![cmd, a, b], 1, None, None) is Err,
        exec_arguments(seq![cmd, a, flag], 1, None, None) is Err,
{
    reveal_with_fuel(exec_arguments, 5);
}

proof fn lemma_arguments_come_from_the_words(
    t: Seq<Seq<char>>,
    i: int,
    reference: Option<Seq<char>>,
    json: Option<Seq<char>>,
)
    requires
        0 <= i,
    ensures
        exec_arguments(t, i, reference, json) matches Ok((r, j)) ==> {
            &&& (reference == Some(r) || exists|k: int|
                i <= k < t.len() && #[trigger] t[k] == r && !is_flag(r))
            &&& (j == json || exists|k: int|
                i < k < t.len() && Some(#[trigger] t[k]) == j && is_flag(t[k - 1]))
        },
        reference matches Some(r) ==> (exec_arguments(t, i, reference, json) matches Ok((x, _))
            ==> x == r),
    decreases t.len() - i,
{
    if i < t.len() {
        if is_flag(t[i]) {
            if i + 1 < t.len() {
                lemma_arguments_come_from_the_words(t, i + 2, reference, Some(t[i + 1]));
                assert(t[i + 1] == t[i + 1]);
            }
        } else if reference is None {
            lemma_arguments_come_from_the_words(t, i + 1, Some(t[i]), json);
        }
    }
}

/// What a stage runs, and with what, are words of it: the action no flag, and the
/// parameters right behind one.
pub proof fn lemma_stages_run_what_they_say(t: Seq<Seq<char>>)
    ensures
        exec_arguments(t, 1, None, None) matches Ok((r, j)) ==> {
            &&& exists|k: int| 1 <= k < t.len() && #[trigger] t[k] == r && !is_flag(r)
            &&& (j matches Some(x) ==> exists|k: int|
                1 < k < t.len() && #[trigger] t[k] == x && is_flag(t[k - 1]))
        },
{
    lemma_arguments_come_from_the_words(t, 1, None, None);
    if let Ok((r, Some(x))) = exec_arguments(t, 1, None, None) {
        let k = choose|k: int|
            1 < k < t.len() && Some(#[trigger] t[k]) == Some(x) && is_flag(t[k - 1]);
        assert(t[k] == x);
    }
}

/// A stage that gives no parameters runs its action with what the stage before it
/// came to, and with none where there was no such stage.
pub proof fn lemma_stages_are_piped<F: Fn(&str) -> Result<Value, String>>(
    r: Result<Stage, SolxError>,
    tokens: Seq<String>,
    piped: Option<Json>,
    parse: F,
)
    requires
        is_stage(r, tokens, piped, parse),
        tokens.len() == 2,
        tokens[0]@ == "exec"@,
        !is_flag(tokens[1]@),
    ensures
        r matches Ok(Stage::Exec { reference, params }) && reference@ == tokens[1]@ && (
        piped matches Some(v) ==> params@ == v) && (piped is None ==> params@ == Json::Object(
            Seq::empty(),
        )),
{
    let t = texts(tokens);
    assert(t =~= seq![t[0], t[1]]);
    reveal_with_fuel(exec_arguments, 3);
}

/// A stage runs an action or is a value; one without words is null, and one of any
/// other kind is refused.
pub proof fn lemma_kinds_of_stages<F: Fn(&str) -> Result<Value, String>>(
    r: Result<Stage, SolxError>,
    tokens: Seq<String>,
    piped: Option<Json>,
    parse: F,
)
    requires
        is_stage(r, tokens, piped, parse),
    ensures
        tokens.len() == 0 ==> (r matches Ok(Stage::Value(v)) && v@ == Json::Null),
        tokens.len() > 0 && tokens[0]@ != "exec"@ && tokens[0]@ != "json"@ ==> r is Err,
        tokens.len() > 0 && tokens[0]@ == "json"@ && tokens.len() != 2 ==> r is Err,
        r matches Ok(Stage::Exec { .. }) ==> tokens.len() > 1 && tokens[0]@ == "exec"@,
        r matches Ok(Stage::Value(_)) ==> tokens.len() == 0 || (tokens.len() == 2 && tokens[0]@
            == "json"@),
{
    reveal_strlit("exec");
    reveal_strlit("json");
    assert("exec"@.len() == 4 && "exec"@[0] == 'e');
    assert("json"@.len() == 4 && "json"@[0] == 'j');
    let t = texts(tokens);
    if tokens.len() > 0 && tokens[0]@ == "exec"@ {
        lemma_stages_run_what_they_say(t);
    }
}

/// A stage is shown on the console by what it runs.
pub proof fn lemma_stage_labels(t: Seq<Seq<char>>, a: Seq<char>)
    requires
        !is_flag(a),
    ensures
        stage_label(seq!["exec"@, a]) == "exec "@ + a,
        stage_label(Seq::empty()) == Seq::<char>::empty(),
        t.len() > 0 && t[0] != "exec"@ ==> stage_label(t) == t[0],
{
    reveal_with_fuel(exec_arguments, 3);
}

/// The next stage is handed everything of what an action came to.
pub proof fn lemma_what_a_stage_comes_to(r: ExecRecord)
    ensures
        exec_value(r).get_str("action"@) == Some(r.action),
        exec_value(r).get("result"@) == Some(r.result),
        exec_value(r).get_bool("success"@) == Some(r.success),
        exec_value(r).get("message"@) == Some(
            match r.message {
                Some(m) => Json::Str(m),
                None => Json::Null,
            },
        ),
{
    reveal_strlit("action");
    reveal_strlit("result");
    reveal_strlit("success");
    reveal_strlit("message");
    assert("action"@.len() == 6 && "action"@[0] == 'a');
    assert("result"@.len() == 6 && "result"@[0] == 'r');
    assert("success"@.len() == 7 && "success"@[0] == 's');
    assert("message"@.len() == 7 && "message"@[0] == 'm');
    let pairs = seq![
        ("action"@, Json::Str(r.action)),
        ("result"@, r.result),
        ("success"@, Json::Bool(r.success)),
        ("message"@, json_opt_str(r.message)),
    ];
    lemma_pair_is_member(pairs, 0);
    lemma_pair_is_member(pairs, 1);
    lemma_pair_is_member(pairs, 2);
    lemma_pair_is_member(pairs, 3);
}

// ── Components ───────────────────────────────────────────────────────────────

/// A component is run by its entry, with its parameters as JSON, and for as long as
/// its run may take or five minutes.
pub proof fn lemma_how_a_component_runs(
    r: GuestRun,
    fn_name: Option<Seq<char>>,
    params: Json,
    timeout_secs: Option<u64>,
)
    requires
        is_guest_run(r, fn_name, params, timeout_secs),
    ensures
        opt_string(r.fn_name) == fn_name,
        r.params_json@ == json_text(params),
        timeout_secs matches Some(t) ==> r.budget_secs == t,
        timeout_secs is None ==> r.budget_secs == 300,
{
}

/// A component succeeds if and only if it returns and says so; then its result is
/// what it wrote, where that is JSON. Any other end is a failure with a message, and
/// only a panic of the host is an error of the run.
pub proof fn lemma_what_a_component_comes_to(
    r: Result<ActionExecResult, SolxError>,
    action_ref: Seq<char>,
    run: GuestRun,
    end: GuestEnd,
    parsed: Option<Json>,
)
    requires
        is_guest_result(r, action_ref, run, end, parsed),
    ensures
        r is Err <==> end is Panicked,
        r matches Ok(x) ==> {
            &&& x@.action == action_ref
            &&& (x@.success <==> (end matches GuestEnd::Returned {
                success: s,
                message: _,
                output: _,
            } && s))
            &&& (end is Returned ==> (parsed matches Some(v) ==> x@.result == v) && (parsed is None
                ==> x@.result == Json::Null) && x@.message == opt_string(end->Returned_message))
            &&& (!(end is Returned) ==> x@.result == Json::Null && x@.message is Some)
            &&& (end matches GuestEnd::Refused(e) ==> x@.message == Some(e@))
            &&& (end matches GuestEnd::Trapped(e) ==> x@.message == Some(e@))
        },
{
}

/// A stage that is a value is what its one argument parses to.
pub proof fn lemma_values_of_stages<F: Fn(&str) -> Result<Value, String>>(
    r: Result<Value, SolxError>,
    s: Result<Stage, SolxError>,
    tokens: Seq<String>,
    piped: Option<Json>,
    parse: F,
)
    requires
        is_json_run(r, tokens, parse),
        is_stage(s, tokens, piped, parse),
        tokens.len() == 2,
        tokens[0]@ == "json"@,
    ensures
        exists|t: &str, o: Result<Value, String>|
            {
                &&& t@ == tokens[1]@
                &&& #[trigger] call_ensures(parse, (t,), o)
                &&& (o is Ok <==> r is Ok)
                &&& (o matches Ok(v) ==> (r matches Ok(x) && x@ == v@))
            },
        exists|t: &str, o: Result<Value, String>|
            {
                &&& t@ == tokens[1]@
                &&& #[trigger] call_ensures(parse, (t,), o)
                &&& (o is Ok <==> s is Ok)
                &&& (o matches Ok(v) ==> (s matches Ok(Stage::Value(x)) && x@ == v@))
            },
{
    reveal_strlit("exec");
    reveal_strlit("json");
    assert("exec"@.len() == 4 && "exec"@[0] == 'e');
    assert("json"@.len() == 4 && "json"@[0] == 'j');
}

/// An action that a stage runs is run with what the stage gives, where that parses,
/// and a stage that names no action runs none.
pub proof fn lemma_what_an_exec_stage_runs<F: Fn(&str) -> Result<Value, String>>(
    r: Result<Stage, SolxError>,
    tokens: Seq<String>,
    piped: Option<Json>,
    parse: F,
)
    requires
        is_exec_run(r, tokens, piped, parse),
    ensures
        ({
            let named = exec_arguments(texts(tokens), 1, None, None);
            &&& (named is Err ==> r is Err)
            &&& (named matches Ok((reference, None)) ==> (r matches Ok(Stage::Exec {
                reference: x,
                params,
            }) && x@ == reference && params@ == piped_params(piped)))
            &&& (named matches Ok((reference, Some(j))) ==> exists|t: &str, o: Result<Value, String>|
                {
                    &&& t@ == j
                    &&& #[trigger] call_ensures(parse, (t,), o)
                    &&& (o is Ok <==> r is Ok)
                    &&& (o matches Ok(v) ==> (r matches Ok(Stage::Exec { reference: x, params })
                        && x@ == reference && params@ == v@))
                })
        }),
{
}

/// What a script prints of its stages goes to the console of its caller, with a line
/// and nothing else.
pub proof fn lemma_what_scripts_print(
    p: ConsolePrint,
    frame: CallerFrame,
    level: Seq<char>,
    message: Seq<char>,
)
    requires
        is_script_entry(p, frame, level, message),
    ensures
        p.action_ref@ == frame.action_ref,
        p.invocation_id@ == frame.invocation_id,
        p.source@ == "script"@,
        p.level@ == level,
        p.message matches Some(m) && m@ == message,
        p.data is None,
{
}

} // verus!
