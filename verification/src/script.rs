//! The stages of a script action. A script understands two of them: `exec`,
//! which runs another action, and `json`, which is a value. Everything else it
//! reaches by running an action, under the same rules as any other caller.

use vstd::prelude::*;
use vstd::string::*;

use crate::caller::{Caller, CallerFrame};
use crate::entities::{ActionExecResult, ExecRecord};
use crate::error::{Failure, SolxError};
use crate::internal::console::ConsolePrint;
use crate::json::{json_opt_str, object_of, pairs_view};
use crate::text::{cat2, cat3, may_call, opt_string, same, texts};
use crate::value::{members, opt_value, Json, Value};

verus! {

broadcast use crate::value::group_value_views;

/// What a stage asks for.
#[derive(Debug)]
pub enum Stage {
    /// The value of the stage.
    Value(Value),
    /// Run the action of this reference with these parameters.
    Exec { reference: String, params: Value },
}

/// The reference and the parameters among the tokens from `i` on, after those
/// that came before.
pub open spec fn exec_arguments(
    t: Seq<Seq<char>>,
    i: int,
    reference: Option<Seq<char>>,
    json: Option<Seq<char>>,
) -> Result<(Seq<char>, Option<Seq<char>>), Failure>
    decreases t.len() - i,
{
    if i < 0 || i >= t.len() {
        match reference {
            Some(r) => Ok((r, json)),
            None => Err(
                Failure::Invalid("exec requires an action reference, e.g. 'exec /pkg/name'"@),
            ),
        }
    } else if t[i] == "--json"@ || t[i] == "-j"@ {
        if i + 1 < t.len() {
            exec_arguments(t, i + 2, reference, Some(t[i + 1]))
        } else {
            Err(Failure::Invalid("exec: '--json' requires a value"@))
        }
    } else if reference is Some {
        Err(Failure::Invalid("exec: unexpected argument '"@ + t[i] + "'"@))
    } else {
        exec_arguments(t, i + 1, Some(t[i]), json)
    }
}

pub open spec fn arguments_of(r: Result<(String, Option<String>), SolxError>) -> Result<
    (Seq<char>, Option<Seq<char>>),
    Failure,
> {
    match r {
        Ok((a, j)) => Ok((a@, opt_string(j))),
        Err(e) => Err(e@),
    }
}

/// Read the arguments of an `exec` stage: one reference, and parameters behind
/// `--json`, of which the last count.
pub fn parse_exec_stage(tokens: &Vec<String>) -> (r: Result<(String, Option<String>), SolxError>)
    ensures
        arguments_of(r) == exec_arguments(texts(tokens@), 1, None, None),
{
    let mut reference: Option<String> = None;
    let mut json: Option<String> = None;
    let ghost t = texts(tokens@);
    let mut i: usize = 1;
    while i < tokens.len()
        invariant
            1 <= i,
            t == texts(tokens@),
            exec_arguments(t, i as int, opt_string(reference), opt_string(json)) == exec_arguments(
                t,
                1,
                None,
                None,
            ),
        decreases tokens.len() - i,
    {
        let token = tokens[i].as_str();
        assert(t[i as int] == token@);
        if same(token, "--json") || same(token, "-j") {
            if i + 1 < tokens.len() {
                assert(t[i + 1] == tokens@[i + 1]@);
                json = Some(tokens[i + 1].clone());
                i += 2;
            } else {
                return Err(SolxError::Invalid("exec: '--json' requires a value".to_owned()));
            }
        } else {
            if reference.is_some() {
                return Err(
                    SolxError::Invalid(cat3("exec: unexpected argument '", token, "'")),
                );
            }
            reference = Some(token.to_owned());
            i += 1;
        }
    }
    match reference {
        Some(r) => Ok((r, json)),
        None => Err(
            SolxError::Invalid(
                "exec requires an action reference, e.g. 'exec /pkg/name'".to_owned(),
            ),
        ),
    }
}

pub open spec fn unsupported_stage(other: Seq<char>) -> Failure {
    Failure::Invalid(
        "unsupported script stage '"@ + other
            + "' (Script actions only support 'exec <path/name> [--json '<params>']' and 'json <value>')"@,
    )
}

pub open spec fn bad_json_stage() -> Failure {
    Failure::Invalid("json takes exactly one argument, e.g. 'json \"hello\"' or 'json 5'"@)
}

/// Whether a stage is the one that an `exec` with these arguments asks for.
pub open spec fn is_exec_stage(
    r: Result<Stage, SolxError>,
    reference: Seq<char>,
    params: Result<Json, Seq<char>>,
) -> bool {
    match params {
        Ok(p) => r matches Ok(Stage::Exec { reference: a, params: v }) && a@ == reference && v@
            == p,
        Err(e) => r is Err && r->Err_0@ == Failure::Invalid("parse --json params: "@ + e),
    }
}

pub open spec fn parse_of(o: Result<Value, String>) -> Result<Json, Seq<char>> {
    match o {
        Ok(v) => Ok(v@),
        Err(e) => Err(e@),
    }
}

/// The parameters of an `exec` stage without `--json`: what was piped into it,
/// else the empty object.
pub open spec fn piped_params(piped: Option<Json>) -> Json {
    match piped {
        Some(v) => v,
        None => Json::Object(Seq::empty()),
    }
}

/// Whether this is the action that a stage runs, and with what.
pub open spec fn is_exec_run<F: Fn(&str) -> Result<Value, String>>(
    r: Result<Stage, SolxError>,
    tokens: Seq<String>,
    piped: Option<Json>,
    parse: F,
) -> bool {
    match exec_arguments(texts(tokens), 1, None, None) {
        Err(e) => r is Err && r->Err_0@ == e,
        Ok((reference, Some(j))) => exists|s: &str, o: Result<Value, String>|
            s@ == j && #[trigger] call_ensures(parse, (s,), o) && is_exec_stage(
                r,
                reference,
                parse_of(o),
            ),
        Ok((reference, None)) => is_exec_stage(
            r,
            reference,
            Ok(piped_params(piped)),
        ),
    }
}

/// What an `exec` stage asks for. `parse` reads JSON text.
pub fn run_exec<F: Fn(&str) -> Result<Value, String>>(
    tokens: &Vec<String>,
    piped: Option<Value>,
    parse: &F,
) -> (r: Result<Stage, SolxError>)
    requires
        exec_arguments(texts(tokens@), 1, None, None) matches Ok((_, Some(j))) ==> may_call(*parse, j),
    ensures
        is_exec_run(r, tokens@, opt_value(piped), *parse),
{
    let (reference, json) = match parse_exec_stage(tokens) {
        Ok(x) => x,
        Err(e) => {
            return Err(e);
        },
    };
    let params = match &json {
        Some(j) => {
            let s: &str = j.as_str();
            let o = parse(s);
            assert(call_ensures(*parse, (s,), o));
            match o {
                Ok(v) => v,
                Err(e) => {
                    return Err(SolxError::Invalid(cat2("parse --json params: ", e.as_str())));
                },
            }
        },
        None => match piped {
            Some(v) => v,
            None => {
                let none: Vec<(String, Value)> = Vec::new();
                assert(members(none@) =~= Seq::<(Seq<char>, Json)>::empty());
                Value::Object(none)
            },
        },
    };
    Ok(Stage::Exec { reference, params })
}

/// Whether this is the value that a stage is.
pub open spec fn is_json_run<F: Fn(&str) -> Result<Value, String>>(r: Result<Value, SolxError>, tokens: Seq<String>, parse: F) -> bool {
    if tokens.len() != 2 {
        r is Err && r->Err_0@ == bad_json_stage()
    } else {
        exists|s: &str, o: Result<Value, String>|
            s@ == tokens[1]@ && #[trigger] call_ensures(parse, (s,), o) && (match o {
                Ok(v) => r is Ok && r->Ok_0@ == v@,
                Err(e) => r is Err && r->Err_0@ == Failure::Invalid("parse json value: "@ + e@),
            })
    }
}

/// The value of a `json` stage. `parse` reads JSON text.
pub fn run_json<F: Fn(&str) -> Result<Value, String>>(tokens: &Vec<String>, parse: &F) -> (r: Result<
    Value,
    SolxError,
>)
    requires
        tokens@.len() == 2 ==> may_call(*parse, tokens@[1]@),
    ensures
        is_json_run(r, tokens@, *parse),
{
    if tokens.len() != 2 {
        return Err(
            SolxError::Invalid(
                "json takes exactly one argument, e.g. 'json \"hello\"' or 'json 5'".to_owned(),
            ),
        );
    }
    let s: &str = tokens[1].as_str();
    match parse(s) {
        Ok(v) => Ok(v),
        Err(e) => Err(SolxError::Invalid(cat2("parse json value: ", e.as_str()))),
    }
}

/// Whether this is what a stage of a script does.
pub open spec fn is_stage<F: Fn(&str) -> Result<Value, String>>(
    r: Result<Stage, SolxError>,
    tokens: Seq<String>,
    piped: Option<Json>,
    parse: F,
) -> bool {
    if tokens.len() == 0 {
        r matches Ok(Stage::Value(v)) && v@ == Json::Null
    } else if tokens[0]@ == "exec"@ {
        match exec_arguments(texts(tokens), 1, None, None) {
            Err(e) => r is Err && r->Err_0@ == e,
            Ok((reference, Some(j))) => exists|s: &str, o: Result<Value, String>|
                s@ == j && #[trigger] call_ensures(parse, (s,), o) && is_exec_stage(
                    r,
                    reference,
                    parse_of(o),
                ),
            Ok((reference, None)) => is_exec_stage(
                r,
                reference,
                Ok(piped_params(piped)),
            ),
        }
    } else if tokens[0]@ == "json"@ {
        if tokens.len() != 2 {
            r is Err && r->Err_0@ == bad_json_stage()
        } else {
            exists|s: &str, o: Result<Value, String>|
                s@ == tokens[1]@ && #[trigger] call_ensures(parse, (s,), o) && (match o {
                    Ok(v) => r matches Ok(Stage::Value(x)) && x@ == v@,
                    Err(e) => r is Err && r->Err_0@ == Failure::Invalid(
                        "parse json value: "@ + e@,
                    ),
                })
        }
    } else {
        r is Err && r->Err_0@ == unsupported_stage(tokens[0]@)
    }
}

/// What a stage asks for, by its first token. A stage without tokens is null.
pub fn run<F: Fn(&str) -> Result<Value, String>>(
    tokens: &Vec<String>,
    piped: Option<Value>,
    parse: &F,
) -> (r: Result<Stage, SolxError>)
    requires
        tokens@.len() > 0 && tokens@[0]@ == "exec"@ ==> (exec_arguments(
            texts(tokens@),
            1,
            None,
            None,
        ) matches Ok((_, Some(j))) ==> may_call(*parse, j)),
        tokens@.len() == 2 && tokens@[0]@ == "json"@ ==> may_call(*parse, tokens@[1]@),
    ensures
        is_stage(r, tokens@, opt_value(piped), *parse),
{
    if tokens.len() == 0 {
        return Ok(Stage::Value(Value::Null));
    }
    let first = tokens[0].as_str();
    if same(first, "exec") {
        run_exec(tokens, piped, parse)
    } else if same(first, "json") {
        match run_json(tokens, parse) {
            Ok(v) => Ok(Stage::Value(v)),
            Err(e) => Err(e),
        }
    } else {
        Err(
            SolxError::Invalid(
                cat3(
                    "unsupported script stage '",
                    first,
                    "' (Script actions only support 'exec <path/name> [--json '<params>']' and 'json <value>')",
                ),
            ),
        )
    }
}

/// What an `exec` stage hands on: all that the action came to.
pub open spec fn exec_value(r: ExecRecord) -> Json {
    object_of(
        seq![
            ("action"@, Json::Str(r.action)),
            ("result"@, r.result),
            ("success"@, Json::Bool(r.success)),
            ("message"@, json_opt_str(r.message)),
        ],
    )
}

/// The value of an `exec` stage whose action came to this.
pub fn stage_value(done: ActionExecResult) -> (r: Value)
    ensures
        r@ == exec_value(done@),
{
    let message = match &done.message {
        Some(m) => Value::text(m.as_str()),
        None => Value::Null,
    };
    let ghost view = done@;
    let pairs: Vec<(&'static str, Value)> = vec![
        ("action", Value::text(done.action.as_str())),
        ("result", done.result),
        ("success", Value::Bool(done.success)),
        ("message", message),
    ];
    assert(pairs_view(pairs@) =~= seq![
        ("action"@, Json::Str(view.action)),
        ("result"@, view.result),
        ("success"@, Json::Bool(view.success)),
        ("message"@, json_opt_str(view.message)),
    ]);
    Value::object(pairs)
}

// ── What a script logs ───────────────────────────────────────────────────────

/// What a stage is called in the console of its script: its verb, and for an
/// `exec` the action that it runs, but never the parameters.
pub open spec fn stage_label(t: Seq<Seq<char>>) -> Seq<char> {
    if t.len() == 0 {
        Seq::empty()
    } else if t[0] == "exec"@ {
        match exec_arguments(t, 1, None, None) {
            Ok((reference, _)) => "exec "@ + reference,
            Err(_) => t[0],
        }
    } else {
        t[0]
    }
}

fn label(tokens: &Vec<String>) -> (r: String)
    ensures
        r@ == stage_label(texts(tokens@)),
{
    if tokens.len() == 0 {
        return String::new();
    }
    assert(texts(tokens@)[0] == tokens@[0]@);
    if same(tokens[0].as_str(), "exec") {
        match parse_exec_stage(tokens) {
            Ok((reference, _)) => cat2("exec ", reference.as_str()),
            Err(_) => tokens[0].clone(),
        }
    } else {
        tokens[0].clone()
    }
}

/// Whether an entry goes to the console of a script, under the script's own run.
pub open spec fn is_script_entry(
    p: ConsolePrint,
    frame: CallerFrame,
    level: Seq<char>,
    message: Seq<char>,
) -> bool {
    &&& p.action_ref@ == frame.action_ref
    &&& p.invocation_id@ == frame.invocation_id
    &&& p.level@ == level
    &&& p.source@ == "script"@
    &&& opt_string(p.message) == Some(message)
    &&& p.data is None
}

fn script_entry(caller: &Caller, level: &str, message: String) -> (r: ConsolePrint)
    ensures
        is_script_entry(r, caller@, level@, message@),
{
    ConsolePrint {
        action_ref: caller.action_ref().to_owned(),
        invocation_id: caller.invocation_id().to_owned(),
        level: level.to_owned(),
        source: "script",
        message: Some(message),
        data: None,
    }
}

/// What the console of a script gets when a stage begins.
pub fn stage_started(caller: &Caller, tokens: &Vec<String>) -> (r: ConsolePrint)
    ensures
        is_script_entry(r, caller@, "info"@, stage_label(texts(tokens@))),
{
    script_entry(caller, "info", label(tokens))
}

/// What the console of a script gets when a stage fails.
pub fn stage_failed(caller: &Caller, tokens: &Vec<String>, error: &SolxError) -> (r: ConsolePrint)
    ensures
        is_script_entry(
            r,
            caller@,
            "warn"@,
            stage_label(texts(tokens@)) + " failed: "@ + error@.message(),
        ),
{
    let stage = label(tokens);
    let message = error.message();
    script_entry(caller, "warn", cat3(stage.as_str(), " failed: ", message.as_str()))
}

/// All stages of one run of a script log to its console under that one run.
pub proof fn lemma_stages_share_a_run(
    a: ConsolePrint,
    b: ConsolePrint,
    frame: CallerFrame,
    level_a: Seq<char>,
    level_b: Seq<char>,
    message_a: Seq<char>,
    message_b: Seq<char>,
)
    requires
        is_script_entry(a, frame, level_a, message_a),
        is_script_entry(b, frame, level_b, message_b),
    ensures
        a.action_ref@ == b.action_ref@,
        a.invocation_id@ == b.invocation_id@,
{
}

} // verus!
