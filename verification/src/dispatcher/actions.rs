//! Prompt and script actions, which run what an artifact holds.

use vstd::prelude::*;
use vstd::string::*;
use vstd::utf8::*;

use crate::dispatcher::{DispatchRecord, DispatchResult};
use crate::encoding::{from_utf8, utf8_error};
use crate::json::{object_of, pairs_view};
use crate::text::{cat2, cat3, may_call, opt_text};
use crate::value::{items, opt_value, Json, Value};

verus! {

broadcast use crate::value::group_value_views;

/// The two types of action that run an artifact.
#[derive(Debug, Clone, Copy, PartialEq, Eq, Structural)]
pub enum ArtifactAction {
    Prompt,
    Actions,
}

pub open spec fn artifact_action_of(action_type: Option<Seq<char>>) -> Option<ArtifactAction> {
    if action_type == Some("Prompt"@) {
        Some(ArtifactAction::Prompt)
    } else if action_type == Some("Actions"@) {
        Some(ArtifactAction::Actions)
    } else {
        None
    }
}

pub open spec fn type_text(action_type: Option<Seq<char>>) -> Seq<char> {
    match action_type {
        Some(t) => t,
        None => ""@,
    }
}

/// Whether this is what an action with an artifact does, and the artifact.
pub open spec fn is_artifact_action(
    r: Result<(ArtifactAction, String), String>,
    action_type: Option<Seq<char>>,
    bin_name: Option<Seq<char>>,
) -> bool {
    match artifact_action_of(action_type) {
        None => r is Err && r->Err_0@
            == "dispatch_prompt_or_actions called with unexpected action_type '"@ + type_text(
            action_type,
        ) + "'"@,
        Some(k) => match bin_name {
            Some(b) => r is Ok && r->Ok_0.0 == k && r->Ok_0.1@ == b,
            None => r is Err && r->Err_0@ == (match k {
                ArtifactAction::Prompt => "Prompt action requires exec_artifact (bin_name) to be set"@,
                ArtifactAction::Actions => "Actions action requires exec_artifact (bin_name) to be set"@,
            }),
        },
    }
}

/// Which artifact a prompt or script action runs. Only those two types may ask,
/// and they need one.
pub fn dispatch_prompt_or_actions(action_type: Option<&str>, bin_name: Option<&str>) -> (r: Result<
    (ArtifactAction, String),
    String,
>)
    ensures
        is_artifact_action(r, opt_text(action_type), opt_text(bin_name)),
{
    let t: &str = match action_type {
        Some(t) => t,
        None => "",
    };
    let kind = if crate::text::same(t, "Prompt") {
        ArtifactAction::Prompt
    } else if crate::text::same(t, "Actions") {
        ArtifactAction::Actions
    } else {
        return Err(
            cat3("dispatch_prompt_or_actions called with unexpected action_type '", t, "'"),
        );
    };
    proof {
        reveal_strlit("Prompt");
        reveal_strlit("Actions");
        reveal_strlit("");
        assert("Prompt"@[0] == 'P' && "Actions"@[0] == 'A' && ""@.len() == 0);
    }
    match bin_name {
        Some(b) => Ok((kind, b.to_owned())),
        None => Err(
            match kind {
                ArtifactAction::Prompt => "Prompt action requires exec_artifact (bin_name) to be set".to_owned(),
                ArtifactAction::Actions => "Actions action requires exec_artifact (bin_name) to be set".to_owned(),
            },
        ),
    }
}

/// What a prompt action asks of the caller.
#[derive(Debug)]
pub enum PromptStep {
    /// The action overrides a prompt: this is its result.
    Override(DispatchResult),
    /// Execute an instruction with this message.
    Instruct(Value),
}

/// The prompt that an artifact gives for a prompt file: its entry in a map of
/// prompts, or the whole of a plain text.
pub open spec fn override_text(parsed: Option<Json>, text: Seq<char>, file: Seq<char>) -> Option<
    Seq<char>,
> {
    match parsed {
        Some(Json::Object(m)) => Json::Object(m).get_str(file),
        _ => Some(text),
    }
}

pub open spec fn override_json(prompt: Option<Seq<char>>, file: Seq<char>) -> Json {
    match prompt {
        Some(p) => object_of(seq![("prompt"@, Json::Str(p)), ("prompt_file"@, Json::Str(file))]),
        None => object_of(seq![("prompt_file"@, Json::Str(file))]),
    }
}

pub open spec fn instruction_json(text: Seq<char>) -> Json {
    object_of(
        seq![
            ("instruction"@, Json::Str(text)),
            ("session_name"@, Json::Null),
            ("allow_destructive"@, Json::Bool(false)),
        ],
    )
}

/// Whether a step is the one that a prompt action takes.
pub open spec fn is_prompt_step(
    r: PromptStep,
    entity_name: Seq<char>,
    text: Seq<char>,
    parsed: Option<Json>,
    message: Json,
) -> bool {
    match message.get_str("prompt_file"@) {
        Some(file) => r matches PromptStep::Override(d) && d@ == (DispatchRecord {
            action_name: entity_name,
            result: override_json(override_text(parsed, text, file), file),
            success: true,
            message: None,
            trace: Seq::empty(),
        }),
        None => r matches PromptStep::Instruct(v) && v@ == instruction_json(text),
    }
}

/// What the artifact of a prompt action does. A message that names a prompt file
/// asks for an override; any other one has the text executed. `parse` reads
/// JSON text.
pub fn dispatch_prompt<F: FnOnce(&str) -> Option<Value>>(
    entity_name: &str,
    bytes: Vec<u8>,
    message: &Value,
    parse: F,
) -> (r: Result<PromptStep, String>)
    requires
        valid_utf8(bytes@) ==> may_call(parse, decode_utf8(bytes@)),
    ensures
        if valid_utf8(bytes@) {
            &&& r is Ok
            &&& exists|s: &str, o: Option<Value>|
                s@ == decode_utf8(bytes@) && #[trigger] call_ensures(parse, (s,), o)
                    && is_prompt_step(r->Ok_0, entity_name@, s@, opt_value(o), message@)
        } else {
            r is Err && r->Err_0@ == "prompt artifact is not valid UTF-8: "@ + utf8_error(bytes@)
        },
{
    let text = match from_utf8(bytes) {
        Ok(s) => s,
        Err(e) => {
            return Err(cat2("prompt artifact is not valid UTF-8: ", e.as_str()));
        },
    };
    let t: &str = text.as_str();
    let parsed = parse(t);
    Ok(prompt_step(entity_name, t, parsed, message))
}

/// What the text of a prompt artifact does, with what it parses to.
pub fn prompt_step(entity_name: &str, text: &str, parsed: Option<Value>, message: &Value) -> (r:
    PromptStep)
    ensures
        is_prompt_step(r, entity_name@, text@, opt_value(parsed), message@),
{
    match message.get_str("prompt_file") {
        Some(file) => {
            let prompt: Option<&str> = match &parsed {
                Some(v) => if v.is_object() {
                    v.get_str(file)
                } else {
                    Some(text)
                },
                None => Some(text),
            };
            let pairs: Vec<(&'static str, Value)> = match prompt {
                Some(p) => vec![("prompt", Value::text(p)), ("prompt_file", Value::text(file))],
                None => vec![("prompt_file", Value::text(file))],
            };
            assert(match opt_text(prompt) {
                Some(p) => pairs_view(pairs@) =~= seq![
                    ("prompt"@, Json::Str(p)),
                    ("prompt_file"@, Json::Str(file@)),
                ],
                None => pairs_view(pairs@) =~= seq![("prompt_file"@, Json::Str(file@))],
            });
            let trace: Vec<Value> = Vec::new();
            assert(items(trace@) =~= Seq::<Json>::empty());
            PromptStep::Override(
                DispatchResult {
                    action_name: entity_name.to_owned(),
                    result: Value::object(pairs),
                    success: true,
                    message: None,
                    trace,
                },
            )
        },
        None => {
            let pairs: Vec<(&'static str, Value)> = vec![
                ("instruction", Value::text(text)),
                ("session_name", Value::Null),
                ("allow_destructive", Value::Bool(false)),
            ];
            assert(pairs_view(pairs@) =~= seq![
                ("instruction"@, Json::Str(text@)),
                ("session_name"@, Json::Null),
                ("allow_destructive"@, Json::Bool(false)),
            ]);
            PromptStep::Instruct(Value::object(pairs))
        },
    }
}

/// An instruction that comes out of an artifact never allows what is
/// destructive.
pub proof fn lemma_instructions_are_not_destructive(text: Seq<char>)
    ensures
        instruction_json(text).get_bool("allow_destructive"@) == Some(false),
{
    let pairs = seq![
        ("instruction"@, Json::Str(text)),
        ("session_name"@, Json::Null),
        ("allow_destructive"@, Json::Bool(false)),
    ];
    crate::json::lemma_member_of_members_of(pairs, "allow_destructive"@);
}

/// Whether this is the list of actions that an artifact holds.
pub open spec fn is_actions_value<F: FnOnce(&str) -> Result<Value, String>>(r: Result<Value, String>, bytes: Seq<u8>, parse: F) -> bool {
    if valid_utf8(bytes) {
        exists|s: &str, o: Result<Value, String>|
            s@ == decode_utf8(bytes) && #[trigger] call_ensures(parse, (s,), o) && (match o {
                Ok(v) => r is Ok && r->Ok_0@ == v@,
                Err(e) => r is Err && r->Err_0@ == "actions artifact is not valid JSON: "@
                    + e@,
            })
    } else {
        r is Err && r->Err_0@ == "actions artifact is not valid UTF-8: "@ + utf8_error(bytes)
    }
}

/// The script that the artifact of a script action holds. `parse` reads JSON
/// text.
pub fn dispatch_actions<F: FnOnce(&str) -> Result<Value, String>>(bytes: Vec<u8>, parse: F) -> (r:
    Result<Value, String>)
    requires
        valid_utf8(bytes@) ==> may_call(parse, decode_utf8(bytes@)),
    ensures
        is_actions_value(r, bytes@, parse),
{
    let text = match from_utf8(bytes) {
        Ok(s) => s,
        Err(e) => {
            return Err(cat2("actions artifact is not valid UTF-8: ", e.as_str()));
        },
    };
    let t: &str = text.as_str();
    match parse(t) {
        Ok(v) => Ok(v),
        Err(e) => Err(cat2("actions artifact is not valid JSON: ", e.as_str())),
    }
}

/// The result of a script, under the name of the action that ran it.
pub fn named_result(entity_name: &str, result: DispatchResult) -> (r: DispatchResult)
    ensures
        r@ == (DispatchRecord { action_name: entity_name@, ..result@ }),
{
    DispatchResult {
        action_name: entity_name.to_owned(),
        result: result.result,
        success: result.success,
        message: result.message,
        trace: result.trace,
    }
}

} // verus!
