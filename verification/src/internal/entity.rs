//! The operations on actions that are open to actions, tool calls and scripts.
//! None of them makes, changes or deletes an action that runs a command or sends
//! a request.

use vstd::prelude::*;
use vstd::string::*;

use crate::chance::{is_utc_time, is_uuid, new_uuid, now_rfc3339};
use crate::entities::{Action, ActionInput, ActionRecord, ActionType, InputRecord};
use crate::internal::{guard_executable_action, guard_refusal, path_or_root, require_str, required};
use crate::json::{object_of, pairs_view};
use crate::manager::redacted;
use crate::store::{action_at, is_save, no_action, save_outcome, saved, verdict, with_action, without_action, ActionStore};
use crate::text::{cat4, trimmed};
use crate::value::{Json, Value};

verus! {

broadcast use crate::value::group_value_views;

/// The type of the action at a path and name, if there is one.
pub open spec fn type_at(store: ActionStore, path: Seq<char>, name: Seq<char>) -> Option<ActionType> {
    match action_at(store@, path, name) {
        Some(a) => a.action_type,
        None => None,
    }
}

fn existing_type(store: &ActionStore, path: &str, name: &str) -> (r: Option<ActionType>)
    ensures
        r == type_at(*store, path@, trimmed(name@)),
{
    match store.get(path, name, "") {
        Ok(a) => a.action_type,
        Err(_) => None,
    }
}

/// Whether a guarded save answers and changes what it should, once the guard has
/// let it through.
pub open spec fn is_guarded_save(
    r: Result<Action, String>,
    before: Seq<ActionRecord>,
    after: Seq<ActionRecord>,
    capabilities: Result<(), Seq<char>>,
    path: Seq<char>,
    name: Seq<char>,
    input: InputRecord,
    new_id: Seq<char>,
    now: Seq<char>,
) -> bool {
    match save_outcome(capabilities, before, path, name, input, new_id, now) {
        Ok(a) => r is Ok && r->Ok_0@ == redacted(a) && after == with_action(before, a),
        Err(e) => r is Err && r->Err_0@ == e.message() && after == before,
    }
}

/// Whether this saves an action on a caller's behalf.
pub open spec fn is_action_save<V: FnOnce(&Vec<String>) -> Result<(), String>>(
    r: Result<Action, String>,
    before: ActionStore,
    after: ActionStore,
    params: Json,
    path: Seq<char>,
    input: ActionInput,
    validate: V,
) -> bool {
    match required(params, "name"@) {
        Err(e) => r is Err && r->Err_0@ == e && after@ == before@,
        Ok(name) => match guard_refusal(
            type_at(before, path, trimmed(name)),
            input@.action_type,
            params.str_or("path"@, "/"@),
            name,
            "create or modify"@,
        ) {
            Some(e) => r is Err && r->Err_0@ == e && after@ == before@,
            None => exists|v: Result<(), String>, id: Seq<char>, now: Seq<char>|
                call_ensures(validate, (&input.capabilities,), v) && is_uuid(id)
                    && is_utc_time(now) && #[trigger] is_guarded_save(
                    r,
                    before@,
                    after@,
                    verdict(v),
                    path,
                    trimmed(name),
                    input@,
                    id,
                    now,
                ),
        },
    }
}

/// Create or update an action, within the guard. The action's stored type counts
/// as much as the one it is to have, so that an update that leaves the type out
/// cannot rewrite a command. `path` is the normalized form of the one that the
/// call names, and `validate` is what decides on the input's capabilities. A new
/// action has a fresh identifier.
pub fn action_save<V: FnOnce(&Vec<String>) -> Result<(), String>>(
    store: &mut ActionStore,
    params: &Value,
    path: &str,
    input: ActionInput,
    validate: V,
) -> (r: Result<Action, String>)
    requires
        match required(params@, "name"@) {
            Ok(name) => guard_refusal(
                type_at(*old(store), path@, trimmed(name)),
                input@.action_type,
                params@.str_or("path"@, "/"@),
                name,
                "create or modify"@,
            ) is None ==> call_requires(validate, (&input.capabilities,)),
            Err(_) => true,
        },
    ensures
        is_action_save(r, *old(store), *final(store), params@, path@, input, validate),
{
    let name = match require_str(params, "name") {
        Ok(s) => s,
        Err(e) => {
            return Err(e);
        },
    };
    let existing = existing_type(store, path, name);
    if let Err(e) = guard_executable_action(
        existing,
        input.action_type,
        path_or_root(params),
        name,
        "create or modify",
    ) {
        return Err(e);
    }
    let id = new_uuid();
    let now = now_rfc3339();
    let ghost before = store@;
    let ghost given = input;
    let ghost check = validate;
    let saved = store.save(path, name, input, id.as_str(), now.as_str(), validate);
    let ghost answer = saved;
    let r = match saved {
        Ok(a) => Ok(a),
        Err(e) => Err(e.message()),
    };
    proof {
        let v = choose|v: Result<(), String>| #[trigger]
            call_ensures(check, (&given.capabilities,), v) && is_save(
                answer,
                before,
                store@,
                verdict(v),
                path@,
                trimmed(name@),
                given@,
                id@,
                now@,
            );
        assert(is_guarded_save(
            r,
            before,
            store@,
            verdict(v),
            path@,
            trimmed(name@),
            given@,
            id@,
            now@,
        ));
    }
    r
}

/// Whether a call wants hidden actions treated as missing.
pub fn exclude_hidden_flag(params: &Value) -> (r: bool)
    ensures
        r == (params@.get_bool("exclude_hidden"@) == Some(true)),
{
    match params.get_bool("exclude_hidden") {
        Some(b) => b,
        None => false,
    }
}

/// Whether this is an action that was found, as a caller is shown it.
pub open spec fn is_shown_action(
    r: Result<Action, String>,
    params: Json,
    name: Seq<char>,
    found: Action,
    hidden: bool,
) -> bool {
    if hidden && params.get_bool("exclude_hidden"@) == Some(true) {
        r is Err && r->Err_0@ == "action not found: "@ + params.str_or("path"@, "/"@) + "/"@
            + name
    } else {
        r is Ok && r->Ok_0 == found
    }
}

/// What a read of an action answers. `found` is the action, redacted, and
/// `hidden` whether the tool policy hides it: where the call excludes hidden
/// actions, a hidden one cannot be told from a missing one.
pub fn action_get(params: &Value, name: &str, found: Action, hidden: bool) -> (r: Result<
    Action,
    String,
>)
    ensures
        is_shown_action(r, params@, name@, found, hidden),
{
    if exclude_hidden_flag(params) && hidden {
        return Err(cat4("action not found: ", path_or_root(params), "/", name));
    }
    Ok(found)
}

/// Whether this deletes an action on a caller's behalf.
pub open spec fn is_action_delete(
    r: Result<Value, String>,
    before: ActionStore,
    after: ActionStore,
    params: Json,
    path: Seq<char>,
    action_ref: Seq<char>,
) -> bool {
    match required(params, "name"@) {
        Err(e) => r is Err && r->Err_0@ == e && after@ == before@,
        Ok(name) => match guard_refusal(
            type_at(before, path, trimmed(name)),
            None,
            params.str_or("path"@, "/"@),
            name,
            "delete"@,
        ) {
            Some(e) => r is Err && r->Err_0@ == e && after@ == before@,
            None => match action_at(before@, path, trimmed(name)) {
                Some(_) => r is Ok && r->Ok_0@ == object_of(
                    seq![("deleted"@, Json::Bool(true))],
                ) && after@ == without_action(before@, path, trimmed(name)),
                None => r is Err && r->Err_0@ == no_action(action_ref).message() && after@ == before@,
            },
        },
    }
}

/// Delete an action, within the guard.
pub fn action_delete(store: &mut ActionStore, params: &Value, path: &str, action_ref: &str) -> (r:
    Result<Value, String>)
    ensures
        is_action_delete(r, *old(store), *final(store), params@, path@, action_ref@),
{
    let name = match require_str(params, "name") {
        Ok(s) => s,
        Err(e) => {
            return Err(e);
        },
    };
    let existing = existing_type(store, path, name);
    if let Err(e) = guard_executable_action(existing, None, path_or_root(params), name, "delete") {
        return Err(e);
    }
    match store.delete(path, name, action_ref) {
        Ok(_) => {
            let pairs: Vec<(&'static str, Value)> = vec![("deleted", Value::Bool(true))];
            assert(pairs_view(pairs@) =~= seq![("deleted"@, Json::Bool(true))]);
            Ok(Value::object(pairs))
        },
        Err(e) => Err(e.message()),
    }
}

/// Whether this is the place that some parameters name.
pub open spec fn is_entity_named(r: Result<(String, String), String>, params: Json) -> bool {
    match required(params, "name"@) {
        Err(e) => r is Err && r->Err_0@ == e,
        Ok(name) => r is Ok && r->Ok_0.0@ == params.str_or("path"@, "/"@) && r->Ok_0.1@
            == name,
    }
}

/// What a call that names an entity asks for: its path and name.
pub fn entity_named(params: &Value) -> (r: Result<(String, String), String>)
    ensures
        is_entity_named(r, params@),
{
    match require_str(params, "name") {
        Ok(name) => Ok((path_or_root(params).to_owned(), name.to_owned())),
        Err(e) => Err(e),
    }
}

/// Whatever is saved through the guard, no action that runs a command or sends a
/// request is there that was not there before, and none that was there is
/// touched.
pub proof fn lemma_guarded_save_spares_executables(
    rows: Seq<crate::entities::ActionRecord>,
    path: Seq<char>,
    name: Seq<char>,
    input: crate::entities::InputRecord,
    new_id: Seq<char>,
    now: Seq<char>,
    shown_path: Seq<char>,
    verb: Seq<char>,
)
    requires
        saved(rows, path, name, input, new_id, now) is Ok,
        guard_refusal(
            match action_at(rows, path, name) {
                Some(a) => a.action_type,
                None => None,
            },
            input.action_type,
            shown_path,
            name,
            verb,
        ) is None,
    ensures
        ({
            let a = saved(rows, path, name, input, new_id, now)->Ok_0;
            &&& a.action_type != Some(ActionType::Command)
            &&& a.action_type != Some(ActionType::Webhook)
            &&& (match action_at(rows, path, name) {
                Some(b) => b.action_type != Some(ActionType::Command) && b.action_type != Some(
                    ActionType::Webhook,
                ),
                None => true,
            })
        }),
{
}

} // verus!
