//! The secrets of the calling action.
//!
//! A secret is opened by a key that the calling action's own config maps it to.
//! The key never leaves: what comes out is the value that it unlocked.

use vstd::prelude::*;
use vstd::string::*;

use crate::caller::{Caller, CallerFrame};
use crate::execution::{config_get, config_value};
use crate::internal::{require_str, required, text_of};
use crate::json::{json_opt_str, object_of, pairs_view};
use crate::manager::caller_frame;
use crate::secrets::{may_read, may_write, raw_view, takes, unit_view, SecretStore};
use crate::text::{cat3, cat5, may_call, opt_string};
use crate::value::{opt_json, Json, Value};

verus! {

broadcast use crate::value::group_value_views;

/// The key that the calling action holds for a secret, or why there is none.
pub open spec fn key_of(caller: Option<CallerFrame>, name: Seq<char>) -> Result<Seq<char>, Seq<char>> {
    match caller {
        None => Err(
            "secret '"@ + name
                + "' is scoped to the calling action, but this call has no action caller — get_secret/set_secret can only be used from within an action"@,
        ),
        Some(c) => match c.secret_key(name) {
            Some(k) => Ok(k),
            None => Err(
                "no key configured for secret '"@ + name + "' in "@ + c.display()
                    + "'s action_config.secrets"@,
            ),
        },
    }
}

/// The key that the calling action holds for a secret.
pub fn caller_secret_key<'a>(caller: Option<&'a Caller>, name: &str) -> (r: Result<&'a str, String>)
    ensures
        text_of(r) == key_of(caller_frame(caller), name@),
{
    match caller {
        None => Err(
            cat3(
                "secret '",
                name,
                "' is scoped to the calling action, but this call has no action caller — get_secret/set_secret can only be used from within an action",
            ),
        ),
        Some(c) => match c.secret_key(name) {
            Some(k) => Ok(k),
            None => {
                let who = c.display();
                Err(
                    cat5(
                        "no key configured for secret '",
                        name,
                        "' in ",
                        who.as_str(),
                        "'s action_config.secrets",
                    ),
                )
            },
        },
    }
}

/// What reading a secret answers, by the value that is there.
pub open spec fn secret_reply(value: Option<Seq<char>>) -> Json {
    object_of(seq![("value"@, json_opt_str(value))])
}

/// The answer to a read that came to `read`; what went wrong is handed on.
pub open spec fn read_reply(read: Result<Option<Seq<char>>, Seq<char>>) -> Result<Json, Seq<char>> {
    match read {
        Ok(v) => Ok(secret_reply(v)),
        Err(e) => Err(e),
    }
}

/// The answer to a write that came to `written`; what went wrong is handed on.
pub open spec fn write_reply(written: Result<(), Seq<char>>) -> Result<Json, Seq<char>> {
    match written {
        Ok(_) => Ok(object_of(seq![("set"@, Json::Bool(true))])),
        Err(e) => Err(e),
    }
}

/// Whether reading `name` with `key` can be answered so.
pub open spec fn may_answer_read<G: Fn(&str) -> Result<Option<String>, String>>(
    get: G,
    name: Seq<char>,
    key: Seq<char>,
    reply: Result<Json, Seq<char>>,
) -> bool {
    exists|read: Result<Option<Seq<char>>, Seq<char>>|
        #[trigger] may_read(get, name, key, read) && reply == read_reply(read)
}

/// Whether storing `value` under `name` with `key` can be answered so.
pub open spec fn may_answer_write<S: Fn(&str, &str) -> Result<(), String>>(
    set: S,
    name: Seq<char>,
    value: Seq<char>,
    key: Seq<char>,
    reply: Result<Json, Seq<char>>,
) -> bool {
    exists|written: Result<(), Seq<char>>|
        #[trigger] may_write(set, name, value, key, written) && reply == write_reply(written)
}

pub open spec fn reply_view(r: Result<Value, String>) -> Result<Json, Seq<char>> {
    match r {
        Ok(v) => Ok(v@),
        Err(e) => Err(e@),
    }
}

/// Whether this reads a secret of the caller's.
pub open spec fn is_secret_read<G: Fn(&str) -> Result<Option<String>, String>>(
    r: Result<Value, String>,
    get: G,
    params: Json,
    caller: Option<CallerFrame>,
) -> bool {
    match required(params, "name"@) {
        Err(e) => r is Err && r->Err_0@ == e,
        Ok(name) => match key_of(caller, name) {
            Err(e) => r is Err && r->Err_0@ == e,
            Ok(key) => may_answer_read(get, name, key, reply_view(r)),
        },
    }
}

/// Read a secret of the calling action; one that is not there reads as null.
pub fn get_secret<G: Fn(&str) -> Result<Option<String>, String>, S, D>(
    store: &SecretStore<G, S, D>,
    params: &Value,
    caller: Option<&Caller>,
) -> (r: Result<Value, String>)
    requires
        match required(params@, "name"@) {
            Ok(name) => key_of(caller_frame(caller), name) is Ok ==> may_call(
                store.active().get,
                name,
            ),
            Err(_) => true,
        },
    ensures
        is_secret_read(r, store.active().get, params@, caller_frame(caller)),
{
    let name = match require_str(params, "name") {
        Ok(s) => s,
        Err(e) => {
            return Err(e);
        },
    };
    let key = match caller_secret_key(caller, name) {
        Ok(k) => k,
        Err(e) => {
            return Err(e);
        },
    };
    let read = crate::secrets::get_secret(store, name, key);
    let ghost seen = raw_view(read);
    assert(may_read(store.active().get, name@, key@, seen));
    match read {
        Ok(v) => {
            let value = match &v {
                Some(s) => Value::text(s.as_str()),
                None => Value::Null,
            };
            let pairs: Vec<(&'static str, Value)> = vec![("value", value)];
            assert(pairs_view(pairs@) =~= seq![("value"@, json_opt_str(opt_string(v)))]);
            let reply = Ok(Value::object(pairs));
            assert(reply_view(reply) == read_reply(seen));
            reply
        },
        Err(e) => Err(e),
    }
}

/// Whether this writes a secret of the caller's.
pub open spec fn is_secret_write<S: Fn(&str, &str) -> Result<(), String>>(
    r: Result<Value, String>,
    set: S,
    params: Json,
    caller: Option<CallerFrame>,
) -> bool {
    match (required(params, "name"@), required(params, "value"@)) {
        (Err(e), _) => r is Err && r->Err_0@ == e,
        (Ok(_), Err(e)) => r is Err && r->Err_0@ == e,
        (Ok(name), Ok(value)) => match key_of(caller, name) {
            Err(e) => r is Err && r->Err_0@ == e,
            Ok(key) => may_answer_write(
                set,
                name,
                value,
                key,
                reply_view(r),
            ),
        },
    }
}

/// Write a secret of the calling action.
pub fn set_secret<G, S: Fn(&str, &str) -> Result<(), String>, D>(
    store: &SecretStore<G, S, D>,
    params: &Value,
    caller: Option<&Caller>,
) -> (r: Result<Value, String>)
    requires
        match (required(params@, "name"@), required(params@, "value"@)) {
            (Ok(name), Ok(value)) => match key_of(caller_frame(caller), name) {
                Ok(key) => takes(store.active().set, name, value, key),
                Err(_) => true,
            },
            _ => true,
        },
    ensures
        is_secret_write(r, store.active().set, params@, caller_frame(caller)),
{
    let name = match require_str(params, "name") {
        Ok(s) => s,
        Err(e) => {
            return Err(e);
        },
    };
    let value = match require_str(params, "value") {
        Ok(s) => s,
        Err(e) => {
            return Err(e);
        },
    };
    let key = match caller_secret_key(caller, name) {
        Ok(k) => k,
        Err(e) => {
            return Err(e);
        },
    };
    let written = crate::secrets::set_secret(store, name, value, key);
    let ghost seen = unit_view(written);
    assert(may_write(store.active().set, name@, value@, key@, seen));
    match written {
        Ok(_) => {
            let pairs: Vec<(&'static str, Value)> = vec![("set", Value::Bool(true))];
            assert(pairs_view(pairs@) =~= seq![("set"@, Json::Bool(true))]);
            let reply = Ok(Value::object(pairs));
            assert(reply_view(reply) == write_reply(seen));
            reply
        },
        Err(e) => Err(e),
    }
}

/// Without a calling action there is no secret to reach, and an action reaches
/// only the secrets that its own config has a key for.
pub proof fn lemma_secrets_are_scoped(caller: Option<CallerFrame>, name: Seq<char>)
    ensures
        key_of(caller, name) is Ok <==> caller is Some && caller->0.secret_key(name) is Some,
{
}

// ── The secrets of the executing action ──────────────────────────────────────

/// The key that an action's config holds for a secret.
pub open spec fn own_key(cfg: Option<Json>, name: Seq<char>) -> Option<Seq<char>> {
    match config_get(cfg, "secrets"@) {
        Some(s) => s.get_str(name),
        None => None,
    }
}

/// The key that an action's own config holds for a secret.
pub fn resolve_secret_key(action_config: Option<&Value>, name: &str) -> (r: Option<String>)
    ensures
        opt_string(r) == own_key(opt_json(action_config), name@),
{
    match config_value(action_config, "secrets") {
        Some(s) => match s.get_str(name) {
            Some(k) => Some(k.to_owned()),
            None => None,
        },
        None => None,
    }
}

/// The value that a read came to, none where it went wrong.
pub open spec fn value_read(read: Result<Option<Seq<char>>, Seq<char>>) -> Option<Seq<char>> {
    match read {
        Ok(v) => v,
        Err(_) => None,
    }
}

/// Whether reading `name` with `key` can be shown so to the executing action.
pub open spec fn may_show<G: Fn(&str) -> Result<Option<String>, String>>(
    get: G,
    name: Seq<char>,
    key: Seq<char>,
    shown: Json,
) -> bool {
    exists|read: Result<Option<Seq<char>>, Seq<char>>|
        #[trigger] may_read(get, name, key, read) && shown == secret_reply(value_read(read))
}

/// Whether this reads a secret that a config names.
pub open spec fn is_own_secret_read<G: Fn(&str) -> Result<Option<String>, String>>(r: Value, get: G, params: Json, cfg: Option<Json>) -> bool {
    let name = params.str_or("name"@, ""@);
    match own_key(cfg, name) {
        None => r@ == secret_reply(None),
        Some(key) => may_show(get, name, key, r@),
    }
}

/// Read a secret of the executing action; one that cannot be read is null.
pub fn get_own_secret<G: Fn(&str) -> Result<Option<String>, String>, S, D>(
    store: &SecretStore<G, S, D>,
    params: &Value,
    action_config: Option<&Value>,
) -> (r: Value)
    requires
        ({
            let name = params@.str_or("name"@, ""@);
            own_key(opt_json(action_config), name) is Some ==> may_call(store.active().get, name)
        }),
    ensures
        is_own_secret_read(r, store.active().get, params@, opt_json(action_config)),
{
    let name = params.str_or("name", "");
    let ghost mut seen: Result<Option<Seq<char>>, Seq<char>> = Ok(None);
    let value: Option<String> = match resolve_secret_key(action_config, name) {
        Some(key) => {
            let read = crate::secrets::get_secret(store, name, key.as_str());
            proof {
                seen = raw_view(read);
                assert(may_read(store.active().get, name@, key@, seen));
            }
            match read {
                Ok(v) => v,
                Err(_) => None,
            }
        },
        None => None,
    };
    let out = match &value {
        Some(s) => Value::text(s.as_str()),
        None => Value::Null,
    };
    let pairs: Vec<(&'static str, Value)> = vec![("value", out)];
    assert(pairs_view(pairs@) =~= seq![("value"@, json_opt_str(opt_string(value)))]);
    assert(opt_string(value) == value_read(seen));
    Value::object(pairs)
}

/// Whether this writes a secret that a config names.
pub open spec fn is_own_secret_write<S: Fn(&str, &str) -> Result<(), String>>(r: Result<Value, String>, set: S, params: Json, cfg: Option<Json>) -> bool {
    match (required(params, "name"@), required(params, "value"@)) {
        (Err(e), _) => r is Err && r->Err_0@ == e,
        (Ok(_), Err(e)) => r is Err && r->Err_0@ == e,
        (Ok(name), Ok(value)) => match own_key(cfg, name) {
            None => r is Err && r->Err_0@ == "no key configured for secret '"@ + name
                + "' in the calling action's action_config.secrets"@,
            Some(key) => may_answer_write(
                set,
                name,
                value,
                key,
                reply_view(r),
            ),
        },
    }
}

/// Write a secret of the executing action.
pub fn set_own_secret<G, S: Fn(&str, &str) -> Result<(), String>, D>(
    store: &SecretStore<G, S, D>,
    params: &Value,
    action_config: Option<&Value>,
) -> (r: Result<Value, String>)
    requires
        match (required(params@, "name"@), required(params@, "value"@)) {
            (Ok(name), Ok(value)) => match own_key(opt_json(action_config), name) {
                Some(key) => takes(store.active().set, name, value, key),
                None => true,
            },
            _ => true,
        },
    ensures
        is_own_secret_write(r, store.active().set, params@, opt_json(action_config)),
{
    let name = match require_str(params, "name") {
        Ok(s) => s,
        Err(e) => {
            return Err(e);
        },
    };
    let value = match require_str(params, "value") {
        Ok(s) => s,
        Err(e) => {
            return Err(e);
        },
    };
    let key = match resolve_secret_key(action_config, name) {
        Some(k) => k,
        None => {
            return Err(
                cat3(
                    "no key configured for secret '",
                    name,
                    "' in the calling action's action_config.secrets",
                ),
            );
        },
    };
    let written = crate::secrets::set_secret(store, name, value, key.as_str());
    let ghost seen = unit_view(written);
    assert(may_write(store.active().set, name@, value@, key@, seen));
    match written {
        Ok(_) => {
            let pairs: Vec<(&'static str, Value)> = vec![("set", Value::Bool(true))];
            assert(pairs_view(pairs@) =~= seq![("set"@, Json::Bool(true))]);
            let reply = Ok(Value::object(pairs));
            assert(reply_view(reply) == write_reply(seen));
            reply
        },
        Err(e) => Err(e),
    }
}

} // verus!
