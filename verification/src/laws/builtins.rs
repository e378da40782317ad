//! The built-in operations: their names, their parameters, what they may touch, and
//! the variables.

use vstd::prelude::*;
use vstd::string::*;

use crate::entities::{Action, ActionInput, ActionRecord, ActionType};
use crate::internal::{folded, is_dispatch, operation_named, operation_of, required, Dispatch};
use crate::internal::Operation;
use crate::internal::entity::{is_action_delete, is_action_save, is_entity_named, is_guarded_save};
use crate::internal::entity::is_shown_action;
use crate::internal::env::{is_env_read, is_env_write, namespace_in, persist_key, with_entries};
use crate::internal::env::{with_vars, write_persists, EnvStore};
use crate::internal::params::{camel, camel_from, is_lower, is_upper, normalized, snake};
use crate::internal::params::{to_lower_char, to_upper_char, with_alias, with_aliases};
use crate::json::{json_opt_str, lemma_key_index, lemma_member_of_with_member, member};
use crate::laws::lemma_pair_is_member;
use crate::store::{action_at, lemma_deleted_is_gone, lemma_saved_is_on_record, places_distinct};
use crate::store::{save_outcome, saved, verdict, ActionStore};
use crate::text::trimmed;
use crate::value::{Json, Value};

verus! {

// ── Names ────────────────────────────────────────────────────────────────────

/// The names of an operation, with underscores between the words.
pub open spec fn is_name_of(f: Seq<char>, op: Operation) -> bool {
    match op {
        Operation::OauthStart => f == "oauth_start"@,
        Operation::OauthAwait => f == "oauth_await"@,
        Operation::OauthStop => f == "oauth_stop"@,
        Operation::SaveDocument => f == "entity_save_document"@ || f == "entity_post_document"@,
        Operation::GetDocument => f == "entity_get_document"@,
        Operation::DeleteDocument => f == "entity_delete_document"@,
        Operation::ListDocuments => f == "entity_list_documents"@,
        Operation::ListDocumentPaths => f == "entity_list_document_paths"@,
        Operation::SaveType => f == "entity_save_type"@ || f == "entity_post_type"@,
        Operation::GetType => f == "entity_get_type"@,
        Operation::DeleteType => f == "entity_delete_type"@,
        Operation::ListTypes => f == "entity_list_types"@,
        Operation::ListTypePaths => f == "entity_list_type_paths"@,
        Operation::SaveAction => f == "entity_save_action"@ || f == "entity_post_action"@,
        Operation::GetAction => f == "entity_get_action"@,
        Operation::DeleteAction => f == "entity_delete_action"@,
        Operation::ListActions => f == "entity_list_actions"@,
        Operation::ListActionPaths => f == "entity_list_action_paths"@,
        Operation::SearchDocuments => f == "search_documents"@,
        Operation::SearchActions => f == "search_actions"@,
        Operation::FilePut => f == "file_put"@,
        Operation::FileGet => f == "file_get"@,
        Operation::FileDelete => f == "file_delete"@,
        Operation::FileList => f == "file_list"@,
        Operation::FileCopy => f == "file_copy"@,
        Operation::DirCopy => f == "dir_copy"@,
        Operation::DirDelete => f == "dir_delete"@,
        Operation::GetField => f == "get_field"@,
        Operation::SetField => f == "set_field"@,
        Operation::GetFieldAtPath => f == "get_field_at_path"@,
        Operation::SetFieldAtPath => f == "set_field_at_path"@,
        Operation::GetEnv => f == "get_env"@,
        Operation::SetEnv => f == "set_env"@,
        Operation::HttpRequest => f == "http_request"@,
        Operation::FetchHtml => f == "fetch_html"@,
        Operation::HttpStreamStart => f == "http_stream_start"@,
        Operation::HttpStreamPoll => f == "http_stream_poll"@,
        Operation::HttpStreamClose => f == "http_stream_close"@,
        Operation::OpenUrl => f == "open_url"@,
        Operation::GetSecret => f == "get_secret"@,
        Operation::SetSecret => f == "set_secret"@,
        Operation::ScriptExec => f == "script_exec"@,
    }
}

/// An operation is found by its names and by no others.
#[verifier::rlimit(60)]
pub proof fn lemma_operations_by_name(f: Seq<char>, op: Operation)
    ensures
        operation_of(f) == Some(op) <==> is_name_of(f, op),
{
    reveal_strlit("oauth_start");
    reveal_strlit("oauth_await");
    reveal_strlit("oauth_stop");
    reveal_strlit("entity_save_document");
    reveal_strlit("entity_post_document");
    reveal_strlit("entity_get_document");
    reveal_strlit("entity_delete_document");
    reveal_strlit("entity_list_documents");
    reveal_strlit("entity_list_document_paths");
    reveal_strlit("entity_save_type");
    reveal_strlit("entity_post_type");
    reveal_strlit("entity_get_type");
    reveal_strlit("entity_delete_type");
    reveal_strlit("entity_list_types");
    reveal_strlit("entity_list_type_paths");
    reveal_strlit("entity_save_action");
    reveal_strlit("entity_post_action");
    reveal_strlit("entity_get_action");
    reveal_strlit("entity_delete_action");
    reveal_strlit("entity_list_actions");
    reveal_strlit("entity_list_action_paths");
    reveal_strlit("search_documents");
    reveal_strlit("search_actions");
    reveal_strlit("file_put");
    reveal_strlit("file_get");
    reveal_strlit("file_delete");
    reveal_strlit("file_list");
    reveal_strlit("file_copy");
    reveal_strlit("dir_copy");
    reveal_strlit("dir_delete");
    reveal_strlit("get_field");
    reveal_strlit("set_field");
    reveal_strlit("get_field_at_path");
    reveal_strlit("set_field_at_path");
    reveal_strlit("get_env");
    reveal_strlit("set_env");
    reveal_strlit("http_request");
    reveal_strlit("fetch_html");
    reveal_strlit("http_stream_start");
    reveal_strlit("http_stream_poll");
    reveal_strlit("http_stream_close");
    reveal_strlit("open_url");
    reveal_strlit("get_secret");
    reveal_strlit("set_secret");
    reveal_strlit("script_exec");
    assert("oauth_start"@.len() == 11 && "oauth_start"@[0] == 'o' && "oauth_start"@[6] == 's');
    assert("oauth_await"@.len() == 11 && "oauth_await"@[0] == 'o' && "oauth_await"@[6] == 'a');
    assert("oauth_stop"@.len() == 10 && "oauth_stop"@[0] == 'o');
    assert("entity_save_document"@.len() == 20 && "entity_save_document"@[7] == 's');
    assert("entity_post_document"@.len() == 20 && "entity_post_document"@[7] == 'p');
    assert("entity_get_document"@.len() == 19 && "entity_get_document"@[7] == 'g');
    assert("entity_delete_document"@.len() == 22 && "entity_delete_document"@[7] == 'd');
    assert("entity_list_documents"@.len() == 21);
    assert("entity_list_document_paths"@.len() == 26);
    assert("entity_save_type"@.len() == 16 && "entity_save_type"@[0] == 'e' && "entity_save_type"@[7] == 's');
    assert("entity_post_type"@.len() == 16 && "entity_post_type"@[0] == 'e' && "entity_post_type"@[7] == 'p');
    assert("entity_get_type"@.len() == 15);
    assert("entity_delete_type"@.len() == 18 && "entity_delete_type"@[7] == 'd');
    assert("entity_list_types"@.len() == 17 && "entity_list_types"@[0] == 'e' && "entity_list_types"@[7] == 'l');
    assert("entity_list_type_paths"@.len() == 22 && "entity_list_type_paths"@[7] == 'l');
    assert("entity_save_action"@.len() == 18 && "entity_save_action"@[7] == 's');
    assert("entity_post_action"@.len() == 18 && "entity_post_action"@[7] == 'p');
    assert("entity_get_action"@.len() == 17 && "entity_get_action"@[0] == 'e' && "entity_get_action"@[7] == 'g');
    assert("entity_delete_action"@.len() == 20 && "entity_delete_action"@[7] == 'd');
    assert("entity_list_actions"@.len() == 19 && "entity_list_actions"@[7] == 'l');
    assert("entity_list_action_paths"@.len() == 24);
    assert("search_documents"@.len() == 16 && "search_documents"@[0] == 's');
    assert("search_actions"@.len() == 14);
    assert("file_put"@.len() == 8 && "file_put"@[0] == 'f' && "file_put"@[5] == 'p');
    assert("file_get"@.len() == 8 && "file_get"@[0] == 'f' && "file_get"@[5] == 'g');
    assert("file_delete"@.len() == 11 && "file_delete"@[0] == 'f');
    assert("file_list"@.len() == 9 && "file_list"@[0] == 'f' && "file_list"@[5] == 'l');
    assert("file_copy"@.len() == 9 && "file_copy"@[0] == 'f' && "file_copy"@[5] == 'c');
    assert("dir_copy"@.len() == 8 && "dir_copy"@[0] == 'd');
    assert("dir_delete"@.len() == 10 && "dir_delete"@[0] == 'd');
    assert("get_field"@.len() == 9 && "get_field"@[0] == 'g');
    assert("set_field"@.len() == 9 && "set_field"@[0] == 's');
    assert("get_field_at_path"@.len() == 17 && "get_field_at_path"@[0] == 'g');
    assert("set_field_at_path"@.len() == 17 && "set_field_at_path"@[0] == 's');
    assert("get_env"@.len() == 7 && "get_env"@[0] == 'g');
    assert("set_env"@.len() == 7 && "set_env"@[0] == 's');
    assert("http_request"@.len() == 12);
    assert("fetch_html"@.len() == 10 && "fetch_html"@[0] == 'f');
    assert("http_stream_start"@.len() == 17 && "http_stream_start"@[0] == 'h' && "http_stream_start"@[12] == 's');
    assert("http_stream_poll"@.len() == 16 && "http_stream_poll"@[0] == 'h');
    assert("http_stream_close"@.len() == 17 && "http_stream_close"@[0] == 'h' && "http_stream_close"@[12] == 'c');
    assert("open_url"@.len() == 8 && "open_url"@[0] == 'o');
    assert("get_secret"@.len() == 10 && "get_secret"@[0] == 'g');
    assert("set_secret"@.len() == 10 && "set_secret"@[0] == 's');
    assert("script_exec"@.len() == 11 && "script_exec"@[0] == 's');
}

/// Dashes and underscores are one and the same in a name, and every other character
/// counts.
pub proof fn lemma_dashes_in_names(f: Seq<char>, i: int)
    requires
        0 <= i < f.len(),
    ensures
        folded(f).len() == f.len(),
        f[i] != '-' ==> folded(f)[i] == f[i],
        f[i] == '-' ==> folded(f)[i] == '_',
        operation_named(f) == operation_named(folded(f)),
        operation_named(f) == operation_named(f.update(i, if f[i] == '-' {
            '_'
        } else {
            f[i]
        })),
{
    let g = f.update(i, if f[i] == '-' {
        '_'
    } else {
        f[i]
    });
    assert(folded(folded(f)) =~= folded(f));
    assert(folded(g) =~= folded(f));
}

/// An internal action is a built-in operation if it has the name of one; else it is a
/// plugin's, if one registered the name; else it is unknown.
pub proof fn lemma_builtins_before_plugins(
    r: Result<Dispatch, String>,
    f: Seq<char>,
    registered: bool,
    op: Operation,
)
    requires
        is_dispatch(r, f, registered),
    ensures
        is_name_of(folded(f), op) ==> r == Ok::<Dispatch, String>(Dispatch::Builtin(op)),
        (forall|o: Operation| !is_name_of(folded(f), o)) ==> (if registered {
            r == Ok::<Dispatch, String>(Dispatch::Plugin)
        } else {
            r is Err
        }),
{
    lemma_operations_by_name(folded(f), op);
    if let Some(o) = operation_named(f) {
        lemma_operations_by_name(folded(f), o);
    }
}

/// A required parameter is there if and only if it is a string, and then it is that
/// string.
pub proof fn lemma_required(params: Json, field: Seq<char>)
    ensures
        required(params, field) is Ok <==> (params.get(field) matches Some(Json::Str(_))),
        required(params, field) matches Ok(s) ==> params.get(field) == Some(Json::Str(s)),
{
}

// ── Spellings ────────────────────────────────────────────────────────────────

proof fn lemma_snake_front(c: char, s: Seq<char>)
    ensures
        snake(seq![c] + s) == snake(seq![c]) + snake(s),
        snake(seq![c]) == (if is_upper(c) {
            seq!['_', to_lower_char(c)]
        } else {
            seq![c]
        }),
    decreases s.len(),
{
    reveal_with_fuel(snake, 2);
    assert(seq![c].drop_last() =~= Seq::<char>::empty());
    assert(snake(seq![c]) =~= if is_upper(c) {
        seq!['_', to_lower_char(c)]
    } else {
        seq![c]
    });
    let all = seq![c] + s;
    if s.len() == 0 {
        assert(all =~= seq![c]);
        assert(snake(all) =~= snake(seq![c]) + snake(s));
    } else {
        lemma_snake_front(c, s.drop_last());
        assert(all.drop_last() =~= seq![c] + s.drop_last());
        assert(all.last() == s.last());
        assert(snake(all) =~= snake(seq![c]) + snake(s));
    }
}

proof fn lemma_camel_tail(s: Seq<char>, t: Seq<char>, i: int)
    requires
        0 <= i <= t.len(),
    ensures
        camel_from(s + t, s.len() + i) == camel_from(t, i),
    decreases t.len() - i,
{
    let all = s + t;
    let k = s.len() + i;
    if i < t.len() {
        assert(all[k] == t[i]);
        if i + 1 < t.len() {
            assert(all[k + 1] == t[i + 1]);
        }
        if t[i] == '_' && i + 1 < t.len() && is_lower(t[i + 1]) {
            lemma_camel_tail(s, t, i + 2);
        } else {
            lemma_camel_tail(s, t, i + 1);
        }
    }
}

proof fn lemma_letter_cases(c: char)
    ensures
        is_upper(c) ==> is_lower(to_lower_char(c)) && to_upper_char(to_lower_char(c)) == c,
        is_lower(c) ==> is_upper(to_upper_char(c)) && to_lower_char(to_upper_char(c)) == c,
{
}

/// A name in camel case is read back from its snake case.
pub proof fn lemma_camel_undoes_snake(s: Seq<char>)
    requires
        forall|i: int| 0 <= i < s.len() ==> #[trigger] s[i] != '_',
    ensures
        camel(snake(s)) == s,
    decreases s.len(),
{
    if s.len() == 0 {
        assert(snake(s) =~= Seq::<char>::empty());
        assert(camel(snake(s)) =~= s);
    } else {
        let c = s[0];
        let rest = s.skip(1);
        assert(s =~= seq![c] + rest);
        assert forall|i: int| 0 <= i < rest.len() implies #[trigger] rest[i] != '_' by {
            assert(rest[i] == s[i + 1]);
        }
        lemma_camel_undoes_snake(rest);
        lemma_snake_front(c, rest);
        lemma_letter_cases(c);
        let head = snake(seq![c]);
        let all = head + snake(rest);
        lemma_camel_tail(head, snake(rest), 0);
        if is_upper(c) {
            assert(all[0] == '_' && all[1] == to_lower_char(c));
            assert(camel(all) == seq![to_upper_char(all[1])] + camel_from(all, 2));
        } else {
            assert(all[0] == c && c != '_');
            assert(camel(all) == seq![all[0]] + camel_from(all, 1));
        }
        assert(camel(snake(s)) =~= s);
    }
}

/// A name in snake case is read back from its camel case.
pub proof fn lemma_snake_undoes_camel(s: Seq<char>)
    requires
        forall|i: int|
            0 <= i < s.len() ==> !is_upper(#[trigger] s[i]) && (s[i] == '_' ==> i + 1 < s.len()
                && is_lower(s[i + 1])),
    ensures
        snake(camel(s)) == s,
    decreases s.len(),
{
    if s.len() == 0 {
        assert(camel(s) =~= Seq::<char>::empty());
        assert(snake(camel(s)) =~= s);
    } else {
        let n: int = if s[0] == '_' {
            2
        } else {
            1
        };
        let rest = s.skip(n);
        assert(!is_upper(s[0]));
        assert(s =~= s.take(n) + rest);
        assert forall|i: int| 0 <= i < rest.len() implies !is_upper(#[trigger] rest[i]) && (rest[i]
            == '_' ==> i + 1 < rest.len() && is_lower(rest[i + 1])) by {
            assert(rest[i] == s[i + n]);
            if rest[i] == '_' {
                assert(is_lower(s[i + n + 1]));
            }
        }
        lemma_snake_undoes_camel(rest);
        lemma_camel_tail(s.take(n), rest, 0);
        if s[0] == '_' {
            lemma_letter_cases(s[1]);
            lemma_snake_front(to_upper_char(s[1]), camel(rest));
            assert(camel(s) =~= seq![to_upper_char(s[1])] + camel(rest));
            assert(snake(camel(s)) =~= s);
        } else {
            lemma_snake_front(s[0], camel(rest));
            assert(camel(s) =~= seq![s[0]] + camel(rest));
            assert(snake(camel(s)) =~= s);
        }
    }
}

/// Whether a name is a spelling of another.
pub open spec fn is_spelling(k: Seq<char>, of: Seq<char>) -> bool {
    k == of || k == snake(of) || k == camel(of)
}

proof fn lemma_aliases(m: Seq<(Seq<char>, Json)>, n: nat, key: Seq<char>)
    requires
        n <= m.len(),
    ensures
        member(with_aliases(m, n), key) matches Some(v) ==> exists|j: int|
            0 <= j < m.len() && is_spelling(key, (#[trigger] m[j]).0) && m[j].1 == v,
    decreases n,
{
    if n == 0 {
        lemma_key_index(m, key);
        if let Some(v) = member(m, key) {
            let j = crate::json::key_index(m, key);
            assert(m[j].0 == key && m[j].1 == v);
        }
    } else {
        lemma_aliases(m, (n - 1) as nat, key);
        let before = with_aliases(m, (n - 1) as nat);
        let (k, v) = m[n - 1];
        let mid = with_alias(before, snake(k), v);
        lemma_member_of_with_member(before, snake(k), v, key);
        lemma_member_of_with_member(mid, camel(k), v, key);
        assert(m[n - 1].0 == k && m[n - 1].1 == v);
    }
}

/// Whatever an internal action reads was given under that name or another spelling of
/// it, and parameters that are no object are left alone.
pub proof fn lemma_aliases_hold_what_was_given(params: Json, key: Seq<char>)
    ensures
        normalized(params).get(key) matches Some(v) ==> (params matches Json::Object(m) && exists|
            j: int,
        |
            0 <= j < m.len() && is_spelling(key, (#[trigger] m[j]).0) && m[j].1 == v),
        !(params is Object) ==> normalized(params) == params,
{
    if let Json::Object(m) = params {
        lemma_aliases(m, m.len(), key);
    }
}

// ── Actions on a caller's behalf ─────────────────────────────────────────────

/// A hidden action is not shown to a caller that asks for none, and any other is
/// shown as it was found.
pub proof fn lemma_hidden_actions(
    r: Result<Action, String>,
    params: Json,
    name: Seq<char>,
    found: Action,
    hidden: bool,
)
    requires
        is_shown_action(r, params, name, found, hidden),
    ensures
        r is Err <==> hidden && params.get("exclude_hidden"@) == Some(Json::Bool(true)),
        r matches Ok(a) ==> a == found,
{
}

/// A caller deletes an action that neither runs a command nor sends a request: it is
/// gone, and every other one is still there. Whatever is refused changes nothing.
pub proof fn lemma_callers_delete_no_executables(
    r: Result<Value, String>,
    before: ActionStore,
    after: ActionStore,
    params: Json,
    path: Seq<char>,
    action_ref: Seq<char>,
    name: Seq<char>,
    other_path: Seq<char>,
    other_name: Seq<char>,
)
    requires
        is_action_delete(r, before, after, params, path, action_ref),
        params.get("name"@) == Some(Json::Str(name)),
        places_distinct(before@),
    ensures
        ({
            let there = action_at(before@, path, trimmed(name));
            &&& (r is Ok <==> there is Some && there->0.action_type != Some(ActionType::Command)
                && there->0.action_type != Some(ActionType::Webhook))
            &&& (r is Err ==> after@ == before@)
            &&& (r is Ok ==> action_at(after@, path, trimmed(name)) is None)
            &&& (r is Ok && (other_path != path || other_name != trimmed(name)) ==> action_at(
                after@,
                other_path,
                other_name,
            ) == action_at(before@, other_path, other_name))
        }),
{
    lemma_deleted_is_gone(before@, path, trimmed(name), path, trimmed(name));
    lemma_deleted_is_gone(before@, path, trimmed(name), other_path, other_name);
}

/// Without a name nothing is saved or deleted.
pub proof fn lemma_callers_name_what_they_touch<V: FnOnce(&Vec<String>) -> Result<(), String>>(
    s: Result<Action, String>,
    d: Result<Value, String>,
    before: ActionStore,
    after: ActionStore,
    params: Json,
    path: Seq<char>,
    action_ref: Seq<char>,
    input: ActionInput,
    validate: V,
)
    requires
        params.get_str("name"@) is None,
    ensures
        is_action_save(s, before, after, params, path, input, validate) ==> s is Err && after@
            == before@,
        is_action_delete(d, before, after, params, path, action_ref) ==> d is Err && after@
            == before@,
{
}

/// A caller saves no action that runs a command or sends a request, neither a new one
/// nor over one that does; what is refused changes nothing, and what is saved is on
/// record.
pub proof fn lemma_callers_save_no_executables<V: FnOnce(&Vec<String>) -> Result<(), String>>(
    r: Result<Action, String>,
    before: ActionStore,
    after: ActionStore,
    params: Json,
    path: Seq<char>,
    input: ActionInput,
    validate: V,
    name: Seq<char>,
)
    requires
        is_action_save(r, before, after, params, path, input, validate),
        params.get("name"@) == Some(Json::Str(name)),
        places_distinct(before@),
    ensures
        r is Err ==> after@ == before@,
        (input.action_type == Some(ActionType::Command) || input.action_type == Some(
            ActionType::Webhook,
        )) ==> r is Err,
        action_at(before@, path, trimmed(name)) matches Some(a) ==> (a.action_type == Some(
            ActionType::Command,
        ) || a.action_type == Some(ActionType::Webhook)) ==> r is Err,
        r matches Ok(shown) ==> (action_at(after@, path, trimmed(name)) matches Some(a) && a.path
            == path && a.name == trimmed(name) && shown@ == (ActionRecord {
            action_config: shown@.action_config,
            ..a
        })),
{
    if r is Ok {
        let (v, id, now) = choose|v: Result<(), String>, id: Seq<char>, now: Seq<char>|
            call_ensures(validate, (&input.capabilities,), v) && crate::chance::is_uuid(id)
                && crate::chance::is_utc_time(now) && #[trigger] is_guarded_save(
                r,
                before@,
                after@,
                verdict(v),
                path,
                trimmed(name),
                input@,
                id,
                now,
            );
        let a = save_outcome(verdict(v), before@, path, trimmed(name), input@, id, now)->Ok_0;
        lemma_saved_is_on_record(before@, a, path, trimmed(name));
    }
}

/// Where no path is given, an action is named below the root.
pub proof fn lemma_names_are_below_the_root(r: Result<(String, String), String>, params: Json)
    requires
        is_entity_named(r, params),
    ensures
        r is Ok <==> params.get_str("name"@) is Some,
        r matches Ok((p, n)) ==> {
            &&& params.get_str("name"@) == Some(n@)
            &&& (params.get_str("path"@) matches Some(x) ==> p@ == x)
            &&& (params.get_str("path"@) is None ==> p@ == "/"@)
        },
{
}

// ── Variables ────────────────────────────────────────────────────────────────

/// A variable that names no namespace is in the default one.
pub proof fn lemma_namespaces(params: Json)
    ensures
        params.get_str("namespace"@) matches Some(s) ==> s.len() > 0 ==> namespace_in(params) == s,
        (params.get_str("namespace"@) is None || params.get_str("namespace"@) == Some(
            Seq::<char>::empty(),
        )) ==> namespace_in(params) == "default"@,
{
}

/// A variable is read as it was last written, in its own namespace; a write that
/// succeeds changes no other variable, and one that fails changes nothing.
pub proof fn lemma_a_variable_is_read_back<
    W: FnOnce(&str, &str, &str) -> Result<(), String>,
>(
    r: Result<Value, String>,
    before: EnvStore,
    after: EnvStore,
    params: Json,
    write: W,
    read: Json,
    asked: Json,
    key: Seq<char>,
    value: Seq<char>,
)
    requires
        is_env_write(r, before, after, params, write),
        is_env_read(read, after, asked),
        params.get("key"@) == Some(Json::Str(key)),
        params.get("value"@) == Some(Json::Str(value)),
        asked.get("key"@) is Some,
        asked.get("key"@)->0 is Str,
    ensures
        ({
            let same = asked.get_str("key"@) == Some(key) && namespace_in(asked) == namespace_in(
                params,
            );
            let k = asked.get_str("key"@)->0;
            &&& read.get_str("namespace"@) == Some(namespace_in(asked))
            &&& (r is Ok && same ==> read.get("value"@) == Some(Json::Str(value)))
            &&& ((r is Err || !same) ==> read.get("value"@) == Some(
                match before.lookup(namespace_in(asked), k) {
                    Some(v) => Json::Str(v),
                    None => Json::Null,
                },
            ))
        }),
{
    let k = asked.get_str("key"@)->0;
    assert(asked.str_or("key"@, ""@) == k);
    assert(params.str_or("key"@, ""@) == key);
    assert(params.str_or("value"@, ""@) == value);
    let ns = namespace_in(asked);
    let shown = after.lookup(ns, k);
    reveal_strlit("namespace");
    reveal_strlit("value");
    assert("namespace"@.len() == 9);
    assert("value"@.len() == 5);
    let pairs = seq![("namespace"@, Json::Str(ns)), ("value"@, json_opt_str(shown))];
    lemma_pair_is_member(pairs, 0);
    lemma_pair_is_member(pairs, 1);
    if r is Ok {
        assert(after.vars() == before.vars().insert((namespace_in(params), key), value));
    }
}

/// A write persists if and only if it asks to or an earlier write of the variable
/// did, and from then on the variable persists. Only a write that persists can fail.
pub proof fn lemma_what_persists<W: FnOnce(&str, &str, &str) -> Result<(), String>>(
    r: Result<Value, String>,
    before: EnvStore,
    after: EnvStore,
    params: Json,
    write: W,
    key: Seq<char>,
    other: Seq<char>,
)
    requires
        is_env_write(r, before, after, params, write),
        params.get("key"@) == Some(Json::Str(key)),
    ensures
        ({
            let mark = persist_key(namespace_in(params), key);
            let persists = params.get("persist"@) == Some(Json::Bool(true))
                || before.persisted().contains(mark);
            &&& (!persists ==> r is Ok)
            &&& (r matches Ok(v) ==> v@.get_bool("persisted"@) == Some(persists) && v@.get_bool(
                "set"@,
            ) == Some(true))
            &&& (r is Ok ==> (after.persisted().contains(mark) <==> persists))
            &&& (other != mark ==> (after.persisted().contains(other)
                <==> before.persisted().contains(other)))
        }),
{
    assert(params.str_or("key"@, ""@) == key);
    let ns = namespace_in(params);
    let p = write_persists(before.persisted(), params);
    reveal_strlit("set");
    reveal_strlit("namespace");
    reveal_strlit("persisted");
    assert("set"@.len() == 3);
    assert("namespace"@.len() == 9 && "namespace"@[0] == 'n');
    assert("persisted"@.len() == 9 && "persisted"@[0] == 'p');
    let pairs = seq![
        ("set"@, Json::Bool(true)),
        ("namespace"@, Json::Str(ns)),
        ("persisted"@, Json::Bool(p)),
    ];
    lemma_pair_is_member(pairs, 0);
    lemma_pair_is_member(pairs, 1);
    lemma_pair_is_member(pairs, 2);
}

/// Of variables that are loaded into a namespace each is there, the last one of a
/// name; every other variable is as it was.
pub proof fn lemma_loaded_variables(
    vars: Map<(Seq<char>, Seq<char>), Seq<char>>,
    namespace: Seq<char>,
    e: Seq<(String, String)>,
    n: nat,
    key: (Seq<char>, Seq<char>),
)
    requires
        n <= e.len(),
    ensures
        ({
            let after = with_entries(vars, namespace, e, n);
            &&& forall|i: int|
                0 <= i < n && (#[trigger] e[i]).0@ == key.1 && namespace == key.0 && (forall|j: int|
                    i < j < n ==> (#[trigger] e[j]).0@ != key.1) ==> after.contains_key(key)
                    && after[key] == e[i].1@
            &&& ((namespace != key.0 || forall|i: int| 0 <= i < n ==> (#[trigger] e[i]).0@ != key.1)
                ==> (after.contains_key(key) <==> vars.contains_key(key)) && (vars.contains_key(key)
                ==> after[key] == vars[key]))
        }),
    decreases n,
{
    if n > 0 {
        lemma_loaded_variables(vars, namespace, e, (n - 1) as nat, key);
    }
}

/// Of namespaces that are loaded each has its own variables, the last one of a name.
pub proof fn lemma_loaded_namespaces(
    vars: Map<(Seq<char>, Seq<char>), Seq<char>>,
    v: Seq<(String, Vec<(String, String)>)>,
    n: nat,
    i: int,
    j: int,
)
    requires
        0 <= i < n <= v.len(),
        forall|k: int| i < k < n ==> (#[trigger] v[k]).0@ != v[i].0@,
        0 <= j < v[i].1@.len(),
        forall|k: int| j < k < v[i].1@.len() ==> (#[trigger] v[i].1@[k]).0@ != v[i].1@[j].0@,
    ensures
        with_vars(vars, v, n).contains_key((v[i].0@, v[i].1@[j].0@)),
        with_vars(vars, v, n)[(v[i].0@, v[i].1@[j].0@)] == v[i].1@[j].1@,
    decreases n,
{
    let before = with_vars(vars, v, (n - 1) as nat);
    let e = v[n - 1].1@;
    let key = (v[i].0@, v[i].1@[j].0@);
    lemma_loaded_variables(before, v[n - 1].0@, e, e.len(), key);
    if i < n - 1 {
        lemma_loaded_namespaces(vars, v, (n - 1) as nat, i, j);
    } else {
        assert(e[j].0@ == key.1);
    }
}

} // verus!
