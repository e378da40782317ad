//! The action store: what saving, listing, searching and executing an action
//! decide, and the runs that were started in the background.
//!
//! Actions are organized by `path` and `name`, unique together. Execution goes
//! by `action_type`: `Command` (shell), `Webhook` (HTTP), `Internal` (the
//! handlers of [`crate::internal`]), `Wasm` (a component) and `Script`.

use vstd::prelude::*;
use vstd::string::*;

use crate::caller::{frame_of, Caller};
use crate::chance::{in_calendar, is_utc_time, is_uuid, new_uuid, now_rfc3339, rfc3339_text};
use crate::chance::{utc_now, write_rfc3339, MAX_UTC_SECS, MIN_UTC_SECS};
use crate::chance::{parse_rfc3339, parse_uuid, rfc3339_parsed, uuid_parsed};
use crate::config::Config;
use crate::encoding::{from_utf8, utf8_error};
use crate::entities::{records, Action, ActionExecResult, ActionInput, ActionRecord, ActionType, ExecRecord};
use crate::entities::InputRecord;
use crate::error::{Failure, SolxError};
use crate::execution::DEFAULT_TIMEOUT_SECS;
use crate::internal::params::{normalize_params, normalized};
use crate::invocations::{after_cancel, after_finish, after_orphans, aborted_error, kept, cancelled_run, is_terminal, nonempty};
use crate::invocations::{run_json, run_of, runs, started, terminal, InvocationStore, Run};
use crate::invocations::{CANCELLED, FAILED, OK};
use crate::json::{json_int, json_text, json_texts, object_of, pairs_view, parse_string_list, string_list, to_text, well_formed};
use crate::mask::{lemma_round_trip, mask_action_config_opt, masked_config, unmask_merge, unmasked};
use crate::seed::{catalogue, is_seeding, seed_builtins, seed_records, SeedAction};
use crate::store::{ActionStore, action_at, is_delete, is_get, is_save, no_action, stored_form, verdict};
use crate::table::Table;
use crate::text::{cat2, cat3, cat4, cat5, cat7, copy_opt, copy_texts, joined, opt_string, opt_text, replace};
use crate::text::{decimal, join_texts, may_call, print_u64, replaced, same, split_words, texts, trim, trimmed, words};
use crate::value::{items, opt_value, Json, Value};

use vstd::utf8::*;

verus! {

broadcast use crate::value::group_value_views;

/// How many entities a page holds where no limit is given.
pub const DEFAULT_LIMIT: usize = 50;

/// How much more is fetched when hidden actions are filtered out afterwards.
pub const HIDDEN_OVERFETCH: usize = 4;

/// The most that is fetched then.
pub const HIDDEN_FETCH_CAP: usize = 1000;

/// The longest that a poll waits, in seconds.
pub const MAX_TAIL_WAIT_SECS: u64 = 60;

/// How often a waiting poll looks again, in milliseconds.
pub const TAIL_POLL_INTERVAL_MS: u64 = 250;

/// Whether the process is a long-lived host, the only kind that can run an
/// action in the background: a process that exits when `exec` returns would
/// take the run with it.
#[derive(Debug, Clone, Copy, PartialEq, Eq, Structural)]
pub struct HostMode {
    pub long_lived: bool,
}

/// Say whether this process is a long-lived host; called once at startup.
pub fn set_long_lived_host(host: &mut HostMode, long_lived: bool)
    ensures
        final(host).long_lived == long_lived,
{
    host.long_lived = long_lived;
}

/// Whether this process is a long-lived host.
pub fn is_long_lived_host(host: &HostMode) -> (r: bool)
    ensures
        r == host.long_lived,
{
    host.long_lived
}

/// Refuse a run in the background where this process is no long-lived host. It is
/// the first thing that starting one asks.
pub fn require_long_lived_host(host: &HostMode) -> (r: Result<(), SolxError>)
    ensures
        if host.long_lived {
            r is Ok
        } else {
            r is Err && r->Err_0@ == not_long_lived()
        },
{
    if is_long_lived_host(host) {
        Ok(())
    } else {
        Err(
            SolxError::Exec(
                "action-start requires a long-lived host (solx-server or solx-mcp). This process exits when exec returns, which would kill the invocation before it could be polled. Point the CLI at a running server, or use exec.".to_owned(),
            ),
        )
    }
}

/// A stored text, where the empty one stands for none.
pub fn opt(s: String) -> (r: Option<String>)
    ensures
        opt_string(r) == nonempty(Some(s@)),
{
    if s.as_str().is_empty() {
        None
    } else {
        Some(s)
    }
}

/// The name under which an action type is stored.
pub open spec fn action_type_name(t: Option<ActionType>) -> Seq<char> {
    match t {
        Some(ActionType::Wasm) => "wasm"@,
        Some(ActionType::Webhook) => "webhook"@,
        Some(ActionType::Command) => "command"@,
        Some(ActionType::Internal) => "internal"@,
        Some(ActionType::Script) => "script"@,
        None => ""@,
    }
}

pub fn action_type_to_str(t: Option<ActionType>) -> (r: &'static str)
    ensures
        r@ == action_type_name(t),
{
    match t {
        Some(ActionType::Wasm) => "wasm",
        Some(ActionType::Webhook) => "webhook",
        Some(ActionType::Command) => "command",
        Some(ActionType::Internal) => "internal",
        Some(ActionType::Script) => "script",
        None => "",
    }
}

/// The action type that is stored under a name; none for any other text.
pub open spec fn named_action_type(s: Seq<char>) -> Option<ActionType> {
    if s == "wasm"@ {
        Some(ActionType::Wasm)
    } else if s == "webhook"@ {
        Some(ActionType::Webhook)
    } else if s == "command"@ {
        Some(ActionType::Command)
    } else if s == "internal"@ {
        Some(ActionType::Internal)
    } else if s == "script"@ {
        Some(ActionType::Script)
    } else {
        None
    }
}

pub fn action_type_from_str(s: &str) -> (r: Option<ActionType>)
    ensures
        r == named_action_type(s@),
{
    if same(s, "wasm") {
        Some(ActionType::Wasm)
    } else if same(s, "webhook") {
        Some(ActionType::Webhook)
    } else if same(s, "command") {
        Some(ActionType::Command)
    } else if same(s, "internal") {
        Some(ActionType::Internal)
    } else if same(s, "script") {
        Some(ActionType::Script)
    } else {
        None
    }
}

/// An action type is read back from the name that it is stored under.
pub proof fn lemma_action_type_round_trip(t: Option<ActionType>)
    ensures
        named_action_type(action_type_name(t)) == t,
{
    reveal_strlit("wasm");
    reveal_strlit("webhook");
    reveal_strlit("command");
    reveal_strlit("internal");
    reveal_strlit("script");
    reveal_strlit("");
    assert("wasm"@.len() == 4 && "webhook"@.len() == 7 && "command"@.len() == 7);
    assert("internal"@.len() == 8 && "script"@.len() == 6 && ""@.len() == 0);
    assert("webhook"@[0] == 'w' && "command"@[0] == 'c');
}

/// The time limit that an action's config names.
pub open spec fn config_timeout(cfg: Option<Json>) -> Option<u64> {
    match cfg {
        Some(c) => c.get_u64("timeout_secs"@),
        None => None,
    }
}

pub fn timeout_secs(action_config: &Option<Value>) -> (r: Option<u64>)
    ensures
        r == config_timeout(opt_value(*action_config)),
{
    match action_config {
        Some(c) => c.get_u64("timeout_secs"),
        None => None,
    }
}

// ── Saving ───────────────────────────────────────────────────────────────────

pub open spec fn given_or<T>(given: Option<T>, stored: Option<T>) -> Option<T> {
    match given {
        Some(v) => Some(v),
        None => stored,
    }
}

pub open spec fn list_or<T>(given: Seq<T>, stored: Seq<T>) -> Seq<T> {
    if given.len() > 0 {
        given
    } else {
        stored
    }
}

/// The stored action, or one with nothing in it.
pub open spec fn stored_or_blank(
    existing: Option<ActionRecord>,
    path: Seq<char>,
    name: Seq<char>,
    new_id: Seq<char>,
    now: Seq<char>,
) -> ActionRecord {
    match existing {
        Some(a) => a,
        None => ActionRecord {
            id: new_id,
            path,
            name,
            caption: None,
            description: None,
            capabilities: Seq::empty(),
            phrases: Seq::empty(),
            category: None,
            param_type_ref: None,
            result_type_ref: None,
            action_type: None,
            fn_name: None,
            bin_name: None,
            action_config: None,
            files: Seq::empty(),
            trusted: false,
            created_at: now,
            updated_at: now,
        },
    }
}

/// The config that an update results in: the given one with what it echoes
/// redacted restored, or the stored one where none is given.
pub open spec fn merged_config(given: Option<Json>, stored: Option<Json>) -> Result<
    Option<Json>,
    Seq<char>,
> {
    match given {
        Some(v) => match unmasked(v, stored, Seq::empty()) {
            Ok(c) => Ok(Some(c)),
            Err(e) => Err(e),
        },
        None => Ok(stored),
    }
}

/// The action that saving `input` over the stored one results in.
pub open spec fn merged(base: ActionRecord, input: InputRecord, path: Seq<char>, name: Seq<char>, now: Seq<char>) -> Result<
    ActionRecord,
    Failure,
> {
    match merged_config(input.action_config, base.action_config) {
        Err(e) => Err(Failure::Invalid(e)),
        Ok(action_config) => Ok(
            ActionRecord {
                id: base.id,
                path,
                name,
                caption: given_or(input.caption, base.caption),
                description: given_or(input.description, base.description),
                capabilities: list_or(input.capabilities, base.capabilities),
                phrases: list_or(input.phrases, base.phrases),
                category: given_or(input.category, base.category),
                param_type_ref: given_or(input.param_type_ref, base.param_type_ref),
                result_type_ref: given_or(input.result_type_ref, base.result_type_ref),
                action_type: given_or(input.action_type, base.action_type),
                fn_name: given_or(input.fn_name, base.fn_name),
                bin_name: given_or(input.bin_name, base.bin_name),
                action_config,
                files: list_or(input.files, base.files),
                trusted: match input.trusted {
                    Some(t) => t,
                    None => base.trusted,
                },
                created_at: base.created_at,
                updated_at: now,
            },
        ),
    }
}

fn pick_text(given: Option<String>, stored: &Option<String>) -> (r: Option<String>)
    ensures
        opt_string(r) == given_or(opt_string(given), opt_string(*stored)),
{
    match given {
        Some(s) => Some(s),
        None => copy_opt(stored),
    }
}

fn pick_texts(given: Vec<String>, stored: &Vec<String>) -> (r: Vec<String>)
    ensures
        texts(r@) == list_or(texts(given@), texts(stored@)),
{
    if given.len() > 0 {
        given
    } else {
        copy_texts(stored)
    }
}

fn copy_values(v: &Vec<Value>) -> (r: Vec<Value>)
    ensures
        items(r@) == items(v@),
{
    let mut out: Vec<Value> = Vec::new();
    let mut i: usize = 0;
    while i < v.len()
        invariant
            i <= v.len(),
            out.len() == i,
            forall|j: int| 0 <= j < i ==> (#[trigger] out@[j])@ == v@[j]@,
        decreases v.len() - i,
    {
        out.push(v[i].clone());
        i += 1;
    }
    assert(items(out@) =~= items(v@));
    out
}

fn pick_values(given: Vec<Value>, stored: &Vec<Value>) -> (r: Vec<Value>)
    ensures
        items(r@) == list_or(items(given@), items(stored@)),
{
    if given.len() > 0 {
        given
    } else {
        copy_values(stored)
    }
}

pub fn copy_action(a: &Action) -> (r: Action)
    ensures
        r@ == a@,
{
    Action {
        id: a.id.clone(),
        path: a.path.clone(),
        name: a.name.clone(),
        caption: copy_opt(&a.caption),
        description: copy_opt(&a.description),
        capabilities: copy_texts(&a.capabilities),
        phrases: copy_texts(&a.phrases),
        category: copy_opt(&a.category),
        param_type_ref: copy_opt(&a.param_type_ref),
        result_type_ref: copy_opt(&a.result_type_ref),
        action_type: a.action_type,
        fn_name: copy_opt(&a.fn_name),
        bin_name: copy_opt(&a.bin_name),
        action_config: match &a.action_config {
            Some(c) => Some(c.clone()),
            None => None,
        },
        files: copy_values(&a.files),
        trusted: a.trusted,
        created_at: a.created_at.clone(),
        updated_at: a.updated_at.clone(),
    }
}

fn blank_action(path: &str, name: &str, new_id: &str, now: &str) -> (r: Action)
    ensures
        r@ == stored_or_blank(None, path@, name@, new_id@, now@),
{
    let r = Action {
        id: new_id.to_owned(),
        path: path.to_owned(),
        name: name.to_owned(),
        caption: None,
        description: None,
        capabilities: Vec::new(),
        phrases: Vec::new(),
        category: None,
        param_type_ref: None,
        result_type_ref: None,
        action_type: None,
        fn_name: None,
        bin_name: None,
        action_config: None,
        files: Vec::new(),
        trusted: false,
        created_at: now.to_owned(),
        updated_at: now.to_owned(),
    };
    assert(r@ =~= stored_or_blank(None, path@, name@, new_id@, now@));
    r
}

/// The action that saving `input` results in. What the input leaves out keeps
/// its stored value; a config that echoes redacted values has them restored,
/// and is refused where there is nothing to restore. `new_id` and `now` are
/// those of an action that is new.
pub fn merge_action(
    path: &str,
    name: &str,
    input: ActionInput,
    existing: Option<Action>,
    new_id: &str,
    now: &str,
) -> (r: Result<Action, SolxError>)
    ensures
        (match r {
            Ok(a) => Ok(a@),
            Err(e) => Err(e@),
        }) == merged(
            stored_or_blank(
                match existing {
                    Some(a) => Some(a@),
                    None => None,
                },
                path@,
                name@,
                new_id@,
                now@,
            ),
            input@,
            path@,
            name@,
            now@,
        ),
{
    let base = match existing {
        Some(a) => a,
        None => blank_action(path, name, new_id, now),
    };
    let action_config = match input.action_config {
        Some(incoming) => {
            let stored = match &base.action_config {
                Some(c) => Some(c),
                None => None,
            };
            match unmask_merge(incoming, stored) {
                Ok(c) => Some(c),
                Err(e) => {
                    return Err(SolxError::Invalid(e));
                },
            }
        },
        None => match &base.action_config {
            Some(c) => Some(c.clone()),
            None => None,
        },
    };
    let r = Action {
        id: base.id,
        path: path.to_owned(),
        name: name.to_owned(),
        caption: pick_text(input.caption, &base.caption),
        description: pick_text(input.description, &base.description),
        capabilities: pick_texts(input.capabilities, &base.capabilities),
        phrases: pick_texts(input.phrases, &base.phrases),
        category: pick_text(input.category, &base.category),
        param_type_ref: pick_text(input.param_type_ref, &base.param_type_ref),
        result_type_ref: pick_text(input.result_type_ref, &base.result_type_ref),
        action_type: match input.action_type {
            Some(t) => Some(t),
            None => base.action_type,
        },
        fn_name: pick_text(input.fn_name, &base.fn_name),
        bin_name: pick_text(input.bin_name, &base.bin_name),
        action_config,
        files: pick_values(input.files, &base.files),
        trusted: match input.trusted {
            Some(t) => t,
            None => base.trusted,
        },
        created_at: base.created_at,
        updated_at: now.to_owned(),
    };
    Ok(r)
}

/// Saving back the redacted config that a read returned keeps the stored one:
/// no key or credential is lost.
pub proof fn lemma_save_keeps_secrets(
    base: ActionRecord,
    input: InputRecord,
    path: Seq<char>,
    name: Seq<char>,
    now: Seq<char>,
)
    requires
        base.action_config is Some,
        well_formed(base.action_config->0),
        input.action_config == Some(masked_config(base.action_config->0)),
    ensures
        merged(base, input, path, name, now) is Ok,
        merged(base, input, path, name, now)->Ok_0.action_config == base.action_config,
{
    lemma_round_trip(base.action_config->0);
}

/// An update that gives nothing changes nothing but the time of the update.
pub proof fn lemma_save_of_nothing(base: ActionRecord, now: Seq<char>)
    ensures
        merged(base, crate::entities::nothing_given(), base.path, base.name, now) == Ok::<
            ActionRecord,
            Failure,
        >(ActionRecord { updated_at: now, ..base }),
{
}

/// An action as it leaves the process: with its config redacted.
pub open spec fn redacted(a: ActionRecord) -> ActionRecord {
    ActionRecord {
        action_config: match a.action_config {
            Some(c) => Some(masked_config(c)),
            None => None,
        },
        ..a
    }
}

/// Redact an action before it leaves the process. `save`, `get`, `list` and
/// `search` all answer with this.
pub fn redact(action: Action) -> (r: Action)
    ensures
        r@ == redacted(action@),
{
    let mut a = action;
    mask_action_config_opt(&mut a.action_config);
    a
}

pub open spec fn redacted_all(v: Seq<ActionRecord>) -> Seq<ActionRecord> {
    Seq::new(v.len(), |i: int| redacted(v[i]))
}

/// Redact every action of a page.
pub fn redact_all(page: Vec<Action>) -> (r: Vec<Action>)
    ensures
        records(r@) == redacted_all(records(page@)),
{
    let ghost all = records(page@);
    let mut rest = page;
    let mut out: Vec<Action> = Vec::new();
    while rest.len() > 0
        invariant
            records(rest@) == all.take(rest@.len() as int),
            rest@.len() <= all.len(),
            out@.len() == all.len() - rest@.len(),
            forall|j: int|
                0 <= j < out@.len() ==> (#[trigger] out@[j])@ == redacted(all[rest@.len() + j]),
        decreases rest.len(),
    {
        let ghost n = rest@.len();
        let ghost before = out@;
        let ghost left = rest@;
        let ghost shorter = all.take(n - 1);
        if let Some(a) = rest.pop() {
            assert(a@ == records(left)[n - 1]);
            assert(a@ == all.take(n as int)[n - 1]);
            assert(records(rest@) =~= shorter) by {
                assert forall|j: int| 0 <= j < rest@.len() implies records(rest@)[j] == all[j] by {
                    assert(records(left)[j] == all.take(n as int)[j]);
                }
            }
            let b = redact(a);
            out.insert(0, b);
            assert(out@ =~= seq![b] + before);
        }
    }
    assert(records(out@) =~= redacted_all(all));
    out
}

// ── Rows ─────────────────────────────────────────────────────────────────────

/// The columns of a stored action. Lists and configs are JSON text.
#[derive(Debug)]
pub struct ActionRow {
    pub id: String,
    pub path: String,
    pub name: String,
    pub caption: String,
    pub description: String,
    pub capabilities: String,
    pub phrases: String,
    pub category: String,
    pub param_type_ref: String,
    pub result_type_ref: String,
    pub action_type: String,
    pub fn_name: String,
    pub bin_name: String,
    pub action_config: String,
    pub files: String,
    pub trusted: i64,
    pub created_at: String,
    pub updated_at: String,
}

/// The strings of a list, none where there is no list.
pub open spec fn texts_or_none(v: Option<Seq<Seq<char>>>) -> Seq<Seq<char>> {
    match v {
        Some(t) => t,
        None => Seq::empty(),
    }
}

fn list_or_empty(s: &str) -> (r: Vec<String>)
    ensures
        texts(r@) == texts_or_none(string_list(s@)),
        forall|x: Seq<Seq<char>>| s@ == #[trigger] json_text(json_texts(x)) ==> texts(r@) == x,
{
    match parse_string_list(s) {
        Some(v) => v,
        None => {
            let none: Vec<String> = Vec::new();
            assert(texts(none@) =~= Seq::<Seq<char>>::empty());
            none
        },
    }
}

/// The config that a column parses to: a null one is none, as is one that does
/// not parse.
pub open spec fn config_of_column(parsed: Option<Json>) -> Option<Json> {
    match parsed {
        Some(Json::Null) => None,
        c => c,
    }
}

/// The record that a row holds, where its identifier and times parse.
pub open spec fn record_of_row(
    row: ActionRow,
    config: Option<Json>,
    files: Option<Seq<Json>>,
    id: Seq<char>,
    created_at: Seq<char>,
    updated_at: Seq<char>,
) -> ActionRecord {
    ActionRecord {
        id,
        path: row.path@,
        name: row.name@,
        caption: nonempty(Some(row.caption@)),
        description: nonempty(Some(row.description@)),
        capabilities: texts_or_none(string_list(row.capabilities@)),
        phrases: texts_or_none(string_list(row.phrases@)),
        category: nonempty(Some(row.category@)),
        param_type_ref: nonempty(Some(row.param_type_ref@)),
        result_type_ref: nonempty(Some(row.result_type_ref@)),
        action_type: named_action_type(row.action_type@),
        fn_name: nonempty(Some(row.fn_name@)),
        bin_name: nonempty(Some(row.bin_name@)),
        action_config: config_of_column(config),
        files: match files {
            Some(f) => f,
            None => Seq::empty(),
        },
        trusted: row.trusted != 0,
        created_at,
        updated_at,
    }
}

pub open spec fn opt_items(v: Option<Vec<Value>>) -> Option<Seq<Json>> {
    match v {
        Some(f) => Some(items(f@)),
        None => None,
    }
}

/// The action that a row holds. A list that does not parse is empty, a config
/// that does not parse is none; an identifier or a time that does not parse is
/// an error. `parse` reads the config, `parse_files` the list of files.
pub fn row_to_action<P: FnOnce(&str) -> Option<Value>, Q: FnOnce(&str) -> Option<Vec<Value>>>(
    row: ActionRow,
    parse: P,
    parse_files: Q,
) -> (r: Result<Action, SolxError>)
    requires
        may_call(parse, row.action_config@),
        may_call(parse_files, row.files@),
    ensures
        match (
            uuid_parsed(row.id@),
            rfc3339_parsed(row.created_at@),
            rfc3339_parsed(row.updated_at@),
        ) {
            (Err(e), _, _) => r is Err && r->Err_0@ == Failure::Db(e),
            (Ok(_), Err(e), _) => r is Err && r->Err_0@ == Failure::Db(e),
            (Ok(_), Ok(_), Err(e)) => r is Err && r->Err_0@ == Failure::Db(e),
            (Ok(id), Ok(created), Ok(updated)) => exists|
                cs: &str,
                c: Option<Value>,
                fs: &str,
                f: Option<Vec<Value>>,
            |
                cs@ == row.action_config@ && fs@ == row.files@ && #[trigger] call_ensures(
                    parse,
                    (cs,),
                    c,
                ) && #[trigger] call_ensures(parse_files, (fs,), f) && r is Ok && r->Ok_0@
                    == record_of_row(row, opt_value(c), opt_items(f), id, created, updated),
        },
        forall|a: ActionRecord| #[trigger]
            is_row_of(row, a) && r is Ok ==> r->Ok_0@.capabilities == a.capabilities
                && r->Ok_0@.phrases == a.phrases,
{
    let id = match parse_uuid(row.id.as_str()) {
        Ok(s) => s,
        Err(e) => {
            return Err(SolxError::Db(e));
        },
    };
    let created_at = match parse_rfc3339(row.created_at.as_str()) {
        Ok(s) => s,
        Err(e) => {
            return Err(SolxError::Db(e));
        },
    };
    let updated_at = match parse_rfc3339(row.updated_at.as_str()) {
        Ok(s) => s,
        Err(e) => {
            return Err(SolxError::Db(e));
        },
    };
    let cs: &str = row.action_config.as_str();
    let config = parse(cs);
    let fs: &str = row.files.as_str();
    let files = parse_files(fs);
    let ghost (c, f) = (config, files);
    assert(call_ensures(parse, (cs,), c) && call_ensures(parse_files, (fs,), f));
    let capabilities = list_or_empty(row.capabilities.as_str());
    let phrases = list_or_empty(row.phrases.as_str());
    let no_files: Vec<Value> = Vec::new();
    assert(items(no_files@) =~= Seq::<Json>::empty());
    let r = Action {
        id,
        path: row.path,
        name: row.name,
        caption: opt(row.caption),
        description: opt(row.description),
        capabilities,
        phrases,
        category: opt(row.category),
        param_type_ref: opt(row.param_type_ref),
        result_type_ref: opt(row.result_type_ref),
        action_type: action_type_from_str(row.action_type.as_str()),
        fn_name: opt(row.fn_name),
        bin_name: opt(row.bin_name),
        action_config: match config {
            Some(Value::Null) => None,
            c => c,
        },
        files: match files {
            Some(v) => v,
            None => no_files,
        },
        trusted: row.trusted != 0,
        created_at,
        updated_at,
    };
    Ok(r)
}

/// A text, the empty one where there is none.
pub open spec fn text_or_empty(s: Option<Seq<char>>) -> Seq<char> {
    match s {
        Some(t) => t,
        None => Seq::empty(),
    }
}

fn or_empty(s: &Option<String>) -> (r: String)
    ensures
        r@ == text_or_empty(opt_string(*s)),
{
    match s {
        Some(t) => t.clone(),
        None => String::new(),
    }
}

/// Whether a row is the one that a record is stored as.
pub open spec fn is_row_of(r: ActionRow, a: ActionRecord) -> bool {
    &&& r.id@ == a.id
    &&& r.path@ == a.path
    &&& r.name@ == a.name
    &&& r.caption@ == text_or_empty(a.caption)
    &&& r.description@ == text_or_empty(a.description)
    &&& r.capabilities@ == json_text(json_texts(a.capabilities))
    &&& r.phrases@ == json_text(json_texts(a.phrases))
    &&& r.category@ == text_or_empty(a.category)
    &&& r.param_type_ref@ == text_or_empty(a.param_type_ref)
    &&& r.result_type_ref@ == text_or_empty(a.result_type_ref)
    &&& r.action_type@ == action_type_name(a.action_type)
    &&& r.fn_name@ == text_or_empty(a.fn_name)
    &&& r.bin_name@ == text_or_empty(a.bin_name)
    &&& r.action_config@ == json_text(
        match a.action_config {
            Some(c) => c,
            None => Json::Null,
        },
    )
    &&& r.files@ == json_text(Json::Array(a.files))
    &&& r.trusted == (if a.trusted {
        1i64
    } else {
        0i64
    })
    &&& r.created_at@ == a.created_at
    &&& r.updated_at@ == a.updated_at
}

/// The row that an action is stored as.
pub fn action_to_row(a: &Action) -> (r: ActionRow)
    ensures
        is_row_of(r, a@),
{
    let capabilities = Value::texts(&a.capabilities);
    let phrases = Value::texts(&a.phrases);
    let files = Value::Array(copy_values(&a.files));
    let config = match &a.action_config {
        Some(c) => to_text(c),
        None => "null".to_owned(),
    };
    ActionRow {
        id: a.id.clone(),
        path: a.path.clone(),
        name: a.name.clone(),
        caption: or_empty(&a.caption),
        description: or_empty(&a.description),
        capabilities: to_text(&capabilities),
        phrases: to_text(&phrases),
        category: or_empty(&a.category),
        param_type_ref: or_empty(&a.param_type_ref),
        result_type_ref: or_empty(&a.result_type_ref),
        action_type: action_type_to_str(a.action_type).to_owned(),
        fn_name: or_empty(&a.fn_name),
        bin_name: or_empty(&a.bin_name),
        action_config: config,
        files: to_text(&files),
        trusted: if a.trusted {
            1
        } else {
            0
        },
        created_at: a.created_at.clone(),
        updated_at: a.updated_at.clone(),
    }
}

/// Reading a row back gives the action that was written, with the empty texts
/// and the null config gone, as long as its JSON columns parse to what they
/// were written from.
pub proof fn lemma_row_round_trip(row: ActionRow, a: ActionRecord)
    requires
        is_row_of(row, a),
        string_list(row.capabilities@) == Some(a.capabilities),
        string_list(row.phrases@) == Some(a.phrases),
    ensures
        record_of_row(
            row,
            Some(
                match a.action_config {
                    Some(c) => c,
                    None => Json::Null,
                },
            ),
            Some(a.files),
            a.id,
            a.created_at,
            a.updated_at,
        ) == stored_form(a),
{
    lemma_action_type_round_trip(a.action_type);
    assert forall|t: Option<Seq<char>>| nonempty(Some(#[trigger] text_or_empty(t))) == nonempty(t) by {}
}

// ── Searching ────────────────────────────────────────────────────────────────

/// One search term as a quoted prefix match.
pub open spec fn match_term(w: Seq<char>) -> Seq<char> {
    "\""@ + replaced(w, "\""@, "\"\""@) + "\"*"@
}

/// Free text as a full-text match expression: each word quoted and matched as a
/// prefix, so that no character in it is read as query syntax.
pub open spec fn match_query(q: Seq<char>) -> Seq<char> {
    joined(Seq::new(words(q).len(), |i: int| match_term(words(q)[i])), " "@)
}

pub fn fts_match_query(q: &str) -> (r: String)
    ensures
        r@ == match_query(q@),
{
    let terms = split_words(q);
    let mut out: Vec<String> = Vec::new();
    let mut i: usize = 0;
    assert("\""@.len() > 0) by {
        reveal_strlit("\"");
    }
    while i < terms.len()
        invariant
            i <= terms.len(),
            out.len() == i,
            "\""@.len() > 0,
            forall|j: int| 0 <= j < i ==> (#[trigger] out@[j])@ == match_term(terms@[j]@),
        decreases terms.len() - i,
    {
        let doubled = replace(terms[i].as_str(), "\"", "\"\"");
        out.push(cat3("\"", doubled.as_str(), "\"*"));
        i += 1;
    }
    assert(texts(out@) =~= Seq::new(words(q@).len(), |i: int| match_term(words(q@)[i]))) by {
        assert(texts(terms@) == words(q@));
        assert forall|j: int| 0 <= j < out@.len() implies texts(out@)[j] == match_term(words(q@)[j]) by {
            assert(texts(terms@)[j] == terms@[j]@);
        }
    }
    join_texts(&out, " ")
}

/// How many quotation marks a text holds.
pub open spec fn quote_count(s: Seq<char>) -> nat
    decreases s.len(),
{
    if s.len() == 0 {
        0
    } else {
        quote_count(s.drop_last()) + (if s.last() == '"' {
            1nat
        } else {
            0nat
        })
    }
}

proof fn lemma_quote_count_concat(a: Seq<char>, b: Seq<char>)
    ensures
        quote_count(a + b) == quote_count(a) + quote_count(b),
    decreases b.len(),
{
    if b.len() > 0 {
        lemma_quote_count_concat(a, b.drop_last());
        assert((a + b).drop_last() =~= a + b.drop_last());
    } else {
        assert(a + b =~= a);
    }
}

proof fn lemma_doubled_quotes(s: Seq<char>)
    ensures
        quote_count(replaced(s, "\""@, "\"\""@)) == 2 * quote_count(s),
    decreases s.len(),
{
    reveal_strlit("\"");
    reveal_strlit("\"\"");
    assert("\""@ =~= seq!['"']);
    assert("\"\""@ =~= seq!['"', '"']);
    if s.len() > 0 {
        lemma_doubled_quotes(s.skip(1));
        let rest = replaced(s.skip(1), "\""@, "\"\""@);
        assert(s =~= seq![s[0]] + s.skip(1));
        lemma_quote_count_concat(seq![s[0]], s.skip(1));
        lemma_quote_count_concat(seq![s[0]], rest);
        lemma_quote_count_concat("\"\""@, rest);
        reveal_with_fuel(quote_count, 3);
        assert(seq![s[0]].drop_last() =~= Seq::<char>::empty());
        assert("\"\""@.drop_last() =~= seq!['"']);
        assert(seq!['"'].drop_last() =~= Seq::<char>::empty());
        assert("\""@.is_prefix_of(s) == (s[0] == '"')) by {
            if s[0] == '"' {
                assert("\""@ =~= s.subrange(0, 1));
            } else if "\""@.is_prefix_of(s) {
                assert(s.subrange(0, 1)[0] == '"');
            }
        }
    }
}

proof fn lemma_match_term_quotes(w: Seq<char>)
    ensures
        quote_count(match_term(w)) % 2 == 0,
{
    reveal_strlit("\"");
    reveal_strlit("\"*");
    let d = replaced(w, "\""@, "\"\""@);
    lemma_doubled_quotes(w);
    lemma_quote_count_concat("\""@, d);
    lemma_quote_count_concat("\""@ + d, "\"*"@);
    reveal_with_fuel(quote_count, 3);
    assert("\""@ =~= seq!['"']);
    assert("\"*"@ =~= seq!['"', '*']);
    assert(seq!['"', '*'].drop_last() =~= seq!['"']);
    assert(seq!['"'].drop_last() =~= Seq::<char>::empty());
}

proof fn lemma_joined_quotes(terms: Seq<Seq<char>>)
    requires
        forall|i: int| 0 <= i < terms.len() ==> quote_count(#[trigger] terms[i]) % 2 == 0,
    ensures
        quote_count(joined(terms, " "@)) % 2 == 0,
    decreases terms.len(),
{
    reveal_strlit(" ");
    if terms.len() > 1 {
        let before = joined(terms.drop_last(), " "@);
        assert forall|i: int| 0 <= i < terms.drop_last().len() implies quote_count(
            #[trigger] terms.drop_last()[i],
        ) % 2 == 0 by {
            assert(terms.drop_last()[i] == terms[i]);
        }
        lemma_joined_quotes(terms.drop_last());
        lemma_quote_count_concat(before, " "@);
        lemma_quote_count_concat(before + " "@, terms.last());
        assert(" "@ =~= seq![' ']);
        reveal_with_fuel(quote_count, 2);
        assert(seq![' '].drop_last() =~= Seq::<char>::empty());
        assert(quote_count(terms[terms.len() - 1]) % 2 == 0);
    } else if terms.len() == 1 {
        assert(quote_count(terms[0]) % 2 == 0);
    }
}

/// Whatever is searched for, every quotation mark of the match expression has
/// its partner, so no search text leaves a quoted term open.
pub proof fn lemma_match_query_is_balanced(q: Seq<char>)
    ensures
        quote_count(match_query(q)) % 2 == 0,
{
    let terms = Seq::new(words(q).len(), |i: int| match_term(words(q)[i]));
    assert forall|i: int| 0 <= i < terms.len() implies quote_count(#[trigger] terms[i]) % 2 == 0 by {
        lemma_match_term_quotes(words(q)[i]);
    }
    lemma_joined_quotes(terms);
}

/// The text that a search is for: the given one without surrounding space,
/// where anything is left of it.
pub open spec fn search_text(q: Option<Seq<char>>) -> Option<Seq<char>> {
    match q {
        Some(s) => nonempty(Some(trimmed(s))),
        None => None,
    }
}

pub fn search_term(q: Option<&str>) -> (r: Option<String>)
    ensures
        opt_string(r) == search_text(opt_text(q)),
{
    match q {
        Some(s) => opt(trim(s)),
        None => None,
    }
}

/// The SQL of a search: the two queries and the value that is bound behind the
/// filters' own.
#[derive(Debug)]
pub struct SearchSql {
    pub match_bind: Option<String>,
    pub count_sql: String,
    pub page_sql: String,
}

pub open spec fn search_join(term: Option<Seq<char>>, binds: nat) -> Seq<char> {
    match term {
        Some(_) => " JOIN (SELECT rowid, rank FROM actions_fts WHERE actions_fts MATCH ?"@ + decimal(
            binds + 1,
        ) + ") f ON f.rowid = a.rowid"@,
        None => Seq::empty(),
    }
}

pub open spec fn search_order(term: Option<Seq<char>>, order: Seq<char>) -> Seq<char> {
    match term {
        Some(_) => " ORDER BY f.rank"@,
        None => order,
    }
}

pub open spec fn search_select() -> Seq<char> {
    "SELECT a.id,a.path,a.name,a.caption,a.description,a.capabilities,a.phrases,a.category,a.param_type_ref,a.result_type_ref,a.action_type,a.fn_name,a.bin_name,a.action_config,a.files,a.trusted,a.created_at,a.updated_at FROM actions a"@
}

/// Whether this is the SQL of a search: the query that the index is asked, the
/// count, and the page.
pub open spec fn is_search_sql(
    r: SearchSql,
    term: Option<Seq<char>>,
    where_clause: Seq<char>,
    order_clause: Seq<char>,
    binds: nat,
    limit: nat,
    offset: nat,
) -> bool {
    &&& opt_string(r.match_bind) == (match term {
        Some(t) => Some(match_query(t)),
        None => None,
    })
    &&& r.count_sql@ == "SELECT COUNT(*) FROM actions a"@ + search_join(term, binds) + where_clause
    &&& r.page_sql@ == search_select() + search_join(term, binds) + where_clause + search_order(
        term,
        order_clause,
    ) + (" LIMIT "@ + decimal(limit) + " OFFSET "@ + decimal(offset))
}

/// Write the SQL of a search. With a term, the rows are joined to the full-text
/// index and ordered by relevance; without one they are filtered and ordered as
/// in a listing. `binds` is how many values the filters bind.
pub fn search_sql(
    term: Option<&str>,
    where_clause: &str,
    order_clause: &str,
    binds: u32,
    limit: usize,
    offset: usize,
) -> (r: SearchSql)
    ensures
        is_search_sql(
            r,
            opt_text(term),
            where_clause@,
            order_clause@,
            binds as nat,
            limit as nat,
            offset as nat,
        ),
{
    let n = print_u64(binds as u64 + 1);
    let (bind, join, order) = match term {
        Some(t) => (
            Some(fts_match_query(t)),
            cat3(
                " JOIN (SELECT rowid, rank FROM actions_fts WHERE actions_fts MATCH ?",
                n.as_str(),
                ") f ON f.rowid = a.rowid",
            ),
            " ORDER BY f.rank".to_owned(),
        ),
        None => (None, String::new(), order_clause.to_owned()),
    };
    let l = print_u64(limit as u64);
    let o = print_u64(offset as u64);
    let window = cat4(" LIMIT ", l.as_str(), " OFFSET ", o.as_str());
    SearchSql {
        match_bind: bind,
        count_sql: cat3("SELECT COUNT(*) FROM actions a", join.as_str(), where_clause),
        page_sql: cat5(
            "SELECT a.id,a.path,a.name,a.caption,a.description,a.capabilities,a.phrases,a.category,a.param_type_ref,a.result_type_ref,a.action_type,a.fn_name,a.bin_name,a.action_config,a.files,a.trusted,a.created_at,a.updated_at FROM actions a",
            join.as_str(),
            where_clause,
            order.as_str(),
            window.as_str(),
        ),
    }
}

/// Whether this is the SQL of a listing: the count and the page.
pub open spec fn is_list_sql(
    r: (String, String),
    where_clause: Seq<char>,
    order_clause: Seq<char>,
    limit: nat,
    offset: nat,
) -> bool {
    &&& r.0@ == "SELECT COUNT(*) FROM actions"@ + where_clause
    &&& r.1@
        == "SELECT id,path,name,caption,description,capabilities,phrases,category,param_type_ref,result_type_ref,action_type,fn_name,bin_name,action_config,files,trusted,created_at,updated_at FROM actions"@
        + where_clause + order_clause + (" LIMIT "@ + decimal(limit) + " OFFSET "@ + decimal(offset))
}

/// The SQL of a listing: how many rows there are, and the page.
pub fn list_sql(where_clause: &str, order_clause: &str, limit: usize, offset: usize) -> (r: (
    String,
    String,
))
    ensures
        is_list_sql(r, where_clause@, order_clause@, limit as nat, offset as nat),
{
    let l = print_u64(limit as u64);
    let o = print_u64(offset as u64);
    let window = cat4(" LIMIT ", l.as_str(), " OFFSET ", o.as_str());
    (
        cat2("SELECT COUNT(*) FROM actions", where_clause),
        cat4(
            "SELECT id,path,name,caption,description,capabilities,phrases,category,param_type_ref,result_type_ref,action_type,fn_name,bin_name,action_config,files,trusted,created_at,updated_at FROM actions",
            where_clause,
            order_clause,
            window.as_str(),
        ),
    )
}

/// Whether this is the SQL of a listing of paths: the count and the page.
pub open spec fn is_paths_sql(
    r: (String, String),
    where_clause: Seq<char>,
    descending: bool,
    limit: nat,
    offset: nat,
) -> bool {
    &&& r.0@ == "SELECT COUNT(DISTINCT path) FROM actions"@ + where_clause
    &&& r.1@ == "SELECT path, COUNT(*) FROM actions"@ + where_clause
        + " GROUP BY path ORDER BY path "@ + (if descending {
        "DESC"@
    } else {
        "ASC"@
    }) + (" LIMIT "@ + decimal(limit) + " OFFSET "@ + decimal(offset))
}

/// The SQL of a listing of paths: how many there are, and the page of them with
/// the number of actions at each.
pub fn paths_sql(where_clause: &str, descending: bool, limit: usize, offset: usize) -> (r: (
    String,
    String,
))
    ensures
        is_paths_sql(r, where_clause@, descending, limit as nat, offset as nat),
{
    let l = print_u64(limit as u64);
    let o = print_u64(offset as u64);
    let window = cat4(" LIMIT ", l.as_str(), " OFFSET ", o.as_str());
    let dir = if descending {
        "DESC"
    } else {
        "ASC"
    };
    (
        cat2("SELECT COUNT(DISTINCT path) FROM actions", where_clause),
        cat5(
            "SELECT path, COUNT(*) FROM actions",
            where_clause,
            " GROUP BY path ORDER BY path ",
            dir,
            window.as_str(),
        ),
    )
}

/// Whether a listing may be filtered by a column. The config is not among them:
/// a filter on it would let a caller probe for the secrets that it holds.
pub open spec fn filterable(column: Seq<char>) -> bool {
    ||| column == "name"@
    ||| column == "caption"@
    ||| column == "description"@
    ||| column == "category"@
    ||| column == "capabilities"@
    ||| column == "phrases"@
    ||| column == "action_type"@
    ||| column == "param_type_ref"@
    ||| column == "result_type_ref"@
    ||| column == "fn_name"@
    ||| column == "bin_name"@
}

pub fn is_filterable(column: &str) -> (r: bool)
    ensures
        r == filterable(column@),
{
    same(column, "name") || same(column, "caption") || same(column, "description") || same(
        column,
        "category",
    ) || same(column, "capabilities") || same(column, "phrases") || same(column, "action_type")
        || same(column, "param_type_ref") || same(column, "result_type_ref") || same(
        column,
        "fn_name",
    ) || same(column, "bin_name")
}

/// No listing can be filtered by the config.
pub proof fn lemma_config_is_not_filterable()
    ensures
        !filterable("action_config"@),
{
    reveal_strlit("action_config");
    reveal_strlit("name");
    reveal_strlit("caption");
    reveal_strlit("description");
    reveal_strlit("category");
    reveal_strlit("capabilities");
    reveal_strlit("phrases");
    reveal_strlit("action_type");
    reveal_strlit("param_type_ref");
    reveal_strlit("result_type_ref");
    reveal_strlit("fn_name");
    reveal_strlit("bin_name");
    assert("action_config"@.len() == 13);
}

/// The columns that a listing is ordered by under a sort key.
pub open spec fn sort_columns_of(key: Seq<char>) -> Option<Seq<char>> {
    if key == "name"@ || key == "path"@ {
        Some("path,name"@)
    } else if key == "category"@ || key == "action_type"@ || key == "created_at"@ || key
        == "updated_at"@ {
        Some(key)
    } else {
        None
    }
}

pub fn sort_columns(key: &str) -> (r: Option<&'static str>)
    ensures
        opt_text(r) == sort_columns_of(key@),
{
    if same(key, "name") || same(key, "path") {
        Some("path,name")
    } else if same(key, "category") {
        Some("category")
    } else if same(key, "action_type") {
        Some("action_type")
    } else if same(key, "created_at") {
        Some("created_at")
    } else if same(key, "updated_at") {
        Some("updated_at")
    } else {
        None
    }
}

/// How many rows a search fetches for a page of `want`: more where hidden
/// actions are filtered out afterwards, up to a ceiling.
pub open spec fn fetch_limit(want: usize, exclude_hidden: bool) -> nat {
    if !exclude_hidden {
        want as nat
    } else if want * HIDDEN_OVERFETCH <= HIDDEN_FETCH_CAP {
        (want * HIDDEN_OVERFETCH) as nat
    } else {
        HIDDEN_FETCH_CAP as nat
    }
}

pub fn search_limit(want: usize, exclude_hidden: bool) -> (r: usize)
    ensures
        r == fetch_limit(want, exclude_hidden),
{
    if !exclude_hidden {
        want
    } else if want <= HIDDEN_FETCH_CAP / HIDDEN_OVERFETCH {
        want * HIDDEN_OVERFETCH
    } else {
        HIDDEN_FETCH_CAP
    }
}

/// The first `n` items that are not hidden.
pub open spec fn shown<T>(all: Seq<T>, hidden: Seq<bool>, n: nat) -> Seq<T>
    decreases n,
{
    if n == 0 || n > all.len() {
        Seq::empty()
    } else if hidden[n - 1] {
        shown(all, hidden, (n - 1) as nat)
    } else {
        shown(all, hidden, (n - 1) as nat).push(all[n - 1])
    }
}

/// The page that a search answers with: without the hidden actions where they
/// are excluded, and then no longer than asked for.
pub open spec fn visible_page<T>(
    all: Seq<T>,
    hidden: Seq<bool>,
    exclude_hidden: bool,
    want: usize,
) -> Seq<T> {
    if !exclude_hidden {
        all
    } else {
        let kept = shown(all, hidden, all.len());
        if kept.len() <= want {
            kept
        } else {
            kept.take(want as int)
        }
    }
}

/// Finish the page of a search. `hidden` says of each action whether the tool
/// policy hides it.
pub fn search_page(
    page: Vec<Action>,
    hidden: &Vec<bool>,
    exclude_hidden: bool,
    want: usize,
) -> (r: Vec<Action>)
    requires
        hidden.len() == page.len(),
    ensures
        records(r@) == visible_page(records(page@), hidden@, exclude_hidden, want),
{
    if !exclude_hidden {
        return page;
    }
    let ghost all = records(page@);
    let n: usize = page.len();
    let mut rest = page;
    let mut out: Vec<Action> = Vec::new();
    assert(records(out@) =~= Seq::<ActionRecord>::empty());
    let mut i: usize = 0;
    assert(all.skip(0) =~= all);
    while i < n
        invariant
            i <= n,
            n == all.len(),
            hidden.len() == n,
            records(rest@) == all.skip(i as int),
            records(out@) == shown(all, hidden@, i as nat),
        decreases n - i,
    {
        let ghost before = records(out@);
        let ghost behind = rest@;
        assert(records(rest@).len() == n - i);
        let a = rest.remove(0);
        assert(records(behind)[0] == a@);
        assert(a@ == all[i as int]);
        assert(records(rest@) =~= all.skip(i + 1)) by {
            assert forall|j: int| 0 <= j < rest@.len() implies records(rest@)[j] == all[i + 1 + j] by {
                assert(rest@[j] == behind[j + 1]);
                assert(records(behind)[j + 1] == all.skip(i as int)[j + 1]);
            }
        }
        if !hidden[i] {
            out.push(a);
            assert(records(out@) =~= before.push(a@));
        }
        i += 1;
    }
    let ghost kept = records(out@);
    if out.len() > want {
        out.truncate(want);
        assert(records(out@) =~= kept.take(want as int));
    }
    out
}

/// No hidden action is on a page that excludes them, and the page is no longer
/// than asked for.
pub proof fn lemma_hidden_stay_hidden<T>(all: Seq<T>, hidden: Seq<bool>, want: usize, x: T)
    requires
        hidden.len() == all.len(),
        forall|i: int| 0 <= i < all.len() && #[trigger] all[i] == x ==> hidden[i],
    ensures
        visible_page(all, hidden, true, want).len() <= want,
        !visible_page(all, hidden, true, want).contains(x),
{
    lemma_shown(all, hidden, all.len(), x);
    let kept = shown(all, hidden, all.len());
    let page = visible_page(all, hidden, true, want);
    if page.contains(x) {
        let i = choose|i: int| 0 <= i < page.len() && page[i] == x;
        assert(kept[i] == x);
    }
}

proof fn lemma_shown<T>(all: Seq<T>, hidden: Seq<bool>, n: nat, x: T)
    requires
        hidden.len() == all.len(),
        n <= all.len(),
        forall|i: int| 0 <= i < all.len() && #[trigger] all[i] == x ==> hidden[i],
    ensures
        !shown(all, hidden, n).contains(x),
    decreases n,
{
    if n > 0 {
        lemma_shown(all, hidden, (n - 1) as nat, x);
        let before = shown(all, hidden, (n - 1) as nat);
        let after = shown(all, hidden, n);
        if after.contains(x) {
            let i = choose|i: int| 0 <= i < after.len() && after[i] == x;
            if i < before.len() {
                assert(before[i] == x);
            } else {
                assert(all[n - 1] == x);
            }
        }
    }
}

// ── Executing ────────────────────────────────────────────────────────────────

/// Whether the parameters of an action are read under both spellings of a key
/// before they are validated. Only the handlers of the catalogue read them so;
/// every other action is called with exactly what it is given.
pub fn normalizes_params(action: &Action) -> (r: bool)
    ensures
        r == (action@.action_type == Some(ActionType::Internal)),
{
    match action.action_type {
        Some(ActionType::Internal) => true,
        _ => false,
    }
}

/// What executing an action runs.
#[derive(Debug)]
pub enum ExecTarget {
    Command { fn_name: String },
    Webhook { url: String },
    Internal { operation: String, caller: Option<Caller> },
    Wasm { bin_name: String, entry: Option<String>, frame: Caller },
    Script { bin_name: String, frame: Caller, budget_secs: u64 },
}

/// How an action is to be executed.
#[derive(Debug)]
pub struct ExecPlan {
    pub invocation_id: String,
    pub timeout_secs: Option<u64>,
    pub target: ExecTarget,
}

/// What a call of an action has to pass, and how it then runs: its parameters are
/// held to the type at `param_type_ref`, if there is one, before the plan is
/// followed.
#[derive(Debug)]
pub struct ExecStart {
    pub params: Value,
    pub param_type_ref: Option<String>,
    /// The config of the action with its secrets in place.
    pub action_config: Option<Value>,
    pub plan: Result<ExecPlan, SolxError>,
}

/// The parameters that an action sees.
pub open spec fn exec_params(a: ActionRecord, params: Json) -> Json {
    if a.action_type == Some(ActionType::Internal) {
        normalized(params)
    } else {
        params
    }
}

/// The time limit of a run: the action's own; a detached run without one has
/// the limit of background runs.
pub open spec fn effective_timeout(cfg: Option<Json>, detached: bool, background: u64) -> Option<u64> {
    match config_timeout(cfg) {
        Some(t) => Some(t),
        None => if detached {
            Some(background)
        } else {
            None
        },
    }
}

/// What is missing for an action to be executed, if anything.
pub open spec fn exec_obstacle(a: ActionRecord, action_ref: Seq<char>) -> Option<Failure> {
    match a.action_type {
        Some(ActionType::Command) => if a.fn_name is None {
            Some(Failure::Exec("command action has no fn_name (the command to run)"@))
        } else {
            None
        },
        Some(ActionType::Webhook) => if a.fn_name is None {
            Some(Failure::Exec("webhook action has no fn_name (URL)"@))
        } else {
            None
        },
        Some(ActionType::Internal) => if a.fn_name is None {
            Some(Failure::Exec("internal action has no fn_name (operation)"@))
        } else {
            None
        },
        Some(ActionType::Wasm) => if a.bin_name is None {
            Some(Failure::Exec("wasm action has no bin_name (artifact)"@))
        } else {
            None
        },
        Some(ActionType::Script) => if a.bin_name is None {
            Some(Failure::Exec("script action has no bin_name (artifact)"@))
        } else {
            None
        },
        None => Some(
            Failure::Exec("action "@ + action_ref + " has no action_type to execute"@),
        ),
    }
}

pub open spec fn caller_frame(c: Option<&Caller>) -> Option<crate::caller::CallerFrame> {
    match c {
        Some(x) => Some(x@),
        None => None,
    }
}

pub open spec fn owned_frame(c: Option<Caller>) -> Option<crate::caller::CallerFrame> {
    match c {
        Some(x) => Some(x@),
        None => None,
    }
}

/// Whether a target is the one that an action is executed as. A component or a
/// script runs under the frame of the action itself: it never reaches the keys
/// of the action that called it.
pub open spec fn is_target(
    t: ExecTarget,
    a: ActionRecord,
    action_ref: Seq<char>,
    caller: Option<crate::caller::CallerFrame>,
    id: Seq<char>,
    timeout: Option<u64>,
) -> bool {
    match a.action_type {
        Some(ActionType::Command) => t matches ExecTarget::Command { fn_name } && Some(fn_name@)
            == a.fn_name,
        Some(ActionType::Webhook) => t matches ExecTarget::Webhook { url } && Some(url@)
            == a.fn_name,
        Some(ActionType::Internal) => t matches ExecTarget::Internal { operation, caller: c } && Some(
            operation@,
        ) == a.fn_name && owned_frame(c) == caller,
        Some(ActionType::Wasm) => t matches ExecTarget::Wasm { bin_name, entry, frame } && Some(
            bin_name@,
        ) == a.bin_name && opt_string(entry) == a.fn_name && frame@ == frame_of(
            action_ref,
            a.action_config,
            id,
        ),
        Some(ActionType::Script) => t matches ExecTarget::Script { bin_name, frame, budget_secs }
            && Some(bin_name@) == a.bin_name && frame@ == frame_of(action_ref, a.action_config, id)
            && budget_secs == (match timeout {
            Some(s) => s,
            None => DEFAULT_TIMEOUT_SECS,
        }),
        None => false,
    }
}

fn exec_error(message: &str) -> (r: Result<ExecPlan, SolxError>)
    ensures
        r is Err && r->Err_0@ == Failure::Exec(message@),
{
    Err(SolxError::Exec(message.to_owned()))
}

/// Whether a plan is the one for executing an action: under the given identifier,
/// else the minted one.
pub open spec fn is_exec_plan(
    r: Result<ExecPlan, SolxError>,
    a: ActionRecord,
    action_ref: Seq<char>,
    caller: Option<crate::caller::CallerFrame>,
    invocation_id: Option<Seq<char>>,
    minted: Seq<char>,
    background: u64,
) -> bool {
    match exec_obstacle(a, action_ref) {
        Some(e) => r is Err && r->Err_0@ == e,
        None => {
            &&& r is Ok
            &&& r->Ok_0.invocation_id@ == (match invocation_id {
                Some(id) => id,
                None => minted,
            })
            &&& r->Ok_0.timeout_secs == effective_timeout(
                a.action_config,
                invocation_id is Some,
                background,
            )
            &&& is_target(
                r->Ok_0.target,
                a,
                action_ref,
                caller,
                r->Ok_0.invocation_id@,
                r->Ok_0.timeout_secs,
            )
        },
    }
}

/// Plan the execution of an action. `invocation_id` is given for a run that was
/// started in the background; any other run is under the identifier `minted`.
pub fn plan_exec(
    action: &Action,
    action_ref: &str,
    caller: Option<&Caller>,
    invocation_id: Option<&str>,
    minted: &str,
    background_timeout_secs: u64,
) -> (r: Result<ExecPlan, SolxError>)
    ensures
        is_exec_plan(
            r,
            action@,
            action_ref@,
            caller_frame(caller),
            opt_text(invocation_id),
            minted@,
            background_timeout_secs,
        ),
{
    let id: &str = match invocation_id {
        Some(id) => id,
        None => minted,
    };
    let timeout: Option<u64> = match timeout_secs(&action.action_config) {
        Some(t) => Some(t),
        None => if invocation_id.is_some() {
            Some(background_timeout_secs)
        } else {
            None
        },
    };
    let config = match &action.action_config {
        Some(c) => Some(c),
        None => None,
    };
    let target = match action.action_type {
        Some(ActionType::Command) => match &action.fn_name {
            Some(f) => ExecTarget::Command { fn_name: f.clone() },
            None => {
                return exec_error("command action has no fn_name (the command to run)");
            },
        },
        Some(ActionType::Webhook) => match &action.fn_name {
            Some(f) => ExecTarget::Webhook { url: f.clone() },
            None => {
                return exec_error("webhook action has no fn_name (URL)");
            },
        },
        Some(ActionType::Internal) => match &action.fn_name {
            Some(f) => ExecTarget::Internal {
                operation: f.clone(),
                caller: match caller {
                    Some(c) => Some(c.copy()),
                    None => None,
                },
            },
            None => {
                return exec_error("internal action has no fn_name (operation)");
            },
        },
        Some(ActionType::Wasm) => match &action.bin_name {
            Some(b) => ExecTarget::Wasm {
                bin_name: b.clone(),
                entry: copy_opt(&action.fn_name),
                frame: Caller::with_invocation(action_ref, config, id),
            },
            None => {
                return exec_error("wasm action has no bin_name (artifact)");
            },
        },
        Some(ActionType::Script) => match &action.bin_name {
            Some(b) => ExecTarget::Script {
                bin_name: b.clone(),
                frame: Caller::with_invocation(action_ref, config, id),
                budget_secs: match timeout {
                    Some(s) => s,
                    None => DEFAULT_TIMEOUT_SECS,
                },
            },
            None => {
                return exec_error("script action has no bin_name (artifact)");
            },
        },
        None => {
            return Err(
                SolxError::Exec(cat3("action ", action_ref, " has no action_type to execute")),
            );
        },
    };
    Ok(ExecPlan { invocation_id: id.to_owned(), timeout_secs: timeout, target })
}

/// The keys that a component or a script reaches are those of its own action,
/// whoever called it.
pub proof fn lemma_frames_are_their_own(
    t: ExecTarget,
    a: ActionRecord,
    action_ref: Seq<char>,
    caller: Option<crate::caller::CallerFrame>,
    other: Option<crate::caller::CallerFrame>,
    id: Seq<char>,
    timeout: Option<u64>,
)
    requires
        a.action_type == Some(ActionType::Wasm) || a.action_type == Some(ActionType::Script),
    ensures
        is_target(t, a, action_ref, caller, id, timeout) == is_target(
            t,
            a,
            action_ref,
            other,
            id,
            timeout,
        ),
{
}

/// What an action that ran to its end without its own report came to.
pub fn exec_result(action_ref: &str, result: Value) -> (r: ActionExecResult)
    ensures
        r@ == (ExecRecord { action: action_ref@, result: result@, success: true, message: None }),
{
    ActionExecResult { action: action_ref.to_owned(), result, success: true, message: None }
}

/// What a script action that ran out of time is reported as.
pub fn script_timed_out(action_ref: &str) -> (r: SolxError)
    ensures
        r@ == Failure::Exec("script action "@ + action_ref@ + " timed out"@),
{
    SolxError::Exec(cat3("script action ", action_ref, " timed out"))
}

/// The bytes of an artifact: those of the shared one, else those of the one that
/// the action owns.
pub open spec fn artifact_missing(
    kind: Seq<char>,
    bin_name: Seq<char>,
    shared_path: Seq<char>,
    owned_path: Seq<char>,
) -> Failure {
    Failure::Exec(
        kind + " artifact '"@ + bin_name + "' not found (tried '"@ + shared_path + "' and '"@ + (
        owned_path + "')"@),
    )
}

/// Whether this is an artifact that was looked for in two places, the shared one
/// first.
pub open spec fn is_artifact(
    r: Result<Vec<u8>, SolxError>,
    kind: Seq<char>,
    bin_name: Seq<char>,
    shared_path: Seq<char>,
    owned_path: Seq<char>,
    shared: Option<Vec<u8>>,
    owned: Option<Vec<u8>>,
) -> bool {
    match (shared, owned) {
        (Some(b), _) => r is Ok && r->Ok_0@ == b@,
        (None, Some(b)) => r is Ok && r->Ok_0@ == b@,
        (None, None) => r is Err && r->Err_0@ == artifact_missing(
            kind,
            bin_name,
            shared_path,
            owned_path,
        ),
    }
}

/// Take the bytes of an artifact from the shared place, or from the action's own
/// where there are none.
pub fn load_artifact(
    kind: &str,
    bin_name: &str,
    shared_path: &str,
    owned_path: &str,
    shared: Option<Vec<u8>>,
    owned: Option<Vec<u8>>,
) -> (r: Result<Vec<u8>, SolxError>)
    ensures
        is_artifact(r, kind@, bin_name@, shared_path@, owned_path@, shared, owned),
{
    match shared {
        Some(b) => Ok(b),
        None => match owned {
            Some(b) => Ok(b),
            None => {
                let tail = cat2(owned_path, "')");
                Err(
                    SolxError::Exec(
                        cat7(
                            kind,
                            " artifact '",
                            bin_name,
                            "' not found (tried '",
                            shared_path,
                            "' and '",
                            tail.as_str(),
                        ),
                    ),
                )
            },
        },
    }
}

/// Whether this is the text of a script.
pub open spec fn is_script_source(r: Result<String, SolxError>, bin_name: Seq<char>, bytes: Seq<u8>) -> bool {
    if valid_utf8(bytes) {
        r is Ok && r->Ok_0@ == decode_utf8(bytes)
    } else {
        r is Err && r->Err_0@ == Failure::Exec(
            "script artifact '"@ + bin_name + "' is not valid UTF-8: "@ + utf8_error(bytes),
        )
    }
}

/// The source of a script artifact.
pub fn script_source(bin_name: &str, bytes: Vec<u8>) -> (r: Result<String, SolxError>)
    ensures
        is_script_source(r, bin_name@, bytes@),
{
    match from_utf8(bytes) {
        Ok(s) => Ok(s),
        Err(e) => Err(
            SolxError::Exec(
                cat4("script artifact '", bin_name, "' is not valid UTF-8: ", e.as_str()),
            ),
        ),
    }
}

// ── Background runs ──────────────────────────────────────────────────────────

/// What stopping a run asks of the caller.
#[derive(Debug)]
pub enum StopStep {
    /// Answer with this: the run has ended already.
    Done(Value),
    /// Abort the run's task where there is one, then answer with this.
    Aborted { abort_task: bool, reply: Value },
    /// Answer with this, and stop the run by force after the grace period.
    AbortLater { grace_secs: u64, reply: Value },
}

/// What polling a run asks of the caller.
#[derive(Debug)]
pub enum PollStep {
    /// Answer with this.
    Reply(Value),
    /// Look again after so many milliseconds.
    Wait(u64),
}

/// The actions on record, the runs that were started in the background, and
/// which of those this process holds a task for.
pub struct LocalActionManager {
    pub config: Config,
    pub host: HostMode,
    pub actions: ActionStore,
    pub invocations: InvocationStore,
    pub running: Table<()>,
}

pub open spec fn not_long_lived() -> Failure {
    Failure::Exec(
        "action-start requires a long-lived host (solx-server or solx-mcp). This process exits when exec returns, which would kill the invocation before it could be polled. Point the CLI at a running server, or use exec."@,
    )
}

/// Why an action cannot be started in the background, if it cannot.
pub open spec fn start_obstacle(
    m: LocalActionManager,
    path: Seq<char>,
    name: Seq<char>,
    action_ref: Seq<char>,
    id: Seq<char>,
) -> Option<Failure> {
    if !m.host.long_lived {
        Some(not_long_lived())
    } else {
        match action_at(m.actions@, path, name) {
            None => Some(no_action(action_ref)),
            Some(a) => if a.action_type is None {
                Some(Failure::Exec("action "@ + action_ref + " has no action_type to execute"@))
            } else if run_of(m.runs(), id) is Some {
                Some(Failure::Db("UNIQUE constraint failed: invocations.invocation_id"@))
            } else {
                None
            },
        }
    }
}

pub open spec fn unknown_invocation(id: Seq<char>) -> Failure {
    Failure::NotFound("invocation "@ + id)
}

pub open spec fn start_reply(id: Seq<char>, action_ref: Seq<char>, seq_start: i64) -> Json {
    object_of(
        seq![
            ("invocation_id"@, Json::Str(id)),
            ("action_ref"@, Json::Str(action_ref)),
            ("console_seq_start"@, json_int(seq_start)),
        ],
    )
}

pub open spec fn outcome_view(outcome: Result<ActionExecResult, SolxError>) -> Result<
    ExecRecord,
    Failure,
> {
    match outcome {
        Ok(x) => Ok(x@),
        Err(e) => Err(e@),
    }
}

/// What the run of an action came to: its status, result and error.
pub open spec fn outcome_of(outcome: Result<ExecRecord, Failure>) -> (
    Seq<char>,
    Option<Json>,
    Option<Seq<char>>,
) {
    match outcome {
        Ok(r) => if r.success {
            (OK@, Some(r.result), None)
        } else {
            (FAILED@, Some(r.result), r.message)
        },
        Err(e) => (FAILED@, None, Some(e.message())),
    }
}

/// The runs that are left of those on record when the manager opens: none is
/// still going, and none ended before the cutoff.
pub open spec fn swept(runs: Seq<Run>, now: Seq<char>, cutoff: Seq<char>) -> Seq<Run> {
    kept(after_orphans(runs, now), cutoff, after_orphans(runs, now).len())
}

/// The seconds of a day.
pub const DAY_SECS: i64 = 86_400;

/// The second before which a run has to have ended to be dropped.
pub open spec fn cutoff_secs(secs: int, ttl_days: int) -> int {
    secs - DAY_SECS * ttl_days
}

/// What is said where the time that ended runs are kept for reaches out of the
/// calendar.
pub open spec fn ttl_out_of_range() -> Failure {
    Failure::Invalid("invocation_ttl_days reaches out of the calendar"@)
}

/// Whether a manager was opened as it should at a time, given in seconds and
/// nanoseconds since the Unix epoch.
pub open spec fn is_open(
    r: Result<LocalActionManager, SolxError>,
    config: Config,
    runs: Seq<Run>,
    secs: i64,
    nanos: u32,
) -> bool {
    let cutoff = cutoff_secs(secs as int, config.invocation_ttl_days as int);
    if in_calendar(cutoff) {
        &&& r matches Ok(m)
        &&& m.runs() == swept(
            runs,
            rfc3339_text(secs, nanos),
            rfc3339_text(cutoff as i64, nanos),
        )
    } else {
        r is Err && r->Err_0@ == ttl_out_of_range()
    }
}

/// Whether this is what executing an action takes: nothing but an error where there
/// is no such action.
pub open spec fn is_exec_start(
    r: Result<ExecStart, SolxError>,
    actions: Seq<ActionRecord>,
    path: Seq<char>,
    name: Seq<char>,
    action_ref: Seq<char>,
    params: Json,
    caller: Option<crate::caller::CallerFrame>,
    invocation_id: Option<Seq<char>>,
    background: u64,
) -> bool {
    match action_at(actions, path, trimmed(name)) {
        None => r is Err && r->Err_0@ == no_action(action_ref),
        Some(a) => {
            &&& r is Ok
            &&& r->Ok_0.params@ == exec_params(a, params)
            &&& opt_string(r->Ok_0.param_type_ref) == a.param_type_ref
            &&& opt_value(r->Ok_0.action_config) == a.action_config
            &&& exists|minted: Seq<char>|
                is_uuid(minted) && #[trigger] is_exec_plan(
                    r->Ok_0.plan,
                    a,
                    action_ref,
                    caller,
                    invocation_id,
                    minted,
                    background,
                )
        },
    }
}

/// Whether this answers a poll: with the run where it has ended or the wait is
/// over, else with how long to wait on.
pub open spec fn is_poll(
    r: Result<PollStep, SolxError>,
    runs: Seq<Run>,
    id: Seq<char>,
    wait_secs: Option<u64>,
    waited_ms: u64,
) -> bool {
    match run_of(runs, id) {
        None => r is Err && r->Err_0@ == unknown_invocation(id),
        Some(x) => if terminal(x.status) || wait_over(wait_secs, waited_ms) {
            r matches Ok(PollStep::Reply(v)) && v@ == run_json(x)
        } else {
            r matches Ok(PollStep::Wait(ms)) && ms == next_wait(wait_secs, waited_ms)
        },
    }
}

/// Whether nothing but the runs and their tasks changed.
pub open spec fn same_but_runs(before: LocalActionManager, after: LocalActionManager) -> bool {
    &&& after.actions@ == before.actions@
    &&& after.config == before.config
    &&& after.host == before.host
}

/// Whether a start answers and records what it should.
pub open spec fn is_start(
    r: Result<Value, SolxError>,
    before: LocalActionManager,
    after: LocalActionManager,
    path: Seq<char>,
    name: Seq<char>,
    action_ref: Seq<char>,
    id: Seq<char>,
    seq_start: i64,
    now: Seq<char>,
) -> bool {
    &&& same_but_runs(before, after)
    &&& match start_obstacle(before, path, name, action_ref, id) {
        Some(e) => {
            &&& r is Err && r->Err_0@ == e
            &&& after.runs() == before.runs()
            &&& after.tasks() == before.tasks()
        },
        None => {
            &&& r is Ok && r->Ok_0@ == start_reply(id, action_ref, seq_start)
            &&& after.runs() == before.runs().push(started(id, action_ref, seq_start, now))
            &&& after.tasks() == before.tasks().insert(id)
        },
    }
}

/// Whether the end of a run is recorded as it should.
pub open spec fn is_finish(
    before: LocalActionManager,
    after: LocalActionManager,
    id: Seq<char>,
    outcome: Result<ExecRecord, Failure>,
    now: Seq<char>,
) -> bool {
    let (status, result, error) = outcome_of(outcome);
    &&& same_but_runs(before, after)
    &&& after.runs() == after_finish(before.runs(), id, status, result, error, now)
    &&& after.tasks() == before.tasks().remove(id)
}

/// Whether a run is given up as it should.
pub open spec fn is_abort(
    r: bool,
    before: LocalActionManager,
    after: LocalActionManager,
    id: Seq<char>,
    now: Seq<char>,
) -> bool {
    &&& same_but_runs(before, after)
    &&& r == before.tasks().contains(id)
    &&& after.tasks() == before.tasks().remove(id)
    &&& after.runs() == after_finish(
        before.runs(),
        id,
        CANCELLED@,
        None,
        Some(aborted_error()),
        now,
    )
}

/// Whether a stop answers and records what it should.
pub open spec fn is_stop(
    r: Result<StopStep, SolxError>,
    before: LocalActionManager,
    after: LocalActionManager,
    id: Seq<char>,
    force: bool,
    grace_secs: Option<u64>,
    now: Seq<char>,
) -> bool {
    &&& same_but_runs(before, after)
    &&& match run_of(before.runs(), id) {
        None => {
            &&& r is Err && r->Err_0@ == unknown_invocation(id)
            &&& after.runs() == before.runs()
            &&& after.tasks() == before.tasks()
        },
        Some(x) => {
            let c = cancelled_run(x, now);
            let asked = after_cancel(before.runs(), id, now);
            if terminal(x.status) {
                &&& r matches Ok(StopStep::Done(v)) && v@ == run_json(c)
                &&& after.runs() == asked
                &&& after.tasks() == before.tasks()
            } else if force {
                let done = after_finish(
                    asked,
                    id,
                    CANCELLED@,
                    None,
                    Some(aborted_error()),
                    now,
                );
                &&& r matches Ok(StopStep::Aborted { abort_task, reply }) && abort_task
                    == before.tasks().contains(id) && run_of(done, id) is Some && reply@
                    == run_json(run_of(done, id)->0)
                &&& after.runs() == done
                &&& after.tasks() == before.tasks().remove(id)
            } else {
                &&& r matches Ok(StopStep::AbortLater { grace_secs: g, reply }) && reply@
                    == run_json(c) && g == (match grace_secs {
                    Some(s) => s,
                    None => before.config.stop_grace_secs,
                })
                &&& after.runs() == asked
                &&& after.tasks() == before.tasks()
            }
        },
    }
}

impl LocalActionManager {
    /// The runs that are on record.
    pub open spec fn runs(&self) -> Seq<Run> {
        self.invocations@
    }

    /// The runs that this process holds a task for.
    pub open spec fn tasks(&self) -> Set<Seq<char>> {
        self.running@.dom()
    }

    /// Open the manager on the actions and runs on record. The catalogue is put
    /// on record with `extra`. A run that is not at its end has no task behind it
    /// any more: it was interrupted. Runs that ended more than the configured
    /// number of days ago are dropped; a number that reaches out of the calendar
    /// is refused.
    pub fn open(
        config: Config,
        host: HostMode,
        actions: ActionStore,
        invocations: InvocationStore,
        extra: Vec<SeedAction>,
    ) -> (r: Result<LocalActionManager, SolxError>)
        ensures
            exists|secs: i64, nanos: u32|
                0 <= secs <= MAX_UTC_SECS && nanos < 1_000_000_000 && #[trigger] is_open(
                    r,
                    config,
                    invocations@,
                    secs,
                    nanos,
                ),
            r matches Ok(m) ==> {
                &&& m.config == config
                &&& m.host == host
                &&& exists|ids: Seq<Seq<char>>, now: Seq<char>|
                    is_utc_time(now) && #[trigger] is_seeding(
                        actions@,
                        m.actions@,
                        catalogue() + seed_records(extra@),
                        ids,
                        now,
                    )
                &&& m.tasks() == Set::<Seq<char>>::empty()
            },
    {
        let (secs, nanos) = utc_now();
        let ghost given = config;
        let ghost runs = invocations@;
        let cutoff: i128 = secs as i128 - 86_400 * config.invocation_ttl_days as i128;
        if cutoff < MIN_UTC_SECS as i128 || cutoff > MAX_UTC_SECS as i128 {
            let r: Result<LocalActionManager, SolxError> = Err(
                SolxError::Invalid("invocation_ttl_days reaches out of the calendar".to_owned()),
            );
            assert(is_open(r, given, runs, secs, nanos));
            return r;
        }
        let mut actions = actions;
        seed_builtins(&mut actions, extra);
        let r: Result<LocalActionManager, SolxError> = Ok(
            Self::open_at(config, host, actions, invocations, secs, nanos),
        );
        assert(is_open(r, given, runs, secs, nanos));
        r
    }

    /// Open the manager on the actions and runs on record, at a time given in
    /// seconds and nanoseconds since the Unix epoch.
    pub fn open_at(
        config: Config,
        host: HostMode,
        actions: ActionStore,
        invocations: InvocationStore,
        secs: i64,
        nanos: u32,
    ) -> (r: LocalActionManager)
        requires
            in_calendar(secs as int),
            in_calendar(cutoff_secs(secs as int, config.invocation_ttl_days as int)),
            nanos < 1_000_000_000,
        ensures
            r.config == config,
            r.host == host,
            r.actions@ == actions@,
            r.runs() == swept(
                invocations@,
                rfc3339_text(secs, nanos),
                rfc3339_text(
                    cutoff_secs(secs as int, config.invocation_ttl_days as int) as i64,
                    nanos,
                ),
            ),
            r.tasks() == Set::<Seq<char>>::empty(),
    {
        let ended: i128 = secs as i128 - 86_400 * config.invocation_ttl_days as i128;
        let now = write_rfc3339(secs, nanos);
        let cutoff = write_rfc3339(ended as i64, nanos);
        let mut invocations = invocations;
        let _ = invocations.mark_orphans(now.as_str());
        let _ = invocations.sweep_expired(cutoff.as_str());
        let r = LocalActionManager { config, host, actions, invocations, running: Table::new() };
        assert(r.tasks() =~= Set::<Seq<char>>::empty());
        r
    }

    pub fn invocations(&self) -> (r: &InvocationStore)
        ensures
            r@ == self.runs(),
    {
        &self.invocations
    }

    /// Create or update an action. The path is a normalized one, and `validate`
    /// is what decides on the input's capabilities. A new action has a fresh
    /// identifier.
    pub fn save<V: FnOnce(&Vec<String>) -> Result<(), String>>(
        &mut self,
        path: &str,
        name: &str,
        input: ActionInput,
        validate: V,
    ) -> (r: Result<Action, SolxError>)
        requires
            call_requires(validate, (&input.capabilities,)),
        ensures
            exists|v: Result<(), String>, id: Seq<char>, now: Seq<char>|
                call_ensures(validate, (&input.capabilities,), v) && is_uuid(id)
                    && is_utc_time(now) && #[trigger] is_save(
                    r,
                    old(self).actions@,
                    final(self).actions@,
                    verdict(v),
                    path@,
                    trimmed(name@),
                    input@,
                    id,
                    now,
                ),
            final(self).runs() == old(self).runs(),
            final(self).tasks() == old(self).tasks(),
            final(self).config == old(self).config,
            final(self).host == old(self).host,
    {
        let id = new_uuid();
        let now = now_rfc3339();
        let ghost before = self.actions@;
        let ghost given = input;
        let ghost check = validate;
        let r = self.actions.save(path, name, input, id.as_str(), now.as_str(), validate);
        proof {
            let v = choose|v: Result<(), String>| #[trigger]
                call_ensures(check, (&given.capabilities,), v) && is_save(
                    r,
                    before,
                    self.actions@,
                    verdict(v),
                    path@,
                    trimmed(name@),
                    given@,
                    id@,
                    now@,
                );
            assert(is_save(
                r,
                before,
                self.actions@,
                verdict(v),
                path@,
                trimmed(name@),
                given@,
                id@,
                now@,
            ));
        }
        r
    }

    /// An action on record, redacted.
    pub fn get(&self, path: &str, name: &str, action_ref: &str) -> (r: Result<Action, SolxError>)
        ensures
            is_get(r, self.actions@, path@, name@, action_ref@),
    {
        self.actions.get(path, name, action_ref)
    }

    /// Delete an action.
    pub fn delete(&mut self, path: &str, name: &str, action_ref: &str) -> (r: Result<(), SolxError>)
        ensures
            is_delete(r, old(self).actions@, final(self).actions@, path@, name@, action_ref@),
            final(self).runs() == old(self).runs(),
            final(self).tasks() == old(self).tasks(),
            final(self).config == old(self).config,
            final(self).host == old(self).host,
    {
        self.actions.delete(path, name, action_ref)
    }

    /// What executing an action takes: its parameters under the spellings that it
    /// reads, the type that they are held to, its config with the secrets in it,
    /// and the plan of the run. A run that was not started in the background is
    /// under a fresh identifier.
    pub fn exec_as_with(
        &self,
        path: &str,
        name: &str,
        action_ref: &str,
        params: Value,
        caller: Option<&Caller>,
        invocation_id: Option<&str>,
    ) -> (r: Result<ExecStart, SolxError>)
        ensures
            is_exec_start(
                r,
                self.actions@,
                path@,
                name@,
                action_ref@,
                params@,
                caller_frame(caller),
                opt_text(invocation_id),
                self.config.background_timeout_secs,
            ),
    {
        let action = match self.actions.get_unmasked(path, name, action_ref) {
            Ok(a) => a,
            Err(e) => {
                return Err(e);
            },
        };
        let params = if normalizes_params(&action) {
            normalize_params(&params)
        } else {
            params
        };
        let minted = new_uuid();
        let plan = plan_exec(
            &action,
            action_ref,
            caller,
            invocation_id,
            minted.as_str(),
            self.config.background_timeout_secs,
        );
        Ok(
            ExecStart {
                params,
                param_type_ref: action.param_type_ref,
                action_config: action.action_config,
                plan,
            },
        )
    }

    /// Begin the run of an action in the background, under a fresh identifier.
    /// Refused where the process is no long-lived host, or the action is not on
    /// record or has no type; then nothing is recorded.
    pub fn start_invocation(
        &mut self,
        path: &str,
        name: &str,
        action_ref: &str,
        console_seq_start: i64,
    ) -> (r: Result<Value, SolxError>)
        ensures
            exists|id: Seq<char>, now: Seq<char>|
                is_uuid(id) && is_utc_time(now) && #[trigger] is_start(
                    r,
                    *old(self),
                    *final(self),
                    path@,
                    trimmed(name@),
                    action_ref@,
                    id,
                    console_seq_start,
                    now,
                ),
    {
        let id = new_uuid();
        let now = now_rfc3339();
        self.start_invocation_as(path, name, action_ref, id.as_str(), console_seq_start, now.as_str())
    }

    /// Begin the run of an action in the background, under the identifier
    /// `invocation_id`.
    pub fn start_invocation_as(
        &mut self,
        path: &str,
        name: &str,
        action_ref: &str,
        invocation_id: &str,
        console_seq_start: i64,
        now: &str,
    ) -> (r: Result<Value, SolxError>)
        ensures
            is_start(
                r,
                *old(self),
                *final(self),
                path@,
                trimmed(name@),
                action_ref@,
                invocation_id@,
                console_seq_start,
                now@,
            ),
    {
        if let Err(e) = require_long_lived_host(&self.host) {
            return Err(e);
        }
        let action = match self.actions.get_unmasked(path, name, action_ref) {
            Ok(a) => a,
            Err(e) => {
                return Err(e);
            },
        };
        if action.action_type.is_none() {
            return Err(
                SolxError::Exec(cat3("action ", action_ref, " has no action_type to execute")),
            );
        }
        match self.invocations.create(invocation_id, action_ref, console_seq_start, now) {
            Ok(_) => {},
            Err(e) => {
                return Err(e);
            },
        }
        let ghost before = self.running@;
        self.running.insert(invocation_id, ());
        assert(self.running@.dom() =~= before.dom().insert(invocation_id@));
        let pairs: Vec<(&'static str, Value)> = vec![
            ("invocation_id", Value::text(invocation_id)),
            ("action_ref", Value::text(action_ref)),
            ("console_seq_start", Value::sint(console_seq_start)),
        ];
        assert(pairs_view(pairs@) =~= seq![
            ("invocation_id"@, Json::Str(invocation_id@)),
            ("action_ref"@, Json::Str(action_ref@)),
            ("console_seq_start"@, json_int(console_seq_start)),
        ]);
        Ok(Value::object(pairs))
    }

    /// Record what a background run came to, at the time that it is.
    pub fn finish_invocation(
        &mut self,
        invocation_id: &str,
        outcome: Result<ActionExecResult, SolxError>,
    )
        ensures
            exists|now: Seq<char>|
                is_utc_time(now) && #[trigger] is_finish(
                    *old(self),
                    *final(self),
                    invocation_id@,
                    outcome_view(outcome),
                    now,
                ),
    {
        let now = now_rfc3339();
        self.finish_invocation_at(invocation_id, outcome, now.as_str());
    }

    /// Record what a background run came to, at the given time.
    pub fn finish_invocation_at(
        &mut self,
        invocation_id: &str,
        outcome: Result<ActionExecResult, SolxError>,
        now: &str,
    )
        ensures
            is_finish(*old(self), *final(self), invocation_id@, outcome_view(outcome), now@),
    {
        let (status, result, error): (&str, Option<Value>, Option<String>) = match outcome {
            Ok(x) => if x.success {
                (OK, Some(x.result), None)
            } else {
                (FAILED, Some(x.result), x.message)
            },
            Err(e) => (FAILED, None, Some(e.message())),
        };
        self.invocations.finish(invocation_id, status, result, error, now);
        let ghost before = self.running@;
        let _ = self.running.remove(invocation_id);
        assert(self.running@.dom() =~= before.dom().remove(invocation_id@));
    }

    /// Give up the task behind a run, if there is one, and mark the run
    /// cancelled; one that ended by itself stays as it is. Says whether there is
    /// a task to abort.
    pub fn force_abort(&mut self, invocation_id: &str) -> (r: bool)
        ensures
            exists|now: Seq<char>|
                is_utc_time(now) && #[trigger] is_abort(r, *old(self), *final(self), invocation_id@, now),
    {
        let now = now_rfc3339();
        self.force_abort_at(invocation_id, now.as_str())
    }

    /// Give up the task behind a run, at the given time.
    pub fn force_abort_at(&mut self, invocation_id: &str, now: &str) -> (r: bool)
        ensures
            is_abort(r, *old(self), *final(self), invocation_id@, now@),
    {
        let ghost before = self.running@;
        let task = self.running.remove(invocation_id);
        assert(self.running@.dom() =~= before.dom().remove(invocation_id@));
        self.invocations.mark_aborted(invocation_id, now);
        task.is_some()
    }

    /// Ask a background run to stop. The request is on record at once, for the
    /// run to see; a run that goes on is stopped by force, now where `force` is
    /// set, else after the grace period.
    pub fn stop_invocation(
        &mut self,
        invocation_id: &str,
        force: bool,
        grace_secs: Option<u64>,
    ) -> (r: Result<StopStep, SolxError>)
        ensures
            exists|now: Seq<char>|
                is_utc_time(now) && #[trigger] is_stop(
                    r,
                    *old(self),
                    *final(self),
                    invocation_id@,
                    force,
                    grace_secs,
                    now,
                ),
    {
        let now = now_rfc3339();
        self.stop_invocation_at(invocation_id, force, grace_secs, now.as_str())
    }

    /// Ask a background run to stop, at the given time.
    pub fn stop_invocation_at(
        &mut self,
        invocation_id: &str,
        force: bool,
        grace_secs: Option<u64>,
        now: &str,
    ) -> (r: Result<StopStep, SolxError>)
        ensures
            is_stop(r, *old(self), *final(self), invocation_id@, force, grace_secs, now@),
    {
        let ghost start = self.invocations@;
        let inv = match self.invocations.request_cancel(invocation_id, now) {
            Some(inv) => inv,
            None => {
                return Err(SolxError::NotFound(cat2("invocation ", invocation_id)));
            },
        };
        proof {
            crate::invocations::lemma_cancel_keeps_end(run_of(start, invocation_id@)->0, now@);
        }
        if is_terminal(inv.status.as_str()) {
            return Ok(StopStep::Done(inv.to_json()));
        }
        if force {
            proof {
                crate::invocations::lemma_cancel_then_finish(
                    start,
                    invocation_id@,
                    CANCELLED@,
                    None,
                    Some(aborted_error()),
                    now@,
                );
            }
            let abort_task = self.force_abort_at(invocation_id, now);
            return match self.invocations.get(invocation_id) {
                Some(inv) => Ok(StopStep::Aborted { abort_task, reply: inv.to_json() }),
                None => Err(SolxError::NotFound(cat2("invocation ", invocation_id))),
            };
        }
        let grace: u64 = match grace_secs {
            Some(s) => s,
            None => self.config.stop_grace_secs,
        };
        Ok(StopStep::AbortLater { grace_secs: grace, reply: inv.to_json() })
    }

    /// The status of a background run. A poll that waits looks again until the
    /// run has ended or the wait, of at most a minute, is over; `waited_ms` is
    /// how long it has waited.
    pub fn poll_invocation(&self, invocation_id: &str, wait_secs: Option<u64>, waited_ms: u64) -> (r:
        Result<PollStep, SolxError>)
        ensures
            is_poll(r, self.runs(), invocation_id@, wait_secs, waited_ms),
    {
        let inv = match self.invocations.get(invocation_id) {
            Some(inv) => inv,
            None => {
                return Err(SolxError::NotFound(cat2("invocation ", invocation_id)));
            },
        };
        if is_terminal(inv.status.as_str()) {
            return Ok(PollStep::Reply(inv.to_json()));
        }
        match poll_wait(wait_secs, waited_ms) {
            Some(ms) => Ok(PollStep::Wait(ms)),
            None => Ok(PollStep::Reply(inv.to_json())),
        }
    }
}

/// How long a poll waits in all, in milliseconds.
pub open spec fn wait_limit_ms(wait_secs: u64) -> int {
    if wait_secs <= MAX_TAIL_WAIT_SECS {
        wait_secs * 1000
    } else {
        MAX_TAIL_WAIT_SECS * 1000
    }
}

/// Whether a poll has waited long enough; one without a wait has at once.
pub open spec fn wait_over(wait_secs: Option<u64>, waited_ms: u64) -> bool {
    match wait_secs {
        Some(s) => waited_ms >= wait_limit_ms(s),
        None => true,
    }
}

/// How long a poll waits before it looks again: never beyond its limit.
pub open spec fn next_wait(wait_secs: Option<u64>, waited_ms: u64) -> int {
    match wait_secs {
        Some(s) => if wait_limit_ms(s) - waited_ms < TAIL_POLL_INTERVAL_MS {
            wait_limit_ms(s) - waited_ms
        } else {
            TAIL_POLL_INTERVAL_MS as int
        },
        None => 0,
    }
}

/// How long to wait before looking again; none where the wait is over.
pub fn poll_wait(wait_secs: Option<u64>, waited_ms: u64) -> (r: Option<u64>)
    ensures
        match r {
            Some(ms) => !wait_over(wait_secs, waited_ms) && ms == next_wait(wait_secs, waited_ms),
            None => wait_over(wait_secs, waited_ms),
        },
{
    match wait_secs {
        None => None,
        Some(s) => {
            let limit: u64 = if s <= MAX_TAIL_WAIT_SECS {
                s * 1000
            } else {
                MAX_TAIL_WAIT_SECS * 1000
            };
            if waited_ms >= limit {
                None
            } else if limit - waited_ms < TAIL_POLL_INTERVAL_MS {
                Some(limit - waited_ms)
            } else {
                Some(TAIL_POLL_INTERVAL_MS)
            }
        },
    }
}

} // verus!
