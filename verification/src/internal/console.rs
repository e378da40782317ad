//! The console operations. Printing is scoped to the calling action: it always
//! goes to that action's own console. Reading, tailing, clearing and listing
//! name a console and are open to everybody.

use vstd::prelude::*;
use vstd::string::*;

use crate::caller::{Caller, CallerFrame};
use crate::internal::{require_str, required};
use crate::json::{json_int, json_opt_str, object_of, pairs_view};
use crate::manager::caller_frame;
use crate::text::{opt_string, opt_text};
use crate::value::{items, opt_value, Json, Value};

verus! {

broadcast use crate::value::group_value_views;

/// How many entries a call reads that names no limit.
pub const DEFAULT_READ_LIMIT: i64 = 200;

/// How many consoles a call lists that names no limit.
pub const DEFAULT_LIST_LIMIT: i64 = 100;

/// An entry to write.
#[derive(Debug)]
pub struct ConsolePrint {
    pub action_ref: String,
    pub invocation_id: String,
    pub level: String,
    pub source: &'static str,
    pub message: Option<String>,
    pub data: Option<Value>,
}

/// Whether this is the line that a caller prints to its console.
pub open spec fn is_print(
    r: Result<ConsolePrint, String>,
    params: Json,
    caller: Option<CallerFrame>,
) -> bool {
    match caller {
        None => r is Err && r->Err_0@
            == "console_print has no action caller — it can only be called from within an action's own execution"@,
        Some(c) => {
            &&& r is Ok
            &&& r->Ok_0.action_ref@ == c.action_ref
            &&& r->Ok_0.invocation_id@ == c.invocation_id
            &&& r->Ok_0.level@ == params.str_or("level"@, "info"@)
            &&& r->Ok_0.source@ == "guest"@
            &&& opt_string(r->Ok_0.message) == params.get_str("message"@)
            &&& opt_value(r->Ok_0.data) == (if params.field("data"@) is Null {
                None
            } else {
                Some(params.field("data"@))
            })
        },
    }
}

/// What a call prints: into the console of the calling action, and no other.
pub fn print(params: &Value, caller: Option<&Caller>) -> (r: Result<ConsolePrint, String>)
    ensures
        is_print(r, params@, caller_frame(caller)),
{
    let caller = match caller {
        Some(c) => c,
        None => {
            return Err(
                "console_print has no action caller — it can only be called from within an action's own execution".to_owned(),
            );
        },
    };
    let data = params.field("data");
    Ok(
        ConsolePrint {
            action_ref: caller.action_ref().to_owned(),
            invocation_id: caller.invocation_id().to_owned(),
            level: params.str_or("level", "info").to_owned(),
            source: "guest",
            message: match params.get_str("message") {
                Some(s) => Some(s.to_owned()),
                None => None,
            },
            data: if data.is_null() {
                None
            } else {
                Some(data)
            },
        },
    )
}

/// The answer to a print: the number of the entry.
pub fn print_reply(seq: i64) -> (r: Value)
    ensures
        r@ == object_of(seq![("seq"@, json_int(seq))]),
{
    let pairs: Vec<(&'static str, Value)> = vec![("seq", Value::sint(seq))];
    assert(pairs_view(pairs@) =~= seq![("seq"@, json_int(seq))]);
    Value::object(pairs)
}

/// Which entries of which console a call reads.
#[derive(Debug)]
pub struct ConsoleRange {
    pub action_ref: String,
    /// Where to begin.
    pub from: Option<i64>,
    pub limit: i64,
    /// How long to wait for more, for a tail.
    pub wait_secs: Option<u64>,
}

pub open spec fn limit_in(params: Json, default: i64) -> i64 {
    match params.get_i64("limit"@) {
        Some(n) => n,
        None => default,
    }
}

fn range_in(params: &Value, from: &str, wait: bool) -> (r: Result<ConsoleRange, String>)
    ensures
        match required(params@, "action_ref"@) {
            Err(e) => r is Err && r->Err_0@ == e,
            Ok(a) => {
                &&& r is Ok
                &&& r->Ok_0.action_ref@ == a
                &&& r->Ok_0.from == params@.get_i64(from@)
                &&& r->Ok_0.limit == limit_in(params@, DEFAULT_READ_LIMIT)
                &&& r->Ok_0.wait_secs == (if wait {
                    params@.get_u64("wait_secs"@)
                } else {
                    None
                })
            },
        },
{
    let action_ref = match require_str(params, "action_ref") {
        Ok(s) => s,
        Err(e) => {
            return Err(e);
        },
    };
    let limit: i64 = match params.get_i64("limit") {
        Some(n) => n,
        None => DEFAULT_READ_LIMIT,
    };
    Ok(
        ConsoleRange {
            action_ref: action_ref.to_owned(),
            from: params.get_i64(from),
            limit,
            wait_secs: if wait {
                params.get_u64("wait_secs")
            } else {
                None
            },
        },
    )
}

/// Whether this is the part of a console that some parameters read.
pub open spec fn is_read_range(r: Result<ConsoleRange, String>, params: Json) -> bool {
    match required(params, "action_ref"@) {
        Err(e) => r is Err && r->Err_0@ == e,
        Ok(a) => r is Ok && r->Ok_0.action_ref@ == a && r->Ok_0.from == params.get_i64(
            "from_seq"@,
        ) && r->Ok_0.limit == limit_in(params, DEFAULT_READ_LIMIT) && r->Ok_0.wait_secs
            is None,
    }
}

/// What a read asks for.
pub fn read(params: &Value) -> (r: Result<ConsoleRange, String>)
    ensures
        is_read_range(r, params@),
{
    range_in(params, "from_seq", false)
}

/// Whether this is the part of a console that some parameters follow.
pub open spec fn is_tail_range(r: Result<ConsoleRange, String>, params: Json) -> bool {
    match required(params, "action_ref"@) {
        Err(e) => r is Err && r->Err_0@ == e,
        Ok(a) => r is Ok && r->Ok_0.action_ref@ == a && r->Ok_0.from == params.get_i64(
            "cursor"@,
        ) && r->Ok_0.limit == limit_in(params, DEFAULT_READ_LIMIT) && r->Ok_0.wait_secs
            == params.get_u64("wait_secs"@),
    }
}

/// What a tail asks for.
pub fn tail(params: &Value) -> (r: Result<ConsoleRange, String>)
    ensures
        is_tail_range(r, params@),
{
    range_in(params, "cursor", true)
}

/// Whether this is the part of a console that some parameters clear.
pub open spec fn is_clear_range(r: Result<(String, Option<i64>), String>, params: Json) -> bool {
    match required(params, "action_ref"@) {
        Err(e) => r is Err && r->Err_0@ == e,
        Ok(a) => r is Ok && r->Ok_0.0@ == a && r->Ok_0.1 == params.get_i64("before_seq"@),
    }
}

/// What a clear asks for: a console, and before which entry.
pub fn clear(params: &Value) -> (r: Result<(String, Option<i64>), String>)
    ensures
        is_clear_range(r, params@),
{
    match require_str(params, "action_ref") {
        Ok(a) => Ok((a.to_owned(), params.get_i64("before_seq"))),
        Err(e) => Err(e),
    }
}

/// The answer to a clear: how many entries were removed.
pub fn clear_reply(removed: u64) -> (r: Value)
    ensures
        r@ == object_of(seq![("removed"@, crate::json::json_uint(removed))]),
{
    let pairs: Vec<(&'static str, Value)> = vec![("removed", Value::uint(removed))];
    assert(pairs_view(pairs@) =~= seq![("removed"@, crate::json::json_uint(removed))]);
    Value::object(pairs)
}

/// What a list asks for: a prefix and a limit.
pub fn list<'a>(params: &'a Value) -> (r: (Option<&'a str>, i64))
    ensures
        opt_text(r.0) == params@.get_str("prefix"@),
        r.1 == limit_in(params@, DEFAULT_LIST_LIMIT),
{
    let limit: i64 = match params.get_i64("limit") {
        Some(n) => n,
        None => DEFAULT_LIST_LIMIT,
    };
    (params.get_str("prefix"), limit)
}

/// A console on record.
#[derive(Debug)]
pub struct ConsoleInfo {
    pub action_ref: String,
    pub created_at: String,
    pub last_write: String,
    pub entry_count: i64,
    pub dropped: i64,
    pub next_seq: i64,
}

pub open spec fn info_json(c: ConsoleInfo) -> Json {
    object_of(
        seq![
            ("action_ref"@, Json::Str(c.action_ref@)),
            ("created_at"@, Json::Str(c.created_at@)),
            ("last_write"@, Json::Str(c.last_write@)),
            ("entry_count"@, json_int(c.entry_count)),
            ("dropped"@, json_int(c.dropped)),
            ("next_seq"@, json_int(c.next_seq)),
        ],
    )
}

fn info_value(c: &ConsoleInfo) -> (r: Value)
    ensures
        r@ == info_json(*c),
{
    let pairs: Vec<(&'static str, Value)> = vec![
        ("action_ref", Value::text(c.action_ref.as_str())),
        ("created_at", Value::text(c.created_at.as_str())),
        ("last_write", Value::text(c.last_write.as_str())),
        ("entry_count", Value::sint(c.entry_count)),
        ("dropped", Value::sint(c.dropped)),
        ("next_seq", Value::sint(c.next_seq)),
    ];
    assert(pairs_view(pairs@) =~= seq![
        ("action_ref"@, Json::Str(c.action_ref@)),
        ("created_at"@, Json::Str(c.created_at@)),
        ("last_write"@, Json::Str(c.last_write@)),
        ("entry_count"@, json_int(c.entry_count)),
        ("dropped"@, json_int(c.dropped)),
        ("next_seq"@, json_int(c.next_seq)),
    ]);
    Value::object(pairs)
}

/// The answer to a list.
pub fn list_reply(consoles: &Vec<ConsoleInfo>) -> (r: Value)
    ensures
        r@ == object_of(
            seq![
                (
                    "consoles"@,
                    Json::Array(Seq::new(consoles@.len(), |i: int| info_json(consoles@[i]))),
                ),
            ],
        ),
{
    let mut out: Vec<Value> = Vec::new();
    let mut i: usize = 0;
    while i < consoles.len()
        invariant
            i <= consoles.len(),
            out@.len() == i,
            forall|j: int| 0 <= j < i ==> (#[trigger] out@[j])@ == info_json(consoles@[j]),
        decreases consoles.len() - i,
    {
        out.push(info_value(&consoles[i]));
        i += 1;
    }
    assert(items(out@) =~= Seq::new(consoles@.len(), |i: int| info_json(consoles@[i])));
    let pairs: Vec<(&'static str, Value)> = vec![("consoles", Value::Array(out))];
    assert(pairs_view(pairs@) =~= seq![
        (
            "consoles"@,
            Json::Array(Seq::new(consoles@.len(), |i: int| info_json(consoles@[i]))),
        ),
    ]);
    Value::object(pairs)
}

/// An entry of a console.
#[derive(Debug)]
pub struct ConsoleEntry {
    pub seq: i64,
    pub ts: String,
    pub level: String,
    pub invocation_id: String,
    pub run_id: Option<String>,
    pub source: String,
    pub message: Option<String>,
    pub data: Option<Value>,
}

/// What a read or a tail found.
#[derive(Debug)]
pub struct ReadResult {
    pub entries: Vec<ConsoleEntry>,
    pub next_cursor: i64,
    pub first_seq: Option<i64>,
    pub dropped: i64,
}

pub open spec fn or_null(v: Option<Json>) -> Json {
    match v {
        Some(x) => x,
        None => Json::Null,
    }
}

pub open spec fn entry_json(e: ConsoleEntry) -> Json {
    object_of(
        seq![
            ("seq"@, json_int(e.seq)),
            ("ts"@, Json::Str(e.ts@)),
            ("level"@, Json::Str(e.level@)),
            ("invocation_id"@, Json::Str(e.invocation_id@)),
            ("run_id"@, json_opt_str(opt_string(e.run_id))),
            ("source"@, Json::Str(e.source@)),
            ("message"@, json_opt_str(opt_string(e.message))),
            ("data"@, or_null(opt_value(e.data))),
        ],
    )
}

fn opt_str_value(s: &Option<String>) -> (r: Value)
    ensures
        r@ == json_opt_str(opt_string(*s)),
{
    match s {
        Some(t) => Value::text(t.as_str()),
        None => Value::Null,
    }
}

fn entry_value(e: &ConsoleEntry) -> (r: Value)
    ensures
        r@ == entry_json(*e),
{
    let data = match &e.data {
        Some(v) => v.clone(),
        None => Value::Null,
    };
    let pairs: Vec<(&'static str, Value)> = vec![
        ("seq", Value::sint(e.seq)),
        ("ts", Value::text(e.ts.as_str())),
        ("level", Value::text(e.level.as_str())),
        ("invocation_id", Value::text(e.invocation_id.as_str())),
        ("run_id", opt_str_value(&e.run_id)),
        ("source", Value::text(e.source.as_str())),
        ("message", opt_str_value(&e.message)),
        ("data", data),
    ];
    assert(pairs_view(pairs@) =~= seq![
        ("seq"@, json_int(e.seq)),
        ("ts"@, Json::Str(e.ts@)),
        ("level"@, Json::Str(e.level@)),
        ("invocation_id"@, Json::Str(e.invocation_id@)),
        ("run_id"@, json_opt_str(opt_string(e.run_id))),
        ("source"@, Json::Str(e.source@)),
        ("message"@, json_opt_str(opt_string(e.message))),
        ("data"@, or_null(opt_value(e.data))),
    ]);
    Value::object(pairs)
}

pub open spec fn read_json(r: ReadResult) -> Json {
    object_of(
        seq![
            (
                "entries"@,
                Json::Array(Seq::new(r.entries@.len(), |i: int| entry_json(r.entries@[i]))),
            ),
            ("next_cursor"@, json_int(r.next_cursor)),
            (
                "first_seq"@,
                match r.first_seq {
                    Some(n) => json_int(n),
                    None => Json::Null,
                },
            ),
            ("dropped"@, json_int(r.dropped)),
        ],
    )
}

/// The answer to a read or a tail.
pub fn result_to_value(result: &ReadResult) -> (r: Value)
    ensures
        r@ == read_json(*result),
{
    let entries = &result.entries;
    let mut out: Vec<Value> = Vec::new();
    let mut i: usize = 0;
    while i < entries.len()
        invariant
            i <= entries.len(),
            out@.len() == i,
            forall|j: int| 0 <= j < i ==> (#[trigger] out@[j])@ == entry_json(entries@[j]),
        decreases entries.len() - i,
    {
        out.push(entry_value(&entries[i]));
        i += 1;
    }
    assert(items(out@) =~= Seq::new(
        result.entries@.len(),
        |i: int| entry_json(result.entries@[i]),
    ));
    let first = match result.first_seq {
        Some(n) => Value::sint(n),
        None => Value::Null,
    };
    let pairs: Vec<(&'static str, Value)> = vec![
        ("entries", Value::Array(out)),
        ("next_cursor", Value::sint(result.next_cursor)),
        ("first_seq", first),
        ("dropped", Value::sint(result.dropped)),
    ];
    assert(pairs_view(pairs@) =~= seq![
        (
            "entries"@,
            Json::Array(Seq::new(result.entries@.len(), |i: int| entry_json(result.entries@[i]))),
        ),
        ("next_cursor"@, json_int(result.next_cursor)),
        (
            "first_seq"@,
            match result.first_seq {
                Some(n) => json_int(n),
                None => Json::Null,
            },
        ),
        ("dropped"@, json_int(result.dropped)),
    ]);
    Value::object(pairs)
}

} // verus!
