//! What built-in operations ask of the host: files, runs, consoles, pages, scripts,
//! secrets, chance and widgets.

use vstd::prelude::*;
use vstd::string::*;
use vstd::utf8::encode_utf8;

use crate::caller::CallerFrame;
use crate::encoding::{base64_decoded, content_of};
use crate::internal::console::{entry_json, info_json, is_clear_range, is_print, is_read_range};
use crate::internal::console::{is_tail_range, read_json, ConsoleEntry, ConsoleInfo, ConsolePrint};
use crate::internal::console::{ConsoleRange, ReadResult};
use crate::internal::file::{below, copied_to, copies, get_reply, is_below, is_copy_request};
use crate::internal::file::{is_file_write, without_prefix, CopyRequest, FileWrite};
use crate::internal::invocation::{is_cancelled_reply, is_poll_request, is_start_request};
use crate::internal::invocation::{is_stop_request, StartRequest, StopRequest};
use crate::internal::open_url::{is_launch, Launch, Platform};
use crate::internal::script_exec::{is_script_run, ScriptRun};
use crate::internal::secrets::{is_own_secret_read, is_own_secret_write, is_secret_read};
use crate::internal::secrets::{is_secret_write, key_of};
use crate::internal::utils::{bounds_in, is_alphanumeric, is_random_int, length_in, number_reply};
use crate::internal::utils::{text_reply, value_reply};
use crate::internal::widget::{is_open_request, is_widget_exec, is_widget_read, is_widget_set};
use crate::internal::widget::{OpenRequest, WidgetWrite};
use crate::invocations::{run_of, Run};
use crate::json::{json_int, json_opt_str};
use crate::laws::lemma_pair_is_member;
use crate::net::outbound;
use crate::secrets::{may_read, may_write};
use crate::text::{is_blank, texts, trimmed_end, trimmed_start};
use crate::value::{Json, Value};

verus! {

// ── Files ────────────────────────────────────────────────────────────────────

/// A file is written if both its path and its content are given, and then its bytes
/// are the content: in UTF-8 unless it is said to be in base64.
pub proof fn lemma_what_is_written(r: Result<FileWrite, String>, params: Json)
    requires
        is_file_write(r, params),
    ensures
        r is Ok ==> params.get_str("rel_path"@) is Some && params.get_str("content"@) is Some,
        r matches Ok(w) ==> params.get_str("rel_path"@) == Some(w.rel_path@),
        params.get_str("rel_path"@) is Some && params.get_str("content"@) is Some
            && params.get_str("encoding"@) is None ==> r is Ok && r->Ok_0.bytes@ == encode_utf8(
            params.get_str("content"@)->0,
        ),
        params.get_str("rel_path"@) is Some && params.get_str("content"@) is Some
            && params.get_str("encoding"@) == Some("base64"@) ==> (r is Ok <==> base64_decoded(
            params.get_str("content"@)->0,
        ) is Ok) && (r is Ok ==> base64_decoded(params.get_str("content"@)->0) == Ok::<
            Seq<u8>,
            Seq<char>,
        >(r->Ok_0.bytes@)),
{
    reveal_strlit("utf8");
    reveal_strlit("base64");
    assert("utf8"@.len() == 4);
    assert("base64"@.len() == 6);
}

/// A file is shown with its path, its content and the encoding of that.
pub proof fn lemma_what_is_read(rel_path: Seq<char>, bytes: Seq<u8>)
    ensures
        get_reply(rel_path, bytes).get_str("rel_path"@) == Some(rel_path),
        get_reply(rel_path, bytes).get_str("content"@) == Some(content_of(bytes).0),
        get_reply(rel_path, bytes).get_str("encoding"@) == Some(content_of(bytes).1),
{
    reveal_strlit("rel_path");
    reveal_strlit("encoding");
    reveal_strlit("content");
    assert("rel_path"@.len() == 8 && "rel_path"@[0] == 'r');
    assert("encoding"@.len() == 8 && "encoding"@[0] == 'e');
    assert("content"@.len() == 7);
    let pairs = seq![
        ("rel_path"@, Json::Str(rel_path)),
        ("encoding"@, Json::Str(content_of(bytes).1)),
        ("content"@, Json::Str(content_of(bytes).0)),
    ];
    lemma_pair_is_member(pairs, 0);
    lemma_pair_is_member(pairs, 1);
    lemma_pair_is_member(pairs, 2);
}

/// A copy goes from the source to the destination, and needs both.
pub proof fn lemma_copies_have_two_ends(r: Result<CopyRequest, String>, params: Json)
    requires
        is_copy_request(r, params),
    ensures
        r is Ok <==> params.get_str("source"@) is Some && params.get_str("dest"@) is Some,
        r matches Ok(c) ==> params.get_str("source"@) == Some(c.source@) && params.get_str("dest"@)
            == Some(c.dest@),
{
}

/// A file that is so far below the source of a directory copy goes as far below its
/// destination, whether or not the directories are written with a slash behind.
pub proof fn lemma_where_copies_go(source: Seq<char>, dest: Seq<char>, rest: Seq<char>)
    requires
        source.len() > 0 ==> source.last() != '/',
        dest.len() > 0 ==> dest.last() != '/',
        rest.len() > 0 ==> rest[0] != '/',
    ensures
        copied_to(source + "/"@ + rest, source, dest) == dest + "/"@ + rest,
        copied_to(source + "/"@ + rest, source + "/"@, dest + "/"@) == dest + "/"@ + rest,
{
    reveal_strlit("/");
    assert("/"@ =~= seq!['/']);
    let entry = source + "/"@ + rest;
    lemma_end_slashes(source);
    lemma_end_slashes(dest);
    assert(source =~= entry.subrange(0, source.len() as int));
    assert(source.is_prefix_of(entry));
    assert(without_prefix(entry, source) =~= "/"@ + rest);
    let left = "/"@ + rest;
    assert(left.skip(1) =~= rest);
    reveal_with_fuel(trimmed_start, 2);
    assert(trimmed_start(left, '/') == rest);
}

proof fn lemma_end_slashes(s: Seq<char>)
    requires
        s.len() > 0 ==> s.last() != '/',
    ensures
        trimmed_end(s, '/') == s,
        trimmed_end(s + "/"@, '/') == s,
{
    reveal_strlit("/");
    reveal_with_fuel(trimmed_end, 2);
    assert((s + "/"@).drop_last() =~= s);
    assert((s + "/"@).last() == '/');
}

/// A directory is deleted with everything below it and with nothing else.
pub proof fn lemma_what_a_directory_takes_along(
    entries: Seq<Seq<char>>,
    dir: Seq<char>,
    x: Seq<char>,
)
    requires
        dir.len() > 0 ==> dir.last() != '/',
    ensures
        below(entries, dir, entries.len()).contains(x) <==> entries.contains(x) && (dir
            + "/"@).is_prefix_of(x),
        below(entries, dir + "/"@, entries.len()).contains(x) <==> entries.contains(x) && (dir
            + "/"@).is_prefix_of(x),
{
    lemma_end_slashes(dir);
    lemma_below(entries, dir, entries.len(), x);
    lemma_below(entries, dir + "/"@, entries.len(), x);
    if entries.contains(x) {
        let i = choose|i: int| 0 <= i < entries.len() && entries[i] == x;
        assert(entries[i] == x);
    }
}

proof fn lemma_below(entries: Seq<Seq<char>>, dir: Seq<char>, n: nat, x: Seq<char>)
    requires
        n <= entries.len(),
    ensures
        below(entries, dir, n).contains(x) <==> is_below(x, dir) && exists|i: int|
            0 <= i < n && #[trigger] entries[i] == x,
    decreases n,
{
    if n > 0 {
        let before = below(entries, dir, (n - 1) as nat);
        let now = below(entries, dir, n);
        lemma_below(entries, dir, (n - 1) as nat, x);
        if before.contains(x) {
            let i = choose|i: int| 0 <= i < before.len() && before[i] == x;
            assert(now[i] == x);
        }
        if is_below(x, dir) && entries[n - 1] == x {
            assert(now[now.len() - 1] == x);
        }
        if now.contains(x) && !before.contains(x) {
            let i = choose|i: int| 0 <= i < now.len() && now[i] == x;
            assert(i >= before.len()) by {
                if i < before.len() {
                    assert(before[i] == x);
                }
            }
            assert(entries[n - 1] == x);
        }
    }
}

// ── Runs ─────────────────────────────────────────────────────────────────────

/// A run is started by the name of its action, below the root where no path is given
/// and with no parameters where none are.
pub proof fn lemma_start_requests(r: Result<StartRequest, String>, params: Json)
    requires
        is_start_request(r, params),
    ensures
        r is Ok <==> params.get_str("name"@) is Some,
        r matches Ok(s) ==> {
            &&& params.get_str("name"@) == Some(s.name@)
            &&& (params.get_str("path"@) matches Some(p) ==> s.path@ == p)
            &&& (params.get_str("path"@) is None ==> s.path@ == "/"@)
            &&& (params.get("params"@) matches Some(v) ==> s.params@ == v)
            &&& (params.get("params"@) is None ==> s.params@ == Json::Object(Seq::empty()))
        },
{
}

/// A run is stopped by its identifier, by force only where that is asked for.
pub proof fn lemma_stop_requests(r: Result<StopRequest, String>, params: Json)
    requires
        is_stop_request(r, params),
    ensures
        r is Ok <==> params.get_str("invocation_id"@) is Some,
        r matches Ok(s) ==> {
            &&& params.get_str("invocation_id"@) == Some(s.invocation_id@)
            &&& (s.force <==> params.get("force"@) == Some(Json::Bool(true)))
            &&& s.grace_secs == params.get_u64("grace_secs"@)
        },
{
}

/// A run is polled by its identifier, and for as long as is asked.
pub proof fn lemma_poll_requests(r: Result<(String, Option<u64>), String>, params: Json)
    requires
        is_poll_request(r, params),
    ensures
        r is Ok <==> params.get_str("invocation_id"@) is Some,
        r matches Ok((id, wait)) ==> params.get_str("invocation_id"@) == Some(id@) && wait
            == params.get_u64("wait_secs"@),
{
}

/// An action is told whether its own run was asked to end, and nobody else is.
pub proof fn lemma_own_cancellation(
    r: Result<Value, String>,
    caller: Option<CallerFrame>,
    runs: Seq<Run>,
)
    requires
        is_cancelled_reply(r, caller, runs),
    ensures
        r is Ok <==> caller is Some,
        r matches Ok(v) ==> (v@.get_bool("cancelled"@) == Some(
            run_of(runs, caller->0.invocation_id) matches Some(x) && x.cancel_requested,
        )),
{
    if let Some(c) = caller {
        lemma_pair_is_member(
            seq![
                (
                    "cancelled"@,
                    Json::Bool(
                        match run_of(runs, c.invocation_id) {
                            Some(x) => x.cancel_requested,
                            None => false,
                        },
                    ),
                ),
            ],
            0,
        );
    }
}

// ── Consoles ─────────────────────────────────────────────────────────────────

/// Only an action prints, to its own console and under its own run, whatever it says
/// of itself in the parameters.
pub proof fn lemma_actions_print_to_their_own_console(
    r: Result<ConsolePrint, String>,
    params: Json,
    caller: Option<CallerFrame>,
)
    requires
        is_print(r, params, caller),
    ensures
        r is Ok <==> caller is Some,
        r matches Ok(p) ==> {
            &&& p.action_ref@ == caller->0.action_ref
            &&& p.invocation_id@ == caller->0.invocation_id
            &&& p.source@ == "guest"@
            &&& (params.get_str("level"@) matches Some(l) ==> p.level@ == l)
            &&& (params.get_str("level"@) is None ==> p.level@ == "info"@)
            &&& (params.get_str("message"@) matches Some(m) ==> (p.message matches Some(x) && x@
                == m))
            &&& (params.get_str("message"@) is None ==> p.message is None)
            &&& (p.data matches Some(d) ==> params.get("data"@) == Some(d@) && !(d@ is Null))
            &&& (p.data is None ==> params.get("data"@) is None || params.get("data"@) == Some(
                Json::Null,
            ))
        },
{
}

/// A console is read from a place, followed from a cursor, and cleared up to a place;
/// a read and a tail are bounded, and only a tail waits.
pub proof fn lemma_console_ranges(
    read: Result<ConsoleRange, String>,
    tail: Result<ConsoleRange, String>,
    clear: Result<(String, Option<i64>), String>,
    params: Json,
)
    requires
        is_read_range(read, params),
        is_tail_range(tail, params),
        is_clear_range(clear, params),
    ensures
        read is Ok <==> params.get_str("action_ref"@) is Some,
        tail is Ok <==> params.get_str("action_ref"@) is Some,
        clear is Ok <==> params.get_str("action_ref"@) is Some,
        read matches Ok(x) ==> {
            &&& params.get_str("action_ref"@) == Some(x.action_ref@)
            &&& x.from == params.get_i64("from_seq"@)
            &&& x.wait_secs is None
            &&& (params.get_i64("limit"@) matches Some(n) ==> x.limit == n)
            &&& (params.get_i64("limit"@) is None ==> x.limit == 200)
        },
        tail matches Ok(x) ==> {
            &&& params.get_str("action_ref"@) == Some(x.action_ref@)
            &&& x.from == params.get_i64("cursor"@)
            &&& x.wait_secs == params.get_u64("wait_secs"@)
            &&& (params.get_i64("limit"@) matches Some(n) ==> x.limit == n)
            &&& (params.get_i64("limit"@) is None ==> x.limit == 200)
        },
        clear matches Ok((a, b)) ==> params.get_str("action_ref"@) == Some(a@) && b
            == params.get_i64("before_seq"@),
{
}

/// What an entry of a console shows.
pub proof fn lemma_what_an_entry_shows(e: ConsoleEntry)
    ensures
        entry_json(e).get("seq"@) == Some(json_int(e.seq)),
        entry_json(e).get_str("ts"@) == Some(e.ts@),
        entry_json(e).get_str("level"@) == Some(e.level@),
        entry_json(e).get_str("invocation_id"@) == Some(e.invocation_id@),
        entry_json(e).get_str("source"@) == Some(e.source@),
        e.run_id matches Some(x) ==> entry_json(e).get_str("run_id"@) == Some(x@),
        e.message matches Some(x) ==> entry_json(e).get_str("message"@) == Some(x@),
        e.data matches Some(x) ==> entry_json(e).get("data"@) == Some(x@),
        e.data is None ==> entry_json(e).get("data"@) == Some(Json::Null),
{
    reveal_strlit("seq");
    reveal_strlit("ts");
    reveal_strlit("level");
    reveal_strlit("invocation_id");
    reveal_strlit("run_id");
    reveal_strlit("source");
    reveal_strlit("message");
    reveal_strlit("data");
    assert("seq"@.len() == 3);
    assert("ts"@.len() == 2);
    assert("level"@.len() == 5);
    assert("invocation_id"@.len() == 13);
    assert("run_id"@.len() == 6 && "run_id"@[0] == 'r');
    assert("source"@.len() == 6 && "source"@[0] == 's');
    assert("message"@.len() == 7);
    assert("data"@.len() == 4);
    let pairs = seq![
        ("seq"@, json_int(e.seq)),
        ("ts"@, Json::Str(e.ts@)),
        ("level"@, Json::Str(e.level@)),
        ("invocation_id"@, Json::Str(e.invocation_id@)),
        ("run_id"@, json_opt_str(crate::text::opt_string(e.run_id))),
        ("source"@, Json::Str(e.source@)),
        ("message"@, json_opt_str(crate::text::opt_string(e.message))),
        ("data"@, crate::internal::console::or_null(crate::value::opt_value(e.data))),
    ];
    lemma_pair_is_member(pairs, 0);
    lemma_pair_is_member(pairs, 1);
    lemma_pair_is_member(pairs, 2);
    lemma_pair_is_member(pairs, 3);
    lemma_pair_is_member(pairs, 4);
    lemma_pair_is_member(pairs, 5);
    lemma_pair_is_member(pairs, 6);
    lemma_pair_is_member(pairs, 7);
}

/// What a read of a console shows: its entries in their order, where to go on, where
/// the console begins and how much of it was dropped.
pub proof fn lemma_what_a_read_shows(r: ReadResult, i: int)
    requires
        0 <= i < r.entries@.len(),
    ensures
        read_json(r).field("entries"@) matches Json::Array(v) && v.len() == r.entries@.len() && v[i]
            == entry_json(r.entries@[i]),
        read_json(r).get("next_cursor"@) == Some(json_int(r.next_cursor)),
        read_json(r).get("dropped"@) == Some(json_int(r.dropped)),
        r.first_seq matches Some(n) ==> read_json(r).get("first_seq"@) == Some(json_int(n)),
        r.first_seq is None ==> read_json(r).get("first_seq"@) == Some(Json::Null),
{
    reveal_strlit("entries");
    reveal_strlit("next_cursor");
    reveal_strlit("first_seq");
    reveal_strlit("dropped");
    assert("entries"@.len() == 7 && "entries"@[0] == 'e');
    assert("next_cursor"@.len() == 11);
    assert("first_seq"@.len() == 9);
    assert("dropped"@.len() == 7 && "dropped"@[0] == 'd');
    let pairs = seq![
        ("entries"@, Json::Array(Seq::new(r.entries@.len(), |i: int| entry_json(r.entries@[i])))),
        ("next_cursor"@, json_int(r.next_cursor)),
        (
            "first_seq"@,
            match r.first_seq {
                Some(n) => json_int(n),
                None => Json::Null,
            },
        ),
        ("dropped"@, json_int(r.dropped)),
    ];
    lemma_pair_is_member(pairs, 0);
    lemma_pair_is_member(pairs, 1);
    lemma_pair_is_member(pairs, 2);
    lemma_pair_is_member(pairs, 3);
}

/// What a listing shows of a console.
pub proof fn lemma_what_a_console_shows(c: ConsoleInfo)
    ensures
        info_json(c).get_str("action_ref"@) == Some(c.action_ref@),
        info_json(c).get_str("created_at"@) == Some(c.created_at@),
        info_json(c).get_str("last_write"@) == Some(c.last_write@),
        info_json(c).get("entry_count"@) == Some(json_int(c.entry_count)),
        info_json(c).get("dropped"@) == Some(json_int(c.dropped)),
        info_json(c).get("next_seq"@) == Some(json_int(c.next_seq)),
{
    reveal_strlit("action_ref");
    reveal_strlit("created_at");
    reveal_strlit("last_write");
    reveal_strlit("entry_count");
    reveal_strlit("dropped");
    reveal_strlit("next_seq");
    assert("action_ref"@.len() == 10 && "action_ref"@[0] == 'a');
    assert("created_at"@.len() == 10 && "created_at"@[0] == 'c');
    assert("last_write"@.len() == 10 && "last_write"@[0] == 'l');
    assert("entry_count"@.len() == 11);
    assert("dropped"@.len() == 7);
    assert("next_seq"@.len() == 8);
    let pairs = seq![
        ("action_ref"@, Json::Str(c.action_ref@)),
        ("created_at"@, Json::Str(c.created_at@)),
        ("last_write"@, Json::Str(c.last_write@)),
        ("entry_count"@, json_int(c.entry_count)),
        ("dropped"@, json_int(c.dropped)),
        ("next_seq"@, json_int(c.next_seq)),
    ];
    lemma_pair_is_member(pairs, 0);
    lemma_pair_is_member(pairs, 1);
    lemma_pair_is_member(pairs, 2);
    lemma_pair_is_member(pairs, 3);
    lemma_pair_is_member(pairs, 4);
    lemma_pair_is_member(pairs, 5);
}

// ── Pages and scripts ────────────────────────────────────────────────────────

/// A page is opened if and only if its URL is not blank and the allowlist lets it
/// through; then the launcher of the system gets that URL as its last argument.
pub proof fn lemma_which_pages_open(
    r: Result<Launch, String>,
    prefixes: Seq<Seq<char>>,
    platform: Platform,
    params: Json,
)
    requires
        is_launch(r, prefixes, platform, params),
    ensures
        r is Ok <==> (params.get_str("url"@) matches Some(u) && !is_blank(u) && outbound(
            prefixes,
            u,
        ) is Ok),
        r matches Ok(l) ==> {
            &&& params.get_str("url"@) == Some(l.url@)
            &&& texts(l.args@).last() == l.url@
            &&& (platform is MacOs ==> l.program@ == "open"@ && l.args@.len() == 1)
            &&& (platform is Windows ==> l.program@ == "cmd"@ && texts(l.args@) == seq![
                "/C"@,
                "start"@,
                ""@,
                l.url@,
            ])
            &&& (platform is Other ==> l.program@ == "xdg-open"@ && l.args@.len() == 1)
        },
{
    if let Ok(l) = r {
        assert(texts(l.args@).len() == l.args@.len());
    }
}

/// A script runs as its caller, and where it has none as nobody, who has no secrets;
/// it sees the parameters that it is given, and may run as long as is asked or five
/// minutes.
pub proof fn lemma_whom_scripts_run_as(
    r: Result<ScriptRun, String>,
    params: Json,
    caller: Option<CallerFrame>,
    name: Seq<char>,
)
    requires
        is_script_run(r, params, caller),
    ensures
        r is Ok <==> params.get_str("script"@) is Some,
        r matches Ok(s) ==> {
            &&& params.get_str("script"@) == Some(s.source@)
            &&& (params.get("params"@) matches Some(v) ==> s.params@ == v)
            &&& (params.get("params"@) is None ==> s.params@ == Json::Object(Seq::empty()))
            &&& (params.get_u64("timeout_secs"@) matches Some(t) ==> s.budget_secs == t)
            &&& (params.get_u64("timeout_secs"@) is None ==> s.budget_secs == 300)
            &&& (caller matches Some(c) ==> s.caller@ == c)
            &&& (caller is None ==> s.caller@.action_ref == "/builtin/script/exec"@
                && s.caller@.secret_key(name) is None)
        },
{
}

// ── Secrets ──────────────────────────────────────────────────────────────────

/// A secret is read for the action that calls, under the key that its own config has
/// for the name, and for nobody else; what is shown is what the store read, and null
/// where there is no such secret.
pub proof fn lemma_secrets_are_read_by_their_action<
    G: Fn(&str) -> Result<Option<String>, String>,
>(r: Result<Value, String>, get: G, params: Json, caller: Option<CallerFrame>, name: Seq<char>)
    requires
        is_secret_read(r, get, params, caller),
        params.get("name"@) == Some(Json::Str(name)),
    ensures
        caller is None ==> r is Err,
        caller matches Some(c) ==> (c.secrets.get_str(name) is None ==> r is Err),
        r matches Ok(v) ==> exists|read: Option<Seq<char>>|
            {
                &&& #[trigger] may_read(get, name, caller->0.secrets.get_str(name)->0, Ok(read))
                &&& (read matches Some(s) ==> v@.get("value"@) == Some(Json::Str(s)))
                &&& (read is None ==> v@.get("value"@) == Some(Json::Null))
            },
{
    if r is Ok {
        let key = key_of(caller, name)->Ok_0;
        let read = choose|read: Result<Option<Seq<char>>, Seq<char>>|
            #[trigger] may_read(get, name, key, read)
                && crate::internal::secrets::reply_view(r) == crate::internal::secrets::read_reply(
                read,
            );
        let got = read->Ok_0;
        assert(may_read(get, name, key, Ok(got)));
        lemma_pair_is_member(seq![("value"@, json_opt_str(got))], 0);
    }
}

/// A secret is written for the action that calls, under the key that its own config
/// has for the name, and for nobody else; a write that the store refuses is an error.
pub proof fn lemma_secrets_are_written_by_their_action<
    S: Fn(&str, &str) -> Result<(), String>,
>(
    r: Result<Value, String>,
    set: S,
    params: Json,
    caller: Option<CallerFrame>,
    name: Seq<char>,
    value: Seq<char>,
)
    requires
        is_secret_write(r, set, params, caller),
        params.get("name"@) == Some(Json::Str(name)),
        params.get("value"@) == Some(Json::Str(value)),
    ensures
        caller is None ==> r is Err,
        caller matches Some(c) ==> (c.secrets.get_str(name) is None ==> r is Err),
        r matches Ok(v) ==> may_write(
            set,
            name,
            value,
            caller->0.secrets.get_str(name)->0,
            Ok(()),
        ) && v@.get_bool("set"@) == Some(true),
{
    lemma_pair_is_member(seq![("set"@, Json::Bool(true))], 0);
    if r is Ok {
        let key = key_of(caller, name)->Ok_0;
        let written = choose|written: Result<(), Seq<char>>|
            #[trigger] may_write(set, name, value, key, written)
                && crate::internal::secrets::reply_view(r)
                == crate::internal::secrets::write_reply(written);
        assert(written is Ok);
        assert(written == Ok::<(), Seq<char>>(()));
    }
}

/// A secret that a config does not name reads as null and cannot be written.
pub proof fn lemma_unnamed_secrets<
    G: Fn(&str) -> Result<Option<String>, String>,
    S: Fn(&str, &str) -> Result<(), String>,
>(
    read: Value,
    get: G,
    write: Result<Value, String>,
    set: S,
    params: Json,
    cfg: Json,
    name: Seq<char>,
)
    requires
        is_own_secret_read(read, get, params, Some(cfg)),
        is_own_secret_write(write, set, params, Some(cfg)),
        params.get("name"@) == Some(Json::Str(name)),
    ensures
        cfg.field("secrets"@).get_str(name) is None ==> read@.get("value"@) == Some(Json::Null)
            && write is Err,
        params.get_str("value"@) is None ==> write is Err,
        cfg.field("secrets"@).get_str(name) matches Some(key) ==> (params.get_str(
            "value"@,
        ) matches Some(v) ==> (write is Ok ==> may_write(set, name, v, key, Ok(())))),
{
    assert(params.str_or("name"@, ""@) == name);
    lemma_pair_is_member(seq![("value"@, json_opt_str(None))], 0);
    if let Some(key) = cfg.field("secrets"@).get_str(name) {
        if let Some(v) = params.get_str("value"@) {
            if write is Ok {
                let written = choose|written: Result<(), Seq<char>>|
                    #[trigger] may_write(set, name, v, key, written)
                        && crate::internal::secrets::reply_view(write)
                        == crate::internal::secrets::write_reply(written);
                assert(written is Ok);
                assert(written == Ok::<(), Seq<char>>(()));
            }
        }
    }
}

// ── Chance ───────────────────────────────────────────────────────────────────

/// A random number is between its bounds, both of them among what can come; bounds
/// that are the wrong way round are refused, and by default it is not negative.
pub proof fn lemma_random_numbers(r: Result<Value, String>, params: Json)
    requires
        is_random_int(r, params),
    ensures
        ({
            let (lo, hi) = bounds_in(params);
            &&& (params.get_i64("lo"@) matches Some(n) ==> lo == n)
            &&& (params.get_i64("lo"@) is None ==> lo == 0)
            &&& (params.get_i64("hi"@) matches Some(n) ==> hi == n)
            &&& (params.get_i64("hi"@) is None ==> hi == i64::MAX)
            &&& (r is Err <==> lo > hi)
            &&& (r matches Ok(v) ==> (v@.get_i64("value"@) matches Some(n) && lo <= n <= hi))
        }),
        params.get_u64("length"@) matches Some(n) ==> length_in(params) == n,
        params.get_u64("length"@) is None ==> length_in(params) == 16,
{
    let (lo, hi) = bounds_in(params);
    if r is Ok {
        let n = choose|n: i64|
            lo <= n <= hi && r->Ok_0@ == #[trigger] number_reply("value"@, n);
        lemma_pair_is_member(seq![("value"@, json_int(n))], 0);
    }
}

// ── Widgets ──────────────────────────────────────────────────────────────────

/// A widget is opened with its bundle, its element and its fields, on behalf of the
/// action that calls.
pub proof fn lemma_widget_requests(
    r: Result<OpenRequest, String>,
    params: Json,
    caller: Option<CallerFrame>,
)
    requires
        is_open_request(r, params, caller),
    ensures
        r is Ok <==> params.get_str("bin_name"@) is Some && params.get_str("tag_name"@) is Some,
        r matches Ok(o) ==> {
            &&& params.get_str("bin_name"@) == Some(o.bin_name@)
            &&& params.get_str("tag_name"@) == Some(o.tag_name@)
            &&& (params.get("fields"@) matches Some(f) ==> o.fields@ == f)
            &&& (params.get("fields"@) is None ==> o.fields@ == Json::Null)
            &&& (caller matches Some(c) ==> o.action_ref@ == c.action_ref && o.invocation_id@
                == c.invocation_id)
            &&& (caller is None ==> o.action_ref@ == Seq::<char>::empty())
        },
{
    if let Ok(o) = r {
        if caller is None {
            assert(o.action_ref@ =~= Seq::<char>::empty());
        }
    }
}

/// A widget is read and written by its identifier and a field, and told of an event
/// with its payload.
pub proof fn lemma_widget_accesses(
    read: Result<(String, String), String>,
    set: Result<WidgetWrite, String>,
    exec: Result<WidgetWrite, String>,
    params: Json,
)
    requires
        is_widget_read(read, params),
        is_widget_set(set, params),
        is_widget_exec(exec, params),
    ensures
        read is Ok <==> params.get_str("widget_id"@) is Some,
        read matches Ok((id, f)) ==> params.get_str("widget_id"@) == Some(id@) && (
        params.get_str("field"@) matches Some(x) ==> f@ == x),
        set is Ok <==> params.get_str("widget_id"@) is Some && params.get_str("field"@) is Some,
        set matches Ok(w) ==> params.get_str("widget_id"@) == Some(w.widget_id@)
            && params.get_str("field"@) == Some(w.name@) && (params.get("value"@) matches Some(v)
            ==> w.value@ == v),
        exec is Ok <==> params.get_str("widget_id"@) is Some && params.get_str("event"@) is Some,
        exec matches Ok(w) ==> params.get_str("widget_id"@) == Some(w.widget_id@)
            && params.get_str("event"@) == Some(w.name@) && (params.get("payload"@) matches Some(v)
            ==> w.value@ == v),
{
}

/// Each file of a directory copy goes where it goes by itself, in the order of the
/// files.
pub proof fn lemma_copies_in_order(
    entries: Seq<Seq<char>>,
    source: Seq<char>,
    dest: Seq<char>,
    i: int,
    rest: Seq<char>,
)
    requires
        0 <= i < entries.len(),
        source.len() > 0 ==> source.last() != '/',
        dest.len() > 0 ==> dest.last() != '/',
        rest.len() > 0 ==> rest[0] != '/',
        entries[i] == source + "/"@ + rest,
    ensures
        copies(entries, source, dest).len() == entries.len(),
        copies(entries, source, dest)[i] == dest + "/"@ + rest,
{
    lemma_where_copies_go(source, dest, rest);
}

/// What small answers show.
pub proof fn lemma_small_answers(
    vars: Map<Seq<char>, String>,
    key: Seq<char>,
    t: Seq<char>,
    c: char,
)
    ensures
        text_reply(key, t).get_str(key) == Some(t),
        vars.contains_key(key) ==> value_reply(vars, key).get_str("value"@) == Some(vars[key]@),
        !vars.contains_key(key) ==> value_reply(vars, key).get("value"@) == Some(Json::Null),
        is_alphanumeric(c) <==> ('0' <= c <= '9' || 'A' <= c <= 'Z' || 'a' <= c <= 'z'),
{
    lemma_pair_is_member(seq![(key, Json::Str(t))], 0);
    lemma_pair_is_member(
        seq![
            (
                "value"@,
                if vars.contains_key(key) {
                    Json::Str(vars[key]@)
                } else {
                    Json::Null
                },
            ),
        ],
        0,
    );
}

} // verus!
