//! Executing actions: what is found, what it takes to run, and what a poll sees.

use vstd::prelude::*;
use vstd::string::*;
use vstd::utf8::{decode_utf8, valid_utf8};

use crate::caller::CallerFrame;
use crate::entities::{Action, ActionRecord, ActionType};
use crate::error::{Failure, SolxError};
use crate::internal::params::normalized;
use crate::invocations::{run_json, run_of, Run};
use crate::manager::{is_artifact, is_exec_plan, is_exec_start, is_list_sql, is_paths_sql, is_poll};
use crate::manager::{is_script_source, is_search_sql, ExecPlan, ExecStart, ExecTarget, PollStep};
use crate::manager::SearchSql;
use crate::mask::masked_config;
use crate::store::{action_at, is_delete, is_get, is_get_unmasked, lemma_deleted_is_gone};
use crate::store::places_distinct;
use crate::text::{decimal, opt_string, trimmed};
use crate::value::{opt_value, Json};

verus! {

// ── Finding actions ──────────────────────────────────────────────────────────

/// An action is found at its path and under its name, whatever white space is
/// written around the name. What is shown of it differs from what is stored in the
/// config alone, which is masked; and a place that no action has is answered with
/// its reference.
pub proof fn lemma_an_action_is_found(
    shown: Result<Action, SolxError>,
    stored: Result<Action, SolxError>,
    rows: Seq<ActionRecord>,
    path: Seq<char>,
    name: Seq<char>,
    action_ref: Seq<char>,
)
    requires
        is_get(shown, rows, path, name, action_ref),
        is_get_unmasked(stored, rows, path, name, action_ref),
    ensures
        shown is Ok <==> stored is Ok,
        shown is Ok <==> exists|i: int|
            0 <= i < rows.len() && (#[trigger] rows[i]).path == path && rows[i].name == trimmed(
                name,
            ),
        stored matches Ok(a) ==> rows.contains(a@) && a@.path == path && a@.name == trimmed(name),
        shown matches Ok(s) ==> {
            let a = stored->Ok_0@;
            &&& s@ == (ActionRecord { action_config: s@.action_config, ..a })
            &&& (a.action_config is None ==> s@.action_config is None)
            &&& (a.action_config matches Some(c) ==> s@.action_config == Some(masked_config(c)))
        },
        shown matches Err(e) ==> e@ == Failure::NotFound("action "@ + action_ref),
{
    lemma_place_from(rows, path, trimmed(name), 0);
}

proof fn lemma_place_from(rows: Seq<ActionRecord>, path: Seq<char>, name: Seq<char>, i: int)
    requires
        0 <= i <= rows.len(),
    ensures
        ({
            let p = crate::store::place_from(rows, path, name, i);
            &&& i <= p <= rows.len()
            &&& (p < rows.len() ==> rows[p].path == path && rows[p].name == name)
            &&& (p == rows.len() ==> forall|j: int|
                i <= j < rows.len() ==> (#[trigger] rows[j]).path != path || rows[j].name != name)
        }),
    decreases rows.len() - i,
{
    if i < rows.len() && !(rows[i].path == path && rows[i].name == name) {
        lemma_place_from(rows, path, name, i + 1);
    }
}

/// A deleted action is not found again, and every other one still is; to delete what
/// is not there is an error and changes nothing.
pub proof fn lemma_a_deletion(
    r: Result<(), SolxError>,
    before: Seq<ActionRecord>,
    after: Seq<ActionRecord>,
    path: Seq<char>,
    name: Seq<char>,
    action_ref: Seq<char>,
    other_path: Seq<char>,
    other_name: Seq<char>,
)
    requires
        places_distinct(before),
        is_delete(r, before, after, path, name, action_ref),
    ensures
        r is Ok <==> action_at(before, path, trimmed(name)) is Some,
        r is Err ==> after == before && r->Err_0@ == Failure::NotFound("action "@ + action_ref),
        action_at(after, path, trimmed(name)) is None,
        (other_path != path || other_name != trimmed(name)) ==> action_at(
            after,
            other_path,
            other_name,
        ) == action_at(before, other_path, other_name),
{
    lemma_deleted_is_gone(before, path, trimmed(name), path, trimmed(name));
    lemma_deleted_is_gone(before, path, trimmed(name), other_path, other_name);
}

// ── Plans ────────────────────────────────────────────────────────────────────

/// An action can run if and only if it has a type and the field that its type runs:
/// the function name of a command, a webhook or an internal action, the artifact of
/// a component or a script.
pub proof fn lemma_what_an_action_needs(
    r: Result<ExecPlan, SolxError>,
    a: ActionRecord,
    action_ref: Seq<char>,
    caller: Option<CallerFrame>,
    invocation_id: Option<Seq<char>>,
    minted: Seq<char>,
    background: u64,
)
    requires
        is_exec_plan(r, a, action_ref, caller, invocation_id, minted, background),
    ensures
        a.action_type is None ==> r is Err,
        (a.action_type == Some(ActionType::Command) || a.action_type == Some(ActionType::Webhook)
            || a.action_type == Some(ActionType::Internal)) ==> (r is Ok <==> a.fn_name is Some),
        (a.action_type == Some(ActionType::Wasm) || a.action_type == Some(ActionType::Script)) ==> (
        r is Ok <==> a.bin_name is Some),
        r matches Err(e) ==> e@ is Exec,
{
}

/// What a plan runs: a command by its key, a webhook by its URL, an operation on
/// behalf of the caller, a component or a script by its artifact and in a frame of
/// the action's own, with the action's own secrets.
pub proof fn lemma_what_a_plan_runs(
    r: Result<ExecPlan, SolxError>,
    a: ActionRecord,
    action_ref: Seq<char>,
    caller: Option<CallerFrame>,
    invocation_id: Option<Seq<char>>,
    minted: Seq<char>,
    background: u64,
)
    requires
        is_exec_plan(r, a, action_ref, caller, invocation_id, minted, background),
        r is Ok,
    ensures
        ({
            let p = r->Ok_0;
            &&& (a.action_type == Some(ActionType::Command) <==> p.target is Command)
            &&& (a.action_type == Some(ActionType::Webhook) <==> p.target is Webhook)
            &&& (a.action_type == Some(ActionType::Internal) <==> p.target is Internal)
            &&& (a.action_type == Some(ActionType::Wasm) <==> p.target is Wasm)
            &&& (a.action_type == Some(ActionType::Script) <==> p.target is Script)
            &&& (p.target matches ExecTarget::Command { fn_name } ==> a.fn_name == Some(fn_name@))
            &&& (p.target matches ExecTarget::Webhook { url } ==> a.fn_name == Some(url@))
            &&& (p.target matches ExecTarget::Internal { operation, caller: c } ==> a.fn_name
                == Some(operation@) && (caller is None <==> c is None) && (c matches Some(x)
                ==> caller == Some(x@)))
            &&& (p.target matches ExecTarget::Wasm { bin_name, entry, frame } ==> {
                &&& a.bin_name == Some(bin_name@)
                &&& (entry matches Some(e) ==> a.fn_name == Some(e@))
                &&& (entry is None ==> a.fn_name is None)
                &&& is_own_frame(frame@, a, action_ref, p.invocation_id@)
            })
            &&& (p.target matches ExecTarget::Script { bin_name, frame, budget_secs } ==> {
                &&& a.bin_name == Some(bin_name@)
                &&& is_own_frame(frame@, a, action_ref, p.invocation_id@)
                &&& (p.timeout_secs matches Some(t) ==> budget_secs == t)
                &&& (p.timeout_secs is None ==> budget_secs == 300)
            })
        }),
{
}

/// Whether a frame is that of an action's own run: it names the action and the run,
/// and its secrets are those that the action's config names.
pub open spec fn is_own_frame(
    f: CallerFrame,
    a: ActionRecord,
    action_ref: Seq<char>,
    id: Seq<char>,
) -> bool {
    &&& f.action_ref == action_ref
    &&& f.invocation_id == id
    &&& forall|name: Seq<char>| #[trigger]
        f.secret_key(name) == (match a.action_config {
            Some(c) => c.field("secrets"@).get_str(name),
            None => None,
        })
}

/// The identifier and the time limit of a run: a run that was started in the
/// background keeps the identifier that it was started under, and any other has a
/// fresh one; the limit that the action's config names holds either way, and only a
/// run in the background has one where the config names none.
pub proof fn lemma_limits_of_a_plan(
    r: Result<ExecPlan, SolxError>,
    a: ActionRecord,
    action_ref: Seq<char>,
    caller: Option<CallerFrame>,
    invocation_id: Option<Seq<char>>,
    minted: Seq<char>,
    background: u64,
)
    requires
        is_exec_plan(r, a, action_ref, caller, invocation_id, minted, background),
        r is Ok,
    ensures
        invocation_id matches Some(id) ==> r->Ok_0.invocation_id@ == id,
        invocation_id is None ==> r->Ok_0.invocation_id@ == minted,
        a.action_config matches Some(c) ==> (c.get_u64("timeout_secs"@) matches Some(t)
            ==> r->Ok_0.timeout_secs == Some(t)),
        (a.action_config is None || a.action_config->0.get_u64("timeout_secs"@) is None) ==> (
        r->Ok_0.timeout_secs == if invocation_id is Some {
            Some(background)
        } else {
            None::<u64>
        }),
{
}

/// What executing an action starts from: its stored config, secrets and all, the type
/// that its parameters are held to, and the parameters as they were given, but for
/// an internal action, which reads them under either spelling.
pub proof fn lemma_what_an_execution_starts_from(
    r: Result<ExecStart, SolxError>,
    rows: Seq<ActionRecord>,
    path: Seq<char>,
    name: Seq<char>,
    action_ref: Seq<char>,
    params: Json,
    caller: Option<CallerFrame>,
    invocation_id: Option<Seq<char>>,
    background: u64,
)
    requires
        is_exec_start(
            r,
            rows,
            path,
            name,
            action_ref,
            params,
            caller,
            invocation_id,
            background,
        ),
    ensures
        r is Ok <==> action_at(rows, path, trimmed(name)) is Some,
        r matches Err(e) ==> e@ == Failure::NotFound("action "@ + action_ref),
        r matches Ok(s) ==> {
            let a = action_at(rows, path, trimmed(name))->0;
            &&& (a.action_type != Some(ActionType::Internal) ==> s.params@ == params)
            &&& (a.action_type == Some(ActionType::Internal) ==> s.params@ == normalized(params))
            &&& opt_value(s.action_config) == a.action_config
            &&& opt_string(s.param_type_ref) == a.param_type_ref
            &&& (s.plan matches Ok(p) ==> invocation_id is Some ==> p.invocation_id@
                == invocation_id->0)
        },
{
}

/// An artifact in the shared place is taken before the action's own, byte for byte;
/// it is missing only where it is in neither.
pub proof fn lemma_the_shared_artifact_first(
    r: Result<Vec<u8>, SolxError>,
    kind: Seq<char>,
    bin_name: Seq<char>,
    shared_path: Seq<char>,
    owned_path: Seq<char>,
    shared: Option<Vec<u8>>,
    owned: Option<Vec<u8>>,
)
    requires
        is_artifact(r, kind, bin_name, shared_path, owned_path, shared, owned),
    ensures
        r is Err <==> shared is None && owned is None,
        shared matches Some(b) ==> r matches Ok(x) && x@ == b@,
        shared is None ==> (owned matches Some(b) ==> r matches Ok(x) && x@ == b@),
{
}

// ── Polls ────────────────────────────────────────────────────────────────────

/// A poll of a run that has ended shows it at once, and so does one that does not
/// wait or has waited long enough. Any other waits on, and never past its limit of
/// at most a minute.
pub proof fn lemma_a_poll(
    r: Result<PollStep, SolxError>,
    rows: Seq<Run>,
    id: Seq<char>,
    wait_secs: Option<u64>,
    waited_ms: u64,
)
    requires
        is_poll(r, rows, id, wait_secs, waited_ms),
    ensures
        r is Ok <==> run_of(rows, id) is Some,
        run_of(rows, id) matches Some(x) ==> {
            &&& (x.status != "running"@ && x.status != "cancelling"@ ==> r matches Ok(
                PollStep::Reply(_),
            ))
            &&& (wait_secs is None ==> r matches Ok(PollStep::Reply(_)))
            &&& (waited_ms >= 60_000 ==> r matches Ok(PollStep::Reply(_)))
            &&& (wait_secs matches Some(s) ==> (waited_ms >= s * 1000 ==> r matches Ok(
                PollStep::Reply(_),
            )))
            &&& (r matches Ok(PollStep::Reply(v)) ==> v@ == run_json(x))
            &&& (r matches Ok(PollStep::Wait(ms)) ==> (x.status == "running"@ || x.status
                == "cancelling"@) && 0 < ms <= 250 && waited_ms + ms <= 60_000 && waited_ms + ms
                <= wait_secs->0 * 1000)
        },
{
}

// ── Queries ──────────────────────────────────────────────────────────────────

/// The count and the page of a search are over the same rows. The page is cut to
/// its window behind everything else, and the index is asked if and only if there
/// is a term.
pub proof fn lemma_count_and_page_agree(
    r: SearchSql,
    term: Option<Seq<char>>,
    where_clause: Seq<char>,
    order_clause: Seq<char>,
    binds: nat,
    limit: nat,
    offset: nat,
)
    requires
        is_search_sql(r, term, where_clause, order_clause, binds, limit, offset),
    ensures
        r.match_bind is Some <==> term is Some,
        exists|join: Seq<char>, columns: Seq<char>, order: Seq<char>|
            {
                &&& r.count_sql@ == #[trigger] ("SELECT COUNT(*) FROM actions a"@ + join)
                    + where_clause
                &&& r.page_sql@ == #[trigger] (columns + " FROM actions a"@) + join + where_clause
                    + #[trigger] (order + " LIMIT "@) + decimal(limit) + " OFFSET "@ + decimal(
                    offset,
                )
                &&& (term is None ==> join == Seq::<char>::empty() && order == order_clause)
                &&& (term is Some ==> order == " ORDER BY f.rank"@)
            },
{
    let join = crate::manager::search_join(term, binds);
    let order = crate::manager::search_order(term, order_clause);
    let all = crate::manager::search_select();
    reveal_strlit(
        "SELECT a.id,a.path,a.name,a.caption,a.description,a.capabilities,a.phrases,a.category,a.param_type_ref,a.result_type_ref,a.action_type,a.fn_name,a.bin_name,a.action_config,a.files,a.trusted,a.created_at,a.updated_at FROM actions a",
    );
    reveal_strlit(" FROM actions a");
    assert(all.len() == 230);
    assert(" FROM actions a"@.len() == 15);
    assert(all[215] == ' ' && " FROM actions a"@[0] == ' ');
    assert(all[216] == 'F' && " FROM actions a"@[1] == 'F');
    assert(all[217] == 'R' && " FROM actions a"@[2] == 'R');
    assert(all[218] == 'O' && " FROM actions a"@[3] == 'O');
    assert(all[219] == 'M' && " FROM actions a"@[4] == 'M');
    assert(all[220] == ' ' && " FROM actions a"@[5] == ' ');
    assert(all[221] == 'a' && " FROM actions a"@[6] == 'a');
    assert(all[222] == 'c' && " FROM actions a"@[7] == 'c');
    assert(all[223] == 't' && " FROM actions a"@[8] == 't');
    assert(all[224] == 'i' && " FROM actions a"@[9] == 'i');
    assert(all[225] == 'o' && " FROM actions a"@[10] == 'o');
    assert(all[226] == 'n' && " FROM actions a"@[11] == 'n');
    assert(all[227] == 's' && " FROM actions a"@[12] == 's');
    assert(all[228] == ' ' && " FROM actions a"@[13] == ' ');
    assert(all[229] == 'a' && " FROM actions a"@[14] == 'a');
    let columns = all.take(all.len() - 15);
    assert(columns + " FROM actions a"@ =~= all);
    assert(r.count_sql@ == ("SELECT COUNT(*) FROM actions a"@ + join) + where_clause);
    assert(r.page_sql@ =~= (columns + " FROM actions a"@) + join + where_clause + (order
        + " LIMIT "@) + decimal(limit) + " OFFSET "@ + decimal(offset));
}

/// The SQL of a listing: the count and the page are over the rows that the filter
/// lets through, and the page is in the given order and cut to its window. A
/// listing of paths is in the order of the paths, either way round.
pub proof fn lemma_listings(
    actions: (String, String),
    paths: (String, String),
    where_clause: Seq<char>,
    order_clause: Seq<char>,
    descending: bool,
    limit: nat,
    offset: nat,
)
    requires
        is_list_sql(actions, where_clause, order_clause, limit, offset),
        is_paths_sql(paths, where_clause, descending, limit, offset),
    ensures
        actions.0@ == "SELECT COUNT(*) FROM actions"@ + where_clause,
        (where_clause + order_clause + " LIMIT "@ + decimal(limit) + " OFFSET "@ + decimal(
            offset,
        )).is_suffix_of(actions.1@),
        paths.0@ == "SELECT COUNT(DISTINCT path) FROM actions"@ + where_clause,
        descending ==> paths.1@ == "SELECT path, COUNT(*) FROM actions"@ + where_clause
            + " GROUP BY path ORDER BY path "@ + "DESC"@ + (" LIMIT "@ + decimal(limit)
            + " OFFSET "@ + decimal(offset)),
        !descending ==> paths.1@ == "SELECT path, COUNT(*) FROM actions"@ + where_clause
            + " GROUP BY path ORDER BY path "@ + "ASC"@ + (" LIMIT "@ + decimal(limit)
            + " OFFSET "@ + decimal(offset)),
{
    let tail = where_clause + order_clause + " LIMIT "@ + decimal(limit) + " OFFSET "@ + decimal(
        offset,
    );
    assert(actions.1@.subrange(actions.1@.len() - tail.len(), actions.1@.len() as int) =~= tail);
}

/// A script is the text of its artifact, and an artifact that is no text is refused.
pub proof fn lemma_scripts_are_text(
    r: Result<String, SolxError>,
    bin_name: Seq<char>,
    bytes: Seq<u8>,
)
    requires
        is_script_source(r, bin_name, bytes),
    ensures
        r is Ok <==> valid_utf8(bytes),
        r matches Ok(s) ==> s@ == decode_utf8(bytes),
        r matches Err(e) ==> e@ is Exec,
{
}

/// How an action is shown in messages.
pub proof fn lemma_how_actions_are_shown(f: CallerFrame, name: Seq<char>)
    ensures
        f.display() == "action:/"@ + f.action_ref,
        f.secret_key(name) == f.secrets.get_str(name),
{
}

} // verus!
