//! Runs in the background: started, polled, stopped and swept.

use vstd::prelude::*;
use vstd::string::*;

use crate::chance::{in_calendar, rfc3339_text};
use crate::config::Config;
use crate::entities::ExecRecord;
use crate::error::{Failure, SolxError};
use crate::invocations::{after_cancel, after_orphans, cancelled_run, expired, finished_run};
use crate::invocations::{lemma_run_of_with_run, lemma_sweep_keeps_the_rest, list_limit, listed};
use crate::invocations::{newest_first, run_from, run_json, run_of, run_pairs, started, terminal};
use crate::invocations::{unfinished, Run};
use crate::json::{json_int, json_opt_str};
use crate::laws::lemma_pair_is_member;
use crate::manager::{cutoff_secs, is_abort, is_finish, is_open, is_start, is_stop, next_wait};
use crate::manager::{outcome_of, swept, wait_over, LocalActionManager, StopStep};
use crate::value::{Json, Value};

verus! {

proof fn lemma_found_run_has_the_id(rows: Seq<Run>, id: Seq<char>, i: int)
    requires
        0 <= i <= rows.len(),
    ensures
        i <= run_from(rows, id, i) <= rows.len(),
        run_from(rows, id, i) < rows.len() ==> rows[run_from(rows, id, i)].invocation_id == id,
        run_from(rows, id, i) == rows.len() ==> forall|j: int|
            i <= j < rows.len() ==> (#[trigger] rows[j]).invocation_id != id,
    decreases rows.len() - i,
{
    if i < rows.len() {
        lemma_found_run_has_the_id(rows, id, i + 1);
    }
}

proof fn lemma_pushed_run(rows: Seq<Run>, x: Run, id: Seq<char>, i: int)
    requires
        0 <= i <= rows.len(),
    ensures
        run_from(rows, id, i) < rows.len() ==> run_from(rows.push(x), id, i) == run_from(rows, id, i),
        run_from(rows, id, i) == rows.len() ==> run_from(rows.push(x), id, i) == (if x.invocation_id
            == id {
            rows.len() as int
        } else {
            rows.len() as int + 1
        }),
    decreases rows.len() - i,
{
    reveal_with_fuel(run_from, 2);
    if i < rows.len() {
        assert(rows.push(x)[i] == rows[i]);
        lemma_pushed_run(rows, x, id, i + 1);
    }
}

/// A run that an earlier action is known under is found under its identifier, and
/// one that is on record is never overlooked.
pub proof fn lemma_runs_are_found_by_id(rows: Seq<Run>, id: Seq<char>)
    ensures
        run_of(rows, id) matches Some(x) ==> x.invocation_id == id && rows.contains(x),
        run_of(rows, id) is None ==> forall|j: int|
            0 <= j < rows.len() ==> (#[trigger] rows[j]).invocation_id != id,
{
    lemma_found_run_has_the_id(rows, id, 0);
    if run_of(rows, id) is Some {
        assert(rows[run_from(rows, id, 0)] == run_of(rows, id)->0);
    }
}

/// A run that was started is on record, running, with nothing to show yet. What was
/// on record is as it was. A process that is no long-lived host starts none.
pub proof fn lemma_started_run_is_running(
    r: Result<Value, SolxError>,
    before: LocalActionManager,
    after: LocalActionManager,
    path: Seq<char>,
    name: Seq<char>,
    action_ref: Seq<char>,
    id: Seq<char>,
    seq_start: i64,
    now: Seq<char>,
    other: Seq<char>,
)
    requires
        is_start(r, before, after, path, name, action_ref, id, seq_start, now),
    ensures
        !before.host.long_lived ==> r is Err,
        r is Err ==> after.runs() == before.runs(),
        r is Ok ==> {
            let x = run_of(after.runs(), id);
            &&& run_of(before.runs(), id) is None
            &&& x is Some
            &&& x->0.invocation_id == id
            &&& x->0.action_ref == action_ref
            &&& x->0.status == "running"@
            &&& !x->0.cancel_requested
            &&& x->0.result is None
            &&& x->0.error is None
            &&& x->0.finished_at is None
            &&& x->0.created_at == now
            &&& x->0.console_seq_start == seq_start
            &&& after.tasks().contains(id)
            &&& (other != id ==> run_of(after.runs(), other) == run_of(before.runs(), other))
            &&& r->Ok_0@.get_str("invocation_id"@) == Some(id)
            &&& r->Ok_0@.get_str("action_ref"@) == Some(action_ref)
        },
{
    if r is Ok {
        let x = started(id, action_ref, seq_start, now);
        lemma_found_run_has_the_id(before.runs(), id, 0);
        lemma_found_run_has_the_id(before.runs(), other, 0);
        lemma_pushed_run(before.runs(), x, id, 0);
        lemma_pushed_run(before.runs(), x, other, 0);
        let pairs = seq![
            ("invocation_id"@, Json::Str(id)),
            ("action_ref"@, Json::Str(action_ref)),
            ("console_seq_start"@, json_int(seq_start)),
        ];
        reveal_strlit("invocation_id");
        reveal_strlit("action_ref");
        reveal_strlit("console_seq_start");
        assert("invocation_id"@.len() == 13);
        assert("action_ref"@.len() == 10);
        assert("console_seq_start"@.len() == 17);
        lemma_pair_is_member(pairs, 0);
        lemma_pair_is_member(pairs, 1);
    }
}

/// A run in the background ends as `ok` if and only if its outcome is a result that
/// reports success; every other outcome is recorded as `failed`. Its result and
/// what went wrong are on record, and so is when it ended.
pub proof fn lemma_only_success_is_ok(
    before: LocalActionManager,
    after: LocalActionManager,
    id: Seq<char>,
    outcome: Result<ExecRecord, Failure>,
    now: Seq<char>,
    other: Seq<char>,
)
    requires
        is_finish(before, after, id, outcome, now),
        run_of(before.runs(), id) matches Some(x) && (x.status == "running"@ || x.status
            == "cancelling"@),
    ensures
        ({
            let y = run_of(after.runs(), id);
            let succeeded = outcome matches Ok(r) && r.success;
            &&& y is Some
            &&& (y->0.status == "ok"@ <==> succeeded)
            &&& (y->0.status == "failed"@ <==> !succeeded)
            &&& (outcome matches Ok(r) ==> y->0.result == Some(r.result))
            &&& (outcome is Err ==> y->0.result is None)
            &&& (succeeded ==> y->0.error is None)
            &&& (outcome matches Ok(r) ==> !r.success && r.message is Some && r.message->0.len() > 0
                ==> y->0.error == r.message)
            &&& (outcome matches Err(e) ==> e.message().len() > 0 ==> y->0.error == Some(
                e.message(),
            ))
            &&& y->0.finished_at == Some(now)
            &&& y->0.updated_at == now
            &&& y->0.created_at == run_of(before.runs(), id)->0.created_at
            &&& y->0.action_ref == run_of(before.runs(), id)->0.action_ref
        }),
        other != id ==> run_of(after.runs(), other) == run_of(before.runs(), other),
        !after.tasks().contains(id),
{
    let x = run_of(before.runs(), id)->0;
    lemma_runs_are_found_by_id(before.runs(), id);
    let (status, result, error) = outcome_of(outcome);
    reveal_strlit("ok");
    reveal_strlit("failed");
    reveal_strlit("running");
    reveal_strlit("cancelling");
    assert("ok"@.len() == 2);
    assert("failed"@.len() == 6);
    assert("running"@.len() == 7);
    assert("cancelling"@.len() == 10);
    let y = finished_run(x, status, result, error, now);
    lemma_run_of_with_run(before.runs(), id, y, id);
    lemma_run_of_with_run(before.runs(), id, y, other);
}

/// What polling a run shows: its status, its result and what went wrong, and when.
pub proof fn lemma_a_poll_shows_the_run(r: Run)
    ensures
        run_json(r).get_str("invocation_id"@) == Some(r.invocation_id),
        run_json(r).get_str("action_ref"@) == Some(r.action_ref),
        run_json(r).get_str("status"@) == Some(r.status),
        run_json(r).get("result"@) == Some(
            match r.result {
                Some(v) => v,
                None => Json::Null,
            },
        ),
        run_json(r).get("error"@) == Some(json_opt_str(r.error)),
        run_json(r).get_str("created_at"@) == Some(r.created_at),
        run_json(r).get_str("updated_at"@) == Some(r.updated_at),
        run_json(r).get("finished_at"@) == Some(json_opt_str(r.finished_at)),
        run_json(r).get("console_seq_start"@) == Some(json_int(r.console_seq_start)),
{
    reveal_strlit("invocation_id");
    reveal_strlit("action_ref");
    reveal_strlit("status");
    reveal_strlit("result");
    reveal_strlit("error");
    reveal_strlit("created_at");
    reveal_strlit("updated_at");
    reveal_strlit("finished_at");
    reveal_strlit("console_seq_start");
    assert("invocation_id"@.len() == 13);
    assert("action_ref"@.len() == 10 && "action_ref"@[0] == 'a');
    assert("status"@.len() == 6 && "status"@[0] == 's');
    assert("result"@.len() == 6 && "result"@[0] == 'r');
    assert("error"@.len() == 5);
    assert("created_at"@.len() == 10 && "created_at"@[0] == 'c');
    assert("updated_at"@.len() == 10 && "updated_at"@[0] == 'u');
    assert("finished_at"@.len() == 11);
    assert("console_seq_start"@.len() == 17);
    let pairs = run_pairs(r);
    lemma_pair_is_member(pairs, 0);
    lemma_pair_is_member(pairs, 1);
    lemma_pair_is_member(pairs, 2);
    lemma_pair_is_member(pairs, 3);
    lemma_pair_is_member(pairs, 4);
    lemma_pair_is_member(pairs, 5);
    lemma_pair_is_member(pairs, 6);
    lemma_pair_is_member(pairs, 7);
    lemma_pair_is_member(pairs, 8);
}

/// A stop asks a run to end and leaves it the grace period, the call's own or else
/// the configured one; by force it ends the run as cancelled. A run that has ended
/// stays as it ended, and one that is unknown is an error.
pub proof fn lemma_a_stop_asks_or_cancels(
    r: Result<StopStep, SolxError>,
    before: LocalActionManager,
    after: LocalActionManager,
    id: Seq<char>,
    force: bool,
    grace_secs: Option<u64>,
    now: Seq<char>,
    other: Seq<char>,
)
    requires
        is_stop(r, before, after, id, force, grace_secs, now),
    ensures
        run_of(before.runs(), id) is None ==> r is Err && after.runs() == before.runs(),
        run_of(before.runs(), id) matches Some(x) ==> {
            let y = run_of(after.runs(), id);
            let running = x.status == "running"@ || x.status == "cancelling"@;
            &&& y is Some
            &&& y->0.cancel_requested
            &&& (!running ==> (r matches Ok(StopStep::Done(_))) && y->0.status == x.status && y->0.result
                == x.result && y->0.error == x.error)
            &&& (running && force ==> y->0.status == "cancelled"@ && y->0.error is Some
                && y->0.finished_at == Some(now) && !after.tasks().contains(id) && (r matches Ok(
                StopStep::Aborted { abort_task, reply },
            ) && abort_task == before.tasks().contains(id)))
            &&& (running && !force ==> y->0.status == "cancelling"@ && y->0.finished_at
                == x.finished_at && after.tasks() == before.tasks() && (r matches Ok(
                StopStep::AbortLater { grace_secs: g, reply },
            ) && (grace_secs matches Some(s) ==> g == s) && (grace_secs is None ==> g
                == before.config.stop_grace_secs)))
        },
        other != id ==> run_of(after.runs(), other) == run_of(before.runs(), other),
{
    lemma_runs_are_found_by_id(before.runs(), id);
    if let Some(x) = run_of(before.runs(), id) {
        reveal_strlit("cancelled");
        reveal_strlit("running");
        reveal_strlit("cancelling");
        assert("cancelled"@.len() == 9);
        assert("running"@.len() == 7);
        assert("cancelling"@.len() == 10);
        reveal_strlit("stopped (grace period expired)");
        let c = cancelled_run(x, now);
        let asked = after_cancel(before.runs(), id, now);
        lemma_run_of_with_run(before.runs(), id, c, id);
        lemma_run_of_with_run(before.runs(), id, c, other);
        assert(run_of(asked, id) == Some(c));
        let error = Some(crate::invocations::aborted_error());
        let d = finished_run(c, "cancelled"@, None, error, now);
        lemma_run_of_with_run(asked, id, d, id);
        lemma_run_of_with_run(asked, id, d, other);
    }
}

/// A run that is aborted is recorded as cancelled, unless it has ended already.
pub proof fn lemma_an_abort_cancels(
    r: bool,
    before: LocalActionManager,
    after: LocalActionManager,
    id: Seq<char>,
    now: Seq<char>,
)
    requires
        is_abort(r, before, after, id, now),
        run_of(before.runs(), id) is Some,
    ensures
        r == before.tasks().contains(id),
        !after.tasks().contains(id),
        ({
            let x = run_of(before.runs(), id)->0;
            let y = run_of(after.runs(), id);
            if x.status == "running"@ || x.status == "cancelling"@ {
                y is Some && y->0.status == "cancelled"@ && y->0.result is None && y->0.error is Some
            } else {
                y == Some(x)
            }
        }),
{
    lemma_runs_are_found_by_id(before.runs(), id);
    reveal_strlit("cancelled");
    reveal_strlit("running");
    reveal_strlit("cancelling");
    assert("cancelled"@.len() == 9);
    assert("running"@.len() == 7);
    assert("cancelling"@.len() == 10);
    reveal_strlit("stopped (grace period expired)");
    let x = run_of(before.runs(), id)->0;
    let error = Some(crate::invocations::aborted_error());
    let d = finished_run(x, "cancelled"@, None, error, now);
    lemma_run_of_with_run(before.runs(), id, d, id);
}

/// A process that starts finds no run still going: those that were are interrupted,
/// with the reason. Of those that had ended, exactly the ones that were last touched
/// before the retention are gone.
pub proof fn lemma_opening_interrupts_and_sweeps(
    rows: Seq<Run>,
    now: Seq<char>,
    cutoff: Seq<char>,
    i: int,
)
    requires
        0 <= i < rows.len(),
    ensures
        ({
            let x = rows[i];
            let running = x.status == "running"@ || x.status == "cancelling"@;
            &&& (!running && !crate::json::precedes(x.updated_at, cutoff) ==> swept(
                rows,
                now,
                cutoff,
            ).contains(x))
            &&& (!running && crate::json::precedes(x.updated_at, cutoff) ==> !swept(
                rows,
                now,
                cutoff,
            ).contains(x))
            &&& (running && !crate::json::precedes(now, cutoff) ==> exists|y: Run|
                #[trigger] swept(rows, now, cutoff).contains(y) && y.invocation_id == x.invocation_id
                    && y.status == "interrupted"@ && y.error is Some && y.finished_at == Some(now))
        }),
{
    reveal_strlit("running");
    reveal_strlit("cancelling");
    reveal_strlit("interrupted");
    assert("running"@.len() == 7);
    assert("cancelling"@.len() == 10);
    assert("interrupted"@.len() == 11);
    reveal_strlit("interrupted (process restarted while running)");
    let marked = after_orphans(rows, now);
    let y = marked[i];
    assert(marked.take(marked.len() as int) =~= marked);
    assert(marked.contains(y));
    lemma_sweep_keeps_the_rest(marked, cutoff, marked.len(), y);
    lemma_sweep_keeps_the_rest(marked, cutoff, marked.len(), rows[i]);
    assert("interrupted (process restarted while running)"@.len() == 45);
    let x = rows[i];
    if x.status == "running"@ || x.status == "cancelling"@ {
        assert(y.status == "interrupted"@);
        assert(y.error is Some);
        assert(y.updated_at == now);
        if !crate::json::precedes(now, cutoff) {
            assert(swept(rows, now, cutoff).contains(y));
        }
    } else {
        assert(y == x);
    }
}

/// How far back the retention reaches: so many days of so many seconds.
pub proof fn lemma_retention_is_in_days(secs: int, days: int)
    ensures
        secs - cutoff_secs(secs, days) == days * 24 * 60 * 60,
        cutoff_secs(secs, 0) == secs,
{
    assert(86_400 * days == days * 24 * 60 * 60) by (nonlinear_arith);
}

/// A poll without a wait answers at once. One with a wait answers when the run has
/// ended or the wait is over, which is never longer than a minute; until then it
/// looks again, never later than the end of the wait.
pub proof fn lemma_waits_end(wait_secs: u64, waited_ms: u64)
    ensures
        wait_over(None, waited_ms),
        wait_over(Some(wait_secs), waited_ms) <==> (waited_ms >= wait_secs * 1000 || waited_ms
            >= 60_000),
        !wait_over(Some(wait_secs), waited_ms) ==> {
            let ms = next_wait(Some(wait_secs), waited_ms);
            &&& 0 < ms <= 250
            &&& waited_ms + ms <= wait_secs * 1000
            &&& waited_ms + ms <= 60_000
        },
{
}

/// A listing is never empty for want of a limit nor longer than a thousand, and
/// holds the newest of the runs that it is about, all of them where they fit.
pub proof fn lemma_a_listing_is_bounded(rows: Seq<Run>, action_ref: Option<Seq<char>>, limit: i64)
    ensures
        1 <= list_limit(limit) <= 1000,
        1 <= limit <= 1000 ==> list_limit(limit) == limit,
        listed(rows, action_ref, limit).len() <= list_limit(limit),
        listed(rows, action_ref, limit).is_prefix_of(newest_first(rows, action_ref, rows.len())),
        newest_first(rows, action_ref, rows.len()).len() <= list_limit(limit) ==> listed(
            rows,
            action_ref,
            limit,
        ) == newest_first(rows, action_ref, rows.len()),
        newest_first(rows, action_ref, rows.len()).len() >= list_limit(limit) ==> listed(
            rows,
            action_ref,
            limit,
        ).len() == list_limit(limit),
{
    let all = newest_first(rows, action_ref, rows.len());
    assert(all =~= all.subrange(0, all.len() as int));
}

/// Which statuses are the end of a run: all but those of a run that is going on.
pub proof fn lemma_only_two_statuses_go_on(s: Seq<char>)
    ensures
        terminal(s) <==> s != "running"@ && s != "cancelling"@,
{
}

/// How many runs were cut off: those that had not ended, each counted once.
pub proof fn lemma_runs_that_were_cut_off(rows: Seq<Run>, r: Run)
    ensures
        unfinished(Seq::empty(), 0) == 0,
        unfinished(rows.push(r), rows.len() + 1) == unfinished(rows, rows.len()) + (if r.status
            == "running"@ || r.status == "cancelling"@ {
            1nat
        } else {
            0nat
        }),
{
    lemma_unfinished_prefix(rows, r, rows.len());
    assert(rows.push(r)[rows.len() as int] == r);
}

proof fn lemma_unfinished_prefix(rows: Seq<Run>, r: Run, n: nat)
    requires
        n <= rows.len(),
    ensures
        unfinished(rows.push(r), n) == unfinished(rows, n),
    decreases n,
{
    if n > 0 {
        lemma_unfinished_prefix(rows, r, (n - 1) as nat);
        assert(rows.push(r)[n - 1] == rows[n - 1]);
    }
}

/// A manager opens over the runs on record as they are after the interrupted ones
/// were ended and those that are older than the configured days were dropped; it does
/// not open only where that many days reach out of the calendar.
pub proof fn lemma_an_opened_manager(
    r: Result<LocalActionManager, SolxError>,
    config: Config,
    runs: Seq<Run>,
    secs: i64,
    nanos: u32,
)
    requires
        is_open(r, config, runs, secs, nanos),
    ensures
        ({
            let cutoff = secs - config.invocation_ttl_days * 86_400;
            &&& (r is Ok <==> in_calendar(cutoff))
            &&& (r matches Ok(m) ==> m.runs() == swept(
                runs,
                rfc3339_text(secs, nanos),
                rfc3339_text(cutoff as i64, nanos),
            ))
            &&& (r matches Err(e) ==> e@ is Invalid)
        }),
{
}

/// Starting, finishing, stopping and aborting runs touches no action and no setting,
/// and a start that fails touches nothing at all.
pub proof fn lemma_runs_touch_nothing_else(
    before: LocalActionManager,
    after: LocalActionManager,
    r: Result<Value, SolxError>,
    stop: Result<StopStep, SolxError>,
    aborted: bool,
    path: Seq<char>,
    name: Seq<char>,
    action_ref: Seq<char>,
    id: Seq<char>,
    seq_start: i64,
    outcome: Result<ExecRecord, Failure>,
    force: bool,
    grace_secs: Option<u64>,
    now: Seq<char>,
)
    ensures
        is_start(r, before, after, path, name, action_ref, id, seq_start, now) ==> after.actions@
            == before.actions@ && after.config == before.config && after.host == before.host,
        is_start(r, before, after, path, name, action_ref, id, seq_start, now) && r is Err
            ==> after.runs() == before.runs() && after.tasks() == before.tasks(),
        is_finish(before, after, id, outcome, now) ==> after.actions@ == before.actions@
            && after.config == before.config && after.host == before.host,
        is_stop(stop, before, after, id, force, grace_secs, now) ==> after.actions@
            == before.actions@ && after.config == before.config && after.host == before.host,
        is_stop(stop, before, after, id, force, grace_secs, now) && stop is Err ==> after.runs()
            == before.runs() && after.tasks() == before.tasks(),
        is_abort(aborted, before, after, id, now) ==> after.actions@ == before.actions@
            && after.config == before.config && after.host == before.host,
{
}

/// A run has a task from its start to its end, however it ends; a stop that leaves the
/// run its time leaves it its task.
pub proof fn lemma_tasks_of_runs(
    before: LocalActionManager,
    after: LocalActionManager,
    r: Result<Value, SolxError>,
    aborted: bool,
    path: Seq<char>,
    name: Seq<char>,
    action_ref: Seq<char>,
    id: Seq<char>,
    seq_start: i64,
    outcome: Result<ExecRecord, Failure>,
    now: Seq<char>,
    other: Seq<char>,
)
    ensures
        is_start(r, before, after, path, name, action_ref, id, seq_start, now) && r is Ok
            ==> after.tasks().contains(id) && (other != id ==> (after.tasks().contains(other)
            <==> before.tasks().contains(other))),
        is_finish(before, after, id, outcome, now) ==> !after.tasks().contains(id) && (other != id
            ==> (after.tasks().contains(other) <==> before.tasks().contains(other))),
        is_abort(aborted, before, after, id, now) ==> !after.tasks().contains(id) && (aborted
            <==> before.tasks().contains(id)) && (other != id ==> (after.tasks().contains(other)
            <==> before.tasks().contains(other))),
{
}

} // verus!
