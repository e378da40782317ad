//! Invocation state for `start`, `stop` and `poll`, the asynchronous alternative
//! to `exec`: the status of each run, whether its cancellation was requested,
//! and what it came to.

use vstd::prelude::*;
use vstd::string::*;

use crate::error::{Failure, SolxError};
use crate::json::{json_int, json_opt_str, object_of, pairs_view, precedes, text_precedes};
use crate::json::{lemma_precedes_irreflexive, lemma_precedes_transitive};
use crate::manager::opt;
use crate::text::{copy_opt, opt_string, opt_text, same};
use crate::value::{opt_value, Json, Value};

verus! {

/// The status of a run that goes on.
pub const RUNNING: &'static str = "running";

/// The status of a run that was asked to stop and goes on.
pub const CANCELLING: &'static str = "cancelling";

pub const OK: &'static str = "ok";

pub const FAILED: &'static str = "failed";

pub const CANCELLED: &'static str = "cancelled";

pub const TIMEOUT: &'static str = "timeout";

pub const INTERRUPTED: &'static str = "interrupted";

/// Whether a status can never change again.
pub open spec fn terminal(s: Seq<char>) -> bool {
    s != RUNNING@ && s != CANCELLING@
}

/// Whether a status can never change again.
pub fn is_terminal(s: &str) -> (r: bool)
    ensures
        r == terminal(s@),
{
    !same(s, RUNNING) && !same(s, CANCELLING)
}

/// The statuses that a run ends in are terminal.
pub proof fn lemma_end_statuses_are_terminal()
    ensures
        terminal(OK@),
        terminal(FAILED@),
        terminal(CANCELLED@),
        terminal(TIMEOUT@),
        terminal(INTERRUPTED@),
{
    reveal_strlit("running");
    reveal_strlit("cancelling");
    reveal_strlit("ok");
    reveal_strlit("failed");
    reveal_strlit("cancelled");
    reveal_strlit("timeout");
    reveal_strlit("interrupted");
    assert(RUNNING@.len() == 7 && CANCELLING@.len() == 10);
    assert(RUNNING@[0] == 'r' && TIMEOUT@[0] == 't');
}

/// One run of an action.
#[derive(Debug)]
pub struct Invocation {
    pub invocation_id: String,
    pub action_ref: String,
    pub status: String,
    pub cancel_requested: bool,
    pub created_at: String,
    pub updated_at: String,
    pub finished_at: Option<String>,
    pub console_seq_start: i64,
    pub result: Option<Value>,
    pub error: Option<String>,
}

/// One run of an action, as mathematics.
#[verifier::ext_equal]
pub struct Run {
    pub invocation_id: Seq<char>,
    pub action_ref: Seq<char>,
    pub status: Seq<char>,
    pub cancel_requested: bool,
    pub created_at: Seq<char>,
    pub updated_at: Seq<char>,
    pub finished_at: Option<Seq<char>>,
    pub console_seq_start: i64,
    pub result: Option<Json>,
    pub error: Option<Seq<char>>,
}

impl Invocation {
    pub open spec fn view(&self) -> Run {
        Run {
            invocation_id: self.invocation_id@,
            action_ref: self.action_ref@,
            status: self.status@,
            cancel_requested: self.cancel_requested,
            created_at: self.created_at@,
            updated_at: self.updated_at@,
            finished_at: opt_string(self.finished_at),
            console_seq_start: self.console_seq_start,
            result: opt_value(self.result),
            error: opt_string(self.error),
        }
    }

    fn copy(&self) -> (r: Invocation)
        ensures
            r@ == self@,
    {
        Invocation {
            invocation_id: self.invocation_id.clone(),
            action_ref: self.action_ref.clone(),
            status: self.status.clone(),
            cancel_requested: self.cancel_requested,
            created_at: self.created_at.clone(),
            updated_at: self.updated_at.clone(),
            finished_at: copy_opt(&self.finished_at),
            console_seq_start: self.console_seq_start,
            result: match &self.result {
                Some(v) => Some(v.clone()),
                None => None,
            },
            error: copy_opt(&self.error),
        }
    }

    /// The shape that `start`, `stop` and `poll` return.
    pub fn to_json(&self) -> (r: Value)
        ensures
            r@ == run_json(self@),
    {
        let result = match &self.result {
            Some(v) => v.clone(),
            None => Value::Null,
        };
        let error = match &self.error {
            Some(e) => Some(e.as_str()),
            None => None,
        };
        let finished = match &self.finished_at {
            Some(e) => Some(e.as_str()),
            None => None,
        };
        let pairs: Vec<(&'static str, Value)> = vec![
            ("invocation_id", Value::text(self.invocation_id.as_str())),
            ("action_ref", Value::text(self.action_ref.as_str())),
            ("status", Value::text(self.status.as_str())),
            ("result", result),
            ("error", Value::opt_text(error)),
            ("created_at", Value::text(self.created_at.as_str())),
            ("updated_at", Value::text(self.updated_at.as_str())),
            ("finished_at", Value::opt_text(finished)),
            ("console_seq_start", Value::sint(self.console_seq_start)),
        ];
        assert(pairs_view(pairs@) =~= run_pairs(self@));
        Value::object(pairs)
    }
}

pub open spec fn run_pairs(r: Run) -> Seq<(Seq<char>, Json)> {
    seq![
        ("invocation_id"@, Json::Str(r.invocation_id)),
        ("action_ref"@, Json::Str(r.action_ref)),
        ("status"@, Json::Str(r.status)),
        (
            "result"@,
            match r.result {
                Some(v) => v,
                None => Json::Null,
            },
        ),
        ("error"@, json_opt_str(r.error)),
        ("created_at"@, Json::Str(r.created_at)),
        ("updated_at"@, Json::Str(r.updated_at)),
        ("finished_at"@, json_opt_str(r.finished_at)),
        ("console_seq_start"@, json_int(r.console_seq_start)),
    ]
}

/// A run as JSON.
pub open spec fn run_json(r: Run) -> Json {
    object_of(run_pairs(r))
}

/// A stored text, where the empty one stands for none.
pub open spec fn nonempty(s: Option<Seq<char>>) -> Option<Seq<char>> {
    match s {
        Some(t) => if t.len() > 0 {
            Some(t)
        } else {
            None
        },
        None => None,
    }
}

// ── What happens to one run ──────────────────────────────────────────────────

/// A run that begins.
pub open spec fn started(
    id: Seq<char>,
    action_ref: Seq<char>,
    console_seq_start: i64,
    now: Seq<char>,
) -> Run {
    Run {
        invocation_id: id,
        action_ref,
        status: RUNNING@,
        cancel_requested: false,
        created_at: now,
        updated_at: now,
        finished_at: None,
        console_seq_start,
        result: None,
        error: None,
    }
}

/// A run whose cancellation is requested.
pub open spec fn cancelled_run(r: Run, now: Seq<char>) -> Run {
    Run {
        cancel_requested: true,
        status: if r.status == RUNNING@ {
            CANCELLING@
        } else {
            r.status
        },
        updated_at: now,
        ..r
    }
}

/// A run that comes to its end; one that already has stays as it is.
pub open spec fn finished_run(
    r: Run,
    status: Seq<char>,
    result: Option<Json>,
    error: Option<Seq<char>>,
    now: Seq<char>,
) -> Run {
    if terminal(r.status) {
        r
    } else {
        Run { status, result, error: nonempty(error), updated_at: now, finished_at: Some(now), ..r }
    }
}

/// The message of a run that was stopped by force.
pub open spec fn aborted_error() -> Seq<char> {
    "stopped (grace period expired)"@
}

/// The message of a run whose process ended.
pub open spec fn orphaned_error() -> Seq<char> {
    "interrupted (process restarted while running)"@
}

pub open spec fn orphaned_run(r: Run, now: Seq<char>) -> Run {
    finished_run(r, INTERRUPTED@, None, Some(orphaned_error()), now)
}

// ── What happens to all of them ──────────────────────────────────────────────

pub open spec fn runs(rows: Seq<Invocation>) -> Seq<Run> {
    Seq::new(rows.len(), |i: int| rows[i]@)
}

/// Whether no two runs have one identifier.
pub open spec fn ids_distinct(rows: Seq<Run>) -> bool {
    forall|i: int, j: int|
        0 <= i < j < rows.len() ==> (#[trigger] rows[i]).invocation_id != (
        #[trigger] rows[j]).invocation_id
}

/// The first position from `i` on of the run `id`, or the length.
pub open spec fn run_from(rows: Seq<Run>, id: Seq<char>, i: int) -> int
    decreases rows.len() - i,
{
    if i >= rows.len() {
        rows.len() as int
    } else if rows[i].invocation_id == id {
        i
    } else {
        run_from(rows, id, i + 1)
    }
}

/// The run `id`.
pub open spec fn run_of(rows: Seq<Run>, id: Seq<char>) -> Option<Run> {
    let i = run_from(rows, id, 0);
    if i < rows.len() {
        Some(rows[i])
    } else {
        None
    }
}

/// The runs with the run `id` replaced by `r`.
pub open spec fn with_run(rows: Seq<Run>, id: Seq<char>, r: Run) -> Seq<Run> {
    let i = run_from(rows, id, 0);
    if i < rows.len() {
        rows.update(i, r)
    } else {
        rows
    }
}

/// The runs with the run `id` brought to its end.
pub open spec fn after_finish(
    rows: Seq<Run>,
    id: Seq<char>,
    status: Seq<char>,
    result: Option<Json>,
    error: Option<Seq<char>>,
    now: Seq<char>,
) -> Seq<Run> {
    match run_of(rows, id) {
        Some(r) => with_run(rows, id, finished_run(r, status, result, error, now)),
        None => rows,
    }
}

/// The runs with the cancellation of the run `id` requested.
pub open spec fn after_cancel(rows: Seq<Run>, id: Seq<char>, now: Seq<char>) -> Seq<Run> {
    match run_of(rows, id) {
        Some(r) => with_run(rows, id, cancelled_run(r, now)),
        None => rows,
    }
}

/// The runs with every unfinished one interrupted.
pub open spec fn after_orphans(rows: Seq<Run>, now: Seq<char>) -> Seq<Run> {
    Seq::new(rows.len(), |i: int| orphaned_run(rows[i], now))
}

/// How many of the first `n` runs are unfinished.
pub open spec fn unfinished(rows: Seq<Run>, n: nat) -> nat
    decreases n,
{
    if n == 0 || n > rows.len() {
        0
    } else {
        unfinished(rows, (n - 1) as nat) + (if terminal(rows[n - 1].status) {
            0nat
        } else {
            1nat
        })
    }
}

/// Whether a run is finished and was last touched before `cutoff`.
pub open spec fn expired(r: Run, cutoff: Seq<char>) -> bool {
    terminal(r.status) && precedes(r.updated_at, cutoff)
}

/// The first `n` runs without the expired ones.
pub open spec fn kept(rows: Seq<Run>, cutoff: Seq<char>, n: nat) -> Seq<Run>
    decreases n,
{
    if n == 0 || n > rows.len() {
        Seq::empty()
    } else if expired(rows[n - 1], cutoff) {
        kept(rows, cutoff, (n - 1) as nat)
    } else {
        kept(rows, cutoff, (n - 1) as nat).push(rows[n - 1])
    }
}

/// The first position from `i` on of a run created before `r`, or the length.
pub open spec fn older_from(rows: Seq<Run>, created_at: Seq<char>, i: int) -> int
    decreases rows.len() - i,
{
    if i >= rows.len() {
        rows.len() as int
    } else if precedes(rows[i].created_at, created_at) {
        i
    } else {
        older_from(rows, created_at, i + 1)
    }
}

/// The first `n` runs of an action, or of all where none is named, newest first.
pub open spec fn newest_first(rows: Seq<Run>, action_ref: Option<Seq<char>>, n: nat) -> Seq<Run>
    decreases n,
{
    if n == 0 || n > rows.len() {
        Seq::empty()
    } else {
        let before = newest_first(rows, action_ref, (n - 1) as nat);
        let r = rows[n - 1];
        if action_ref is None || action_ref == Some(r.action_ref) {
            before.insert(older_from(before, r.created_at, 0), r)
        } else {
            before
        }
    }
}

/// How many runs a listing may hold.
pub open spec fn list_limit(limit: i64) -> nat {
    if limit < 1 {
        1
    } else if limit > 1000 {
        1000
    } else {
        limit as nat
    }
}

pub open spec fn listed(rows: Seq<Run>, action_ref: Option<Seq<char>>, limit: i64) -> Seq<Run> {
    let all = newest_first(rows, action_ref, rows.len());
    if all.len() <= list_limit(limit) {
        all
    } else {
        all.take(list_limit(limit) as int)
    }
}

/// The runs of a process, under distinct identifiers.
#[derive(Debug)]
pub struct InvocationStore {
    rows: Vec<Invocation>,
}

impl InvocationStore {
    pub closed spec fn view(&self) -> Seq<Run> {
        runs(self.rows@)
    }

    #[verifier::type_invariant]
    spec fn well_formed(self) -> bool {
        ids_distinct(runs(self.rows@))
    }

    pub fn new() -> (r: InvocationStore)
        ensures
            r@ == Seq::<Run>::empty(),
    {
        let r = InvocationStore { rows: Vec::new() };
        assert(r@ =~= Seq::<Run>::empty());
        r
    }

    fn find(&self, id: &str) -> (r: usize)
        ensures
            r as int == run_from(self@, id@, 0),
            r <= self.rows@.len(),
    {
        let mut i: usize = 0;
        while i < self.rows.len()
            invariant
                i <= self.rows.len(),
                run_from(self@, id@, 0) == run_from(self@, id@, i as int),
            decreases self.rows.len() - i,
        {
            if same(self.rows[i].invocation_id.as_str(), id) {
                return i;
            }
            i += 1;
        }
        i
    }

    /// Put `r` in the place of the run at `i`, which has the same identifier.
    fn replace(&mut self, i: usize, r: Invocation)
        requires
            i < old(self)@.len(),
            r@.invocation_id == old(self)@[i as int].invocation_id,
        ensures
            final(self)@ == old(self)@.update(i as int, r@),
    {
        proof {
            use_type_invariant(&*self);
        }
        let ghost before = self.rows@;
        let mut rows: Vec<Invocation> = Vec::new();
        std::mem::swap(&mut rows, &mut self.rows);
        let ghost v = r@;
        rows.set(i, r);
        assert(runs(rows@) =~= runs(before).update(i as int, v));
        proof {
            lemma_update_keeps_ids(runs(before), i as int, v);
        }
        self.rows = rows;
    }

    /// Record a run that begins. `console_seq_start` is the console's next
    /// sequence number at that moment, so that a reader can go straight to the
    /// output of this run. An identifier that is taken is refused.
    pub fn create(
        &mut self,
        invocation_id: &str,
        action_ref: &str,
        console_seq_start: i64,
        now: &str,
    ) -> (r: Result<(), SolxError>)
        ensures
            run_of(old(self)@, invocation_id@) is None ==> r is Ok && final(self)@ == old(self)@.push(
                started(invocation_id@, action_ref@, console_seq_start, now@),
            ),
            run_of(old(self)@, invocation_id@) is Some ==> r is Err && r->Err_0@ == Failure::Db(
                "UNIQUE constraint failed: invocations.invocation_id"@,
            ) && final(self)@ == old(self)@,
    {
        let i = self.find(invocation_id);
        if i < self.rows.len() {
            return Err(
                SolxError::Db("UNIQUE constraint failed: invocations.invocation_id".to_owned()),
            );
        }
        proof {
            use_type_invariant(&*self);
            lemma_run_from(self@, invocation_id@, 0);
        }
        let ghost before = self.rows@;
        let mut rows: Vec<Invocation> = Vec::new();
        std::mem::swap(&mut rows, &mut self.rows);
        let row = Invocation {
            invocation_id: invocation_id.to_owned(),
            action_ref: action_ref.to_owned(),
            status: RUNNING.to_owned(),
            cancel_requested: false,
            created_at: now.to_owned(),
            updated_at: now.to_owned(),
            finished_at: None,
            console_seq_start,
            result: None,
            error: None,
        };
        let ghost v = row@;
        rows.push(row);
        proof {
            assert(runs(rows@) =~= runs(before).push(v));
            let after = runs(before).push(v);
            assert forall|a: int, b: int| 0 <= a < b < after.len() implies (
            #[trigger] after[a]).invocation_id != (#[trigger] after[b]).invocation_id by {
                if b < before.len() {
                    assert(runs(before)[a].invocation_id != runs(before)[b].invocation_id);
                } else {
                    assert(runs(before)[a].invocation_id != invocation_id@);
                }
            }
        }
        self.rows = rows;
        Ok(())
    }

    pub fn get(&self, invocation_id: &str) -> (r: Option<Invocation>)
        ensures
            (match r {
                Some(inv) => Some(inv@),
                None => None,
            }) == run_of(self@, invocation_id@),
    {
        let i = self.find(invocation_id);
        if i < self.rows.len() {
            Some(self.rows[i].copy())
        } else {
            None
        }
    }

    /// Whether the cancellation of a run was requested: not so for one that is
    /// unknown.
    pub fn is_cancelled(&self, invocation_id: &str) -> (r: bool)
        ensures
            r == (run_of(self@, invocation_id@) matches Some(x) && x.cancel_requested),
    {
        let i = self.find(invocation_id);
        i < self.rows.len() && self.rows[i].cancel_requested
    }

    /// Request the cancellation of a run: one that is running is then
    /// cancelling; one that has ended keeps its status. Returns the run as it
    /// then stands.
    pub fn request_cancel(&mut self, invocation_id: &str, now: &str) -> (r: Option<Invocation>)
        ensures
            final(self)@ == after_cancel(old(self)@, invocation_id@, now@),
            (match r {
                Some(inv) => Some(inv@),
                None => None,
            }) == (match run_of(old(self)@, invocation_id@) {
                Some(x) => Some(cancelled_run(x, now@)),
                None => None,
            }),
    {
        let i = self.find(invocation_id);
        if i < self.rows.len() {
            proof {
                lemma_run_from(self@, invocation_id@, 0);
            }
            let mut row = self.rows[i].copy();
            row.cancel_requested = true;
            if same(row.status.as_str(), RUNNING) {
                row.status = CANCELLING.to_owned();
            }
            row.updated_at = now.to_owned();
            assert(row@ =~= cancelled_run(self@[i as int], now@));
            let out = row.copy();
            self.replace(i, row);
            Some(out)
        } else {
            None
        }
    }

    /// Bring an unfinished run to its end with its result or error. A run that
    /// has already ended stays as it is, so of a natural end and a forced one
    /// the first counts.
    pub fn finish(
        &mut self,
        invocation_id: &str,
        status: &str,
        result: Option<Value>,
        error: Option<String>,
        now: &str,
    )
        ensures
            final(self)@ == after_finish(
                old(self)@,
                invocation_id@,
                status@,
                opt_value(result),
                opt_string(error),
                now@,
            ),
    {
        let i = self.find(invocation_id);
        if i < self.rows.len() {
            proof {
                lemma_run_from(self@, invocation_id@, 0);
            }
            if !is_terminal(self.rows[i].status.as_str()) {
                let mut row = self.rows[i].copy();
                row.status = status.to_owned();
                row.result = result;
                row.error = match error {
                    Some(e) => opt(e),
                    None => None,
                };
                row.updated_at = now.to_owned();
                row.finished_at = Some(now.to_owned());
                self.replace(i, row);
            } else {
                assert(self@ =~= self@.update(i as int, self@[i as int]));
            }
        }
    }

    /// Mark a run `cancelled` that was stopped by force; one that ended by
    /// itself just before stays as it is.
    pub fn mark_aborted(&mut self, invocation_id: &str, now: &str)
        ensures
            final(self)@ == after_finish(
                old(self)@,
                invocation_id@,
                CANCELLED@,
                None,
                Some(aborted_error()),
                now@,
            ),
    {
        self.finish(
            invocation_id,
            CANCELLED,
            None,
            Some("stopped (grace period expired)".to_owned()),
            now,
        )
    }

    /// The runs, newest first, of one action where it is named.
    pub fn list(&self, action_ref: Option<&str>, limit: i64) -> (r: Vec<Invocation>)
        ensures
            runs(r@) == listed(self@, opt_text(action_ref), limit),
    {
        let mut out: Vec<Invocation> = Vec::new();
        let mut i: usize = 0;
        assert(runs(out@) =~= Seq::<Run>::empty());
        while i < self.rows.len()
            invariant
                i <= self.rows.len(),
                runs(out@) == newest_first(self@, opt_text(action_ref), i as nat),
            decreases self.rows.len() - i,
        {
            let wanted = match action_ref {
                Some(a) => same(self.rows[i].action_ref.as_str(), a),
                None => true,
            };
            if wanted {
                let row = self.rows[i].copy();
                let mut p: usize = 0;
                let ghost before = runs(out@);
                while p < out.len() && !text_precedes(out[p].created_at.as_str(), row.created_at.as_str())
                    invariant
                        p <= out.len(),
                        before == runs(out@),
                        older_from(before, row@.created_at, 0) == older_from(
                            before,
                            row@.created_at,
                            p as int,
                        ),
                    decreases out.len() - p,
                {
                    p += 1;
                }
                let ghost v = row@;
                out.insert(p, row);
                assert(runs(out@) =~= before.insert(p as int, v));
            }
            i += 1;
        }
        let n: usize = if limit < 1 {
            1
        } else if limit > 1000 {
            1000
        } else {
            limit as usize
        };
        let ghost all = runs(out@);
        if out.len() > n {
            out.truncate(n);
            assert(runs(out@) =~= all.take(n as int));
        }
        out
    }

    /// Interrupt every unfinished run: at startup no task stands behind it any
    /// more. Returns how many there were.
    pub fn mark_orphans(&mut self, now: &str) -> (r: usize)
        ensures
            final(self)@ == after_orphans(old(self)@, now@),
            r == unfinished(old(self)@, old(self)@.len()),
    {
        let ghost start = self@;
        let mut count: usize = 0;
        let mut i: usize = 0;
        while i < self.rows.len()
            invariant
                i <= self@.len(),
                self@.len() == start.len(),
                self.rows@.len() == start.len(),
                count == unfinished(start, i as nat),
                count <= i,
                forall|j: int| 0 <= j < i ==> (#[trigger] self@[j]) == orphaned_run(start[j], now@),
                forall|j: int| i <= j < start.len() ==> (#[trigger] self@[j]) == start[j],
            decreases start.len() - i,
        {
            assert(self@[i as int] == start[i as int]);
            assert(self@[i as int].status == self.rows@[i as int].status@);
            if !is_terminal(self.rows[i].status.as_str()) {
                let mut row = self.rows[i].copy();
                row.status = INTERRUPTED.to_owned();
                row.result = None;
                row.error = Some("interrupted (process restarted while running)".to_owned());
                row.updated_at = now.to_owned();
                row.finished_at = Some(now.to_owned());
                assert(orphaned_error().len() > 0) by {
                    reveal_strlit("interrupted (process restarted while running)");
                }
                assert(row@ =~= orphaned_run(start[i as int], now@));
                self.replace(i, row);
                assert(self@.len() == self.rows@.len());
                count += 1;
            }
            i += 1;
        }
        assert(self@ =~= after_orphans(start, now@));
        count
    }

    /// Drop the finished runs last touched before `cutoff`. Returns how many
    /// there were.
    pub fn sweep_expired(&mut self, cutoff: &str) -> (r: usize)
        ensures
            final(self)@ == kept(old(self)@, cutoff@, old(self)@.len()),
            r == old(self)@.len() - final(self)@.len(),
    {
        proof {
            use_type_invariant(&*self);
            lemma_kept(self@, cutoff@, self@.len());
        }
        let ghost start = self@;
        let mut out: Vec<Invocation> = Vec::new();
        let mut i: usize = 0;
        assert(runs(out@) =~= Seq::<Run>::empty());
        while i < self.rows.len()
            invariant
                i <= self.rows.len(),
                start == self@,
                out.len() <= i,
                runs(out@) == kept(start, cutoff@, i as nat),
            decreases self.rows.len() - i,
        {
            let gone = is_terminal(self.rows[i].status.as_str()) && text_precedes(
                self.rows[i].updated_at.as_str(),
                cutoff,
            );
            if !gone {
                let ghost before = runs(out@);
                let row = self.rows[i].copy();
                let ghost v = row@;
                out.push(row);
                assert(runs(out@) =~= before.push(v));
            }
            i += 1;
        }
        let n: usize = self.rows.len() - out.len();
        self.rows = out;
        n
    }
}

proof fn lemma_run_from(rows: Seq<Run>, id: Seq<char>, i: int)
    requires
        0 <= i <= rows.len(),
    ensures
        i <= run_from(rows, id, i) <= rows.len(),
        run_from(rows, id, i) < rows.len() ==> rows[run_from(rows, id, i)].invocation_id == id,
        forall|j: int|
            i <= j < run_from(rows, id, i) ==> (#[trigger] rows[j]).invocation_id != id,
    decreases rows.len() - i,
{
    if i < rows.len() && rows[i].invocation_id != id {
        lemma_run_from(rows, id, i + 1);
    }
}

proof fn lemma_run_from_is(rows: Seq<Run>, id: Seq<char>, i: int)
    requires
        0 <= i <= rows.len(),
        i < rows.len() ==> rows[i].invocation_id == id,
        forall|j: int| 0 <= j < i ==> (#[trigger] rows[j]).invocation_id != id,
    ensures
        run_from(rows, id, 0) == i,
{
    lemma_run_from(rows, id, 0);
    let p = run_from(rows, id, 0);
    if p < i {
        assert(rows[p].invocation_id == id);
    } else if i < p {
        assert(rows[i].invocation_id != id);
    }
}

proof fn lemma_update_keeps_ids(rows: Seq<Run>, i: int, r: Run)
    requires
        ids_distinct(rows),
        0 <= i < rows.len(),
        r.invocation_id == rows[i].invocation_id,
    ensures
        ids_distinct(rows.update(i, r)),
{
    let after = rows.update(i, r);
    assert forall|a: int, b: int| 0 <= a < b < after.len() implies (
    #[trigger] after[a]).invocation_id != (#[trigger] after[b]).invocation_id by {
        assert(rows[a].invocation_id != rows[b].invocation_id);
    }
}

/// Reading a run back after a change of the run `id`: that run is the changed
/// one, every other is as it was.
pub proof fn lemma_run_of_with_run(rows: Seq<Run>, id: Seq<char>, r: Run, other: Seq<char>)
    requires
        r.invocation_id == id,
        run_of(rows, id) is Some,
    ensures
        run_of(with_run(rows, id, r), other) == (if other == id {
            Some(r)
        } else {
            run_of(rows, other)
        }),
{
    let after = with_run(rows, id, r);
    lemma_run_from(rows, id, 0);
    lemma_run_from(rows, other, 0);
    let i = run_from(rows, id, 0);
    let o = run_from(rows, other, 0);
    assert forall|j: int| 0 <= j < after.len() implies (#[trigger] after[j]).invocation_id
        == rows[j].invocation_id by {}
    if other == id {
        lemma_run_from_is(after, id, i);
    } else {
        lemma_run_from_is(after, other, o);
    }
}

/// A run that has ended never changes again: bringing it to its end once more
/// changes nothing, and a late request to cancel leaves its status, result and
/// error.
pub proof fn lemma_terminal_is_final(
    r: Run,
    status: Seq<char>,
    result: Option<Json>,
    error: Option<Seq<char>>,
    now: Seq<char>,
)
    requires
        terminal(r.status),
    ensures
        finished_run(r, status, result, error, now) == r,
        orphaned_run(r, now) == r,
        cancelled_run(r, now).status == r.status,
        cancelled_run(r, now).result == r.result,
        cancelled_run(r, now).error == r.error,
        cancelled_run(r, now).finished_at == r.finished_at,
{
}

/// A request to cancel leaves whether a run has ended.
pub proof fn lemma_cancel_keeps_end(r: Run, now: Seq<char>)
    ensures
        terminal(cancelled_run(r, now).status) == terminal(r.status),
{
}

/// A run that is asked to stop and then brought to its end is on record, at its
/// end.
pub proof fn lemma_cancel_then_finish(
    rows: Seq<Run>,
    id: Seq<char>,
    status: Seq<char>,
    result: Option<Json>,
    error: Option<Seq<char>>,
    now: Seq<char>,
)
    requires
        run_of(rows, id) is Some,
    ensures
        run_of(after_finish(after_cancel(rows, id, now), id, status, result, error, now), id) == Some(
            finished_run(cancelled_run(run_of(rows, id)->0, now), status, result, error, now),
        ),
{
    lemma_run_from(rows, id, 0);
    let c = cancelled_run(run_of(rows, id)->0, now);
    lemma_run_of_with_run(rows, id, c, id);
    let asked = after_cancel(rows, id, now);
    let f = finished_run(c, status, result, error, now);
    lemma_run_of_with_run(asked, id, f, id);
}

/// Of two ends the first counts: the second changes nothing.
pub proof fn lemma_first_finish_wins(
    rows: Seq<Run>,
    id: Seq<char>,
    first: Seq<char>,
    result: Option<Json>,
    error: Option<Seq<char>>,
    now: Seq<char>,
    second: Seq<char>,
    result2: Option<Json>,
    error2: Option<Seq<char>>,
    later: Seq<char>,
)
    requires
        terminal(first),
    ensures
        after_finish(
            after_finish(rows, id, first, result, error, now),
            id,
            second,
            result2,
            error2,
            later,
        ) == after_finish(rows, id, first, result, error, now),
        run_of(after_finish(rows, id, first, result, error, now), id) matches Some(r) ==> terminal(
            r.status,
        ),
{
    let once = after_finish(rows, id, first, result, error, now);
    match run_of(rows, id) {
        Some(r) => {
            lemma_run_from(rows, id, 0);
            let f = finished_run(r, first, result, error, now);
            lemma_run_of_with_run(rows, id, f, id);
            lemma_run_from(once, id, 0);
            assert(with_run(once, id, f) =~= once);
        },
        None => {},
    }
}

/// After the unfinished runs were interrupted none is left unfinished, and the
/// finished ones are as they were.
pub proof fn lemma_no_orphans_left(rows: Seq<Run>, now: Seq<char>)
    ensures
        after_orphans(rows, now).len() == rows.len(),
        forall|i: int| 0 <= i < rows.len() ==> terminal((#[trigger] after_orphans(rows, now)[i]).status),
        forall|i: int|
            0 <= i < rows.len() && terminal(rows[i].status) ==> (#[trigger] after_orphans(rows, now)[i])
                == rows[i],
{
    lemma_end_statuses_are_terminal();
}

proof fn lemma_kept(rows: Seq<Run>, cutoff: Seq<char>, n: nat)
    requires
        ids_distinct(rows),
        n <= rows.len(),
    ensures
        kept(rows, cutoff, n).len() <= n,
        ids_distinct(kept(rows, cutoff, n)),
        forall|k: int|
            0 <= k < kept(rows, cutoff, n).len() ==> exists|i: int|
                0 <= i < n && rows[i] == #[trigger] kept(rows, cutoff, n)[k],
    decreases n,
{
    if n > 0 {
        lemma_kept(rows, cutoff, (n - 1) as nat);
        let before = kept(rows, cutoff, (n - 1) as nat);
        let after = kept(rows, cutoff, n);
        assert forall|k: int| 0 <= k < after.len() implies exists|i: int|
            0 <= i < n && rows[i] == #[trigger] after[k] by {
            if k < before.len() {
                assert(after[k] == before[k]);
                let i = choose|i: int| 0 <= i < n - 1 && rows[i] == before[k];
                assert(rows[i] == after[k]);
            } else {
                assert(rows[n - 1] == after[k]);
            }
        }
        assert forall|a: int, b: int| 0 <= a < b < after.len() implies (
        #[trigger] after[a]).invocation_id != (#[trigger] after[b]).invocation_id by {
            if b < before.len() {
                assert(before[a].invocation_id != before[b].invocation_id);
            } else {
                assert(after[a] == before[a]);
                let i = choose|i: int| 0 <= i < n - 1 && rows[i] == before[a];
                assert(rows[i].invocation_id != rows[n - 1].invocation_id);
            }
        }
    }
}

/// Whether a sweep keeps exactly the runs that have not expired.
pub proof fn lemma_sweep_keeps_the_rest(rows: Seq<Run>, cutoff: Seq<char>, n: nat, r: Run)
    requires
        n <= rows.len(),
    ensures
        kept(rows, cutoff, n).contains(r) <==> rows.take(n as int).contains(r) && !expired(
            r,
            cutoff,
        ),
    decreases n,
{
    if n > 0 {
        lemma_sweep_keeps_the_rest(rows, cutoff, (n - 1) as nat, r);
        let before = kept(rows, cutoff, (n - 1) as nat);
        let after = kept(rows, cutoff, n);
        let shorter = rows.take(n - 1);
        let longer = rows.take(n as int);
        assert(longer =~= shorter.push(rows[n - 1]));
        assert(longer.contains(r) <==> shorter.contains(r) || rows[n - 1] == r) by {
            if shorter.contains(r) {
                let i = choose|i: int| 0 <= i < shorter.len() && shorter[i] == r;
                assert(longer[i] == r);
            }
            if rows[n - 1] == r {
                assert(longer[n - 1] == r);
            }
        }
        if !expired(rows[n - 1], cutoff) {
            assert(after.contains(r) <==> before.contains(r) || rows[n - 1] == r) by {
                if before.contains(r) {
                    let i = choose|i: int| 0 <= i < before.len() && before[i] == r;
                    assert(after[i] == r);
                }
                if rows[n - 1] == r {
                    assert(after[before.len() as int] == r);
                }
            }
        }
    } else {
        assert(rows.take(0) =~= Seq::<Run>::empty());
    }
}

/// A listing holds the newest run first: none is older than one behind it.
pub proof fn lemma_newest_first_ordered(rows: Seq<Run>, action_ref: Option<Seq<char>>, n: nat)
    requires
        n <= rows.len(),
    ensures
        forall|i: int, j: int|
            0 <= i < j < newest_first(rows, action_ref, n).len() ==> !precedes(
                (#[trigger] newest_first(rows, action_ref, n)[i]).created_at,
                (#[trigger] newest_first(rows, action_ref, n)[j]).created_at,
            ),
    decreases n,
{
    if n > 0 {
        lemma_newest_first_ordered(rows, action_ref, (n - 1) as nat);
        let before = newest_first(rows, action_ref, (n - 1) as nat);
        let r = rows[n - 1];
        if action_ref is None || action_ref == Some(r.action_ref) {
            let p = older_from(before, r.created_at, 0);
            lemma_older_from(before, r.created_at, 0);
            let after = before.insert(p, r);
            assert(forall|k: int| 0 <= k < p ==> after[k] == before[k]);
            assert(forall|k: int| p < k < after.len() ==> after[k] == before[k - 1]);
            assert forall|i: int, j: int| 0 <= i < j < after.len() implies !precedes(
                (#[trigger] after[i]).created_at,
                (#[trigger] after[j]).created_at,
            ) by {
                if i == p {
                    if precedes(r.created_at, before[j - 1].created_at) {
                        lemma_precedes_transitive(
                            before[p].created_at,
                            r.created_at,
                            before[j - 1].created_at,
                        );
                        if p < j - 1 {
                            assert(!precedes(before[p].created_at, before[j - 1].created_at));
                        } else {
                            lemma_precedes_irreflexive(before[p].created_at);
                        }
                    }
                } else if j != p {
                    let x = if i < p {
                        i
                    } else {
                        i - 1
                    };
                    let y = if j < p {
                        j
                    } else {
                        j - 1
                    };
                    assert(!precedes(before[x].created_at, before[y].created_at));
                }
            }
        }
    }
}

proof fn lemma_older_from(rows: Seq<Run>, created_at: Seq<char>, i: int)
    requires
        0 <= i <= rows.len(),
    ensures
        i <= older_from(rows, created_at, i) <= rows.len(),
        older_from(rows, created_at, i) < rows.len() ==> precedes(
            rows[older_from(rows, created_at, i)].created_at,
            created_at,
        ),
        forall|j: int|
            i <= j < older_from(rows, created_at, i) ==> !precedes(
                (#[trigger] rows[j]).created_at,
                created_at,
            ),
    decreases rows.len() - i,
{
    if i < rows.len() && !precedes(rows[i].created_at, created_at) {
        lemma_older_from(rows, created_at, i + 1);
    }
}

/// A listing without a limit holds exactly the runs that were asked for.
pub proof fn lemma_newest_first_holds(
    rows: Seq<Run>,
    action_ref: Option<Seq<char>>,
    n: nat,
    r: Run,
)
    requires
        n <= rows.len(),
    ensures
        newest_first(rows, action_ref, n).contains(r) <==> rows.take(n as int).contains(r) && (
        action_ref is None || action_ref == Some(r.action_ref)),
    decreases n,
{
    let longer = rows.take(n as int);
    if n > 0 {
        lemma_newest_first_holds(rows, action_ref, (n - 1) as nat, r);
        let before = newest_first(rows, action_ref, (n - 1) as nat);
        let after = newest_first(rows, action_ref, n);
        let last = rows[n - 1];
        let shorter = rows.take(n - 1);
        assert(longer =~= shorter.push(last));
        assert(longer.contains(r) <==> shorter.contains(r) || last == r) by {
            if shorter.contains(r) {
                let i = choose|i: int| 0 <= i < shorter.len() && shorter[i] == r;
                assert(longer[i] == r);
            }
            if last == r {
                assert(longer[n - 1] == r);
            }
        }
        if action_ref is None || action_ref == Some(last.action_ref) {
            let p = older_from(before, last.created_at, 0);
            lemma_older_from(before, last.created_at, 0);
            assert(after == before.insert(p, last));
            assert(after.contains(r) <==> before.contains(r) || last == r) by {
                if before.contains(r) {
                    let i = choose|i: int| 0 <= i < before.len() && before[i] == r;
                    if i < p {
                        assert(after[i] == r);
                    } else {
                        assert(after[i + 1] == r);
                    }
                }
                if last == r {
                    assert(after[p] == r);
                }
                if after.contains(r) {
                    let i = choose|i: int| 0 <= i < after.len() && after[i] == r;
                    if i < p {
                        assert(before[i] == r);
                    } else if i > p {
                        assert(before[i - 1] == r);
                    }
                }
            }
        }
    } else {
        assert(longer =~= Seq::<Run>::empty());
    }
}

/// A run that goes on is never swept, however old it is.
pub proof fn lemma_sweep_keeps_unfinished(rows: Seq<Run>, cutoff: Seq<char>, i: int)
    requires
        0 <= i < rows.len(),
        !terminal(rows[i].status),
    ensures
        kept(rows, cutoff, rows.len()).contains(rows[i]),
{
    lemma_sweep_keeps_the_rest(rows, cutoff, rows.len(), rows[i]);
    assert(rows.take(rows.len() as int)[i] == rows[i]);
}

} // verus!
