//! Dispatching: where an action goes, what is asked on its behalf, and when.

use vstd::prelude::*;
use vstd::string::*;
use vstd::utf8::{decode_utf8, valid_utf8};

use crate::dispatcher::{are_completion_events, are_invocations, chosen, due_flags, fired_names};
use crate::dispatcher::{invocation_payload, is_artifact_source, is_artifact_step, is_due};
use crate::dispatcher::{is_invocation, is_route, is_triggered, lemma_chosen, named_artifacts};
use crate::dispatcher::{resolved_bases, share_a_name, triggered_flags, ArtifactSource};
use crate::dispatcher::{ArtifactStep, DispatchAction, Event, Route, Schedule, ScheduleInvocation};
use crate::dispatcher::actions::{is_actions_value, is_artifact_action, is_prompt_step};
use crate::dispatcher::actions::{override_text, ArtifactAction, PromptStep};
use crate::dispatcher::commands::{code_json, command_record, is_command_run, is_log_line};
use crate::dispatcher::commands::{reported_error, run_dir, three_digits, CommandOutput, CommandRun};
use crate::json::{json_opt_str, json_text, object_of};
use crate::laws::{lemma_no_pair_no_member, lemma_pair_is_member};
use crate::text::{decimal, digits_value, is_blank, texts};
use crate::value::{Json, Value};

verus! {

// ── Routes ───────────────────────────────────────────────────────────────────

/// Where an action goes is by its type: a prompt or a list of actions to its
/// artifact, a webhook to its URL, a command to its key; any other to its component,
/// and to the handlers where it has none. Only a webhook or a command that names
/// nothing to invoke goes nowhere.
pub proof fn lemma_routes(r: Result<Route, String>, a: DispatchAction)
    requires
        is_route(r, a),
    ensures
        ({
            let is_type = |t: Seq<char>| a.action_type matches Some(x) && x@ == t;
            let invokes = is_type("Webhook"@) || is_type("Command"@);
            let has_artifact = is_type("Prompt"@) || is_type("Actions"@);
            &&& (r is Err <==> invokes && a.fn_name is None)
            &&& (r matches Ok(Route::PromptOrActions) <==> has_artifact)
            &&& (is_type("Webhook"@) ==> (a.fn_name matches Some(u) ==> (r matches Ok(
                Route::Webhook(x),
            ) && x@ == u@)))
            &&& (is_type("Command"@) ==> (a.fn_name matches Some(k) ==> (r matches Ok(
                Route::Command(x),
            ) && x@ == k@)))
            &&& (!invokes && !has_artifact ==> (a.bin_name matches Some(b) ==> (r matches Ok(
                Route::Wasm(x),
            ) && x@ == b@)))
            &&& (!invokes && !has_artifact && a.bin_name is None ==> r matches Ok(Route::Handlers))
        }),
{
    reveal_strlit("Webhook");
    reveal_strlit("Command");
    reveal_strlit("Prompt");
    reveal_strlit("Actions");
    assert("Webhook"@.len() == 7 && "Webhook"@[0] == 'W');
    assert("Command"@.len() == 7 && "Command"@[0] == 'C');
    assert("Prompt"@.len() == 6);
    assert("Actions"@.len() == 7 && "Actions"@[0] == 'A');
}

/// A component is looked for under its own name, then among the system's, then among
/// those of the action; and after the third failure, not again.
pub proof fn lemma_three_places(
    r: ArtifactStep,
    entity: Seq<char>,
    bin: Seq<char>,
    errors: Seq<Seq<char>>,
)
    requires
        is_artifact_step(r, entity, bin, errors),
    ensures
        errors.len() == 0 ==> (r matches ArtifactStep::Look(n) && n@ == bin),
        errors.len() == 1 ==> (r matches ArtifactStep::Look(n) && n@ == "system::"@ + bin),
        errors.len() == 2 ==> (r matches ArtifactStep::Look(n) && n@ == "actions::"@ + entity
            + "::"@ + bin),
        errors.len() >= 3 ==> r is Missing,
{
}

/// An artifact that holds data is those bytes, and one that does not is its file. It
/// is neither only where its data is no base64, or where it has no data and no path.
pub proof fn lemma_where_an_artifact_is(
    r: Result<ArtifactSource, String>,
    data: Seq<char>,
    path: Option<Seq<char>>,
    decoded: Result<Seq<u8>, Seq<char>>,
)
    requires
        is_artifact_source(r, data, path, decoded),
    ensures
        !is_blank(data) ==> (decoded matches Ok(b) ==> (r matches Ok(ArtifactSource::Bytes(x)) && x@
            == b)),
        is_blank(data) ==> (path matches Some(p) ==> (r matches Ok(ArtifactSource::File(x)) && x@
            == p)),
        r is Err <==> (if is_blank(data) {
            path is None
        } else {
            decoded is Err
        }),
{
}

/// The bases of an action's links are those that resolved, in their order.
pub proof fn lemma_resolved_bases(links: Seq<Option<String>>, n: nat, u: Seq<char>)
    requires
        n <= links.len(),
    ensures
        resolved_bases(links, n).contains(u) <==> exists|i: int|
            0 <= i < n && (#[trigger] links[i] matches Some(x) && x@ == u),
        n > 0 ==> resolved_bases(links, (n - 1) as nat).is_prefix_of(resolved_bases(links, n)),
    decreases n,
{
    if n > 0 {
        let before = resolved_bases(links, (n - 1) as nat);
        let now = resolved_bases(links, n);
        lemma_resolved_bases(links, (n - 1) as nat, u);
        assert(before =~= now.subrange(0, before.len() as int));
        if before.contains(u) {
            let i = choose|i: int| 0 <= i < before.len() && before[i] == u;
            assert(now[i] == u);
        }
        if now.contains(u) && !before.contains(u) {
            let i = choose|i: int| 0 <= i < now.len() && now[i] == u;
            assert(i >= before.len()) by {
                if i < before.len() {
                    assert(before[i] == u);
                }
            }
            assert(links[n - 1] matches Some(x) && x@ == u);
        }
        if let Some(x) = links[n - 1] {
            if x@ == u {
                assert(now[now.len() - 1] == u);
            }
        }
    }
}

// ── Events ───────────────────────────────────────────────────────────────────

/// The end of an execution is told if and only if it succeeded and events are wanted:
/// once, and a second time of an upload. What is told names the action, what it ran,
/// what it was given and what came of it.
pub proof fn lemma_events_of_an_end(
    r: Seq<Event>,
    entity: Seq<char>,
    fn_name: Option<Seq<char>>,
    params: Json,
    success: bool,
    result: Json,
    execution: Json,
    emit_events: bool,
)
    requires
        are_completion_events(
            r,
            entity,
            fn_name,
            params,
            success,
            result,
            execution,
            emit_events,
        ),
    ensures
        r.len() > 0 <==> emit_events && success,
        r.len() == 2 <==> emit_events && success && fn_name == Some("artifact_upload_file"@),
        r.len() <= 2,
        r.len() > 0 ==> {
            let p = r[0].payload@;
            &&& r[0].name@ == "on_action_completed"@
            &&& p.get_str("action_name"@) == Some(entity)
            &&& p.get("fn_name"@) == Some(
                match fn_name {
                    Some(f) => Json::Str(f),
                    None => Json::Null,
                },
            )
            &&& p.get("params"@) == Some(params)
            &&& p.get("result"@) == Some(execution)
        },
        r.len() == 2 ==> {
            let p = r[1].payload@;
            &&& r[1].name@ == "on_file_upload_completed"@
            &&& p.get_str("action_name"@) == Some(entity)
            &&& p.get("artifact_name"@) == Some(
                match result.get_str("name"@) {
                    Some(f) => Json::Str(f),
                    None => Json::Null,
                },
            )
            &&& p.get("result"@) == Some(execution)
        },
{
    reveal_strlit("action_name");
    reveal_strlit("fn_name");
    reveal_strlit("params");
    reveal_strlit("result");
    reveal_strlit("artifact_name");
    assert("action_name"@.len() == 11);
    assert("fn_name"@.len() == 7);
    assert("params"@.len() == 6 && "params"@[0] == 'p');
    assert("result"@.len() == 6 && "result"@[0] == 'r');
    assert("artifact_name"@.len() == 13);
    let pairs = seq![
        ("action_name"@, Json::Str(entity)),
        ("fn_name"@, json_opt_str(fn_name)),
        ("params"@, params),
        ("result"@, execution),
    ];
    lemma_pair_is_member(pairs, 0);
    lemma_pair_is_member(pairs, 1);
    lemma_pair_is_member(pairs, 2);
    lemma_pair_is_member(pairs, 3);
    let upload = seq![
        ("action_name"@, Json::Str(entity)),
        ("artifact_name"@, json_opt_str(result.get_str("name"@))),
        ("result"@, execution),
    ];
    lemma_pair_is_member(upload, 0);
    lemma_pair_is_member(upload, 1);
    lemma_pair_is_member(upload, 2);
}

// ── Schedules ────────────────────────────────────────────────────────────────

/// A schedule is due if and only if it is enabled and on the timer, has runs left
/// where these are counted, and its next time has come; the time that it was set up
/// for stands in for a next one, and without either it never is.
pub proof fn lemma_when_a_schedule_is_due(s: Schedule, now: i128)
    ensures
        is_due(s, now) <==> {
            &&& s.enabled
            &&& s.event_name@ == "timer"@
            &&& (s.max_runs matches Some(m) ==> s.run_count < m)
            &&& (s.next_run_at is Some || s.trigger_at is Some)
            &&& (s.next_run_at matches Some(t) ==> t <= now)
            &&& (s.next_run_at is None ==> s.trigger_at->0 <= now)
        },
{
}

proof fn lemma_named_artifacts(v: Seq<Json>, n: nat, name: Seq<char>)
    requires
        n <= v.len(),
    ensures
        named_artifacts(v, n).contains(name) <==> exists|i: int|
            0 <= i < n && #[trigger] v[i] == Json::Str(name),
    decreases n,
{
    if n > 0 {
        let before = named_artifacts(v, (n - 1) as nat);
        let now = named_artifacts(v, n);
        lemma_named_artifacts(v, (n - 1) as nat, name);
        if before.contains(name) {
            let i = choose|i: int| 0 <= i < before.len() && before[i] == name;
            assert(now[i] == name);
        }
        if v[n - 1] == Json::Str(name) {
            assert(now[now.len() - 1] == name);
        }
        if now.contains(name) && !before.contains(name) {
            let i = choose|i: int| 0 <= i < now.len() && now[i] == name;
            assert(i >= before.len()) by {
                if i < before.len() {
                    assert(before[i] == name);
                }
            }
            assert(v[n - 1] == Json::Str(name));
        }
    }
}

/// An event triggers a schedule if and only if the schedule is enabled, waits for
/// that event, has runs left, and either waits for no artifact in particular or for
/// one that the event names, alone or in a list.
pub proof fn lemma_when_a_schedule_is_triggered(s: Schedule, event: Seq<char>, payload: Json)
    ensures
        is_triggered(s, event, payload) <==> {
            &&& s.enabled
            &&& s.event_name@ == event
            &&& (s.max_runs matches Some(m) ==> s.run_count < m)
            &&& (s.artifact_names@.len() == 0 || exists|j: int|
                0 <= j < s.artifact_names@.len() && fires(payload, (#[trigger] s.artifact_names@[j])@))
        },
{
    let mine = texts(s.artifact_names@);
    let named = fired_names(payload);
    assert forall|name: Seq<char>| named.contains(name) <==> #[trigger] fires(payload, name) by {
        match payload.get_str("artifact_name"@) {
            Some(n) => {
                assert(named[0] == n);
                if named.contains(name) {
                    assert(named.len() == 1);
                }
            },
            None => {
                if let Some(Json::Array(v)) = payload.get("artifact_names"@) {
                    lemma_named_artifacts(v, v.len(), name);
                }
            },
        }
    }
    if share_a_name(named, mine) {
        let i = choose|i: int| 0 <= i < named.len() && mine.contains(#[trigger] named[i]);
        let j = choose|j: int| 0 <= j < mine.len() && mine[j] == named[i];
        assert(s.artifact_names@[j]@ == named[i]);
        assert(named.contains(named[i]));
        assert(fires(payload, s.artifact_names@[j]@));
    }
    if exists|j: int|
        0 <= j < s.artifact_names@.len() && fires(payload, (#[trigger] s.artifact_names@[j])@) {
        let j = choose|j: int|
            0 <= j < s.artifact_names@.len() && fires(payload, (#[trigger] s.artifact_names@[j])@);
        let name = s.artifact_names@[j]@;
        assert(mine[j] == name);
        assert(named.contains(name));
        let i = choose|i: int| 0 <= i < named.len() && named[i] == name;
        assert(mine.contains(named[i]));
    }
}

/// Whether an event names an artifact: its one artifact, or where it has none, one
/// in its list.
pub open spec fn fires(payload: Json, name: Seq<char>) -> bool {
    match payload.get_str("artifact_name"@) {
        Some(n) => n == name,
        None => payload.get("artifact_names"@) matches Some(Json::Array(v)) && exists|i: int|
            0 <= i < v.len() && #[trigger] v[i] == Json::Str(name),
    }
}

proof fn lemma_chosen_in_order(pick: Seq<bool>, n: nat)
    requires
        n <= pick.len(),
    ensures
        forall|i: int, j: int|
            0 <= i < j < chosen(pick, n).len() ==> #[trigger] chosen(pick, n)[i] < #[trigger] chosen(
                pick,
                n,
            )[j],
    decreases n,
{
    if n > 0 {
        let before = chosen(pick, (n - 1) as nat);
        let now = chosen(pick, n);
        lemma_chosen_in_order(pick, (n - 1) as nat);
        lemma_chosen(pick, (n - 1) as nat);
        assert forall|i: int, j: int| 0 <= i < j < now.len() implies #[trigger] now[i]
            < #[trigger] now[j] by {
            assert(now[i] == before[i]);
            if j < before.len() {
                assert(now[j] == before[j]);
            }
        }
    }
}

/// Whether these invocations are of the schedules that some flags pick: one of each
/// picked, in their order, and of no other.
pub open spec fn runs_the_picked(
    r: Seq<ScheduleInvocation>,
    schedules: Seq<Schedule>,
    picked: spec_fn(int) -> bool,
) -> bool {
    &&& forall|k: int|
        0 <= k < r.len() ==> {
            let i = (#[trigger] r[k]).schedule as int;
            0 <= i < schedules.len() && picked(i) && r[k].action_name@ == schedules[i].action_name@
                && r[k].schedule_name@ == schedules[i].name@
        }
    &&& forall|i: int|
        0 <= i < schedules.len() && #[trigger] picked(i) ==> exists|k: int|
            0 <= k < r.len() && (#[trigger] r[k]).schedule == i
    &&& forall|j: int, k: int|
        0 <= j < k < r.len() ==> (#[trigger] r[j]).schedule < (#[trigger] r[k]).schedule
}

proof fn lemma_runs_the_picked(
    r: Seq<ScheduleInvocation>,
    schedules: Seq<Schedule>,
    pick: Seq<bool>,
    event: Seq<char>,
    payload: Json,
)
    requires
        pick.len() == schedules.len(),
        are_invocations(r, schedules, chosen(pick, schedules.len()), event, payload),
    ensures
        runs_the_picked(r, schedules, |i: int| pick[i]),
{
    let places = chosen(pick, schedules.len());
    let picked = |i: int| pick[i];
    lemma_chosen(pick, schedules.len());
    lemma_chosen_in_order(pick, schedules.len());
    assert forall|k: int| 0 <= k < r.len() implies {
        let i = (#[trigger] r[k]).schedule as int;
        0 <= i < schedules.len() && picked(i) && r[k].action_name@ == schedules[i].action_name@
            && r[k].schedule_name@ == schedules[i].name@
    } by {
        assert(is_invocation(r[k], schedules, places[k], event, payload));
    }
    assert forall|i: int| 0 <= i < schedules.len() && #[trigger] picked(i) implies exists|k: int|
        0 <= k < r.len() && (#[trigger] r[k]).schedule == i by {
        assert(places.contains(i));
        let k = choose|k: int| 0 <= k < places.len() && places[k] == i;
        assert(is_invocation(r[k], schedules, places[k], event, payload));
    }
    assert forall|j: int, k: int| 0 <= j < k < r.len() implies (#[trigger] r[j]).schedule < (
    #[trigger] r[k]).schedule by {
        assert(is_invocation(r[j], schedules, places[j], event, payload));
        assert(is_invocation(r[k], schedules, places[k], event, payload));
        assert(places[j] < places[k]);
    }
}

/// The timer runs the action of every schedule that is due, once, in the order of the
/// schedules, and no other.
pub proof fn lemma_the_timer_runs_what_is_due(
    r: Seq<ScheduleInvocation>,
    schedules: Seq<Schedule>,
    now: i128,
)
    requires
        are_invocations(
            r,
            schedules,
            chosen(due_flags(schedules, now), schedules.len()),
            "timer"@,
            Json::Null,
        ),
    ensures
        runs_the_picked(r, schedules, |i: int| is_due(schedules[i], now)),
{
    let pick = due_flags(schedules, now);
    lemma_runs_the_picked(r, schedules, pick, "timer"@, Json::Null);
    let a = |i: int| pick[i];
    let b = |i: int| is_due(schedules[i], now);
    assert forall|k: int| 0 <= k < r.len() implies b((#[trigger] r[k]).schedule as int) by {
        assert(a(r[k].schedule as int));
    }
    assert forall|i: int| 0 <= i < schedules.len() && #[trigger] b(i) implies exists|k: int|
        0 <= k < r.len() && (#[trigger] r[k]).schedule == i by {
        assert(a(i));
    }
}

/// An event runs the action of every schedule that it triggers, once, in the order of
/// the schedules, and no other.
pub proof fn lemma_an_event_runs_what_it_triggers(
    r: Seq<ScheduleInvocation>,
    schedules: Seq<Schedule>,
    event: Seq<char>,
    payload: Json,
)
    requires
        are_invocations(
            r,
            schedules,
            chosen(triggered_flags(schedules, event, payload), schedules.len()),
            event,
            payload,
        ),
    ensures
        runs_the_picked(r, schedules, |i: int| is_triggered(schedules[i], event, payload)),
{
    let pick = triggered_flags(schedules, event, payload);
    lemma_runs_the_picked(r, schedules, pick, event, payload);
    let a = |i: int| pick[i];
    let b = |i: int| is_triggered(schedules[i], event, payload);
    assert forall|k: int| 0 <= k < r.len() implies b((#[trigger] r[k]).schedule as int) by {
        assert(a(r[k].schedule as int));
    }
    assert forall|i: int| 0 <= i < schedules.len() && #[trigger] b(i) implies exists|k: int|
        0 <= k < r.len() && (#[trigger] r[k]).schedule == i by {
        assert(a(i));
    }
}

/// What a scheduled action is told: which schedule runs it, on what event and with
/// which payload of the event, and the schedule's own payload.
pub proof fn lemma_what_a_scheduled_action_is_told(s: Schedule, event: Seq<char>, payload: Json)
    ensures
        ({
            let told = invocation_payload(s, event, payload);
            &&& told.get_str("schedule"@) == Some(s.name@)
            &&& told.get("payload"@) == Some(s.payload@)
            &&& told.field("event"@).get_str("name"@) == Some(event)
            &&& told.field("event"@).get("payload"@) == Some(payload)
        }),
{
    reveal_strlit("name");
    reveal_strlit("payload");
    reveal_strlit("schedule");
    reveal_strlit("event");
    assert("name"@.len() == 4);
    assert("payload"@.len() == 7);
    assert("schedule"@.len() == 8);
    assert("event"@.len() == 5);
    let pairs = seq![
        ("name"@, Json::Str(event)),
        ("payload"@, payload),
    ];
    lemma_pair_is_member(pairs, 0);
    lemma_pair_is_member(pairs, 1);
    let outer = seq![
        ("schedule"@, Json::Str(s.name@)),
        ("event"@, object_of(pairs)),
        ("payload"@, s.payload@),
    ];
    lemma_pair_is_member(outer, 0);
    lemma_pair_is_member(outer, 1);
    lemma_pair_is_member(outer, 2);
}

// ── Prompts ──────────────────────────────────────────────────────────────────

/// What an action with an artifact does is by its type, and it needs its artifact.
pub proof fn lemma_artifact_actions(
    r: Result<(ArtifactAction, String), String>,
    action_type: Option<Seq<char>>,
    bin_name: Option<Seq<char>>,
)
    requires
        is_artifact_action(r, action_type, bin_name),
    ensures
        r is Ok <==> (action_type == Some("Prompt"@) || action_type == Some("Actions"@)) && bin_name
            is Some,
        r matches Ok((k, b)) ==> Some(b@) == bin_name && (k is Prompt <==> action_type == Some(
            "Prompt"@,
        )) && (k is Actions <==> action_type == Some("Actions"@)),
{
    reveal_strlit("Prompt");
    reveal_strlit("Actions");
    assert("Prompt"@.len() == 6);
    assert("Actions"@.len() == 7);
}

/// A message that names a prompt file is answered with the prompt that overrides it:
/// of an artifact that is a JSON object the string under that name, and of any other
/// the whole text. Any other message executes the text as an instruction, one that
/// may not destroy anything.
pub proof fn lemma_prompts(
    r: PromptStep,
    entity: Seq<char>,
    text: Seq<char>,
    parsed: Option<Json>,
    message: Json,
)
    requires
        is_prompt_step(r, entity, text, parsed, message),
    ensures
        message.get_str("prompt_file"@) is None <==> r is Instruct,
        r matches PromptStep::Instruct(v) ==> {
            &&& v@.get_str("instruction"@) == Some(text)
            &&& v@.get_bool("allow_destructive"@) == Some(false)
            &&& v@.get("session_name"@) == Some(Json::Null)
        },
        r matches PromptStep::Override(d) ==> {
            let file = message.get_str("prompt_file"@)->0;
            &&& d@.action_name == entity
            &&& d@.success
            &&& d@.message is None
            &&& d@.result.get_str("prompt_file"@) == Some(file)
            &&& (parsed matches Some(Json::Object(m)) ==> d@.result.get_str("prompt"@)
                == Json::Object(m).get_str(file))
            &&& (!(parsed matches Some(Json::Object(_))) ==> d@.result.get_str("prompt"@) == Some(
                text,
            ))
        },
{
    reveal_strlit("instruction");
    reveal_strlit("session_name");
    reveal_strlit("allow_destructive");
    reveal_strlit("prompt");
    reveal_strlit("prompt_file");
    assert("instruction"@.len() == 11 && "instruction"@[0] == 'i');
    assert("session_name"@.len() == 12);
    assert("allow_destructive"@.len() == 17);
    assert("prompt"@.len() == 6);
    assert("prompt_file"@.len() == 11 && "prompt_file"@[0] == 'p');
    let pairs = seq![
        ("instruction"@, Json::Str(text)),
        ("session_name"@, Json::Null),
        ("allow_destructive"@, Json::Bool(false)),
    ];
    lemma_pair_is_member(pairs, 0);
    lemma_pair_is_member(pairs, 1);
    lemma_pair_is_member(pairs, 2);
    if let Some(file) = message.get_str("prompt_file"@) {
        match override_text(parsed, text, file) {
            Some(p) => {
                let both = seq![("prompt"@, Json::Str(p)), ("prompt_file"@, Json::Str(file))];
                lemma_pair_is_member(both, 0);
                lemma_pair_is_member(both, 1);
            },
            None => {
                let one = seq![("prompt_file"@, Json::Str(file))];
                lemma_pair_is_member(one, 0);
                lemma_no_pair_no_member(one, "prompt"@);
            },
        }
    }
}

// ── Commands ─────────────────────────────────────────────────────────────────

/// How a dispatched command runs: the registered text in the shell of the system,
/// with the parameters as JSON and the log directory in its environment.
pub proof fn lemma_how_a_command_runs(
    r: CommandRun,
    windows: bool,
    command: Seq<char>,
    params: Json,
    log_dir: Seq<char>,
    cwd: Option<Seq<char>>,
)
    requires
        is_command_run(r, windows, command, params, log_dir, cwd),
    ensures
        r.command@ == command,
        windows ==> r.shell@ == "cmd.exe"@ && r.flag@ == "/C"@,
        !windows ==> r.shell@ == "sh"@ && r.flag@ == "-c"@,
        r.env@.len() == 2,
        exists|i: int|
            0 <= i < r.env@.len() && (#[trigger] r.env@[i]).0@ == "SOL_PARAMS"@ && r.env@[i].1@
                == json_text(params),
        exists|i: int|
            0 <= i < r.env@.len() && (#[trigger] r.env@[i]).0@ == "SOL_LOG_DIR"@ && r.env@[i].1@
                == log_dir,
        cwd matches Some(d) ==> (r.cwd matches Some(x) && x@ == d),
        cwd is None ==> r.cwd is None,
{
    assert(r.env@[0].0@ == "SOL_PARAMS"@);
    assert(r.env@[1].0@ == "SOL_LOG_DIR"@);
}

/// A dispatched command runs in the directory that the action's config names, else in
/// the one that it is registered with, and in the application's only where neither
/// names one.
pub proof fn lemma_where_a_dispatched_command_runs(
    config_cwd: Option<Seq<char>>,
    registered: Option<Seq<char>>,
    appdata: Seq<char>,
)
    ensures
        config_cwd matches Some(d) ==> run_dir(config_cwd, registered, appdata) == d,
        config_cwd is None ==> (registered matches Some(d) ==> run_dir(
            config_cwd,
            registered,
            appdata,
        ) == d),
        config_cwd is None && registered is None ==> run_dir(config_cwd, registered, appdata)
            == appdata,
{
}

/// What a command's end comes to: its standard output as JSON where it is that, else
/// both outputs and the exit code; success if and only if the command succeeded, and
/// a message if and only if it did not.
pub proof fn lemma_what_a_command_comes_to(
    action_name: Seq<char>,
    parsed: Option<Json>,
    stdout: Seq<char>,
    stderr: Seq<char>,
    output: CommandOutput,
)
    ensures
        ({
            let d = command_record(action_name, parsed, stdout, stderr, output);
            &&& d.action_name == action_name
            &&& d.success == output.success
            &&& (d.message is None <==> output.success)
            &&& (parsed matches Some(v) ==> d.result == v)
            &&& (parsed is None ==> d.result.get_str("stdout"@) == Some(stdout)
                && d.result.get_str("stderr"@) == Some(stderr) && d.result.get("exit_code"@)
                == Some(
                match output.exit_code {
                    Some(c) => crate::json::json_int(c as i64),
                    None => Json::Null,
                },
            ))
            &&& (!output.success && stderr.len() > 0 ==> d.message == Some(stderr))
            &&& (!output.success && stderr.len() == 0 ==> (d.result.get_str("error"@) matches Some(
                e,
            ) ==> d.message == Some(e)))
        }),
{
    reveal_strlit("stdout");
    reveal_strlit("stderr");
    reveal_strlit("exit_code");
    assert("stdout"@.len() == 6 && "stdout"@[3] == 'o');
    assert("stderr"@.len() == 6 && "stderr"@[3] == 'e');
    assert("exit_code"@.len() == 9);
    let pairs = seq![
        ("stdout"@, Json::Str(stdout)),
        ("stderr"@, Json::Str(stderr)),
        ("exit_code"@, code_json(output.exit_code)),
    ];
    lemma_pair_is_member(pairs, 0);
    lemma_pair_is_member(pairs, 1);
    lemma_pair_is_member(pairs, 2);
}

/// What a failed command reports: under `error` before `message`, its own before its
/// response's.
pub proof fn lemma_reported_errors(v: Json)
    ensures
        v.get_str("error"@) is Some ==> reported_error(v) == v.get_str("error"@),
        v.get_str("error"@) is None && v.get_str("message"@) is Some ==> reported_error(v)
            == v.get_str("message"@),
        v.get_str("error"@) is None && v.get_str("message"@) is None && v.field(
            "response"@,
        ).get_str("error"@) is Some ==> reported_error(v) == v.field("response"@).get_str(
            "error"@,
        ),
        v.get_str("error"@) is None && v.get_str("message"@) is None && v.field(
            "response"@,
        ).get_str("error"@) is None ==> reported_error(v) == v.field("response"@).get_str(
            "message"@,
        ),
{
}

/// What a command logs: when, which action, and whether it succeeded.
pub proof fn lemma_what_commands_log(
    r: Seq<char>,
    timestamp: Seq<char>,
    action_name: Seq<char>,
    success: bool,
    duration_ms: u64,
    exit_code: Option<i32>,
    stdout: Seq<char>,
    stderr: Seq<char>,
)
    requires
        is_log_line(
            r,
            timestamp,
            action_name,
            success,
            duration_ms,
            exit_code,
            stdout,
            stderr,
        ),
    ensures
        success ==> ("ts="@ + timestamp + " action="@ + action_name + " status="@ + "ok"@
            + " duration_ms="@ + decimal(duration_ms as nat) + " exit_code="@).is_prefix_of(r),
        !success ==> ("ts="@ + timestamp + " action="@ + action_name + " status="@ + "failed"@
            + " duration_ms="@ + decimal(duration_ms as nat) + " exit_code="@).is_prefix_of(r),
{
    let head = "ts="@ + timestamp + " action="@ + action_name + " status="@ + (if success {
        "ok"@
    } else {
        "failed"@
    }) + " duration_ms="@ + decimal(duration_ms as nat) + " exit_code="@;
    assert(r.subrange(0, head.len() as int) =~= head);
}

/// Milliseconds are written with three digits.
pub proof fn lemma_milliseconds(ms: nat)
    requires
        ms < 1000,
    ensures
        three_digits(ms).len() == 3,
        digits_value(three_digits(ms)) == ms,
{
    reveal_with_fuel(decimal, 4);
    reveal_with_fuel(digits_value, 5);
    reveal_strlit("00");
    reveal_strlit("0");
    reveal_strlit("");
    crate::laws::texts::lemma_decimal(ms);
    let t = three_digits(ms);
    if ms < 10 {
        assert(t =~= seq!['0', '0', crate::text::digit(ms)]);
        assert(t.drop_last() =~= seq!['0', '0']);
        assert(seq!['0', '0'].drop_last() =~= seq!['0']);
        assert(seq!['0'].drop_last() =~= Seq::<char>::empty());
        assert(digits_value(seq!['0']) == 0);
        assert(digits_value(seq!['0', '0']) == 0);
    } else if ms < 100 {
        let d = decimal(ms);
        assert(d =~= seq![crate::text::digit(ms / 10), crate::text::digit(ms % 10)]);
        assert(t =~= seq!['0'] + d);
        assert(t.drop_last() =~= seq!['0', d[0]]);
        assert(t.drop_last().drop_last() =~= seq!['0']);
        assert(seq!['0'].drop_last() =~= Seq::<char>::empty());
        assert(digits_value(seq!['0']) == 0);
        assert(digits_value(t.drop_last()) == ms / 10);
    } else {
        assert(t =~= decimal(ms));
        assert(decimal(ms / 10).len() == 2);
    }
}

/// A list of actions is what its artifact parses to, and an artifact that is no text
/// or no JSON is refused.
pub proof fn lemma_lists_of_actions<F: FnOnce(&str) -> Result<Value, String>>(
    r: Result<Value, String>,
    bytes: Seq<u8>,
    parse: F,
)
    requires
        is_actions_value(r, bytes, parse),
    ensures
        !valid_utf8(bytes) ==> r is Err,
        valid_utf8(bytes) ==> exists|s: &str, o: Result<Value, String>|
            {
                &&& s@ == decode_utf8(bytes)
                &&& #[trigger] call_ensures(parse, (s,), o)
                &&& (o is Ok <==> r is Ok)
                &&& (o matches Ok(v) ==> (r matches Ok(x) && x@ == v@))
            },
{
}

} // verus!
