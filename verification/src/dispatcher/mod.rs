//! The dispatch of named actions: what each type of action asks for, the
//! handlers that take the rest, and the schedules that start actions.

use vstd::prelude::*;
use vstd::string::*;

use crate::encoding::{base64_decoded, decode_base64};
use crate::json::{object_of, pairs_view};
use crate::text::{blank, cat2, cat3, cat7, debug_opt, is_blank, opt_string, opt_text, quoted_opt, same};
use crate::text::texts;
use crate::value::{items, Json, Value};

pub mod actions;
pub mod commands;
pub mod webhooks;

verus! {

broadcast use crate::value::group_value_views;

/// What dispatching an action came to.
#[derive(Debug)]
pub struct DispatchResult {
    pub action_name: String,
    pub result: Value,
    pub success: bool,
    pub message: Option<String>,
    pub trace: Vec<Value>,
}

/// What dispatching an action came to, as mathematics.
#[verifier::ext_equal]
pub struct DispatchRecord {
    pub action_name: Seq<char>,
    pub result: Json,
    pub success: bool,
    pub message: Option<Seq<char>>,
    pub trace: Seq<Json>,
}

impl DispatchResult {
    pub open spec fn view(&self) -> DispatchRecord {
        DispatchRecord {
            action_name: self.action_name@,
            result: self.result@,
            success: self.success,
            message: opt_string(self.message),
            trace: items(self.trace@),
        }
    }
}

// ── Handlers ─────────────────────────────────────────────────────────────────

/// What a handler that is asked about an action answers: nothing where the
/// action is not its own.
pub type Handled = Option<Result<DispatchResult, String>>;

/// A handler of the registry. A native one is asked about the operation and the
/// message, a borrowing one also learns which action called.
pub enum HandlerEntry<N, B> {
    Native { handle: N },
    Borrowing { handle: B },
}

/// The handlers, in the order in which they are asked.
pub struct HandlerRegistry<N, B> {
    entries: Vec<HandlerEntry<N, B>>,
}

/// Whether a handler may be asked about an operation.
pub open spec fn may_ask<
    N: Fn(Option<&str>, &Value) -> Handled,
    B: Fn(Option<&str>, &Value, Option<&str>) -> Handled,
>(e: HandlerEntry<N, B>, fn_name: Option<&str>, message: &Value, caller: Option<&str>) -> bool {
    match e {
        HandlerEntry::Native { handle } => call_requires(handle, (fn_name, message)),
        HandlerEntry::Borrowing { handle } => call_requires(handle, (fn_name, message, caller)),
    }
}

/// Whether a handler may answer so about an operation.
pub open spec fn may_answer<
    N: Fn(Option<&str>, &Value) -> Handled,
    B: Fn(Option<&str>, &Value, Option<&str>) -> Handled,
>(
    e: HandlerEntry<N, B>,
    fn_name: Option<&str>,
    message: &Value,
    caller: Option<&str>,
    answer: Handled,
) -> bool {
    match e {
        HandlerEntry::Native { handle } => call_ensures(handle, (fn_name, message), answer),
        HandlerEntry::Borrowing { handle } => call_ensures(
            handle,
            (fn_name, message, caller),
            answer,
        ),
    }
}

impl<
    N: Fn(Option<&str>, &Value) -> Handled,
    B: Fn(Option<&str>, &Value, Option<&str>) -> Handled,
> HandlerRegistry<N, B> {
    pub closed spec fn view(&self) -> Seq<HandlerEntry<N, B>> {
        self.entries@
    }

    pub fn new() -> (r: Self)
        ensures
            r@ == Seq::<HandlerEntry<N, B>>::empty(),
    {
        HandlerRegistry { entries: Vec::new() }
    }

    /// Add a handler that is asked after those that are there.
    pub fn push_native(&mut self, handle: N)
        ensures
            final(self)@ == old(self)@.push(HandlerEntry::Native { handle }),
    {
        self.entries.push(HandlerEntry::Native { handle });
    }

    /// Add a handler that also learns which action called.
    pub fn push_borrowing(&mut self, handle: B)
        ensures
            final(self)@ == old(self)@.push(HandlerEntry::Borrowing { handle }),
    {
        self.entries.push(HandlerEntry::Borrowing { handle });
    }

    /// Ask the handlers in order; the first that answers has the last word, and
    /// none behind it is asked.
    pub fn try_execute(&self, fn_name: Option<&str>, message: &Value, caller: Option<&str>) -> (r:
        Handled)
        requires
            forall|i: int|
                0 <= i < self@.len() && all_decline(*self, i, fn_name, message, caller) ==> may_ask(
                    #[trigger] self@[i],
                    fn_name,
                    message,
                    caller,
                ),
        ensures
            match r {
                Some(_) => exists|i: int|
                    0 <= i < self@.len() && may_answer(
                        #[trigger] self@[i],
                        fn_name,
                        message,
                        caller,
                        r,
                    ) && all_decline(*self, i, fn_name, message, caller),
                None => all_decline(*self, self@.len() as int, fn_name, message, caller),
            },
    {
        let mut i: usize = 0;
        while i < self.entries.len()
            invariant
                i <= self.entries.len(),
                self@ == self.entries@,
                forall|j: int|
                    0 <= j < self@.len() && all_decline(*self, j, fn_name, message, caller)
                        ==> may_ask(#[trigger] self@[j], fn_name, message, caller),
                all_decline(*self, i as int, fn_name, message, caller),
            decreases self.entries.len() - i,
        {
            assert(may_ask(self@[i as int], fn_name, message, caller));
            let outcome = match &self.entries[i] {
                HandlerEntry::Native { handle } => handle(fn_name, message),
                HandlerEntry::Borrowing { handle } => handle(fn_name, message, caller),
            };
            assert(may_answer(self@[i as int], fn_name, message, caller, outcome));
            if outcome.is_some() {
                return outcome;
            }
            i += 1;
        }
        None
    }
}

/// Whether each of the first `n` handlers may decline an operation.
pub open spec fn all_decline<
    N: Fn(Option<&str>, &Value) -> Handled,
    B: Fn(Option<&str>, &Value, Option<&str>) -> Handled,
>(
    registry: HandlerRegistry<N, B>,
    n: int,
    fn_name: Option<&str>,
    message: &Value,
    caller: Option<&str>,
) -> bool {
    forall|j: int|
        0 <= j < n ==> may_answer(#[trigger] registry@[j], fn_name, message, caller, None)
}

// ── Routes ───────────────────────────────────────────────────────────────────

/// What is dispatched: the parts of an action that decide how.
#[derive(Debug)]
pub struct DispatchAction {
    pub name: String,
    pub action_type: Option<String>,
    pub fn_name: Option<String>,
    pub bin_name: Option<String>,
}

/// Where an action goes.
#[derive(Debug)]
pub enum Route {
    /// To the artifact of a prompt or script action.
    PromptOrActions,
    /// To a webhook with this URL.
    Webhook(String),
    /// To the command that is registered under this key.
    Command(String),
    /// To the component of this name.
    Wasm(String),
    /// To the registered handlers.
    Handlers,
}

/// Whether a decision is where an action goes. Its type decides; an action of
/// any other type goes to its component, or to the handlers where it has none.
pub open spec fn is_route(r: Result<Route, String>, a: DispatchAction) -> bool {
    let t = opt_string(a.action_type);
    if t == Some("Prompt"@) || t == Some("Actions"@) {
        r matches Ok(Route::PromptOrActions)
    } else if t == Some("Webhook"@) {
        match a.fn_name {
            Some(u) => r matches Ok(Route::Webhook(x)) && x@ == u@,
            None => r is Err && r->Err_0@
                == "Webhook action requires invoke_resource (fn_name) to be a URL"@,
        }
    } else if t == Some("Command"@) {
        match a.fn_name {
            Some(k) => r matches Ok(Route::Command(x)) && x@ == k@,
            None => r is Err && r->Err_0@
                == "Command action requires invoke_resource (fn_name) to be a command key"@,
        }
    } else {
        match a.bin_name {
            Some(b) => r matches Ok(Route::Wasm(x)) && x@ == b@,
            None => r matches Ok(Route::Handlers),
        }
    }
}

/// Decide where an action goes.
pub fn execute_action_once(action: &DispatchAction) -> (r: Result<Route, String>)
    ensures
        is_route(r, *action),
{
    if let Some(t) = &action.action_type {
        let t = t.as_str();
        proof {
            reveal_strlit("Prompt");
            reveal_strlit("Actions");
            reveal_strlit("Webhook");
            reveal_strlit("Command");
            assert("Prompt"@[0] == 'P' && "Actions"@[0] == 'A' && "Webhook"@[0] == 'W'
                && "Command"@[0] == 'C');
        }
        if same(t, "Prompt") || same(t, "Actions") {
            return Ok(Route::PromptOrActions);
        }
        if same(t, "Webhook") {
            return match &action.fn_name {
                Some(u) => Ok(Route::Webhook(u.clone())),
                None => Err(
                    "Webhook action requires invoke_resource (fn_name) to be a URL".to_owned(),
                ),
            };
        }
        if same(t, "Command") {
            return match &action.fn_name {
                Some(k) => Ok(Route::Command(k.clone())),
                None => Err(
                    "Command action requires invoke_resource (fn_name) to be a command key".to_owned(),
                ),
            };
        }
    }
    match &action.bin_name {
        Some(b) => Ok(Route::Wasm(b.clone())),
        None => Ok(Route::Handlers),
    }
}

/// What is said where the schema of the parameters cannot be loaded.
pub fn schema_not_loaded(schema: &str, error: &str) -> (r: String)
    ensures
        r@ == "could not load parameter schema for type '"@ + schema@ + "': "@ + error@,
{
    crate::text::cat4("could not load parameter schema for type '", schema, "': ", error)
}

/// What is said of an action that no handler takes.
pub fn no_handler(action: &DispatchAction) -> (r: String)
    ensures
        r@ == "action '"@ + action.name@ + "' has no registered handler (bin_name="@ + debug_opt(
            opt_string(action.bin_name),
        ) + ", fn_name="@ + debug_opt(opt_string(action.fn_name)) + ")"@,
{
    let bin = quoted_opt(
        match &action.bin_name {
            Some(s) => Some(s.as_str()),
            None => None,
        },
    );
    let f = quoted_opt(
        match &action.fn_name {
            Some(s) => Some(s.as_str()),
            None => None,
        },
    );
    cat7(
        "action '",
        action.name.as_str(),
        "' has no registered handler (bin_name=",
        bin.as_str(),
        ", fn_name=",
        f.as_str(),
        ")",
    )
}

/// What the handlers' answer about an action comes to.
pub fn handled_or_refused(action: &DispatchAction, handled: Handled) -> (r: Result<
    DispatchResult,
    String,
>)
    ensures
        match handled {
            Some(x) => r == x,
            None => r is Err && r->Err_0@ == "action '"@ + action.name@
                + "' has no registered handler (bin_name="@ + debug_opt(opt_string(action.bin_name))
                + ", fn_name="@ + debug_opt(opt_string(action.fn_name)) + ")"@,
        },
{
    match handled {
        Some(x) => x,
        None => Err(no_handler(action)),
    }
}

// ── Artifacts ────────────────────────────────────────────────────────────────

/// What finding the component of an action asks of the caller.
#[derive(Debug)]
pub enum ArtifactStep {
    /// Look for the artifact of this name.
    Look(String),
    /// Give up, for this reason.
    Missing(String),
}

/// The names under which the component of an action is looked for: its own, the
/// system's, and that of the action.
pub open spec fn artifact_name(entity: Seq<char>, bin: Seq<char>, i: int) -> Seq<char> {
    if i == 0 {
        bin
    } else if i == 1 {
        "system::"@ + bin
    } else {
        "actions::"@ + entity + "::"@ + bin
    }
}

pub open spec fn artifact_missing(bin: Seq<char>, errors: Seq<Seq<char>>) -> Seq<char> {
    "failed to load WASM artifact '"@ + bin + "' ("@ + errors[0] + "; system fallback: "@
        + errors[1] + ("; action fallback: "@ + errors[2] + ")"@)
}

/// Whether this is where to look for a component next, after so many failures: in
/// three places, and then no more.
pub open spec fn is_artifact_step(
    r: ArtifactStep,
    entity: Seq<char>,
    bin: Seq<char>,
    errors: Seq<Seq<char>>,
) -> bool {
    if errors.len() < 3 {
        r matches ArtifactStep::Look(n) && n@ == artifact_name(entity, bin, errors.len() as int)
    } else {
        r matches ArtifactStep::Missing(e) && e@ == artifact_missing(bin, errors)
    }
}

/// Where to look next for the component of an action, after the errors that the
/// names before it met.
pub fn next_artifact(entity_name: &str, bin_name: &str, errors: &Vec<String>) -> (r: ArtifactStep)
    requires
        errors.len() <= 3,
    ensures
        is_artifact_step(r, entity_name@, bin_name@, texts(errors@)),
{
    let n: usize = errors.len();
    if n == 0 {
        ArtifactStep::Look(bin_name.to_owned())
    } else if n == 1 {
        ArtifactStep::Look(cat2("system::", bin_name))
    } else if n == 2 {
        ArtifactStep::Look(crate::text::cat4("actions::", entity_name, "::", bin_name))
    } else {
        let tail = cat3("; action fallback: ", errors[2].as_str(), ")");
        ArtifactStep::Missing(
            cat7(
                "failed to load WASM artifact '",
                bin_name,
                "' (",
                errors[0].as_str(),
                "; system fallback: ",
                errors[1].as_str(),
                tail.as_str(),
            ),
        )
    }
}

/// Where the bytes of an artifact are.
#[derive(Debug)]
pub enum ArtifactSource {
    /// Here.
    Bytes(Vec<u8>),
    /// In the file at this path.
    File(String),
}

/// Whether this is where the bytes of an artifact are: in its data, where it has
/// any, else in its file.
pub open spec fn is_artifact_source(
    r: Result<ArtifactSource, String>,
    data: Seq<char>,
    path: Option<Seq<char>>,
    decoded: Result<Seq<u8>, Seq<char>>,
) -> bool {
    if !is_blank(data) {
        match decoded {
            Ok(b) => r matches Ok(ArtifactSource::Bytes(x)) && x@ == b,
            Err(e) => r is Err && r->Err_0@ == "artifact data is not valid base64: "@ + e,
        }
    } else {
        match path {
            Some(p) => r matches Ok(ArtifactSource::File(x)) && x@ == p,
            None => r is Err && r->Err_0@ == "artifact has neither data nor path"@,
        }
    }
}

/// Where the bytes of an artifact are: in its data, which is base64, or in the
/// file that it names where it has no data.
pub fn load_artifact_bytes_from_entity(data: &str, path: Option<&str>) -> (r: Result<
    ArtifactSource,
    String,
>)
    ensures
        is_artifact_source(r, data@, opt_text(path), base64_decoded(data@)),
{
    if !blank(data) {
        return match decode_base64(data) {
            Ok(b) => Ok(ArtifactSource::Bytes(b)),
            Err(e) => Err(cat2("artifact data is not valid base64: ", e.as_str())),
        };
    }
    match path {
        Some(p) => Ok(ArtifactSource::File(p.to_owned())),
        None => Err("artifact has neither data nor path".to_owned()),
    }
}

/// What is said of an artifact file that cannot be read.
pub fn artifact_unreadable(path: &str, error: &str) -> (r: String)
    ensures
        r@ == "failed to read artifact path '"@ + path@ + "': "@ + error@,
{
    crate::text::cat4("failed to read artifact path '", path, "': ", error)
}

/// The prefixes among the first `n` links that resolved; a link without a name
/// or without an entity gives none.
pub open spec fn resolved_bases(links: Seq<Option<String>>, n: nat) -> Seq<Seq<char>>
    decreases n,
{
    if n == 0 || n > links.len() {
        Seq::empty()
    } else {
        match links[n - 1] {
            Some(u) => resolved_bases(links, (n - 1) as nat).push(u@),
            None => resolved_bases(links, (n - 1) as nat),
        }
    }
}

/// The base URLs that the links of an action grant it. Failures are no errors:
/// a link that does not resolve grants nothing, and where the links cannot be
/// listed at all there are none.
pub fn collect_action_link_bases(links: Option<Vec<Option<String>>>) -> (r: Vec<String>)
    ensures
        texts(r@) == (match links {
            Some(l) => resolved_bases(l@, l@.len()),
            None => Seq::empty(),
        }),
{
    let mut out: Vec<String> = Vec::new();
    assert(texts(out@) =~= Seq::<Seq<char>>::empty());
    if let Some(l) = &links {
        let mut i: usize = 0;
        while i < l.len()
            invariant
                i <= l.len(),
                texts(out@) == resolved_bases(l@, i as nat),
            decreases l.len() - i,
        {
            if let Some(u) = &l[i] {
                let ghost before = texts(out@);
                out.push(u.clone());
                assert(texts(out@) =~= before.push(u@));
            }
            i += 1;
        }
    }
    out
}

// ── Events and schedules ─────────────────────────────────────────────────────

/// An event that schedules may wait for.
#[derive(Debug)]
pub struct Event {
    pub name: &'static str,
    pub payload: Value,
}

pub open spec fn completed_payload(
    entity: Seq<char>,
    fn_name: Option<Seq<char>>,
    params: Json,
    execution: Json,
) -> Json {
    object_of(
        seq![
            ("action_name"@, Json::Str(entity)),
            ("fn_name"@, crate::json::json_opt_str(fn_name)),
            ("params"@, params),
            ("result"@, execution),
        ],
    )
}

pub open spec fn upload_payload(entity: Seq<char>, artifact: Option<Seq<char>>, execution: Json) -> Json {
    object_of(
        seq![
            ("action_name"@, Json::Str(entity)),
            ("artifact_name"@, crate::json::json_opt_str(artifact)),
            ("result"@, execution),
        ],
    )
}

/// Whether these are the events of an execution that has ended: none where it failed
/// or no events are wanted, else that it completed, and of an upload also that.
pub open spec fn are_completion_events(
    r: Seq<Event>,
    entity: Seq<char>,
    fn_name: Option<Seq<char>>,
    params: Json,
    success: bool,
    result: Json,
    execution: Json,
    emit_events: bool,
) -> bool {
    &&& !(emit_events && success) ==> r.len() == 0
    &&& emit_events && success ==> {
        &&& r.len() == (if fn_name == Some("artifact_upload_file"@) {
            2nat
        } else {
            1nat
        })
        &&& r[0].name@ == "on_action_completed"@
        &&& r[0].payload@ == completed_payload(entity, fn_name, params, execution)
        &&& (fn_name == Some("artifact_upload_file"@) ==> r[1].name@
            == "on_file_upload_completed"@ && r[1].payload@ == upload_payload(
            entity,
            result.get_str("name"@),
            execution,
        ))
    }
}

/// The events that the execution of an action fires: one for its completion,
/// and one more for a file upload. An execution that failed fires none.
pub fn completion_events(
    entity_name: &str,
    fn_name: Option<&str>,
    params: &Value,
    success: bool,
    result: &Value,
    execution: &Value,
    emit_events: bool,
) -> (r: Vec<Event>)
    ensures
        are_completion_events(
            r@,
            entity_name@,
            opt_text(fn_name),
            params@,
            success,
            result@,
            execution@,
            emit_events,
        ),
{
    let mut out: Vec<Event> = Vec::new();
    if emit_events && success {
        let pairs: Vec<(&'static str, Value)> = vec![
            ("action_name", Value::text(entity_name)),
            ("fn_name", Value::opt_text(fn_name)),
            ("params", params.clone()),
            ("result", execution.clone()),
        ];
        assert(pairs_view(pairs@) =~= seq![
            ("action_name"@, Json::Str(entity_name@)),
            ("fn_name"@, crate::json::json_opt_str(opt_text(fn_name))),
            ("params"@, params@),
            ("result"@, execution@),
        ]);
        out.push(Event { name: "on_action_completed", payload: Value::object(pairs) });
        let upload = match fn_name {
            Some(f) => same(f, "artifact_upload_file"),
            None => false,
        };
        if upload {
            let pairs: Vec<(&'static str, Value)> = vec![
                ("action_name", Value::text(entity_name)),
                ("artifact_name", Value::opt_text(result.get_str("name"))),
                ("result", execution.clone()),
            ];
            assert(pairs_view(pairs@) =~= seq![
                ("action_name"@, Json::Str(entity_name@)),
                ("artifact_name"@, crate::json::json_opt_str(result@.get_str("name"@))),
                ("result"@, execution@),
            ]);
            out.push(Event { name: "on_file_upload_completed", payload: Value::object(pairs) });
        }
    }
    out
}

/// A schedule: an action that is run at a time or on an event. Times are counts
/// of nanoseconds.
#[derive(Debug)]
pub struct Schedule {
    pub name: String,
    pub action_name: String,
    pub event_name: String,
    pub enabled: bool,
    pub max_runs: Option<i64>,
    pub run_count: i64,
    pub next_run_at: Option<i128>,
    pub trigger_at: Option<i128>,
    pub artifact_names: Vec<String>,
    pub payload: Value,
}

/// A run that a schedule asks for.
#[derive(Debug)]
pub struct ScheduleInvocation {
    /// Which of the schedules asks.
    pub schedule: usize,
    pub schedule_name: String,
    pub action_name: String,
    pub event_name: String,
    pub payload: Value,
}

/// Whether a schedule may run on an event at all: enabled, waiting for that
/// event, and with runs left.
pub open spec fn may_run(s: Schedule, event: Seq<char>) -> bool {
    &&& s.enabled
    &&& s.event_name@ == event
    &&& (match s.max_runs {
        Some(m) => s.run_count < m,
        None => true,
    })
}

fn can_run(s: &Schedule, event: &str) -> (r: bool)
    ensures
        r == may_run(*s, event@),
{
    s.enabled && same(s.event_name.as_str(), event) && (match s.max_runs {
        Some(m) => s.run_count < m,
        None => true,
    })
}

/// Whether a schedule is due: its next run, or its trigger where it has none,
/// is not in the future.
pub open spec fn is_due(s: Schedule, now: i128) -> bool {
    may_run(s, "timer"@) && (match s.next_run_at {
        Some(t) => t <= now,
        None => match s.trigger_at {
            Some(t) => t <= now,
            None => false,
        },
    })
}

/// The artifacts among the first `n` elements of a list.
pub open spec fn named_artifacts(v: Seq<Json>, n: nat) -> Seq<Seq<char>>
    decreases n,
{
    if n == 0 || n > v.len() {
        Seq::empty()
    } else {
        match v[n - 1] {
            Json::Str(s) => named_artifacts(v, (n - 1) as nat).push(s),
            _ => named_artifacts(v, (n - 1) as nat),
        }
    }
}

/// The artifacts that an event is about.
pub open spec fn fired_names(payload: Json) -> Seq<Seq<char>> {
    match payload.get_str("artifact_name"@) {
        Some(n) => seq![n],
        None => match payload.get("artifact_names"@) {
            Some(Json::Array(v)) => named_artifacts(v, v.len()),
            _ => Seq::empty(),
        },
    }
}

fn names_in(payload: &Value) -> (r: Vec<String>)
    ensures
        texts(r@) == fired_names(payload@),
{
    let mut out: Vec<String> = Vec::new();
    assert(texts(out@) =~= Seq::<Seq<char>>::empty());
    if let Some(n) = payload.get_str("artifact_name") {
        out.push(n.to_owned());
        assert(texts(out@) =~= seq![n@]);
        return out;
    }
    if let Some(Value::Array(v)) = payload.get("artifact_names") {
        let mut i: usize = 0;
        while i < v.len()
            invariant
                i <= v.len(),
                texts(out@) == named_artifacts(items(v@), i as nat),
            decreases v.len() - i,
        {
            if let Value::Str(s) = &v[i] {
                let ghost before = texts(out@);
                out.push(s.clone());
                assert(texts(out@) =~= before.push(s@));
            }
            i += 1;
        }
    }
    out
}

/// Whether two lists share a text.
pub open spec fn share_a_name(a: Seq<Seq<char>>, b: Seq<Seq<char>>) -> bool {
    exists|i: int| 0 <= i < a.len() && b.contains(#[trigger] a[i])
}

fn holds_text(v: &Vec<String>, s: &str) -> (r: bool)
    ensures
        r == texts(v@).contains(s@),
{
    let mut i: usize = 0;
    while i < v.len()
        invariant
            i <= v.len(),
            forall|j: int| 0 <= j < i ==> #[trigger] texts(v@)[j] != s@,
        decreases v.len() - i,
    {
        if same(v[i].as_str(), s) {
            assert(texts(v@)[i as int] == s@);
            return true;
        }
        i += 1;
    }
    false
}

fn any_shared(a: &Vec<String>, b: &Vec<String>) -> (r: bool)
    ensures
        r == share_a_name(texts(a@), texts(b@)),
{
    let mut i: usize = 0;
    while i < a.len()
        invariant
            i <= a.len(),
            forall|j: int| 0 <= j < i ==> !texts(b@).contains(#[trigger] texts(a@)[j]),
        decreases a.len() - i,
    {
        if holds_text(b, a[i].as_str()) {
            assert(texts(b@).contains(texts(a@)[i as int]));
            return true;
        }
        i += 1;
    }
    false
}

/// Whether an event starts a schedule: it may run, and is for every artifact or
/// for one that the event is about.
pub open spec fn is_triggered(s: Schedule, event: Seq<char>, payload: Json) -> bool {
    may_run(s, event) && (s.artifact_names@.len() == 0 || share_a_name(
        fired_names(payload),
        texts(s.artifact_names@),
    ))
}

pub open spec fn invocation_payload(s: Schedule, event: Seq<char>, payload: Json) -> Json {
    object_of(
        seq![
            ("schedule"@, Json::Str(s.name@)),
            ("event"@, object_of(seq![("name"@, Json::Str(event)), ("payload"@, payload)])),
            ("payload"@, s.payload@),
        ],
    )
}

/// Whether an invocation is the one that the schedule at `i` asks for.
pub open spec fn is_invocation(
    r: ScheduleInvocation,
    schedules: Seq<Schedule>,
    i: int,
    event: Seq<char>,
    payload: Json,
) -> bool {
    &&& r.schedule == i
    &&& r.schedule_name@ == schedules[i].name@
    &&& r.action_name@ == schedules[i].action_name@
    &&& r.event_name@ == event
    &&& r.payload@ == invocation_payload(schedules[i], event, payload)
}

/// The places among the first `n` that are chosen, in order.
pub open spec fn chosen(pick: Seq<bool>, n: nat) -> Seq<int>
    decreases n,
{
    if n == 0 || n > pick.len() {
        Seq::empty()
    } else if pick[n - 1] {
        chosen(pick, (n - 1) as nat).push(n - 1)
    } else {
        chosen(pick, (n - 1) as nat)
    }
}

pub open spec fn due_flags(s: Seq<Schedule>, now: i128) -> Seq<bool> {
    Seq::new(s.len(), |i: int| is_due(s[i], now))
}

pub open spec fn triggered_flags(s: Seq<Schedule>, event: Seq<char>, payload: Json) -> Seq<bool> {
    Seq::new(s.len(), |i: int| is_triggered(s[i], event, payload))
}

/// Whether the invocations are those of the chosen schedules, in order.
pub open spec fn are_invocations(
    r: Seq<ScheduleInvocation>,
    schedules: Seq<Schedule>,
    places: Seq<int>,
    event: Seq<char>,
    payload: Json,
) -> bool {
    &&& r.len() == places.len()
    &&& forall|k: int|
        0 <= k < r.len() ==> is_invocation(#[trigger] r[k], schedules, places[k], event, payload)
}

fn invocation_of(s: &Schedule, i: usize, event: &str, payload: &Value) -> (r: ScheduleInvocation)
    ensures
        r.schedule == i,
        r.schedule_name@ == s.name@,
        r.action_name@ == s.action_name@,
        r.event_name@ == event@,
        r.payload@ == invocation_payload(*s, event@, payload@),
{
    let inner: Vec<(&'static str, Value)> = vec![
        ("name", Value::text(event)),
        ("payload", payload.clone()),
    ];
    assert(pairs_view(inner@) =~= seq![("name"@, Json::Str(event@)), ("payload"@, payload@)]);
    let pairs: Vec<(&'static str, Value)> = vec![
        ("schedule", Value::text(s.name.as_str())),
        ("event", Value::object(inner)),
        ("payload", s.payload.clone()),
    ];
    assert(pairs_view(pairs@) =~= seq![
        ("schedule"@, Json::Str(s.name@)),
        ("event"@, object_of(seq![("name"@, Json::Str(event@)), ("payload"@, payload@)])),
        ("payload"@, s.payload@),
    ]);
    ScheduleInvocation {
        schedule: i,
        schedule_name: s.name.clone(),
        action_name: s.action_name.clone(),
        event_name: event.to_owned(),
        payload: Value::object(pairs),
    }
}

/// The runs that the schedules ask for at a time: those of the timers that are
/// due, in order.
pub fn process_due_schedules(schedules: &Vec<Schedule>, now: i128) -> (r: Vec<ScheduleInvocation>)
    ensures
        are_invocations(
            r@,
            schedules@,
            chosen(due_flags(schedules@, now), schedules@.len()),
            "timer"@,
            Json::Null,
        ),
{
    let mut out: Vec<ScheduleInvocation> = Vec::new();
    let ghost flags = due_flags(schedules@, now);
    let mut i: usize = 0;
    while i < schedules.len()
        invariant
            i <= schedules.len(),
            flags == due_flags(schedules@, now),
            are_invocations(out@, schedules@, chosen(flags, i as nat), "timer"@, Json::Null),
        decreases schedules.len() - i,
    {
        let s = &schedules[i];
        let due = can_run(s, "timer") && (match s.next_run_at {
            Some(t) => t <= now,
            None => match s.trigger_at {
                Some(t) => t <= now,
                None => false,
            },
        });
        assert(due == flags[i as int]);
        if due {
            let x = invocation_of(s, i, "timer", &Value::Null);
            out.push(x);
        }
        i += 1;
    }
    out
}

/// The runs that the schedules ask for on an event, in order.
pub fn trigger_schedule_event(schedules: &Vec<Schedule>, event_name: &str, event_payload: &Value) -> (r:
    Vec<ScheduleInvocation>)
    ensures
        are_invocations(
            r@,
            schedules@,
            chosen(triggered_flags(schedules@, event_name@, event_payload@), schedules@.len()),
            event_name@,
            event_payload@,
        ),
{
    let mut out: Vec<ScheduleInvocation> = Vec::new();
    let fired = names_in(event_payload);
    let ghost flags = triggered_flags(schedules@, event_name@, event_payload@);
    let mut i: usize = 0;
    while i < schedules.len()
        invariant
            i <= schedules.len(),
            texts(fired@) == fired_names(event_payload@),
            flags == triggered_flags(schedules@, event_name@, event_payload@),
            are_invocations(
                out@,
                schedules@,
                chosen(flags, i as nat),
                event_name@,
                event_payload@,
            ),
        decreases schedules.len() - i,
    {
        let s = &schedules[i];
        let fires = can_run(s, event_name) && (s.artifact_names.len() == 0 || any_shared(
            &fired,
            &s.artifact_names,
        ));
        assert(fires == flags[i as int]);
        if fires {
            let x = invocation_of(s, i, event_name, event_payload);
            out.push(x);
        }
        i += 1;
    }
    out
}

/// Every chosen place is marked, and every marked one is chosen.
pub proof fn lemma_chosen(pick: Seq<bool>, n: nat)
    requires
        n <= pick.len(),
    ensures
        forall|k: int|
            0 <= k < chosen(pick, n).len() ==> 0 <= #[trigger] chosen(pick, n)[k] < n
                && pick[chosen(pick, n)[k]],
        forall|i: int| 0 <= i < n && pick[i] ==> #[trigger] chosen(pick, n).contains(i),
    decreases n,
{
    if n > 0 {
        lemma_chosen(pick, (n - 1) as nat);
        let before = chosen(pick, (n - 1) as nat);
        let after = chosen(pick, n);
        assert forall|k: int| 0 <= k < after.len() implies 0 <= #[trigger] after[k] < n
            && pick[after[k]] by {
            if k < before.len() {
                assert(after[k] == before[k]);
            }
        }
        assert forall|i: int| 0 <= i < n && pick[i] implies #[trigger] after.contains(i) by {
            if i < n - 1 {
                assert(before.contains(i));
                let k = choose|k: int| 0 <= k < before.len() && before[k] == i;
                assert(after[k] == i);
            } else {
                assert(after[before.len() as int] == i);
            }
        }
    }
}

/// A schedule that is disabled, or has had all its runs, is never asked to run,
/// by the clock or by an event.
pub proof fn lemma_spent_schedules_rest(s: Schedule, event: Seq<char>, payload: Json, now: i128)
    requires
        !s.enabled || (s.max_runs is Some && s.run_count >= s.max_runs->0),
    ensures
        !is_due(s, now),
        !is_triggered(s, event, payload),
{
}

/// Every run that the clock starts is of a schedule that is due, and every
/// schedule that is due is started.
pub proof fn lemma_due_schedules_run(schedules: Seq<Schedule>, now: i128, i: int)
    requires
        0 <= i < schedules.len(),
    ensures
        chosen(due_flags(schedules, now), schedules.len()).contains(i) == is_due(schedules[i], now),
{
    let flags = due_flags(schedules, now);
    lemma_chosen(flags, schedules.len());
    let c = chosen(flags, schedules.len());
    if c.contains(i) {
        let k = choose|k: int| 0 <= k < c.len() && c[k] == i;
        assert(flags[c[k]]);
    }
    if flags[i] {
        assert(c.contains(i));
    }
}

/// What is noted of a scheduled action that failed.
pub fn scheduled_failure(action_name: &str, schedule_name: &str, error: &str) -> (r: String)
    ensures
        r@ == "scheduled action '"@ + action_name@ + "' (schedule '"@ + schedule_name@
            + "') failed: "@ + error@,
{
    crate::text::cat6(
        "scheduled action '",
        action_name,
        "' (schedule '",
        schedule_name,
        "') failed: ",
        error,
    )
}

} // verus!
