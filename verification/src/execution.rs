//! Command and webhook execution.
//!
//! * **Command**: `fn_name` is never a shell command. It is a key into the
//!   `command_actions` allowlist of the configuration; the matching entry's
//!   `command` is what runs. A key that is not registered is refused.
//! * **Webhook**: `fn_name` is the URL to post to, which has to pass the
//!   outbound check of [`crate::net`] once its placeholders are filled in.
//!
//! Both allowlists deny by default.

use vstd::prelude::*;
use vstd::string::*;
use vstd::utf8::*;

use crate::chance::unix_nanos;
use crate::config::{CommandDef, Config};
use crate::encoding::{base64_decoded, decode_base64, from_utf8_lossy, lossy_text};
use crate::error::{Failure, SolxError};
use crate::json::{json_text, lemma_without_member, ordered, remove_member, to_text};
use crate::json::{without_member};
use crate::net::{check_outbound_url, outbound};
use crate::text::{cat2, cat3, cat5, cat7, chars_of, decimal, first_chars, hex_number};
use crate::text::{opt_string, opt_text, print_hex_u128, print_u64, replace, replaced, same, take_chars};
use crate::text::{may_call, texts, trim, trim_start_char, trimmed, trimmed_start};
use crate::value::{members, opt_json, opt_value, Json, Value};

verus! {

broadcast use crate::value::group_value_views;

/// The time limit of a command or script whose action names none, in seconds.
pub const DEFAULT_TIMEOUT_SECS: u64 = 300;

/// The member `key` of an optional config.
pub open spec fn config_get(cfg: Option<Json>, key: Seq<char>) -> Option<Json> {
    match cfg {
        Some(c) => c.get(key),
        None => None,
    }
}

/// The string of the member `key` of an optional config.
pub open spec fn config_str(cfg: Option<Json>, key: Seq<char>) -> Option<Seq<char>> {
    match cfg {
        Some(c) => c.get_str(key),
        None => None,
    }
}

pub(crate) fn config_value<'a>(cfg: Option<&'a Value>, key: &str) -> (r: Option<&'a Value>)
    ensures
        opt_json(r) == config_get(opt_json(cfg), key@),
{
    match cfg {
        Some(c) => c.get(key),
        None => None,
    }
}

pub(crate) fn config_text<'a>(cfg: Option<&'a Value>, key: &str) -> (r: Option<&'a str>)
    ensures
        opt_text(r) == config_str(opt_json(cfg), key@),
{
    match cfg {
        Some(c) => c.get_str(key),
        None => None,
    }
}

/// The pairs of a list, as text.
pub open spec fn pair_texts(v: Seq<(String, String)>) -> Seq<(Seq<char>, Seq<char>)> {
    Seq::new(v.len(), |i: int| (v[i].0@, v[i].1@))
}

/// The members among the first `n` whose value is a string.
pub open spec fn string_members(m: Seq<(Seq<char>, Json)>, n: nat) -> Seq<(Seq<char>, Seq<char>)>
    decreases n,
{
    if n == 0 || n > m.len() {
        Seq::empty()
    } else {
        let before = string_members(m, (n - 1) as nat);
        match m[n - 1].1 {
            Json::Str(s) => before.push((m[n - 1].0, s)),
            _ => before,
        }
    }
}

/// The string members of an optional object; there are none in anything else.
pub open spec fn string_entries(v: Option<Json>) -> Seq<(Seq<char>, Seq<char>)> {
    match v {
        Some(Json::Object(m)) => string_members(m, m.len()),
        _ => Seq::empty(),
    }
}

pub(crate) fn collect_strings(v: Option<&Value>) -> (r: Vec<(String, String)>)
    ensures
        pair_texts(r@) == string_entries(opt_json(v)),
{
    let mut out: Vec<(String, String)> = Vec::new();
    assert(pair_texts(out@) =~= Seq::<(Seq<char>, Seq<char>)>::empty());
    if let Some(Value::Object(m)) = v {
        let mut i: usize = 0;
        while i < m.len()
            invariant
                i <= m.len(),
                pair_texts(out@) == string_members(members(m@), i as nat),
            decreases m.len() - i,
        {
            if let Value::Str(s) = &m[i].1 {
                let ghost before = pair_texts(out@);
                out.push((m[i].0.clone(), s.clone()));
                assert(pair_texts(out@) =~= before.push((m@[i as int].0@, s@)));
            }
            i += 1;
        }
    }
    out
}

/// The keys among the first `n` members whose value is no string.
pub open spec fn other_members(m: Seq<(Seq<char>, Json)>, n: nat) -> Seq<Seq<char>>
    decreases n,
{
    if n == 0 || n > m.len() {
        Seq::empty()
    } else {
        let before = other_members(m, (n - 1) as nat);
        match m[n - 1].1 {
            Json::Str(_) => before,
            _ => before.push(m[n - 1].0),
        }
    }
}

/// The keys of an optional object whose values are no strings; there are none in
/// anything else.
pub open spec fn other_entries(v: Option<Json>) -> Seq<Seq<char>> {
    match v {
        Some(Json::Object(m)) => other_members(m, m.len()),
        _ => Seq::empty(),
    }
}

fn collect_others(v: Option<&Value>) -> (r: Vec<String>)
    ensures
        texts(r@) == other_entries(opt_json(v)),
{
    let mut out: Vec<String> = Vec::new();
    assert(texts(out@) =~= Seq::<Seq<char>>::empty());
    if let Some(Value::Object(m)) = v {
        let mut i: usize = 0;
        while i < m.len()
            invariant
                i <= m.len(),
                texts(out@) == other_members(members(m@), i as nat),
            decreases m.len() - i,
        {
            let other = match &m[i].1 {
                Value::Str(_) => false,
                _ => true,
            };
            if other {
                let ghost before = texts(out@);
                out.push(m[i].0.clone());
                assert(texts(out@) =~= before.push(m@[i as int].0@));
            }
            i += 1;
        }
    }
    out
}

/// Every member of an object is either forwarded or reported as skipped.
pub proof fn lemma_no_entry_is_lost(m: Seq<(Seq<char>, Json)>, n: nat)
    requires
        n <= m.len(),
    ensures
        string_members(m, n).len() + other_members(m, n).len() == n,
    decreases n,
{
    if n > 0 {
        lemma_no_entry_is_lost(m, (n - 1) as nat);
    }
}

// ── Commands ─────────────────────────────────────────────────────────────────

/// An action reference as one segment of a path: without its leading slashes,
/// and with an underscore for each other slash.
pub open spec fn slug(action_ref: Seq<char>) -> Seq<char> {
    let s = trimmed_start(action_ref, '/');
    Seq::new(
        s.len(),
        |i: int|
            if s[i] == '/' {
                '_'
            } else {
                s[i]
            },
    )
}

pub fn log_dir_slug(action_ref: &str) -> (r: String)
    ensures
        r@ == slug(action_ref@),
{
    let rest = trim_start_char(action_ref, '/');
    let v = chars_of(rest.as_str());
    let mut out = String::new();
    let mut i: usize = 0;
    while i < v.len()
        invariant
            i <= v.len(),
            v@ == trimmed_start(action_ref@, '/'),
            out@ == slug(action_ref@).take(i as int),
        decreases v.len() - i,
    {
        if v[i] == '/' {
            out.push('_');
        } else {
            out.push(v[i]);
        }
        assert(out@ =~= slug(action_ref@).take(i + 1));
        i += 1;
    }
    assert(out@ =~= slug(action_ref@));
    out
}

/// A slug holds no slash, so it names one entry of the directory it is put in.
pub proof fn lemma_slug_is_one_segment(action_ref: Seq<char>)
    ensures
        forall|i: int| 0 <= i < slug(action_ref).len() ==> #[trigger] slug(action_ref)[i] != '/',
{
}

/// The commands that a configuration allows.
pub open spec fn allowed_command(defs: Seq<(String, CommandDef)>, key: Seq<char>, i: int) -> Option<
    CommandDef,
>
    decreases defs.len() - i,
{
    if i < 0 || i >= defs.len() {
        None
    } else if defs[i].0@ == key {
        Some(defs[i].1)
    } else {
        allowed_command(defs, key, i + 1)
    }
}

fn find_command<'a>(defs: &'a Vec<(String, CommandDef)>, key: &str) -> (r: Option<&'a CommandDef>)
    ensures
        match r {
            Some(d) => allowed_command(defs@, key@, 0) == Some(*d),
            None => allowed_command(defs@, key@, 0) is None,
        },
{
    let mut i: usize = 0;
    while i < defs.len()
        invariant
            i <= defs.len(),
            allowed_command(defs@, key@, 0) == allowed_command(defs@, key@, i as int),
        decreases defs.len() - i,
    {
        if same(defs[i].0.as_str(), key) {
            return Some(&defs[i].1);
        }
        i += 1;
    }
    None
}

/// How a command is to be run.
#[derive(Debug)]
pub struct CommandPlan {
    pub shell: &'static str,
    pub flag: &'static str,
    pub command: String,
    pub cwd: String,
    /// The directory for the command's own logs, below the log directory.
    pub log_segment: String,
    /// What the command reads on its standard input.
    pub stdin: String,
    pub env: Vec<(String, String)>,
    /// The keys of `action_config.env` that are not forwarded, since their values
    /// are no strings.
    pub skipped_env: Vec<String>,
    pub timeout_secs: u64,
}

pub open spec fn unregistered_command(key: Seq<char>) -> Failure {
    Failure::Exec(
        "command key '"@ + key
            + "' is not registered in solx-config.json's 'command_actions' allowlist; add an entry there to allow this command to run"@,
    )
}

/// The directory that a command runs in: the allowlist's own where it names
/// one, else the action's, else the application's.
pub open spec fn command_cwd(def: CommandDef, cfg: Option<Json>, appdata: Seq<char>) -> Seq<char> {
    match opt_string(def.cwd) {
        Some(c) => c,
        None => match config_str(cfg, "cwd"@) {
            Some(c) => c,
            None => appdata,
        },
    }
}

/// Whether a plan is the one of a registered command: the registered text in the
/// shell of the platform, the parameters on its standard input.
pub open spec fn is_command_plan(
    p: CommandPlan,
    def: CommandDef,
    cfg: Option<Json>,
    appdata: Seq<char>,
    windows: bool,
    action_ref: Seq<char>,
    params: Json,
    timeout_secs: Option<u64>,
) -> bool {
    &&& p.command@ == def.command@
    &&& p.cwd@ == command_cwd(def, cfg, appdata)
    &&& p.shell@ == (if windows {
        "cmd"@
    } else {
        "sh"@
    })
    &&& p.flag@ == (if windows {
        "/C"@
    } else {
        "-c"@
    })
    &&& p.log_segment@ == slug(action_ref)
    &&& p.stdin@ == json_text(params)
    &&& pair_texts(p.env@) == string_entries(config_get(cfg, "env"@))
    &&& texts(p.skipped_env@) == other_entries(config_get(cfg, "env"@))
    &&& p.timeout_secs == (match timeout_secs {
        Some(t) => t,
        None => DEFAULT_TIMEOUT_SECS,
    })
}

/// Plan a command action. The key is looked up in the allowlist before anything
/// else; the parameters go to the command's standard input as JSON.
pub fn plan_command(
    cfg: &Config,
    windows: bool,
    action_ref: &str,
    fn_name: &str,
    action_config: Option<&Value>,
    params: &Value,
    timeout_secs: Option<u64>,
) -> (r: Result<CommandPlan, SolxError>)
    ensures
        match allowed_command(cfg.command_actions@, fn_name@, 0) {
            None => r is Err && r->Err_0@ == unregistered_command(fn_name@),
            Some(def) => r is Ok && is_command_plan(
                r->Ok_0,
                def,
                opt_json(action_config),
                cfg.appdata@,
                windows,
                action_ref@,
                params@,
                timeout_secs,
            ),
        },
{
    let def = match find_command(&cfg.command_actions, fn_name) {
        Some(d) => d,
        None => {
            return Err(
                SolxError::Exec(
                    cat3(
                        "command key '",
                        fn_name,
                        "' is not registered in solx-config.json's 'command_actions' allowlist; add an entry there to allow this command to run",
                    ),
                ),
            );
        },
    };
    let cwd = match &def.cwd {
        Some(c) => c.clone(),
        None => match config_text(action_config, "cwd") {
            Some(c) => c.to_owned(),
            None => cfg.appdata.clone(),
        },
    };
    let env = collect_strings(config_value(action_config, "env"));
    let skipped_env = collect_others(config_value(action_config, "env"));
    let (shell, flag) = if windows {
        ("cmd", "/C")
    } else {
        ("sh", "-c")
    };
    Ok(
        CommandPlan {
            shell,
            flag,
            command: def.command.clone(),
            cwd,
            log_segment: log_dir_slug(action_ref),
            stdin: to_text(params),
            env,
            skipped_env,
            timeout_secs: match timeout_secs {
                Some(t) => t,
                None => DEFAULT_TIMEOUT_SECS,
            },
        },
    )
}

/// Deny by default: with no command registered every key is refused.
pub proof fn lemma_no_command_registered(key: Seq<char>)
    ensures
        allowed_command(Seq::empty(), key, 0) is None,
{
}

/// How the run of a command came to its end.
#[derive(Debug)]
pub enum CommandEnd {
    SpawnFailed(String),
    TimedOut,
    WaitFailed(String),
    Exited { success: bool, status: String, stdout: Vec<u8>, stderr: Vec<u8> },
}

/// A text as a value: what it parses to, or the text itself.
pub open spec fn parsed_or_text(parsed: Option<Json>, text: Seq<char>) -> Json {
    match parsed {
        Some(v) => v,
        None => Json::Str(text),
    }
}

/// What a failed command is reported as; a command that succeeded is none.
pub open spec fn command_failure(
    fn_name: Seq<char>,
    command: Seq<char>,
    timeout_secs: u64,
    end: CommandEnd,
) -> Option<Failure> {
    match end {
        CommandEnd::SpawnFailed(e) => Some(
            Failure::Exec("spawn command key '"@ + fn_name + "' ('"@ + command + ("'): "@ + e@)),
        ),
        CommandEnd::TimedOut => Some(
            Failure::Exec(
                "command key '"@ + fn_name + "' timed out after "@ + decimal(timeout_secs as nat)
                    + "s"@,
            ),
        ),
        CommandEnd::WaitFailed(e) => Some(Failure::Exec(e@)),
        CommandEnd::Exited { success, status, stdout, stderr } => if success {
            None
        } else {
            Some(
                Failure::Exec(
                    "command key '"@ + fn_name + "' failed ("@ + status@ + ("): "@ + trimmed(
                        lossy_text(stderr@),
                    )),
                ),
            )
        },
    }
}

/// The text that a command printed to its standard output.
pub open spec fn command_output(end: CommandEnd) -> Seq<char> {
    match end {
        CommandEnd::Exited { success: _, status: _, stdout, stderr: _ } => lossy_text(stdout@),
        _ => Seq::empty(),
    }
}

/// What a command action returns: its standard output, as JSON where the text
/// without surrounding space parses, else as text. `parse` reads JSON text.
pub fn finish_command<F: FnOnce(&str) -> Option<Value>>(
    fn_name: &str,
    command: &str,
    timeout_secs: u64,
    end: CommandEnd,
    parse: F,
) -> (r: Result<Value, SolxError>)
    requires
        end matches CommandEnd::Exited { success: true, status: _, stdout, stderr: _ }
            ==> forall|s: &str|
            (valid_utf8(stdout@) ==> s@ == trimmed(decode_utf8(stdout@))) ==> #[trigger] call_requires(
                parse,
                (s,),
            ),
    ensures
        match command_failure(fn_name@, command@, timeout_secs, end) {
            Some(e) => r is Err && r->Err_0@ == e,
            None => r is Ok && exists|s: &str, o: Option<Value>|
                s@ == trimmed(command_output(end)) && #[trigger] call_ensures(parse, (s,), o)
                    && r->Ok_0@ == parsed_or_text(opt_value(o), command_output(end)),
        },
{
    match end {
        CommandEnd::SpawnFailed(e) => {
            let tail = cat2("'): ", e.as_str());
            Err(
                SolxError::Exec(
                    cat5("spawn command key '", fn_name, "' ('", command, tail.as_str()),
                ),
            )
        },
        CommandEnd::TimedOut => {
            let n = print_u64(timeout_secs);
            Err(
                SolxError::Exec(
                    cat5("command key '", fn_name, "' timed out after ", n.as_str(), "s"),
                ),
            )
        },
        CommandEnd::WaitFailed(e) => Err(SolxError::Exec(e)),
        CommandEnd::Exited { success, status, stdout, stderr } => {
            if !success {
                let err_text = from_utf8_lossy(&stderr);
                let shown = trim(err_text.as_str());
                let tail = cat2("): ", shown.as_str());
                return Err(
                    SolxError::Exec(
                        cat5("command key '", fn_name, "' failed (", status.as_str(), tail.as_str()),
                    ),
                );
            }
            let text = from_utf8_lossy(&stdout);
            let body = trim(text.as_str());
            let arg: &str = body.as_str();
            let parsed = parse(arg);
            match parsed {
                Some(v) => Ok(v),
                None => Ok(Value::Str(text)),
            }
        },
    }
}

// ── Webhooks ─────────────────────────────────────────────────────────────────

/// The placeholder of a key in a URL template.
pub open spec fn placeholder(key: Seq<char>) -> Seq<char> {
    "{"@ + key + "}"@
}

/// The URL with the placeholders of the first `n` keys filled in from the
/// string parameters.
pub open spec fn filled(url: Seq<char>, keys: Seq<(Seq<char>, Json)>, params: Json, n: nat) -> Seq<
    char,
>
    decreases n,
{
    if n == 0 || n > keys.len() {
        url
    } else {
        let before = filled(url, keys, params, (n - 1) as nat);
        match params.get_str(keys[n - 1].0) {
            Some(v) => replaced(before, placeholder(keys[n - 1].0), v),
            None => before,
        }
    }
}

/// The parameters without the first `n` keys.
pub open spec fn stripped(params: Json, keys: Seq<(Seq<char>, Json)>, n: nat) -> Json
    decreases n,
{
    if n == 0 || n > keys.len() {
        params
    } else {
        match stripped(params, keys, (n - 1) as nat) {
            Json::Object(m) => Json::Object(without_member(m, keys[n - 1].0)),
            other => other,
        }
    }
}

/// The keys that `path_params` of a config names.
pub open spec fn path_keys(cfg: Option<Json>) -> Seq<(Seq<char>, Json)> {
    match config_get(cfg, "path_params"@) {
        Some(Json::Object(m)) => m,
        _ => Seq::empty(),
    }
}

/// The URL that a webhook goes to.
pub open spec fn webhook_url(url: Seq<char>, cfg: Option<Json>, params: Json) -> Seq<char> {
    filled(url, path_keys(cfg), params, path_keys(cfg).len())
}

/// The parameters that a webhook sends.
pub open spec fn webhook_params(cfg: Option<Json>, params: Json) -> Json {
    stripped(params, path_keys(cfg), path_keys(cfg).len())
}

/// Fill the `{key}` placeholders of `url` with the matching string parameter,
/// for every key that `action_config.path_params` names, and take those keys out
/// of the parameters. Nothing is URL-encoded.
pub fn substitute_path_params(url: &str, action_config: Option<&Value>, params: &Value) -> (r: (
    String,
    Value,
))
    ensures
        r.0@ == webhook_url(url@, opt_json(action_config), params@),
        r.1@ == webhook_params(opt_json(action_config), params@),
{
    let mut out = url.to_owned();
    let mut remaining = params.clone();
    if let Some(Value::Object(keys)) = config_value(action_config, "path_params") {
        let mut i: usize = 0;
        while i < keys.len()
            invariant
                i <= keys.len(),
                out@ == filled(url@, members(keys@), params@, i as nat),
                remaining@ == stripped(params@, members(keys@), i as nat),
            decreases keys.len() - i,
        {
            let key = keys[i].0.as_str();
            if let Some(val) = params.get_str(key) {
                let token = cat3("{", key, "}");
                assert(token@.len() > 0) by {
                    reveal_strlit("{");
                }
                out = replace(out.as_str(), token.as_str(), val);
            }
            match remaining {
                Value::Object(m) => {
                    let mut m = m;
                    remove_member(&mut m, key);
                    remaining = Value::Object(m);
                },
                other => {
                    remaining = other;
                },
            }
            i += 1;
        }
    }
    (out, remaining)
}

/// A parameter that filled a placeholder is not sent in the body as well.
pub proof fn lemma_path_params_are_not_sent(cfg: Option<Json>, params: Json, i: int)
    requires
        params is Object ==> ordered(params->Object_0),
        0 <= i < path_keys(cfg).len(),
    ensures
        webhook_params(cfg, params).get(path_keys(cfg)[i].0) is None,
{
    lemma_stripped(params, path_keys(cfg), path_keys(cfg).len(), i);
}

proof fn lemma_stripped(params: Json, keys: Seq<(Seq<char>, Json)>, n: nat, i: int)
    requires
        params is Object ==> ordered(params->Object_0),
        n <= keys.len(),
    ensures
        stripped(params, keys, n) is Object == params is Object,
        stripped(params, keys, n) is Object ==> ordered(stripped(params, keys, n)->Object_0),
        0 <= i < n ==> stripped(params, keys, n).get(keys[i].0) is None,
    decreases n,
{
    if n > 0 {
        lemma_stripped(params, keys, (n - 1) as nat, i);
        match stripped(params, keys, (n - 1) as nat) {
            Json::Object(m) => {
                lemma_without_member(m, keys[n - 1].0, keys[n - 1].0);
                if 0 <= i < n {
                    lemma_without_member(m, keys[n - 1].0, keys[i].0);
                }
            },
            _ => {},
        }
    }
}

/// Where a webhook goes and what it carries.
#[derive(Debug)]
pub struct WebhookPlan {
    pub url: String,
    pub params: Value,
}

/// Whether a plan is the one of a webhook action: refused where the allowlist
/// refuses the URL with its path parameters in it, else that URL and the parameters
/// that are left.
pub open spec fn is_webhook_plan(
    r: Result<WebhookPlan, SolxError>,
    prefixes: Seq<Seq<char>>,
    url: Seq<char>,
    cfg: Option<Json>,
    params: Json,
) -> bool {
    match outbound(prefixes, webhook_url(url, cfg, params)) {
        Err(e) => r is Err && r->Err_0@ == e,
        Ok(_) => r is Ok && r->Ok_0.url@ == webhook_url(url, cfg, params) && r->Ok_0.params@
            == webhook_params(cfg, params),
    }
}

/// Plan a webhook action: fill in the URL and hold the result to the outbound
/// check, so that a filled-in URL cannot evade it.
pub fn plan_webhook(cfg: &Config, url: &str, action_config: Option<&Value>, params: &Value) -> (r:
    Result<WebhookPlan, SolxError>)
    ensures
        is_webhook_plan(r, cfg.base_urls(), url@, opt_json(action_config), params@),
{
    let (full_url, remaining) = substitute_path_params(url, action_config, params);
    match check_outbound_url(cfg, full_url.as_str()) {
        Err(e) => Err(e),
        Ok(_) => Ok(WebhookPlan { url: full_url, params: remaining }),
    }
}

/// Whether a webhook is an OAuth authorization-code exchange rather than a call
/// with a body.
pub open spec fn exchanges_code(cfg: Option<Json>) -> bool {
    match config_get(cfg, "auth"@) {
        Some(a) => a.get_str("type"@) == Some("oauth_authorization_code"@),
        None => false,
    }
}

pub fn is_token_exchange(action_config: Option<&Value>) -> (r: bool)
    ensures
        r == exchanges_code(opt_json(action_config)),
{
    match config_value(action_config, "auth") {
        Some(a) => match a.get_str("type") {
            Some(t) => same(t, "oauth_authorization_code"),
            None => false,
        },
        None => false,
    }
}

#[derive(Debug)]
pub struct MultipartRelatedBody {
    pub content_type: String,
    pub bytes: Vec<u8>,
}

/// What a webhook posts.
#[derive(Debug)]
pub enum WebhookBody {
    Json(Value),
    Multipart(MultipartRelatedBody),
}

/// The boundary between the parts of a body made at the given time.
pub open spec fn boundary_at(nanos: u128) -> Seq<char> {
    "solxmpb"@ + hex_number(nanos as nat)
}

/// What stands before the media of a `multipart/related` body.
pub open spec fn multipart_head(
    boundary: Seq<char>,
    metadata: Seq<char>,
    content_type: Seq<char>,
) -> Seq<char> {
    "--"@ + boundary + "\r\nContent-Type: application/json; charset=UTF-8\r\n\r\n"@ + metadata
        + "\r\n--"@ + boundary + ("\r\nContent-Type: "@ + content_type + "\r\n\r\n"@)
}

/// What stands behind it.
pub open spec fn multipart_tail(boundary: Seq<char>) -> Seq<char> {
    "\r\n--"@ + boundary + "--"@
}

/// The metadata part: the parameter of that name, or an empty object.
pub open spec fn multipart_metadata(params: Json) -> Json {
    match params.get("metadata"@) {
        Some(m) => m,
        None => Json::Object(Seq::empty()),
    }
}

/// The media bytes of the parameters, or what is wrong with them.
pub open spec fn multipart_media(params: Json) -> Result<Seq<u8>, Seq<char>> {
    match params.get_str("media_base64"@) {
        None => Err("body_mode 'multipart_related' requires params.media_base64"@),
        Some(s) => match base64_decoded(s) {
            Err(e) => Err("invalid media_base64: "@ + e),
            Ok(b) => Ok(b),
        },
    }
}

pub open spec fn multipart_bytes(params: Json, media: Seq<u8>, nanos: u128) -> Seq<u8> {
    encode_utf8(
        multipart_head(
            boundary_at(nanos),
            json_text(multipart_metadata(params)),
            params.str_or("media_content_type"@, "application/octet-stream"@),
        ),
    ) + media + encode_utf8(multipart_tail(boundary_at(nanos)))
}

/// Whether a body is the one of the given media and of a boundary made at the
/// given time.
pub open spec fn is_multipart_body(
    b: MultipartRelatedBody,
    params: Json,
    media: Seq<u8>,
    nanos: u128,
) -> bool {
    b.bytes@ == multipart_bytes(params, media, nanos) && b.content_type@
        == "multipart/related; boundary="@ + boundary_at(nanos)
}

/// Whether a body is the one of the given media, whatever time made its boundary.
pub open spec fn is_multipart(b: MultipartRelatedBody, params: Json, media: Seq<u8>) -> bool {
    exists|nanos: u128| #[trigger] is_multipart_body(b, params, media, nanos)
}

/// Build a `multipart/related` body of two parts from `params.metadata`, a JSON
/// value, and `params.media_base64` of type `params.media_content_type`. The
/// time that it is makes the boundary.
pub fn build_multipart_related_body(params: &Value) -> (r: Result<MultipartRelatedBody, SolxError>)
    ensures
        match multipart_media(params@) {
            Err(e) => r is Err && r->Err_0@ == Failure::Exec(e),
            Ok(media) => r is Ok && is_multipart(r->Ok_0, params@, media),
        },
{
    let media_b64 = match params.get_str("media_base64") {
        Some(s) => s,
        None => {
            return Err(
                SolxError::Exec(
                    "body_mode 'multipart_related' requires params.media_base64".to_owned(),
                ),
            );
        },
    };
    let media = match decode_base64(media_b64) {
        Ok(b) => b,
        Err(e) => {
            return Err(SolxError::Exec(cat2("invalid media_base64: ", e.as_str())));
        },
    };
    let nanos: u128 = unix_nanos();
    let body = multipart_of(params, &media, nanos);
    assert(is_multipart_body(body, params@, media@, nanos));
    Ok(body)
}

/// The `multipart/related` body with the given media, its boundary made at the
/// given time.
pub fn multipart_of(params: &Value, media: &Vec<u8>, nanos: u128) -> (r: MultipartRelatedBody)
    ensures
        is_multipart_body(r, params@, media@, nanos),
{
    let metadata = match params.get("metadata") {
        Some(m) => to_text(m),
        None => {
            let empty = Value::Object(Vec::new());
            assert(members(empty->Object_0@) =~= Seq::<(Seq<char>, Json)>::empty());
            to_text(&empty)
        },
    };
    let content_type = params.str_or("media_content_type", "application/octet-stream");
    let stamp = print_hex_u128(nanos);
    let boundary = cat2("solxmpb", stamp.as_str());
    let b = boundary.as_str();
    let type_line = cat3("\r\nContent-Type: ", content_type, "\r\n\r\n");
    let head = cat7(
        "--",
        b,
        "\r\nContent-Type: application/json; charset=UTF-8\r\n\r\n",
        metadata.as_str(),
        "\r\n--",
        b,
        type_line.as_str(),
    );
    let tail = cat3("\r\n--", b, "--");
    let mut bytes = head.as_str().as_bytes_vec();
    append_bytes(&mut bytes, media);
    let end = tail.as_str().as_bytes_vec();
    append_bytes(&mut bytes, &end);
    MultipartRelatedBody { content_type: cat2("multipart/related; boundary=", b), bytes }
}

fn append_bytes(out: &mut Vec<u8>, more: &Vec<u8>)
    ensures
        final(out)@ == old(out)@ + more@,
{
    let mut i: usize = 0;
    while i < more.len()
        invariant
            i <= more.len(),
            out@ == old(out)@ + more@.take(i as int),
        decreases more.len() - i,
    {
        out.push(more[i]);
        assert(out@ =~= old(out)@ + more@.take(i + 1));
        i += 1;
    }
    assert(out@ =~= old(out)@ + more@);
}

/// Whether a body is the one of a webhook action: the parameters as JSON, or media
/// with its metadata where the config asks for that.
pub open spec fn is_webhook_body(
    r: Result<WebhookBody, SolxError>,
    cfg: Option<Json>,
    params: Json,
) -> bool {
    if config_str(cfg, "body_mode"@) == Some("multipart_related"@) {
        match multipart_media(params) {
            Err(e) => r is Err && r->Err_0@ == Failure::Exec(e),
            Ok(media) => r matches Ok(WebhookBody::Multipart(b)) && is_multipart(b, params, media),
        }
    } else {
        r matches Ok(WebhookBody::Json(v)) && v@ == params
    }
}

/// The body that a webhook posts: its parameters as JSON, or a
/// `multipart/related` body where `body_mode` asks for one.
pub fn webhook_body(action_config: Option<&Value>, params: &Value) -> (r: Result<
    WebhookBody,
    SolxError,
>)
    ensures
        is_webhook_body(r, opt_json(action_config), params@),
{
    let multipart = match config_text(action_config, "body_mode") {
        Some(m) => same(m, "multipart_related"),
        None => false,
    };
    if multipart {
        match build_multipart_related_body(params) {
            Ok(b) => Ok(WebhookBody::Multipart(b)),
            Err(e) => Err(e),
        }
    } else {
        Ok(WebhookBody::Json(params.clone()))
    }
}

/// The headers of a webhook: the resolved authorization first, then the string
/// entries of `action_config.headers`.
pub open spec fn webhook_header_list(cfg: Option<Json>, auth: Option<Seq<char>>) -> Seq<
    (Seq<char>, Seq<char>),
> {
    let own = string_entries(config_get(cfg, "headers"@));
    match auth {
        Some(a) => seq![("Authorization"@, a)] + own,
        None => own,
    }
}

pub fn webhook_headers(action_config: Option<&Value>, auth_header: Option<&str>) -> (r: Vec<
    (String, String),
>)
    ensures
        pair_texts(r@) == webhook_header_list(opt_json(action_config), opt_text(auth_header)),
{
    let mut own = collect_strings(config_value(action_config, "headers"));
    if let Some(a) = auth_header {
        let ghost before = own@;
        own.insert(0, ("Authorization".to_owned(), a.to_owned()));
        assert(pair_texts(own@) =~= seq![("Authorization"@, a@)] + pair_texts(before));
    }
    own
}

/// Whether a result is what an answer comes to, with what its body parses to.
pub open spec fn is_response(
    r: Result<Value, SolxError>,
    who: Seq<char>,
    success: bool,
    status: Seq<char>,
    text: Seq<char>,
    parsed: Option<Json>,
) -> bool {
    if success {
        r is Ok && r->Ok_0@ == parsed_or_text(parsed, text)
    } else {
        r is Err && r->Err_0@ == Failure::Exec(
            who + " returned "@ + status + ": "@ + first_chars(text, 500),
        )
    }
}

/// The answer of an HTTP endpoint as the result of an action: the body as JSON
/// where it parses, else as text; an error with the beginning of the body where
/// the status is no success. `who` begins the error; `parse` reads JSON text.
pub fn finish_response<F: FnOnce(&str) -> Option<Value>>(
    who: &str,
    success: bool,
    status: &str,
    text: String,
    parse: F,
) -> (r: Result<Value, SolxError>)
    requires
        success ==> may_call(parse, text@),
    ensures
        !success ==> is_response(r, who@, false, status@, text@, None),
        success ==> exists|s: &str, o: Option<Value>|
            s@ == text@ && #[trigger] call_ensures(parse, (s,), o) && is_response(
                r,
                who@,
                true,
                status@,
                text@,
                opt_value(o),
            ),
{
    if !success {
        let snippet = take_chars(text.as_str(), 500);
        return Err(SolxError::Exec(cat5(who, " returned ", status, ": ", snippet.as_str())));
    }
    let arg: &str = text.as_str();
    let parsed = parse(arg);
    match parsed {
        Some(v) => Ok(v),
        None => Ok(Value::Str(text)),
    }
}

// ── OAuth token exchange ─────────────────────────────────────────────────────

/// Whether this is the code that some parameters exchange.
pub open spec fn is_exchange_code(r: Result<String, SolxError>, params: Json) -> bool {
    match params.get_str("code"@) {
        Some(c) => r is Ok && r->Ok_0@ == c,
        None => r is Err && r->Err_0@ == Failure::Exec(
            "oauth_authorization_code requires 'code' in params"@,
        ),
    }
}

/// The authorization code that an exchange is called with.
pub fn exchange_code(params: &Value) -> (r: Result<String, SolxError>)
    ensures
        is_exchange_code(r, params@),
{
    match params.get_str("code") {
        Some(c) => Ok(c.to_owned()),
        None => Err(
            SolxError::Exec("oauth_authorization_code requires 'code' in params".to_owned()),
        ),
    }
}

/// The redirect URI of an exchange: the call's own, else the configured one.
pub open spec fn exchange_redirect(auth: Json, params: Json) -> Seq<char> {
    match params.get_str("redirect_uri"@) {
        Some(u) => u,
        None => auth.str_or("redirect_uri"@, Seq::empty()),
    }
}

/// The form of an authorization-code exchange.
pub open spec fn exchange_fields(
    code: Seq<char>,
    client_id: Seq<char>,
    client_secret: Option<Seq<char>>,
    redirect: Seq<char>,
) -> Seq<(Seq<char>, Seq<char>)> {
    let base = seq![
        ("grant_type"@, "authorization_code"@),
        ("code"@, code),
        ("client_id"@, client_id),
    ];
    let with_secret = match client_secret {
        Some(s) => base.push(("client_secret"@, s)),
        None => base,
    };
    if redirect.len() > 0 {
        with_secret.push(("redirect_uri"@, redirect))
    } else {
        with_secret
    }
}

/// The form that exchanges an authorization code for tokens.
pub fn exchange_form(
    code: &str,
    client_id: &str,
    client_secret: Option<&str>,
    auth: &Value,
    params: &Value,
) -> (r: Vec<(String, String)>)
    ensures
        pair_texts(r@) == exchange_fields(
            code@,
            client_id@,
            opt_text(client_secret),
            exchange_redirect(auth@, params@),
        ),
{
    let redirect = match params.get_str("redirect_uri") {
        Some(u) => u,
        None => {
            assert(""@ =~= Seq::<char>::empty()) by {
                reveal_strlit("");
            }
            auth.str_or("redirect_uri", "")
        },
    };
    let mut form: Vec<(String, String)> = Vec::new();
    form.push(("grant_type".to_owned(), "authorization_code".to_owned()));
    form.push(("code".to_owned(), code.to_owned()));
    form.push(("client_id".to_owned(), client_id.to_owned()));
    if let Some(s) = client_secret {
        form.push(("client_secret".to_owned(), s.to_owned()));
    }
    if !redirect.is_empty() {
        form.push(("redirect_uri".to_owned(), redirect.to_owned()));
    }
    assert(pair_texts(form@) =~= exchange_fields(
        code@,
        client_id@,
        opt_text(client_secret),
        exchange_redirect(auth@, params@),
    ));
    form
}

// ── What a webhook logs ──────────────────────────────────────────────────────

/// The log line of a webhook that is about to be sent.
pub fn webhook_log_start(url: &str) -> (r: String)
    ensures
        r@ == "POST "@ + url@,
{
    cat2("POST ", url)
}

/// Whether this is the level and the line that a finished webhook logs.
pub open spec fn is_webhook_log(
    r: (&'static str, String),
    url: Seq<char>,
    elapsed_ms: u64,
    result: Result<Value, SolxError>,
) -> bool {
    match result {
        Ok(_) => r.0@ == "info"@ && r.1@ == "POST "@ + url + " succeeded ("@ + decimal(
            elapsed_ms as nat,
        ) + "ms)"@,
        Err(e) => r.0@ == "warn"@ && r.1@ == "POST "@ + url + " failed after "@ + decimal(
            elapsed_ms as nat,
        ) + ("ms: "@ + e@.message()),
    }
}

/// The level and the line that a finished webhook logs: never the body, the
/// headers or the authorization that it was sent with.
pub fn webhook_log_end(url: &str, elapsed_ms: u64, result: &Result<Value, SolxError>) -> (r: (
    &'static str,
    String,
))
    ensures
        is_webhook_log(r, url@, elapsed_ms, *result),
{
    let n = print_u64(elapsed_ms);
    match result {
        Ok(_) => ("info", cat5("POST ", url, " succeeded (", n.as_str(), "ms)")),
        Err(e) => {
            let m = e.message();
            let tail = cat2("ms: ", m.as_str());
            ("warn", cat5("POST ", url, " failed after ", n.as_str(), tail.as_str()))
        },
    }
}

} // verus!
