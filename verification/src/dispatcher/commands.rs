//! Command actions: what a command is run with and what its end comes to.

use vstd::prelude::*;
use vstd::string::*;
use vstd::utf8::*;

use crate::chance::{format_utc, unix_nanos, utc_text};
use crate::dispatcher::{DispatchRecord, DispatchResult};
use crate::encoding::{from_utf8_lossy, lossy_text};
use crate::json::{json_int, json_text, object_of, pairs_view, to_text};
use crate::text::{cat2, cat3, cat4, cat5, cat7, debug_code, debug_quoted, decimal, first_chars, opt_string};
use crate::text::{decimal_int, opt_text, print_i64, print_u64, quoted, quoted_code, take_chars};
use crate::value::{opt_value, Json, Value};

verus! {

broadcast use crate::value::group_value_views;

/// How much of an output stands in the log line.
pub const PREVIEW_CHARS: usize = 200;

/// How a command is run.
#[derive(Debug)]
pub struct CommandRun {
    pub shell: &'static str,
    pub flag: &'static str,
    pub command: String,
    pub env: Vec<(&'static str, String)>,
    /// The directory to run in, where it exists.
    pub cwd: Option<String>,
}

/// Whether a run is the one of a command with these parameters.
pub open spec fn is_command_run(
    r: CommandRun,
    windows: bool,
    command: Seq<char>,
    params: Json,
    log_dir: Seq<char>,
    cwd: Option<Seq<char>>,
) -> bool {
    &&& r.shell@ == (if windows {
        "cmd.exe"@
    } else {
        "sh"@
    })
    &&& r.flag@ == (if windows {
        "/C"@
    } else {
        "-c"@
    })
    &&& r.command@ == command
    &&& r.env@.len() == 2
    &&& r.env@[0].0@ == "SOL_PARAMS"@
    &&& r.env@[0].1@ == json_text(params)
    &&& r.env@[1].0@ == "SOL_LOG_DIR"@
    &&& r.env@[1].1@ == log_dir
    &&& opt_string(r.cwd) == cwd
}

/// How the command of an action is run: by the shell, with the parameters of the
/// call and the log directory in its environment.
pub fn command_run(
    windows: bool,
    command: &str,
    params: &Value,
    log_dir: &str,
    cwd: Option<&str>,
) -> (r: CommandRun)
    ensures
        is_command_run(r, windows, command@, params@, log_dir@, opt_text(cwd)),
{
    let text = to_text(params);
    CommandRun {
        shell: if windows {
            "cmd.exe"
        } else {
            "sh"
        },
        flag: if windows {
            "/C"
        } else {
            "-c"
        },
        command: command.to_owned(),
        env: vec![("SOL_PARAMS", text), ("SOL_LOG_DIR", log_dir.to_owned())],
        cwd: match cwd {
            Some(d) => Some(d.to_owned()),
            None => None,
        },
    }
}

/// The directory that a command runs in: the one of the action's config, else
/// the one it is registered with, else the application's own.
pub open spec fn run_dir(
    config_cwd: Option<Seq<char>>,
    registered: Option<Seq<char>>,
    appdata: Seq<char>,
) -> Seq<char> {
    match config_cwd {
        Some(d) => d,
        None => match registered {
            Some(d) => d,
            None => appdata,
        },
    }
}

pub fn command_dir(action_config: Option<&Value>, registered: Option<&str>, appdata: &str) -> (r:
    String)
    ensures
        r@ == run_dir(
            crate::execution::config_str(crate::value::opt_json(action_config), "cwd"@),
            opt_text(registered),
            appdata@,
        ),
{
    match crate::execution::config_text(action_config, "cwd") {
        Some(d) => d.to_owned(),
        None => match registered {
            Some(d) => d.to_owned(),
            None => appdata.to_owned(),
        },
    }
}

/// A number of milliseconds in three digits.
pub open spec fn three_digits(ms: nat) -> Seq<char> {
    (if ms < 10 {
        "00"@
    } else if ms < 100 {
        "0"@
    } else {
        ""@
    }) + decimal(ms)
}

/// The time of a log line, from seconds and milliseconds since the Unix epoch:
/// in UTC where the calendar has it, else the two numbers as they are.
pub open spec fn log_time(secs: i64, ms: nat) -> Seq<char> {
    match utc_text(secs, (ms * 1_000_000) as u32) {
        Some(t) => t,
        None => decimal_int(secs as int) + "."@ + three_digits(ms),
    }
}

pub fn log_timestamp(secs: i64, ms: u32) -> (r: String)
    requires
        ms < 1000,
    ensures
        r@ == log_time(secs, ms as nat),
{
    match format_utc(secs, ms * 1_000_000) {
        Some(t) => t,
        None => {
            let zeros: &str = if ms < 10 {
                "00"
            } else if ms < 100 {
                "0"
            } else {
                ""
            };
            let digits = print_u64(ms as u64);
            let fraction = cat2(zeros, digits.as_str());
            let whole = print_i64(secs);
            cat3(whole.as_str(), ".", fraction.as_str())
        },
    }
}

/// The time that it is, for a log line.
pub fn event_timestamp() -> (r: String)
    ensures
        exists|secs: i64, ms: nat| ms < 1000 && r@ == #[trigger] log_time(secs, ms),
{
    let nanos: u128 = unix_nanos();
    let secs: i64 = #[verifier::truncate]
    ((nanos / 1_000_000_000) as i64);
    let ms: u32 = ((nanos / 1_000_000) % 1000) as u32;
    let r = log_timestamp(secs, ms);
    assert(r@ == log_time(secs, ms as nat));
    r
}

/// What a command that could not be started is reported as.
pub fn spawn_failed(error: &str) -> (r: String)
    ensures
        r@ == "failed to execute command: "@ + error@,
{
    cat2("failed to execute command: ", error)
}

/// The log line of a command that could not be started.
pub fn spawn_failed_line(
    timestamp: &str,
    action_name: &str,
    command: &str,
    duration_ms: u64,
    error: &str,
) -> (r: String)
    ensures
        r@ == "ts="@ + timestamp@ + " action="@ + action_name@ + " command="@ + debug_quoted(
            command@,
        ) + (" status=spawn_failed duration_ms="@ + decimal(duration_ms as nat) + " error="@
            + error@),
{
    let q = quoted(command);
    let d = print_u64(duration_ms);
    let tail = cat4(" status=spawn_failed duration_ms=", d.as_str(), " error=", error);
    cat7("ts=", timestamp, " action=", action_name, " command=", q.as_str(), tail.as_str())
}

/// The output of a command.
#[derive(Debug)]
pub struct CommandOutput {
    pub stdout: Vec<u8>,
    pub stderr: Vec<u8>,
    pub success: bool,
    /// The exit code; none where a signal ended the command.
    pub exit_code: Option<i32>,
}

pub open spec fn code_of(c: Option<i32>) -> Option<int> {
    match c {
        Some(x) => Some(x as int),
        None => None,
    }
}

pub open spec fn code_json(c: Option<i32>) -> Json {
    match c {
        Some(x) => json_int(x as i64),
        None => Json::Null,
    }
}

/// What the standard output of a command comes to: the JSON that it holds, else
/// the outputs and the exit code themselves.
pub open spec fn command_value(
    parsed: Option<Json>,
    stdout: Seq<char>,
    stderr: Seq<char>,
    code: Option<i32>,
) -> Json {
    match parsed {
        Some(v) => v,
        None => object_of(
            seq![
                ("stdout"@, Json::Str(stdout)),
                ("stderr"@, Json::Str(stderr)),
                ("exit_code"@, code_json(code)),
            ],
        ),
    }
}

/// The error that a result reports of itself: its `error` or `message`, or that
/// of its `response`.
pub open spec fn reported_error(v: Json) -> Option<Seq<char>> {
    match v.get_str("error"@) {
        Some(s) => Some(s),
        None => match v.get_str("message"@) {
            Some(s) => Some(s),
            None => match v.field("response"@).get_str("error"@) {
                Some(s) => Some(s),
                None => v.field("response"@).get_str("message"@),
            },
        },
    }
}

fn error_in(v: &Value) -> (r: Option<String>)
    ensures
        opt_string(r) == reported_error(v@),
{
    if let Some(s) = v.get_str("error") {
        return Some(s.to_owned());
    }
    if let Some(s) = v.get_str("message") {
        return Some(s.to_owned());
    }
    let response = v.field("response");
    if let Some(s) = response.get_str("error") {
        return Some(s.to_owned());
    }
    match response.get_str("message") {
        Some(s) => Some(s.to_owned()),
        None => None,
    }
}

/// What is said of a command that failed: its standard error, else what its
/// result reports, else its exit code.
pub open spec fn failure_message(value: Json, stderr: Seq<char>, code: Option<i32>) -> Seq<char> {
    if stderr.len() > 0 {
        stderr
    } else {
        match reported_error(value) {
            Some(s) => s,
            None => "command exited with code "@ + debug_code(code_of(code)),
        }
    }
}

/// What the end of a command comes to. `parse` reads JSON text.
pub fn dispatch_command<F: FnOnce(&str) -> Option<Value>>(
    action_name: &str,
    output: CommandOutput,
    parse: F,
) -> (r: DispatchResult)
    requires
        forall|s: &str|
            (valid_utf8(output.stdout@) ==> s@ == decode_utf8(output.stdout@))
                ==> #[trigger] call_requires(parse, (s,)),
    ensures
        ({
            let stdout = lossy_text(output.stdout@);
            let stderr = lossy_text(output.stderr@);
            exists|s: &str, o: Option<Value>|
                s@ == stdout && #[trigger] call_ensures(parse, (s,), o) && r@
                    == command_record(action_name@, opt_value(o), stdout, stderr, output)
        }),
{
    let stdout = from_utf8_lossy(&output.stdout);
    let stderr = from_utf8_lossy(&output.stderr);
    let text: &str = stdout.as_str();
    let parsed = parse(text);
    finish_output(action_name, parsed, text, stderr.as_str(), &output)
}

/// The record of a command's end.
pub open spec fn command_record(
    action_name: Seq<char>,
    parsed: Option<Json>,
    stdout: Seq<char>,
    stderr: Seq<char>,
    output: CommandOutput,
) -> DispatchRecord {
    let value = command_value(parsed, stdout, stderr, output.exit_code);
    DispatchRecord {
        action_name,
        result: value,
        success: output.success,
        message: if output.success {
            None
        } else {
            Some(failure_message(value, stderr, output.exit_code))
        },
        trace: Seq::empty(),
    }
}

/// What the end of a command comes to, with its outputs as text and what the
/// standard output parses to.
pub fn finish_output(
    action_name: &str,
    parsed: Option<Value>,
    stdout: &str,
    stderr: &str,
    output: &CommandOutput,
) -> (r: DispatchResult)
    ensures
        r@ == command_record(action_name@, opt_value(parsed), stdout@, stderr@, *output),
{
    let result = match parsed {
        Some(v) => v,
        None => {
            let code = match output.exit_code {
                Some(c) => Value::sint(c as i64),
                None => Value::Null,
            };
            let pairs: Vec<(&'static str, Value)> = vec![
                ("stdout", Value::text(stdout)),
                ("stderr", Value::text(stderr)),
                ("exit_code", code),
            ];
            assert(pairs_view(pairs@) =~= seq![
                ("stdout"@, Json::Str(stdout@)),
                ("stderr"@, Json::Str(stderr@)),
                ("exit_code"@, code_json(output.exit_code)),
            ]);
            Value::object(pairs)
        },
    };
    let message = if output.success {
        None
    } else if !stderr.is_empty() {
        Some(stderr.to_owned())
    } else {
        match error_in(&result) {
            Some(s) => Some(s),
            None => {
                let code = quoted_code(output.exit_code);
                Some(cat2("command exited with code ", code.as_str()))
            },
        }
    };
    DispatchResult { action_name: action_name.to_owned(), result, success: output.success, message, trace: Vec::new() }
}

/// Whether this is the line that a finished command logs.
pub open spec fn is_log_line(
    r: Seq<char>,
    timestamp: Seq<char>,
    action_name: Seq<char>,
    success: bool,
    duration_ms: u64,
    exit_code: Option<i32>,
    stdout: Seq<char>,
    stderr: Seq<char>,
) -> bool {
    r == "ts="@ + timestamp + " action="@ + action_name + " status="@ + (if success {
        "ok"@
    } else {
        "failed"@
    }) + (" duration_ms="@ + decimal(duration_ms as nat) + " exit_code="@ + debug_code(
        code_of(exit_code),
    ) + (" stdout_preview="@ + debug_quoted(first_chars(stdout, PREVIEW_CHARS as nat))
        + " stderr_preview="@ + debug_quoted(first_chars(stderr, PREVIEW_CHARS as nat))))
}

/// The log line of a command that ran: one for each, with the beginning of what
/// it printed.
pub fn command_log_line(
    timestamp: &str,
    action_name: &str,
    success: bool,
    duration_ms: u64,
    exit_code: Option<i32>,
    stdout: &str,
    stderr: &str,
) -> (r: String)
    ensures
        is_log_line(
            r@,
            timestamp@,
            action_name@,
            success,
            duration_ms,
            exit_code,
            stdout@,
            stderr@,
        ),
{
    let d = print_u64(duration_ms);
    let code = quoted_code(exit_code);
    let out = take_chars(stdout, PREVIEW_CHARS);
    let err = take_chars(stderr, PREVIEW_CHARS);
    let out_q = quoted(out.as_str());
    let err_q = quoted(err.as_str());
    let previews = cat4(" stdout_preview=", out_q.as_str(), " stderr_preview=", err_q.as_str());
    let tail = cat5(" duration_ms=", d.as_str(), " exit_code=", code.as_str(), previews.as_str());
    let label = if success {
        "ok"
    } else {
        "failed"
    };
    cat7("ts=", timestamp, " action=", action_name, " status=", label, tail.as_str())
}

} // verus!
