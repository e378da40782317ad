//! The internal actions: what each operation of the built-in catalogue takes and
//! gives. They are reached by name.

use vstd::prelude::*;

use crate::entities::ActionType;
use crate::text::{cat2, cat3, cat5, chars_of, opt_text, same};
use crate::value::{Json, Value};

pub mod console;
pub mod doc_fields;
pub mod entity;
pub mod env;
pub mod file;
pub mod http;
pub mod http_stream;
pub mod invocation;
pub mod oauth;
pub mod open_url;
pub mod params;
pub mod script_exec;
pub mod secrets;
pub mod utils;
pub mod widget;

verus! {

broadcast use crate::value::group_value_views;

/// An operation of the built-in catalogue.
#[derive(Debug, Clone, Copy, PartialEq, Eq, Structural)]
pub enum Operation {
    OauthStart,
    OauthAwait,
    OauthStop,
    SaveDocument,
    GetDocument,
    DeleteDocument,
    ListDocuments,
    ListDocumentPaths,
    SaveType,
    GetType,
    DeleteType,
    ListTypes,
    ListTypePaths,
    SaveAction,
    GetAction,
    DeleteAction,
    ListActions,
    ListActionPaths,
    SearchDocuments,
    SearchActions,
    FilePut,
    FileGet,
    FileDelete,
    FileList,
    FileCopy,
    DirCopy,
    DirDelete,
    GetField,
    SetField,
    GetFieldAtPath,
    SetFieldAtPath,
    GetEnv,
    SetEnv,
    HttpRequest,
    FetchHtml,
    HttpStreamStart,
    HttpStreamPoll,
    HttpStreamClose,
    OpenUrl,
    GetSecret,
    SetSecret,
    ScriptExec,
}

/// A name with an underscore for each hyphen: an operation goes by either.
pub open spec fn folded(f: Seq<char>) -> Seq<char> {
    Seq::new(
        f.len(),
        |i: int|
            if f[i] == '-' {
                '_'
            } else {
                f[i]
            },
    )
}

fn fold(f: &str) -> (r: String)
    ensures
        r@ == folded(f@),
{
    let v = chars_of(f);
    let mut out = String::new();
    let mut i: usize = 0;
    while i < v.len()
        invariant
            i <= v.len(),
            v@ == f@,
            out@ == folded(f@).take(i as int),
        decreases v.len() - i,
    {
        let ghost before = out@;
        out.push(
            if v[i] == '-' {
                '_'
            } else {
                v[i]
            },
        );
        assert(out@ =~= folded(f@).take(i + 1));
        i += 1;
    }
    assert(folded(f@).take(v@.len() as int) =~= folded(f@));
    out
}

/// The operation of a name; none where a plugin has to know it.
pub open spec fn operation_named(f: Seq<char>) -> Option<Operation> {
    operation_of(folded(f))
}

/// The operation of a name without hyphens.
pub open spec fn operation_of(f: Seq<char>) -> Option<Operation> {
    if f == "entity_list_document_paths"@ {
        Some(Operation::ListDocumentPaths)
    } else if f == "entity_list_type_paths"@ {
        Some(Operation::ListTypePaths)
    } else if f == "entity_list_action_paths"@ {
        Some(Operation::ListActionPaths)
    } else if f == "script_exec"@ {
        Some(Operation::ScriptExec)
    } else if f == "entity_post_document"@ {
        Some(Operation::SaveDocument)
    } else if f == "entity_post_type"@ {
        Some(Operation::SaveType)
    } else if f == "entity_post_action"@ {
        Some(Operation::SaveAction)
    } else if f == "fetch_html"@ {
        Some(Operation::FetchHtml)
    } else if f == "oauth_start"@ {
        Some(Operation::OauthStart)
    } else if f == "oauth_await"@ {
        Some(Operation::OauthAwait)
    } else if f == "oauth_stop"@ {
        Some(Operation::OauthStop)
    } else if f == "entity_save_document"@ {
        Some(Operation::SaveDocument)
    } else if f == "entity_get_document"@ {
        Some(Operation::GetDocument)
    } else if f == "entity_delete_document"@ {
        Some(Operation::DeleteDocument)
    } else if f == "entity_list_documents"@ {
        Some(Operation::ListDocuments)
    } else if f == "entity_save_type"@ {
        Some(Operation::SaveType)
    } else if f == "entity_get_type"@ {
        Some(Operation::GetType)
    } else if f == "entity_delete_type"@ {
        Some(Operation::DeleteType)
    } else if f == "entity_list_types"@ {
        Some(Operation::ListTypes)
    } else if f == "entity_save_action"@ {
        Some(Operation::SaveAction)
    } else if f == "entity_get_action"@ {
        Some(Operation::GetAction)
    } else if f == "entity_delete_action"@ {
        Some(Operation::DeleteAction)
    } else if f == "entity_list_actions"@ {
        Some(Operation::ListActions)
    } else if f == "search_documents"@ {
        Some(Operation::SearchDocuments)
    } else if f == "search_actions"@ {
        Some(Operation::SearchActions)
    } else if f == "file_put"@ {
        Some(Operation::FilePut)
    } else if f == "file_get"@ {
        Some(Operation::FileGet)
    } else if f == "file_delete"@ {
        Some(Operation::FileDelete)
    } else if f == "file_list"@ {
        Some(Operation::FileList)
    } else if f == "file_copy"@ {
        Some(Operation::FileCopy)
    } else if f == "dir_copy"@ {
        Some(Operation::DirCopy)
    } else if f == "dir_delete"@ {
        Some(Operation::DirDelete)
    } else if f == "get_field"@ {
        Some(Operation::GetField)
    } else if f == "set_field"@ {
        Some(Operation::SetField)
    } else if f == "get_field_at_path"@ {
        Some(Operation::GetFieldAtPath)
    } else if f == "set_field_at_path"@ {
        Some(Operation::SetFieldAtPath)
    } else if f == "get_env"@ {
        Some(Operation::GetEnv)
    } else if f == "set_env"@ {
        Some(Operation::SetEnv)
    } else if f == "http_request"@ {
        Some(Operation::HttpRequest)
    } else if f == "http_stream_start"@ {
        Some(Operation::HttpStreamStart)
    } else if f == "http_stream_poll"@ {
        Some(Operation::HttpStreamPoll)
    } else if f == "http_stream_close"@ {
        Some(Operation::HttpStreamClose)
    } else if f == "open_url"@ {
        Some(Operation::OpenUrl)
    } else if f == "get_secret"@ {
        Some(Operation::GetSecret)
    } else if f == "set_secret"@ {
        Some(Operation::SetSecret)
    } else {
        None
    }
}

/// The operation of a name.
pub fn operation(fn_name: &str) -> (r: Option<Operation>)
    ensures
        r == operation_named(fn_name@),
{
    let name = fold(fn_name);
    let fn_name = name.as_str();
    if same(fn_name, "entity_list_document_paths") {
        Some(Operation::ListDocumentPaths)
    } else if same(fn_name, "entity_list_type_paths") {
        Some(Operation::ListTypePaths)
    } else if same(fn_name, "entity_list_action_paths") {
        Some(Operation::ListActionPaths)
    } else if same(fn_name, "script_exec") {
        Some(Operation::ScriptExec)
    } else if same(fn_name, "entity_post_document") {
        Some(Operation::SaveDocument)
    } else if same(fn_name, "entity_post_type") {
        Some(Operation::SaveType)
    } else if same(fn_name, "entity_post_action") {
        Some(Operation::SaveAction)
    } else if same(fn_name, "fetch_html") {
        Some(Operation::FetchHtml)
    } else if same(fn_name, "oauth_start") {
        Some(Operation::OauthStart)
    } else if same(fn_name, "oauth_await") {
        Some(Operation::OauthAwait)
    } else if same(fn_name, "oauth_stop") {
        Some(Operation::OauthStop)
    } else if same(fn_name, "entity_save_document") {
        Some(Operation::SaveDocument)
    } else if same(fn_name, "entity_get_document") {
        Some(Operation::GetDocument)
    } else if same(fn_name, "entity_delete_document") {
        Some(Operation::DeleteDocument)
    } else if same(fn_name, "entity_list_documents") {
        Some(Operation::ListDocuments)
    } else if same(fn_name, "entity_save_type") {
        Some(Operation::SaveType)
    } else if same(fn_name, "entity_get_type") {
        Some(Operation::GetType)
    } else if same(fn_name, "entity_delete_type") {
        Some(Operation::DeleteType)
    } else if same(fn_name, "entity_list_types") {
        Some(Operation::ListTypes)
    } else if same(fn_name, "entity_save_action") {
        Some(Operation::SaveAction)
    } else if same(fn_name, "entity_get_action") {
        Some(Operation::GetAction)
    } else if same(fn_name, "entity_delete_action") {
        Some(Operation::DeleteAction)
    } else if same(fn_name, "entity_list_actions") {
        Some(Operation::ListActions)
    } else if same(fn_name, "search_documents") {
        Some(Operation::SearchDocuments)
    } else if same(fn_name, "search_actions") {
        Some(Operation::SearchActions)
    } else if same(fn_name, "file_put") {
        Some(Operation::FilePut)
    } else if same(fn_name, "file_get") {
        Some(Operation::FileGet)
    } else if same(fn_name, "file_delete") {
        Some(Operation::FileDelete)
    } else if same(fn_name, "file_list") {
        Some(Operation::FileList)
    } else if same(fn_name, "file_copy") {
        Some(Operation::FileCopy)
    } else if same(fn_name, "dir_copy") {
        Some(Operation::DirCopy)
    } else if same(fn_name, "dir_delete") {
        Some(Operation::DirDelete)
    } else if same(fn_name, "get_field") {
        Some(Operation::GetField)
    } else if same(fn_name, "set_field") {
        Some(Operation::SetField)
    } else if same(fn_name, "get_field_at_path") {
        Some(Operation::GetFieldAtPath)
    } else if same(fn_name, "set_field_at_path") {
        Some(Operation::SetFieldAtPath)
    } else if same(fn_name, "get_env") {
        Some(Operation::GetEnv)
    } else if same(fn_name, "set_env") {
        Some(Operation::SetEnv)
    } else if same(fn_name, "http_request") {
        Some(Operation::HttpRequest)
    } else if same(fn_name, "http_stream_start") {
        Some(Operation::HttpStreamStart)
    } else if same(fn_name, "http_stream_poll") {
        Some(Operation::HttpStreamPoll)
    } else if same(fn_name, "http_stream_close") {
        Some(Operation::HttpStreamClose)
    } else if same(fn_name, "open_url") {
        Some(Operation::OpenUrl)
    } else if same(fn_name, "get_secret") {
        Some(Operation::GetSecret)
    } else if same(fn_name, "set_secret") {
        Some(Operation::SetSecret)
    } else {
        None
    }
}

/// What a call of an internal action comes to before it runs.
#[derive(Debug, Clone, Copy, PartialEq, Eq, Structural)]
pub enum Dispatch {
    /// An operation of the catalogue.
    Builtin(Operation),
    /// An operation that a plugin registered under the same name.
    Plugin,
}

/// Whether this is where an internal action goes: to the catalogue before a plugin.
pub open spec fn is_dispatch(r: Result<Dispatch, String>, fn_name: Seq<char>, registered: bool) -> bool {
    match operation_named(fn_name) {
        Some(op) => r == Ok::<Dispatch, String>(Dispatch::Builtin(op)),
        None => if registered {
            r == Ok::<Dispatch, String>(Dispatch::Plugin)
        } else {
            r is Err && r->Err_0@ == "unknown internal fn_name '"@ + fn_name + "'"@
        },
    }
}

/// Decide which operation a name reaches: one of the catalogue, else one that a
/// plugin registered. `registered` says whether a plugin did.
pub fn run_internal(fn_name: &str, registered: bool) -> (r: Result<Dispatch, String>)
    ensures
        is_dispatch(r, fn_name@, registered),
{
    match operation(fn_name) {
        Some(op) => Ok(Dispatch::Builtin(op)),
        None => if registered {
            Ok(Dispatch::Plugin)
        } else {
            Err(cat3("unknown internal fn_name '", fn_name, "'"))
        },
    }
}

// ── Parameters ───────────────────────────────────────────────────────────────

pub open spec fn missing_param(field: Seq<char>) -> Seq<char> {
    "missing required param: "@ + field
}

/// A string parameter that a call cannot do without.
pub open spec fn required(params: Json, field: Seq<char>) -> Result<Seq<char>, Seq<char>> {
    match params.get_str(field) {
        Some(s) => Ok(s),
        None => Err(missing_param(field)),
    }
}

pub open spec fn text_of(r: Result<&str, String>) -> Result<Seq<char>, Seq<char>> {
    match r {
        Ok(s) => Ok(s@),
        Err(e) => Err(e@),
    }
}

pub fn require_str<'a>(params: &'a Value, field: &str) -> (r: Result<&'a str, String>)
    ensures
        text_of(r) == required(params@, field@),
{
    match params.get_str(field) {
        Some(s) => Ok(s),
        None => Err(cat2("missing required param: ", field)),
    }
}

/// The path that a call names, the root where it names none.
pub fn path_or_root<'a>(params: &'a Value) -> (r: &'a str)
    ensures
        r@ == params@.str_or("path"@, "/"@),
{
    params.str_or("path", "/")
}

/// The path of a document, for the calls whose `path` is one inside the
/// document.
pub fn doc_path_or_root<'a>(params: &'a Value) -> (r: &'a str)
    ensures
        r@ == params@.str_or("doc_path"@, "/"@),
{
    params.str_or("doc_path", "/")
}

// ── The guard of executable actions ──────────────────────────────────────────

/// What an action of a type that runs outside is called; none for the types
/// that anything may write.
pub open spec fn guarded_label(t: Option<ActionType>) -> Option<Seq<char>> {
    match t {
        Some(ActionType::Command) => Some("command"@),
        Some(ActionType::Webhook) => Some("webhook"@),
        _ => None,
    }
}

fn label(t: Option<ActionType>) -> (r: Option<&'static str>)
    ensures
        opt_text(r) == guarded_label(t),
{
    match t {
        Some(ActionType::Command) => Some("command"),
        Some(ActionType::Webhook) => Some("webhook"),
        _ => None,
    }
}

/// Why an action may not be written, if it may not: what it is to become counts
/// before what it is.
pub open spec fn guard_refusal(
    existing: Option<ActionType>,
    incoming: Option<ActionType>,
    path: Seq<char>,
    name: Seq<char>,
    verb: Seq<char>,
) -> Option<Seq<char>> {
    let l = match guarded_label(incoming) {
        Some(l) => Some(l),
        None => guarded_label(existing),
    };
    match l {
        Some(l) => Some(
            "cannot "@ + verb + " '"@ + l
                + "' actions from an action, MCP tool call, or script (attempted on "@ + path
                + "/"@ + (name + "); use the solx CLI"@),
        ),
        None => None,
    }
}

/// Refuse to write an action that runs a command or sends a request, or to turn
/// one into or out of such a type: an action, a tool call or a script may not.
pub fn guard_executable_action(
    existing: Option<ActionType>,
    incoming: Option<ActionType>,
    path: &str,
    name: &str,
    verb: &str,
) -> (r: Result<(), String>)
    ensures
        match guard_refusal(existing, incoming, path@, name@, verb@) {
            Some(e) => r is Err && r->Err_0@ == e,
            None => r is Ok,
        },
{
    let l = match label(incoming) {
        Some(l) => Some(l),
        None => label(existing),
    };
    match l {
        Some(l) => {
            let tail = cat2(name, "); use the solx CLI");
            let head = crate::text::cat4("cannot ", verb, " '", l);
            Err(
                cat5(
                    head.as_str(),
                    "' actions from an action, MCP tool call, or script (attempted on ",
                    path,
                    "/",
                    tail.as_str(),
                ),
            )
        },
        None => Ok(()),
    }
}

/// The guard refuses whenever either side runs outside, and only then: no
/// executable action is made, changed, unmade or deleted through it.
pub proof fn lemma_guard_covers_both_sides(
    existing: Option<ActionType>,
    incoming: Option<ActionType>,
    path: Seq<char>,
    name: Seq<char>,
    verb: Seq<char>,
)
    ensures
        guard_refusal(existing, incoming, path, name, verb) is Some <==> (existing == Some(
            ActionType::Command,
        ) || existing == Some(ActionType::Webhook) || incoming == Some(ActionType::Command)
            || incoming == Some(ActionType::Webhook)),
{
}

} // verus!
