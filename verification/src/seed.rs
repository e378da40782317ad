//! The built-in catalogue: the actions that every store starts with.
//!
//! Each entry is an internal action. An action that is on record already stays
//! as it is, so that the catalogue can be added at every start.

use vstd::prelude::*;
use vstd::string::*;

use crate::chance::{is_utc_time, is_uuid, new_uuid, now_rfc3339};
use crate::entities::{Action, ActionRecord, ActionType};
use crate::internal::{folded, operation_named};
use crate::store::{action_at, lemma_saved_is_on_record, lemma_with_new_distinct, places_distinct, with_new, ActionStore};
use crate::text::{cat3, opt_text, texts};

verus! {

/// Where the operations on actions and their runs are.
pub const ACTION_PATH: &'static str = "/builtin/action";

/// Where the operations on documents are.
pub const DOCUMENT_PATH: &'static str = "/builtin/document";

/// Where the operations on types are.
pub const TYPE_PATH: &'static str = "/builtin/type";

/// Where the operations of the file store are.
pub const FILE_PATH: &'static str = "/builtin/file";

/// Where the operations of the environment store are.
pub const ENV_PATH: &'static str = "/builtin/env";

/// Where the operations on the secrets of the calling action are.
pub const SECRETS_PATH: &'static str = "/builtin/secrets";

/// Where the operations of the OAuth listener are.
pub const OAUTH_PATH: &'static str = "/builtin/oauth";

/// Where everything that deals in URLs is.
pub const WEB_PATH: &'static str = "/builtin/web";

/// Where streaming HTTP is.
pub const WEB_STREAM_PATH: &'static str = "/builtin/web/stream";

/// Where scripts are run from their text.
pub const SCRIPT_PATH: &'static str = "/builtin/script";

/// Where the types of the built-in parameters are.
pub const BUILTIN_TYPES_PATH: &'static str = "/builtin/types";

/// An entry of the catalogue.
#[derive(Debug, Clone, Copy)]
pub struct SeedAction {
    pub path: &'static str,
    pub name: &'static str,
    pub fn_name: &'static str,
    pub description: &'static str,
    pub param_type: Option<&'static str>,
}

/// An entry of the catalogue, as mathematics.
#[verifier::ext_equal]
pub struct SeedRecord {
    pub path: Seq<char>,
    pub name: Seq<char>,
    pub fn_name: Seq<char>,
    pub description: Seq<char>,
    pub param_type: Option<Seq<char>>,
}

impl SeedAction {
    pub open spec fn view(&self) -> SeedRecord {
        SeedRecord {
            path: self.path@,
            name: self.name@,
            fn_name: self.fn_name@,
            description: self.description@,
            param_type: opt_text(self.param_type),
        }
    }
}

pub open spec fn seed_records(v: Seq<SeedAction>) -> Seq<SeedRecord> {
    Seq::new(v.len(), |i: int| v[i]@)
}

/// An entry whose parameters have a type.
pub open spec fn entry(
    path: Seq<char>,
    name: Seq<char>,
    fn_name: Seq<char>,
    description: Seq<char>,
    param_type: Seq<char>,
) -> SeedRecord {
    SeedRecord { path, name, fn_name, description, param_type: Some(param_type) }
}

fn a_at(
    path: &'static str,
    name: &'static str,
    fn_name: &'static str,
    description: &'static str,
    param_type: &'static str,
) -> (r: SeedAction)
    ensures
        r@ == entry(path@, name@, fn_name@, description@, param_type@),
{
    SeedAction { path, name, fn_name, description, param_type: Some(param_type) }
}

/// The entries for documents.
pub open spec fn document_catalogue() -> Seq<SeedRecord> {
    seq![
        entry(
            DOCUMENT_PATH@,
            "entity-save-document"@,
            "entity-save-document"@,
            "Create or update (upsert) a document."@,
            "DocumentCrudParams"@,
        ),
        entry(
            DOCUMENT_PATH@,
            "entity-get-document"@,
            "entity-get-document"@,
            "Fetch a document by path+name."@,
            "EntityRefParams"@,
        ),
        entry(
            DOCUMENT_PATH@,
            "entity-delete-document"@,
            "entity-delete-document"@,
            "Delete a document."@,
            "EntityRefParams"@,
        ),
        entry(
            DOCUMENT_PATH@,
            "entity-list-documents"@,
            "entity-list-documents"@,
            "List documents, optionally filtered by path prefix."@,
            "ListParams"@,
        ),
        entry(
            DOCUMENT_PATH@,
            "entity-list-document-paths"@,
            "entity-list-document-paths"@,
            "List distinct document paths in use, with a count of documents at each, optionally filtered by path prefix."@,
            "ListParams"@,
        ),
        entry(
            DOCUMENT_PATH@,
            "get-field"@,
            "get-field"@,
            "Read one field from a document's contents."@,
            "GetFieldParams"@,
        ),
        entry(
            DOCUMENT_PATH@,
            "set-field"@,
            "set-field"@,
            "Write one field on a document's contents."@,
            "SetFieldParams"@,
        ),
        entry(
            DOCUMENT_PATH@,
            "get-field-at-path"@,
            "get-field-at-path"@,
            "Read a field at a slash-separated path inside a document's contents."@,
            "GetFieldAtPathParams"@,
        ),
        entry(
            DOCUMENT_PATH@,
            "set-field-at-path"@,
            "set-field-at-path"@,
            "Write a field at a slash-separated path inside a document's contents (optionally creating missing parents)."@,
            "SetFieldAtPathParams"@,
        ),
        entry(
            DOCUMENT_PATH@,
            "search-documents"@,
            "search-documents"@,
            "Full-text + faceted search over documents."@,
            "SearchDocumentsParams"@,
        ),
    ]
}

fn document_actions() -> (r: Vec<SeedAction>)
    ensures
        seed_records(r@) == document_catalogue(),
{
    let r = vec![
        a_at(
            DOCUMENT_PATH,
            "entity-save-document",
            "entity-save-document",
            "Create or update (upsert) a document.",
            "DocumentCrudParams",
        ),
        a_at(
            DOCUMENT_PATH,
            "entity-get-document",
            "entity-get-document",
            "Fetch a document by path+name.",
            "EntityRefParams",
        ),
        a_at(
            DOCUMENT_PATH,
            "entity-delete-document",
            "entity-delete-document",
            "Delete a document.",
            "EntityRefParams",
        ),
        a_at(
            DOCUMENT_PATH,
            "entity-list-documents",
            "entity-list-documents",
            "List documents, optionally filtered by path prefix.",
            "ListParams",
        ),
        a_at(
            DOCUMENT_PATH,
            "entity-list-document-paths",
            "entity-list-document-paths",
            "List distinct document paths in use, with a count of documents at each, optionally filtered by path prefix.",
            "ListParams",
        ),
        a_at(
            DOCUMENT_PATH,
            "get-field",
            "get-field",
            "Read one field from a document's contents.",
            "GetFieldParams",
        ),
        a_at(
            DOCUMENT_PATH,
            "set-field",
            "set-field",
            "Write one field on a document's contents.",
            "SetFieldParams",
        ),
        a_at(
            DOCUMENT_PATH,
            "get-field-at-path",
            "get-field-at-path",
            "Read a field at a slash-separated path inside a document's contents.",
            "GetFieldAtPathParams",
        ),
        a_at(
            DOCUMENT_PATH,
            "set-field-at-path",
            "set-field-at-path",
            "Write a field at a slash-separated path inside a document's contents (optionally creating missing parents).",
            "SetFieldAtPathParams",
        ),
        a_at(
            DOCUMENT_PATH,
            "search-documents",
            "search-documents",
            "Full-text + faceted search over documents.",
            "SearchDocumentsParams",
        ),
    ];
    assert(seed_records(r@) =~= document_catalogue());
    r
}

/// The entries for actions.
pub open spec fn action_catalogue() -> Seq<SeedRecord> {
    seq![
        entry(
            ACTION_PATH@,
            "entity-save-action"@,
            "entity-save-action"@,
            "Create or update (upsert) an action."@,
            "ActionCrudParams"@,
        ),
        entry(
            ACTION_PATH@,
            "entity-get-action"@,
            "entity-get-action"@,
            "Fetch an action by path+name."@,
            "EntityRefParams"@,
        ),
        entry(
            ACTION_PATH@,
            "entity-delete-action"@,
            "entity-delete-action"@,
            "Delete an action."@,
            "EntityRefParams"@,
        ),
        entry(
            ACTION_PATH@,
            "entity-list-actions"@,
            "entity-list-actions"@,
            "List actions, optionally filtered by path prefix."@,
            "ListParams"@,
        ),
        entry(
            ACTION_PATH@,
            "entity-list-action-paths"@,
            "entity-list-action-paths"@,
            "List distinct action paths in use, with a count of actions at each, optionally filtered by path prefix."@,
            "ListParams"@,
        ),
        entry(
            ACTION_PATH@,
            "search-actions"@,
            "search-actions"@,
            "Full-text + faceted search over actions."@,
            "SearchActionsParams"@,
        ),
    ]
}

fn action_actions() -> (r: Vec<SeedAction>)
    ensures
        seed_records(r@) == action_catalogue(),
{
    let r = vec![
        a_at(
            ACTION_PATH,
            "entity-save-action",
            "entity-save-action",
            "Create or update (upsert) an action.",
            "ActionCrudParams",
        ),
        a_at(
            ACTION_PATH,
            "entity-get-action",
            "entity-get-action",
            "Fetch an action by path+name.",
            "EntityRefParams",
        ),
        a_at(
            ACTION_PATH,
            "entity-delete-action",
            "entity-delete-action",
            "Delete an action.",
            "EntityRefParams",
        ),
        a_at(
            ACTION_PATH,
            "entity-list-actions",
            "entity-list-actions",
            "List actions, optionally filtered by path prefix.",
            "ListParams",
        ),
        a_at(
            ACTION_PATH,
            "entity-list-action-paths",
            "entity-list-action-paths",
            "List distinct action paths in use, with a count of actions at each, optionally filtered by path prefix.",
            "ListParams",
        ),
        a_at(
            ACTION_PATH,
            "search-actions",
            "search-actions",
            "Full-text + faceted search over actions.",
            "SearchActionsParams",
        ),
    ];
    assert(seed_records(r@) =~= action_catalogue());
    r
}

/// The entries for types.
pub open spec fn entity_type_catalogue() -> Seq<SeedRecord> {
    seq![
        entry(
            TYPE_PATH@,
            "entity-save-type"@,
            "entity-save-type"@,
            "Create or update (upsert) a type."@,
            "TypeCrudParams"@,
        ),
        entry(
            TYPE_PATH@,
            "entity-get-type"@,
            "entity-get-type"@,
            "Fetch a type by path+name."@,
            "EntityRefParams"@,
        ),
        entry(
            TYPE_PATH@,
            "entity-delete-type"@,
            "entity-delete-type"@,
            "Delete a type."@,
            "EntityRefParams"@,
        ),
        entry(
            TYPE_PATH@,
            "entity-list-types"@,
            "entity-list-types"@,
            "List types, optionally filtered by path prefix."@,
            "ListParams"@,
        ),
        entry(
            TYPE_PATH@,
            "entity-list-type-paths"@,
            "entity-list-type-paths"@,
            "List distinct type paths in use, with a count of types at each, optionally filtered by path prefix."@,
            "ListParams"@,
        ),
    ]
}

fn entity_type_actions() -> (r: Vec<SeedAction>)
    ensures
        seed_records(r@) == entity_type_catalogue(),
{
    let r = vec![
        a_at(
            TYPE_PATH,
            "entity-save-type",
            "entity-save-type",
            "Create or update (upsert) a type.",
            "TypeCrudParams",
        ),
        a_at(
            TYPE_PATH,
            "entity-get-type",
            "entity-get-type",
            "Fetch a type by path+name.",
            "EntityRefParams",
        ),
        a_at(
            TYPE_PATH,
            "entity-delete-type",
            "entity-delete-type",
            "Delete a type.",
            "EntityRefParams",
        ),
        a_at(
            TYPE_PATH,
            "entity-list-types",
            "entity-list-types",
            "List types, optionally filtered by path prefix.",
            "ListParams",
        ),
        a_at(
            TYPE_PATH,
            "entity-list-type-paths",
            "entity-list-type-paths",
            "List distinct type paths in use, with a count of types at each, optionally filtered by path prefix.",
            "ListParams",
        ),
    ];
    assert(seed_records(r@) =~= entity_type_catalogue());
    r
}

/// The entries for files.
pub open spec fn file_catalogue() -> Seq<SeedRecord> {
    seq![
        entry(
            FILE_PATH@,
            "file-put"@,
            "file-put"@,
            "Write bytes to a rel-path under the files root."@,
            "FilePutParams"@,
        ),
        entry(
            FILE_PATH@,
            "file-get"@,
            "file-get"@,
            "Read bytes from a rel-path under the files root."@,
            "FileGetParams"@,
        ),
        entry(
            FILE_PATH@,
            "file-delete"@,
            "file-delete"@,
            "Delete a file at a rel-path under the files root."@,
            "FileGetParams"@,
        ),
        entry(
            FILE_PATH@,
            "file-list"@,
            "file-list"@,
            "List stored rel-paths under a prefix."@,
            "FileListParams"@,
        ),
        entry(
            FILE_PATH@,
            "file-copy"@,
            "file-copy"@,
            "Copy a file within the files root."@,
            "FileCopyParams"@,
        ),
        entry(
            FILE_PATH@,
            "dir-copy"@,
            "dir-copy"@,
            "Recursively copy a directory within the files root."@,
            "FileCopyParams"@,
        ),
        entry(
            FILE_PATH@,
            "dir-delete"@,
            "dir-delete"@,
            "Recursively delete a directory (and every file under it) within the files root."@,
            "DirDeleteParams"@,
        ),
    ]
}

fn file_actions() -> (r: Vec<SeedAction>)
    ensures
        seed_records(r@) == file_catalogue(),
{
    let r = vec![
        a_at(
            FILE_PATH,
            "file-put",
            "file-put",
            "Write bytes to a rel-path under the files root.",
            "FilePutParams",
        ),
        a_at(
            FILE_PATH,
            "file-get",
            "file-get",
            "Read bytes from a rel-path under the files root.",
            "FileGetParams",
        ),
        a_at(
            FILE_PATH,
            "file-delete",
            "file-delete",
            "Delete a file at a rel-path under the files root.",
            "FileGetParams",
        ),
        a_at(
            FILE_PATH,
            "file-list",
            "file-list",
            "List stored rel-paths under a prefix.",
            "FileListParams",
        ),
        a_at(
            FILE_PATH,
            "file-copy",
            "file-copy",
            "Copy a file within the files root.",
            "FileCopyParams",
        ),
        a_at(
            FILE_PATH,
            "dir-copy",
            "dir-copy",
            "Recursively copy a directory within the files root.",
            "FileCopyParams",
        ),
        a_at(
            FILE_PATH,
            "dir-delete",
            "dir-delete",
            "Recursively delete a directory (and every file under it) within the files root.",
            "DirDeleteParams",
        ),
    ];
    assert(seed_records(r@) =~= file_catalogue());
    r
}

/// The entries for the environment store.
pub open spec fn env_catalogue() -> Seq<SeedRecord> {
    seq![
        entry(
            ENV_PATH@,
            "get-env"@,
            "get-env"@,
            "Read a variable from the environment store, optionally from a named namespace."@,
            "GetEnvParams"@,
        ),
        entry(
            ENV_PATH@,
            "set-env"@,
            "set-env"@,
            "Write a variable to the environment store. In-memory by default; pass persist to also store it in solx-config.json so it survives a restart."@,
            "SetEnvParams"@,
        ),
    ]
}

fn env_actions() -> (r: Vec<SeedAction>)
    ensures
        seed_records(r@) == env_catalogue(),
{
    let r = vec![
        a_at(
            ENV_PATH,
            "get-env",
            "get-env",
            "Read a variable from the environment store, optionally from a named namespace.",
            "GetEnvParams",
        ),
        a_at(
            ENV_PATH,
            "set-env",
            "set-env",
            "Write a variable to the environment store. In-memory by default; pass persist to also store it in solx-config.json so it survives a restart.",
            "SetEnvParams",
        ),
    ];
    assert(seed_records(r@) =~= env_catalogue());
    r
}

/// The entries for secrets.
pub open spec fn secret_catalogue() -> Seq<SeedRecord> {
    seq![
        entry(
            SECRETS_PATH@,
            "get-secret"@,
            "get-secret"@,
            "Read a secret scoped to the calling action."@,
            "GetSecretParams"@,
        ),
        entry(
            SECRETS_PATH@,
            "set-secret"@,
            "set-secret"@,
            "Write a secret scoped to the calling action."@,
            "SetSecretParams"@,
        ),
    ]
}

fn secret_actions() -> (r: Vec<SeedAction>)
    ensures
        seed_records(r@) == secret_catalogue(),
{
    let r = vec![
        a_at(
            SECRETS_PATH,
            "get-secret",
            "get-secret",
            "Read a secret scoped to the calling action.",
            "GetSecretParams",
        ),
        a_at(
            SECRETS_PATH,
            "set-secret",
            "set-secret",
            "Write a secret scoped to the calling action.",
            "SetSecretParams",
        ),
    ];
    assert(seed_records(r@) =~= secret_catalogue());
    r
}

/// The entries for the OAuth listener.
pub open spec fn oauth_catalogue() -> Seq<SeedRecord> {
    seq![
        entry(
            OAUTH_PATH@,
            "oauth-start"@,
            "oauth-start"@,
            "Start a local OAuth 2.0 authorization-code loopback listener."@,
            "OauthStartParams"@,
        ),
        entry(
            OAUTH_PATH@,
            "oauth-await"@,
            "oauth-await"@,
            "Block until the OAuth loopback for a state_value receives its callback."@,
            "OauthAwaitParams"@,
        ),
        entry(
            OAUTH_PATH@,
            "oauth-stop"@,
            "oauth-stop"@,
            "Stop an OAuth loopback listener."@,
            "OauthStopParams"@,
        ),
    ]
}

fn oauth_actions() -> (r: Vec<SeedAction>)
    ensures
        seed_records(r@) == oauth_catalogue(),
{
    let r = vec![
        a_at(
            OAUTH_PATH,
            "oauth-start",
            "oauth-start",
            "Start a local OAuth 2.0 authorization-code loopback listener.",
            "OauthStartParams",
        ),
        a_at(
            OAUTH_PATH,
            "oauth-await",
            "oauth-await",
            "Block until the OAuth loopback for a state_value receives its callback.",
            "OauthAwaitParams",
        ),
        a_at(
            OAUTH_PATH,
            "oauth-stop",
            "oauth-stop",
            "Stop an OAuth loopback listener.",
            "OauthStopParams",
        ),
    ];
    assert(seed_records(r@) =~= oauth_catalogue());
    r
}

/// The entries for URLs.
pub open spec fn web_catalogue() -> Seq<SeedRecord> {
    seq![
        entry(
            WEB_PATH@,
            "http-request"@,
            "http-request"@,
            "Issue an HTTP request with optional method, headers, body, and timeout."@,
            "HttpRequestParams"@,
        ),
        entry(
            WEB_PATH@,
            "open-url"@,
            "open-url"@,
            "Open a URL in the system browser via the platform-native handler (xdg-open / open / cmd /C start)."@,
            "OpenUrlParams"@,
        ),
    ]
}

fn web_actions() -> (r: Vec<SeedAction>)
    ensures
        seed_records(r@) == web_catalogue(),
{
    let r = vec![
        a_at(
            WEB_PATH,
            "http-request",
            "http-request",
            "Issue an HTTP request with optional method, headers, body, and timeout.",
            "HttpRequestParams",
        ),
        a_at(
            WEB_PATH,
            "open-url",
            "open-url",
            "Open a URL in the system browser via the platform-native handler (xdg-open / open / cmd /C start).",
            "OpenUrlParams",
        ),
    ];
    assert(seed_records(r@) =~= web_catalogue());
    r
}

/// The entries for scripts.
pub open spec fn script_catalogue() -> Seq<SeedRecord> {
    seq![
        entry(
            SCRIPT_PATH@,
            "exec"@,
            "script-exec"@,
            "Parse and immediately run a solx script from a string, returning its result. Supports the same 'exec <path/name> [--json '<params>']' and 'json <value>' stages as a Script-typed action."@,
            "ScriptExecParams"@,
        ),
    ]
}

fn script_actions() -> (r: Vec<SeedAction>)
    ensures
        seed_records(r@) == script_catalogue(),
{
    let r = vec![
        a_at(
            SCRIPT_PATH,
            "exec",
            "script-exec",
            "Parse and immediately run a solx script from a string, returning its result. Supports the same 'exec <path/name> [--json '<params>']' and 'json <value>' stages as a Script-typed action.",
            "ScriptExecParams",
        ),
    ];
    assert(seed_records(r@) =~= script_catalogue());
    r
}

/// The entries for streams.
pub open spec fn stream_catalogue() -> Seq<SeedRecord> {
    seq![
        entry(
            WEB_STREAM_PATH@,
            "start"@,
            "http-stream-start"@,
            "Issue a streaming HTTP request. Returns stream_id and status as soon as response headers arrive, without waiting for the body."@,
            "HttpStreamStartParams"@,
        ),
        entry(
            WEB_STREAM_PATH@,
            "poll"@,
            "http-stream-poll"@,
            "Drain newline-delimited JSON chunks buffered for a stream since cursor, optionally long-polling up to wait_secs for more."@,
            "HttpStreamPollParams"@,
        ),
        entry(
            WEB_STREAM_PATH@,
            "close"@,
            "http-stream-close"@,
            "Stop a stream's reader task and drop its buffer."@,
            "HttpStreamCloseParams"@,
        ),
    ]
}

fn stream_actions() -> (r: Vec<SeedAction>)
    ensures
        seed_records(r@) == stream_catalogue(),
{
    let r = vec![
        a_at(
            WEB_STREAM_PATH,
            "start",
            "http-stream-start",
            "Issue a streaming HTTP request. Returns stream_id and status as soon as response headers arrive, without waiting for the body.",
            "HttpStreamStartParams",
        ),
        a_at(
            WEB_STREAM_PATH,
            "poll",
            "http-stream-poll",
            "Drain newline-delimited JSON chunks buffered for a stream since cursor, optionally long-polling up to wait_secs for more.",
            "HttpStreamPollParams",
        ),
        a_at(
            WEB_STREAM_PATH,
            "close",
            "http-stream-close",
            "Stop a stream's reader task and drop its buffer.",
            "HttpStreamCloseParams",
        ),
    ];
    assert(seed_records(r@) =~= stream_catalogue());
    r
}

/// The built-in catalogue.
pub open spec fn catalogue() -> Seq<SeedRecord> {
    document_catalogue() + action_catalogue() + entity_type_catalogue() + file_catalogue() + env_catalogue() + secret_catalogue() + oauth_catalogue() + web_catalogue() + script_catalogue() + stream_catalogue()
}

fn joined(a: Vec<SeedAction>, b: Vec<SeedAction>) -> (r: Vec<SeedAction>)
    ensures
        seed_records(r@) == seed_records(a@) + seed_records(b@),
{
    let ghost before = a@;
    let ghost more = b@;
    let mut a = a;
    let mut b = b;
    a.append(&mut b);
    assert(a@ =~= before + more);
    assert(seed_records(a@) =~= seed_records(before) + seed_records(more));
    a
}

/// The built-in catalogue.
pub fn builtin_actions() -> (r: Vec<SeedAction>)
    ensures
        seed_records(r@) == catalogue(),
{
    let r = document_actions();
    let r = joined(r, action_actions());
    let r = joined(r, entity_type_actions());
    let r = joined(r, file_actions());
    let r = joined(r, env_actions());
    let r = joined(r, secret_actions());
    let r = joined(r, oauth_actions());
    let r = joined(r, web_actions());
    let r = joined(r, script_actions());
    let r = joined(r, stream_actions());
    r
}

/// Whether each of the entries names an operation of the library.
pub open spec fn all_reach(c: Seq<SeedRecord>) -> bool {
    forall|i: int| 0 <= i < c.len() ==> operation_named((#[trigger] c[i]).fn_name) is Some
}

proof fn lemma_document_reach()
    ensures
        all_reach(document_catalogue()),
{
    reveal_strlit("entity-save-document");
    reveal_strlit("entity_save_document");
    assert(folded("entity-save-document"@) =~= "entity_save_document"@);
    reveal_strlit("entity-get-document");
    reveal_strlit("entity_get_document");
    assert(folded("entity-get-document"@) =~= "entity_get_document"@);
    reveal_strlit("entity-delete-document");
    reveal_strlit("entity_delete_document");
    assert(folded("entity-delete-document"@) =~= "entity_delete_document"@);
    reveal_strlit("entity-list-documents");
    reveal_strlit("entity_list_documents");
    assert(folded("entity-list-documents"@) =~= "entity_list_documents"@);
    reveal_strlit("entity-list-document-paths");
    reveal_strlit("entity_list_document_paths");
    assert(folded("entity-list-document-paths"@) =~= "entity_list_document_paths"@);
    reveal_strlit("get-field");
    reveal_strlit("get_field");
    assert(folded("get-field"@) =~= "get_field"@);
    reveal_strlit("set-field");
    reveal_strlit("set_field");
    assert(folded("set-field"@) =~= "set_field"@);
    reveal_strlit("get-field-at-path");
    reveal_strlit("get_field_at_path");
    assert(folded("get-field-at-path"@) =~= "get_field_at_path"@);
    reveal_strlit("set-field-at-path");
    reveal_strlit("set_field_at_path");
    assert(folded("set-field-at-path"@) =~= "set_field_at_path"@);
    reveal_strlit("search-documents");
    reveal_strlit("search_documents");
    assert(folded("search-documents"@) =~= "search_documents"@);
}

proof fn lemma_action_reach()
    ensures
        all_reach(action_catalogue()),
{
    reveal_strlit("entity-save-action");
    reveal_strlit("entity_save_action");
    assert(folded("entity-save-action"@) =~= "entity_save_action"@);
    reveal_strlit("entity-get-action");
    reveal_strlit("entity_get_action");
    assert(folded("entity-get-action"@) =~= "entity_get_action"@);
    reveal_strlit("entity-delete-action");
    reveal_strlit("entity_delete_action");
    assert(folded("entity-delete-action"@) =~= "entity_delete_action"@);
    reveal_strlit("entity-list-actions");
    reveal_strlit("entity_list_actions");
    assert(folded("entity-list-actions"@) =~= "entity_list_actions"@);
    reveal_strlit("entity-list-action-paths");
    reveal_strlit("entity_list_action_paths");
    assert(folded("entity-list-action-paths"@) =~= "entity_list_action_paths"@);
    reveal_strlit("search-actions");
    reveal_strlit("search_actions");
    assert(folded("search-actions"@) =~= "search_actions"@);
}

proof fn lemma_entity_type_reach()
    ensures
        all_reach(entity_type_catalogue()),
{
    reveal_strlit("entity-save-type");
    reveal_strlit("entity_save_type");
    assert(folded("entity-save-type"@) =~= "entity_save_type"@);
    reveal_strlit("entity-get-type");
    reveal_strlit("entity_get_type");
    assert(folded("entity-get-type"@) =~= "entity_get_type"@);
    reveal_strlit("entity-delete-type");
    reveal_strlit("entity_delete_type");
    assert(folded("entity-delete-type"@) =~= "entity_delete_type"@);
    reveal_strlit("entity-list-types");
    reveal_strlit("entity_list_types");
    assert(folded("entity-list-types"@) =~= "entity_list_types"@);
    reveal_strlit("entity-list-type-paths");
    reveal_strlit("entity_list_type_paths");
    assert(folded("entity-list-type-paths"@) =~= "entity_list_type_paths"@);
}

proof fn lemma_file_reach()
    ensures
        all_reach(file_catalogue()),
{
    reveal_strlit("file-put");
    reveal_strlit("file_put");
    assert(folded("file-put"@) =~= "file_put"@);
    reveal_strlit("file-get");
    reveal_strlit("file_get");
    assert(folded("file-get"@) =~= "file_get"@);
    reveal_strlit("file-delete");
    reveal_strlit("file_delete");
    assert(folded("file-delete"@) =~= "file_delete"@);
    reveal_strlit("file-list");
    reveal_strlit("file_list");
    assert(folded("file-list"@) =~= "file_list"@);
    reveal_strlit("file-copy");
    reveal_strlit("file_copy");
    assert(folded("file-copy"@) =~= "file_copy"@);
    reveal_strlit("dir-copy");
    reveal_strlit("dir_copy");
    assert(folded("dir-copy"@) =~= "dir_copy"@);
    reveal_strlit("dir-delete");
    reveal_strlit("dir_delete");
    assert(folded("dir-delete"@) =~= "dir_delete"@);
}

proof fn lemma_env_reach()
    ensures
        all_reach(env_catalogue()),
{
    reveal_strlit("get-env");
    reveal_strlit("get_env");
    assert(folded("get-env"@) =~= "get_env"@);
    reveal_strlit("set-env");
    reveal_strlit("set_env");
    assert(folded("set-env"@) =~= "set_env"@);
}

proof fn lemma_secret_reach()
    ensures
        all_reach(secret_catalogue()),
{
    reveal_strlit("get-secret");
    reveal_strlit("get_secret");
    assert(folded("get-secret"@) =~= "get_secret"@);
    reveal_strlit("set-secret");
    reveal_strlit("set_secret");
    assert(folded("set-secret"@) =~= "set_secret"@);
}

proof fn lemma_oauth_reach()
    ensures
        all_reach(oauth_catalogue()),
{
    reveal_strlit("oauth-start");
    reveal_strlit("oauth_start");
    assert(folded("oauth-start"@) =~= "oauth_start"@);
    reveal_strlit("oauth-await");
    reveal_strlit("oauth_await");
    assert(folded("oauth-await"@) =~= "oauth_await"@);
    reveal_strlit("oauth-stop");
    reveal_strlit("oauth_stop");
    assert(folded("oauth-stop"@) =~= "oauth_stop"@);
}

proof fn lemma_web_reach()
    ensures
        all_reach(web_catalogue()),
{
    reveal_strlit("http-request");
    reveal_strlit("http_request");
    assert(folded("http-request"@) =~= "http_request"@);
    reveal_strlit("open-url");
    reveal_strlit("open_url");
    assert(folded("open-url"@) =~= "open_url"@);
}

proof fn lemma_script_reach()
    ensures
        all_reach(script_catalogue()),
{
    reveal_strlit("script-exec");
    reveal_strlit("script_exec");
    assert(folded("script-exec"@) =~= "script_exec"@);
}

proof fn lemma_stream_reach()
    ensures
        all_reach(stream_catalogue()),
{
    reveal_strlit("http-stream-start");
    reveal_strlit("http_stream_start");
    assert(folded("http-stream-start"@) =~= "http_stream_start"@);
    reveal_strlit("http-stream-poll");
    reveal_strlit("http_stream_poll");
    assert(folded("http-stream-poll"@) =~= "http_stream_poll"@);
    reveal_strlit("http-stream-close");
    reveal_strlit("http_stream_close");
    assert(folded("http-stream-close"@) =~= "http_stream_close"@);
}

proof fn lemma_all_reach_joined(a: Seq<SeedRecord>, b: Seq<SeedRecord>)
    requires
        all_reach(a),
        all_reach(b),
    ensures
        all_reach(a + b),
{
    let c = a + b;
    assert forall|i: int| 0 <= i < c.len() implies operation_named((#[trigger] c[i]).fn_name) is Some by {
        if i < a.len() {
            assert(c[i] == a[i]);
        } else {
            assert(c[i] == b[i - a.len()]);
        }
    }
}

/// Every entry of the catalogue names an operation: none of the built-in actions
/// leads nowhere.
pub proof fn lemma_catalogue_reaches()
    ensures
        all_reach(catalogue()),
{
    lemma_document_reach();
    lemma_action_reach();
    lemma_entity_type_reach();
    lemma_file_reach();
    lemma_env_reach();
    lemma_secret_reach();
    lemma_oauth_reach();
    lemma_web_reach();
    lemma_script_reach();
    lemma_stream_reach();
    lemma_all_reach_joined(
        document_catalogue(),
        action_catalogue(),
    );
    lemma_all_reach_joined(
        document_catalogue() + action_catalogue(),
        entity_type_catalogue(),
    );
    lemma_all_reach_joined(
        document_catalogue() + action_catalogue() + entity_type_catalogue(),
        file_catalogue(),
    );
    lemma_all_reach_joined(
        document_catalogue() + action_catalogue() + entity_type_catalogue() + file_catalogue(),
        env_catalogue(),
    );
    lemma_all_reach_joined(
        document_catalogue() + action_catalogue() + entity_type_catalogue() + file_catalogue() + env_catalogue(),
        secret_catalogue(),
    );
    lemma_all_reach_joined(
        document_catalogue() + action_catalogue() + entity_type_catalogue() + file_catalogue() + env_catalogue() + secret_catalogue(),
        oauth_catalogue(),
    );
    lemma_all_reach_joined(
        document_catalogue() + action_catalogue() + entity_type_catalogue() + file_catalogue() + env_catalogue() + secret_catalogue() + oauth_catalogue(),
        web_catalogue(),
    );
    lemma_all_reach_joined(
        document_catalogue() + action_catalogue() + entity_type_catalogue() + file_catalogue() + env_catalogue() + secret_catalogue() + oauth_catalogue() + web_catalogue(),
        script_catalogue(),
    );
    lemma_all_reach_joined(
        document_catalogue() + action_catalogue() + entity_type_catalogue() + file_catalogue() + env_catalogue() + secret_catalogue() + oauth_catalogue() + web_catalogue() + script_catalogue(),
        stream_catalogue(),
    );
}

// ── Seeding ──────────────────────────────────────────────────────────────────

/// The action that an entry is stored as.
pub open spec fn seed_record(e: SeedRecord, id: Seq<char>, now: Seq<char>) -> ActionRecord {
    ActionRecord {
        id,
        path: e.path,
        name: e.name,
        caption: None,
        description: if e.description.len() > 0 {
            Some(e.description)
        } else {
            None
        },
        capabilities: Seq::empty(),
        phrases: Seq::empty(),
        category: None,
        param_type_ref: match e.param_type {
            Some(t) => Some(BUILTIN_TYPES_PATH@ + "/"@ + t),
            None => None,
        },
        result_type_ref: None,
        action_type: Some(ActionType::Internal),
        fn_name: if e.fn_name.len() > 0 {
            Some(e.fn_name)
        } else {
            None
        },
        bin_name: None,
        action_config: None,
        files: Seq::empty(),
        trusted: true,
        created_at: now,
        updated_at: now,
    }
}

fn seed_action(e: &SeedAction, id: &str, now: &str) -> (r: Action)
    ensures
        r@ == seed_record(e@, id@, now@),
{
    let r = Action {
        id: id.to_owned(),
        path: e.path.to_owned(),
        name: e.name.to_owned(),
        caption: None,
        description: if e.description.is_empty() {
            None
        } else {
            Some(e.description.to_owned())
        },
        capabilities: Vec::new(),
        phrases: Vec::new(),
        category: None,
        param_type_ref: match e.param_type {
            Some(t) => Some(cat3(BUILTIN_TYPES_PATH, "/", t)),
            None => None,
        },
        result_type_ref: None,
        action_type: Some(ActionType::Internal),
        fn_name: if e.fn_name.is_empty() {
            None
        } else {
            Some(e.fn_name.to_owned())
        },
        bin_name: None,
        action_config: None,
        files: Vec::new(),
        trusted: true,
        created_at: now.to_owned(),
        updated_at: now.to_owned(),
    };
    assert(r@ =~= seed_record(e@, id@, now@));
    r
}

/// The actions with the first `n` entries added, each where there is none at its
/// path and name.
pub open spec fn seeded(
    rows: Seq<ActionRecord>,
    entries: Seq<SeedRecord>,
    ids: Seq<Seq<char>>,
    now: Seq<char>,
    n: nat,
) -> Seq<ActionRecord>
    decreases n,
{
    if n == 0 || n > entries.len() {
        rows
    } else {
        with_new(
            seeded(rows, entries, ids, now, (n - 1) as nat),
            seed_record(entries[n - 1], ids[n - 1], now),
        )
    }
}

/// Add the entries of a catalogue to a store, under the given identifiers. What is
/// on record already stays as it is.
pub fn seed_entries(store: &mut ActionStore, entries: &Vec<SeedAction>, ids: &Vec<String>, now: &str)
    requires
        ids@.len() == entries@.len(),
    ensures
        final(store)@ == seeded(
            old(store)@,
            seed_records(entries@),
            texts(ids@),
            now@,
            entries@.len(),
        ),
{
    let ghost rows = store@;
    let ghost all = seed_records(entries@);
    let ghost names = texts(ids@);
    let mut i: usize = 0;
    while i < entries.len()
        invariant
            i <= entries.len(),
            ids@.len() == entries@.len(),
            all == seed_records(entries@),
            names == texts(ids@),
            store@ == seeded(rows, all, names, now@, i as nat),
        decreases entries.len() - i,
    {
        assert(all[i as int] == entries@[i as int]@);
        assert(names[i as int] == ids@[i as int]@);
        let a = seed_action(&entries[i], ids[i].as_str(), now);
        store.insert_new(a);
        i += 1;
    }
}

/// Whether `after` is what seeding the entries leaves of `before`, under some
/// identifiers and at some time.
pub open spec fn is_seeding(
    before: Seq<ActionRecord>,
    after: Seq<ActionRecord>,
    entries: Seq<SeedRecord>,
    ids: Seq<Seq<char>>,
    now: Seq<char>,
) -> bool {
    &&& ids.len() == entries.len()
    &&& forall|i: int| 0 <= i < ids.len() ==> is_uuid(#[trigger] ids[i])
    &&& after == seeded(before, entries, ids, now, entries.len())
}

fn fresh_ids(n: usize) -> (r: Vec<String>)
    ensures
        r@.len() == n,
        forall|i: int| 0 <= i < n ==> is_uuid(#[trigger] texts(r@)[i]),
{
    let mut out: Vec<String> = Vec::new();
    while out.len() < n
        invariant
            out.len() <= n,
            forall|i: int| 0 <= i < out.len() ==> is_uuid((#[trigger] out@[i])@),
        decreases n - out.len(),
    {
        out.push(new_uuid());
    }
    assert forall|i: int| 0 <= i < n implies is_uuid(#[trigger] texts(out@)[i]) by {
        assert(texts(out@)[i] == out@[i]@);
    }
    out
}

/// Put the catalogue on record, and the entries that other parts add to it. Each
/// new action has a fresh identifier and the time that it is.
pub fn seed_builtins(store: &mut ActionStore, extra: Vec<SeedAction>)
    ensures
        exists|ids: Seq<Seq<char>>, now: Seq<char>|
            is_utc_time(now) && #[trigger] is_seeding(
                old(store)@,
                final(store)@,
                catalogue() + seed_records(extra@),
                ids,
                now,
            ),
{
    let entries = joined(builtin_actions(), extra);
    let ids = fresh_ids(entries.len());
    let now = now_rfc3339();
    let ghost before = store@;
    seed_entries(store, &entries, &ids, now.as_str());
    assert(is_seeding(
        before,
        store@,
        catalogue() + seed_records(extra@),
        texts(ids@),
        now@,
    ));
}

/// Seeding leaves every action that is on record as it is.
pub proof fn lemma_seeding_keeps_what_is_there(
    rows: Seq<ActionRecord>,
    entries: Seq<SeedRecord>,
    ids: Seq<Seq<char>>,
    now: Seq<char>,
    n: nat,
    path: Seq<char>,
    name: Seq<char>,
)
    requires
        places_distinct(rows),
        n <= entries.len(),
        action_at(rows, path, name) is Some,
    ensures
        places_distinct(seeded(rows, entries, ids, now, n)),
        action_at(seeded(rows, entries, ids, now, n), path, name) == action_at(rows, path, name),
    decreases n,
{
    if n > 0 {
        lemma_seeding_keeps_what_is_there(rows, entries, ids, now, (n - 1) as nat, path, name);
        let before = seeded(rows, entries, ids, now, (n - 1) as nat);
        let a = seed_record(entries[n - 1], ids[n - 1], now);
        lemma_with_new_distinct(before, a);
        if action_at(before, a.path, a.name) is None {
            lemma_saved_is_on_record(before, a, path, name);
        }
    }
}

proof fn lemma_seeding_keeps_distinct(
    rows: Seq<ActionRecord>,
    entries: Seq<SeedRecord>,
    ids: Seq<Seq<char>>,
    now: Seq<char>,
    n: nat,
)
    requires
        places_distinct(rows),
        n <= entries.len(),
    ensures
        places_distinct(seeded(rows, entries, ids, now, n)),
    decreases n,
{
    if n > 0 {
        lemma_seeding_keeps_distinct(rows, entries, ids, now, (n - 1) as nat);
        lemma_with_new_distinct(
            seeded(rows, entries, ids, now, (n - 1) as nat),
            seed_record(entries[n - 1], ids[n - 1], now),
        );
    }
}

/// After seeding there is an action at the place of every entry.
pub proof fn lemma_seeded_entries_are_there(
    rows: Seq<ActionRecord>,
    entries: Seq<SeedRecord>,
    ids: Seq<Seq<char>>,
    now: Seq<char>,
    n: nat,
    i: int,
)
    requires
        places_distinct(rows),
        0 <= i < n <= entries.len(),
    ensures
        action_at(seeded(rows, entries, ids, now, n), entries[i].path, entries[i].name) is Some,
    decreases n,
{
    let before = seeded(rows, entries, ids, now, (n - 1) as nat);
    let a = seed_record(entries[n - 1], ids[n - 1], now);
    lemma_seeding_keeps_distinct(rows, entries, ids, now, (n - 1) as nat);
    if i < n - 1 {
        lemma_seeded_entries_are_there(rows, entries, ids, now, (n - 1) as nat, i);
    }
    if action_at(before, a.path, a.name) is None {
        lemma_saved_is_on_record(before, a, entries[i].path, entries[i].name);
    }
}

/// Seeding a second time, under whatever identifiers and at whatever time,
/// changes nothing.
pub proof fn lemma_seeding_is_idempotent(
    rows: Seq<ActionRecord>,
    entries: Seq<SeedRecord>,
    ids: Seq<Seq<char>>,
    now: Seq<char>,
    later_ids: Seq<Seq<char>>,
    later: Seq<char>,
    n: nat,
)
    requires
        places_distinct(rows),
        n <= entries.len(),
    ensures
        seeded(seeded(rows, entries, ids, now, entries.len()), entries, later_ids, later, n)
            == seeded(rows, entries, ids, now, entries.len()),
    decreases n,
{
    if n > 0 {
        lemma_seeding_is_idempotent(rows, entries, ids, now, later_ids, later, (n - 1) as nat);
        lemma_seeded_entries_are_there(rows, entries, ids, now, entries.len(), n - 1);
    }
}

} // verus!
