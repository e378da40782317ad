//! The catalogue: what every installation starts with.

use vstd::prelude::*;
use vstd::string::*;

use crate::entities::{ActionRecord, ActionType};
use crate::seed::{action_catalogue, document_catalogue, entity_type_catalogue, env_catalogue};
use crate::seed::{file_catalogue, is_seeding, lemma_seeded_entries_are_there};
use crate::seed::{lemma_seeding_keeps_what_is_there, oauth_catalogue, script_catalogue};
use crate::seed::{secret_catalogue, seed_record, stream_catalogue, web_catalogue, SeedRecord};
use crate::store::{action_at, places_distinct};

verus! {

/// What an entry of the catalogue is as an action: an internal one that runs the
/// entry's operation, trusted, with the type of its parameters and nothing to
/// configure.
pub proof fn lemma_catalogued_actions(e: SeedRecord, id: Seq<char>, now: Seq<char>)
    ensures
        ({
            let a = seed_record(e, id, now);
            &&& a.id == id
            &&& a.path == e.path
            &&& a.name == e.name
            &&& a.action_type == Some(ActionType::Internal)
            &&& (e.fn_name.len() > 0 ==> a.fn_name == Some(e.fn_name))
            &&& (e.description.len() > 0 ==> a.description == Some(e.description))
            &&& (e.param_type matches Some(t) ==> a.param_type_ref == Some(
                "/builtin/types"@ + "/"@ + t,
            ))
            &&& (e.param_type is None ==> a.param_type_ref is None)
            &&& a.bin_name is None
            &&& a.action_config is None
            &&& a.trusted
            &&& a.created_at == now
            &&& a.updated_at == now
        }),
{
}

/// The operations on documents: where they are, how many there are, and that each runs the
/// operation of its name on parameters of a type of its own.
pub proof fn lemma_document_catalogue(i: int)
    requires
        0 <= i < document_catalogue().len(),
    ensures
        document_catalogue().len() == 10,
        ({
            let c = document_catalogue()[i];
            &&& c.path == "/builtin/document"@
            &&& c.fn_name == c.name
            &&& c.description.len() > 0
            &&& c.param_type is Some
        }),
{
    reveal_strlit(
        "Create or update (upsert) a document.",
    );
    reveal_strlit(
        "Fetch a document by path+name.",
    );
    reveal_strlit(
        "Delete a document.",
    );
    reveal_strlit(
        "List documents, optionally filtered by path prefix.",
    );
    reveal_strlit(
        "List distinct document paths in use, with a count of documents at each, optionally filtered by path prefix.",
    );
    reveal_strlit(
        "Read one field from a document's contents.",
    );
    reveal_strlit(
        "Write one field on a document's contents.",
    );
    reveal_strlit(
        "Read a field at a slash-separated path inside a document's contents.",
    );
    reveal_strlit(
        "Write a field at a slash-separated path inside a document's contents (optionally creating missing parents).",
    );
    reveal_strlit(
        "Full-text + faceted search over documents.",
    );
    let all = document_catalogue();
    assert(all.len() == 10);
}

/// The operations on actions: where they are, how many there are, and that each runs the
/// operation of its name on parameters of a type of its own.
pub proof fn lemma_action_catalogue(i: int)
    requires
        0 <= i < action_catalogue().len(),
    ensures
        action_catalogue().len() == 6,
        ({
            let c = action_catalogue()[i];
            &&& c.path == "/builtin/action"@
            &&& c.fn_name == c.name
            &&& c.description.len() > 0
            &&& c.param_type is Some
        }),
{
    reveal_strlit(
        "Create or update (upsert) an action.",
    );
    reveal_strlit(
        "Fetch an action by path+name.",
    );
    reveal_strlit(
        "Delete an action.",
    );
    reveal_strlit(
        "List actions, optionally filtered by path prefix.",
    );
    reveal_strlit(
        "List distinct action paths in use, with a count of actions at each, optionally filtered by path prefix.",
    );
    reveal_strlit(
        "Full-text + faceted search over actions.",
    );
    let all = action_catalogue();
    assert(all.len() == 6);
}

/// The operations on types: where they are, how many there are, and that each runs the
/// operation of its name on parameters of a type of its own.
pub proof fn lemma_entity_type_catalogue(i: int)
    requires
        0 <= i < entity_type_catalogue().len(),
    ensures
        entity_type_catalogue().len() == 5,
        ({
            let c = entity_type_catalogue()[i];
            &&& c.path == "/builtin/type"@
            &&& c.fn_name == c.name
            &&& c.description.len() > 0
            &&& c.param_type is Some
        }),
{
    reveal_strlit(
        "Create or update (upsert) a type.",
    );
    reveal_strlit(
        "Fetch a type by path+name.",
    );
    reveal_strlit(
        "Delete a type.",
    );
    reveal_strlit(
        "List types, optionally filtered by path prefix.",
    );
    reveal_strlit(
        "List distinct type paths in use, with a count of types at each, optionally filtered by path prefix.",
    );
    let all = entity_type_catalogue();
    assert(all.len() == 5);
}

/// The operations on files: where they are, how many there are, and that each runs the
/// operation of its name on parameters of a type of its own.
pub proof fn lemma_file_catalogue(i: int)
    requires
        0 <= i < file_catalogue().len(),
    ensures
        file_catalogue().len() == 7,
        ({
            let c = file_catalogue()[i];
            &&& c.path == "/builtin/file"@
            &&& c.fn_name == c.name
            &&& c.description.len() > 0
            &&& c.param_type is Some
        }),
{
    reveal_strlit(
        "Write bytes to a rel-path under the files root.",
    );
    reveal_strlit(
        "Read bytes from a rel-path under the files root.",
    );
    reveal_strlit(
        "Delete a file at a rel-path under the files root.",
    );
    reveal_strlit(
        "List stored rel-paths under a prefix.",
    );
    reveal_strlit(
        "Copy a file within the files root.",
    );
    reveal_strlit(
        "Recursively copy a directory within the files root.",
    );
    reveal_strlit(
        "Recursively delete a directory (and every file under it) within the files root.",
    );
    let all = file_catalogue();
    assert(all.len() == 7);
}

/// The operations on variables: where they are, how many there are, and that each runs the
/// operation of its name on parameters of a type of its own.
pub proof fn lemma_env_catalogue(i: int)
    requires
        0 <= i < env_catalogue().len(),
    ensures
        env_catalogue().len() == 2,
        ({
            let c = env_catalogue()[i];
            &&& c.path == "/builtin/env"@
            &&& c.fn_name == c.name
            &&& c.description.len() > 0
            &&& c.param_type is Some
        }),
{
    reveal_strlit(
        "Read a variable from the environment store, optionally from a named namespace.",
    );
    reveal_strlit(
        "Write a variable to the environment store. In-memory by default; pass persist to also store it in solx-config.json so it survives a restart.",
    );
    let all = env_catalogue();
    assert(all.len() == 2);
}

/// The operations on secrets: where they are, how many there are, and that each runs the
/// operation of its name on parameters of a type of its own.
pub proof fn lemma_secret_catalogue(i: int)
    requires
        0 <= i < secret_catalogue().len(),
    ensures
        secret_catalogue().len() == 2,
        ({
            let c = secret_catalogue()[i];
            &&& c.path == "/builtin/secrets"@
            &&& c.fn_name == c.name
            &&& c.description.len() > 0
            &&& c.param_type is Some
        }),
{
    reveal_strlit(
        "Read a secret scoped to the calling action.",
    );
    reveal_strlit(
        "Write a secret scoped to the calling action.",
    );
    let all = secret_catalogue();
    assert(all.len() == 2);
}

/// The operations on signing in: where they are, how many there are, and that each runs the
/// operation of its name on parameters of a type of its own.
pub proof fn lemma_oauth_catalogue(i: int)
    requires
        0 <= i < oauth_catalogue().len(),
    ensures
        oauth_catalogue().len() == 3,
        ({
            let c = oauth_catalogue()[i];
            &&& c.path == "/builtin/oauth"@
            &&& c.fn_name == c.name
            &&& c.description.len() > 0
            &&& c.param_type is Some
        }),
{
    reveal_strlit(
        "Start a local OAuth 2.0 authorization-code loopback listener.",
    );
    reveal_strlit(
        "Block until the OAuth loopback for a state_value receives its callback.",
    );
    reveal_strlit(
        "Stop an OAuth loopback listener.",
    );
    let all = oauth_catalogue();
    assert(all.len() == 3);
}

/// The operations on the web: where they are, how many there are, and that each runs the
/// operation of its name on parameters of a type of its own.
pub proof fn lemma_web_catalogue(i: int)
    requires
        0 <= i < web_catalogue().len(),
    ensures
        web_catalogue().len() == 2,
        ({
            let c = web_catalogue()[i];
            &&& c.path == "/builtin/web"@
            &&& c.fn_name == c.name
            &&& c.description.len() > 0
            &&& c.param_type is Some
        }),
{
    reveal_strlit(
        "Issue an HTTP request with optional method, headers, body, and timeout.",
    );
    reveal_strlit(
        "Open a URL in the system browser via the platform-native handler (xdg-open / open / cmd /C start).",
    );
    let all = web_catalogue();
    assert(all.len() == 2);
}

/// The operations on scripts: where they are, how many there are, and that each runs the
/// operation of its name on parameters of a type of its own.
pub proof fn lemma_script_catalogue(i: int)
    requires
        0 <= i < script_catalogue().len(),
    ensures
        script_catalogue().len() == 1,
        ({
            let c = script_catalogue()[i];
            &&& c.path == "/builtin/script"@
            &&& c.fn_name == "script-"@ + c.name
            &&& c.description.len() > 0
            &&& c.param_type is Some
        }),
{
    reveal_strlit(
        "Parse and immediately run a solx script from a string, returning its result. Supports the same 'exec <path/name> [--json '<params>']' and 'json <value>' stages as a Script-typed action.",
    );
    reveal_strlit("script-");
    reveal_strlit("exec");
    reveal_strlit("script-exec");
    assert("script-exec"@ =~= "script-"@ + "exec"@);
    let all = script_catalogue();
    assert(all.len() == 1);
}

/// The operations on streams: where they are, how many there are, and that each runs the
/// operation of its name on parameters of a type of its own.
pub proof fn lemma_stream_catalogue(i: int)
    requires
        0 <= i < stream_catalogue().len(),
    ensures
        stream_catalogue().len() == 3,
        ({
            let c = stream_catalogue()[i];
            &&& c.path == "/builtin/web/stream"@
            &&& c.fn_name == "http-stream-"@ + c.name
            &&& c.description.len() > 0
            &&& c.param_type is Some
        }),
{
    reveal_strlit(
        "Issue a streaming HTTP request. Returns stream_id and status as soon as response headers arrive, without waiting for the body.",
    );
    reveal_strlit(
        "Drain newline-delimited JSON chunks buffered for a stream since cursor, optionally long-polling up to wait_secs for more.",
    );
    reveal_strlit(
        "Stop a stream's reader task and drop its buffer.",
    );
    reveal_strlit("http-stream-");
    reveal_strlit("start");
    reveal_strlit("http-stream-start");
    assert("http-stream-start"@ =~= "http-stream-"@ + "start"@);
    reveal_strlit("poll");
    reveal_strlit("http-stream-poll");
    assert("http-stream-poll"@ =~= "http-stream-"@ + "poll"@);
    reveal_strlit("close");
    reveal_strlit("http-stream-close");
    assert("http-stream-close"@ =~= "http-stream-"@ + "close"@);
    let all = stream_catalogue();
    assert(all.len() == 3);
}

/// After seeding every entry of the catalogue is there, and what was there before is
/// as it was.
pub proof fn lemma_after_seeding(
    before: Seq<ActionRecord>,
    after: Seq<ActionRecord>,
    entries: Seq<SeedRecord>,
    ids: Seq<Seq<char>>,
    now: Seq<char>,
    i: int,
    path: Seq<char>,
    name: Seq<char>,
)
    requires
        is_seeding(before, after, entries, ids, now),
        places_distinct(before),
        0 <= i < entries.len(),
    ensures
        action_at(after, entries[i].path, entries[i].name) is Some,
        action_at(before, path, name) is Some ==> action_at(after, path, name) == action_at(
            before,
            path,
            name,
        ),
        ids.len() == entries.len(),
{
    lemma_seeded_entries_are_there(before, entries, ids, now, entries.len(), i);
    if action_at(before, path, name) is Some {
        lemma_seeding_keeps_what_is_there(before, entries, ids, now, entries.len(), path, name);
    }
}

/// Whether an entry has a name and takes parameters of a type.
pub open spec fn takes_params(e: SeedRecord, name: Seq<char>, param_type: Seq<char>) -> bool {
    e.name == name && e.param_type == Some(param_type)
}

/// Which parameters the operations of the catalogue take.
pub proof fn lemma_parameter_types()
    ensures
        takes_params(document_catalogue()[0], "entity-save-document"@, "DocumentCrudParams"@),
        takes_params(document_catalogue()[1], "entity-get-document"@, "EntityRefParams"@),
        takes_params(document_catalogue()[2], "entity-delete-document"@, "EntityRefParams"@),
        takes_params(document_catalogue()[3], "entity-list-documents"@, "ListParams"@),
        takes_params(document_catalogue()[4], "entity-list-document-paths"@, "ListParams"@),
        takes_params(document_catalogue()[5], "get-field"@, "GetFieldParams"@),
        takes_params(document_catalogue()[6], "set-field"@, "SetFieldParams"@),
        takes_params(document_catalogue()[7], "get-field-at-path"@, "GetFieldAtPathParams"@),
        takes_params(document_catalogue()[8], "set-field-at-path"@, "SetFieldAtPathParams"@),
        takes_params(document_catalogue()[9], "search-documents"@, "SearchDocumentsParams"@),
        takes_params(action_catalogue()[0], "entity-save-action"@, "ActionCrudParams"@),
        takes_params(action_catalogue()[1], "entity-get-action"@, "EntityRefParams"@),
        takes_params(action_catalogue()[2], "entity-delete-action"@, "EntityRefParams"@),
        takes_params(action_catalogue()[3], "entity-list-actions"@, "ListParams"@),
        takes_params(action_catalogue()[4], "entity-list-action-paths"@, "ListParams"@),
        takes_params(action_catalogue()[5], "search-actions"@, "SearchActionsParams"@),
        takes_params(entity_type_catalogue()[0], "entity-save-type"@, "TypeCrudParams"@),
        takes_params(entity_type_catalogue()[1], "entity-get-type"@, "EntityRefParams"@),
        takes_params(entity_type_catalogue()[2], "entity-delete-type"@, "EntityRefParams"@),
        takes_params(entity_type_catalogue()[3], "entity-list-types"@, "ListParams"@),
        takes_params(entity_type_catalogue()[4], "entity-list-type-paths"@, "ListParams"@),
        takes_params(file_catalogue()[0], "file-put"@, "FilePutParams"@),
        takes_params(file_catalogue()[1], "file-get"@, "FileGetParams"@),
        takes_params(file_catalogue()[2], "file-delete"@, "FileGetParams"@),
        takes_params(file_catalogue()[3], "file-list"@, "FileListParams"@),
        takes_params(file_catalogue()[4], "file-copy"@, "FileCopyParams"@),
        takes_params(file_catalogue()[5], "dir-copy"@, "FileCopyParams"@),
        takes_params(file_catalogue()[6], "dir-delete"@, "DirDeleteParams"@),
        takes_params(env_catalogue()[0], "get-env"@, "GetEnvParams"@),
        takes_params(env_catalogue()[1], "set-env"@, "SetEnvParams"@),
        takes_params(secret_catalogue()[0], "get-secret"@, "GetSecretParams"@),
        takes_params(secret_catalogue()[1], "set-secret"@, "SetSecretParams"@),
        takes_params(oauth_catalogue()[0], "oauth-start"@, "OauthStartParams"@),
        takes_params(oauth_catalogue()[1], "oauth-await"@, "OauthAwaitParams"@),
        takes_params(oauth_catalogue()[2], "oauth-stop"@, "OauthStopParams"@),
        takes_params(web_catalogue()[0], "http-request"@, "HttpRequestParams"@),
        takes_params(web_catalogue()[1], "open-url"@, "OpenUrlParams"@),
        takes_params(script_catalogue()[0], "exec"@, "ScriptExecParams"@),
        takes_params(stream_catalogue()[0], "start"@, "HttpStreamStartParams"@),
        takes_params(stream_catalogue()[1], "poll"@, "HttpStreamPollParams"@),
        takes_params(stream_catalogue()[2], "close"@, "HttpStreamCloseParams"@),
{
}

} // verus!
