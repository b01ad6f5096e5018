//! What is said between the daemon and its servers, and to whom.

use vstd::prelude::*;
use vstd::string::*;

use crate::daemon::request;
use crate::daemon::request::Request;
use crate::daemon::session;
use crate::daemon::session::{Action, DaemonView};
use crate::json;
use crate::json::JsonView;
use crate::laws::shapes;
use crate::lsp::client;
use crate::lsp::client::{ClientView, Incoming};
use crate::lsp::decode;
use crate::lsp::recent;
use crate::lsp::server;
use crate::lsp::server::ServerEventView;
use crate::lsp::sync;
use crate::lsp::types;
use crate::lsp::types::DiagnosticItem;
use crate::lsp::wire::FromLsp;
use crate::path;
use crate::registry;
use crate::registry::EnsureStep;
use crate::text;

verus! {

proof fn lemma_members()
    ensures
        "id"@.len() == 2,
        "uri"@.len() == 3,
        "name"@.len() == 4,
        "text"@.len() == 4,
        "type"@.len() == 4,
        "code"@.len() == 4,
        "error"@.len() == 5,
        "jsonrpc"@.len() == 7,
        "method"@.len() == 6,
        "params"@.len() == 6,
        "result"@.len() == 6,
        "version"@.len() == 7,
        "changes"@.len() == 7,
        "rootUri"@.len() == 7,
        "message"@.len() == 7,
        "rootPath"@.len() == 8,
        "processId"@.len() == 9,
        "clientInfo"@.len() == 10,
        "languageId"@.len() == 10,
        "capabilities"@.len() == 12,
        "textDocument"@.len() == 12,
        "contentChanges"@.len() == 14,
        "workspaceFolders"@.len() == 16,
        "initializationOptions"@.len() == 21,
        "applied"@.len() == 7,
        "kind"@.len() == 4,
        "title"@.len() == 5,
        "name"@ != "text"@,
        "name"@ != "type"@,
        "text"@ != "type"@,
        "method"@ != "params"@,
        "method"@ != "result"@,
        "params"@ != "result"@,
        "jsonrpc"@ != "rootUri"@,
        "jsonrpc"@ != "version"@,
        "version"@ != "rootUri"@,
        "clientInfo"@ != "languageId"@,
        "capabilities"@ != "textDocument"@,
{
    reveal_strlit("id");
    reveal_strlit("uri");
    reveal_strlit("name");
    reveal_strlit("text");
    reveal_strlit("type");
    reveal_strlit("code");
    reveal_strlit("error");
    reveal_strlit("jsonrpc");
    reveal_strlit("method");
    reveal_strlit("params");
    reveal_strlit("result");
    reveal_strlit("version");
    reveal_strlit("changes");
    reveal_strlit("rootUri");
    reveal_strlit("message");
    reveal_strlit("rootPath");
    reveal_strlit("processId");
    reveal_strlit("clientInfo");
    reveal_strlit("languageId");
    reveal_strlit("capabilities");
    reveal_strlit("textDocument");
    reveal_strlit("contentChanges");
    reveal_strlit("workspaceFolders");
    reveal_strlit("initializationOptions");
    reveal_strlit("applied");
    reveal_strlit("kind");
    reveal_strlit("title");
    assert("name"@[0] != "text"@[0]);
    assert("name"@[0] != "type"@[0]);
    assert("text"@[1] != "type"@[1]);
    assert("method"@[0] != "params"@[0]);
    assert("method"@[0] != "result"@[0]);
    assert("params"@[0] != "result"@[0]);
    assert("jsonrpc"@[0] != "rootUri"@[0]);
    assert("jsonrpc"@[0] != "version"@[0]);
    assert("version"@[0] != "rootUri"@[0]);
    assert("clientInfo"@[0] != "languageId"@[0]);
    assert("capabilities"@[0] != "textDocument"@[0]);
}

/// Every request carries the number that the editor gave it.
pub proof fn law_requests_keep_their_number(req: Request)
    ensures
        req is Initialize ==> req.spec_id() == req->Initialize_id,
        req is Shutdown ==> req.spec_id() == req->Shutdown_id,
        req is JuliaActivateEnvironment ==> req.spec_id() == req->JuliaActivateEnvironment_id,
        req is JuliaRefreshLanguageServer ==> req.spec_id() == req->JuliaRefreshLanguageServer_id,
        req is ReloadConfiguration ==> req.spec_id() == req->ReloadConfiguration_id,
        req is DidOpen ==> req.spec_id() == req->DidOpen_id,
        req is DidChange ==> req.spec_id() == req->DidChange_id,
        req is DidSave ==> req.spec_id() == req->DidSave_id,
        req is DidClose ==> req.spec_id() == req->DidClose_id,
        req is Completion ==> req.spec_id() == req->Completion_id,
        req is Hover ==> req.spec_id() == req->Hover_id,
        req is Definition ==> req.spec_id() == req->Definition_id,
        req is References ==> req.spec_id() == req->References_id,
        req is CodeAction ==> req.spec_id() == req->CodeAction_id,
        req is ExecuteAction ==> req.spec_id() == req->ExecuteAction_id,
        req is Formatting ==> req.spec_id() == req->Formatting_id,
        req is Rename ==> req.spec_id() == req->Rename_id,
        req is SignatureHelp ==> req.spec_id() == req->SignatureHelp_id,
        req is Implementation ==> req.spec_id() == req->Implementation_id,
        req is TypeDefinition ==> req.spec_id() == req->TypeDefinition_id,
        req is DocumentSymbol ==> req.spec_id() == req->DocumentSymbol_id,
        req is WorkspaceSymbol ==> req.spec_id() == req->WorkspaceSymbol_id,
        req is DocumentHighlight ==> req.spec_id() == req->DocumentHighlight_id,
        req is InlayHint ==> req.spec_id() == req->InlayHint_id,
        req is PrepareCallHierarchy ==> req.spec_id() == req->PrepareCallHierarchy_id,
        req is IncomingCalls ==> req.spec_id() == req->IncomingCalls_id,
        req is OutgoingCalls ==> req.spec_id() == req->OutgoingCalls_id,
        req is SelectionRange ==> req.spec_id() == req->SelectionRange_id,
        req is SemanticTokensFull ==> req.spec_id() == req->SemanticTokensFull_id,
        req is SemanticTokensDelta ==> req.spec_id() == req->SemanticTokensDelta_id,
        req is SemanticTokensRange ==> req.spec_id() == req->SemanticTokensRange_id,
        req is CodeLens ==> req.spec_id() == req->CodeLens_id,
        req is FoldingRange ==> req.spec_id() == req->FoldingRange_id,
        req is LinkedEditingRange ==> req.spec_id() == req->LinkedEditingRange_id,
        req is CompletionResolve ==> req.spec_id() == req->CompletionResolve_id,
        req is ExecuteCodeLens ==> req.spec_id() == req->ExecuteCodeLens_id,
        req is PrepareTypeHierarchy ==> req.spec_id() == req->PrepareTypeHierarchy_id,
        req is Supertypes ==> req.spec_id() == req->Supertypes_id,
        req is Subtypes ==> req.spec_id() == req->Subtypes_id,
        req is PullDiagnostics ==> req.spec_id() == req->PullDiagnostics_id,
        req is InstallServer ==> req.spec_id() == req->InstallServer_id,
        req is ListInstallable ==> req.spec_id() == req->ListInstallable_id,
{
}

/// Every request about a filetype carries that filetype.
pub proof fn law_requests_keep_their_filetype(req: Request)
    ensures
        req is JuliaActivateEnvironment ==> req.spec_language() == req->JuliaActivateEnvironment_language_id@,
        req is JuliaRefreshLanguageServer ==> req.spec_language() == req->JuliaRefreshLanguageServer_language_id@,
        req is DidOpen ==> req.spec_language() == req->DidOpen_language_id@,
        req is Completion ==> req.spec_language() == req->Completion_language_id@,
        req is Hover ==> req.spec_language() == req->Hover_language_id@,
        req is Definition ==> req.spec_language() == req->Definition_language_id@,
        req is References ==> req.spec_language() == req->References_language_id@,
        req is CodeAction ==> req.spec_language() == req->CodeAction_language_id@,
        req is ExecuteAction ==> req.spec_language() == req->ExecuteAction_language_id@,
        req is Formatting ==> req.spec_language() == req->Formatting_language_id@,
        req is Rename ==> req.spec_language() == req->Rename_language_id@,
        req is SignatureHelp ==> req.spec_language() == req->SignatureHelp_language_id@,
        req is Implementation ==> req.spec_language() == req->Implementation_language_id@,
        req is TypeDefinition ==> req.spec_language() == req->TypeDefinition_language_id@,
        req is DocumentSymbol ==> req.spec_language() == req->DocumentSymbol_language_id@,
        req is WorkspaceSymbol ==> req.spec_language() == req->WorkspaceSymbol_language_id@,
        req is DocumentHighlight ==> req.spec_language() == req->DocumentHighlight_language_id@,
        req is InlayHint ==> req.spec_language() == req->InlayHint_language_id@,
        req is PrepareCallHierarchy ==> req.spec_language() == req->PrepareCallHierarchy_language_id@,
        req is IncomingCalls ==> req.spec_language() == req->IncomingCalls_language_id@,
        req is OutgoingCalls ==> req.spec_language() == req->OutgoingCalls_language_id@,
        req is SelectionRange ==> req.spec_language() == req->SelectionRange_language_id@,
        req is SemanticTokensFull ==> req.spec_language() == req->SemanticTokensFull_language_id@,
        req is SemanticTokensDelta ==> req.spec_language() == req->SemanticTokensDelta_language_id@,
        req is SemanticTokensRange ==> req.spec_language() == req->SemanticTokensRange_language_id@,
        req is CodeLens ==> req.spec_language() == req->CodeLens_language_id@,
        req is FoldingRange ==> req.spec_language() == req->FoldingRange_language_id@,
        req is LinkedEditingRange ==> req.spec_language() == req->LinkedEditingRange_language_id@,
        req is CompletionResolve ==> req.spec_language() == req->CompletionResolve_language_id@,
        req is ExecuteCodeLens ==> req.spec_language() == req->ExecuteCodeLens_language_id@,
        req is PrepareTypeHierarchy ==> req.spec_language() == req->PrepareTypeHierarchy_language_id@,
        req is Supertypes ==> req.spec_language() == req->Supertypes_language_id@,
        req is Subtypes ==> req.spec_language() == req->Subtypes_language_id@,
        req is PullDiagnostics ==> req.spec_language() == req->PullDiagnostics_language_id@,
{
}

// ---------------------------------------------------------------------------
// Documents
// ---------------------------------------------------------------------------

/// Whether a message is a notification.
pub open spec fn notifies(m: JsonView, method: Seq<char>) -> bool {
    &&& shapes::has_text(m, "jsonrpc"@, "2.0"@)
    &&& shapes::has_text(m, "method"@, method)
    &&& shapes::lacks(m, "id"@)
    &&& shapes::holds(m, "params"@)
}

/// The parameters of a message.
pub open spec fn params(m: JsonView) -> JsonView {
    shapes::member(m, "params"@)
}

/// The document in the parameters of a message.
pub open spec fn document(m: JsonView) -> JsonView {
    shapes::member(params(m), "textDocument"@)
}

/// A document that is opened is told with its filetype, version and text.
pub proof fn law_opened_documents_are_told(c: ClientView, req: Request)
    requires
        req is DidOpen,
    ensures
        session::document_message_view(c, req) is Some,
        ({
            let m = session::document_message_view(c, req)->0;
            &&& notifies(m, "textDocument/didOpen"@)
            &&& shapes::holds(params(m), "textDocument"@)
            &&& shapes::has_text(document(m), "uri"@, req->DidOpen_uri@)
            &&& shapes::has_text(document(m), "languageId"@, req->DidOpen_language_id@)
            &&& shapes::has_number(document(m), "version"@, req->DidOpen_version as int)
            &&& shapes::has_text(document(m), "text"@, req->DidOpen_text@)
        }),
{
    lemma_members();
}

/// Whether a server takes changes piece by piece: it says so by a number, or by a
/// number under a member.
pub open spec fn takes_pieces(c: ClientView) -> bool {
    &&& c.capabilities is Some
    &&& {
        ||| shapes::has_number(c.capabilities->0, "textDocumentSync"@, 2)
        ||| shapes::holds(c.capabilities->0, "textDocumentSync"@) && shapes::has_number(
            shapes::member(c.capabilities->0, "textDocumentSync"@),
            "change"@,
            2,
        )
    }
}

/// Whether a message tells of the whole text of a document.
pub open spec fn tells_whole(m: JsonView, text: Seq<char>) -> bool {
    &&& shapes::holds(params(m), "contentChanges"@)
    &&& shapes::member(params(m), "contentChanges"@) is Array
    &&& shapes::member(params(m), "contentChanges"@)->Array_0.len() == 1
    &&& shapes::has_text(shapes::member(params(m), "contentChanges"@)->Array_0[0], "text"@, text)
    &&& shapes::lacks(shapes::member(params(m), "contentChanges"@)->Array_0[0], "range"@)
}

/// A change is told with the document and its version. A server that takes pieces
/// gets those that the editor has, each as it is and in order. Any other gets the
/// whole text.
pub proof fn law_changed_documents_are_told(c: ClientView, req: Request)
    requires
        req is DidChange,
    ensures
        session::document_message_view(c, req) is Some,
        ({
            let m = session::document_message_view(c, req)->0;
            &&& notifies(m, "textDocument/didChange"@)
            &&& shapes::holds(params(m), "textDocument"@)
            &&& shapes::has_text(document(m), "uri"@, req->DidChange_uri@)
            &&& shapes::has_number(document(m), "version"@, req->DidChange_version as int)
            &&& takes_pieces(c) && req->DidChange_changes is Some ==> shapes::has_list(
                params(m),
                "contentChanges"@,
                json::items_view(req->DidChange_changes->0@),
            )
            &&& (!takes_pieces(c) || req->DidChange_changes is None) && req->DidChange_text is Some
                ==> tells_whole(m, req->DidChange_text->0@)
            &&& (!takes_pieces(c) || req->DidChange_changes is None) && req->DidChange_text is None
                ==> tells_whole(m, Seq::empty())
        }),
{
    lemma_members();
    reveal_strlit("range");
    assert("range"@.len() == 5);
}

/// A document that is saved is told with its text where the editor gives it.
pub proof fn law_saved_documents_are_told(c: ClientView, req: Request)
    requires
        req is DidSave,
    ensures
        session::document_message_view(c, req) is Some,
        ({
            let m = session::document_message_view(c, req)->0;
            &&& notifies(m, "textDocument/didSave"@)
            &&& shapes::holds(params(m), "textDocument"@)
            &&& shapes::has_text(document(m), "uri"@, req->DidSave_uri@)
            &&& req->DidSave_text is Some ==> shapes::has_text(
                params(m),
                "text"@,
                req->DidSave_text->0@,
            )
            &&& req->DidSave_text is None ==> shapes::lacks(params(m), "text"@)
        }),
{
    lemma_members();
}

/// A document that is closed is told.
pub proof fn law_closed_documents_are_told(c: ClientView, req: Request)
    requires
        req is DidClose,
    ensures
        session::document_message_view(c, req) is Some,
        ({
            let m = session::document_message_view(c, req)->0;
            &&& notifies(m, "textDocument/didClose"@)
            &&& shapes::holds(params(m), "textDocument"@)
            &&& shapes::has_text(document(m), "uri"@, req->DidClose_uri@)
        }),
{
    lemma_members();
}

/// Changes to files are told one by one, each with the file and what became of it.
pub proof fn law_file_changes_are_told(changes: Seq<(Seq<char>, u32)>)
    ensures
        ({
            let m = sync::watched_message(changes);
            &&& notifies(m, "workspace/didChangeWatchedFiles"@)
            &&& shapes::holds(params(m), "changes"@)
            &&& shapes::member(params(m), "changes"@) is Array
            &&& shapes::member(params(m), "changes"@)->Array_0.len() == changes.len()
            &&& forall|k: int|
                0 <= k < changes.len() ==> shapes::has_text(
                    #[trigger] shapes::member(params(m), "changes"@)->Array_0[k],
                    "uri"@,
                    changes[k].0,
                ) && shapes::has_number(
                    shapes::member(params(m), "changes"@)->Array_0[k],
                    "type"@,
                    changes[k].1 as int,
                )
        }),
{
    lemma_members();
}

/// Changes that are new and differ from each other are all passed on, in order.
pub proof fn law_new_changes_are_all_passed_on(
    times: Map<(Seq<char>, u32), u64>,
    changes: Seq<(Seq<char>, u32)>,
    now: u64,
)
    requires
        changes.no_duplicates(),
        forall|i: int|
            0 <= i < changes.len() ==> !times.contains_key(#[trigger] changes[i]),
    ensures
        sync::passed_on(times, changes, now) == changes,
        forall|k: (Seq<char>, u32)|
            times.contains_key(k) || changes.contains(k) <==> #[trigger] sync::times_after(
                times,
                changes,
                now,
            ).contains_key(k),
        forall|i: int|
            0 <= i < changes.len() ==> sync::times_after(times, changes, now)[#[trigger] changes[i]]
                == now,
    decreases changes.len(),
{
    if changes.len() > 0 {
        let rest = changes.drop_last();
        let last = changes.last();
        assert(rest.no_duplicates());
        assert forall|i: int| 0 <= i < rest.len() implies !times.contains_key(
            #[trigger] rest[i],
        ) by {
            assert(rest[i] == changes[i]);
        }
        law_new_changes_are_all_passed_on(times, rest, now);
        assert(!rest.contains(last)) by {
            if rest.contains(last) {
                let i = choose|i: int| 0 <= i < rest.len() && rest[i] == last;
                assert(changes[i] == changes[changes.len() - 1]);
            }
        }
        assert(last == changes[changes.len() - 1]);
        assert(!sync::times_after(times, rest, now).contains_key(last));
        assert(rest.push(last) =~= changes);
        assert forall|k: (Seq<char>, u32)|
            times.contains_key(k) || changes.contains(k) <==> #[trigger] sync::times_after(
                times,
                changes,
                now,
            ).contains_key(k) by {
            if changes.contains(k) && k != last {
                let i = choose|i: int| 0 <= i < changes.len() && changes[i] == k;
                assert(rest[i] == k);
            }
            if rest.contains(k) {
                let i = choose|i: int| 0 <= i < rest.len() && rest[i] == k;
                assert(changes[i] == k);
            }
            if k == last {
                assert(changes[changes.len() - 1] == k);
            }
        }
        assert forall|i: int| 0 <= i < changes.len() implies sync::times_after(
            times,
            changes,
            now,
        )[#[trigger] changes[i]] == now by {
            if i < rest.len() {
                assert(rest[i] == changes[i]);
            }
        }
    } else {
        assert(sync::passed_on(times, changes, now) =~= changes);
    }
}

/// Only a server that has asked to hear of changed files hears of them.
pub proof fn law_only_watchers_hear_of_files(
    c: ClientView,
    changes: Seq<(Seq<char>, u32)>,
    now: u64,
)
    requires
        changes.no_duplicates(),
        c.watched =~= Map::empty(),
    ensures
        c.registered.contains("workspace/didChangeWatchedFiles"@) ==> sync::told_changes(
            c,
            changes,
            now,
        ) == changes,
        !c.registered.contains("workspace/didChangeWatchedFiles"@) ==> sync::told_changes(
            c,
            changes,
            now,
        ).len() == 0,
{
    law_new_changes_are_all_passed_on(
        recent::recent_within(c.watched, now, sync::REMEMBER_NS),
        changes,
        now,
    );
}

// ---------------------------------------------------------------------------
// Beginning
// ---------------------------------------------------------------------------

/// A server is told at its start who asks, where the workspace is, and the
/// options that are configured for it.
pub proof fn law_servers_are_introduced(
    process_id: u32,
    version: Seq<char>,
    root_uri: Seq<char>,
    root_path: Seq<char>,
    options: JsonView,
)
    ensures
        ({
            let p = sync::initialize_params(
                process_id,
                version,
                root_uri,
                root_path,
                Some(options),
            );
            &&& shapes::has_number(p, "processId"@, process_id as int)
            &&& shapes::holds(p, "clientInfo"@)
            &&& shapes::has_text(shapes::member(p, "clientInfo"@), "version"@, version)
            &&& shapes::has_text(p, "rootUri"@, root_uri)
            &&& shapes::has_text(p, "rootPath"@, root_path)
            &&& shapes::has(p, "initializationOptions"@, options)
            &&& shapes::holds(p, "workspaceFolders"@)
            &&& shapes::member(p, "workspaceFolders"@) is Array
            &&& shapes::member(p, "workspaceFolders"@)->Array_0.len() == 1
            &&& shapes::has_text(
                shapes::member(p, "workspaceFolders"@)->Array_0[0],
                "uri"@,
                root_uri,
            )
            &&& path::components_of(root_path).len() > 0 && path::name_of(root_path) is Some
                ==> shapes::has_text(
                shapes::member(p, "workspaceFolders"@)->Array_0[0],
                "name"@,
                path::name_of(root_path)->0,
            )
            &&& path::name_of(root_path) is None ==> shapes::has_text(
                shapes::member(p, "workspaceFolders"@)->Array_0[0],
                "name"@,
                "workspace"@,
            )
            &&& shapes::has_text(shapes::member(p, "clientInfo"@), "name"@, "SimpleCC"@)
        }),
        shapes::has(
            sync::initialize_params(process_id, version, root_uri, root_path, None),
            "initializationOptions"@,
            JsonView::Null,
        ),
{
    lemma_members();
}

/// What a server can do is what it says at its start.
pub proof fn law_capabilities_are_the_servers(
    c: ClientView,
    result: JsonView,
    capabilities: JsonView,
    error: Seq<char>,
)
    requires
        shapes::has(result, "capabilities"@, capabilities),
    ensures
        sync::initialized(c, Ok(result)).capabilities == Some(capabilities),
        sync::initialized(c, Err(error)) == c,
{
}

// ---------------------------------------------------------------------------
// What a server asks
// ---------------------------------------------------------------------------

/// Whether a message answers another with a result.
pub open spec fn responds(m: JsonView, id: JsonView, result: JsonView) -> bool {
    &&& shapes::has_text(m, "jsonrpc"@, "2.0"@)
    &&& shapes::has(m, "id"@, id)
    &&& shapes::has(m, "result"@, result)
    &&& shapes::lacks(m, "error"@)
    &&& shapes::lacks(m, "method"@)
}

/// Every request of a server is answered under its number: one that the daemon
/// knows with its result, any other with an error.
pub proof fn law_servers_are_answered(
    msg: JsonView,
    settings: JsonView,
    id: JsonView,
    method: Seq<char>,
)
    requires
        shapes::has(msg, "id"@, id),
        shapes::has_text(msg, "method"@, method),
    ensures
        method == "workspace/configuration"@ ==> responds(
            server::server_response(msg, settings),
            id,
            JsonView::Array(server::configuration_of(msg.get("params"@), settings)),
        ),
        method == "client/registerCapability"@ || method == "window/workDoneProgress/create"@
            ==> responds(server::server_response(msg, settings), id, JsonView::Null),
        method == "workspace/applyEdit"@ ==> shapes::has(
            server::server_response(msg, settings),
            "id"@,
            id,
        ) && shapes::holds(server::server_response(msg, settings), "result"@) && shapes::has(
            shapes::member(server::server_response(msg, settings), "result"@),
            "applied"@,
            JsonView::Bool(true),
        ),
        method != "workspace/configuration"@ && method != "client/registerCapability"@ && method
            != "window/workDoneProgress/create"@ && method != "workspace/applyEdit"@ ==> {
            let m = server::server_response(msg, settings);
            &&& shapes::has_text(m, "jsonrpc"@, "2.0"@)
            &&& shapes::has(m, "id"@, id)
            &&& shapes::lacks(m, "result"@)
            &&& shapes::holds(m, "error"@)
            &&& shapes::has_number(shapes::member(m, "error"@), "code"@, -32601)
        },
{
    lemma_members();
    reveal_strlit("workspace/configuration");
    reveal_strlit("client/registerCapability");
    reveal_strlit("window/workDoneProgress/create");
    reveal_strlit("workspace/applyEdit");
    assert("workspace/configuration"@.len() == 23);
    assert("client/registerCapability"@.len() == 25);
    assert("window/workDoneProgress/create"@.len() == 30);
    assert("workspace/applyEdit"@.len() == 19);
}

/// Settings are handed out item by item: each gets the value of its section, and
/// one without a section all settings.
pub proof fn law_settings_are_handed_out(
    p: JsonView,
    settings: JsonView,
    items: Seq<JsonView>,
    i: int,
    section: Seq<char>,
    value: JsonView,
)
    requires
        shapes::has_list(p, "items"@, items),
        0 <= i < items.len(),
    ensures
        server::configuration_of(Some(p), settings).len() == items.len(),
        shapes::has_text(items[i], "section"@, section) && shapes::has(settings, section, value)
            ==> server::configuration_of(Some(p), settings)[i] == value,
        shapes::lacks(items[i], "section"@) ==> server::configuration_of(Some(p), settings)[i]
            == settings,
{
}

/// A section of several words separated by dots leads from object to object.
pub proof fn law_sections_lead_inwards(
    settings: JsonView,
    outer: Seq<char>,
    inner: Seq<char>,
    value: JsonView,
)
    requires
        !outer.contains('.'),
        !inner.contains('.'),
        shapes::lacks(settings, outer + seq!['.'] + inner),
    ensures
        shapes::holds(settings, outer) && shapes::has(
            shapes::member(settings, outer),
            inner,
            value,
        ) ==> server::section_value(settings, outer + seq!['.'] + inner) == value,
        shapes::lacks(settings, outer) ==> server::section_value(
            settings,
            outer + seq!['.'] + inner,
        ) is Null,
        shapes::holds(settings, outer) && !shapes::holds(shapes::member(settings, outer), inner)
            ==> server::section_value(settings, outer + seq!['.'] + inner) is Null,
{
    let s = outer + seq!['.'] + inner;
    lemma_find(s, '.', 0, outer.len() as int);
    assert(s.take(outer.len() as int) =~= outer);
    assert(s.skip((outer.len() + 1) as int) =~= inner);
    lemma_find(inner, '.', 0, inner.len() as int);
    assert(text::split(inner, '.') =~= seq![inner]);
    assert(text::split(s, '.') =~= seq![outer, inner]);
    let keys = text::split(s, '.');
    assert(keys.drop_first() =~= seq![inner]);
    assert(keys.drop_first().drop_first() =~= Seq::empty());
    reveal_with_fuel(server::value_along, 3);
}

proof fn lemma_find(s: Seq<char>, c: char, from: int, at: int)
    requires
        0 <= from <= at <= s.len(),
        forall|i: int| from <= i < at ==> s[i] != c,
        at < s.len() ==> s[at] == c,
    ensures
        text::find_from(s, c, from) == at,
    decreases at - from,
{
    if from < at {
        lemma_find(s, c, from + 1, at);
    }
}

/// Every method that a server registers for is registered.
pub proof fn law_every_registration_counts(
    c: ClientView,
    msg: JsonView,
    registrations: Seq<JsonView>,
    i: int,
    method: Seq<char>,
)
    requires
        shapes::holds(msg, "id"@),
        shapes::has_text(msg, "method"@, "client/registerCapability"@),
        shapes::holds(msg, "params"@),
        shapes::has_list(shapes::member(msg, "params"@), "registrations"@, registrations),
        0 <= i < registrations.len(),
        shapes::has_text(registrations[i], "method"@, method),
    ensures
        client::after_message(c, msg).registered.contains(method),
        c.registered.subset_of(client::after_message(c, msg).registered),
{
    let p = |j: JsonView| j.at("method"@) is Str;
    let f = |j: JsonView| j.at("method"@).text();
    registrations.lemma_filter_contains(p, i);
    let kept = registrations.filter(p);
    let k = choose|k: int| 0 <= k < kept.len() && kept[k] == registrations[i];
    let methods = server::registered_by(msg);
    assert(methods =~= kept.map_values(f));
    assert(methods[k] == method);
    assert(methods.to_set().contains(method));
}

/// No method counts as registered that no registration names.
pub proof fn law_only_registrations_count(c: ClientView, msg: JsonView, method: Seq<char>)
    requires
        client::after_message(c, msg).registered.contains(method),
        !c.registered.contains(method),
    ensures
        shapes::has_text(msg, "method"@, "client/registerCapability"@),
        exists|i: int|
            0 <= i < msg.at("params"@).at("registrations"@).items().len() && shapes::has_text(
                #[trigger] msg.at("params"@).at("registrations"@).items()[i],
                "method"@,
                method,
            ),
{
    reveal_strlit("client/registerCapability");
    assert("client/registerCapability"@.len() == 25);
    let registrations = msg.at("params"@).at("registrations"@).items();
    let p = |j: JsonView| j.at("method"@) is Str;
    let f = |j: JsonView| j.at("method"@).text();
    let kept = registrations.filter(p);
    let methods = server::registered_by(msg);
    assert(methods.contains(method));
    let k = choose|k: int| 0 <= k < methods.len() && methods[k] == method;
    assert(methods =~= kept.map_values(f));
    registrations.lemma_filter_pred(p, k);
    assert(kept.contains(kept[k]));
    registrations.lemma_filter_contains_rev(p, kept[k]);
    let i = choose|i: int| 0 <= i < registrations.len() && registrations[i] == kept[k];
    assert(shapes::has_text(registrations[i], "method"@, method));
}

// ---------------------------------------------------------------------------
// What a server tells
// ---------------------------------------------------------------------------

/// What a server logs or shows is passed on with its level.
pub proof fn law_server_messages_are_passed_on(
    msg: JsonView,
    level: int,
    message: Seq<char>,
)
    requires
        shapes::holds(msg, "params"@),
        shapes::has_number(shapes::member(msg, "params"@), "type"@, level),
        shapes::has_text(shapes::member(msg, "params"@), "message"@, message),
    ensures
        ({
            let name = if level == 1 {
                "error"@
            } else if level == 2 {
                "warn"@
            } else if level == 3 {
                "info"@
            } else {
                "debug"@
            };
            &&& server::notification_event("window/logMessage"@, msg) == Some(
                ServerEventView::LogMessage { level: name, message },
            )
            &&& server::notification_event("window/showMessage"@, msg) == Some(
                ServerEventView::ShowMessage { level: name, message },
            )
        }),
{
    lemma_methods();
}

proof fn lemma_methods()
    ensures
        "window/logMessage"@.len() == 17,
        "window/showMessage"@.len() == 18,
        "textDocument/publishDiagnostics"@.len() == 31,
        "$/progress"@.len() == 10,
{
    reveal_strlit("window/logMessage");
    reveal_strlit("window/showMessage");
    reveal_strlit("textDocument/publishDiagnostics");
    reveal_strlit("$/progress");
}

/// Diagnostics are passed on with their document, every one and in order.
pub proof fn law_diagnostics_are_passed_on(
    msg: JsonView,
    read: JsonView,
    uri: Seq<char>,
    items: Seq<JsonView>,
    k: int,
)
    requires
        shapes::holds(msg, "params"@),
        decode::read_publish_diagnostics(shapes::member(msg, "params"@)) == Ok::<
            JsonView,
            Seq<char>,
        >(read),
        shapes::has_text(read, "uri"@, uri),
        shapes::has_list(read, "diagnostics"@, items),
        0 <= k < items.len(),
    ensures
        ({
            let e = server::notification_event("textDocument/publishDiagnostics"@, msg);
            &&& e is Some
            &&& e->0 is Diagnostics
            &&& e->0->Diagnostics_uri == uri
            &&& e->0->Diagnostics_diagnostics.len() == items.len()
            &&& e->0->Diagnostics_diagnostics[k] == DiagnosticItem::lsp(items[k])
        }),
{
    lemma_methods();
}

/// Progress is passed on under its token, with all that it says.
pub proof fn law_progress_is_passed_on(
    msg: JsonView,
    value: JsonView,
    token: Seq<char>,
    kind: Seq<char>,
    title: Seq<char>,
    message: Seq<char>,
    percentage: u64,
)
    requires
        shapes::holds(msg, "params"@),
        shapes::has_text(shapes::member(msg, "params"@), "token"@, token),
        shapes::has(shapes::member(msg, "params"@), "value"@, value),
        shapes::has_text(value, "kind"@, kind),
    ensures
        ({
            let e = server::notification_event("$/progress"@, msg);
            &&& e is Some
            &&& e->0 is Progress
            &&& e->0->Progress_token == json::json_text(JsonView::Str(token))
            &&& e->0->Progress_kind == kind
            &&& shapes::has_text(value, "title"@, title) ==> e->0->Progress_title == title
            &&& shapes::has_text(value, "message"@, message) ==> e->0->Progress_message == message
            &&& shapes::has_number(value, "percentage"@, percentage as int)
                ==> e->0->Progress_percentage == Some(percentage)
            &&& shapes::lacks(value, "title"@) ==> e->0->Progress_title == Seq::<char>::empty()
            &&& shapes::lacks(value, "message"@) ==> e->0->Progress_message == Seq::<char>::empty()
            &&& shapes::lacks(value, "percentage"@) ==> e->0->Progress_percentage is None
        }),
{
    lemma_methods();
}

/// An edit that a server wants applied is handed to the editor under the
/// server's number.
pub proof fn law_wanted_edits_are_passed_on(
    event: Option<ServerEventView>,
    msg: JsonView,
    id: JsonView,
    edit: JsonView,
    read: JsonView,
)
    requires
        server::is_request_event(event, msg),
        shapes::has(msg, "id"@, id),
        shapes::has_text(msg, "method"@, "workspace/applyEdit"@),
        shapes::holds(msg, "params"@),
        shapes::has(shapes::member(msg, "params"@), "edit"@, edit),
        decode::read_workspace_edit(edit) == Ok::<JsonView, Seq<char>>(read),
    ensures
        event is Some,
        event->0 is ApplyEdit,
        event->0->ApplyEdit_id == id,
        types::is_workspace_edit_of(event->0->ApplyEdit_edit, read),
{
}

// ---------------------------------------------------------------------------
// Requests and their answers
// ---------------------------------------------------------------------------

/// A request goes out under a number of its own. One that takes the place of
/// another that is still waited for has that cancelled first.
pub proof fn law_replaced_requests_are_cancelled(
    c: ClientView,
    key: Seq<char>,
    method: Seq<char>,
    params: JsonView,
)
    ensures
        c.latest.contains_key(key) && c.pending.contains(c.latest[key]) ==> {
            let ms = client::begin_messages(c, Some(key), method, params);
            &&& ms.len() == 2
            &&& shapes::has_text(ms[0], "method"@, "$/cancelRequest"@)
            &&& shapes::holds(ms[0], "params"@)
            &&& shapes::has_number(
                shapes::member(ms[0], "params"@),
                "id"@,
                c.latest[key] as int,
            )
            &&& shapes::has_number(ms[1], "id"@, c.next_id as int)
            &&& shapes::has_text(ms[1], "method"@, method)
            &&& shapes::has(ms[1], "params"@, params)
        },
        !c.latest.contains_key(key) ==> {
            let ms = client::begin_messages(c, Some(key), method, params);
            &&& ms.len() == 1
            &&& shapes::has_number(ms[0], "id"@, c.next_id as int)
            &&& shapes::has_text(ms[0], "method"@, method)
            &&& shapes::has(ms[0], "params"@, params)
        },
        ({
            let ms = client::begin_messages(c, None, method, params);
            &&& ms.len() == 1
            &&& shapes::has_number(ms[0], "id"@, c.next_id as int)
            &&& shapes::has_text(ms[0], "method"@, method)
            &&& shapes::has(ms[0], "params"@, params)
        }),
{
    lemma_members();
}

/// A request is waited for from its beginning, and the next gets another number.
pub proof fn law_begun_requests_are_waited_for(c: ClientView, key: Seq<char>)
    requires
        !c.latest.contains_key(key) || c.latest[key] != c.next_id,
        c.next_id < i64::MAX,
    ensures
        client::begun(c, None).pending == c.pending.insert(c.next_id),
        client::begun(c, None).next_id == c.next_id + 1,
        client::begun(c, None).latest == c.latest,
        client::begun(c, Some(key)).pending.contains(c.next_id),
        client::begun(c, Some(key)).next_id == c.next_id + 1,
        client::begun(c, Some(key)).latest == c.latest.insert(key, c.next_id),
        c.latest.contains_key(key) ==> !client::begun(c, Some(key)).pending.contains(c.latest[key]),
        forall|id: i64|
            c.pending.contains(id) && (!c.latest.contains_key(key) || id != c.latest[key])
                ==> #[trigger] client::begun(c, Some(key)).pending.contains(id),
{
}

/// The answer to a request is its result, and its error where it has one. The
/// answer to a request that another has replaced is nothing.
pub proof fn law_answers_are_results_or_errors(
    c: ClientView,
    key: Option<Seq<char>>,
    id: i64,
    response: JsonView,
    result: JsonView,
    error: JsonView,
)
    ensures
        client::is_newest(c, key, id) && shapes::lacks(response, "error"@) && shapes::has(
            response,
            "result"@,
            result,
        ) ==> client::response_result(c, key, id, response) == Ok::<Option<JsonView>, Seq<char>>(
            Some(result),
        ),
        client::is_newest(c, key, id) && shapes::has(response, "error"@, error)
            ==> client::response_result(c, key, id, response) == Err::<
            Option<JsonView>,
            Seq<char>,
        >("LSP error: "@ + json::json_text(error)),
        !client::is_newest(c, key, id) ==> client::response_result(c, key, id, response) == Ok::<
            Option<JsonView>,
            Seq<char>,
        >(None),
        key is None ==> client::is_newest(c, key, id),
        key is Some ==> (client::is_newest(c, key, id) <==> c.latest.contains_key(key->0)
            && c.latest[key->0] == id),
{
}

/// A message with a number and no method is an answer, one with both is a request
/// of the server, and one with a method and no number is a notification.
pub proof fn law_messages_are_told_apart(msg: JsonView, id: i64, method: Seq<char>)
    ensures
        shapes::has_number(msg, "id"@, id as int) && shapes::lacks(msg, "method"@)
            ==> client::is_response(msg) && !client::is_request(msg) && !client::is_notification(
            msg,
        ) && client::response_id(msg) == id,
        shapes::holds(msg, "id"@) && shapes::has_text(msg, "method"@, method)
            ==> !client::is_response(msg) && client::is_request(msg) && !client::is_notification(
            msg,
        ),
        shapes::lacks(msg, "id"@) && shapes::has_text(msg, "method"@, method)
            ==> !client::is_response(msg) && !client::is_request(msg) && client::is_notification(
            msg,
        ),
{
}

/// An answer ends the waiting for its own request, and for no other.
pub proof fn law_answers_end_the_waiting(c: ClientView, msg: JsonView, id: i64, other: i64)
    requires
        shapes::has_number(msg, "id"@, id as int),
        shapes::lacks(msg, "method"@),
        other != id,
    ensures
        !client::after_message(c, msg).pending.contains(id),
        client::after_message(c, msg).pending.contains(other) == c.pending.contains(other),
{
}

// ---------------------------------------------------------------------------
// To whom
// ---------------------------------------------------------------------------

/// A feature is asked of the first server of its filetype, where that runs and is
/// alive.
pub proof fn law_features_go_to_the_primary(
    a: Action,
    before: DaemonView,
    after: DaemonView,
    req: Request,
    alive: Seq<u64>,
    names: Seq<Seq<char>>,
)
    requires
        session::is_action(a, before, after, req, alive),
        request::is_feature(req),
        !(req is JuliaActivateEnvironment),
        !(req is JuliaRefreshLanguageServer),
        before.registry is Some,
        before.registry->0.ft_map.contains_key(req.spec_language()),
        before.registry->0.ft_map[req.spec_language()] == names,
        names.len() > 0,
        before.registry->0.clients.contains_key(names[0]),
        alive.contains(before.registry->0.clients[names[0]]),
    ensures
        a is Ask,
        a->Ask_0 == before.registry->0.clients[names[0]],
        after == before,
{
}

/// What changes of a document is told to the servers of the filetype under which
/// it was opened, and to none for a document that was not.
pub proof fn law_changes_go_to_the_documents_servers(
    a: Action,
    before: DaemonView,
    after: DaemonView,
    req: Request,
    alive: Seq<u64>,
    filetype: Seq<char>,
)
    requires
        session::is_action(a, before, after, req, alive),
        req is DidChange,
        before.registry is Some,
    ensures
        before.filetypes.contains_key(req->DidChange_uri@)
            && before.filetypes[req->DidChange_uri@] == filetype ==> a is Tell && a->Tell_servers@
            == registry::clients_for(before.registry->0, filetype, alive),
        !before.filetypes.contains_key(req->DidChange_uri@) ==> a is Tell && a->Tell_servers@.len() == 0,
        after == before,
{
}

/// A document is known by its filetype from its opening to its closing.
pub proof fn law_documents_are_known_while_open(
    a: Action,
    before: DaemonView,
    after: DaemonView,
    req: Request,
    alive: Seq<u64>,
    other: Seq<char>,
)
    requires
        session::is_action(a, before, after, req, alive),
    ensures
        req is DidOpen ==> after.filetypes.contains_key(req->DidOpen_uri@)
            && after.filetypes[req->DidOpen_uri@] == req->DidOpen_language_id@,
        req is DidClose ==> !after.filetypes.contains_key(req->DidClose_uri@),
        (req is DidOpen && other != req->DidOpen_uri@) || (req is DidClose && other
            != req->DidClose_uri@) ==> after.filetypes.contains_key(other)
            == before.filetypes.contains_key(other) && (before.filetypes.contains_key(other)
            ==> after.filetypes[other] == before.filetypes[other]),
        req is DidClose ==> after.registry == before.registry,
{
}

/// A feature without a server is an error that names the filetype. A completion
/// without one is empty, so that typing is not interrupted.
pub proof fn law_missing_servers_are_told(req: Request)
    ensures
        req is Completion ==> {
            let e = session::missing_event(req);
            &&& shapes::has_text(e, "type"@, "completion"@)
            &&& shapes::has_number(e, "id"@, req->Completion_id as int)
            &&& shapes::has_number(e, "generation"@, 0)
            &&& shapes::has_list(e, "items"@, Seq::empty())
        },
        !(req is Completion) ==> {
            let e = session::missing_event(req);
            &&& shapes::has_text(e, "type"@, "error"@)
            &&& shapes::has_number(e, "id"@, req.spec_id() as int)
            &&& shapes::has_text(
                e,
                "message"@,
                "no active language server for filetype: "@ + req.spec_language(),
            )
        },
{
    lemma_members();
    reveal_strlit("generation");
    reveal_strlit("items");
    assert("generation"@.len() == 10 && "items"@.len() == 5);
}

/// A request of Julia is for a Julia buffer with a server: it is asked of the first
/// server of the filetype, and is refused for any other buffer.
pub proof fn law_julia_requests_need_a_julia_buffer(
    a: Action,
    before: DaemonView,
    after: DaemonView,
    req: Request,
    alive: Seq<u64>,
)
    requires
        session::is_action(a, before, after, req, alive),
        req is JuliaActivateEnvironment || req is JuliaRefreshLanguageServer,
    ensures
        req.spec_language() != "julia"@ ==> a is Reply && shapes::has_text(
            a->Reply_0@,
            "type"@,
            "error"@,
        ),
        req.spec_language() == "julia"@ && session::primary_of(before, "julia"@, alive) is Some
            ==> a is Ask && Some(a->Ask_0) == session::primary_of(before, "julia"@, alive),
        req.spec_language() == "julia"@ && session::primary_of(before, "julia"@, alive) is None
            ==> a is Reply && shapes::has_text(
            a->Reply_0@,
            "message"@,
            "Julia language server is not running"@,
        ),
        after == before,
{
    lemma_members();
}

/// A message of a server is taken as what it is: an answer under its number, a
/// request with the answer to it, or a notification with what it says.
pub proof fn law_messages_are_taken_as_they_are(
    r: Incoming,
    c: ClientView,
    msg: JsonView,
    id: i64,
    method: Seq<char>,
)
    requires
        client::is_incoming(r, c, msg),
    ensures
        shapes::has_number(msg, "id"@, id as int) && shapes::lacks(msg, "method"@) ==> r is Response
            && r->id == id && r->known == c.pending.contains(id),
        shapes::holds(msg, "id"@) && shapes::has_text(msg, "method"@, method) ==> r is Request
            && r->response@ == server::server_response(msg, c.settings),
        shapes::lacks(msg, "id"@) && shapes::has_text(msg, "method"@, method) ==> r is Notification
            && r->Notification_event.deep_view() == server::notification_event(method, msg),
        shapes::lacks(msg, "id"@) && shapes::lacks(msg, "method"@) ==> r is Ignored,
{
}


/// A number that is no integer stands for none that is given out.
pub proof fn law_numbers_that_are_none(msg: JsonView, id: Seq<char>)
    requires
        shapes::has_text(msg, "id"@, id) || shapes::has(msg, "id"@, JsonView::Null),
        shapes::lacks(msg, "method"@),
    ensures
        client::is_response(msg),
        client::response_id(msg) == 0,
{
}

/// That a document was saved is told to the servers of its filetype, and that its
/// file was changed to every server that is alive. Without a workspace there are
/// none.
pub proof fn law_saves_are_told_to_every_server(
    a: Action,
    before: DaemonView,
    after: DaemonView,
    req: Request,
    alive: Seq<u64>,
    name: Seq<char>,
)
    requires
        session::is_action(a, before, after, req, alive),
        req is DidSave,
    ensures
        a is Tell,
        before.registry is None ==> a->Tell_servers@.len() == 0 && a->Tell_watchers@.len() == 0,
        before.registry is Some && before.registry->0.clients.contains_key(name) && alive.contains(
            before.registry->0.clients[name],
        ) ==> a->Tell_watchers@.contains(before.registry->0.clients[name]),
        before.registry is Some && before.filetypes.contains_key(req->DidSave_uri@)
            ==> a->Tell_servers@ == registry::clients_for(
            before.registry->0,
            before.filetypes[req->DidSave_uri@],
            alive,
        ),
        after == before,
{
    if before.registry is Some {
        crate::laws::servers::law_every_live_server_is_listed(
            a->Tell_watchers@,
            before.registry->0,
            alive,
            name,
        );
    }
}

/// A shutdown stops every server that runs, and leaves no workspace.
pub proof fn law_shutdown_stops_every_server(
    a: Action,
    before: DaemonView,
    after: DaemonView,
    req: Request,
    alive: Seq<u64>,
    name: Seq<char>,
)
    requires
        session::is_action(a, before, after, req, alive),
        req is Shutdown,
    ensures
        a is Stop,
        shapes::has_text(a->Stop_event@, "type"@, "shutdown"@),
        shapes::has_number(a->Stop_event@, "id"@, req->Shutdown_id as int),
        before.registry is Some && before.registry->0.clients.contains_key(name)
            ==> a->Stop_servers@.contains(before.registry->0.clients[name]),
        before.registry is None ==> a->Stop_servers@.len() == 0,
        after.registry is None,
        after.filetypes.dom() =~= Set::empty(),
{
    lemma_members();
    if before.registry is Some {
        crate::laws::servers::law_every_running_server_is_listed(
            a->Stop_servers@,
            before.registry->0.clients,
            name,
        );
    }
}


/// A document that is opened has the server of its filetype started, where it is
/// configured and does not run, and is told to the servers that do. A filetype that
/// no server is configured for has none told.
pub proof fn law_opening_starts_or_tells(
    a: Action,
    before: DaemonView,
    after: DaemonView,
    req: Request,
    alive: Seq<u64>,
)
    requires
        session::is_action(a, before, after, req, alive),
        req is DidOpen,
        before.registry is Some,
    ensures
        after.registry is Some,
        a is Start || a is Tell,
        a is Start ==> {
            &&& before.registry->0.servers.contains_key(a->Start_name@)
            &&& before.registry->0.servers[a->Start_name@] == a->Start_server.deep_view()
            &&& a->Start_server.deep_view().filetypes.contains(req->DidOpen_language_id@)
            &&& !(before.registry->0.clients.contains_key(a->Start_name@) && alive.contains(
                before.registry->0.clients[a->Start_name@],
            ))
        },
        a is Tell && a->Tell_servers@.len() > 0 ==> a->Tell_servers@ == registry::clients_for(
            after.registry->0,
            req->DidOpen_language_id@,
            alive,
        ),
        a is Tell && a->Tell_servers@.len() == 0 && registry::clients_for(
            after.registry->0,
            req->DidOpen_language_id@,
            alive,
        ).len() > 0 ==> forall|name: Seq<char>| #[trigger]
            before.registry->0.servers.contains_key(name)
                ==> !before.registry->0.servers[name].filetypes.contains(
                req->DidOpen_language_id@,
            ),
        a is Tell ==> a->Tell_watchers@.len() == 0,
{
    let live = registry::pruned(before.registry->0, alive);
    if a is Start {
        crate::laws::servers::law_servers_are_started_once(
            EnsureStep::Start { name: a->Start_name, server: a->Start_server },
            live,
            after.registry->0,
            req->DidOpen_language_id@,
        );
    } else if a is Tell {
        if registry::is_ensure_step(
            EnsureStep::NoServer,
            live,
            after.registry->0,
            req->DidOpen_language_id@,
        ) {
            crate::laws::servers::law_servers_are_started_once(
                EnsureStep::NoServer,
                live,
                after.registry->0,
                req->DidOpen_language_id@,
            );
        }
    }
}

/// A change that was passed on is held back for a quarter of a second, and for no
/// longer.
pub proof fn law_repeats_are_held_back_briefly(
    c: ClientView,
    change: (Seq<char>, u32),
    seen: u64,
    now: u64,
)
    requires
        c.registered.contains("workspace/didChangeWatchedFiles"@),
        c.watched.contains_key(change),
        c.watched[change] == seen,
    ensures
        now >= seen && now - seen < 250_000_000 ==> sync::told_changes(
            c,
            seq![change],
            now,
        ).len() == 0,
        now >= seen && now - seen >= 250_000_000 ==> sync::told_changes(c, seq![change], now)
            == seq![change],
        now < seen ==> sync::told_changes(c, seq![change], now).len() == 0,
{
    let s = seq![change];
    assert(s.drop_last() =~= Seq::<(Seq<char>, u32)>::empty());
    assert(s.last() == change);
    reveal_with_fuel(sync::times_after, 2);
    reveal_with_fuel(sync::passed_on, 2);
    let times = recent::recent_within(c.watched, now, sync::REMEMBER_NS);
    assert(sync::passed_on(times, s, now) =~= if recent::just_seen(
        times,
        change,
        now,
        sync::REPEAT_NS,
    ) {
        Seq::empty()
    } else {
        s
    });
}


} // verus!
