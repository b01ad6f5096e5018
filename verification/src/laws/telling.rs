//! What the editor hears of its servers and files without asking.

use vstd::prelude::*;
use vstd::string::*;

use crate::byte_path;
use crate::config;
use crate::daemon::feature;
use crate::daemon::request::Request;
use crate::daemon::session;
use crate::daemon::session::Action;
use crate::installer;
use crate::installer::PromoteAction;
use crate::json;
use crate::json::JsonView;
use crate::laws::shapes;
use crate::lsp::client;
use crate::lsp::client::ClientView;
use crate::lsp::server::ServerEventView;
use crate::lsp::sync;
use crate::lsp::types::{DiagnosticItem, WorkspaceEdit};
use crate::lsp::wire::Wire;
use crate::path;
use crate::registry;
use crate::registry::RegistryView;
use crate::text;
use crate::uri;
use crate::workspace_watcher;
use crate::workspace_watcher::FileEventKind;

verus! {

proof fn lemma_parts()
    ensures
        "id"@.len() == 2,
        "uri"@.len() == 3,
        "edit"@.len() == 4,
        "kind"@.len() == 4,
        "path"@.len() == 4,
        "type"@.len() == 4,
        "items"@.len() == 5,
        "level"@.len() == 5,
        "title"@.len() == 5,
        "token"@.len() == 5,
        "server"@.len() == 6,
        "status"@.len() == 6,
        "message"@.len() == 7,
        "percentage"@.len() == 10,
        "edit"@ != "type"@,
        "kind"@ != "type"@,
        "path"@ != "type"@,
        "level"@ != "title"@,
        "level"@ != "token"@,
        "title"@ != "token"@,
        "server"@ != "status"@,
        "items"@ != "level"@,
{
    reveal_strlit("id");
    reveal_strlit("uri");
    reveal_strlit("edit");
    reveal_strlit("kind");
    reveal_strlit("path");
    reveal_strlit("type");
    reveal_strlit("items");
    reveal_strlit("level");
    reveal_strlit("title");
    reveal_strlit("token");
    reveal_strlit("server");
    reveal_strlit("status");
    reveal_strlit("message");
    reveal_strlit("percentage");
    assert("edit"@[0] != "type"@[0]);
    assert("kind"@[0] != "type"@[0]);
    assert("path"@[0] != "type"@[0]);
    assert("level"@[0] != "title"@[0]);
    assert("level"@[0] != "token"@[0]);
    assert("title"@[1] != "token"@[1]);
    assert("server"@[1] != "status"@[1]);
    assert("items"@[0] != "level"@[0]);
}

// ---------------------------------------------------------------------------
// Servers
// ---------------------------------------------------------------------------

/// The state of a server is told with its name and, where there is one, the
/// reason.
pub proof fn law_states_are_told(server: Seq<char>, status: Seq<char>, message: Seq<char>)
    ensures
        ({
            let e = registry::status_event_view(server, status, Some(message));
            &&& shapes::has_text(e, "type"@, "serverStatus"@)
            &&& shapes::has_text(e, "server"@, server)
            &&& shapes::has_text(e, "status"@, status)
            &&& shapes::has_text(e, "message"@, message)
        }),
        ({
            let e = registry::status_event_view(server, status, None);
            &&& shapes::has_text(e, "type"@, "serverStatus"@)
            &&& shapes::has_text(e, "server"@, server)
            &&& shapes::has_text(e, "status"@, status)
            &&& shapes::lacks(e, "message"@)
        }),
{
    lemma_parts();
}

/// Diagnostics reach the editor with their document, every one and in order.
pub proof fn law_diagnostics_reach_the_editor(server: Seq<char>, event: ServerEventView, k: int)
    requires
        event is Diagnostics,
        0 <= k < event->Diagnostics_diagnostics.len(),
    ensures
        ({
            let e = registry::event_view(server, event);
            &&& shapes::has_text(e, "type"@, "diagnostics"@)
            &&& shapes::has_text(e, "uri"@, event->Diagnostics_uri)
            &&& shapes::holds(e, "items"@)
            &&& shapes::member(e, "items"@) is Array
            &&& shapes::member(e, "items"@)->Array_0.len() == event->Diagnostics_diagnostics.len()
            &&& shapes::member(e, "items"@)->Array_0[k] == DiagnosticItem::wire(
                event->Diagnostics_diagnostics[k],
            )
        }),
{
    lemma_parts();
}

/// What a server logs or shows reaches the editor with its level and its words.
pub proof fn law_messages_reach_the_editor(server: Seq<char>, event: ServerEventView)
    ensures
        event is LogMessage ==> {
            let e = registry::event_view(server, event);
            &&& shapes::has_text(e, "type"@, "log"@)
            &&& shapes::has_text(e, "server"@, server)
            &&& shapes::has_text(e, "level"@, event->LogMessage_level)
            &&& shapes::has_text(e, "message"@, event->LogMessage_message)
        },
        event is ShowMessage ==> {
            let e = registry::event_view(server, event);
            &&& shapes::has_text(e, "type"@, "showMessage"@)
            &&& shapes::has_text(e, "server"@, server)
            &&& shapes::has_text(e, "level"@, event->ShowMessage_level)
            &&& shapes::has_text(e, "message"@, event->ShowMessage_message)
        },
        event is Stopped ==> {
            let e = registry::event_view(server, event);
            &&& shapes::has_text(e, "type"@, "serverStatus"@)
            &&& shapes::has_text(e, "server"@, server)
            &&& shapes::has_text(e, "status"@, "stopped"@)
            &&& shapes::has_text(e, "message"@, event->Stopped_message)
        },
{
    lemma_parts();
}

/// Progress reaches the editor under its token, with all that it says.
pub proof fn law_progress_reaches_the_editor(server: Seq<char>, event: ServerEventView)
    requires
        event is Progress,
    ensures
        ({
            let e = registry::event_view(server, event);
            &&& shapes::has_text(e, "type"@, "progress"@)
            &&& shapes::has_text(e, "server"@, server)
            &&& shapes::has_text(e, "token"@, event->Progress_token)
            &&& shapes::has_text(e, "kind"@, event->Progress_kind)
            &&& shapes::has_text(e, "title"@, event->Progress_title)
            &&& shapes::has_text(e, "message"@, event->Progress_message)
            &&& event->Progress_percentage is Some ==> shapes::has_number(
                e,
                "percentage"@,
                event->Progress_percentage->0 as int,
            )
            &&& event->Progress_percentage is None ==> shapes::has(
                e,
                "percentage"@,
                JsonView::Null,
            )
        }),
{
    lemma_parts();
}

/// An edit that a server wants applied reaches the editor as it is.
pub proof fn law_wanted_edits_reach_the_editor(server: Seq<char>, event: ServerEventView)
    requires
        event is ApplyEdit,
    ensures
        ({
            let e = registry::event_view(server, event);
            &&& shapes::has_text(e, "type"@, "applyEdit"@)
            &&& shapes::has(e, "edit"@, WorkspaceEdit::wire(event->ApplyEdit_edit))
        }),
{
    lemma_parts();
}

/// A request of a Julia buffer ends with the environment that was activated, with
/// the word that the server was refreshed, or with what went wrong.
pub proof fn law_julia_requests_are_answered(req: Request, error: Seq<char>)
    ensures
        req is JuliaActivateEnvironment ==> {
            let e = feature::told_view(req, None);
            &&& shapes::has_text(e, "type"@, "juliaEnvironment"@)
            &&& shapes::has_number(e, "id"@, req->JuliaActivateEnvironment_id as int)
            &&& shapes::has_text(e, "path"@, req->JuliaActivateEnvironment_env_path@)
        },
        req is JuliaRefreshLanguageServer ==> {
            let e = feature::told_view(req, None);
            &&& shapes::has_text(e, "type"@, "juliaRefreshed"@)
            &&& shapes::has_number(e, "id"@, req->JuliaRefreshLanguageServer_id as int)
        },
        ({
            let e = feature::told_view(req, Some(error));
            &&& shapes::has_text(e, "type"@, "error"@)
            &&& shapes::has_number(e, "id"@, req.spec_id() as int)
            &&& shapes::has_text(e, "message"@, error)
        }),
{
    lemma_parts();
}

/// Each completion has a generation of its own, and nothing else of a client is
/// changed by the beginning of a request.
pub proof fn law_completions_have_a_generation_each(c: ClientView, req: Request)
    ensures
        req is Completion && c.completion_generation < u64::MAX ==> feature::after_begin(
            c,
            req,
        ).completion_generation == c.completion_generation + 1,
        req is Completion ==> feature::first_stage(req, c) == (feature::StageView::Completion {
            generation: feature::after_begin(c, req).completion_generation,
        }),
        req is Completion ==> feature::after_begin(c, req).completions == c.completions
            && feature::after_begin(c, req).cached_generation == c.cached_generation,
        !(req is Completion) ==> feature::after_begin(c, req) == c,
{
}

/// A client begins with nothing: no answer is waited for, nothing is kept, and its
/// settings are those that it was given.
pub proof fn law_clients_begin_with_nothing(name: Seq<char>, settings: JsonView, id: i64)
    ensures
        ({
            let c = client::new_client(name, Some(settings));
            &&& c.server_name == name
            &&& c.settings == settings
            &&& !c.pending.contains(id)
            &&& c.next_id == 1
            &&& c.cached_generation == 0
            &&& c.completion_generation == 0
            &&& c.capabilities is None
            &&& c.completions.len() == 0
            &&& c.actions.len() == 0
            &&& c.code_lenses.len() == 0
            &&& c.token_data.dom() =~= Set::empty()
            &&& c.result_ids.dom() =~= Set::empty()
            &&& c.registered =~= Set::empty()
        }),
        client::new_client(name, None).settings == JsonView::Object(Map::empty()),
        sync::settings_or_empty(Some(settings)) == settings,
        sync::settings_or_empty(None) == JsonView::Object(Map::empty()),
{
}

/// Each running server gets the settings of its own name after a reload.
pub proof fn law_reloads_reach_every_server(a: Action, r: RegistryView, name: Seq<char>)
    requires
        session::updates(a, r),
        r.clients.contains_key(name),
    ensures
        a is Update,
        exists|i: int|
            0 <= i < a->Update_0.deep_view().len() && (#[trigger] a->Update_0.deep_view()[i]) == (
                r.clients[name],
                registry::new_settings(r.servers, name),
            ),
{
    let list = a->Update_0;
    let keys = choose|keys: Seq<Seq<char>>|
        json::arranges(keys, r.clients.dom()) && list.deep_view() == #[trigger]
        registry::updates_in(keys, r.clients, r.servers);
    assert(keys.contains(name));
    let i = choose|i: int| 0 <= i < keys.len() && keys[i] == name;
    assert(list.deep_view()[i] == (r.clients[name], registry::new_settings(r.servers, name)));
}

/// What is configured for a server is laid over what it has of itself, member by
/// member: a member that is configured counts, and one that is not stays.
pub proof fn law_configuration_comes_first(
    own: Map<Seq<char>, JsonView>,
    given: Map<Seq<char>, JsonView>,
    key: Seq<char>,
)
    ensures
        ({
            let r = config::with_overrides(JsonView::Object(own), Some(JsonView::Object(given)));
            &&& r is Some
            &&& given.contains_key(key) && !(given[key] is Object) ==> shapes::has(
                r->0,
                key,
                given[key],
            )
            &&& given.contains_key(key) && !own.contains_key(key) ==> shapes::has(
                r->0,
                key,
                given[key],
            )
            &&& !given.contains_key(key) && own.contains_key(key) ==> shapes::has(
                r->0,
                key,
                own[key],
            )
            &&& !given.contains_key(key) && !own.contains_key(key) ==> shapes::lacks(r->0, key)
        }),
        config::with_overrides(JsonView::Object(own), None) == Some(JsonView::Object(own)),
        config::with_overrides(JsonView::Null, Some(JsonView::Object(given))) == Some(
            JsonView::Object(given),
        ),
        config::with_overrides(JsonView::Null, None) is None,
{
    reveal_with_fuel(json::merged, 2);
}

/// Only the Julia server has settings and options of its own.
pub proof fn law_only_julia_has_settings_of_its_own(name: Seq<char>)
    ensures
        config::default_settings(name) is Null <==> name != "julia-lsp"@,
        config::default_options(name) is Null <==> name != "julia-lsp"@,
{
}

// ---------------------------------------------------------------------------
// Files
// ---------------------------------------------------------------------------

/// Every change that waits and is of a file of the workspace is passed on once, as
/// the address of the file and what became of it; no other is.
pub proof fn law_waiting_changes_are_passed_on(
    list: Seq<(Seq<char>, u32)>,
    pending: Map<Seq<char>, (Seq<u8>, u32)>,
    key: Seq<char>,
    address: Seq<char>,
)
    requires
        workspace_watcher::is_changes_of(list, pending),
    ensures
        pending.contains_key(key) && workspace_watcher::is_workspace_file(pending[key].0)
            && uri::path_uri(pending[key].0) == Some(address) ==> list.contains(
            (address, pending[key].1),
        ),
        forall|change: (Seq<char>, u32)| #[trigger]
            list.contains(change) ==> exists|k: Seq<char>| #[trigger]
                pending.contains_key(k) && workspace_watcher::is_workspace_file(pending[k].0)
                    && uri::path_uri(pending[k].0) == Some(change.0) && pending[k].1 == change.1,
        pending.dom().finite(),
        list.len() <= pending.dom().len(),
{
    let keys = choose|keys: Seq<Seq<char>>|
        json::arranges(keys, pending.dom()) && list == #[trigger] workspace_watcher::changes_in(
            keys,
            pending,
        );
    let p = |k: Seq<char>| workspace_watcher::is_passed_on(pending[k].0);
    let kept = keys.filter(p);
    assert(keys.to_set() =~= pending.dom());
    keys.unique_seq_to_set();
    keys.lemma_filter_len(p);
    if pending.contains_key(key) && workspace_watcher::is_workspace_file(pending[key].0)
        && uri::path_uri(pending[key].0) == Some(address) {
        assert(keys.contains(key));
        let i = choose|i: int| 0 <= i < keys.len() && keys[i] == key;
        keys.lemma_filter_contains(p, i);
        let k = choose|k: int| 0 <= k < kept.len() && kept[k] == key;
        assert(list[k] == (address, pending[key].1));
    }
    assert forall|change: (Seq<char>, u32)| #[trigger] list.contains(change) implies exists|
        k: Seq<char>,
    | #[trigger]
        pending.contains_key(k) && workspace_watcher::is_workspace_file(pending[k].0)
            && uri::path_uri(pending[k].0) == Some(change.0) && pending[k].1 == change.1 by {
        let i = choose|i: int| 0 <= i < list.len() && list[i] == change;
        keys.lemma_filter_pred(p, i);
        assert(kept.contains(kept[i]));
        keys.lemma_filter_contains_rev(p, kept[i]);
        assert(pending.contains_key(kept[i]));
    }
}

/// A workspace has the address of its directory, which ends in a slash. A path that
/// does not begin at the root has none and is refused.
pub proof fn law_workspaces_have_an_address(root: Seq<u8>)
    ensures
        uri::path_uri(root) matches Some(u) && u.len() > 0 && u.last() != '/' ==> (
        uri::directory_uri_result(root) == Ok::<Seq<char>, Seq<char>>(
            uri::path_uri(root)->0 + seq!['/'],
        )),
        uri::path_uri(root) matches Some(u) && u.len() > 0 && u.last() == '/' ==> (
        uri::directory_uri_result(root) == Ok::<Seq<char>, Seq<char>>(uri::path_uri(root)->0)),
        uri::path_uri(root) is None ==> uri::directory_uri_result(root) is Err,
{
    reveal_strlit("/");
    assert("/"@ =~= seq!['/']);
}

/// A path under another name keeps its directory.
pub proof fn law_renamed_paths_keep_their_directory(file: Seq<u8>, name: Seq<u8>, parent: Seq<char>)
    requires
        path::name_of(byte_path::byte_text(file)) is Some,
        path::parent_of(byte_path::byte_text(file)) == Some(parent),
        name.len() > 0,
        name[0] != 0x2f,
    ensures
        parent.len() > 0 && byte_path::text_bytes(parent).last() != 0x2f ==> byte_path::renamed(
            file,
            name,
        ) == byte_path::text_bytes(parent) + seq![0x2fu8] + name,
        parent.len() == 0 || byte_path::text_bytes(parent).last() == 0x2f ==> byte_path::renamed(
            file,
            name,
        ) == byte_path::text_bytes(parent) + name,
{
}

// ---------------------------------------------------------------------------
// Errors
// ---------------------------------------------------------------------------

/// A request that took too long says how long, and which it was.
pub proof fn law_timeouts_name_their_request(timeout_ms: u64, method: Seq<char>)
    ensures
        method.is_suffix_of(client::timeout_text(timeout_ms, method)),
        ("LSP request timed out after "@ + text::decimal(timeout_ms as nat) + "ms"@).is_prefix_of(
            client::timeout_text(timeout_ms, method),
        ),
{
    let t = client::timeout_text(timeout_ms, method);
    let start = "LSP request timed out after "@ + text::decimal(timeout_ms as nat) + "ms"@;
    reveal_strlit("ms");
    reveal_strlit("ms: ");
    assert(t.skip(t.len() - method.len()) =~= method);
    assert(t.take(start.len() as int) =~= start);
}

/// What went wrong with a configuration is told in full.
pub proof fn law_load_errors_are_told(error: Seq<char>)
    ensures
        error.is_suffix_of(session::load_error_text(error)),
{
    let t = session::load_error_text(error);
    assert(t.skip(t.len() - error.len()) =~= error);
}

/// A failed installation that could not be undone tells both reasons.
pub proof fn law_both_failures_are_told(first: Seq<char>, second: Seq<char>)
    ensures
        text::has_infix(
            installer::promote_error(PromoteAction::Restore, Some(second), first),
            first,
        ),
        text::has_infix(
            installer::promote_error(PromoteAction::Restore, Some(second), first),
            second,
        ),
{
    let t = installer::promote_error(PromoteAction::Restore, Some(second), first);
    let a = "failed to activate managed installation ("@;
    let b = "); also failed to restore the previous installation ("@;
    let from: int = a.len() as int;
    assert(t.subrange(from, from + first.len()) =~= first);
    let at: int = from + first.len() + b.len();
    assert(t.subrange(at, at + second.len()) =~= second);
}

/// An event on a file that nothing waits for makes a creation, a change or a
/// deletion of it wait, by the numbers of the protocol.
pub proof fn law_file_events_wait_by_their_kind(
    pending: Map<Seq<char>, (Seq<u8>, u32)>,
    file: Seq<u8>,
)
    requires
        workspace_watcher::waiting(pending, file) is None,
    ensures
        workspace_watcher::waiting(
            workspace_watcher::with_event(pending, FileEventKind::Create, seq![file]),
            file,
        ) == Some(1u32),
        workspace_watcher::waiting(
            workspace_watcher::with_event(pending, FileEventKind::RenameTo, seq![file]),
            file,
        ) == Some(1u32),
        workspace_watcher::waiting(
            workspace_watcher::with_event(pending, FileEventKind::Modify, seq![file]),
            file,
        ) == Some(2u32),
        workspace_watcher::waiting(
            workspace_watcher::with_event(pending, FileEventKind::Remove, seq![file]),
            file,
        ) == Some(3u32),
        workspace_watcher::waiting(
            workspace_watcher::with_event(pending, FileEventKind::RenameFrom, seq![file]),
            file,
        ) == Some(3u32),
        workspace_watcher::with_event(pending, FileEventKind::Other, seq![file]) == pending,
{
    let s = seq![file];
    assert(s.drop_last() =~= Seq::<Seq<u8>>::empty());
    assert(s.last() == file);
    reveal_with_fuel(workspace_watcher::with_changes, 2);
}

/// Every file that an event names is marked, not only the first.
pub proof fn law_every_named_file_is_marked(
    pending: Map<Seq<char>, (Seq<u8>, u32)>,
    files: Seq<Seq<u8>>,
    i: int,
)
    requires
        0 <= i < files.len(),
    ensures
        workspace_watcher::waiting(
            workspace_watcher::with_changes(pending, files, workspace_watcher::CREATED),
            files[i],
        ) == Some(1u32),
        workspace_watcher::waiting(
            workspace_watcher::with_changes(pending, files, workspace_watcher::DELETED),
            files[i],
        ) == Some(3u32),
        workspace_watcher::waiting(
            workspace_watcher::with_changes(pending, files, workspace_watcher::CHANGED),
            files[i],
        ) is Some,
    decreases files.len(),
{
    if i < files.len() - 1 {
        assert(files.drop_last()[i] == files[i]);
        law_every_named_file_is_marked(pending, files.drop_last(), i);
    }
}

/// The project files of Julia are watched by their names.
pub proof fn law_project_files_are_watched(name: Seq<char>, version: Seq<char>)
    ensures
        workspace_watcher::is_project_file("Project.toml"@),
        workspace_watcher::is_project_file("JuliaProject.toml"@),
        workspace_watcher::is_project_file("Manifest.toml"@),
        workspace_watcher::is_project_file("JuliaManifest.toml"@),
        workspace_watcher::is_project_file(".JuliaLint.toml"@),
        workspace_watcher::is_project_file("Manifest-v"@ + version + ".toml"@),
        workspace_watcher::is_project_file("JuliaManifest-v"@ + version + ".toml"@),
        workspace_watcher::is_project_file(name) ==> ".toml"@.is_suffix_of(name),
{
    reveal_strlit("Project.toml");
    reveal_strlit("JuliaProject.toml");
    reveal_strlit("Manifest.toml");
    reveal_strlit("JuliaManifest.toml");
    reveal_strlit(".JuliaLint.toml");
    reveal_strlit("Manifest-v");
    reveal_strlit("JuliaManifest-v");
    reveal_strlit(".toml");
    let a = "Manifest-v"@ + version + ".toml"@;
    assert(a.take(10) =~= "Manifest-v"@);
    assert(a.skip(a.len() - 5) =~= ".toml"@);
    let b = "JuliaManifest-v"@ + version + ".toml"@;
    assert(b.take(15) =~= "JuliaManifest-v"@);
    assert(b.skip(b.len() - 5) =~= ".toml"@);
    assert("Project.toml"@.skip(7) =~= ".toml"@);
    assert("JuliaProject.toml"@.skip(12) =~= ".toml"@);
    assert("Manifest.toml"@.skip(8) =~= ".toml"@);
    assert("JuliaManifest.toml"@.skip(13) =~= ".toml"@);
    assert(".JuliaLint.toml"@.skip(10) =~= ".toml"@);
}


} // verus!
