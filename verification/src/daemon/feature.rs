//! The features of a server, step by step: what it is asked for a request of
//! the editor, and what its answers come to.

use vstd::prelude::*;
use vstd::string::*;

use crate::daemon::request;
use crate::daemon::request::Request;
use crate::daemon::session;
use crate::daemon::session::{done_event, error_event, value_event};
use crate::json;
use crate::json::{Json, JsonView};
use crate::lsp::actions;
use crate::lsp::actions::{LensStep, LensStepView};
use crate::lsp::call;
use crate::lsp::call::{Call, CallView};
use crate::lsp::client::{ClientView, LspClient};
use crate::lsp::completion;
use crate::lsp::decode;
use crate::lsp::features;
use crate::lsp::types::{RangeItem, WorkspaceEdit, WorkspaceEditView};
use crate::lsp::wire;
use crate::lsp::wire::Wire;
use crate::text;

verus! {

// ---------------------------------------------------------------------------
// Steps
// ---------------------------------------------------------------------------

/// What an answer of the server is to.
pub enum Stage {
    /// The request that the feature is for.
    Answer,
    /// A completion of a generation.
    Completion { generation: u64 },
    /// More about a completion item.
    Item { original: Json },
    /// The links of a document, after a definition that was not found.
    Links,
    /// The symbols of the workspace, after a definition that was not found.
    Symbols,
    /// The command of a code action whose edit is yet to be applied.
    ActionCommand { edit: Option<WorkspaceEdit> },
    /// The command of a code lens that had none.
    LensResolve,
    /// The command of a code lens.
    LensCommand,
    /// All tokens of a document.
    FullTokens,
}

/// The model of [`Stage`].
#[verifier::ext_equal]
pub enum StageView {
    Answer,
    Completion { generation: u64 },
    Item { original: JsonView },
    Links,
    Symbols,
    ActionCommand { edit: Option<WorkspaceEditView> },
    LensResolve,
    LensCommand,
    FullTokens,
}

impl DeepView for Stage {
    type V = StageView;

    open spec fn deep_view(&self) -> StageView {
        match *self {
            Stage::Answer => StageView::Answer,
            Stage::Completion { generation } => StageView::Completion { generation },
            Stage::Item { original } => StageView::Item { original: original@ },
            Stage::Links => StageView::Links,
            Stage::Symbols => StageView::Symbols,
            Stage::ActionCommand { edit } => StageView::ActionCommand { edit: edit.deep_view() },
            Stage::LensResolve => StageView::LensResolve,
            Stage::LensCommand => StageView::LensCommand,
            Stage::FullTokens => StageView::FullTokens,
        }
    }
}

/// How far a feature has come.
pub enum Progress {
    /// Ask the server, and go on with its answer. Of the requests under a key
    /// only the newest counts.
    Ask { stage: Stage, key: Option<String>, call: Call },
    /// Send the server a message, and end with [`told`].
    Tell(Json),
    /// Send the editor an event: the end.
    Reply(Json),
    /// The end, without an event: a newer request took the place of this one.
    Silent,
    /// The server's tokens make no sense.
    Unusable,
}

/// The model of [`Progress`].
#[verifier::ext_equal]
pub enum ProgressView {
    Ask { stage: StageView, key: Option<Seq<char>>, call: CallView },
    Tell(JsonView),
    Reply(JsonView),
    Silent,
    Unusable,
}

impl DeepView for Progress {
    type V = ProgressView;

    open spec fn deep_view(&self) -> ProgressView {
        match *self {
            Progress::Ask { stage, key, call } => ProgressView::Ask {
                stage: stage.deep_view(),
                key: key.deep_view(),
                call: call.deep_view(),
            },
            Progress::Tell(m) => ProgressView::Tell(m@),
            Progress::Reply(e) => ProgressView::Reply(e@),
            Progress::Silent => ProgressView::Silent,
            Progress::Unusable => ProgressView::Unusable,
        }
    }
}

/// Asking the server, where every answer counts.
pub open spec fn asking(stage: StageView, call: CallView) -> ProgressView {
    ProgressView::Ask { stage, key: None, call }
}

/// Ending with an error.
pub open spec fn failing(req: Request, message: Seq<char>) -> ProgressView {
    ProgressView::Reply(session::error_event_view(req.spec_id(), message))
}

/// Whether an answer can be to a request at a stage.
pub open spec fn fits(req: Request, stage: StageView) -> bool {
    match stage {
        StageView::Answer => {
            &&& request::is_feature(req)
            &&& !(req is Completion)
            &&& !(req is CompletionResolve)
            &&& !(req is ExecuteAction)
            &&& !(req is ExecuteCodeLens)
            &&& !(req is SemanticTokensFull)
        },
        StageView::Completion { .. } => req is Completion,
        StageView::Item { .. } => req is CompletionResolve,
        StageView::Links => req is Definition,
        StageView::Symbols => req is Definition,
        StageView::ActionCommand { .. } => req is ExecuteAction,
        StageView::LensResolve => req is ExecuteCodeLens,
        StageView::LensCommand => req is ExecuteCodeLens,
        StageView::FullTokens => req is SemanticTokensFull || req is SemanticTokensDelta,
    }
}

/// Ends a request with an error.
pub fn fail(req: &Request, message: &str) -> (r: Progress)
    ensures
        r.deep_view() == failing(*req, message@),
{
    Progress::Reply(error_event(req.id(), message))
}

/// Asks the server, where every answer counts.
pub fn ask(stage: Stage, call: Call) -> (r: Progress)
    ensures
        r.deep_view() == asking(stage.deep_view(), call.deep_view()),
{
    Progress::Ask { stage, key: None, call }
}

// ---------------------------------------------------------------------------
// Beginning
// ---------------------------------------------------------------------------

/// The place that a value stands for, where it names one.
pub open spec fn point_of(p: JsonView) -> Option<(u32, u32)> {
    match (p.at("line"@).as_u64(), p.at("character"@).as_u64()) {
        (Some(l), Some(c)) => Some((l as u32, c as u32)),
        _ => None,
    }
}

/// The places that a list of values stands for; what names none is left out.
pub open spec fn points_of(items: Seq<JsonView>) -> Seq<(u32, u32)>
    decreases items.len(),
{
    if items.len() == 0 {
        Seq::empty()
    } else {
        let rest = points_of(items.drop_last());
        match point_of(items.last()) {
            Some(p) => rest.push(p),
            None => rest,
        }
    }
}

/// The range of a code-action request, which ends where it begins unless it
/// says otherwise.
pub open spec fn action_range(
    line: u32,
    character: u32,
    end_line: Option<u32>,
    end_character: Option<u32>,
) -> RangeItem {
    RangeItem {
        line,
        character,
        end_line: match end_line {
            Some(n) => n,
            None => line,
        },
        end_character: match end_character {
            Some(n) => n,
            None => character,
        },
    }
}

/// A request about an item of a hierarchy, given what the item was read as.
pub open spec fn hierarchy_call(
    method: Seq<char>,
    what: Seq<char>,
    item: Result<JsonView, Seq<char>>,
) -> Result<CallView, Seq<char>> {
    match item {
        Ok(i) => Ok(features::item_call(method, i)),
        Err(e) => Err(what + e),
    }
}

/// The character that triggered a completion, where one did.
pub open spec fn given_trigger(trigger: Seq<char>) -> Option<Seq<char>> {
    if trigger.len() == 0 {
        None
    } else {
        Some(trigger)
    }
}

/// What the server is first asked for a request, or why it is asked nothing.
/// Code actions and lenses that are executed have their own rules.
pub open spec fn first_call(req: Request, c: ClientView) -> Result<CallView, Seq<char>> {
    match req {
        Request::Completion { uri, line, character, trigger_kind, trigger_character, .. } => Ok(
            CallView {
                method: "textDocument/completion"@,
                params: completion::completion_params(
                    uri@,
                    line,
                    character,
                    completion::trigger_context(
                        c.capabilities,
                        trigger_kind,
                        given_trigger(trigger_character@),
                    ),
                ),
                timeout_ms: completion::COMPLETION_TIMEOUT_MS,
            },
        ),
        Request::CompletionResolve { generation, index, .. } => match completion::resolve_error(
            c,
            generation,
            index,
        ) {
            Some(e) => Err(e),
            None => Ok(
                CallView {
                    method: "completionItem/resolve"@,
                    params: c.completions[index as int],
                    timeout_ms: completion::RESOLVE_TIMEOUT_MS,
                },
            ),
        },
        Request::Hover { uri, line, character, .. } => Ok(
            place_call("textDocument/hover"@, uri@, line, character),
        ),
        Request::Definition { uri, line, character, .. } => Ok(
            place_call("textDocument/definition"@, uri@, line, character),
        ),
        Request::References { uri, line, character, .. } => Ok(
            call::call_of(
                "textDocument/references"@,
                JsonView::Object(
                    map![
                        "textDocument"@ => call::uri_view(uri@),
                        "position"@ => call::position_view(line, character),
                        "context"@ => JsonView::Object(
                            map!["includeDeclaration"@ => JsonView::Bool(true)],
                        ),
                    ],
                ),
            ),
        ),
        Request::CodeAction {
            uri,
            line,
            character,
            end_line,
            end_character,
            diagnostics,
            ..
        } => Ok(
            call::call_of(
                "textDocument/codeAction"@,
                actions::code_action_params(
                    uri@,
                    action_range(line, character, end_line, end_character),
                    actions::context_diagnostics(
                        diagnostics@ is Array,
                        decode::read_diagnostics(diagnostics@),
                    ),
                ),
            ),
        ),
        Request::Formatting { uri, tab_size, insert_spaces, .. } => Ok(
            call::call_of(
                "textDocument/formatting"@,
                JsonView::Object(
                    map![
                        "textDocument"@ => call::uri_view(uri@),
                        "options"@ => JsonView::Object(
                            map![
                                "tabSize"@ => JsonView::Int(tab_size as int),
                                "insertSpaces"@ => JsonView::Bool(insert_spaces),
                            ],
                        ),
                    ],
                ),
            ),
        ),
        Request::Rename { uri, line, character, new_name, .. } => Ok(
            call::call_of(
                "textDocument/rename"@,
                JsonView::Object(
                    map![
                        "textDocument"@ => call::uri_view(uri@),
                        "position"@ => call::position_view(line, character),
                        "newName"@ => JsonView::Str(new_name@),
                    ],
                ),
            ),
        ),
        Request::SignatureHelp { uri, line, character, .. } => Ok(
            place_call("textDocument/signatureHelp"@, uri@, line, character),
        ),
        Request::Implementation { uri, line, character, .. } => Ok(
            place_call("textDocument/implementation"@, uri@, line, character),
        ),
        Request::TypeDefinition { uri, line, character, .. } => Ok(
            place_call("textDocument/typeDefinition"@, uri@, line, character),
        ),
        Request::DocumentSymbol { uri, .. } => Ok(
            call::call_of("textDocument/documentSymbol"@, call::document_params(uri@)),
        ),
        Request::WorkspaceSymbol { query, .. } => Ok(symbol_call(query@)),
        Request::DocumentHighlight { uri, line, character, .. } => Ok(
            place_call("textDocument/documentHighlight"@, uri@, line, character),
        ),
        Request::InlayHint { uri, start_line, end_line, .. } => Ok(
            call::call_of(
                "textDocument/inlayHint"@,
                call::range_params(
                    uri@,
                    (RangeItem { line: start_line, character: 0, end_line, end_character: 0 }),
                ),
            ),
        ),
        Request::PrepareCallHierarchy { uri, line, character, .. } => Ok(
            place_call("textDocument/prepareCallHierarchy"@, uri@, line, character),
        ),
        Request::IncomingCalls { item, .. } => hierarchy_call(
            "callHierarchy/incomingCalls"@,
            "invalid call hierarchy item: "@,
            decode::read_call_item(item@),
        ),
        Request::OutgoingCalls { item, .. } => hierarchy_call(
            "callHierarchy/outgoingCalls"@,
            "invalid call hierarchy item: "@,
            decode::read_call_item(item@),
        ),
        Request::SelectionRange { uri, positions, .. } => Ok(
            call::call_of(
                "textDocument/selectionRange"@,
                JsonView::Object(
                    map![
                        "textDocument"@ => call::uri_view(uri@),
                        "positions"@ => features::positions_view(
                            points_of(json::items_view(positions@)),
                        ),
                    ],
                ),
            ),
        ),
        Request::SemanticTokensFull { uri, .. } => Ok(actions::full_call(uri@)),
        Request::SemanticTokensDelta { uri, .. } => Ok(
            if c.result_ids.contains_key(uri@) {
                actions::delta_call(uri@, c.result_ids[uri@])
            } else {
                actions::full_call(uri@)
            },
        ),
        Request::SemanticTokensRange {
            uri,
            start_line,
            start_character,
            end_line,
            end_character,
            ..
        } => Ok(
            call::call_of(
                "textDocument/semanticTokens/range"@,
                call::range_params(
                    uri@,
                    (RangeItem {
                        line: start_line,
                        character: start_character,
                        end_line,
                        end_character,
                    }),
                ),
            ),
        ),
        Request::CodeLens { uri, .. } => Ok(
            call::call_of("textDocument/codeLens"@, call::document_params(uri@)),
        ),
        Request::FoldingRange { uri, .. } => Ok(
            call::call_of("textDocument/foldingRange"@, call::document_params(uri@)),
        ),
        Request::LinkedEditingRange { uri, line, character, .. } => Ok(
            place_call("textDocument/linkedEditingRange"@, uri@, line, character),
        ),
        Request::PrepareTypeHierarchy { uri, line, character, .. } => Ok(
            place_call("textDocument/prepareTypeHierarchy"@, uri@, line, character),
        ),
        Request::Supertypes { item, .. } => hierarchy_call(
            "typeHierarchy/supertypes"@,
            "invalid type hierarchy item: "@,
            decode::read_type_item(item@),
        ),
        Request::Subtypes { item, .. } => hierarchy_call(
            "typeHierarchy/subtypes"@,
            "invalid type hierarchy item: "@,
            decode::read_type_item(item@),
        ),
        Request::PullDiagnostics { uri, .. } => Ok(
            call::call_of("textDocument/diagnostic"@, call::document_params(uri@)),
        ),
        _ => Err(Seq::empty()),
    }
}

/// A request about a place.
pub open spec fn place_call(
    method: Seq<char>,
    uri: Seq<char>,
    line: u32,
    character: u32,
) -> CallView {
    call::call_of(method, call::position_params(uri, line, character))
}

/// A request for the symbols of the workspace.
pub open spec fn symbol_call(query: Seq<char>) -> CallView {
    call::call_of(
        "workspace/symbol"@,
        JsonView::Object(map!["query"@ => JsonView::Str(query)]),
    )
}

/// What the first answer to a request is to.
pub open spec fn first_stage(req: Request, c: ClientView) -> StageView {
    match req {
        Request::Completion { .. } => StageView::Completion {
            generation: c.completion_generation.wrapping_add(1),
        },
        Request::CompletionResolve { index, .. } => StageView::Item {
            original: c.completions[index as int],
        },
        Request::SemanticTokensFull { .. } => StageView::FullTokens,
        Request::SemanticTokensDelta { uri, .. } => if c.result_ids.contains_key(uri@) {
            StageView::Answer
        } else {
            StageView::FullTokens
        },
        _ => StageView::Answer,
    }
}

/// The key under which only the newest request counts.
pub open spec fn request_key(req: Request) -> Option<Seq<char>> {
    match req {
        Request::Completion { uri, .. } => Some("completion:"@ + uri@),
        _ => None,
    }
}

/// The event that ends the execution of an action or a lens: the edit to apply,
/// or the word that there is none.
pub open spec fn edit_event_view(
    id: u64,
    edit: Option<WorkspaceEditView>,
    done: Seq<char>,
) -> JsonView {
    match edit {
        Some(w) => session::value_event_view("applyEdit"@, id, "edit"@, WorkspaceEdit::wire(w)),
        None => session::done_event_view(done, id),
    }
}

/// Whether the execution of a kept action begins as the action says: with its
/// command, where it has one.
pub open spec fn is_action_begin(p: ProgressView, c: ClientView, id: u64, index: usize) -> bool {
    if index >= c.actions.len() {
        p == ProgressView::Reply(session::error_event_view(id, "invalid action index"@))
    } else {
        let action = c.actions[index as int];
        match p {
            ProgressView::Ask { stage: StageView::ActionCommand { edit }, key: None, call } =>
                actions::is_action_step(edit, Some(call), action),
            ProgressView::Reply(e) => exists|edit: Option<WorkspaceEditView>|
                #[trigger] actions::is_action_step(edit, None, action) && e == edit_event_view(
                    id,
                    edit,
                    "executeAction"@,
                ),
            _ => false,
        }
    }
}

/// How the execution of a lens goes on.
pub open spec fn lens_progress(id: u64, step: LensStepView) -> ProgressView {
    match step {
        LensStepView::Resolve(call) => asking(StageView::LensResolve, call),
        LensStepView::Execute(call) => asking(StageView::LensCommand, call),
        LensStepView::Nothing => ProgressView::Reply(
            session::done_event_view("codeLensExecute"@, id),
        ),
    }
}

/// Whether a request of a Julia buffer begins as it should, with a server that
/// may not be the Julia server.
pub open spec fn julia_begin(req: Request, c: ClientView) -> ProgressView {
    match req {
        Request::JuliaActivateEnvironment { env_path, .. } => if c.server_name == "julia-lsp"@ {
            ProgressView::Tell(
                call::notification_message(
                    "julia/activateenvironment"@,
                    JsonView::Object(map!["envPath"@ => JsonView::Str(env_path@)]),
                ),
            )
        } else {
            failing(req, "server "@ + c.server_name + " is not Julia LanguageServer"@)
        },
        _ => if c.server_name == "julia-lsp"@ {
            ProgressView::Tell(
                call::notification_message("julia/refreshLanguageServer"@, JsonView::Null),
            )
        } else {
            failing(req, "Active server is not Julia LanguageServer"@)
        },
    }
}

/// Whether a request begins as it should.
pub open spec fn is_begin(p: ProgressView, c: ClientView, req: Request) -> bool {
    match req {
        Request::ExecuteAction { id, index, .. } => is_action_begin(p, c, id, index),
        Request::ExecuteCodeLens { id, index, .. } => p == if index >= c.code_lenses.len() {
            failing(req, "invalid code lens index"@)
        } else {
            lens_progress(id, actions::lens_step(c.code_lenses[index as int]))
        },
        Request::JuliaActivateEnvironment { .. } => p == julia_begin(req, c),
        Request::JuliaRefreshLanguageServer { .. } => p == julia_begin(req, c),
        _ => p == match first_call(req, c) {
            Ok(call) => ProgressView::Ask {
                stage: first_stage(req, c),
                key: request_key(req),
                call,
            },
            Err(e) => failing(req, e),
        },
    }
}

/// A client after a request was begun.
pub open spec fn after_begin(c: ClientView, req: Request) -> ClientView {
    match req {
        Request::Completion { .. } => ClientView {
            completion_generation: c.completion_generation.wrapping_add(1),
            ..c
        },
        _ => c,
    }
}

fn points(items: &Vec<Json>) -> (r: Vec<(u32, u32)>)
    ensures
        r@ == points_of(json::items_view(items@)),
{
    let ghost all = json::items_view(items@);
    let mut out: Vec<(u32, u32)> = Vec::new();
    let mut i: usize = 0;
    assert(all.take(0) =~= Seq::<JsonView>::empty());
    while i < items.len()
        invariant
            i <= items@.len(),
            all == json::items_view(items@),
            out@ == points_of(all.take(i as int)),
        decreases items@.len() - i,
    {
        proof {
            assert(all.take(i + 1).drop_last() =~= all.take(i as int));
            assert(all.take(i + 1).last() == items@[i as int]@);
        }
        let line = items[i].at("line");
        let character = items[i].at("character");
        if let (Some(l), Some(c)) = (line.as_u64(), character.as_u64()) {
            out.push((l as u32, c as u32));
        }
        i = i + 1;
    }
    assert(all.take(i as int) =~= all);
    out
}

fn item_error(what: &str, e: &str) -> (r: String)
    ensures
        r@ == what@ + e@,
{
    what.to_string().concat(e)
}

fn plain_call(client: &LspClient, req: &Request) -> (r: Result<Call, String>)
    requires
        request::is_feature(*req),
        !(*req is Completion),
        !(*req is CompletionResolve),
        !(*req is ExecuteAction),
        !(*req is ExecuteCodeLens),
    ensures
        wire::outcome(r) == first_call(*req, client@),
{
    match req {
        Request::Hover { uri, line, character, .. } => Ok(
            client.hover(uri.as_str(), *line, *character),
        ),
        Request::Definition { uri, line, character, .. } => Ok(
            client.definition(uri.as_str(), *line, *character),
        ),
        Request::References { uri, line, character, .. } => Ok(
            client.references(uri.as_str(), *line, *character),
        ),
        Request::CodeAction {
            uri,
            line,
            character,
            end_line,
            end_character,
            diagnostics,
            ..
        } => {
            let range = RangeItem {
                line: *line,
                character: *character,
                end_line: match end_line {
                    Some(n) => *n,
                    None => *line,
                },
                end_character: match end_character {
                    Some(n) => *n,
                    None => *character,
                },
            };
            Ok(client.code_action(uri.as_str(), range, diagnostics))
        },
        Request::Formatting { uri, tab_size, insert_spaces, .. } => Ok(
            client.formatting(uri.as_str(), *tab_size, *insert_spaces),
        ),
        Request::Rename { uri, line, character, new_name, .. } => Ok(
            client.rename(uri.as_str(), *line, *character, new_name.as_str()),
        ),
        Request::SignatureHelp { uri, line, character, .. } => Ok(
            client.signature_help(uri.as_str(), *line, *character),
        ),
        Request::Implementation { uri, line, character, .. } => Ok(
            client.implementation(uri.as_str(), *line, *character),
        ),
        Request::TypeDefinition { uri, line, character, .. } => Ok(
            client.type_definition(uri.as_str(), *line, *character),
        ),
        Request::DocumentSymbol { uri, .. } => Ok(client.document_symbol(uri.as_str())),
        Request::WorkspaceSymbol { query, .. } => Ok(client.workspace_symbol(query.as_str())),
        Request::DocumentHighlight { uri, line, character, .. } => Ok(
            client.document_highlight(uri.as_str(), *line, *character),
        ),
        Request::InlayHint { uri, start_line, end_line, .. } => Ok(
            client.inlay_hints(uri.as_str(), *start_line, *end_line),
        ),
        Request::PrepareCallHierarchy { uri, line, character, .. } => Ok(
            client.call_hierarchy_prepare(uri.as_str(), *line, *character),
        ),
        Request::IncomingCalls { item, .. } => match decode::call_item(item) {
            Ok(i) => Ok(client.call_hierarchy_incoming(&i)),
            Err(e) => Err(item_error("invalid call hierarchy item: ", e.as_str())),
        },
        Request::OutgoingCalls { item, .. } => match decode::call_item(item) {
            Ok(i) => Ok(client.call_hierarchy_outgoing(&i)),
            Err(e) => Err(item_error("invalid call hierarchy item: ", e.as_str())),
        },
        Request::SelectionRange { uri, positions, .. } => {
            let list = points(positions);
            Ok(client.selection_range(uri.as_str(), &list))
        },
        Request::SemanticTokensFull { uri, .. } => Ok(client.semantic_tokens_full(uri.as_str())),
        Request::SemanticTokensDelta { uri, .. } => Ok(
            client.semantic_tokens_full_delta(uri.as_str()),
        ),
        Request::SemanticTokensRange {
            uri,
            start_line,
            start_character,
            end_line,
            end_character,
            ..
        } => {
            let range = RangeItem {
                line: *start_line,
                character: *start_character,
                end_line: *end_line,
                end_character: *end_character,
            };
            Ok(client.semantic_tokens_range(uri.as_str(), range))
        },
        Request::CodeLens { uri, .. } => Ok(client.code_lens(uri.as_str())),
        Request::FoldingRange { uri, .. } => Ok(client.folding_range(uri.as_str())),
        Request::LinkedEditingRange { uri, line, character, .. } => Ok(
            client.linked_editing_range(uri.as_str(), *line, *character),
        ),
        Request::PrepareTypeHierarchy { uri, line, character, .. } => Ok(
            client.type_hierarchy_prepare(uri.as_str(), *line, *character),
        ),
        Request::Supertypes { item, .. } => match decode::type_item(item) {
            Ok(i) => Ok(client.type_hierarchy_supertypes(&i)),
            Err(e) => Err(item_error("invalid type hierarchy item: ", e.as_str())),
        },
        Request::Subtypes { item, .. } => match decode::type_item(item) {
            Ok(i) => Ok(client.type_hierarchy_subtypes(&i)),
            Err(e) => Err(item_error("invalid type hierarchy item: ", e.as_str())),
        },
        Request::PullDiagnostics { uri, .. } => Ok(client.pull_diagnostics(uri.as_str())),
        _ => Err(String::new()),
    }
}

/// Ends the execution of an action or a lens.
pub fn edit_event(id: u64, edit: Option<&WorkspaceEdit>, done: &str) -> (r: Json)
    ensures
        r@ == edit_event_view(
            id,
            match edit {
                Some(w) => Some(w.deep_view()),
                None => None,
            },
            done@,
        ),
{
    match edit {
        Some(w) => value_event("applyEdit", id, "edit", w.to_json()),
        None => done_event(done, id),
    }
}

/// The edit behind an option.
pub fn edit_ref(edit: &Option<WorkspaceEdit>) -> (r: Option<&WorkspaceEdit>)
    ensures
        match r {
            Some(w) => *edit == Some(*w),
            None => *edit is None,
        },
{
    match edit {
        Some(w) => Some(w),
        None => None,
    }
}

fn begin_action(client: &LspClient, id: u64, index: usize) -> (r: Progress)
    ensures
        is_action_begin(r.deep_view(), client@, id, index),
{
    match client.execute_code_action(index) {
        Ok(step) => {
            let ghost action = client@.actions[index as int];
            let ghost edit = step.edit.deep_view();
            match step.call {
                Some(call) => ask(Stage::ActionCommand { edit: step.edit }, call),
                None => {
                    assert(actions::is_action_step(edit, None, action));
                    Progress::Reply(edit_event(id, edit_ref(&step.edit), "executeAction"))
                },
            }
        },
        Err(e) => Progress::Reply(error_event(id, e.as_str())),
    }
}

/// Goes on with the execution of a lens.
pub fn go_on(id: u64, step: LensStep) -> (r: Progress)
    ensures
        r.deep_view() == lens_progress(id, step.deep_view()),
{
    match step {
        LensStep::Resolve(call) => ask(Stage::LensResolve, call),
        LensStep::Execute(call) => ask(Stage::LensCommand, call),
        LensStep::Nothing => Progress::Reply(done_event("codeLensExecute", id)),
    }
}

fn begin_completion(
    client: &mut LspClient,
    uri: &str,
    line: u32,
    character: u32,
    trigger_kind: u32,
    trigger_character: &str,
) -> (r: Progress)
    ensures
        r.deep_view() == (ProgressView::Ask {
            stage: StageView::Completion {
                generation: old(client)@.completion_generation.wrapping_add(1),
            },
            key: Some("completion:"@ + uri@),
            call: CallView {
                method: "textDocument/completion"@,
                params: completion::completion_params(
                    uri@,
                    line,
                    character,
                    completion::trigger_context(
                        old(client)@.capabilities,
                        trigger_kind,
                        given_trigger(trigger_character@),
                    ),
                ),
                timeout_ms: completion::COMPLETION_TIMEOUT_MS,
            },
        }),
        final(client)@ == (ClientView {
            completion_generation: old(client)@.completion_generation.wrapping_add(1),
            ..old(client)@
        }),
{
    let trigger = if trigger_character.unicode_len() == 0 {
        None
    } else {
        Some(trigger_character)
    };
    let c = client.completion(uri, line, character, trigger_kind, trigger);
    Progress::Ask {
        stage: Stage::Completion { generation: c.generation },
        key: Some(c.key),
        call: c.call,
    }
}

fn begin_resolve(client: &LspClient, req: &Request, generation: u64, index: usize) -> (r: Progress)
    requires
        *req matches Request::CompletionResolve { generation: g, index: i, .. } && g == generation
            && i == index,
    ensures
        is_begin(r.deep_view(), client@, *req),
{
    match client.completion_resolve(generation, index) {
        Ok(call) => {
            let original = call.params.copy();
            ask(Stage::Item { original }, call)
        },
        Err(e) => fail(req, e.as_str()),
    }
}

/// Begins a request with a server.
pub fn begin(client: &mut LspClient, req: &Request) -> (r: Progress)
    requires
        request::is_feature(*req) || *req is JuliaActivateEnvironment
            || *req is JuliaRefreshLanguageServer,
    ensures
        is_begin(r.deep_view(), old(client)@, *req),
        final(client)@ == after_begin(old(client)@, *req),
        r matches Progress::Ask { stage, .. } ==> fits(*req, stage.deep_view()),
{
    match req {
        Request::Completion { uri, line, character, trigger_kind, trigger_character, .. } =>
            begin_completion(
            client,
            uri.as_str(),
            *line,
            *character,
            *trigger_kind,
            trigger_character.as_str(),
        ),
        Request::CompletionResolve { generation, index, .. } => begin_resolve(
            client,
            req,
            *generation,
            *index,
        ),
        Request::ExecuteAction { id, index, .. } => begin_action(client, *id, *index),
        Request::ExecuteCodeLens { id, index, .. } => match client.execute_code_lens(*index) {
            Ok(step) => go_on(*id, step),
            Err(e) => fail(req, e.as_str()),
        },
        Request::JuliaActivateEnvironment { env_path, .. } =>
            match client.julia_activate_environment(env_path.as_str()) {
            Ok(m) => Progress::Tell(m),
            Err(e) => fail(req, e.as_str()),
        },
        Request::JuliaRefreshLanguageServer { .. } => match client.refresh_julia_language_server() {
            Some(m) => Progress::Tell(m),
            None => fail(req, "Active server is not Julia LanguageServer"),
        },
        _ => {
            let stage = match req {
                Request::SemanticTokensFull { .. } => Stage::FullTokens,
                Request::SemanticTokensDelta { uri, .. } => if client.has_named_tokens(
                    uri.as_str(),
                ) {
                    Stage::Answer
                } else {
                    Stage::FullTokens
                },
                _ => Stage::Answer,
            };
            match plain_call(client, req) {
                Ok(call) => ask(stage, call),
                Err(e) => fail(req, e.as_str()),
            }
        },
    }
}

/// The event that ends a request of a Julia buffer, given why the server could
/// not be told of it, if it could not.
pub open spec fn told_view(req: Request, error: Option<Seq<char>>) -> JsonView {
    match error {
        Some(e) => session::error_event_view(req.spec_id(), e),
        None => match req {
            Request::JuliaActivateEnvironment { id, env_path, .. } => session::value_event_view(
                "juliaEnvironment"@,
                id,
                "path"@,
                JsonView::Str(env_path@),
            ),
            _ => session::done_event_view("juliaRefreshed"@, req.spec_id()),
        },
    }
}

/// Ends a request of a Julia buffer.
pub fn told(req: &Request, error: Option<&str>) -> (r: Json)
    ensures
        r@ == told_view(*req, text::text_of(error)),
{
    match error {
        Some(e) => error_event(req.id(), e),
        None => match req {
            Request::JuliaActivateEnvironment { id, env_path, .. } => value_event(
                "juliaEnvironment",
                *id,
                "path",
                Json::string(env_path.as_str()),
            ),
            _ => done_event("juliaRefreshed", req.id()),
        },
    }
}

} // verus!
