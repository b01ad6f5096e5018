//! What a server is asked for the requests of the editor.

use vstd::prelude::*;
use vstd::string::*;

use crate::daemon::feature;
use crate::daemon::feature::ProgressView;
use crate::daemon::request;
use crate::daemon::request::Request;
use crate::json;
use crate::json::JsonView;
use crate::laws::shapes;
use crate::lsp::actions;
use crate::lsp::actions::LensStepView;
use crate::lsp::call;
use crate::lsp::call::CallView;
use crate::lsp::client::ClientView;
use crate::lsp::completion;
use crate::lsp::decode;
use crate::lsp::types;
use crate::lsp::types::{RangeItem, WorkspaceEdit, WorkspaceEditView};
use crate::lsp::wire::Wire;

verus! {

/// Whether parameters name a document.
pub open spec fn names(params: JsonView, uri: Seq<char>) -> bool {
    shapes::holds(params, "textDocument"@) && shapes::has_text(
        shapes::member(params, "textDocument"@),
        "uri"@,
        uri,
    )
}

/// Whether parameters name a place in a document.
pub open spec fn names_place(
    params: JsonView,
    uri: Seq<char>,
    line: u32,
    character: u32,
) -> bool {
    names(params, uri) && shapes::holds(params, "position"@) && shapes::is_position(
        shapes::member(params, "position"@),
        line,
        character,
    )
}

/// Whether the server is asked about a document.
pub open spec fn asks(
    r: Result<CallView, Seq<char>>,
    method: Seq<char>,
    uri: Seq<char>,
) -> bool {
    r matches Ok(call) && call.method == method && names(call.params, uri)
}

/// Whether the server is asked about a place in a document.
pub open spec fn asks_at(
    r: Result<CallView, Seq<char>>,
    method: Seq<char>,
    uri: Seq<char>,
    line: u32,
    character: u32,
) -> bool {
    r matches Ok(call) && call.method == method && names_place(call.params, uri, line, character)
}

/// Whether the server is asked about a range of a document.
pub open spec fn asks_within(
    r: Result<CallView, Seq<char>>,
    method: Seq<char>,
    uri: Seq<char>,
    range: RangeItem,
) -> bool {
    r matches Ok(call) && call.method == method && names(call.params, uri) && shapes::spans(
        call.params,
        "range"@,
        range,
    )
}

/// The parameters of a request that is made.
pub open spec fn params_of(r: Result<CallView, Seq<char>>) -> JsonView {
    r->Ok_0.params
}

/// The context in the parameters of a request that is made.
pub open spec fn context_of(r: Result<CallView, Seq<char>>) -> JsonView {
    shapes::member(params_of(r), "context"@)
}

proof fn lemma_keys()
    ensures
        "uri"@.len() == 3,
        "id"@.len() == 2,
        "end"@.len() == 3,
        "line"@.len() == 4,
        "item"@.len() == 4,
        "start"@.len() == 5,
        "range"@.len() == 5,
        "query"@.len() == 5,
        "method"@.len() == 6,
        "params"@.len() == 6,
        "method"@ != "params"@,
        "context"@.len() == 7,
        "newName"@.len() == 7,
        "options"@.len() == 7,
        "jsonrpc"@.len() == 7,
        "command"@.len() == 7,
        "tabSize"@.len() == 7,
        "position"@.len() == 8,
        "positions"@.len() == 9,
        "character"@.len() == 9,
        "arguments"@.len() == 9,
        "triggerKind"@.len() == 11,
        "diagnostics"@.len() == 11,
        "insertSpaces"@.len() == 12,
        "textDocument"@.len() == 12,
        "triggerCharacter"@.len() == 16,
        "previousResultId"@.len() == 16,
        "includeDeclaration"@.len() == 18,
{
    reveal_strlit("uri");
    reveal_strlit("id");
    reveal_strlit("end");
    reveal_strlit("line");
    reveal_strlit("item");
    reveal_strlit("start");
    reveal_strlit("range");
    reveal_strlit("query");
    reveal_strlit("method");
    reveal_strlit("params");
    assert("method"@[0] != "params"@[0]);
    reveal_strlit("context");
    reveal_strlit("newName");
    reveal_strlit("options");
    reveal_strlit("jsonrpc");
    reveal_strlit("command");
    reveal_strlit("tabSize");
    reveal_strlit("position");
    reveal_strlit("positions");
    reveal_strlit("character");
    reveal_strlit("arguments");
    reveal_strlit("triggerKind");
    reveal_strlit("diagnostics");
    reveal_strlit("insertSpaces");
    reveal_strlit("textDocument");
    reveal_strlit("triggerCharacter");
    reveal_strlit("previousResultId");
    reveal_strlit("includeDeclaration");
}

/// A request about a place asks the server about that place, by the method that
/// it is for.
pub proof fn law_places_are_asked_about(req: Request, c: ClientView)
    ensures
        req matches Request::Hover { uri, line, character, .. } ==> asks_at(
            feature::first_call(req, c),
            "textDocument/hover"@,
            uri@,
            line,
            character,
        ),
        req matches Request::Definition { uri, line, character, .. } ==> asks_at(
            feature::first_call(req, c),
            "textDocument/definition"@,
            uri@,
            line,
            character,
        ),
        req matches Request::References { uri, line, character, .. } ==> asks_at(
            feature::first_call(req, c),
            "textDocument/references"@,
            uri@,
            line,
            character,
        ),
        req matches Request::SignatureHelp { uri, line, character, .. } ==> asks_at(
            feature::first_call(req, c),
            "textDocument/signatureHelp"@,
            uri@,
            line,
            character,
        ),
        req matches Request::Implementation { uri, line, character, .. } ==> asks_at(
            feature::first_call(req, c),
            "textDocument/implementation"@,
            uri@,
            line,
            character,
        ),
        req matches Request::TypeDefinition { uri, line, character, .. } ==> asks_at(
            feature::first_call(req, c),
            "textDocument/typeDefinition"@,
            uri@,
            line,
            character,
        ),
        req matches Request::DocumentHighlight { uri, line, character, .. } ==> asks_at(
            feature::first_call(req, c),
            "textDocument/documentHighlight"@,
            uri@,
            line,
            character,
        ),
        req matches Request::PrepareCallHierarchy { uri, line, character, .. } ==> asks_at(
            feature::first_call(req, c),
            "textDocument/prepareCallHierarchy"@,
            uri@,
            line,
            character,
        ),
        req matches Request::PrepareTypeHierarchy { uri, line, character, .. } ==> asks_at(
            feature::first_call(req, c),
            "textDocument/prepareTypeHierarchy"@,
            uri@,
            line,
            character,
        ),
        req matches Request::LinkedEditingRange { uri, line, character, .. } ==> asks_at(
            feature::first_call(req, c),
            "textDocument/linkedEditingRange"@,
            uri@,
            line,
            character,
        ),
        req matches Request::Rename { uri, line, character, .. } ==> asks_at(
            feature::first_call(req, c),
            "textDocument/rename"@,
            uri@,
            line,
            character,
        ),
        req matches Request::Completion { uri, line, character, .. } ==> asks_at(
            feature::first_call(req, c),
            "textDocument/completion"@,
            uri@,
            line,
            character,
        ),
{
    lemma_keys();
}

/// A request about a document asks the server about that document, by the method
/// that it is for.
pub proof fn law_documents_are_asked_about(req: Request, c: ClientView)
    ensures
        req matches Request::DocumentSymbol { uri, .. } ==> asks(
            feature::first_call(req, c),
            "textDocument/documentSymbol"@,
            uri@,
        ),
        req matches Request::CodeLens { uri, .. } ==> asks(
            feature::first_call(req, c),
            "textDocument/codeLens"@,
            uri@,
        ),
        req matches Request::FoldingRange { uri, .. } ==> asks(
            feature::first_call(req, c),
            "textDocument/foldingRange"@,
            uri@,
        ),
        req matches Request::PullDiagnostics { uri, .. } ==> asks(
            feature::first_call(req, c),
            "textDocument/diagnostic"@,
            uri@,
        ),
        req matches Request::Formatting { uri, .. } ==> asks(
            feature::first_call(req, c),
            "textDocument/formatting"@,
            uri@,
        ),
        req matches Request::SelectionRange { uri, .. } ==> asks(
            feature::first_call(req, c),
            "textDocument/selectionRange"@,
            uri@,
        ),
        req matches Request::SemanticTokensFull { uri, .. } ==> asks(
            feature::first_call(req, c),
            "textDocument/semanticTokens/full"@,
            uri@,
        ),
{
    lemma_keys();
}

/// A request about a range asks the server about that range. The hints are asked
/// for from the beginning of one line to the beginning of another.
pub proof fn law_ranges_are_asked_about(req: Request, c: ClientView)
    ensures
        req matches Request::InlayHint { uri, start_line, end_line, .. } ==> asks_within(
            feature::first_call(req, c),
            "textDocument/inlayHint"@,
            uri@,
            (RangeItem { line: start_line, character: 0, end_line, end_character: 0 }),
        ),
        req matches Request::SemanticTokensRange {
            uri,
            start_line,
            start_character,
            end_line,
            end_character,
            ..
        } ==> asks_within(
            feature::first_call(req, c),
            "textDocument/semanticTokens/range"@,
            uri@,
            (RangeItem {
                line: start_line,
                character: start_character,
                end_line,
                end_character,
            }),
        ),
{
    lemma_keys();
}

/// Code actions are asked for from the place of the request to the end that it
/// gives. What it does not give of the end is that of the place.
pub proof fn law_actions_are_asked_for_in_their_range(req: Request, c: ClientView)
    ensures
        req matches Request::CodeAction {
            uri,
            line,
            character,
            end_line: Some(end_line),
            end_character: Some(end_character),
            ..
        } ==> asks_within(
            feature::first_call(req, c),
            "textDocument/codeAction"@,
            uri@,
            (RangeItem { line, character, end_line, end_character }),
        ),
        req matches Request::CodeAction {
            uri,
            line,
            character,
            end_line: Some(end_line),
            end_character: None,
            ..
        } ==> asks_within(
            feature::first_call(req, c),
            "textDocument/codeAction"@,
            uri@,
            (RangeItem { line, character, end_line, end_character: character }),
        ),
        req matches Request::CodeAction {
            uri,
            line,
            character,
            end_line: None,
            end_character: Some(end_character),
            ..
        } ==> asks_within(
            feature::first_call(req, c),
            "textDocument/codeAction"@,
            uri@,
            (RangeItem { line, character, end_line: line, end_character }),
        ),
        req matches Request::CodeAction {
            uri,
            line,
            character,
            end_line: None,
            end_character: None,
            ..
        } ==> asks_within(
            feature::first_call(req, c),
            "textDocument/codeAction"@,
            uri@,
            (RangeItem { line, character, end_line: line, end_character: character }),
        ),
{
    lemma_keys();
}

/// The diagnostics that a code action is for are handed on where they are a list
/// that can be read. Otherwise none are.
pub proof fn law_actions_know_their_diagnostics(req: Request, c: ClientView)
    requires
        req is CodeAction,
    ensures
        shapes::holds(params_of(feature::first_call(req, c)), "context"@),
        req->CodeAction_diagnostics@ is Array && decode::read_diagnostics(
            req->CodeAction_diagnostics@,
        ) is Ok ==> shapes::has(
            context_of(feature::first_call(req, c)),
            "diagnostics"@,
            decode::read_diagnostics(req->CodeAction_diagnostics@)->Ok_0,
        ),
        !(req->CodeAction_diagnostics@ is Array) || decode::read_diagnostics(
            req->CodeAction_diagnostics@,
        ) is Err ==> shapes::has_list(
            context_of(feature::first_call(req, c)),
            "diagnostics"@,
            Seq::empty(),
        ),
{
    lemma_keys();
}

/// References are asked for together with the declaration.
pub proof fn law_references_come_with_the_declaration(req: Request, c: ClientView)
    requires
        req is References,
    ensures
        shapes::holds(params_of(feature::first_call(req, c)), "context"@),
        shapes::has(
            context_of(feature::first_call(req, c)),
            "includeDeclaration"@,
            JsonView::Bool(true),
        ),
{
    lemma_keys();
}

/// A rename hands on the new name.
pub proof fn law_renames_hand_on_the_name(req: Request, c: ClientView)
    requires
        req is Rename,
    ensures
        shapes::has_text(
            params_of(feature::first_call(req, c)),
            "newName"@,
            req->Rename_new_name@,
        ),
{
    lemma_keys();
}

/// Formatting hands on the width of a tab and whether to indent with spaces.
pub proof fn law_formatting_hands_on_its_options(req: Request, c: ClientView)
    requires
        req is Formatting,
    ensures
        shapes::holds(params_of(feature::first_call(req, c)), "options"@),
        shapes::has_number(
            shapes::member(params_of(feature::first_call(req, c)), "options"@),
            "tabSize"@,
            req->Formatting_tab_size as int,
        ),
        shapes::has(
            shapes::member(params_of(feature::first_call(req, c)), "options"@),
            "insertSpaces"@,
            JsonView::Bool(req->Formatting_insert_spaces),
        ),
{
    lemma_keys();
}

/// The symbols of a workspace are asked for by the word that is looked for.
pub proof fn law_symbols_are_asked_for_by_name(req: Request, c: ClientView)
    requires
        req is WorkspaceSymbol,
    ensures
        feature::first_call(req, c) is Ok,
        feature::first_call(req, c)->Ok_0.method == "workspace/symbol"@,
        shapes::has_text(
            params_of(feature::first_call(req, c)),
            "query"@,
            req->WorkspaceSymbol_query@,
        ),
{
    lemma_keys();
}

/// Whether a value is a place that a request names: two numbers, cut to the size
/// of the protocol's.
pub open spec fn is_point(p: JsonView, line: u32, character: u32) -> bool {
    p.at("line"@).as_u64() == Some(line as u64) && p.at("character"@).as_u64() == Some(
        character as u64,
    )
}

/// Selection ranges are asked for at every place that the request names, in
/// order.
pub proof fn law_every_place_is_asked_about(
    req: Request,
    c: ClientView,
    places: Seq<(u32, u32)>,
)
    requires
        req is SelectionRange,
        places.len() == req->SelectionRange_positions@.len(),
        forall|i: int|
            0 <= i < places.len() ==> is_point(
                (#[trigger] req->SelectionRange_positions@[i])@,
                places[i].0,
                places[i].1,
            ),
    ensures
        shapes::holds(params_of(feature::first_call(req, c)), "positions"@),
        shapes::member(params_of(feature::first_call(req, c)), "positions"@) is Array,
        shapes::member(params_of(feature::first_call(req, c)), "positions"@)->Array_0.len()
            == places.len(),
        forall|i: int|
            0 <= i < places.len() ==> shapes::is_position(
                #[trigger] shapes::member(
                    params_of(feature::first_call(req, c)),
                    "positions"@,
                )->Array_0[i],
                places[i].0,
                places[i].1,
            ),
{
    lemma_keys();
    let items = json::items_view(req->SelectionRange_positions@);
    assert forall|i: int| 0 <= i < items.len() implies is_point(
        #[trigger] items[i],
        places[i].0,
        places[i].1,
    ) by {
        assert(items[i] == req->SelectionRange_positions@[i]@);
    }
    lemma_points(items, places);
}

proof fn lemma_points(items: Seq<JsonView>, places: Seq<(u32, u32)>)
    requires
        items.len() == places.len(),
        forall|i: int|
            0 <= i < items.len() ==> is_point(#[trigger] items[i], places[i].0, places[i].1),
    ensures
        feature::points_of(items) == places,
    decreases items.len(),
{
    if items.len() > 0 {
        let n = items.len() - 1;
        assert forall|i: int| 0 <= i < n implies is_point(
            #[trigger] items.drop_last()[i],
            places.drop_last()[i].0,
            places.drop_last()[i].1,
        ) by {
            assert(is_point(items[i], places[i].0, places[i].1));
        }
        lemma_points(items.drop_last(), places.drop_last());
        assert(is_point(items[n], places[n].0, places[n].1));
        assert(feature::point_of(items.last()) == Some(places.last()));
        assert(places.drop_last().push(places.last()) =~= places);
    } else {
        assert(places =~= Seq::empty());
    }
}

/// A hierarchy is asked about with the item that was read, and an item that
/// cannot be read is refused with the reason.
pub proof fn law_hierarchies_hand_on_their_item(
    req: Request,
    c: ClientView,
    given: JsonView,
    item: JsonView,
    error: Seq<char>,
)
    ensures
        decode::read_call_item(given) == Ok::<JsonView, Seq<char>>(item) ==> {
            &&& (req is IncomingCalls && req->IncomingCalls_item@ == given ==> asks_with(
                feature::first_call(req, c),
                "callHierarchy/incomingCalls"@,
                item,
            ))
            &&& (req is OutgoingCalls && req->OutgoingCalls_item@ == given ==> asks_with(
                feature::first_call(req, c),
                "callHierarchy/outgoingCalls"@,
                item,
            ))
        },
        decode::read_call_item(given) == Err::<JsonView, Seq<char>>(error) ==> {
            &&& (req is IncomingCalls && req->IncomingCalls_item@ == given ==> feature::first_call(
                req,
                c,
            ) == Err::<CallView, Seq<char>>("invalid call hierarchy item: "@ + error))
            &&& (req is OutgoingCalls && req->OutgoingCalls_item@ == given ==> feature::first_call(
                req,
                c,
            ) == Err::<CallView, Seq<char>>("invalid call hierarchy item: "@ + error))
        },
        decode::read_type_item(given) == Ok::<JsonView, Seq<char>>(item) ==> {
            &&& (req is Supertypes && req->Supertypes_item@ == given ==> asks_with(
                feature::first_call(req, c),
                "typeHierarchy/supertypes"@,
                item,
            ))
            &&& (req is Subtypes && req->Subtypes_item@ == given ==> asks_with(
                feature::first_call(req, c),
                "typeHierarchy/subtypes"@,
                item,
            ))
        },
        decode::read_type_item(given) == Err::<JsonView, Seq<char>>(error) ==> {
            &&& (req is Supertypes && req->Supertypes_item@ == given ==> feature::first_call(req, c)
                == Err::<CallView, Seq<char>>("invalid type hierarchy item: "@ + error))
            &&& (req is Subtypes && req->Subtypes_item@ == given ==> feature::first_call(req, c)
                == Err::<CallView, Seq<char>>("invalid type hierarchy item: "@ + error))
        },
{
    lemma_keys();
}

/// Whether the server is asked about an item of a hierarchy.
pub open spec fn asks_with(
    r: Result<CallView, Seq<char>>,
    method: Seq<char>,
    item: JsonView,
) -> bool {
    r matches Ok(call) && call.method == method && shapes::has(call.params, "item"@, item)
}

/// What changed of a document's tokens is asked for where the last answer had a
/// name, by that name. Otherwise all tokens are asked for.
pub proof fn law_changed_tokens_are_asked_for_by_name(req: Request, c: ClientView)
    requires
        req is SemanticTokensDelta,
    ensures
        c.result_ids.contains_key(req->SemanticTokensDelta_uri@) ==> asks(
            feature::first_call(req, c),
            "textDocument/semanticTokens/full/delta"@,
            req->SemanticTokensDelta_uri@,
        ) && shapes::has_text(
            params_of(feature::first_call(req, c)),
            "previousResultId"@,
            c.result_ids[req->SemanticTokensDelta_uri@],
        ),
        !c.result_ids.contains_key(req->SemanticTokensDelta_uri@) ==> asks(
            feature::first_call(req, c),
            "textDocument/semanticTokens/full"@,
            req->SemanticTokensDelta_uri@,
        ),
{
    lemma_keys();
}

/// Whether a server says that a character triggers completions.
pub open spec fn is_trigger(c: ClientView, trigger: Seq<char>, i: int) -> bool {
    &&& c.capabilities is Some
    &&& shapes::holds(c.capabilities->0, "completionProvider"@)
    &&& shapes::holds(
        shapes::member(c.capabilities->0, "completionProvider"@),
        "triggerCharacters"@,
    )
    &&& shapes::member(
        shapes::member(c.capabilities->0, "completionProvider"@),
        "triggerCharacters"@,
    ) is Array
    &&& 0 <= i < trigger_list(c).len()
    &&& shapes::is_text(trigger_list(c)[i], trigger)
}

/// The characters that trigger completions, as a server lists them.
pub open spec fn trigger_list(c: ClientView) -> Seq<JsonView> {
    shapes::member(
        shapes::member(c.capabilities->0, "completionProvider"@),
        "triggerCharacters"@,
    )->Array_0
}

/// A completion says how it came about: by hand, by a character that the server
/// lists, or once more for an incomplete list. A character that the server does
/// not list counts as the last.
pub proof fn law_completions_say_how_they_came(req: Request, c: ClientView, i: int)
    requires
        req is Completion,
    ensures
        shapes::holds(params_of(feature::first_call(req, c)), "context"@),
        req->Completion_trigger_kind <= 1 ==> shapes::has_number(
            context_of(feature::first_call(req, c)),
            "triggerKind"@,
            1,
        ),
        req->Completion_trigger_kind >= 3 ==> shapes::has_number(
            context_of(feature::first_call(req, c)),
            "triggerKind"@,
            3,
        ),
        req->Completion_trigger_kind != 2 ==> shapes::lacks(
            context_of(feature::first_call(req, c)),
            "triggerCharacter"@,
        ),
        req->Completion_trigger_kind == 2 && req->Completion_trigger_character@.len() > 0
            && is_trigger(c, req->Completion_trigger_character@, i) ==> {
            &&& shapes::has_number(context_of(feature::first_call(req, c)), "triggerKind"@, 2)
            &&& shapes::has_text(
                context_of(feature::first_call(req, c)),
                "triggerCharacter"@,
                req->Completion_trigger_character@,
            )
        },
        req->Completion_trigger_kind == 2 && (req->Completion_trigger_character@.len() == 0 || (
        forall|k: int| !#[trigger] is_trigger(c, req->Completion_trigger_character@, k))) ==> {
            &&& shapes::has_number(context_of(feature::first_call(req, c)), "triggerKind"@, 3)
            &&& shapes::lacks(context_of(feature::first_call(req, c)), "triggerCharacter"@)
        },
{
    lemma_keys();
    let t = req->Completion_trigger_character@;
    if c.capabilities is Some && t.len() > 0 {
        let items = c.capabilities->0.at("completionProvider"@).at("triggerCharacters"@).items();
        lemma_texts(items, t);
        if is_trigger(c, t, i) {
            assert(items[i] == JsonView::Str(t));
        }
        if completion::triggers_on(c.capabilities, t) {
            let k = choose|k: int| 0 <= k < items.len() && items[k] == JsonView::Str(t);
            assert(is_trigger(c, t, k));
        }
    }
}

proof fn lemma_texts(items: Seq<JsonView>, t: Seq<char>)
    requires
        t.len() > 0,
    ensures
        types::strings_of(items).contains(t) <==> exists|k: int|
            0 <= k < items.len() && items[k] == JsonView::Str(t),
{
    let texts = types::strings_of(items);
    if texts.contains(t) {
        let i = choose|i: int| 0 <= i < texts.len() && texts[i] == t;
        assert(items[i] == JsonView::Str(t));
    }
    if exists|k: int| 0 <= k < items.len() && items[k] == JsonView::Str(t) {
        let k = choose|k: int| 0 <= k < items.len() && items[k] == JsonView::Str(t);
        assert(texts[k] == t);
    }
}

/// More about a completion item is asked for with the item that was kept, under
/// the generation that is current.
pub proof fn law_items_are_resolved_as_they_were_kept(req: Request, c: ClientView)
    requires
        req is CompletionResolve,
    ensures
        req->CompletionResolve_generation == c.cached_generation
            && req->CompletionResolve_index < c.completions.len() ==> {
            &&& feature::first_call(req, c) is Ok
            &&& feature::first_call(req, c)->Ok_0.method == "completionItem/resolve"@
            &&& params_of(feature::first_call(req, c))
                == c.completions[req->CompletionResolve_index as int]
        },
        req->CompletionResolve_generation != c.cached_generation
            || req->CompletionResolve_index >= c.completions.len() ==> feature::first_call(
            req,
            c,
        ) is Err,
{
}

/// A command is executed under its name, with its arguments.
pub proof fn law_commands_are_executed_with_their_arguments(
    command: JsonView,
    name: Seq<char>,
    arguments: JsonView,
)
    requires
        shapes::has_text(command, "command"@, name),
        shapes::has(command, "arguments"@, arguments),
    ensures
        actions::command_call(command).method == "workspace/executeCommand"@,
        shapes::has_text(actions::command_call(command).params, "command"@, name),
        shapes::has(actions::command_call(command).params, "arguments"@, arguments),
{
    lemma_keys();
}

/// A lens with a command executes it; one without is resolved first, as the
/// server gave it. One that has no command even then does nothing.
pub proof fn law_lenses_find_their_command(lens: JsonView, command: JsonView)
    ensures
        shapes::has(lens, "command"@, command) && !(command is Null) ==> actions::lens_step(lens)
            == LensStepView::Execute(actions::command_call(command)) && actions::lens_command(lens)
            == LensStepView::Execute(actions::command_call(command)),
        shapes::lacks(lens, "command"@) || shapes::has(lens, "command"@, JsonView::Null)
            ==> actions::lens_command(lens) is Nothing && (actions::lens_step(
            lens,
        ) matches LensStepView::Resolve(call) && call.method == "codeLens/resolve"@ && call.params
            == lens),
{
}

/// Only a completion takes the place of an earlier request: that of the same
/// document.
pub proof fn law_only_completions_are_replaced(a: Request, b: Request)
    ensures
        !(a is Completion) ==> feature::request_key(a) is None,
        a is Completion ==> feature::request_key(a) is Some,
        a is Completion && b is Completion ==> (feature::request_key(a) == feature::request_key(b)
            <==> a->Completion_uri@ == b->Completion_uri@),
{
    if a is Completion && b is Completion {
        let p = "completion:"@;
        let (x, y) = (a->Completion_uri@, b->Completion_uri@);
        if p + x == p + y {
            assert((p + x).skip(p.len() as int) =~= x);
            assert((p + y).skip(p.len() as int) =~= y);
        }
    }
}

/// An environment is activated by its path, at the Julia server and at no other.
pub proof fn law_environments_are_activated(req: Request, c: ClientView)
    requires
        req is JuliaActivateEnvironment,
    ensures
        c.server_name == "julia-lsp"@ ==> {
            &&& feature::julia_begin(req, c) is Tell
            &&& shapes::has_text(
                feature::julia_begin(req, c)->Tell_0,
                "method"@,
                "julia/activateenvironment"@,
            )
            &&& shapes::holds(feature::julia_begin(req, c)->Tell_0, "params"@)
            &&& shapes::has_text(
                shapes::member(feature::julia_begin(req, c)->Tell_0, "params"@),
                "envPath"@,
                req->JuliaActivateEnvironment_env_path@,
            )
        },
        c.server_name != "julia-lsp"@ ==> feature::julia_begin(req, c) is Reply,
{
    lemma_keys();
}

/// Every request of the protocol carries its number, method and parameters; a
/// notification the latter two and no number.
pub proof fn law_messages_carry_what_they_say(id: i64, method: Seq<char>, params: JsonView)
    ensures
        ({
            let m = call::request_message(id, method, params);
            &&& shapes::has_text(m, "jsonrpc"@, "2.0"@)
            &&& shapes::has_number(m, "id"@, id as int)
            &&& shapes::has_text(m, "method"@, method)
            &&& shapes::has(m, "params"@, params)
        }),
        ({
            let m = call::notification_message(method, params);
            &&& shapes::has_text(m, "jsonrpc"@, "2.0"@)
            &&& shapes::lacks(m, "id"@)
            &&& shapes::has_text(m, "method"@, method)
            &&& shapes::has(m, "params"@, params)
        }),
        ({
            let m = call::cancel_message(id);
            &&& shapes::has_text(m, "method"@, "$/cancelRequest"@)
            &&& shapes::lacks(m, "id"@)
            &&& shapes::holds(m, "params"@)
            &&& shapes::has_number(shapes::member(m, "params"@), "id"@, id as int)
        }),
{
    lemma_keys();
}

// ---------------------------------------------------------------------------
// Beginning
// ---------------------------------------------------------------------------

/// A feature begins by asking the server what it is first to be asked, or ends at
/// once with the reason why there is nothing to ask.
pub proof fn law_features_begin_by_asking(p: ProgressView, c: ClientView, req: Request)
    requires
        feature::is_begin(p, c, req),
        request::is_feature(req),
        !(req is ExecuteAction),
        !(req is ExecuteCodeLens),
    ensures
        feature::first_call(req, c) is Ok ==> {
            &&& p is Ask
            &&& p->call == feature::first_call(req, c)->Ok_0
            &&& p->key == feature::request_key(req)
            &&& p->stage == feature::first_stage(req, c)
        },
        feature::first_call(req, c) matches Err(e) ==> p is Reply && crate::laws::events::is_error(
            p->Reply_0,
            req.spec_id(),
            feature::first_call(req, c)->Err_0,
        ),
{
    reveal_strlit("type");
    reveal_strlit("id");
    reveal_strlit("message");
    assert("type"@.len() == 4 && "id"@.len() == 2 && "message"@.len() == 7);
}

/// Only requests of a completion, an item and all tokens have an answer of their
/// own kind; every other is answered as it is.
pub proof fn law_first_answers_are_of_their_kind(req: Request, c: ClientView)
    ensures
        req is Completion ==> feature::first_stage(req, c) is Completion,
        req is CompletionResolve ==> feature::first_stage(req, c) is Item,
        req is CompletionResolve && req->CompletionResolve_index < c.completions.len()
            ==> feature::first_stage(req, c)->original
            == c.completions[req->CompletionResolve_index as int],
        req is SemanticTokensFull ==> feature::first_stage(req, c) is FullTokens,
        req is SemanticTokensDelta ==> (feature::first_stage(req, c) is Answer
            <==> c.result_ids.contains_key(req->SemanticTokensDelta_uri@)),
        req is SemanticTokensDelta ==> (feature::first_stage(req, c) is FullTokens
            <==> !c.result_ids.contains_key(req->SemanticTokensDelta_uri@)),
        !(req is Completion) && !(req is CompletionResolve) && !(req is SemanticTokensFull) && !(
        req is SemanticTokensDelta) ==> feature::first_stage(req, c) is Answer,
{
}

/// An action is executed as it was kept under its number: its command is asked for
/// first, where it has one, and its edit is handed over, where it has one. A number
/// under which none was kept is an error.
pub proof fn law_actions_are_executed_as_kept(
    p: ProgressView,
    c: ClientView,
    req: Request,
    command: JsonView,
    edit: JsonView,
)
    requires
        req is ExecuteAction,
        feature::is_begin(p, c, req),
    ensures
        req->ExecuteAction_index >= c.actions.len() ==> p is Reply
            && crate::laws::events::is_error(
            p->Reply_0,
            req->ExecuteAction_id,
            "invalid action index"@,
        ),
        req->ExecuteAction_index < c.actions.len() && shapes::has(
            c.actions[req->ExecuteAction_index as int],
            "command"@,
            command,
        ) && !(command is Null) ==> p is Ask && p->call == actions::command_call(command)
            && p->stage is ActionCommand,
        req->ExecuteAction_index < c.actions.len() && shapes::has(
            c.actions[req->ExecuteAction_index as int],
            "command"@,
            command,
        ) && !(command is Null) && shapes::has(
            c.actions[req->ExecuteAction_index as int],
            "edit"@,
            edit,
        ) && !(edit is Null) ==> p is Ask && p->stage->edit is Some && types::is_workspace_edit_of(
            p->stage->edit->0,
            edit,
        ),
        req->ExecuteAction_index < c.actions.len() && shapes::lacks(
            c.actions[req->ExecuteAction_index as int],
            "command"@,
        ) ==> p is Reply,
        req->ExecuteAction_index < c.actions.len() && shapes::lacks(
            c.actions[req->ExecuteAction_index as int],
            "command"@,
        ) && shapes::has(c.actions[req->ExecuteAction_index as int], "edit"@, edit) && !(edit
            is Null) ==> exists|w: WorkspaceEditView| #[trigger]
            types::is_workspace_edit_of(w, edit) && crate::laws::events::is_answer(
                p->Reply_0,
                "applyEdit"@,
                req->ExecuteAction_id,
                "edit"@,
                WorkspaceEdit::wire(w),
            ),
        req->ExecuteAction_index < c.actions.len() && shapes::lacks(
            c.actions[req->ExecuteAction_index as int],
            "command"@,
        ) && shapes::lacks(c.actions[req->ExecuteAction_index as int], "edit"@)
            ==> shapes::has_text(p->Reply_0, "type"@, "executeAction"@) && shapes::has_number(
            p->Reply_0,
            "id"@,
            req->ExecuteAction_id as int,
        ),
{
    reveal_strlit("type");
    reveal_strlit("id");
    reveal_strlit("message");
    reveal_strlit("edit");
    assert("type"@.len() == 4 && "id"@.len() == 2 && "message"@.len() == 7 && "edit"@.len() == 4);
    assert("edit"@[0] != "type"@[0]);
    let action = c.actions[req->ExecuteAction_index as int];
    if req->ExecuteAction_index < c.actions.len() && p is Reply {
        let w = choose|w: Option<WorkspaceEditView>|
            #[trigger] actions::is_action_step(w, None, action) && p->Reply_0
                == feature::edit_event_view(req->ExecuteAction_id, w, "executeAction"@);
        assert(actions::is_action_step(w, None, action));
        if shapes::has(action, "edit"@, edit) && !(edit is Null) {
            assert(types::is_workspace_edit_of(w->0, edit));
        }
    }
}

/// A lens is executed as it was kept under its number, and a number under which
/// none was kept is an error.
pub proof fn law_lenses_are_executed_as_kept(
    p: ProgressView,
    c: ClientView,
    req: Request,
    command: JsonView,
)
    requires
        req is ExecuteCodeLens,
        feature::is_begin(p, c, req),
    ensures
        req->ExecuteCodeLens_index >= c.code_lenses.len() ==> p is Reply
            && crate::laws::events::is_error(
            p->Reply_0,
            req->ExecuteCodeLens_id,
            "invalid code lens index"@,
        ),
        req->ExecuteCodeLens_index < c.code_lenses.len() && shapes::has(
            c.code_lenses[req->ExecuteCodeLens_index as int],
            "command"@,
            command,
        ) && !(command is Null) ==> p is Ask && p->stage is LensCommand && p->call
            == actions::command_call(command),
        req->ExecuteCodeLens_index < c.code_lenses.len() && shapes::lacks(
            c.code_lenses[req->ExecuteCodeLens_index as int],
            "command"@,
        ) ==> p is Ask && p->stage is LensResolve && p->call.method == "codeLens/resolve"@
            && p->call.params == c.code_lenses[req->ExecuteCodeLens_index as int],
{
    reveal_strlit("type");
    reveal_strlit("id");
    reveal_strlit("message");
    assert("type"@.len() == 4 && "id"@.len() == 2 && "message"@.len() == 7);
}


} // verus!
