//! What the answers of a server come to in the editor, for the features that
//! ask once and whose answer leaves nothing open.

use vstd::prelude::*;

use crate::daemon::feature;
use crate::daemon::feature::StageView;
use crate::daemon::request::Request;
use crate::daemon::session;
use crate::daemon::session::{error_event, value_event};
use crate::json;
use crate::json::{Fields, Json, JsonView};
use crate::lsp::actions;
use crate::lsp::client::{ClientView, LspClient};
use crate::lsp::decode;
use crate::lsp::features;
use crate::lsp::read;
use crate::lsp::read::convert_call_hierarchy_item;
use crate::lsp::types;
use crate::lsp::types::{
    CallHierarchyCall, CallHierarchyItem, CodeAction, CodeLensItem, DiagnosticItem,
    DiagnosticItemView, DocumentHighlightItem, DocumentSymbolItem, FoldingRangeItem, InlayHintItem,
    LinkedEditingRangeItem, Location, LocationView, SelectionRangeItem, SignatureInfo, TextEdit,
};
use crate::lsp::wire;
use crate::lsp::wire::{list_json, Wire};

verus! {

/// The event that answers a request with a value, or says why there is none.
pub open spec fn answer(
    kind: Seq<char>,
    id: u64,
    field: Seq<char>,
    value: Result<JsonView, Seq<char>>,
) -> JsonView {
    match value {
        Ok(v) => session::value_event_view(kind, id, field, v),
        Err(e) => session::error_event_view(id, e),
    }
}

/// A list as the editor receives it, where there is one.
pub open spec fn listed<T: Wire>(list: Result<Seq<T::V>, Seq<char>>) -> Result<
    JsonView,
    Seq<char>,
> {
    match list {
        Ok(v) => Ok(wire::wire_list::<T>(v)),
        Err(e) => Err(e),
    }
}

/// A list as the editor receives it, where there may be none.
pub open spec fn opt_listed<T: Wire>(list: Result<Option<Seq<T::V>>, Seq<char>>) -> Result<
    JsonView,
    Seq<char>,
> {
    match list {
        Ok(Some(v)) => Ok(wire::wire_list::<T>(v)),
        Ok(None) => Ok(JsonView::Null),
        Err(e) => Err(e),
    }
}

/// A value as the editor receives it, where there is one.
pub open spec fn written<T: Wire>(value: Result<T::V, Seq<char>>) -> Result<JsonView, Seq<char>> {
    match value {
        Ok(v) => Ok(T::wire(v)),
        Err(e) => Err(e),
    }
}

/// A value as the editor receives it, where there may be none.
pub open spec fn opt_written<T: Wire>(value: Result<Option<T::V>, Seq<char>>) -> Result<
    JsonView,
    Seq<char>,
> {
    match value {
        Ok(Some(v)) => Ok(T::wire(v)),
        Ok(None) => Ok(JsonView::Null),
        Err(e) => Err(e),
    }
}

/// A text as the editor receives it, where there may be none.
pub open spec fn opt_text(value: Result<Option<Seq<char>>, Seq<char>>) -> Result<
    JsonView,
    Seq<char>,
> {
    match value {
        Ok(t) => Ok(json::opt_str_view(t)),
        Err(e) => Err(e),
    }
}

/// An item of a hierarchy as the editor receives it, with the item as it is to
/// be handed back.
pub open spec fn prepared_item(item: JsonView) -> JsonView {
    let i = <CallHierarchyItem as wire::FromLsp>::lsp(item);
    JsonView::Object(
        map![
            "name"@ => JsonView::Str(i.name),
            "kind"@ => JsonView::Str(i.kind),
            "uri"@ => JsonView::Str(i.uri),
            "line"@ => JsonView::Int(i.line as int),
            "character"@ => JsonView::Int(i.character as int),
            "detail"@ => json::opt_str_view(i.detail),
            "raw"@ => item,
        ],
    )
}

/// The items of a hierarchy as the editor receives them.
pub open spec fn prepared_items(items: Result<Seq<JsonView>, Seq<char>>) -> Result<
    JsonView,
    Seq<char>,
> {
    match items {
        Ok(list) => Ok(
            JsonView::Array(Seq::new(list.len(), |i: int| prepared_item(list[i]))),
        ),
        Err(e) => Err(e),
    }
}

/// The event that answers a request for diagnostics.
pub open spec fn diagnostics_event_view(
    id: u64,
    uri: Seq<char>,
    items: Seq<DiagnosticItemView>,
) -> JsonView {
    JsonView::Object(
        map![
            "type"@ => JsonView::Str("diagnostics"@),
            "id"@ => JsonView::Int(id as int),
            "uri"@ => JsonView::Str(uri),
            "items"@ => wire::wire_list::<DiagnosticItem>(items),
        ],
    )
}

/// The code actions of an answer.
pub open spec fn actions_result(j: JsonView) -> Result<
    Seq<types::CodeActionView>,
    Seq<char>,
> {
    match j {
        JsonView::Null => Ok(Seq::empty()),
        JsonView::Array(items) => Ok(actions::shown_actions(items)),
        _ => Err(decode::lsp_value_list(j)->Err_0),
    }
}

/// The lenses of an answer.
pub open spec fn lenses_result(j: JsonView) -> Result<Seq<types::CodeLensItemView>, Seq<char>> {
    if j is Null {
        Ok(Seq::empty())
    } else {
        match decode::lsp_code_lenses(j) {
            Ok(list) => Ok(read::lenses_of(list.items())),
            Err(e) => Err(e),
        }
    }
}

/// The event that an answer to a request comes to, for the features that ask
/// once and whose answer leaves nothing open.
pub open spec fn answer_event(req: Request, j: JsonView) -> JsonView {
    let id = req.spec_id();
    match req {
        Request::Hover { .. } => answer(
            "hover"@,
            id,
            "contents"@,
            opt_text(
                if j is Null {
                    Ok(None)
                } else {
                    features::hover_outcome(decode::lsp_hover(j))
                },
            ),
        ),
        Request::References { .. } => locations_event("references"@, id, read::locations_of(j)),
        Request::Implementation { .. } => locations_event(
            "implementation"@,
            id,
            read::locations_of(j),
        ),
        Request::TypeDefinition { .. } => locations_event(
            "typeDefinition"@,
            id,
            read::locations_of(j),
        ),
        Request::CodeAction { .. } => answer(
            "codeAction"@,
            id,
            "actions"@,
            listed::<CodeAction>(actions_result(j)),
        ),
        Request::Formatting { .. } => answer(
            "formatting"@,
            id,
            "edits"@,
            listed::<TextEdit>(
                features::list_or_empty(
                    j,
                    wire::list_outcome::<TextEdit>(decode::lsp_text_edits(j)),
                ),
            ),
        ),
        Request::SignatureHelp { .. } => answer(
            "signatureHelp"@,
            id,
            "signatures"@,
            opt_listed::<SignatureInfo>(
                if j is Null {
                    Ok(None)
                } else {
                    features::signature_outcome(decode::lsp_signature_help(j))
                },
            ),
        ),
        Request::DocumentSymbol { .. } => answer(
            "documentSymbol"@,
            id,
            "symbols"@,
            listed::<DocumentSymbolItem>(Ok(features::outline_result(j))),
        ),
        Request::WorkspaceSymbol { .. } => answer(
            "workspaceSymbol"@,
            id,
            "symbols"@,
            listed::<DocumentSymbolItem>(Ok(features::workspace_symbol_result(j))),
        ),
        Request::DocumentHighlight { .. } => answer(
            "documentHighlight"@,
            id,
            "highlights"@,
            listed::<DocumentHighlightItem>(
                features::list_or_empty(
                    j,
                    wire::list_outcome::<DocumentHighlightItem>(
                        decode::lsp_document_highlights(j),
                    ),
                ),
            ),
        ),
        Request::InlayHint { .. } => answer(
            "inlayHint"@,
            id,
            "hints"@,
            listed::<InlayHintItem>(
                features::list_or_empty(
                    j,
                    wire::list_outcome::<InlayHintItem>(decode::read_inlay_hints(j)),
                ),
            ),
        ),
        Request::PrepareCallHierarchy { .. } => answer(
            "callHierarchyPrepare"@,
            id,
            "items"@,
            prepared_items(
                features::list_or_empty(j, features::items_outcome(decode::read_call_items(j))),
            ),
        ),
        Request::IncomingCalls { .. } => answer(
            "incomingCalls"@,
            id,
            "calls"@,
            listed::<CallHierarchyCall>(
                features::list_or_empty(
                    j,
                    features::calls_outcome(decode::read_incoming_calls(j), "from"@),
                ),
            ),
        ),
        Request::OutgoingCalls { .. } => answer(
            "outgoingCalls"@,
            id,
            "calls"@,
            listed::<CallHierarchyCall>(
                features::list_or_empty(
                    j,
                    features::calls_outcome(decode::read_outgoing_calls(j), "to"@),
                ),
            ),
        ),
        Request::SelectionRange { .. } => answer(
            "selectionRange"@,
            id,
            "ranges"@,
            listed::<SelectionRangeItem>(
                features::list_or_empty(
                    j,
                    wire::list_outcome::<SelectionRangeItem>(decode::lsp_selection_ranges(j)),
                ),
            ),
        ),
        Request::CodeLens { .. } => answer(
            "codeLens"@,
            id,
            "lenses"@,
            listed::<CodeLensItem>(lenses_result(j)),
        ),
        Request::FoldingRange { .. } => answer(
            "foldingRange"@,
            id,
            "ranges"@,
            listed::<FoldingRangeItem>(
                features::list_or_empty(
                    j,
                    wire::list_outcome::<FoldingRangeItem>(decode::lsp_folding_ranges(j)),
                ),
            ),
        ),
        Request::LinkedEditingRange { .. } => answer(
            "linkedEditingRange"@,
            id,
            "result"@,
            opt_written::<LinkedEditingRangeItem>(
                if j is Null {
                    Ok(None)
                } else {
                    match decode::lsp_linked_editing_ranges(j) {
                        Ok(ler) => Ok(Some(read::linked_ranges_of(ler))),
                        Err(e) => Err(e),
                    }
                },
            ),
        ),
        Request::PrepareTypeHierarchy { .. } => answer(
            "typeHierarchyPrepare"@,
            id,
            "items"@,
            prepared_items(
                features::list_or_empty(j, features::items_outcome(decode::read_type_items(j))),
            ),
        ),
        Request::Supertypes { .. } => answer(
            "supertypes"@,
            id,
            "items"@,
            listed::<CallHierarchyItem>(
                features::list_or_empty(
                    j,
                    wire::list_outcome::<CallHierarchyItem>(decode::read_type_items(j)),
                ),
            ),
        ),
        Request::Subtypes { .. } => answer(
            "subtypes"@,
            id,
            "items"@,
            listed::<CallHierarchyItem>(
                features::list_or_empty(
                    j,
                    wire::list_outcome::<CallHierarchyItem>(decode::read_type_items(j)),
                ),
            ),
        ),
        Request::PullDiagnostics { uri, .. } => diagnostics_event_view(
            id,
            uri@,
            if j is Null {
                Seq::empty()
            } else {
                features::diagnostics_outcome(decode::read_diagnostics(features::report_items(j)))
            },
        ),
        _ => JsonView::Null,
    }
}

/// The event that answers a request for locations.
pub open spec fn locations_event(kind: Seq<char>, id: u64, list: Seq<LocationView>) -> JsonView {
    session::value_event_view(kind, id, "locations"@, wire::wire_list::<Location>(list))
}

/// A client after an answer to a request: the actions and lenses of an answer
/// are kept.
pub open spec fn after_answer(c: ClientView, req: Request, j: JsonView) -> ClientView {
    match req {
        Request::CodeAction { .. } => match j {
            JsonView::Array(items) => ClientView { actions: actions::kept_actions(items), ..c },
            _ => c,
        },
        Request::CodeLens { .. } => if j is Null {
            c
        } else {
            match decode::lsp_code_lenses(j) {
                Ok(list) => ClientView { code_lenses: list.items(), ..c },
                Err(_) => c,
            }
        },
        _ => c,
    }
}

/// Answers with a list.
pub fn list_answer<T: Wire>(
    kind: &str,
    id: u64,
    field: &str,
    list: Result<Vec<T>, String>,
) -> (r: Json)
    ensures
        r@ == answer(kind@, id, field@, listed::<T>(wire::outcome(list))),
{
    match list {
        Ok(v) => value_event(kind, id, field, list_json(&v)),
        Err(e) => error_event(id, e.as_str()),
    }
}

/// Answers with a value.
pub fn written_answer<T: Wire>(
    kind: &str,
    id: u64,
    field: &str,
    value: Result<T, String>,
) -> (r: Json)
    ensures
        r@ == answer(kind@, id, field@, written::<T>(wire::outcome(value))),
{
    match value {
        Ok(v) => value_event(kind, id, field, v.to_json()),
        Err(e) => error_event(id, e.as_str()),
    }
}

fn hover_answer(id: u64, value: Result<Option<String>, String>) -> (r: Json)
    ensures
        r@ == answer("hover"@, id, "contents"@, opt_text(wire::outcome(value))),
{
    match value {
        Ok(t) => value_event("hover", id, "contents", Json::of_option(&t)),
        Err(e) => error_event(id, e.as_str()),
    }
}

fn signature_answer(id: u64, value: Result<Option<Vec<SignatureInfo>>, String>) -> (r: Json)
    ensures
        r@ == answer(
            "signatureHelp"@,
            id,
            "signatures"@,
            opt_listed::<SignatureInfo>(wire::outcome(value)),
        ),
{
    match value {
        Ok(Some(v)) => value_event("signatureHelp", id, "signatures", list_json(&v)),
        Ok(None) => value_event("signatureHelp", id, "signatures", Json::Null),
        Err(e) => error_event(id, e.as_str()),
    }
}

fn linked_answer(id: u64, value: Result<Option<LinkedEditingRangeItem>, String>) -> (r: Json)
    ensures
        r@ == answer(
            "linkedEditingRange"@,
            id,
            "result"@,
            opt_written::<LinkedEditingRangeItem>(wire::outcome(value)),
        ),
{
    match value {
        Ok(Some(v)) => value_event("linkedEditingRange", id, "result", v.to_json()),
        Ok(None) => value_event("linkedEditingRange", id, "result", Json::Null),
        Err(e) => error_event(id, e.as_str()),
    }
}

/// Answers with locations.
pub fn locations_answer(kind: &str, id: u64, list: &Vec<Location>) -> (r: Json)
    ensures
        r@ == locations_event(kind@, id, list.deep_view()),
{
    value_event(kind, id, "locations", list_json(list))
}

fn places_answer(client: &LspClient, kind: &str, id: u64, j: &Json) -> (r: Json)
    ensures
        r@ == locations_event(kind@, id, read::locations_of(j@)),
{
    match client.locations_reply(j) {
        Ok(list) => locations_answer(kind, id, &list),
        Err(e) => error_event(id, e.as_str()),
    }
}

fn prepared_json(item: &Json) -> (r: Json)
    ensures
        r@ == prepared_item(item@),
{
    let i = convert_call_hierarchy_item(item);
    let mut f = Fields::new();
    f.put_str("name", i.name.as_str());
    f.put_str("kind", i.kind.as_str());
    f.put_str("uri", i.uri.as_str());
    f.put_u64("line", i.line as u64);
    f.put_u64("character", i.character as u64);
    f.put("detail", Json::of_option(&i.detail));
    f.put("raw", item.copy());
    f.done()
}

fn prepared_answer(kind: &str, id: u64, items: Result<Vec<Json>, String>) -> (r: Json)
    ensures
        r@ == answer(kind@, id, "items"@, prepared_items(features::values_view(items))),
{
    match items {
        Ok(list) => {
            let ghost all = json::items_view(list@);
            let mut out: Vec<Json> = Vec::new();
            let mut i: usize = 0;
            while i < list.len()
                invariant
                    i <= list@.len(),
                    all == json::items_view(list@),
                    out@.len() == i,
                    forall|k: int|
                        0 <= k < i ==> (#[trigger] out@[k])@ == prepared_item(all[k]),
                decreases list@.len() - i,
            {
                out.push(prepared_json(&list[i]));
                i = i + 1;
            }
            assert(json::items_view(out@) =~= Seq::new(
                all.len(),
                |k: int| prepared_item(all[k]),
            ));
            value_event(kind, id, "items", Json::array(out))
        },
        Err(e) => error_event(id, e.as_str()),
    }
}

fn actions_answer(client: &mut LspClient, id: u64, j: &Json) -> (r: Json)
    ensures
        r@ == answer(
            "codeAction"@,
            id,
            "actions"@,
            listed::<CodeAction>(actions_result(j@)),
        ),
        final(client)@ == match j@ {
            JsonView::Array(items) => ClientView {
                actions: actions::kept_actions(items),
                ..old(client)@
            },
            _ => old(client)@,
        },
{
    let list = client.code_action_reply(j);
    proof {
        if j@ is Null {
            assert(list->Ok_0.deep_view() =~= Seq::<types::CodeActionView>::empty());
        }
        assert(wire::outcome(list) == actions_result(j@));
    }
    list_answer("codeAction", id, "actions", list)
}

fn diagnostics_answer(client: &LspClient, id: u64, uri: &str, j: &Json) -> (r: Json)
    ensures
        r@ == diagnostics_event_view(
            id,
            uri@,
            if j@ is Null {
                Seq::empty()
            } else {
                features::diagnostics_outcome(decode::read_diagnostics(features::report_items(j@)))
            },
        ),
{
    let items = client.pull_diagnostics_reply(j);
    let mut f = Fields::new();
    f.put_str("type", "diagnostics");
    f.put_u64("id", id);
    f.put_str("uri", uri);
    f.put("items", list_json(&items));
    f.done()
}

/// Whether a request asks once, and its answer leaves nothing open.
pub open spec fn is_plain(req: Request) -> bool {
    &&& feature::fits(req, StageView::Answer)
    &&& !(req is Definition)
    &&& !(req is Rename)
    &&& !(req is SemanticTokensDelta)
    &&& !(req is SemanticTokensRange)
}

/// Takes the answer to a request, and gives the event that it comes to.
pub fn take_answer(client: &mut LspClient, req: &Request, j: &Json) -> (r: Json)
    requires
        is_plain(*req),
    ensures
        r@ == answer_event(*req, j@),
        final(client)@ == after_answer(old(client)@, *req, j@),
{
    let id: u64 = req.id();
    match req {
        Request::Hover { .. } => hover_answer(id, client.hover_reply(j)),
        Request::References { .. } => places_answer(client, "references", id, j),
        Request::Implementation { .. } => places_answer(client, "implementation", id, j),
        Request::TypeDefinition { .. } => places_answer(client, "typeDefinition", id, j),
        Request::CodeAction { .. } => actions_answer(client, id, j),
        Request::Formatting { .. } => list_answer(
            "formatting",
            id,
            "edits",
            client.formatting_reply(j),
        ),
        Request::SignatureHelp { .. } => signature_answer(id, client.signature_help_reply(j)),
        Request::DocumentSymbol { .. } => list_answer(
            "documentSymbol",
            id,
            "symbols",
            Ok(client.document_symbol_reply(j)),
        ),
        Request::WorkspaceSymbol { .. } => list_answer(
            "workspaceSymbol",
            id,
            "symbols",
            Ok(client.workspace_symbol_reply(j)),
        ),
        Request::DocumentHighlight { .. } => list_answer(
            "documentHighlight",
            id,
            "highlights",
            client.document_highlight_reply(j),
        ),
        Request::InlayHint { .. } => list_answer(
            "inlayHint",
            id,
            "hints",
            client.inlay_hints_reply(j),
        ),
        Request::PrepareCallHierarchy { .. } => prepared_answer(
            "callHierarchyPrepare",
            id,
            client.call_hierarchy_prepare_reply(j),
        ),
        Request::IncomingCalls { .. } => list_answer(
            "incomingCalls",
            id,
            "calls",
            client.call_hierarchy_incoming_reply(j),
        ),
        Request::OutgoingCalls { .. } => list_answer(
            "outgoingCalls",
            id,
            "calls",
            client.call_hierarchy_outgoing_reply(j),
        ),
        Request::SelectionRange { .. } => list_answer(
            "selectionRange",
            id,
            "ranges",
            client.selection_range_reply(j),
        ),
        Request::CodeLens { .. } => list_answer(
            "codeLens",
            id,
            "lenses",
            client.code_lens_reply(j),
        ),
        Request::FoldingRange { .. } => list_answer(
            "foldingRange",
            id,
            "ranges",
            client.folding_range_reply(j),
        ),
        Request::LinkedEditingRange { .. } => linked_answer(
            id,
            client.linked_editing_range_reply(j),
        ),
        Request::PrepareTypeHierarchy { .. } => prepared_answer(
            "typeHierarchyPrepare",
            id,
            client.type_hierarchy_prepare_reply(j),
        ),
        Request::Supertypes { .. } => list_answer(
            "supertypes",
            id,
            "items",
            client.type_hierarchy_reply(j),
        ),
        Request::Subtypes { .. } => list_answer(
            "subtypes",
            id,
            "items",
            client.type_hierarchy_reply(j),
        ),
        Request::PullDiagnostics { uri, .. } => diagnostics_answer(client, id, uri.as_str(), j),
        _ => Json::Null,
    }
}

} // verus!
