//! What the editor hears: the events that end its requests.

use vstd::prelude::*;
use vstd::string::*;

use crate::daemon::advance;
use crate::daemon::answer;
use crate::daemon::feature;
use crate::daemon::feature::{ProgressView, StageView};
use crate::daemon::request::Request;
use crate::daemon::session;
use crate::json::JsonView;
use crate::laws::shapes;
use crate::lsp::actions;
use crate::lsp::actions::TokenStepView;
use crate::lsp::client::ClientView;
use crate::lsp::completion;
use crate::lsp::decode;
use crate::lsp::features;
use crate::lsp::read;
use crate::lsp::types;
use crate::lsp::types::{
    CallHierarchyCall, CallHierarchyItem, CodeAction, CodeLensItem, CompletionItem, DiagnosticItem,
    DocumentHighlightItem, DocumentSymbolItem, FoldingRangeItem, InlayHintItem,
    LinkedEditingRangeItem, Location, LocationView, SelectionRangeItem, SemanticTokenItem,
    SemanticTokenItemView, SignatureInfo, TextEdit, WorkspaceEdit, WorkspaceEditView,
};
use crate::lsp::wire::{FromLsp, Wire};

verus! {

/// Whether an event answers a request with a value.
pub open spec fn is_answer(
    e: JsonView,
    kind: Seq<char>,
    id: u64,
    field: Seq<char>,
    value: JsonView,
) -> bool {
    &&& shapes::has_text(e, "type"@, kind)
    &&& shapes::has_number(e, "id"@, id as int)
    &&& shapes::has(e, field, value)
}

/// Whether an event answers a request with an error.
pub open spec fn is_error(e: JsonView, id: u64, message: Seq<char>) -> bool {
    &&& shapes::has_text(e, "type"@, "error"@)
    &&& shapes::has_number(e, "id"@, id as int)
    &&& shapes::has_text(e, "message"@, message)
}

/// Whether a value is the list of what the values of another stand for.
pub open spec fn shows_each<T: Wire + FromLsp>(value: JsonView, items: Seq<JsonView>) -> bool {
    &&& value is Array
    &&& value->Array_0.len() == items.len()
    &&& forall|k: int|
        0 <= k < items.len() ==> #[trigger] value->Array_0[k] == T::wire(T::lsp(items[k]))
}

/// Whether an event answers a request with a list of what values stand for.
pub open spec fn is_list_answer<T: Wire + FromLsp>(
    e: JsonView,
    kind: Seq<char>,
    id: u64,
    field: Seq<char>,
    items: Seq<JsonView>,
) -> bool {
    &&& shapes::has_text(e, "type"@, kind)
    &&& shapes::has_number(e, "id"@, id as int)
    &&& shapes::holds(e, field)
    &&& shows_each::<T>(shapes::member(e, field), items)
}

proof fn lemma_fields()
    ensures
        "id"@.len() == 2,
        "uri"@.len() == 3,
        "raw"@.len() == 3,
        "type"@.len() == 4,
        "name"@.len() == 4,
        "kind"@.len() == 4,
        "edit"@.len() == 4,
        "item"@.len() == 4,
        "line"@.len() == 4,
        "path"@.len() == 4,
        "items"@.len() == 5,
        "edits"@.len() == 5,
        "hints"@.len() == 5,
        "calls"@.len() == 5,
        "server"@.len() == 6,
        "status"@.len() == 6,
        "ranges"@.len() == 6,
        "lenses"@.len() == 6,
        "result"@.len() == 6,
        "tokens"@.len() == 6,
        "detail"@.len() == 6,
        "actions"@.len() == 7,
        "symbols"@.len() == 7,
        "servers"@.len() == 7,
        "message"@.len() == 7,
        "contents"@.len() == 8,
        "locations"@.len() == 9,
        "character"@.len() == 9,
        "generation"@.len() == 10,
        "signatures"@.len() == 10,
        "highlights"@.len() == 10,
        "raw"@ != "uri"@,
        "edit"@ != "type"@,
        "item"@ != "type"@,
        "name"@ != "type"@,
        "kind"@ != "type"@,
        "name"@ != "kind"@,
        "name"@ != "line"@,
        "kind"@ != "line"@,
        "path"@ != "type"@,
        "server"@ != "status"@,
        "locations"@ != "character"@,
        "signatures"@ != "generation"@,
{
    reveal_strlit("id");
    reveal_strlit("uri");
    reveal_strlit("raw");
    reveal_strlit("type");
    reveal_strlit("name");
    reveal_strlit("kind");
    reveal_strlit("edit");
    reveal_strlit("item");
    reveal_strlit("line");
    reveal_strlit("path");
    reveal_strlit("items");
    reveal_strlit("edits");
    reveal_strlit("hints");
    reveal_strlit("calls");
    reveal_strlit("server");
    reveal_strlit("status");
    reveal_strlit("ranges");
    reveal_strlit("lenses");
    reveal_strlit("result");
    reveal_strlit("tokens");
    reveal_strlit("detail");
    reveal_strlit("actions");
    reveal_strlit("symbols");
    reveal_strlit("servers");
    reveal_strlit("message");
    reveal_strlit("contents");
    reveal_strlit("locations");
    reveal_strlit("character");
    reveal_strlit("generation");
    reveal_strlit("signatures");
    reveal_strlit("highlights");
    assert("raw"@[0] != "uri"@[0]);
    assert("edit"@[0] != "type"@[0]);
    assert("item"@[0] != "type"@[0]);
    assert("name"@[0] != "type"@[0]);
    assert("kind"@[0] != "type"@[0]);
    assert("name"@[0] != "kind"@[0]);
    assert("name"@[0] != "line"@[0]);
    assert("kind"@[0] != "line"@[0]);
    assert("path"@[0] != "type"@[0]);
    assert("server"@[1] != "status"@[1]);
    assert("locations"@[0] != "character"@[0]);
    assert("signatures"@[0] != "generation"@[0]);
}

/// Every event carries its kind and the number of the request that it answers.
pub proof fn law_events_name_their_request(
    id: u64,
    kind: Seq<char>,
    message: Seq<char>,
    generation: u64,
    value: JsonView,
)
    ensures
        is_error(session::error_event_view(id, message), id, message),
        shapes::has_text(session::done_event_view(kind, id), "type"@, kind),
        shapes::has_number(session::done_event_view(kind, id), "id"@, id as int),
        is_answer(
            session::completion_event_view(id, generation, value),
            "completion"@,
            id,
            "items"@,
            value,
        ),
        shapes::has_number(
            session::completion_event_view(id, generation, value),
            "generation"@,
            generation as int,
        ),
{
    lemma_fields();
}

/// An installation is answered with the server and either its path or what went
/// wrong.
pub proof fn law_installations_are_answered(
    id: u64,
    server: Seq<char>,
    path: Seq<char>,
    error: Seq<char>,
)
    ensures
        ({
            let e = session::install_result_view(id, server, Ok(path));
            &&& is_answer(e, "installResult"@, id, "server"@, JsonView::Str(server))
            &&& shapes::has_text(e, "status"@, "ok"@)
            &&& shapes::has_text(e, "path"@, path)
            &&& shapes::lacks(e, "message"@)
        }),
        ({
            let e = session::install_result_view(id, server, Err(error));
            &&& is_answer(e, "installResult"@, id, "server"@, JsonView::Str(server))
            &&& shapes::has_text(e, "status"@, "error"@)
            &&& shapes::has_text(e, "message"@, error)
            &&& shapes::lacks(e, "path"@)
        }),
{
    lemma_fields();
}

/// A configuration that was loaded anew is answered with the number of servers,
/// or with what went wrong.
pub proof fn law_reloads_are_answered(id: u64, count: usize, error: Seq<char>)
    ensures
        is_answer(
            session::reloaded_view(id, count, None),
            "configurationReloaded"@,
            id,
            "servers"@,
            JsonView::Int(count as int),
        ),
        is_error(session::reloaded_view(id, count, Some(error)), id, error),
{
    lemma_fields();
}

// ---------------------------------------------------------------------------
// Answers
// ---------------------------------------------------------------------------

/// Formatting is answered with every edit of the server, in order. No answer is the empty list, and one that cannot be
/// read is an error.
pub proof fn law_formatting_is_answered(
    req: Request,
    j: JsonView,
    items: Seq<JsonView>,
    error: Seq<char>,
)
    requires
        req is Formatting,
    ensures
        !(j is Null) && decode::lsp_text_edits(j) == Ok::<JsonView, Seq<char>>(JsonView::Array(items))
            ==> is_list_answer::<TextEdit>(
            answer::answer_event(req, j),
            "formatting"@,
            req->Formatting_id,
            "edits"@,
            items,
        ),
        j is Null ==> is_answer(
            answer::answer_event(req, j),
            "formatting"@,
            req->Formatting_id,
            "edits"@,
            JsonView::Array(Seq::empty()),
        ),
        !(j is Null) && decode::lsp_text_edits(j) == Err::<JsonView, Seq<char>>(error) ==> is_error(
            answer::answer_event(req, j),
            req->Formatting_id,
            error,
        ),
{
    lemma_fields();
    assert(shapes::member(answer::answer_event(req, JsonView::Null), "edits"@)->Array_0
        =~= Seq::empty());
}

/// Highlights are answered with every highlight of the server, in order. No answer is the empty list, and one that cannot be
/// read is an error.
pub proof fn law_highlights_are_answered(
    req: Request,
    j: JsonView,
    items: Seq<JsonView>,
    error: Seq<char>,
)
    requires
        req is DocumentHighlight,
    ensures
        !(j is Null) && decode::lsp_document_highlights(j) == Ok::<JsonView, Seq<char>>(JsonView::Array(items))
            ==> is_list_answer::<DocumentHighlightItem>(
            answer::answer_event(req, j),
            "documentHighlight"@,
            req->DocumentHighlight_id,
            "highlights"@,
            items,
        ),
        j is Null ==> is_answer(
            answer::answer_event(req, j),
            "documentHighlight"@,
            req->DocumentHighlight_id,
            "highlights"@,
            JsonView::Array(Seq::empty()),
        ),
        !(j is Null) && decode::lsp_document_highlights(j) == Err::<JsonView, Seq<char>>(error) ==> is_error(
            answer::answer_event(req, j),
            req->DocumentHighlight_id,
            error,
        ),
{
    lemma_fields();
    assert(shapes::member(answer::answer_event(req, JsonView::Null), "highlights"@)->Array_0
        =~= Seq::empty());
}

/// Hints are answered with every hint of the server, in order. No answer is the empty list, and one that cannot be
/// read is an error.
pub proof fn law_hints_are_answered(
    req: Request,
    j: JsonView,
    items: Seq<JsonView>,
    error: Seq<char>,
)
    requires
        req is InlayHint,
    ensures
        !(j is Null) && decode::read_inlay_hints(j) == Ok::<JsonView, Seq<char>>(JsonView::Array(items))
            ==> is_list_answer::<InlayHintItem>(
            answer::answer_event(req, j),
            "inlayHint"@,
            req->InlayHint_id,
            "hints"@,
            items,
        ),
        j is Null ==> is_answer(
            answer::answer_event(req, j),
            "inlayHint"@,
            req->InlayHint_id,
            "hints"@,
            JsonView::Array(Seq::empty()),
        ),
        !(j is Null) && decode::read_inlay_hints(j) == Err::<JsonView, Seq<char>>(error) ==> is_error(
            answer::answer_event(req, j),
            req->InlayHint_id,
            error,
        ),
{
    lemma_fields();
    assert(shapes::member(answer::answer_event(req, JsonView::Null), "hints"@)->Array_0
        =~= Seq::empty());
}

/// Selection ranges are answered with every range of the server, in order. No answer is the empty list, and one that cannot be
/// read is an error.
pub proof fn law_selections_are_answered(
    req: Request,
    j: JsonView,
    items: Seq<JsonView>,
    error: Seq<char>,
)
    requires
        req is SelectionRange,
    ensures
        !(j is Null) && decode::lsp_selection_ranges(j) == Ok::<JsonView, Seq<char>>(JsonView::Array(items))
            ==> is_list_answer::<SelectionRangeItem>(
            answer::answer_event(req, j),
            "selectionRange"@,
            req->SelectionRange_id,
            "ranges"@,
            items,
        ),
        j is Null ==> is_answer(
            answer::answer_event(req, j),
            "selectionRange"@,
            req->SelectionRange_id,
            "ranges"@,
            JsonView::Array(Seq::empty()),
        ),
        !(j is Null) && decode::lsp_selection_ranges(j) == Err::<JsonView, Seq<char>>(error) ==> is_error(
            answer::answer_event(req, j),
            req->SelectionRange_id,
            error,
        ),
{
    lemma_fields();
    assert(shapes::member(answer::answer_event(req, JsonView::Null), "ranges"@)->Array_0
        =~= Seq::empty());
}

/// Folds are answered with every fold of the server, in order. No answer is the empty list, and one that cannot be
/// read is an error.
pub proof fn law_folds_are_answered(
    req: Request,
    j: JsonView,
    items: Seq<JsonView>,
    error: Seq<char>,
)
    requires
        req is FoldingRange,
    ensures
        !(j is Null) && decode::lsp_folding_ranges(j) == Ok::<JsonView, Seq<char>>(JsonView::Array(items))
            ==> is_list_answer::<FoldingRangeItem>(
            answer::answer_event(req, j),
            "foldingRange"@,
            req->FoldingRange_id,
            "ranges"@,
            items,
        ),
        j is Null ==> is_answer(
            answer::answer_event(req, j),
            "foldingRange"@,
            req->FoldingRange_id,
            "ranges"@,
            JsonView::Array(Seq::empty()),
        ),
        !(j is Null) && decode::lsp_folding_ranges(j) == Err::<JsonView, Seq<char>>(error) ==> is_error(
            answer::answer_event(req, j),
            req->FoldingRange_id,
            error,
        ),
{
    lemma_fields();
    assert(shapes::member(answer::answer_event(req, JsonView::Null), "ranges"@)->Array_0
        =~= Seq::empty());
}

/// The types above are answered with every item of the server, in order. No answer is the empty list, and one that cannot be
/// read is an error.
pub proof fn law_supertypes_are_answered(
    req: Request,
    j: JsonView,
    items: Seq<JsonView>,
    error: Seq<char>,
)
    requires
        req is Supertypes,
    ensures
        !(j is Null) && decode::read_type_items(j) == Ok::<JsonView, Seq<char>>(JsonView::Array(items))
            ==> is_list_answer::<CallHierarchyItem>(
            answer::answer_event(req, j),
            "supertypes"@,
            req->Supertypes_id,
            "items"@,
            items,
        ),
        j is Null ==> is_answer(
            answer::answer_event(req, j),
            "supertypes"@,
            req->Supertypes_id,
            "items"@,
            JsonView::Array(Seq::empty()),
        ),
        !(j is Null) && decode::read_type_items(j) == Err::<JsonView, Seq<char>>(error) ==> is_error(
            answer::answer_event(req, j),
            req->Supertypes_id,
            error,
        ),
{
    lemma_fields();
    assert(shapes::member(answer::answer_event(req, JsonView::Null), "items"@)->Array_0
        =~= Seq::empty());
}

/// The types below are answered with every item of the server, in order. No answer is the empty list, and one that cannot be
/// read is an error.
pub proof fn law_subtypes_are_answered(
    req: Request,
    j: JsonView,
    items: Seq<JsonView>,
    error: Seq<char>,
)
    requires
        req is Subtypes,
    ensures
        !(j is Null) && decode::read_type_items(j) == Ok::<JsonView, Seq<char>>(JsonView::Array(items))
            ==> is_list_answer::<CallHierarchyItem>(
            answer::answer_event(req, j),
            "subtypes"@,
            req->Subtypes_id,
            "items"@,
            items,
        ),
        j is Null ==> is_answer(
            answer::answer_event(req, j),
            "subtypes"@,
            req->Subtypes_id,
            "items"@,
            JsonView::Array(Seq::empty()),
        ),
        !(j is Null) && decode::read_type_items(j) == Err::<JsonView, Seq<char>>(error) ==> is_error(
            answer::answer_event(req, j),
            req->Subtypes_id,
            error,
        ),
{
    lemma_fields();
    assert(shapes::member(answer::answer_event(req, JsonView::Null), "items"@)->Array_0
        =~= Seq::empty());
}

/// Whether an event answers a request with places.
pub open spec fn is_place_answer(
    e: JsonView,
    kind: Seq<char>,
    id: u64,
    places: Seq<LocationView>,
) -> bool {
    &&& shapes::has_text(e, "type"@, kind)
    &&& shapes::has_number(e, "id"@, id as int)
    &&& shapes::holds(e, "locations"@)
    &&& shapes::member(e, "locations"@) is Array
    &&& shapes::member(e, "locations"@)->Array_0.len() == places.len()
    &&& forall|k: int|
        0 <= k < places.len() ==> #[trigger] shapes::member(e, "locations"@)->Array_0[k]
            == Location::wire(places[k])
}

/// A request for places is answered with all that the server gave, in order.
pub proof fn law_places_are_answered(req: Request, j: JsonView)
    ensures
        req is References ==> is_place_answer(
            answer::answer_event(req, j),
            "references"@,
            req->References_id,
            read::locations_of(j),
        ),
        req is Implementation ==> is_place_answer(
            answer::answer_event(req, j),
            "implementation"@,
            req->Implementation_id,
            read::locations_of(j),
        ),
        req is TypeDefinition ==> is_place_answer(
            answer::answer_event(req, j),
            "typeDefinition"@,
            req->TypeDefinition_id,
            read::locations_of(j),
        ),
{
    lemma_fields();
}

/// A hover is answered with its text, and with none where the server has none.
pub proof fn law_hovers_are_answered(req: Request, j: JsonView, hover: JsonView, error: Seq<char>)
    requires
        req is Hover,
    ensures
        !(j is Null) && decode::lsp_hover(j) == Ok::<JsonView, Seq<char>>(hover) ==> is_answer(
            answer::answer_event(req, j),
            "hover"@,
            req->Hover_id,
            "contents"@,
            JsonView::Str(read::hover_text_of(hover)),
        ),
        j is Null ==> is_answer(
            answer::answer_event(req, j),
            "hover"@,
            req->Hover_id,
            "contents"@,
            JsonView::Null,
        ),
        !(j is Null) && decode::lsp_hover(j) == Err::<JsonView, Seq<char>>(error) ==> is_error(
            answer::answer_event(req, j),
            req->Hover_id,
            error,
        ),
{
    lemma_fields();
}

/// Whether a value is a list of written values.
pub open spec fn is_written<T: Wire>(value: JsonView, list: Seq<T::V>) -> bool {
    &&& value is Array
    &&& value->Array_0.len() == list.len()
    &&& forall|k: int| 0 <= k < list.len() ==> #[trigger] value->Array_0[k] == T::wire(list[k])
}

/// Whether an event answers a request with a list of values.
pub open spec fn is_written_answer<T: Wire>(
    e: JsonView,
    kind: Seq<char>,
    id: u64,
    field: Seq<char>,
    list: Seq<T::V>,
) -> bool {
    &&& shapes::has_text(e, "type"@, kind)
    &&& shapes::has_number(e, "id"@, id as int)
    &&& shapes::holds(e, field)
    &&& is_written::<T>(shapes::member(e, field), list)
}

/// Signatures are answered with those that were read, and with none where the
/// server has none.
pub proof fn law_signatures_are_answered(
    req: Request,
    j: JsonView,
    help: JsonView,
    error: Seq<char>,
)
    requires
        req is SignatureHelp,
    ensures
        !(j is Null) && decode::lsp_signature_help(j) == Ok::<JsonView, Seq<char>>(help)
            && read::signatures_of(help) is Some ==> is_written_answer::<SignatureInfo>(
            answer::answer_event(req, j),
            "signatureHelp"@,
            req->SignatureHelp_id,
            "signatures"@,
            read::signatures_of(help)->0,
        ),
        j is Null ==> is_answer(
            answer::answer_event(req, j),
            "signatureHelp"@,
            req->SignatureHelp_id,
            "signatures"@,
            JsonView::Null,
        ),
        !(j is Null) && decode::lsp_signature_help(j) == Err::<JsonView, Seq<char>>(error)
            ==> is_error(answer::answer_event(req, j), req->SignatureHelp_id, error),
{
    lemma_fields();
}

/// An outline is answered with the nested symbols, where the answer has such.
/// Otherwise it is answered with the flat ones, and with none where it has neither.
pub proof fn law_outlines_are_answered(req: Request, j: JsonView, symbols: Seq<JsonView>)
    requires
        req is DocumentSymbol,
    ensures
        !(j is Null) && decode::lsp_document_symbols(j) == Ok::<JsonView, Seq<char>>(
            JsonView::Array(symbols),
        ) ==> is_written_answer::<DocumentSymbolItem>(
            answer::answer_event(req, j),
            "documentSymbol"@,
            req->DocumentSymbol_id,
            "symbols"@,
            read::document_symbols_of(symbols),
        ),
        !(j is Null) && decode::lsp_document_symbols(j) is Err && decode::read_symbol_informations(
            j,
        ) == Ok::<JsonView, Seq<char>>(JsonView::Array(symbols)) ==> is_written_answer::<
            DocumentSymbolItem,
        >(
            answer::answer_event(req, j),
            "documentSymbol"@,
            req->DocumentSymbol_id,
            "symbols"@,
            read::outline_of(symbols),
        ),
        j is Null || (decode::lsp_document_symbols(j) is Err && decode::read_symbol_informations(
            j,
        ) is Err) ==> is_written_answer::<DocumentSymbolItem>(
            answer::answer_event(req, j),
            "documentSymbol"@,
            req->DocumentSymbol_id,
            "symbols"@,
            Seq::empty(),
        ),
{
    lemma_fields();
}

/// The symbols of a workspace are answered with those that were read, and with
/// none where none were.
pub proof fn law_workspace_symbols_are_answered(
    req: Request,
    j: JsonView,
    symbols: Seq<JsonView>,
)
    requires
        req is WorkspaceSymbol,
    ensures
        !(j is Null) && decode::read_symbol_informations(j) == Ok::<JsonView, Seq<char>>(
            JsonView::Array(symbols),
        ) ==> is_written_answer::<DocumentSymbolItem>(
            answer::answer_event(req, j),
            "workspaceSymbol"@,
            req->WorkspaceSymbol_id,
            "symbols"@,
            read::workspace_symbols_of(symbols),
        ),
        j is Null || decode::read_symbol_informations(j) is Err ==> is_written_answer::<
            DocumentSymbolItem,
        >(
            answer::answer_event(req, j),
            "workspaceSymbol"@,
            req->WorkspaceSymbol_id,
            "symbols"@,
            Seq::empty(),
        ),
{
    lemma_fields();
}

/// Code actions are answered with all that the server offers, in order, and each
/// is kept under its place in the answer. No answer offers none and keeps what
/// was kept.
pub proof fn law_actions_are_answered(
    req: Request,
    c: ClientView,
    j: JsonView,
    items: Seq<JsonView>,
)
    requires
        req is CodeAction,
    ensures
        j == JsonView::Array(items) ==> is_written_answer::<CodeAction>(
            answer::answer_event(req, j),
            "codeAction"@,
            req->CodeAction_id,
            "actions"@,
            actions::shown_actions(items),
        ) && actions::shown_actions(items).len() == items.len() && answer::after_answer(
            c,
            req,
            j,
        ).actions == actions::kept_actions(items) && actions::kept_actions(items).len()
            == items.len(),
        j is Null ==> is_answer(
            answer::answer_event(req, j),
            "codeAction"@,
            req->CodeAction_id,
            "actions"@,
            JsonView::Array(Seq::empty()),
        ) && answer::after_answer(c, req, j) == c,
{
    lemma_fields();
    assert(shapes::member(answer::answer_event(req, JsonView::Null), "actions"@)->Array_0
        =~= Seq::empty());
}

/// Lenses are answered with those that were read, and each is kept as the server
/// gave it.
pub proof fn law_lenses_are_answered(
    req: Request,
    c: ClientView,
    j: JsonView,
    items: Seq<JsonView>,
    error: Seq<char>,
)
    requires
        req is CodeLens,
        !(j is Null),
    ensures
        decode::lsp_code_lenses(j) == Ok::<JsonView, Seq<char>>(JsonView::Array(items)) ==> {
            &&& is_written_answer::<CodeLensItem>(
                answer::answer_event(req, j),
                "codeLens"@,
                req->CodeLens_id,
                "lenses"@,
                read::lenses_of(items),
            )
            &&& answer::after_answer(c, req, j).code_lenses == items
        },
        decode::lsp_code_lenses(j) == Err::<JsonView, Seq<char>>(error) ==> {
            &&& is_error(answer::answer_event(req, j), req->CodeLens_id, error)
            &&& answer::after_answer(c, req, j) == c
        },
{
    lemma_fields();
}

/// Calls are answered with those that were read: the callers of an incoming
/// call, the called of an outgoing one.
pub proof fn law_calls_are_answered(
    req: Request,
    j: JsonView,
    items: Seq<JsonView>,
    error: Seq<char>,
)
    requires
        !(j is Null),
    ensures
        req is IncomingCalls && decode::read_incoming_calls(j) == Ok::<JsonView, Seq<char>>(
            JsonView::Array(items),
        ) ==> is_written_answer::<CallHierarchyCall>(
            answer::answer_event(req, j),
            "incomingCalls"@,
            req->IncomingCalls_id,
            "calls"@,
            read::calls_of(items, "from"@),
        ),
        req is OutgoingCalls && decode::read_outgoing_calls(j) == Ok::<JsonView, Seq<char>>(
            JsonView::Array(items),
        ) ==> is_written_answer::<CallHierarchyCall>(
            answer::answer_event(req, j),
            "outgoingCalls"@,
            req->OutgoingCalls_id,
            "calls"@,
            read::calls_of(items, "to"@),
        ),
        req is IncomingCalls && decode::read_incoming_calls(j) == Err::<JsonView, Seq<char>>(error)
            ==> is_error(answer::answer_event(req, j), req->IncomingCalls_id, error),
        req is OutgoingCalls && decode::read_outgoing_calls(j) == Err::<JsonView, Seq<char>>(error)
            ==> is_error(answer::answer_event(req, j), req->OutgoingCalls_id, error),
{
    lemma_fields();
}

/// Linked ranges are answered with those that were read.
pub proof fn law_linked_ranges_are_answered(
    req: Request,
    j: JsonView,
    ranges: JsonView,
    error: Seq<char>,
)
    requires
        req is LinkedEditingRange,
    ensures
        !(j is Null) && decode::lsp_linked_editing_ranges(j) == Ok::<JsonView, Seq<char>>(ranges)
            ==> is_answer(
            answer::answer_event(req, j),
            "linkedEditingRange"@,
            req->LinkedEditingRange_id,
            "result"@,
            LinkedEditingRangeItem::wire(read::linked_ranges_of(ranges)),
        ),
        j is Null ==> is_answer(
            answer::answer_event(req, j),
            "linkedEditingRange"@,
            req->LinkedEditingRange_id,
            "result"@,
            JsonView::Null,
        ),
        !(j is Null) && decode::lsp_linked_editing_ranges(j) == Err::<JsonView, Seq<char>>(error)
            ==> is_error(answer::answer_event(req, j), req->LinkedEditingRange_id, error),
{
    lemma_fields();
}

/// Whether a value is an item of a hierarchy as the editor gets it: what the item
/// shows, with the item itself, which a later request hands back.
pub open spec fn is_prepared(v: JsonView, item: JsonView) -> bool {
    &&& shapes::has_text(v, "name"@, CallHierarchyItem::lsp(item).name)
    &&& shapes::has_text(v, "kind"@, CallHierarchyItem::lsp(item).kind)
    &&& shapes::has_text(v, "uri"@, CallHierarchyItem::lsp(item).uri)
    &&& shapes::has_number(v, "line"@, CallHierarchyItem::lsp(item).line as int)
    &&& shapes::has_number(v, "character"@, CallHierarchyItem::lsp(item).character as int)
    &&& shapes::has(v, "raw"@, item)
    &&& shapes::has(
        v,
        "detail"@,
        match CallHierarchyItem::lsp(item).detail {
            Some(d) => JsonView::Str(d),
            None => JsonView::Null,
        },
    )
}

/// Whether an event answers a request with items of a hierarchy.
pub open spec fn is_prepared_answer(
    e: JsonView,
    kind: Seq<char>,
    id: u64,
    items: Seq<JsonView>,
) -> bool {
    &&& shapes::has_text(e, "type"@, kind)
    &&& shapes::has_number(e, "id"@, id as int)
    &&& shapes::holds(e, "items"@)
    &&& shapes::member(e, "items"@) is Array
    &&& shapes::member(e, "items"@)->Array_0.len() == items.len()
    &&& forall|k: int|
        0 <= k < items.len() ==> is_prepared(
            #[trigger] shapes::member(e, "items"@)->Array_0[k],
            items[k],
        )
}

/// A hierarchy begins with every item of the server, in order, each with what it
/// shows and as it was given.
pub proof fn law_hierarchies_begin_with_every_item(
    req: Request,
    j: JsonView,
    items: Seq<JsonView>,
)
    requires
        !(j is Null),
    ensures
        req is PrepareCallHierarchy && decode::read_call_items(j) == Ok::<JsonView, Seq<char>>(
            JsonView::Array(items),
        ) ==> is_prepared_answer(
            answer::answer_event(req, j),
            "callHierarchyPrepare"@,
            req->PrepareCallHierarchy_id,
            items,
        ),
        req is PrepareTypeHierarchy && decode::read_type_items(j) == Ok::<JsonView, Seq<char>>(
            JsonView::Array(items),
        ) ==> is_prepared_answer(
            answer::answer_event(req, j),
            "typeHierarchyPrepare"@,
            req->PrepareTypeHierarchy_id,
            items,
        ),
{
    lemma_fields();
    assert forall|k: int| 0 <= k < items.len() implies is_prepared(
        answer::prepared_item(#[trigger] items[k]),
        items[k],
    ) by {}
}

/// Diagnostics that were asked for are answered with the document and all that
/// the server reports of it, in order.
pub proof fn law_reports_are_answered(req: Request, j: JsonView, items: Seq<JsonView>)
    requires
        req is PullDiagnostics,
    ensures
        shapes::has_text(answer::answer_event(req, j), "uri"@, req->PullDiagnostics_uri@),
        !(j is Null) && decode::read_diagnostics(features::report_items(j)) == Ok::<
            JsonView,
            Seq<char>,
        >(JsonView::Array(items)) ==> is_list_answer::<DiagnosticItem>(
            answer::answer_event(req, j),
            "diagnostics"@,
            req->PullDiagnostics_id,
            "items"@,
            items,
        ),
        j is Null || decode::read_diagnostics(features::report_items(j)) is Err
            ==> is_list_answer::<DiagnosticItem>(
            answer::answer_event(req, j),
            "diagnostics"@,
            req->PullDiagnostics_id,
            "items"@,
            Seq::empty(),
        ),
{
    lemma_fields();
}

/// A request that the server refuses is answered with the reason.
pub proof fn law_refusals_are_answered(
    req: Request,
    c: ClientView,
    p: ProgressView,
    method: Seq<char>,
    error: Seq<char>,
)
    requires
        answer::is_plain(req) || req is Definition || req is Rename,
        advance::is_advance(p, c, req, StageView::Answer, method, Err(error)),
    ensures
        p is Reply,
        is_error(p->Reply_0, req.spec_id(), error),
        advance::after_advance(c, req, StageView::Answer, method, Err(error)) == c,
{
    lemma_fields();
}

// ---------------------------------------------------------------------------
// Definitions
// ---------------------------------------------------------------------------

/// A definition that the server finds is the answer. Otherwise the links of the
/// document are asked for.
pub proof fn law_found_definitions_are_answered(req: Request, uri: Seq<char>, j: JsonView)
    requires
        req is Definition,
    ensures
        ({
            let p = advance::definition_progress(req, uri, Ok(j));
            &&& read::locations_of(j).len() > 0 ==> p is Reply && is_place_answer(
                p->Reply_0,
                "definition"@,
                req->Definition_id,
                read::locations_of(j),
            )
            &&& read::locations_of(j).len() == 0 ==> p is Ask && p->stage is Links
                && p->call.method == "textDocument/documentLink"@ && crate::laws::asking::names(
                p->call.params,
                uri,
            )
        }),
{
    lemma_fields();
    reveal_strlit("textDocument");
    reveal_strlit("uri");
}

/// A link under the cursor leads to its target. Without one the symbols of the
/// workspace are asked for by the word under the cursor, where there is one, and
/// otherwise there is no definition.
pub proof fn law_links_come_before_symbols(
    req: Request,
    symbol: Seq<char>,
    found: Seq<LocationView>,
)
    requires
        req is Definition,
    ensures
        ({
            let p = advance::after_links(req, symbol, found);
            &&& found.len() > 0 || symbol.len() == 0 ==> p is Reply && is_place_answer(
                p->Reply_0,
                "definition"@,
                req->Definition_id,
                found,
            )
            &&& found.len() == 0 && symbol.len() > 0 ==> p is Ask && p->stage is Symbols
                && p->call.method == "workspace/symbol"@ && shapes::has_text(
                p->call.params,
                "query"@,
                symbol,
            )
        }),
{
    lemma_fields();
}

/// The symbols of the word under the cursor are the last resort: their places are
/// the answer, also where there are none.
pub proof fn law_symbols_are_the_last_resort(
    req: Request,
    c: ClientView,
    p: ProgressView,
    method: Seq<char>,
    j: JsonView,
    symbols: Seq<JsonView>,
)
    requires
        req is Definition,
        advance::is_advance(p, c, req, StageView::Symbols, method, Ok(Some(j))),
        !(j is Null),
        decode::read_symbol_informations(j) == Ok::<JsonView, Seq<char>>(JsonView::Array(symbols)),
    ensures
        p is Reply,
        is_place_answer(
            p->Reply_0,
            "definition"@,
            req->Definition_id,
            read::symbol_locations_of(symbols, req->Definition_symbol@),
        ),
{
    lemma_fields();
}

// ---------------------------------------------------------------------------
// Completions
// ---------------------------------------------------------------------------

/// A completion is answered with the first items of the server, as many as were
/// asked for but at least one and at most five hundred, and these are kept under
/// the generation of the answer.
pub proof fn law_completions_are_answered(
    req: Request,
    c: ClientView,
    p: ProgressView,
    method: Seq<char>,
    generation: u64,
    j: JsonView,
    items: Seq<JsonView>,
    k: int,
)
    requires
        req is Completion,
        advance::is_advance(
            p,
            c,
            req,
            StageView::Completion { generation },
            method,
            Ok(Some(j)),
        ),
        completion::completion_items_of(j) == Ok::<Seq<JsonView>, Seq<char>>(items),
        generation >= c.cached_generation,
        0 <= k < items.len(),
        k == 0 || k < req->Completion_max_items,
        k < 500,
    ensures
        p is Reply,
        shapes::has_text(p->Reply_0, "type"@, "completion"@),
        shapes::has_number(p->Reply_0, "id"@, req->Completion_id as int),
        shapes::has_number(p->Reply_0, "generation"@, generation as int),
        shapes::holds(p->Reply_0, "items"@),
        shapes::member(p->Reply_0, "items"@) is Array,
        shapes::member(p->Reply_0, "items"@)->Array_0.len() <= items.len(),
        k < shapes::member(p->Reply_0, "items"@)->Array_0.len(),
        shapes::member(p->Reply_0, "items"@)->Array_0[k] == CompletionItem::wire(
            types::completion_item_of(items[k], k as usize),
        ),
        ({
            let after = advance::after_advance(
                c,
                req,
                StageView::Completion { generation },
                method,
                Ok(Some(j)),
            );
            &&& after.cached_generation == generation
            &&& k < after.completions.len()
            &&& after.completions[k] == items[k]
            &&& after.completions.len() == shapes::member(p->Reply_0, "items"@)->Array_0.len()
        }),
{
    lemma_fields();
}

/// A completion is answered with no more items than were asked for, or one, and
/// with no more than five hundred.
pub proof fn law_completions_are_bounded(
    req: Request,
    generation: u64,
    j: JsonView,
    items: Seq<JsonView>,
)
    requires
        req is Completion,
        completion::completion_items_of(j) == Ok::<Seq<JsonView>, Seq<char>>(items),
    ensures
        ({
            let p = advance::completion_progress(
                req,
                generation,
                req->Completion_max_items,
                Ok(Some(j)),
            );
            &&& p is Reply
            &&& shapes::member(p->Reply_0, "items"@)->Array_0.len() <= 500
            &&& shapes::member(p->Reply_0, "items"@)->Array_0.len() <= req->Completion_max_items
                || shapes::member(p->Reply_0, "items"@)->Array_0.len() <= 1
        }),
{
    lemma_fields();
}

/// A completion that a newer one has replaced ends without an event and keeps
/// nothing.
pub proof fn law_replaced_completions_are_silent(
    req: Request,
    c: ClientView,
    generation: u64,
    max_items: usize,
)
    ensures
        advance::completion_progress(req, generation, max_items, Ok(None)) is Silent,
        advance::after_completion(c, generation, max_items, Ok(None)) == c,
{
}

/// A list of items is taken whole, and the items of a list with more to it from
/// under its member.
pub proof fn law_both_forms_of_a_list_are_read(
    j: JsonView,
    list: JsonView,
    items: Seq<JsonView>,
    error: Seq<char>,
)
    ensures
        j is Array && decode::lsp_completion_items(j) == Ok::<JsonView, Seq<char>>(
            JsonView::Array(items),
        ) ==> completion::completion_items_of(j) == Ok::<Seq<JsonView>, Seq<char>>(items),
        j is Array && decode::lsp_completion_items(j) == Err::<JsonView, Seq<char>>(error)
            ==> completion::completion_items_of(j) == Err::<Seq<JsonView>, Seq<char>>(error),
        !(j is Array) && decode::lsp_completion_list(j) == Ok::<JsonView, Seq<char>>(list)
            && shapes::has_list(list, "items"@, items) ==> completion::completion_items_of(j)
            == Ok::<Seq<JsonView>, Seq<char>>(items),
        !(j is Array) && decode::lsp_completion_list(j) is Err ==> completion::completion_items_of(
            j,
        ) == Ok::<Seq<JsonView>, Seq<char>>(Seq::empty()),
{
}

/// An item that was resolved keeps what the server says of it, and what it says
/// nothing of stays as it was.
pub proof fn law_resolved_items_are_filled(
    resolved: Map<Seq<char>, JsonView>,
    original: Map<Seq<char>, JsonView>,
    key: Seq<char>,
    value: JsonView,
)
    requires
        !(value is Null),
    ensures
        ({
            let filled = completion::filled_item(
                JsonView::Object(resolved),
                JsonView::Object(original),
            );
            &&& resolved.contains_key(key) && resolved[key] == value ==> shapes::has(
                filled,
                key,
                value,
            )
            &&& !resolved.contains_key(key) && original.contains_key(key) && original[key] == value
                && completion::is_deferred(key) ==> shapes::has(filled, key, value)
            &&& !resolved.contains_key(key) && !completion::is_deferred(key) ==> shapes::lacks(
                filled,
                key,
            )
        }),
{
}

/// A resolved item is answered as it was filled, under the place it was asked
/// for.
pub proof fn law_resolved_items_are_answered(
    req: Request,
    original: JsonView,
    index: usize,
    j: JsonView,
    item: JsonView,
)
    requires
        req is CompletionResolve,
        decode::lsp_completion_item(j) == Ok::<JsonView, Seq<char>>(item),
    ensures
        ({
            let p = advance::item_progress(req, original, index, Ok(j));
            &&& p is Reply
            &&& is_answer(
                p->Reply_0,
                "completionResolve"@,
                req->CompletionResolve_id,
                "item"@,
                CompletionItem::wire(
                    types::completion_item_of(completion::filled_item(item, original), index),
                ),
            )
        }),
{
    lemma_fields();
}

// ---------------------------------------------------------------------------
// Edits
// ---------------------------------------------------------------------------

/// A rename is answered with the edit that it comes to, or with none where the
/// server has none.
pub proof fn law_renames_are_answered(
    req: Request,
    p: ProgressView,
    j: JsonView,
    edit: JsonView,
    error: Seq<char>,
)
    requires
        req is Rename,
        advance::is_rename_end(p, req, Ok(j)),
    ensures
        j is Null ==> p is Reply && is_answer(
            p->Reply_0,
            "rename"@,
            req->Rename_id,
            "edit"@,
            JsonView::Null,
        ),
        !(j is Null) && decode::read_workspace_edit(j) == Ok::<JsonView, Seq<char>>(edit) ==> (p
            is Reply && exists|w: WorkspaceEditView| #[trigger]
            types::is_workspace_edit_of(w, edit) && is_answer(
                p->Reply_0,
                "rename"@,
                req->Rename_id,
                "edit"@,
                WorkspaceEdit::wire(w),
            )),
        !(j is Null) && decode::read_workspace_edit(j) == Err::<JsonView, Seq<char>>(error) ==> p
            is Reply && is_error(p->Reply_0, req->Rename_id, error),
{
    lemma_fields();
    let r = choose|r: Result<Option<WorkspaceEditView>, Seq<char>>|
        #[trigger] features::is_rename_result(r, j) && p == ProgressView::Reply(
            answer::answer(
                "rename"@,
                req.spec_id(),
                "edit"@,
                answer::opt_written::<WorkspaceEdit>(r),
            ),
        );
    if !(j is Null) && decode::read_workspace_edit(j) == Ok::<JsonView, Seq<char>>(edit) {
        assert(r matches Ok(Some(w)) && types::is_workspace_edit_of(w, edit));
    }
}

/// An action or a lens that comes to an edit ends with the edit, and otherwise
/// with the word that it is done.
pub proof fn law_edits_are_handed_over(id: u64, edit: WorkspaceEditView, done: Seq<char>)
    ensures
        is_answer(
            feature::edit_event_view(id, Some(edit), done),
            "applyEdit"@,
            id,
            "edit"@,
            WorkspaceEdit::wire(edit),
        ),
        shapes::has_text(feature::edit_event_view(id, None, done), "type"@, done),
        shapes::has_number(feature::edit_event_view(id, None, done), "id"@, id as int),
{
    lemma_fields();
}

// ---------------------------------------------------------------------------
// Tokens
// ---------------------------------------------------------------------------

/// Tokens are answered with every token that is shown, in order; where all are
/// needed they are asked for.
pub proof fn law_tokens_are_answered(
    req: Request,
    shown: Seq<SemanticTokenItemView>,
    call: crate::lsp::call::CallView,
    error: Seq<char>,
)
    ensures
        ({
            let p = advance::token_progress(req, Ok(TokenStepView::Tokens(shown)));
            &&& p is Reply
            &&& is_written_answer::<SemanticTokenItem>(
                p->Reply_0,
                "semanticTokens"@,
                req.spec_id(),
                "tokens"@,
                shown,
            )
        }),
        ({
            let p = advance::token_progress(req, Ok(TokenStepView::AskFull(call)));
            p is Ask && p->stage is FullTokens && p->call == call
        }),
        ({
            let p = advance::token_progress(req, Err(error));
            p is Reply && is_error(p->Reply_0, req.spec_id(), error)
        }),
{
    lemma_fields();
}

/// All tokens of a document replace those that were kept and are shown. No answer
/// shows none and keeps what was kept.
pub proof fn law_full_tokens_replace_the_kept(
    c: ClientView,
    uri: Seq<char>,
    j: JsonView,
    full: JsonView,
)
    requires
        !(j is Null),
        decode::lsp_semantic_tokens(j) == Ok::<JsonView, Seq<char>>(full),
    ensures
        ({
            let after = advance::after_full_tokens(c, uri, Ok(j));
            &&& after.token_data.contains_key(uri)
            &&& after.token_data[uri] == actions::full_data(full)
            &&& advance::full_tokens(c, Ok(j)) == Ok::<TokenStepView, Seq<char>>(
                actions::token_step(actions::shown_tokens(c, after.token_data[uri])),
            )
        }),
        advance::after_full_tokens(c, uri, Ok(JsonView::Null)) == c,
        advance::full_tokens(c, Ok(JsonView::Null)) == Ok::<TokenStepView, Seq<char>>(
            TokenStepView::Tokens(Seq::empty()),
        ),
{
}

// ---------------------------------------------------------------------------
// Going on
// ---------------------------------------------------------------------------

/// The answer of the server ends a plain request, and what it brings is kept.
pub proof fn law_answers_end_plain_requests(
    p: ProgressView,
    c: ClientView,
    req: Request,
    method: Seq<char>,
    j: JsonView,
)
    requires
        answer::is_plain(req),
        advance::is_advance(p, c, req, StageView::Answer, method, Ok(Some(j))),
    ensures
        p == ProgressView::Reply(answer::answer_event(req, j)),
        advance::after_advance(c, req, StageView::Answer, method, Ok(Some(j)))
            == answer::after_answer(c, req, j),
{
}

/// The link that is followed is the one at the cursor of the request.
pub proof fn law_links_are_followed_at_the_cursor(
    p: ProgressView,
    c: ClientView,
    req: Request,
    method: Seq<char>,
    j: JsonView,
    links: Seq<JsonView>,
    found: LocationView,
)
    requires
        req is Definition,
        advance::is_advance(p, c, req, StageView::Links, method, Ok(Some(j))),
        !(j is Null),
        decode::read_document_links(j) == Ok::<JsonView, Seq<char>>(JsonView::Array(links)),
    ensures
        read::selected_link(
            crate::lsp::wire::lsp_list::<read::DocumentLink>(links),
            req->Definition_line,
            req->Definition_character,
        ) == Some(found) ==> p is Reply && is_place_answer(
            p->Reply_0,
            "definition"@,
            req->Definition_id,
            seq![found],
        ),
        read::selected_link(
            crate::lsp::wire::lsp_list::<read::DocumentLink>(links),
            req->Definition_line,
            req->Definition_character,
        ) is None && req->Definition_symbol@.len() > 0 ==> p is Ask && p->stage is Symbols
            && shapes::has_text(p->call.params, "query"@, req->Definition_symbol@),
        read::selected_link(
            crate::lsp::wire::lsp_list::<read::DocumentLink>(links),
            req->Definition_line,
            req->Definition_character,
        ) is None && req->Definition_symbol@.len() == 0 ==> p is Reply && is_place_answer(
            p->Reply_0,
            "definition"@,
            req->Definition_id,
            Seq::empty(),
        ),
{
    lemma_fields();
}

/// All tokens of a document are shown by the legend of the server and kept for the
/// document that they were asked for.
pub proof fn law_full_tokens_are_of_their_document(
    p: ProgressView,
    c: ClientView,
    req: Request,
    method: Seq<char>,
    j: JsonView,
    full: JsonView,
    uri: Seq<char>,
)
    requires
        advance::is_advance(p, c, req, StageView::FullTokens, method, Ok(Some(j))),
        !(j is Null),
        decode::lsp_semantic_tokens(j) == Ok::<JsonView, Seq<char>>(full),
        (req is SemanticTokensFull && req->SemanticTokensFull_uri@ == uri) || (req
            is SemanticTokensDelta && req->SemanticTokensDelta_uri@ == uri),
    ensures
        actions::shown_tokens(c, actions::full_data(full)) matches Some(shown) ==> p is Reply
            && is_written_answer::<SemanticTokenItem>(
            p->Reply_0,
            "semanticTokens"@,
            req.spec_id(),
            "tokens"@,
            shown,
        ),
        ({
            let after = advance::after_advance(c, req, StageView::FullTokens, method, Ok(Some(j)));
            after.token_data.contains_key(uri) && after.token_data[uri] == actions::full_data(full)
        }),
{
    lemma_fields();
}

/// A change of tokens that the server refuses has all of them asked for, and what
/// was kept of the document is forgotten.
pub proof fn law_refused_deltas_start_over(
    p: ProgressView,
    c: ClientView,
    req: Request,
    method: Seq<char>,
    error: Seq<char>,
)
    requires
        req is SemanticTokensDelta,
        advance::is_advance(p, c, req, StageView::Answer, method, Err(error)),
    ensures
        p is Ask,
        p->stage is FullTokens,
        p->call.method == "textDocument/semanticTokens/full"@,
        crate::laws::asking::names(p->call.params, req->SemanticTokensDelta_uri@),
        ({
            let after = advance::after_advance(c, req, StageView::Answer, method, Err(error));
            &&& !after.token_data.contains_key(req->SemanticTokensDelta_uri@)
            &&& !after.result_ids.contains_key(req->SemanticTokensDelta_uri@)
        }),
{
    lemma_fields();
    reveal_strlit("textDocument");
    reveal_strlit("uri");
}

/// A lens that was resolved executes the command that it now has, and one that has
/// none is done.
pub proof fn law_resolved_lenses_go_on(
    p: ProgressView,
    c: ClientView,
    req: Request,
    method: Seq<char>,
    j: JsonView,
    lens: JsonView,
    command: JsonView,
)
    requires
        req is ExecuteCodeLens,
        advance::is_advance(p, c, req, StageView::LensResolve, method, Ok(Some(j))),
        decode::lsp_code_lens(j) == Ok::<JsonView, Seq<char>>(lens),
    ensures
        shapes::has(lens, "command"@, command) && !(command is Null) ==> p is Ask && p->stage
            is LensCommand && p->call == actions::command_call(command),
        shapes::lacks(lens, "command"@) ==> p is Reply && shapes::has_text(
            p->Reply_0,
            "type"@,
            "codeLensExecute"@,
        ) && shapes::has_number(p->Reply_0, "id"@, req->ExecuteCodeLens_id as int),
{
    lemma_fields();
}

/// The command of a lens ends it with the edit that it answers with, or with the
/// word that it is done.
pub proof fn law_lens_commands_end_the_lens(
    p: ProgressView,
    c: ClientView,
    req: Request,
    method: Seq<char>,
    j: JsonView,
    edit: JsonView,
)
    requires
        req is ExecuteCodeLens,
        advance::is_advance(p, c, req, StageView::LensCommand, method, Ok(Some(j))),
    ensures
        decode::read_workspace_edit(j) == Ok::<JsonView, Seq<char>>(edit) ==> (p is Reply && exists|
            w: WorkspaceEditView,
        | #[trigger]
            types::is_workspace_edit_of(w, edit) && is_answer(
                p->Reply_0,
                "applyEdit"@,
                req->ExecuteCodeLens_id,
                "edit"@,
                WorkspaceEdit::wire(w),
            )),
        decode::read_workspace_edit(j) is Err ==> p is Reply && shapes::has_text(
            p->Reply_0,
            "type"@,
            "codeLensExecute"@,
        ) && shapes::has_number(p->Reply_0, "id"@, req->ExecuteCodeLens_id as int),
{
    lemma_fields();
    let w = choose|w: Option<WorkspaceEditView>|
        #[trigger] actions::is_lens_edit(w, Ok(j)) && p == ProgressView::Reply(
            feature::edit_event_view(req.spec_id(), w, "codeLensExecute"@),
        );
    assert(actions::is_lens_edit(w, Ok(j)));
    if decode::read_workspace_edit(j) == Ok::<JsonView, Seq<char>>(edit) {
        assert(types::is_workspace_edit_of(w->0, edit));
    }
}

/// The edit of an action is handed over after its command, whatever the command
/// came to.
pub proof fn law_action_edits_follow_their_command(
    p: ProgressView,
    c: ClientView,
    req: Request,
    method: Seq<char>,
    outcome: Result<Option<JsonView>, Seq<char>>,
    edit: WorkspaceEditView,
)
    requires
        req is ExecuteAction,
        advance::is_advance(
            p,
            c,
            req,
            StageView::ActionCommand { edit: Some(edit) },
            method,
            outcome,
        ),
    ensures
        p is Reply,
        is_answer(
            p->Reply_0,
            "applyEdit"@,
            req->ExecuteAction_id,
            "edit"@,
            WorkspaceEdit::wire(edit),
        ),
{
    lemma_fields();
}

/// A resolved item goes on under the number and with the item that it was asked
/// with.
pub proof fn law_resolved_items_keep_their_number(
    p: ProgressView,
    c: ClientView,
    req: Request,
    method: Seq<char>,
    j: JsonView,
    item: JsonView,
    original: JsonView,
)
    requires
        req is CompletionResolve,
        advance::is_advance(p, c, req, StageView::Item { original }, method, Ok(Some(j))),
        decode::lsp_completion_item(j) == Ok::<JsonView, Seq<char>>(item),
    ensures
        p is Reply,
        is_answer(
            p->Reply_0,
            "completionResolve"@,
            req->CompletionResolve_id,
            "item"@,
            CompletionItem::wire(
                types::completion_item_of(
                    completion::filled_item(item, original),
                    req->CompletionResolve_index,
                ),
            ),
        ),
        types::completion_item_of(
            completion::filled_item(item, original),
            req->CompletionResolve_index,
        ).index == req->CompletionResolve_index,
{
    lemma_fields();
}


} // verus!
