//! The requests of the editor's features, and what their answers come to.

use vstd::prelude::*;
use vstd::string::*;

use crate::json;
use crate::json::{object1, Fields, Json, JsonView};
use crate::lsp::call;
use crate::lsp::call::{
    document_call, document_fields, make_call, position_call, position_fields, position_json,
    range_call, Call, CallView,
};
use crate::lsp::client::{items_of, LspClient};
use crate::lsp::decode;
use crate::lsp::read;
use crate::lsp::read::DocumentLink;
use crate::lsp::types;
use crate::lsp::types::{
    from_lsp_workspace_edit, CallHierarchyCall, CallHierarchyCallView, CallHierarchyItem,
    CallHierarchyItemView, DiagnosticItem, DiagnosticItemView, DocumentHighlightItem,
    DocumentHighlightItemView, DocumentSymbolItem, DocumentSymbolItemView, FoldingRangeItem,
    FoldingRangeItemView, InlayHintItem, InlayHintItemView, LinkedEditingRangeItem, Location,
    LocationView, RangeItem, SelectionRangeItem, SelectionRangeItemView, SignatureInfo,
    SignatureInfoView, TextEdit, TextEditView, WorkspaceEdit, WorkspaceEditView,
};
use crate::lsp::wire;
use crate::lsp::wire::{read_items, take_list};

verus! {

// ---------------------------------------------------------------------------
// Answers in general
// ---------------------------------------------------------------------------

/// What an answer comes to where no answer is an empty list.
pub open spec fn list_or_empty<V>(
    result: JsonView,
    read: Result<Seq<V>, Seq<char>>,
) -> Result<Seq<V>, Seq<char>> {
    if result is Null {
        Ok(Seq::empty())
    } else {
        read
    }
}

/// Whether an answer comes to a workspace edit, given what it was read as.
pub open spec fn is_edit_outcome(
    r: Result<WorkspaceEditView, Seq<char>>,
    edit: Result<JsonView, Seq<char>>,
) -> bool {
    match edit {
        Ok(e) => r matches Ok(w) && types::is_workspace_edit_of(w, e),
        Err(x) => r == Err::<WorkspaceEditView, Seq<char>>(x),
    }
}

/// Takes a workspace edit out of an answer.
pub fn take_edit(edit: Result<Json, String>) -> (r: Result<WorkspaceEdit, String>)
    ensures
        is_edit_outcome(wire::outcome(r), json::result_view(edit)),
{
    match edit {
        Ok(e) => Ok(from_lsp_workspace_edit(&e)),
        Err(x) => Err(x),
    }
}

// ---------------------------------------------------------------------------
// Hover, definition and the like
// ---------------------------------------------------------------------------

/// What a hover comes to, given what the answer was read as.
pub open spec fn hover_outcome(hover: Result<JsonView, Seq<char>>) -> Result<
    Option<Seq<char>>,
    Seq<char>,
> {
    match hover {
        Ok(h) => Ok(Some(read::hover_text_of(h))),
        Err(e) => Err(e),
    }
}

/// Takes a hover out of an answer.
pub fn take_hover(hover: Result<Json, String>) -> (r: Result<Option<String>, String>)
    ensures
        wire::outcome(r) == hover_outcome(json::result_view(hover)),
{
    match hover {
        Ok(h) => Ok(Some(read::hover_text(&h))),
        Err(e) => Err(e),
    }
}

/// The step after a definition request: the locations, or a look at the
/// document's links where there are none.
pub enum DefinitionStep {
    Found(Vec<Location>),
    LookForLinks(Call),
}

/// The file that an answer with document links leads to from a place, given
/// what the answer was read as.
pub open spec fn link_outcome(
    links: Result<JsonView, Seq<char>>,
    line: u32,
    character: u32,
) -> Result<Option<LocationView>, Seq<char>> {
    match links {
        Ok(list) => Ok(
            read::selected_link(wire::lsp_list::<DocumentLink>(list.items()), line, character),
        ),
        Err(e) => Err(e),
    }
}

/// Takes the file that document links lead to from a place.
pub fn take_link(links: Result<Json, String>, line: u32, character: u32) -> (r: Result<
    Option<Location>,
    String,
>)
    ensures
        wire::outcome(r) == link_outcome(json::result_view(links), line, character),
{
    match links {
        Ok(list) => {
            let items: Vec<DocumentLink> = read_items(&list);
            Ok(read::select_document_link(&items, line, character))
        },
        Err(e) => Err(e),
    }
}

/// The file that an answer to a document-link request leads to.
pub open spec fn document_link_result(result: JsonView, line: u32, character: u32) -> Result<
    Option<LocationView>,
    Seq<char>,
> {
    if result is Null {
        Ok(None)
    } else {
        link_outcome(decode::read_document_links(result), line, character)
    }
}

/// The locations of a definition that only the document's links may know. A
/// server without links leaves the definition empty.
pub open spec fn linked_definition(
    result: Result<JsonView, Seq<char>>,
    line: u32,
    character: u32,
) -> Seq<LocationView> {
    match result {
        Ok(j) => match document_link_result(j, line, character) {
            Ok(Some(l)) => seq![l],
            _ => Seq::empty(),
        },
        Err(_) => Seq::empty(),
    }
}

impl LspClient {
    /// Asks for the hover at a place.
    pub fn hover(&self, uri: &str, line: u32, character: u32) -> (r: Call)
        ensures
            r.deep_view() == call::call_of(
                "textDocument/hover"@,
                call::position_params(uri@, line, character),
            ),
    {
        position_call("textDocument/hover", uri, line, character)
    }

    /// Takes the answer to a hover request.
    pub fn hover_reply(&self, result: &Json) -> (r: Result<Option<String>, String>)
        ensures
            wire::outcome(r) == if result@ is Null {
                Ok(None)
            } else {
                hover_outcome(decode::lsp_hover(result@))
            },
    {
        if result.is_null() {
            return Ok(None);
        }
        take_hover(decode::hover(result))
    }

    /// Asks where the symbol at a place is defined.
    pub fn definition(&self, uri: &str, line: u32, character: u32) -> (r: Call)
        ensures
            r.deep_view() == call::call_of(
                "textDocument/definition"@,
                call::position_params(uri@, line, character),
            ),
    {
        position_call("textDocument/definition", uri, line, character)
    }

    /// Takes the answer to a definition request. Some servers name the files of
    /// an include as links instead, so an empty answer asks for those.
    pub fn definition_reply(&self, uri: &str, result: &Json) -> (r: DefinitionStep)
        ensures
            match r {
                DefinitionStep::Found(list) => read::locations_of(result@).len() > 0
                    && list.deep_view() == read::locations_of(result@),
                DefinitionStep::LookForLinks(call) => read::locations_of(result@).len() == 0
                    && call.deep_view() == call::call_of(
                    "textDocument/documentLink"@,
                    call::document_params(uri@),
                ),
            },
    {
        let found = match read::parse_locations(result) {
            Ok(list) => list,
            Err(_) => Vec::new(),
        };
        if found.len() == 0 {
            DefinitionStep::LookForLinks(self.document_link_at(uri))
        } else {
            DefinitionStep::Found(found)
        }
    }

    /// Asks for the links of a document.
    pub fn document_link_at(&self, uri: &str) -> (r: Call)
        ensures
            r.deep_view() == call::call_of(
                "textDocument/documentLink"@,
                call::document_params(uri@),
            ),
    {
        document_call("textDocument/documentLink", uri)
    }

    /// Takes the answer to a document-link request.
    pub fn document_link_reply(&self, result: &Json, line: u32, character: u32) -> (r: Result<
        Option<Location>,
        String,
    >)
        ensures
            wire::outcome(r) == document_link_result(result@, line, character),
    {
        if result.is_null() {
            return Ok(None);
        }
        take_link(decode::document_links(result), line, character)
    }

    /// Takes the outcome of the document-link request that a definition led to.
    pub fn definition_link_reply(
        &self,
        result: Result<Json, String>,
        line: u32,
        character: u32,
    ) -> (r: Vec<Location>)
        ensures
            r.deep_view() == linked_definition(json::result_view(result), line, character),
    {
        let mut out: Vec<Location> = Vec::new();
        if let Ok(j) = result {
            if let Ok(Some(l)) = self.document_link_reply(&j, line, character) {
                out.push(l);
            }
        }
        assert(out.deep_view() =~= linked_definition(json::result_view(result), line, character));
        out
    }

    /// Asks where the symbol at a place is used.
    pub fn references(&self, uri: &str, line: u32, character: u32) -> (r: Call)
        ensures
            r.deep_view() == call::call_of(
                "textDocument/references"@,
                JsonView::Object(
                    map![
                        "textDocument"@ => call::uri_view(uri@),
                        "position"@ => call::position_view(line, character),
                        "context"@ => JsonView::Object(
                            map!["includeDeclaration"@ => JsonView::Bool(true)],
                        ),
                    ],
                ),
            ),
    {
        let mut f = position_fields(uri, line, character);
        f.put("context", object1("includeDeclaration", Json::Bool(true)));
        make_call("textDocument/references", f.done())
    }

    /// Asks where the symbol at a place is implemented.
    pub fn implementation(&self, uri: &str, line: u32, character: u32) -> (r: Call)
        ensures
            r.deep_view() == call::call_of(
                "textDocument/implementation"@,
                call::position_params(uri@, line, character),
            ),
    {
        position_call("textDocument/implementation", uri, line, character)
    }

    /// Asks where the type of the symbol at a place is defined.
    pub fn type_definition(&self, uri: &str, line: u32, character: u32) -> (r: Call)
        ensures
            r.deep_view() == call::call_of(
                "textDocument/typeDefinition"@,
                call::position_params(uri@, line, character),
            ),
    {
        position_call("textDocument/typeDefinition", uri, line, character)
    }

    /// Takes the answer to a request for locations.
    pub fn locations_reply(&self, result: &Json) -> (r: Result<Vec<Location>, String>)
        ensures
            r is Ok,
            r->Ok_0.deep_view() == read::locations_of(result@),
    {
        read::parse_locations(result)
    }
}

// ---------------------------------------------------------------------------
// Editing
// ---------------------------------------------------------------------------

/// What signature help comes to, given what the answer was read as.
pub open spec fn signature_outcome(help: Result<JsonView, Seq<char>>) -> Result<
    Option<Seq<SignatureInfoView>>,
    Seq<char>,
> {
    match help {
        Ok(h) => Ok(read::signatures_of(h)),
        Err(e) => Err(e),
    }
}

/// Takes signature help out of an answer.
pub fn take_signatures(help: Result<Json, String>) -> (r: Result<
    Option<Vec<SignatureInfo>>,
    String,
>)
    ensures
        wire::outcome(r) == signature_outcome(json::result_view(help)),
{
    match help {
        Ok(h) => Ok(read::signature_infos(&h)),
        Err(e) => Err(e),
    }
}

/// Whether the answer to a rename comes to a workspace edit.
pub open spec fn is_rename_result(
    r: Result<Option<WorkspaceEditView>, Seq<char>>,
    result: JsonView,
) -> bool {
    if result is Null {
        r == Ok::<Option<WorkspaceEditView>, Seq<char>>(None)
    } else {
        match r {
            Ok(Some(w)) => is_edit_outcome(Ok(w), decode::read_workspace_edit(result)),
            Ok(None) => false,
            Err(e) => is_edit_outcome(Err(e), decode::read_workspace_edit(result)),
        }
    }
}

impl LspClient {
    /// Asks for a document to be formatted.
    pub fn formatting(&self, uri: &str, tab_size: u32, insert_spaces: bool) -> (r: Call)
        ensures
            r.deep_view() == call::call_of(
                "textDocument/formatting"@,
                JsonView::Object(
                    map![
                        "textDocument"@ => call::uri_view(uri@),
                        "options"@ => JsonView::Object(
                            map![
                                "tabSize"@ => JsonView::Int(tab_size as int),
                                "insertSpaces"@ => JsonView::Bool(insert_spaces),
                            ],
                        ),
                    ],
                ),
            ),
    {
        let mut options = Fields::new();
        options.put_u64("tabSize", tab_size as u64);
        options.put_bool("insertSpaces", insert_spaces);
        let mut f = document_fields(uri);
        f.put("options", options.done());
        make_call("textDocument/formatting", f.done())
    }

    /// Takes the answer to a formatting request.
    pub fn formatting_reply(&self, result: &Json) -> (r: Result<Vec<TextEdit>, String>)
        ensures
            wire::outcome(r) == list_or_empty(
                result@,
                wire::list_outcome::<TextEdit>(decode::lsp_text_edits(result@)),
            ),
    {
        if result.is_null() {
            let none: Vec<TextEdit> = Vec::new();
            assert(none.deep_view() =~= Seq::<TextEditView>::empty());
            return Ok(none);
        }
        take_list(decode::text_edits(result))
    }

    /// Asks for the symbol at a place to be renamed.
    pub fn rename(&self, uri: &str, line: u32, character: u32, new_name: &str) -> (r: Call)
        ensures
            r.deep_view() == call::call_of(
                "textDocument/rename"@,
                JsonView::Object(
                    map![
                        "textDocument"@ => call::uri_view(uri@),
                        "position"@ => call::position_view(line, character),
                        "newName"@ => JsonView::Str(new_name@),
                    ],
                ),
            ),
    {
        let mut f = position_fields(uri, line, character);
        f.put_str("newName", new_name);
        make_call("textDocument/rename", f.done())
    }

    /// Takes the answer to a rename request.
    pub fn rename_reply(&self, result: &Json) -> (r: Result<Option<WorkspaceEdit>, String>)
        ensures
            is_rename_result(wire::outcome(r), result@),
    {
        if result.is_null() {
            return Ok(None);
        }
        match take_edit(decode::workspace_edit(result)) {
            Ok(w) => Ok(Some(w)),
            Err(e) => Err(e),
        }
    }

    /// Asks for the signatures at a place.
    pub fn signature_help(&self, uri: &str, line: u32, character: u32) -> (r: Call)
        ensures
            r.deep_view() == call::call_of(
                "textDocument/signatureHelp"@,
                call::position_params(uri@, line, character),
            ),
    {
        position_call("textDocument/signatureHelp", uri, line, character)
    }

    /// Takes the answer to a signature-help request.
    pub fn signature_help_reply(&self, result: &Json) -> (r: Result<
        Option<Vec<SignatureInfo>>,
        String,
    >)
        ensures
            wire::outcome(r) == if result@ is Null {
                Ok(None)
            } else {
                signature_outcome(decode::lsp_signature_help(result@))
            },
    {
        if result.is_null() {
            return Ok(None);
        }
        take_signatures(decode::signature_help(result))
    }

    /// Asks which ranges are edited together with a place.
    pub fn linked_editing_range(&self, uri: &str, line: u32, character: u32) -> (r: Call)
        ensures
            r.deep_view() == call::call_of(
                "textDocument/linkedEditingRange"@,
                call::position_params(uri@, line, character),
            ),
    {
        position_call("textDocument/linkedEditingRange", uri, line, character)
    }

    /// Takes the answer to a linked-editing request.
    pub fn linked_editing_range_reply(&self, result: &Json) -> (r: Result<
        Option<LinkedEditingRangeItem>,
        String,
    >)
        ensures
            wire::outcome(r) == if result@ is Null {
                Ok(None)
            } else {
                match decode::lsp_linked_editing_ranges(result@) {
                    Ok(ler) => Ok(Some(read::linked_ranges_of(ler))),
                    Err(e) => Err(e),
                }
            },
    {
        if result.is_null() {
            return Ok(None);
        }
        match decode::linked_editing_ranges(result) {
            Ok(ler) => Ok(Some(read::linked_ranges(&ler))),
            Err(e) => Err(e),
        }
    }
}

// ---------------------------------------------------------------------------
// Symbols
// ---------------------------------------------------------------------------

/// The outline of an answer, given what it was read as: nested symbols where
/// it has them, a flat list otherwise.
pub open spec fn outline_outcome(
    nested: Result<JsonView, Seq<char>>,
    flat: Result<JsonView, Seq<char>>,
) -> Seq<DocumentSymbolItemView> {
    match nested {
        Ok(syms) => read::document_symbols_of(syms.items()),
        Err(_) => match flat {
            Ok(infos) => read::outline_of(infos.items()),
            Err(_) => Seq::empty(),
        },
    }
}

/// The outline that an answer stands for.
pub open spec fn outline_result(result: JsonView) -> Seq<DocumentSymbolItemView> {
    if result is Null {
        Seq::empty()
    } else {
        outline_outcome(
            decode::lsp_document_symbols(result),
            decode::read_symbol_informations(result),
        )
    }
}

/// The symbols of a workspace that an answer stands for.
pub open spec fn workspace_symbol_result(result: JsonView) -> Seq<DocumentSymbolItemView> {
    if result is Null {
        Seq::empty()
    } else {
        match decode::read_symbol_informations(result) {
            Ok(infos) => read::workspace_symbols_of(infos.items()),
            Err(_) => Seq::empty(),
        }
    }
}

/// The places where a symbol of a given name is, given what the answer was read
/// as.
pub open spec fn symbol_location_outcome(
    infos: Result<JsonView, Seq<char>>,
    query: Seq<char>,
) -> Result<Seq<LocationView>, Seq<char>> {
    match infos {
        Ok(list) => Ok(read::symbol_locations_of(list.items(), query)),
        Err(e) => Err(e),
    }
}

/// Takes the places where a symbol of a given name is.
pub fn take_symbol_locations(infos: Result<Json, String>, query: &str) -> (r: Result<
    Vec<Location>,
    String,
>)
    ensures
        wire::outcome(r) == symbol_location_outcome(json::result_view(infos), query@),
{
    match infos {
        Ok(list) => Ok(read::symbol_locations(&list, query)),
        Err(e) => Err(e),
    }
}

impl LspClient {
    /// Asks for the symbols of a document.
    pub fn document_symbol(&self, uri: &str) -> (r: Call)
        ensures
            r.deep_view() == call::call_of(
                "textDocument/documentSymbol"@,
                call::document_params(uri@),
            ),
    {
        document_call("textDocument/documentSymbol", uri)
    }

    /// Takes the answer to a document-symbol request. This never fails.
    pub fn document_symbol_reply(&self, result: &Json) -> (r: Vec<DocumentSymbolItem>)
        ensures
            r.deep_view() == outline_result(result@),
    {
        if !result.is_null() {
            if let Ok(syms) = decode::document_symbols(result) {
                let items = items_of(&syms);
                return read::convert_doc_symbols(&items);
            }
            if let Ok(infos) = decode::symbol_informations(result) {
                return read::outline(&infos);
            }
        }
        let none: Vec<DocumentSymbolItem> = Vec::new();
        assert(none.deep_view() =~= Seq::<DocumentSymbolItemView>::empty());
        none
    }

    /// Asks for the symbols of the workspace.
    pub fn workspace_symbol(&self, query: &str) -> (r: Call)
        ensures
            r.deep_view() == call::call_of(
                "workspace/symbol"@,
                JsonView::Object(map!["query"@ => JsonView::Str(query@)]),
            ),
    {
        make_call("workspace/symbol", object1("query", Json::string(query)))
    }

    /// Takes the answer to a workspace-symbol request. This never fails.
    pub fn workspace_symbol_reply(&self, result: &Json) -> (r: Vec<DocumentSymbolItem>)
        ensures
            r.deep_view() == workspace_symbol_result(result@),
    {
        if !result.is_null() {
            if let Ok(infos) = decode::symbol_informations(result) {
                return read::workspace_symbols(&infos);
            }
        }
        let none: Vec<DocumentSymbolItem> = Vec::new();
        assert(none.deep_view() =~= Seq::<DocumentSymbolItemView>::empty());
        none
    }

    /// Takes the places of the declarations of exactly a given name.
    pub fn workspace_symbol_locations(&self, query: &str, result: &Json) -> (r: Result<
        Vec<Location>,
        String,
    >)
        ensures
            wire::outcome(r) == list_or_empty(
                result@,
                symbol_location_outcome(decode::read_symbol_informations(result@), query@),
            ),
    {
        if result.is_null() {
            let none: Vec<Location> = Vec::new();
            assert(none.deep_view() =~= Seq::<LocationView>::empty());
            return Ok(none);
        }
        take_symbol_locations(decode::symbol_informations(result), query)
    }
}

// ---------------------------------------------------------------------------
// Highlights, hints and ranges
// ---------------------------------------------------------------------------

/// Positions as JSON.
pub open spec fn positions_view(positions: Seq<(u32, u32)>) -> JsonView {
    JsonView::Array(
        Seq::new(
            positions.len(),
            |i: int| call::position_view(positions[i].0, positions[i].1),
        ),
    )
}

/// The diagnostics in an answer to a request for them.
pub open spec fn report_items(result: JsonView) -> JsonView {
    match result.get("items"@) {
        Some(items) => items,
        None => match result.get("relatedDocuments"@) {
            Some(docs) => docs,
            None => JsonView::Array(Seq::empty()),
        },
    }
}

/// The diagnostics that an answer stands for, given what they were read as.
pub open spec fn diagnostics_outcome(items: Result<JsonView, Seq<char>>) -> Seq<
    DiagnosticItemView,
> {
    match items {
        Ok(list) => wire::lsp_list::<DiagnosticItem>(list.items()),
        Err(_) => Seq::empty(),
    }
}

/// Takes the diagnostics of an answer.
pub fn take_diagnostics(items: Result<Json, String>) -> (r: Vec<DiagnosticItem>)
    ensures
        r.deep_view() == diagnostics_outcome(json::result_view(items)),
{
    match items {
        Ok(list) => read_items(&list),
        Err(_) => {
            let none: Vec<DiagnosticItem> = Vec::new();
            assert(none.deep_view() =~= Seq::<DiagnosticItemView>::empty());
            none
        },
    }
}

impl LspClient {
    /// Asks where the symbol at a place occurs in its document.
    pub fn document_highlight(&self, uri: &str, line: u32, character: u32) -> (r: Call)
        ensures
            r.deep_view() == call::call_of(
                "textDocument/documentHighlight"@,
                call::position_params(uri@, line, character),
            ),
    {
        position_call("textDocument/documentHighlight", uri, line, character)
    }

    /// Takes the answer to a highlight request.
    pub fn document_highlight_reply(&self, result: &Json) -> (r: Result<
        Vec<DocumentHighlightItem>,
        String,
    >)
        ensures
            wire::outcome(r) == list_or_empty(
                result@,
                wire::list_outcome::<DocumentHighlightItem>(
                    decode::lsp_document_highlights(result@),
                ),
            ),
    {
        if result.is_null() {
            let none: Vec<DocumentHighlightItem> = Vec::new();
            assert(none.deep_view() =~= Seq::<DocumentHighlightItemView>::empty());
            return Ok(none);
        }
        take_list(decode::document_highlights(result))
    }

    /// Asks for the hints in some lines.
    pub fn inlay_hints(&self, uri: &str, start_line: u32, end_line: u32) -> (r: Call)
        ensures
            r.deep_view() == call::call_of(
                "textDocument/inlayHint"@,
                call::range_params(
                    uri@,
                    (RangeItem { line: start_line, character: 0, end_line, end_character: 0 }),
                ),
            ),
    {
        range_call(
            "textDocument/inlayHint",
            uri,
            RangeItem { line: start_line, character: 0, end_line, end_character: 0 },
        )
    }

    /// Takes the answer to an inlay-hint request.
    pub fn inlay_hints_reply(&self, result: &Json) -> (r: Result<Vec<InlayHintItem>, String>)
        ensures
            wire::outcome(r) == list_or_empty(
                result@,
                wire::list_outcome::<InlayHintItem>(decode::read_inlay_hints(result@)),
            ),
    {
        if result.is_null() {
            let none: Vec<InlayHintItem> = Vec::new();
            assert(none.deep_view() =~= Seq::<InlayHintItemView>::empty());
            return Ok(none);
        }
        take_list(decode::inlay_hints(result))
    }

    /// Asks for the ranges around some places.
    pub fn selection_range(&self, uri: &str, positions: &Vec<(u32, u32)>) -> (r: Call)
        ensures
            r.deep_view() == call::call_of(
                "textDocument/selectionRange"@,
                JsonView::Object(
                    map![
                        "textDocument"@ => call::uri_view(uri@),
                        "positions"@ => positions_view(positions@),
                    ],
                ),
            ),
    {
        let mut list: Vec<Json> = Vec::new();
        let mut i: usize = 0;
        while i < positions.len()
            invariant
                i <= positions@.len(),
                list@.len() == i,
                forall|k: int|
                    0 <= k < i ==> (#[trigger] list@[k])@ == call::position_view(
                        positions@[k].0,
                        positions@[k].1,
                    ),
            decreases positions@.len() - i,
        {
            list.push(position_json(positions[i].0, positions[i].1));
            i = i + 1;
        }
        assert(json::items_view(list@) =~= Seq::new(
            positions@.len(),
            |i: int| call::position_view(positions@[i].0, positions@[i].1),
        ));
        let mut f = document_fields(uri);
        f.put("positions", Json::array(list));
        make_call("textDocument/selectionRange", f.done())
    }

    /// Takes the answer to a selection-range request.
    pub fn selection_range_reply(&self, result: &Json) -> (r: Result<
        Vec<SelectionRangeItem>,
        String,
    >)
        ensures
            wire::outcome(r) == list_or_empty(
                result@,
                wire::list_outcome::<SelectionRangeItem>(decode::lsp_selection_ranges(result@)),
            ),
    {
        if result.is_null() {
            let none: Vec<SelectionRangeItem> = Vec::new();
            assert(none.deep_view() =~= Seq::<SelectionRangeItemView>::empty());
            return Ok(none);
        }
        take_list(decode::selection_ranges(result))
    }

    /// Asks for the parts of a document that can be folded.
    pub fn folding_range(&self, uri: &str) -> (r: Call)
        ensures
            r.deep_view() == call::call_of(
                "textDocument/foldingRange"@,
                call::document_params(uri@),
            ),
    {
        document_call("textDocument/foldingRange", uri)
    }

    /// Takes the answer to a folding request.
    pub fn folding_range_reply(&self, result: &Json) -> (r: Result<Vec<FoldingRangeItem>, String>)
        ensures
            wire::outcome(r) == list_or_empty(
                result@,
                wire::list_outcome::<FoldingRangeItem>(decode::lsp_folding_ranges(result@)),
            ),
    {
        if result.is_null() {
            let none: Vec<FoldingRangeItem> = Vec::new();
            assert(none.deep_view() =~= Seq::<FoldingRangeItemView>::empty());
            return Ok(none);
        }
        take_list(decode::folding_ranges(result))
    }

    /// Asks for the diagnostics of a document.
    pub fn pull_diagnostics(&self, uri: &str) -> (r: Call)
        ensures
            r.deep_view() == call::call_of(
                "textDocument/diagnostic"@,
                call::document_params(uri@),
            ),
    {
        document_call("textDocument/diagnostic", uri)
    }

    /// Takes the answer to a request for diagnostics. This never fails.
    pub fn pull_diagnostics_reply(&self, result: &Json) -> (r: Vec<DiagnosticItem>)
        ensures
            r.deep_view() == if result@ is Null {
                Seq::empty()
            } else {
                diagnostics_outcome(decode::read_diagnostics(report_items(result@)))
            },
    {
        if result.is_null() {
            let none: Vec<DiagnosticItem> = Vec::new();
            assert(none.deep_view() =~= Seq::<DiagnosticItemView>::empty());
            return none;
        }
        let items = match result.get("items") {
            Some(v) => v.copy(),
            None => match result.get("relatedDocuments") {
                Some(v) => v.copy(),
                None => {
                    let none: Vec<Json> = Vec::new();
                    assert(json::items_view(none@) =~= Seq::<JsonView>::empty());
                    Json::array(none)
                },
            },
        };
        take_diagnostics(decode::diagnostics(&items))
    }
}

// ---------------------------------------------------------------------------
// Hierarchies
// ---------------------------------------------------------------------------

/// The calls of an answer, given what it was read as.
pub open spec fn calls_outcome(calls: Result<JsonView, Seq<char>>, key: Seq<char>) -> Result<
    Seq<CallHierarchyCallView>,
    Seq<char>,
> {
    match calls {
        Ok(list) => Ok(read::calls_of(list.items(), key)),
        Err(e) => Err(e),
    }
}

/// Takes the calls of an answer.
pub fn take_calls(calls: Result<Json, String>, key: &str) -> (r: Result<
    Vec<CallHierarchyCall>,
    String,
>)
    ensures
        wire::outcome(r) == calls_outcome(json::result_view(calls), key@),
{
    match calls {
        Ok(list) => Ok(read::hierarchy_calls(&list, key)),
        Err(e) => Err(e),
    }
}

/// The items that an answer stands for, given what it was read as.
pub open spec fn items_outcome(items: Result<JsonView, Seq<char>>) -> Result<
    Seq<JsonView>,
    Seq<char>,
> {
    match items {
        Ok(list) => Ok(list.items()),
        Err(e) => Err(e),
    }
}

/// The outcome of an operation that yields values.
pub open spec fn values_view(r: Result<Vec<Json>, String>) -> Result<Seq<JsonView>, Seq<char>> {
    match r {
        Ok(v) => Ok(json::items_view(v@)),
        Err(e) => Err(e@),
    }
}

fn take_items(items: Result<Json, String>) -> (r: Result<Vec<Json>, String>)
    ensures
        values_view(r) == items_outcome(json::result_view(items)),
{
    match items {
        Ok(list) => Ok(items_of(&list)),
        Err(e) => Err(e),
    }
}

fn no_values() -> (r: Result<Vec<Json>, String>)
    ensures
        values_view(r) == Ok::<Seq<JsonView>, Seq<char>>(Seq::empty()),
{
    let none: Vec<Json> = Vec::new();
    assert(json::items_view(none@) =~= Seq::<JsonView>::empty());
    Ok(none)
}

/// A request about an item of a hierarchy.
pub open spec fn item_call(method: Seq<char>, item: JsonView) -> CallView {
    call::call_of(method, JsonView::Object(map!["item"@ => item]))
}

impl LspClient {
    /// Asks for the callable at a place.
    pub fn call_hierarchy_prepare(&self, uri: &str, line: u32, character: u32) -> (r: Call)
        ensures
            r.deep_view() == call::call_of(
                "textDocument/prepareCallHierarchy"@,
                call::position_params(uri@, line, character),
            ),
    {
        position_call("textDocument/prepareCallHierarchy", uri, line, character)
    }

    /// Takes the answer to a request for a callable: its items, as they are to
    /// be handed back to the server.
    pub fn call_hierarchy_prepare_reply(&self, result: &Json) -> (r: Result<Vec<Json>, String>)
        ensures
            values_view(r) == list_or_empty(
                result@,
                items_outcome(decode::read_call_items(result@)),
            ),
    {
        if result.is_null() {
            return no_values();
        }
        take_items(decode::call_items(result))
    }

    /// Asks who calls an item.
    pub fn call_hierarchy_incoming(&self, item: &Json) -> (r: Call)
        ensures
            r.deep_view() == item_call("callHierarchy/incomingCalls"@, item@),
    {
        make_call("callHierarchy/incomingCalls", object1("item", item.copy()))
    }

    /// Takes the answer to who calls an item.
    pub fn call_hierarchy_incoming_reply(&self, result: &Json) -> (r: Result<
        Vec<CallHierarchyCall>,
        String,
    >)
        ensures
            wire::outcome(r) == list_or_empty(
                result@,
                calls_outcome(decode::read_incoming_calls(result@), "from"@),
            ),
    {
        if result.is_null() {
            let none: Vec<CallHierarchyCall> = Vec::new();
            assert(none.deep_view() =~= Seq::<CallHierarchyCallView>::empty());
            return Ok(none);
        }
        take_calls(decode::incoming_calls(result), "from")
    }

    /// Asks what an item calls.
    pub fn call_hierarchy_outgoing(&self, item: &Json) -> (r: Call)
        ensures
            r.deep_view() == item_call("callHierarchy/outgoingCalls"@, item@),
    {
        make_call("callHierarchy/outgoingCalls", object1("item", item.copy()))
    }

    /// Takes the answer to what an item calls.
    pub fn call_hierarchy_outgoing_reply(&self, result: &Json) -> (r: Result<
        Vec<CallHierarchyCall>,
        String,
    >)
        ensures
            wire::outcome(r) == list_or_empty(
                result@,
                calls_outcome(decode::read_outgoing_calls(result@), "to"@),
            ),
    {
        if result.is_null() {
            let none: Vec<CallHierarchyCall> = Vec::new();
            assert(none.deep_view() =~= Seq::<CallHierarchyCallView>::empty());
            return Ok(none);
        }
        take_calls(decode::outgoing_calls(result), "to")
    }

    /// Asks for the type at a place.
    pub fn type_hierarchy_prepare(&self, uri: &str, line: u32, character: u32) -> (r: Call)
        ensures
            r.deep_view() == call::call_of(
                "textDocument/prepareTypeHierarchy"@,
                call::position_params(uri@, line, character),
            ),
    {
        position_call("textDocument/prepareTypeHierarchy", uri, line, character)
    }

    /// Takes the answer to a request for a type: its items, as they are to be
    /// handed back to the server.
    pub fn type_hierarchy_prepare_reply(&self, result: &Json) -> (r: Result<Vec<Json>, String>)
        ensures
            values_view(r) == list_or_empty(
                result@,
                items_outcome(decode::read_type_items(result@)),
            ),
    {
        if result.is_null() {
            return no_values();
        }
        take_items(decode::type_items(result))
    }

    /// Asks for the types above an item.
    pub fn type_hierarchy_supertypes(&self, item: &Json) -> (r: Call)
        ensures
            r.deep_view() == item_call("typeHierarchy/supertypes"@, item@),
    {
        make_call("typeHierarchy/supertypes", object1("item", item.copy()))
    }

    /// Asks for the types below an item.
    pub fn type_hierarchy_subtypes(&self, item: &Json) -> (r: Call)
        ensures
            r.deep_view() == item_call("typeHierarchy/subtypes"@, item@),
    {
        make_call("typeHierarchy/subtypes", object1("item", item.copy()))
    }

    /// Takes the answer to a request for the types above or below an item.
    pub fn type_hierarchy_reply(&self, result: &Json) -> (r: Result<Vec<CallHierarchyItem>, String>)
        ensures
            wire::outcome(r) == list_or_empty(
                result@,
                wire::list_outcome::<CallHierarchyItem>(decode::read_type_items(result@)),
            ),
    {
        if result.is_null() {
            let none: Vec<CallHierarchyItem> = Vec::new();
            assert(none.deep_view() =~= Seq::<CallHierarchyItemView>::empty());
            return Ok(none);
        }
        take_list(decode::type_items(result))
    }
}

} // verus!
