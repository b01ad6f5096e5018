//! What the editor is sent of each value: every part under its own name.

use vstd::prelude::*;
use vstd::string::*;

use crate::json;
use crate::json::JsonView;
use crate::laws::shapes;
use crate::lsp::types;
use crate::lsp::types::{
    CallHierarchyCall,
    CallHierarchyCallView,
    CallHierarchyItem,
    CallHierarchyItemView,
    CodeAction,
    CodeActionView,
    CodeLensItem,
    CodeLensItemView,
    CompletionItem,
    CompletionItemView,
    DiagnosticItem,
    DiagnosticItemView,
    DocumentHighlightItem,
    DocumentHighlightItemView,
    DocumentSymbolItem,
    DocumentSymbolItemView,
    FileEdit,
    FileEditView,
    FoldingRangeItem,
    FoldingRangeItemView,
    InlayHintItem,
    InlayHintItemView,
    LinkedEditingRangeItem,
    LinkedEditingRangeItemView,
    Location,
    LocationView,
    ParameterInfo,
    ParameterInfoView,
    RangeItem,
    SelectionRangeItem,
    SelectionRangeItemView,
    SemanticTokenItem,
    SemanticTokenItemView,
    SignatureInfo,
    SignatureInfoView,
    TextEdit,
    TextEditView,
    WorkspaceEdit,
    WorkspaceEditView,
};
use crate::lsp::wire;
use crate::lsp::wire::Wire;

verus! {

/// Whether an object has a number where there is one, and lacks the member where
/// there is none.
pub open spec fn has_maybe_number(j: JsonView, key: Seq<char>, n: Option<u32>) -> bool {
    match n {
        Some(n) => shapes::has_number(j, key, n as int),
        None => shapes::lacks(j, key),
    }
}

/// Whether an object has a truth value where there is one, and lacks the member
/// where there is none.
pub open spec fn has_maybe_flag(j: JsonView, key: Seq<char>, b: Option<bool>) -> bool {
    match b {
        Some(b) => shapes::has(j, key, JsonView::Bool(b)),
        None => shapes::lacks(j, key),
    }
}

/// Whether an object has a text where there is one, and null where there is
/// none.
pub open spec fn has_or_null(j: JsonView, key: Seq<char>, s: Option<Seq<char>>) -> bool {
    match s {
        Some(s) => shapes::has_text(j, key, s),
        None => shapes::has(j, key, JsonView::Null),
    }
}

/// Whether an object has a list of texts.
pub open spec fn has_texts(j: JsonView, key: Seq<char>, list: Seq<Seq<char>>) -> bool {
    &&& shapes::holds(j, key)
    &&& shapes::member(j, key) matches JsonView::Array(items) && items.len() == list.len()
        && forall|i: int| 0 <= i < list.len() ==> shapes::is_text(items[i], #[trigger] list[i])
}

/// Whether a value is a list of the written forms of values, in order.
pub open spec fn is_each<T: Wire>(j: JsonView, list: Seq<T::V>) -> bool {
    j matches JsonView::Array(items) && items.len() == list.len() && forall|i: int|
        0 <= i < list.len() ==> #[trigger] items[i] == T::wire(list[i])
}

/// Whether an object has a list of the written forms of values, in order.
pub open spec fn has_each<T: Wire>(j: JsonView, key: Seq<char>, list: Seq<T::V>) -> bool {
    shapes::holds(j, key) && is_each::<T>(shapes::member(j, key), list)
}

/// A list is written item by item, and none is left out.
pub proof fn law_lists_are_written<T: Wire>(list: Seq<T::V>)
    ensures
        is_each::<T>(wire::wire_list::<T>(list), list),
{
}

proof fn lemma_texts(list: Seq<Seq<char>>)
    ensures
        json::strings_view(list) matches JsonView::Array(items) && items.len() == list.len()
            && forall|i: int| 0 <= i < list.len() ==> shapes::is_text(items[i], #[trigger] list[i]),
{
}

/// A range is written with every part under its name.
pub proof fn law_range_is_written(v: RangeItem)
    ensures
        ({
            let j = <RangeItem as Wire>::wire(v);
            &&& shapes::has_number(j, "line"@, v.line as int)
            &&& shapes::has_number(j, "character"@, v.character as int)
            &&& shapes::has_number(j, "end_line"@, v.end_line as int)
            &&& shapes::has_number(j, "end_character"@, v.end_character as int)
        }),
{
    reveal_strlit("line");
    reveal_strlit("character");
    reveal_strlit("end_line");
    reveal_strlit("end_character");
    assert("line"@.len() == 4);
    assert("character"@.len() == 9);
    assert("end_line"@.len() == 8);
    assert("end_character"@.len() == 13);
}

/// An edit is written with every part under its name.
pub proof fn law_edit_is_written(v: TextEditView)
    ensures
        ({
            let j = <TextEdit as Wire>::wire(v);
            &&& shapes::has_number(j, "line"@, v.line as int)
            &&& shapes::has_number(j, "character"@, v.character as int)
            &&& shapes::has_number(j, "end_line"@, v.end_line as int)
            &&& shapes::has_number(j, "end_character"@, v.end_character as int)
            &&& shapes::has_text(j, "new_text"@, v.new_text)
        }),
{
    reveal_strlit("line");
    reveal_strlit("character");
    reveal_strlit("end_line");
    reveal_strlit("end_character");
    reveal_strlit("new_text");
    assert("line"@.len() == 4);
    assert("character"@.len() == 9);
    assert("end_line"@.len() == 8);
    assert("end_character"@.len() == 13);
    assert("new_text"@.len() == 8);
    assert("end_line"@[0] != "new_text"@[0]);
}

/// A completion item is written with every part under its name.
pub proof fn law_item_is_written(v: CompletionItemView)
    ensures
        ({
            let j = <CompletionItem as Wire>::wire(v);
            &&& shapes::has_text(j, "label"@, v.label)
            &&& shapes::has_maybe(j, "kind"@, v.kind)
            &&& shapes::has_maybe(j, "detail"@, v.detail)
            &&& shapes::has_maybe(j, "documentation"@, v.documentation)
            &&& shapes::has_maybe(j, "insert_text"@, v.insert_text)
            &&& match v.text_edit {
                Some(x) => shapes::has(j, "text_edit"@, <TextEdit as Wire>::wire(x)),
                None => shapes::lacks(j, "text_edit"@),
            }
            &&& if v.additional_text_edits.len() == 0 {
                shapes::lacks(j, "additional_text_edits"@)
            } else {
                has_each::<TextEdit>(j, "additional_text_edits"@, v.additional_text_edits)
            }
            &&& if v.commit_characters.len() == 0 {
                shapes::lacks(j, "commit_characters"@)
            } else {
                has_texts(j, "commit_characters"@, v.commit_characters)
            }
            &&& has_maybe_flag(j, "preselect"@, v.preselect)
            &&& shapes::has_maybe(j, "sort_text"@, v.sort_text)
            &&& shapes::has_maybe(j, "filter_text"@, v.filter_text)
            &&& shapes::has_number(j, "index"@, v.index as int)
            &&& has_maybe_flag(j, "is_snippet"@, v.is_snippet)
        }),
{
    reveal_strlit("label");
    reveal_strlit("kind");
    reveal_strlit("detail");
    reveal_strlit("documentation");
    reveal_strlit("insert_text");
    reveal_strlit("text_edit");
    reveal_strlit("additional_text_edits");
    reveal_strlit("commit_characters");
    reveal_strlit("preselect");
    reveal_strlit("sort_text");
    reveal_strlit("filter_text");
    reveal_strlit("index");
    reveal_strlit("is_snippet");
    assert("label"@.len() == 5);
    assert("kind"@.len() == 4);
    assert("detail"@.len() == 6);
    assert("documentation"@.len() == 13);
    assert("insert_text"@.len() == 11);
    assert("text_edit"@.len() == 9);
    assert("additional_text_edits"@.len() == 21);
    assert("commit_characters"@.len() == 17);
    assert("preselect"@.len() == 9);
    assert("sort_text"@.len() == 9);
    assert("filter_text"@.len() == 11);
    assert("index"@.len() == 5);
    assert("is_snippet"@.len() == 10);
    assert("label"@[0] != "index"@[0]);
    assert("insert_text"@[0] != "filter_text"@[0]);
    assert("text_edit"@[0] != "preselect"@[0]);
    assert("text_edit"@[0] != "sort_text"@[0]);
    assert("preselect"@[0] != "sort_text"@[0]);
    law_lists_are_written::<TextEdit>(v.additional_text_edits);
    lemma_texts(v.commit_characters);
}

/// A location is written with every part under its name.
pub proof fn law_location_is_written(v: LocationView)
    ensures
        ({
            let j = <Location as Wire>::wire(v);
            &&& shapes::has_text(j, "uri"@, v.uri)
            &&& shapes::has_number(j, "line"@, v.line as int)
            &&& shapes::has_number(j, "character"@, v.character as int)
            &&& has_maybe_number(j, "end_line"@, v.end_line)
            &&& has_maybe_number(j, "end_character"@, v.end_character)
        }),
{
    reveal_strlit("uri");
    reveal_strlit("line");
    reveal_strlit("character");
    reveal_strlit("end_line");
    reveal_strlit("end_character");
    assert("uri"@.len() == 3);
    assert("line"@.len() == 4);
    assert("character"@.len() == 9);
    assert("end_line"@.len() == 8);
    assert("end_character"@.len() == 13);
}

/// A diagnostic is written with every part under its name.
pub proof fn law_diagnostic_is_written(v: DiagnosticItemView)
    ensures
        ({
            let j = <DiagnosticItem as Wire>::wire(v);
            &&& shapes::has_number(j, "line"@, v.line as int)
            &&& shapes::has_number(j, "character"@, v.character as int)
            &&& shapes::has_number(j, "end_line"@, v.end_line as int)
            &&& shapes::has_number(j, "end_character"@, v.end_character as int)
            &&& shapes::has_number(j, "severity"@, v.severity as int)
            &&& shapes::has_text(j, "message"@, v.message)
            &&& shapes::has_maybe(j, "source"@, v.source)
            &&& shapes::has_maybe(j, "code"@, v.code)
        }),
{
    reveal_strlit("line");
    reveal_strlit("character");
    reveal_strlit("end_line");
    reveal_strlit("end_character");
    reveal_strlit("severity");
    reveal_strlit("message");
    reveal_strlit("source");
    reveal_strlit("code");
    assert("line"@.len() == 4);
    assert("character"@.len() == 9);
    assert("end_line"@.len() == 8);
    assert("end_character"@.len() == 13);
    assert("severity"@.len() == 8);
    assert("message"@.len() == 7);
    assert("source"@.len() == 6);
    assert("code"@.len() == 4);
    assert("line"@[0] != "code"@[0]);
    assert("end_line"@[0] != "severity"@[0]);
}

/// A code action is written with every part under its name.
pub proof fn law_action_is_written(v: CodeActionView)
    ensures
        ({
            let j = <CodeAction as Wire>::wire(v);
            &&& shapes::has_text(j, "title"@, v.title)
            &&& has_or_null(j, "kind"@, v.kind)
            &&& shapes::has_number(j, "index"@, v.index as int)
        }),
{
    reveal_strlit("title");
    reveal_strlit("kind");
    reveal_strlit("index");
    assert("title"@.len() == 5);
    assert("kind"@.len() == 4);
    assert("index"@.len() == 5);
    assert("title"@[0] != "index"@[0]);
}

/// A parameter is written with every part under its name.
pub proof fn law_parameter_is_written(v: ParameterInfoView)
    ensures
        ({
            let j = <ParameterInfo as Wire>::wire(v);
            &&& shapes::has_text(j, "label"@, v.label)
            &&& shapes::has_maybe(j, "documentation"@, v.documentation)
        }),
{
    reveal_strlit("label");
    reveal_strlit("documentation");
    assert("label"@.len() == 5);
    assert("documentation"@.len() == 13);
}

/// A signature is written with every part under its name.
pub proof fn law_signature_is_written(v: SignatureInfoView)
    ensures
        ({
            let j = <SignatureInfo as Wire>::wire(v);
            &&& shapes::has_text(j, "label"@, v.label)
            &&& shapes::has_maybe(j, "documentation"@, v.documentation)
            &&& has_maybe_number(j, "active_parameter"@, v.active_parameter)
            &&& has_each::<ParameterInfo>(j, "parameters"@, v.parameters)
        }),
{
    reveal_strlit("label");
    reveal_strlit("documentation");
    reveal_strlit("active_parameter");
    reveal_strlit("parameters");
    assert("label"@.len() == 5);
    assert("documentation"@.len() == 13);
    assert("active_parameter"@.len() == 16);
    assert("parameters"@.len() == 10);
    law_lists_are_written::<ParameterInfo>(v.parameters);
}

/// The edits of a file are written with every part under its name.
pub proof fn law_file_edit_is_written(v: FileEditView)
    ensures
        ({
            let j = <FileEdit as Wire>::wire(v);
            &&& shapes::has_text(j, "uri"@, v.uri)
            &&& has_each::<TextEdit>(j, "edits"@, v.edits)
        }),
{
    reveal_strlit("uri");
    reveal_strlit("edits");
    assert("uri"@.len() == 3);
    assert("edits"@.len() == 5);
    law_lists_are_written::<TextEdit>(v.edits);
}

/// A workspace edit is written with every part under its name.
pub proof fn law_workspace_edit_is_written(v: WorkspaceEditView)
    ensures
        ({
            let j = <WorkspaceEdit as Wire>::wire(v);
            &&& has_each::<FileEdit>(j, "changes"@, v.changes)
        }),
{
    reveal_strlit("changes");
    law_lists_are_written::<FileEdit>(v.changes);
}

/// A highlight is written with every part under its name.
pub proof fn law_highlight_is_written(v: DocumentHighlightItemView)
    ensures
        ({
            let j = <DocumentHighlightItem as Wire>::wire(v);
            &&& shapes::has_number(j, "line"@, v.line as int)
            &&& shapes::has_number(j, "character"@, v.character as int)
            &&& shapes::has_number(j, "end_line"@, v.end_line as int)
            &&& shapes::has_number(j, "end_character"@, v.end_character as int)
            &&& shapes::has_text(j, "kind"@, v.kind)
        }),
{
    reveal_strlit("line");
    reveal_strlit("character");
    reveal_strlit("end_line");
    reveal_strlit("end_character");
    reveal_strlit("kind");
    assert("line"@.len() == 4);
    assert("character"@.len() == 9);
    assert("end_line"@.len() == 8);
    assert("end_character"@.len() == 13);
    assert("kind"@.len() == 4);
    assert("line"@[0] != "kind"@[0]);
}

/// A hint is written with every part under its name.
pub proof fn law_hint_is_written(v: InlayHintItemView)
    ensures
        ({
            let j = <InlayHintItem as Wire>::wire(v);
            &&& shapes::has_number(j, "line"@, v.line as int)
            &&& shapes::has_number(j, "character"@, v.character as int)
            &&& shapes::has_text(j, "label"@, v.label)
            &&& shapes::has_text(j, "kind"@, v.kind)
            &&& shapes::has(j, "padding_left"@, JsonView::Bool(v.padding_left))
            &&& shapes::has(j, "padding_right"@, JsonView::Bool(v.padding_right))
        }),
{
    reveal_strlit("line");
    reveal_strlit("character");
    reveal_strlit("label");
    reveal_strlit("kind");
    reveal_strlit("padding_left");
    reveal_strlit("padding_right");
    assert("line"@.len() == 4);
    assert("character"@.len() == 9);
    assert("label"@.len() == 5);
    assert("kind"@.len() == 4);
    assert("padding_left"@.len() == 12);
    assert("padding_right"@.len() == 13);
    assert("line"@[0] != "kind"@[0]);
}

/// An item of a hierarchy is written with every part under its name.
pub proof fn law_hierarchy_item_is_written(v: CallHierarchyItemView)
    ensures
        ({
            let j = <CallHierarchyItem as Wire>::wire(v);
            &&& shapes::has_text(j, "name"@, v.name)
            &&& shapes::has_text(j, "kind"@, v.kind)
            &&& shapes::has_text(j, "uri"@, v.uri)
            &&& shapes::has_number(j, "line"@, v.line as int)
            &&& shapes::has_number(j, "character"@, v.character as int)
            &&& shapes::has_maybe(j, "detail"@, v.detail)
        }),
{
    reveal_strlit("name");
    reveal_strlit("kind");
    reveal_strlit("uri");
    reveal_strlit("line");
    reveal_strlit("character");
    reveal_strlit("detail");
    assert("name"@.len() == 4);
    assert("kind"@.len() == 4);
    assert("uri"@.len() == 3);
    assert("line"@.len() == 4);
    assert("character"@.len() == 9);
    assert("detail"@.len() == 6);
    assert("name"@[0] != "kind"@[0]);
    assert("name"@[0] != "line"@[0]);
    assert("kind"@[0] != "line"@[0]);
}

/// A call is written with every part under its name.
pub proof fn law_call_is_written(v: CallHierarchyCallView)
    ensures
        ({
            let j = <CallHierarchyCall as Wire>::wire(v);
            &&& shapes::has(j, "item"@, <CallHierarchyItem as Wire>::wire(v.item))
            &&& has_each::<RangeItem>(j, "from_ranges"@, v.from_ranges)
        }),
{
    reveal_strlit("item");
    reveal_strlit("from_ranges");
    assert("item"@.len() == 4);
    assert("from_ranges"@.len() == 11);
    law_lists_are_written::<RangeItem>(v.from_ranges);
}

/// A token is written with every part under its name.
pub proof fn law_token_is_written(v: SemanticTokenItemView)
    ensures
        ({
            let j = <SemanticTokenItem as Wire>::wire(v);
            &&& shapes::has_number(j, "line"@, v.line as int)
            &&& shapes::has_number(j, "start"@, v.start as int)
            &&& shapes::has_number(j, "length"@, v.length as int)
            &&& shapes::has_text(j, "token_type"@, v.token_type)
            &&& has_texts(j, "modifiers"@, v.modifiers)
        }),
{
    reveal_strlit("line");
    reveal_strlit("start");
    reveal_strlit("length");
    reveal_strlit("token_type");
    reveal_strlit("modifiers");
    assert("line"@.len() == 4);
    assert("start"@.len() == 5);
    assert("length"@.len() == 6);
    assert("token_type"@.len() == 10);
    assert("modifiers"@.len() == 9);
    lemma_texts(v.modifiers);
}

/// A lens is written with every part under its name.
pub proof fn law_lens_is_written(v: CodeLensItemView)
    ensures
        ({
            let j = <CodeLensItem as Wire>::wire(v);
            &&& shapes::has_number(j, "line"@, v.line as int)
            &&& shapes::has_number(j, "character"@, v.character as int)
            &&& shapes::has_number(j, "end_line"@, v.end_line as int)
            &&& shapes::has_number(j, "end_character"@, v.end_character as int)
            &&& shapes::has_maybe(j, "command_title"@, v.command_title)
            &&& shapes::has_number(j, "index"@, v.index as int)
        }),
{
    reveal_strlit("line");
    reveal_strlit("character");
    reveal_strlit("end_line");
    reveal_strlit("end_character");
    reveal_strlit("command_title");
    reveal_strlit("index");
    assert("line"@.len() == 4);
    assert("character"@.len() == 9);
    assert("end_line"@.len() == 8);
    assert("end_character"@.len() == 13);
    assert("command_title"@.len() == 13);
    assert("index"@.len() == 5);
    assert("end_character"@[0] != "command_title"@[0]);
}

/// A fold is written with every part under its name.
pub proof fn law_fold_is_written(v: FoldingRangeItemView)
    ensures
        ({
            let j = <FoldingRangeItem as Wire>::wire(v);
            &&& shapes::has_number(j, "start_line"@, v.start_line as int)
            &&& shapes::has_number(j, "end_line"@, v.end_line as int)
            &&& shapes::has_maybe(j, "kind"@, v.kind)
        }),
{
    reveal_strlit("start_line");
    reveal_strlit("end_line");
    reveal_strlit("kind");
    assert("start_line"@.len() == 10);
    assert("end_line"@.len() == 8);
    assert("kind"@.len() == 4);
}

/// Ranges that are edited together are written with every part under its name.
pub proof fn law_linked_ranges_are_written(v: LinkedEditingRangeItemView)
    ensures
        ({
            let j = <LinkedEditingRangeItem as Wire>::wire(v);
            &&& has_each::<RangeItem>(j, "ranges"@, v.ranges)
            &&& shapes::has_maybe(j, "word_pattern"@, v.word_pattern)
        }),
{
    reveal_strlit("ranges");
    reveal_strlit("word_pattern");
    assert("ranges"@.len() == 6);
    assert("word_pattern"@.len() == 12);
    law_lists_are_written::<RangeItem>(v.ranges);
}

/// An entry of an outline is written with every part under its name, and with
/// every entry below it, in order.
pub proof fn law_outline_entry_is_written(v: DocumentSymbolItemView)
    ensures
        ({
            let j = <DocumentSymbolItem as Wire>::wire(v);
            &&& shapes::has_text(j, "name"@, v.name)
            &&& shapes::has_text(j, "kind"@, v.kind)
            &&& has_or_null(j, "detail"@, v.detail)
            &&& shapes::has_number(j, "line"@, v.line as int)
            &&& shapes::has_number(j, "character"@, v.character as int)
            &&& shapes::has_number(j, "end_line"@, v.end_line as int)
            &&& shapes::has_number(j, "end_character"@, v.end_character as int)
            &&& has_each::<DocumentSymbolItem>(j, "children"@, v.children)
        }),
{
    reveal_strlit("name");
    reveal_strlit("kind");
    reveal_strlit("detail");
    reveal_strlit("line");
    reveal_strlit("character");
    reveal_strlit("end_line");
    reveal_strlit("end_character");
    reveal_strlit("children");
    assert("name"@.len() == 4);
    assert("kind"@.len() == 4);
    assert("detail"@.len() == 6);
    assert("line"@.len() == 4);
    assert("character"@.len() == 9);
    assert("end_line"@.len() == 8);
    assert("end_character"@.len() == 13);
    assert("children"@.len() == 8);
    assert("name"@[0] != "kind"@[0]);
    assert("name"@[0] != "line"@[0]);
    assert("kind"@[0] != "line"@[0]);
    assert("end_line"@[0] != "children"@[0]);
    let j = types::symbol_wire(v);
    let below = shapes::member(j, "children"@)->Array_0;
    assert forall|i: int| 0 <= i < v.children.len() implies #[trigger] below[i]
        == types::symbol_wire(v.children[i]) by {}
}

/// A selection range is written with every part under its name, and with the
/// range around it, where there is one.
pub proof fn law_selection_range_is_written(v: SelectionRangeItemView)
    ensures
        ({
            let j = <SelectionRangeItem as Wire>::wire(v);
            &&& shapes::has_number(j, "line"@, v.line as int)
            &&& shapes::has_number(j, "character"@, v.character as int)
            &&& shapes::has_number(j, "end_line"@, v.end_line as int)
            &&& shapes::has_number(j, "end_character"@, v.end_character as int)
            &&& match v.parent {
                Some(p) => shapes::has(j, "parent"@, <SelectionRangeItem as Wire>::wire(*p)),
                None => shapes::lacks(j, "parent"@),
            }
        }),
{
    reveal_strlit("line");
    reveal_strlit("character");
    reveal_strlit("end_line");
    reveal_strlit("end_character");
    reveal_strlit("parent");
    assert("line"@.len() == 4);
    assert("character"@.len() == 9);
    assert("end_line"@.len() == 8);
    assert("end_character"@.len() == 13);
    assert("parent"@.len() == 6);
}

} // verus!
