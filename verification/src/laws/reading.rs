//! What the values of a server come to.

use vstd::prelude::*;
use vstd::string::*;

use crate::json;
use crate::json::JsonView;
use crate::laws::shapes;
use crate::lsp::completion;
use crate::lsp::features;
use crate::lsp::read;
use crate::lsp::types;
use crate::lsp::types::{
    DocumentSymbolItemView, FileEditView, RangeItem, TextEdit, TextEditView, WorkspaceEditView,
};
use crate::lsp::wire;
use crate::seqs;

verus! {

// ---------------------------------------------------------------------------
// Edits
// ---------------------------------------------------------------------------

/// Whether an edit is over a range and puts a text in its place.
pub open spec fn replaces(e: TextEditView, r: RangeItem, new_text: Seq<char>) -> bool {
    &&& e.line == r.line
    &&& e.character == r.character
    &&& e.end_line == r.end_line
    &&& e.end_character == r.end_character
    &&& e.new_text == new_text
}

/// Whether there is an edit, over a range and with a text.
pub open spec fn edits_as(e: Option<TextEditView>, r: RangeItem, new_text: Seq<char>) -> bool {
    e matches Some(e) && replaces(e, r, new_text)
}

/// Whether a value is an edit of the protocol over a range.
pub open spec fn is_lsp_edit(j: JsonView, r: RangeItem, new_text: Seq<char>) -> bool {
    shapes::spans(j, "range"@, r) && shapes::has_text(j, "newText"@, new_text)
}

/// Each edit of a list is read over its own range and with its own text, and no
/// edit is left out.
pub proof fn law_edits_are_read(items: Seq<JsonView>, i: int, r: RangeItem, new_text: Seq<char>)
    requires
        0 <= i < items.len(),
        is_lsp_edit(items[i], r, new_text),
    ensures
        wire::lsp_list::<TextEdit>(items).len() == items.len(),
        replaces(wire::lsp_list::<TextEdit>(items)[i], r, new_text),
{
}

/// Whether a change to documents edits the text of one.
pub open spec fn changes_text(j: JsonView) -> bool {
    shapes::holds(j, "edits"@)
}

/// How many of the first changes edit text.
pub open spec fn text_changes(items: Seq<JsonView>, n: int) -> nat
    decreases n,
{
    if n <= 0 {
        0
    } else if changes_text(items[n - 1]) {
        text_changes(items, n - 1) + 1
    } else {
        text_changes(items, n - 1)
    }
}

/// Whether a file edit holds exactly the edits of a list, in order.
pub open spec fn holds_edits(f: FileEditView, items: Seq<JsonView>) -> bool {
    &&& f.edits.len() == items.len()
    &&& forall|k: int, r: RangeItem, new_text: Seq<char>|
        0 <= k < items.len() && #[trigger] is_lsp_edit(items[k], r, new_text) ==> replaces(
            f.edits[k],
            r,
            new_text,
        )
}

proof fn lemma_filter_places(items: Seq<JsonView>, n: int)
    requires
        0 <= n <= items.len(),
    ensures
        items.take(n).filter(|j: JsonView| types::edits_text(j)).len() == text_changes(items, n),
        forall|k: int|
            0 <= k < n && changes_text(#[trigger] items[k]) ==> text_changes(items, k)
                < text_changes(items, n) && items.take(n).filter(
                |j: JsonView| types::edits_text(j),
            )[text_changes(items, k) as int] == items[k],
    decreases n,
{
    let p = |j: JsonView| types::edits_text(j);
    if n == 0 {
        seqs::lemma_filter_start(items, p);
    } else {
        lemma_filter_places(items, n - 1);
        seqs::lemma_filter_step(items, n - 1, p);
        assert(p(items[n - 1]) == changes_text(items[n - 1]));
    }
}

/// A workspace edit names every file of `changes` once, with all of its edits,
/// and then the edited documents of `documentChanges` in order, each with all of
/// its edits; and it names nothing else.
pub proof fn law_workspace_edits_are_complete(
    v: WorkspaceEditView,
    j: JsonView,
    changes: Map<Seq<char>, JsonView>,
    documents: Seq<JsonView>,
)
    requires
        types::is_workspace_edit_of(v, j),
        shapes::has(j, "changes"@, JsonView::Object(changes)) || (shapes::lacks(j, "changes"@)
            && changes == Map::<Seq<char>, JsonView>::empty()),
        shapes::has_list(j, "documentChanges"@, documents) || (shapes::lacks(j, "documentChanges"@)
            && documents.len() == 0),
        changes.dom().finite(),
    ensures
        v.changes.len() == changes.dom().len() + text_changes(documents, documents.len() as int),
        forall|uri: Seq<char>, edits: Seq<JsonView>|
            #![trigger shapes::has_list(JsonView::Object(changes), uri, edits)]
            shapes::has_list(JsonView::Object(changes), uri, edits) ==> exists|n: int|
                0 <= n < changes.dom().len() && (#[trigger] v.changes[n]).uri == uri && holds_edits(
                    v.changes[n],
                    edits,
                ),
        forall|n: int, m: int|
            0 <= n < m < changes.dom().len() ==> (#[trigger] v.changes[n]).uri != (
            #[trigger] v.changes[m]).uri,
        forall|k: int, document: JsonView, uri: Seq<char>, edits: Seq<JsonView>|
            #![trigger shapes::has(documents[k], "textDocument"@, document), shapes::has_text(
                document,
                "uri"@,
                uri,
            ), shapes::has_list(documents[k], "edits"@, edits)]
            0 <= k < documents.len() && shapes::has(documents[k], "textDocument"@, document)
                && shapes::has_text(document, "uri"@, uri) && shapes::has_list(
                documents[k],
                "edits"@,
                edits,
            ) ==> {
                let f = v.changes[(changes.dom().len() + text_changes(documents, k)) as int];
                f.uri == uri && holds_edits(f, edits)
            },
{
    let keys = choose|keys: Seq<Seq<char>>|
        json::arranges(keys, j.at("changes"@).members().dom()) && v.changes == #[trigger]
        types::change_edits(keys, j.at("changes"@).members()) + types::document_edits(
            j.at("documentChanges"@).items(),
        );
    let p = |x: JsonView| types::edits_text(x);
    assert(j.at("changes"@).members() == changes);
    assert(j.at("documentChanges"@).items() =~= documents);
    assert(keys.to_set() =~= changes.dom());
    keys.unique_seq_to_set();
    lemma_filter_places(documents, documents.len() as int);
    assert(documents.take(documents.len() as int) =~= documents);
    assert forall|uri: Seq<char>, edits: Seq<JsonView>|
        shapes::has_list(JsonView::Object(changes), uri, edits) implies exists|n: int|
        0 <= n < changes.dom().len() && (#[trigger] v.changes[n]).uri == uri && holds_edits(
            v.changes[n],
            edits,
        ) by {
        assert(keys.contains(uri));
        let n = choose|n: int| 0 <= n < keys.len() && keys[n] == uri;
        assert(v.changes[n].uri == uri);
        lemma_list_holds_edits(v.changes[n], edits);
    }
    assert forall|k: int, document: JsonView, uri: Seq<char>, edits: Seq<JsonView>|
        #![trigger shapes::has(documents[k], "textDocument"@, document), shapes::has_text(
            document,
            "uri"@,
            uri,
        ), shapes::has_list(documents[k], "edits"@, edits)]
        0 <= k < documents.len() && shapes::has(documents[k], "textDocument"@, document)
            && shapes::has_text(document, "uri"@, uri) && shapes::has_list(
            documents[k],
            "edits"@,
            edits,
        ) implies {
        let f = v.changes[(changes.dom().len() + text_changes(documents, k)) as int];
        f.uri == uri && holds_edits(f, edits)
    } by {
        assert(changes_text(documents[k]));
        let f = v.changes[(changes.dom().len() + text_changes(documents, k)) as int];
        let kept = documents.filter(p);
        assert(kept[text_changes(documents, k) as int] == documents[k]);
        assert(f == types::file_edit_of(documents[k]));
        lemma_list_holds_edits(f, edits);
    }
}

proof fn lemma_list_holds_edits(f: FileEditView, items: Seq<JsonView>)
    requires
        f.edits == wire::lsp_list::<TextEdit>(items),
    ensures
        holds_edits(f, items),
{
    assert forall|k: int, r: RangeItem, new_text: Seq<char>|
        0 <= k < items.len() && #[trigger] is_lsp_edit(items[k], r, new_text) implies replaces(
        f.edits[k],
        r,
        new_text,
    ) by {
        law_edits_are_read(items, k, r, new_text);
    }
}

// ---------------------------------------------------------------------------
// Completion
// ---------------------------------------------------------------------------

/// The items of an answer are all shown, in order, and each is found again by
/// its index.
pub proof fn law_items_are_all_shown(items: Seq<JsonView>, i: int)
    requires
        0 <= i < items.len() <= usize::MAX,
    ensures
        completion::shown_items(items).len() == items.len(),
        completion::shown_items(items)[i].index == i,
{
}

/// As many items of an answer are kept as were asked for, from the first on:
/// all of them where there are fewer. At least one is asked for, and at most 500.
pub proof fn law_items_are_kept_from_the_first(items: Seq<JsonView>, max_items: usize)
    ensures
        ({
            let kept = completion::kept_items(items, max_items);
            let asked = if max_items == 0 {
                1int
            } else if max_items >= 500 {
                500
            } else {
                max_items as int
            };
            &&& kept.len() == asked || (kept.len() == items.len() && items.len() < asked)
            &&& forall|i: int| 0 <= i < kept.len() ==> kept[i] == items[i]
        }),
{
}

/// An item's own edit replaces the range that it names; where it names a range
/// to replace and one to insert into, the former. An item without an edit has
/// none.
pub proof fn law_item_edits_replace_their_range(
    items: Seq<JsonView>,
    i: int,
    edit: JsonView,
    r: RangeItem,
    new_text: Seq<char>,
)
    requires
        0 <= i < items.len() <= usize::MAX,
    ensures
        shapes::has(items[i], "textEdit"@, edit) && is_lsp_edit(edit, r, new_text)
            && shapes::lacks(edit, "replace"@) ==> edits_as(
            completion::shown_items(items)[i].text_edit,
            r,
            new_text,
        ),
        shapes::has(items[i], "textEdit"@, edit) && shapes::spans(edit, "replace"@, r)
            && shapes::has_text(edit, "newText"@, new_text) ==> edits_as(
            completion::shown_items(items)[i].text_edit,
            r,
            new_text,
        ),
        shapes::lacks(items[i], "textEdit"@) ==> completion::shown_items(items)[i].text_edit is None,
{
}

/// What is inserted for an item is its text to insert, and without one the text
/// of its edit.
pub proof fn law_items_insert_their_text(
    items: Seq<JsonView>,
    i: int,
    edit: JsonView,
    inserted: Seq<char>,
    new_text: Seq<char>,
)
    requires
        0 <= i < items.len() <= usize::MAX,
    ensures
        shapes::has_text(items[i], "insertText"@, inserted) ==> completion::shown_items(
            items,
        )[i].insert_text == Some(inserted),
        shapes::lacks(items[i], "insertText"@) && shapes::has(items[i], "textEdit"@, edit)
            && edit is Object && shapes::has_text(edit, "newText"@, new_text)
            ==> completion::shown_items(items)[i].insert_text == Some(new_text),
        shapes::lacks(items[i], "insertText"@) && shapes::lacks(items[i], "textEdit"@)
            ==> completion::shown_items(items)[i].insert_text is None,
{
}

/// The extra edits of an item are all shown, each over its own range.
pub proof fn law_extra_edits_are_shown(items: Seq<JsonView>, i: int, edits: Seq<JsonView>)
    requires
        0 <= i < items.len() <= usize::MAX,
        shapes::has_list(items[i], "additionalTextEdits"@, edits) || (shapes::lacks(
            items[i],
            "additionalTextEdits"@,
        ) && edits.len() == 0),
    ensures
        holds_edits(
            (FileEditView {
                uri: Seq::empty(),
                edits: completion::shown_items(items)[i].additional_text_edits,
            }),
            edits,
        ),
{
    let shown = completion::shown_items(items)[i].additional_text_edits;
    assert(items[i].at("additionalTextEdits"@).items() =~= edits);
    lemma_list_holds_edits(FileEditView { uri: Seq::empty(), edits: shown }, edits);
}

/// The words of an item: what it is called, what it is sorted and filtered by,
/// and what is said of it. An item is filtered by its label unless it says
/// otherwise.
pub proof fn law_item_words_are_kept(
    items: Seq<JsonView>,
    i: int,
    label: Seq<char>,
    word: Seq<char>,
    doc: JsonView,
)
    requires
        0 <= i < items.len() <= usize::MAX,
        shapes::has_text(items[i], "label"@, label),
    ensures
        ({
            let j = items[i];
            let shown = completion::shown_items(items)[i];
            &&& shown.label == label
            &&& shapes::has_text(j, "filterText"@, word) ==> shown.filter_text == Some(word)
            &&& shapes::lacks(j, "filterText"@) ==> shown.filter_text == Some(label)
            &&& shapes::has_text(j, "sortText"@, word) ==> shown.sort_text == Some(word)
            &&& shapes::lacks(j, "sortText"@) ==> shown.sort_text is None
            &&& shapes::has_text(j, "detail"@, word) ==> shown.detail == Some(word)
            &&& shapes::lacks(j, "detail"@) ==> shown.detail is None
            &&& shapes::has_text(j, "documentation"@, word) ==> shown.documentation == Some(word)
            &&& shapes::has(j, "documentation"@, doc) && shapes::has_text(doc, "value"@, word)
                ==> shown.documentation == Some(word)
            &&& shapes::lacks(j, "documentation"@) ==> shown.documentation is None
        }),
{
}

/// The marks of an item: its kind by name, whether it is a snippet, whether it
/// comes selected, and the characters that accept it.
pub proof fn law_item_marks_are_kept(
    items: Seq<JsonView>,
    i: int,
    n: int,
    chars: Seq<JsonView>,
    selected: bool,
)
    requires
        0 <= i < items.len() <= usize::MAX,
    ensures
        ({
            let j = items[i];
            let shown = completion::shown_items(items)[i];
            &&& shapes::has_number(j, "kind"@, n) && 1 <= n <= 25 ==> shown.kind == Some(
                completion_kinds()[n - 1],
            )
            &&& shapes::lacks(j, "kind"@) ==> shown.kind is None
            &&& shapes::has_number(j, "insertTextFormat"@, 2) ==> shown.is_snippet == Some(true)
            &&& shapes::has_number(j, "insertTextFormat"@, 1) ==> shown.is_snippet is None
            &&& shapes::lacks(j, "insertTextFormat"@) ==> shown.is_snippet is None
            &&& shapes::has(j, "preselect"@, JsonView::Bool(selected)) ==> shown.preselect == Some(
                selected,
            )
            &&& shapes::lacks(j, "preselect"@) ==> shown.preselect is None
            &&& shapes::lacks(j, "commitCharacters"@) ==> shown.commit_characters.len() == 0
            &&& shapes::has_list(j, "commitCharacters"@, chars) ==> shown.commit_characters.len()
                == chars.len() && forall|k: int, c: Seq<char>|
                0 <= k < chars.len() && #[trigger] shapes::is_text(chars[k], c)
                    ==> shown.commit_characters[k] == c
        }),
{
    law_completion_kinds(n);
}

/// The kinds of completion items, in the order of their numbers, from one on.
pub open spec fn completion_kinds() -> Seq<Seq<char>> {
    seq![
        "Text"@,
        "Method"@,
        "Function"@,
        "Constructor"@,
        "Field"@,
        "Variable"@,
        "Class"@,
        "Interface"@,
        "Module"@,
        "Property"@,
        "Unit"@,
        "Value"@,
        "Enum"@,
        "Keyword"@,
        "Snippet"@,
        "Color"@,
        "File"@,
        "Reference"@,
        "Folder"@,
        "EnumMember"@,
        "Constant"@,
        "Struct"@,
        "Event"@,
        "Operator"@,
        "TypeParam"@,
    ]
}

/// The kinds of symbols, in the order of their numbers, from one on.
pub open spec fn symbol_kinds() -> Seq<Seq<char>> {
    seq![
        "File"@,
        "Module"@,
        "Namespace"@,
        "Package"@,
        "Class"@,
        "Method"@,
        "Property"@,
        "Field"@,
        "Constructor"@,
        "Enum"@,
        "Interface"@,
        "Function"@,
        "Variable"@,
        "Constant"@,
        "String"@,
        "Number"@,
        "Boolean"@,
        "Array"@,
        "Object"@,
        "Key"@,
        "Null"@,
        "EnumMember"@,
        "Struct"@,
        "Event"@,
        "Operator"@,
        "TypeParam"@,
    ]
}

/// Each kind of completion item has the name at its number, and a number beyond
/// them is unknown.
pub proof fn law_completion_kinds(n: int)
    ensures
        1 <= n <= 25 ==> types::completion_kind_name(n as i64) == completion_kinds()[n - 1],
        i64::MIN <= n <= i64::MAX && !(1 <= n <= 25) ==> types::completion_kind_name(n as i64)
            == "Unknown"@,
{
}

/// Each kind of symbol has the name at its number, and a number beyond them is
/// unknown.
pub proof fn law_symbol_kinds(n: int)
    ensures
        1 <= n <= 26 ==> types::symbol_kind_name(n as i64) == symbol_kinds()[n - 1],
        i64::MIN <= n <= i64::MAX && !(1 <= n <= 26) ==> types::symbol_kind_name(n as i64)
            == "Unknown"@,
{
}

// ---------------------------------------------------------------------------
// Symbols
// ---------------------------------------------------------------------------

/// Whether a path leads from a symbol of the protocol to one below it: each step
/// is a place among the children.
pub open spec fn leads_down(j: JsonView, path: Seq<int>) -> bool
    decreases path.len(),
{
    path.len() > 0 ==> {
        &&& shapes::holds(j, "children"@)
        &&& shapes::member(j, "children"@) matches JsonView::Array(items) && 0 <= path[0]
            < items.len() && leads_down(items[path[0]], path.drop_first())
    }
}

/// The symbol that a path leads to.
pub open spec fn symbol_below(j: JsonView, path: Seq<int>) -> JsonView
    decreases path.len(),
{
    if path.len() == 0 {
        j
    } else {
        symbol_below(
            shapes::member(j, "children"@)->Array_0[path[0]],
            path.drop_first(),
        )
    }
}

/// The entry of an outline that a path leads to.
pub open spec fn entry_below(v: DocumentSymbolItemView, path: Seq<int>) -> DocumentSymbolItemView
    decreases path.len(),
{
    if path.len() == 0 {
        v
    } else {
        entry_below(v.children[path[0]], path.drop_first())
    }
}

proof fn lemma_outline_path(j: JsonView, path: Seq<int>)
    requires
        leads_down(j, path),
    ensures
        entry_below(read::document_symbol_of(j), path) == read::document_symbol_of(
            symbol_below(j, path),
        ),
    decreases path.len(),
{
    if path.len() > 0 {
        let items = shapes::member(j, "children"@)->Array_0;
        lemma_outline_path(items[path[0]], path.drop_first());
        assert(read::document_symbol_of(j).children[path[0]] == read::document_symbol_of(
            items[path[0]],
        ));
    }
}

/// An outline has an entry for every symbol, at every depth: under its name, at
/// the start of what is selected for it, up to the end of what it covers, and
/// with as many entries below it as it has children.
pub proof fn law_outline_entries_are_at_their_symbols(
    syms: Seq<JsonView>,
    flat: Result<JsonView, Seq<char>>,
    i: int,
    path: Seq<int>,
    selection: RangeItem,
    range: RangeItem,
)
    requires
        0 <= i < syms.len(),
        leads_down(syms[i], path),
        shapes::spans(symbol_below(syms[i], path), "selectionRange"@, selection),
        shapes::spans(symbol_below(syms[i], path), "range"@, range),
    ensures
        ({
            let outline = features::outline_outcome(Ok(JsonView::Array(syms)), flat);
            let j = symbol_below(syms[i], path);
            let entry = entry_below(outline[i], path);
            &&& outline.len() == syms.len()
            &&& entry.line == selection.line
            &&& entry.character == selection.character
            &&& entry.end_line == range.end_line
            &&& entry.end_character == range.end_character
            &&& forall|name: Seq<char>| #[trigger]
                shapes::has_text(j, "name"@, name) ==> entry.name == name
            &&& forall|n: int| #[trigger]
                shapes::has_number(j, "kind"@, n) && 1 <= n <= 26 ==> entry.kind
                    == symbol_kinds()[n - 1]
            &&& forall|detail: Seq<char>| #[trigger]
                shapes::has_text(j, "detail"@, detail) ==> entry.detail == Some(detail)
            &&& shapes::lacks(j, "detail"@) ==> entry.detail is None
            &&& forall|below: Seq<JsonView>| #[trigger]
                shapes::has_list(j, "children"@, below) ==> entry.children.len() == below.len()
            &&& shapes::lacks(j, "children"@) ==> entry.children.len() == 0
        }),
{
    let j = symbol_below(syms[i], path);
    lemma_outline_path(syms[i], path);
    assert forall|n: int| #[trigger] shapes::has_number(j, "kind"@, n) && 1 <= n
        <= 26 implies read::document_symbol_of(j).kind == symbol_kinds()[n - 1] by {
        law_symbol_kinds(n);
    }
}

/// Whether a value names a symbol at a range of a document.
pub open spec fn is_symbol_at(j: JsonView, name: Seq<char>, uri: Seq<char>, r: RangeItem) -> bool {
    &&& shapes::has_text(j, "name"@, name)
    &&& shapes::holds(j, "location"@)
    &&& shapes::has_text(shapes::member(j, "location"@), "uri"@, uri)
    &&& shapes::spans(shapes::member(j, "location"@), "range"@, r)
}

/// Whether an entry of an outline has a name and covers a range.
pub open spec fn is_entry_at(v: DocumentSymbolItemView, name: Seq<char>, r: RangeItem) -> bool {
    &&& v.name == name
    &&& v.line == r.line
    &&& v.character == r.character
    &&& v.end_line == r.end_line
    &&& v.end_character == r.end_character
    &&& v.children.len() == 0
}

/// The symbols of a flat list are all shown, each at the range where it is; those
/// of a workspace with the document that they are in.
pub proof fn law_flat_symbols_are_at_their_ranges(
    infos: Seq<JsonView>,
    i: int,
    name: Seq<char>,
    uri: Seq<char>,
    r: RangeItem,
    error: Seq<char>,
)
    requires
        0 <= i < infos.len(),
        is_symbol_at(infos[i], name, uri, r),
    ensures
        ({
            let outline = features::outline_outcome(Err(error), Ok(JsonView::Array(infos)));
            outline.len() == infos.len() && is_entry_at(outline[i], name, r)
                && outline[i].detail is None
        }),
        read::workspace_symbols_of(infos).len() == infos.len(),
        is_entry_at(read::workspace_symbols_of(infos)[i], name, r),
        read::workspace_symbols_of(infos)[i].detail == Some(uri),
        forall|n: int| #[trigger]
            shapes::has_number(infos[i], "kind"@, n) && 1 <= n <= 26
                ==> read::workspace_symbols_of(infos)[i].kind == symbol_kinds()[n - 1]
                && features::outline_outcome(Err(error), Ok(JsonView::Array(infos)))[i].kind
                == symbol_kinds()[n - 1],
{
    assert forall|n: int| #[trigger] shapes::has_number(infos[i], "kind"@, n) && 1 <= n
        <= 26 implies read::workspace_symbols_of(infos)[i].kind == symbol_kinds()[n - 1]
        && features::outline_outcome(Err(error), Ok(JsonView::Array(infos)))[i].kind
        == symbol_kinds()[n - 1] by {
        law_symbol_kinds(n);
    }
}

} // verus!
