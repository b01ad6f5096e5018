//! Where the protocol's types hold URIs.
//!
//! `lsp_types` takes no URI of more than `i32::MAX` bytes. The functions here say
//! of a value, for each type with a URI in it, whether the texts that are read as
//! URIs are short enough. Other texts may be of any length.

use vstd::prelude::*;
use vstd::utf8::*;

use crate::json;
use crate::json::{Json, JsonView};
use crate::text;

verus! {

/// Whether a text is short enough for a URI.
pub open spec fn text_fits(s: Seq<char>) -> bool {
    encode_utf8(s).len() <= i32::MAX
}

/// What a value has for a field of a type: the member under the field's name
/// or, in a list, the item at the field's place.
pub open spec fn field_of(j: JsonView, name: Seq<char>, place: int) -> JsonView {
    match j {
        JsonView::Object(m) => if m.contains_key(name) {
            m[name]
        } else {
            JsonView::Null
        },
        JsonView::Array(items) => if place < items.len() {
            items[place]
        } else {
            JsonView::Null
        },
        _ => JsonView::Null,
    }
}

/// Whether every item of a list is of some kind.
pub open spec fn all_of(j: JsonView, is: spec_fn(JsonView) -> bool) -> bool {
    match j {
        JsonView::Array(items) => forall|i: int|
            0 <= i < items.len() ==> is(#[trigger] items[i]),
        _ => true,
    }
}

/// Whether a value is short enough for a URI, where it is text.
pub open spec fn uri_fits(j: JsonView) -> bool {
    match j {
        JsonView::Str(s) => text_fits(s),
        _ => true,
    }
}

/// Whether the URI of a `Location` fits.
pub open spec fn location_fits(j: JsonView) -> bool {
    uri_fits(field_of(j, "uri"@, 0))
}

/// Whether the URIs of a list of `Location`s fit.
pub open spec fn locations_fit(j: JsonView) -> bool {
    all_of(j, |x: JsonView| location_fits(x))
}

/// Whether the URI of a `LocationLink` fits.
pub open spec fn location_link_fits(j: JsonView) -> bool {
    uri_fits(field_of(j, "targetUri"@, 1))
}

/// Whether the URIs of a list of `LocationLink`s fit.
pub open spec fn location_links_fit(j: JsonView) -> bool {
    all_of(j, |x: JsonView| location_link_fits(x))
}

/// Whether the URI of a `DocumentLink` fits.
pub open spec fn document_link_fits(j: JsonView) -> bool {
    uri_fits(field_of(j, "target"@, 1))
}

/// Whether the URIs of a list of `DocumentLink`s fit.
pub open spec fn document_links_fit(j: JsonView) -> bool {
    all_of(j, |x: JsonView| document_link_fits(x))
}

/// Whether the URI of a `DiagnosticRelatedInformation` fits.
pub open spec fn related_fits(j: JsonView) -> bool {
    location_fits(field_of(j, "location"@, 0))
}

/// Whether the URIs of a `Diagnostic` fit: that of its code's description and
/// those of related places.
pub open spec fn diagnostic_fits(j: JsonView) -> bool {
    &&& uri_fits(field_of(field_of(j, "codeDescription"@, 3), "href"@, 0))
    &&& all_of(field_of(j, "relatedInformation"@, 6), |x: JsonView| related_fits(x))
}

/// Whether the URIs of a list of `Diagnostic`s fit.
pub open spec fn diagnostics_fit(j: JsonView) -> bool {
    all_of(j, |x: JsonView| diagnostic_fits(x))
}

/// Whether the URIs of a `PublishDiagnosticsParams` fit.
pub open spec fn publish_diagnostics_fits(j: JsonView) -> bool {
    &&& uri_fits(field_of(j, "uri"@, 0))
    &&& diagnostics_fit(field_of(j, "diagnostics"@, 1))
}

/// Whether a value names a kind of operation on files, by its name or by its
/// number.
pub open spec fn is_kind(j: JsonView, name: Seq<char>, number: int) -> bool {
    j == JsonView::Str(name) || j == JsonView::Int(number)
}

/// Whether the URIs of a change to documents or files fit: an operation that
/// names its kind, or the edit of a document.
pub open spec fn change_fits(j: JsonView) -> bool {
    let kind = field_of(j, "kind"@, 0);
    &&& is_kind(kind, "create"@, 0) || is_kind(kind, "delete"@, 2) ==> uri_fits(
        field_of(j, "uri"@, 1),
    )
    &&& is_kind(kind, "rename"@, 1) ==> uri_fits(field_of(j, "oldUri"@, 1)) && uri_fits(
        field_of(j, "newUri"@, 2),
    )
    &&& uri_fits(field_of(field_of(j, "textDocument"@, 0), "uri"@, 0))
}

/// Whether every key of an object is short enough for a URI.
pub open spec fn keys_fit(j: JsonView) -> bool {
    match j {
        JsonView::Object(m) => forall|k: Seq<char>| #[trigger] m.contains_key(k) ==> text_fits(k),
        _ => true,
    }
}

/// Whether the URIs of a `WorkspaceEdit` fit.
pub open spec fn workspace_edit_fits(j: JsonView) -> bool {
    &&& keys_fit(field_of(j, "changes"@, 0))
    &&& all_of(field_of(j, "documentChanges"@, 1), |x: JsonView| change_fits(x))
}

/// Whether the URIs of a `CodeAction` fit.
pub open spec fn code_action_fits(j: JsonView) -> bool {
    &&& diagnostics_fit(field_of(j, "diagnostics"@, 2))
    &&& workspace_edit_fits(field_of(j, "edit"@, 3))
}

/// Whether the URI of a `SymbolInformation` fits.
pub open spec fn symbol_information_fits(j: JsonView) -> bool {
    location_fits(field_of(j, "location"@, 4))
}

/// Whether the URIs of a list of `SymbolInformation`s fit.
pub open spec fn symbol_informations_fit(j: JsonView) -> bool {
    all_of(j, |x: JsonView| symbol_information_fits(x))
}

/// Whether the URI of an `InlayHintLabelPart` fits.
pub open spec fn label_part_fits(j: JsonView) -> bool {
    location_fits(field_of(j, "location"@, 2))
}

/// Whether the URIs of an `InlayHint` fit.
pub open spec fn inlay_hint_fits(j: JsonView) -> bool {
    all_of(field_of(j, "label"@, 1), |x: JsonView| label_part_fits(x))
}

/// Whether the URIs of a list of `InlayHint`s fit.
pub open spec fn inlay_hints_fit(j: JsonView) -> bool {
    all_of(j, |x: JsonView| inlay_hint_fits(x))
}

/// Whether the URI of a `CallHierarchyItem` or a `TypeHierarchyItem` fits.
pub open spec fn hierarchy_item_fits(j: JsonView) -> bool {
    uri_fits(field_of(j, "uri"@, 4))
}

/// Whether the URIs of a list of such items fit.
pub open spec fn hierarchy_items_fit(j: JsonView) -> bool {
    all_of(j, |x: JsonView| hierarchy_item_fits(x))
}

/// Whether the URI of a `CallHierarchyIncomingCall` fits.
pub open spec fn incoming_call_fits(j: JsonView) -> bool {
    hierarchy_item_fits(field_of(j, "from"@, 0))
}

/// Whether the URIs of a list of `CallHierarchyIncomingCall`s fit.
pub open spec fn incoming_calls_fit(j: JsonView) -> bool {
    all_of(j, |x: JsonView| incoming_call_fits(x))
}

/// Whether the URI of a `CallHierarchyOutgoingCall` fits.
pub open spec fn outgoing_call_fits(j: JsonView) -> bool {
    hierarchy_item_fits(field_of(j, "to"@, 0))
}

/// Whether the URIs of a list of `CallHierarchyOutgoingCall`s fit.
pub open spec fn outgoing_calls_fit(j: JsonView) -> bool {
    all_of(j, |x: JsonView| outgoing_call_fits(x))
}

// ---------------------------------------------------------------------------
// Executable forms
// ---------------------------------------------------------------------------

fn text_ok(s: &str) -> (r: bool)
    ensures
        r == text_fits(s@),
{
    s.as_bytes().len() <= 0x7fff_ffff
}

/// What a value has for a field; nothing stands for null.
pub open spec fn or_null(o: Option<&Json>) -> JsonView {
    match o {
        Some(j) => j@,
        None => JsonView::Null,
    }
}

fn field<'a>(j: Option<&'a Json>, name: &str, place: usize) -> (r: Option<&'a Json>)
    ensures
        or_null(r) == field_of(or_null(j), name@, place as int),
{
    broadcast use json::lemma_array_view;

    match j {
        Some(Json::Object(_)) => match j {
            Some(x) => x.get(name),
            None => None,
        },
        Some(Json::Array(items)) => if place < items.len() {
            Some(&items[place])
        } else {
            None
        },
        _ => None,
    }
}

fn uri_ok(j: Option<&Json>) -> (r: bool)
    ensures
        r == uri_fits(or_null(j)),
{
    match j {
        Some(Json::Str(s)) => text_ok(s.as_str()),
        _ => true,
    }
}

fn all_ok<F: Fn(Option<&Json>) -> bool>(
    j: Option<&Json>,
    is_ok: F,
    Ghost(fits): Ghost<spec_fn(JsonView) -> bool>,
) -> (r: bool)
    requires
        forall|x: Option<&Json>| call_requires(is_ok, (x,)),
        forall|x: Option<&Json>, b: bool|
            #[trigger] call_ensures(is_ok, (x,), b) ==> b == fits(or_null(x)),
    ensures
        r == all_of(or_null(j), fits),
{
    broadcast use json::lemma_array_view;

    if let Some(Json::Array(items)) = j {
        let ghost all = json::items_view(items@);
        let mut i: usize = 0;
        while i < items.len()
            invariant
                i <= items@.len(),
                all == json::items_view(items@),
                or_null(j) == JsonView::Array(all),
                forall|x: Option<&Json>| call_requires(is_ok, (x,)),
                forall|x: Option<&Json>, b: bool|
                    #[trigger] call_ensures(is_ok, (x,), b) ==> b == fits(or_null(x)),
                forall|k: int| 0 <= k < i ==> fits(#[trigger] all[k]),
            decreases items@.len() - i,
        {
            let item = Some(&items[i]);
            let ok = is_ok(item);
            assert(or_null(item) == all[i as int]);
            if !ok {
                assert(!fits(all[i as int]));
                assert(or_null(j)->Array_0 == all);
                return false;
            }
            i = i + 1;
        }
        assert(or_null(j)->Array_0 == all);
    }
    true
}

/// Whether the URI of a `Location` fits.
pub fn location_ok(j: Option<&Json>) -> (r: bool)
    ensures
        r == location_fits(or_null(j)),
{
    uri_ok(field(j, "uri", 0))
}

/// Whether the URIs of a list of `Location`s fit.
pub fn locations_ok(j: Option<&Json>) -> (r: bool)
    ensures
        r == locations_fit(or_null(j)),
{
    all_ok(j, location_ok, Ghost(|x: JsonView| location_fits(x)))
}

fn location_link_ok(j: Option<&Json>) -> (r: bool)
    ensures
        r == location_link_fits(or_null(j)),
{
    uri_ok(field(j, "targetUri", 1))
}

/// Whether the URIs of a list of `LocationLink`s fit.
pub fn location_links_ok(j: Option<&Json>) -> (r: bool)
    ensures
        r == location_links_fit(or_null(j)),
{
    all_ok(j, location_link_ok, Ghost(|x: JsonView| location_link_fits(x)))
}

fn document_link_ok(j: Option<&Json>) -> (r: bool)
    ensures
        r == document_link_fits(or_null(j)),
{
    uri_ok(field(j, "target", 1))
}

/// Whether the URIs of a list of `DocumentLink`s fit.
pub fn document_links_ok(j: Option<&Json>) -> (r: bool)
    ensures
        r == document_links_fit(or_null(j)),
{
    all_ok(j, document_link_ok, Ghost(|x: JsonView| document_link_fits(x)))
}

fn related_ok(j: Option<&Json>) -> (r: bool)
    ensures
        r == related_fits(or_null(j)),
{
    location_ok(field(j, "location", 0))
}

fn diagnostic_ok(j: Option<&Json>) -> (r: bool)
    ensures
        r == diagnostic_fits(or_null(j)),
{
    uri_ok(field(field(j, "codeDescription", 3), "href", 0)) && all_ok(
        field(j, "relatedInformation", 6),
        related_ok,
        Ghost(|x: JsonView| related_fits(x)),
    )
}

/// Whether the URIs of a list of `Diagnostic`s fit.
pub fn diagnostics_ok(j: Option<&Json>) -> (r: bool)
    ensures
        r == diagnostics_fit(or_null(j)),
{
    all_ok(j, diagnostic_ok, Ghost(|x: JsonView| diagnostic_fits(x)))
}

/// Whether the URIs of a `PublishDiagnosticsParams` fit.
pub fn publish_diagnostics_ok(j: Option<&Json>) -> (r: bool)
    ensures
        r == publish_diagnostics_fits(or_null(j)),
{
    uri_ok(field(j, "uri", 0)) && diagnostics_ok(field(j, "diagnostics", 1))
}

fn has_kind(j: Option<&Json>, name: &str, number: u8) -> (r: bool)
    ensures
        r == is_kind(or_null(j), name@, number as int),
{
    match j {
        Some(Json::Str(s)) => text::str_eq(s.as_str(), name),
        Some(Json::UInt(n)) => *n == number as u64,
        Some(Json::NegInt(n)) => *n == number as i64,
        _ => false,
    }
}

fn change_ok(j: Option<&Json>) -> (r: bool)
    ensures
        r == change_fits(or_null(j)),
{
    let kind = field(j, "kind", 0);
    if has_kind(kind, "create", 0) || has_kind(kind, "delete", 2) {
        if !uri_ok(field(j, "uri", 1)) {
            return false;
        }
    }
    if has_kind(kind, "rename", 1) {
        if !uri_ok(field(j, "oldUri", 1)) || !uri_ok(field(j, "newUri", 2)) {
            return false;
        }
    }
    uri_ok(field(field(j, "textDocument", 0), "uri", 0))
}

fn keys_ok(j: Option<&Json>) -> (r: bool)
    ensures
        r == keys_fit(or_null(j)),
{
    if let Some(Json::Object(entries)) = j {
        let ghost m = json::entries_view(entries@);
        assert(or_null(j) == JsonView::Object(m));
        assert(or_null(j)->Object_0 == m);
        let mut i: usize = 0;
        while i < entries.len()
            invariant
                i <= entries@.len(),
                m == json::entries_view(entries@),
                or_null(j) == JsonView::Object(m),
                or_null(j)->Object_0 == m,
                forall|k: int| 0 <= k < i ==> text_fits((#[trigger] entries@[k]).0@),
            decreases entries@.len() - i,
        {
            let key = entries[i].0.as_str();
            if !text_ok(key) {
                proof {
                    json::lemma_entry_keys(entries@, key@);
                    assert(entries@[i as int].0@ == key@);
                    assert(m.contains_key(key@));
                }
                return false;
            }
            i = i + 1;
        }
        assert forall|k: Seq<char>| #[trigger] m.contains_key(k) implies text_fits(k) by {
            json::lemma_entry_keys(entries@, k);
            let e = choose|e: int| 0 <= e < entries@.len() && (#[trigger] entries@[e]).0@ == k;
            assert(text_fits(entries@[e].0@));
        }
    }
    true
}

/// Whether the URIs of a `WorkspaceEdit` fit.
pub fn workspace_edit_ok(j: Option<&Json>) -> (r: bool)
    ensures
        r == workspace_edit_fits(or_null(j)),
{
    keys_ok(field(j, "changes", 0)) && all_ok(
        field(j, "documentChanges", 1),
        change_ok,
        Ghost(|x: JsonView| change_fits(x)),
    )
}

/// Whether the URIs of a `CodeAction` fit.
pub fn code_action_ok(j: Option<&Json>) -> (r: bool)
    ensures
        r == code_action_fits(or_null(j)),
{
    diagnostics_ok(field(j, "diagnostics", 2)) && workspace_edit_ok(field(j, "edit", 3))
}

fn symbol_information_ok(j: Option<&Json>) -> (r: bool)
    ensures
        r == symbol_information_fits(or_null(j)),
{
    location_ok(field(j, "location", 4))
}

/// Whether the URIs of a list of `SymbolInformation`s fit.
pub fn symbol_informations_ok(j: Option<&Json>) -> (r: bool)
    ensures
        r == symbol_informations_fit(or_null(j)),
{
    all_ok(j, symbol_information_ok, Ghost(|x: JsonView| symbol_information_fits(x)))
}

fn label_part_ok(j: Option<&Json>) -> (r: bool)
    ensures
        r == label_part_fits(or_null(j)),
{
    location_ok(field(j, "location", 2))
}

fn inlay_hint_ok(j: Option<&Json>) -> (r: bool)
    ensures
        r == inlay_hint_fits(or_null(j)),
{
    all_ok(field(j, "label", 1), label_part_ok, Ghost(|x: JsonView| label_part_fits(x)))
}

/// Whether the URIs of a list of `InlayHint`s fit.
pub fn inlay_hints_ok(j: Option<&Json>) -> (r: bool)
    ensures
        r == inlay_hints_fit(or_null(j)),
{
    all_ok(j, inlay_hint_ok, Ghost(|x: JsonView| inlay_hint_fits(x)))
}

/// Whether the URI of a `CallHierarchyItem` or a `TypeHierarchyItem` fits.
pub fn hierarchy_item_ok(j: Option<&Json>) -> (r: bool)
    ensures
        r == hierarchy_item_fits(or_null(j)),
{
    uri_ok(field(j, "uri", 4))
}

/// Whether the URIs of a list of such items fit.
pub fn hierarchy_items_ok(j: Option<&Json>) -> (r: bool)
    ensures
        r == hierarchy_items_fit(or_null(j)),
{
    all_ok(j, hierarchy_item_ok, Ghost(|x: JsonView| hierarchy_item_fits(x)))
}

fn incoming_call_ok(j: Option<&Json>) -> (r: bool)
    ensures
        r == incoming_call_fits(or_null(j)),
{
    hierarchy_item_ok(field(j, "from", 0))
}

/// Whether the URIs of a list of `CallHierarchyIncomingCall`s fit.
pub fn incoming_calls_ok(j: Option<&Json>) -> (r: bool)
    ensures
        r == incoming_calls_fit(or_null(j)),
{
    all_ok(j, incoming_call_ok, Ghost(|x: JsonView| incoming_call_fits(x)))
}

fn outgoing_call_ok(j: Option<&Json>) -> (r: bool)
    ensures
        r == outgoing_call_fits(or_null(j)),
{
    hierarchy_item_ok(field(j, "to", 0))
}

/// Whether the URIs of a list of `CallHierarchyOutgoingCall`s fit.
pub fn outgoing_calls_ok(j: Option<&Json>) -> (r: bool)
    ensures
        r == outgoing_calls_fit(or_null(j)),
{
    all_ok(j, outgoing_call_ok, Ghost(|x: JsonView| outgoing_call_fits(x)))
}

} // verus!
