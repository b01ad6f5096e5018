//! What the protocol's types make of a server's messages.
//!
//! `lsp_types` decides which values a message may hold. Each function here
//! hands a value to it and returns the same value as the type writes it back:
//! the members that the type knows, under the protocol's names. The functions
//! of [`crate::lsp::types`] read that form. A value with a URI of more than
//! `i32::MAX` bytes is refused.

use vstd::prelude::*;

use crate::json;
use crate::json::{Json, JsonView};
use crate::lsp::uris;

verus! {

/// Turns a decoded value into the library's own form.
fn finish(r: Result<serde_json::Value, String>) -> (out: Result<Json, String>)
    ensures
        json::result_view(out) == json::value_result(r),
{
    match r {
        Ok(v) => Ok(json::json_of(v)),
        Err(e) => Err(e),
    }
}

/// What comes of a value with a URI that is too long.
pub open spec fn too_long() -> Result<JsonView, Seq<char>> {
    Err("URI is too long"@)
}

fn refuse_long() -> (r: Result<Json, String>)
    ensures
        json::result_view(r) == too_long(),
{
    Err("URI is too long".to_string())
}

/// What reading a value as an `InitializeResult` and writing it back gives.
pub uninterp spec fn lsp_initialize_result(j: JsonView) -> Result<JsonView, Seq<char>>;

/// `serde_json::from_value` for `lsp_types::InitializeResult`, then
/// `serde_json::to_value`: the value that comes back, or the text of the error,
/// depends on the value alone.
#[verifier::external_body]
fn initialize_result_value(value: serde_json::Value) -> (r: Result<serde_json::Value, String>)
    ensures
        json::value_result(r) == lsp_initialize_result(json::value_contents(value)),
{
    let typed = serde_json::from_value::<lsp_types::InitializeResult>(value);
    typed.and_then(serde_json::to_value).map_err(|e| e.to_string())
}

/// Reads an `InitializeResult`.
pub fn initialize_result(j: &Json) -> (r: Result<Json, String>)
    ensures
        json::result_view(r) == lsp_initialize_result(j@),
{
    finish(initialize_result_value(json::value_of(j)))
}

/// What reading a value as a list of `CompletionItem`s and writing it back
/// gives.
pub uninterp spec fn lsp_completion_items(j: JsonView) -> Result<JsonView, Seq<char>>;

/// `serde_json::from_value` for `Vec<lsp_types::CompletionItem>`, then
/// `serde_json::to_value`: the value that comes back, or the text of the error,
/// depends on the value alone.
#[verifier::external_body]
fn completion_items_value(value: serde_json::Value) -> (r: Result<serde_json::Value, String>)
    ensures
        json::value_result(r) == lsp_completion_items(json::value_contents(value)),
{
    let typed = serde_json::from_value::<Vec<lsp_types::CompletionItem>>(value);
    typed.and_then(serde_json::to_value).map_err(|e| e.to_string())
}

/// Reads a list of `CompletionItem`s.
pub fn completion_items(j: &Json) -> (r: Result<Json, String>)
    ensures
        json::result_view(r) == lsp_completion_items(j@),
{
    finish(completion_items_value(json::value_of(j)))
}

/// What reading a value as a `CompletionList` and writing it back gives.
pub uninterp spec fn lsp_completion_list(j: JsonView) -> Result<JsonView, Seq<char>>;

/// `serde_json::from_value` for `lsp_types::CompletionList`, then
/// `serde_json::to_value`: the value that comes back, or the text of the error,
/// depends on the value alone.
#[verifier::external_body]
fn completion_list_value(value: serde_json::Value) -> (r: Result<serde_json::Value, String>)
    ensures
        json::value_result(r) == lsp_completion_list(json::value_contents(value)),
{
    let typed = serde_json::from_value::<lsp_types::CompletionList>(value);
    typed.and_then(serde_json::to_value).map_err(|e| e.to_string())
}

/// Reads a `CompletionList`.
pub fn completion_list(j: &Json) -> (r: Result<Json, String>)
    ensures
        json::result_view(r) == lsp_completion_list(j@),
{
    finish(completion_list_value(json::value_of(j)))
}

/// What reading a value as a `CompletionItem` and writing it back gives.
pub uninterp spec fn lsp_completion_item(j: JsonView) -> Result<JsonView, Seq<char>>;

/// `serde_json::from_value` for `lsp_types::CompletionItem`, then
/// `serde_json::to_value`: the value that comes back, or the text of the error,
/// depends on the value alone.
#[verifier::external_body]
fn completion_item_value(value: serde_json::Value) -> (r: Result<serde_json::Value, String>)
    ensures
        json::value_result(r) == lsp_completion_item(json::value_contents(value)),
{
    let typed = serde_json::from_value::<lsp_types::CompletionItem>(value);
    typed.and_then(serde_json::to_value).map_err(|e| e.to_string())
}

/// Reads a `CompletionItem`.
pub fn completion_item(j: &Json) -> (r: Result<Json, String>)
    ensures
        json::result_view(r) == lsp_completion_item(j@),
{
    finish(completion_item_value(json::value_of(j)))
}

/// What reading a value as a `Hover` and writing it back gives.
pub uninterp spec fn lsp_hover(j: JsonView) -> Result<JsonView, Seq<char>>;

/// `serde_json::from_value` for `lsp_types::Hover`, then
/// `serde_json::to_value`: the value that comes back, or the text of the error,
/// depends on the value alone.
#[verifier::external_body]
fn hover_value(value: serde_json::Value) -> (r: Result<serde_json::Value, String>)
    ensures
        json::value_result(r) == lsp_hover(json::value_contents(value)),
{
    let typed = serde_json::from_value::<lsp_types::Hover>(value);
    typed.and_then(serde_json::to_value).map_err(|e| e.to_string())
}

/// Reads a `Hover`.
pub fn hover(j: &Json) -> (r: Result<Json, String>)
    ensures
        json::result_view(r) == lsp_hover(j@),
{
    finish(hover_value(json::value_of(j)))
}

/// What reading a value as a `Location` and writing it back gives.
pub uninterp spec fn lsp_location(j: JsonView) -> Result<JsonView, Seq<char>>;

/// What [`location`] gives.
pub open spec fn read_location(j: JsonView) -> Result<JsonView, Seq<char>> {
    if uris::location_fits(j) {
        lsp_location(j)
    } else {
        too_long()
    }
}

/// `serde_json::from_value` for a copy of the value as `lsp_types::Location`,
/// then `serde_json::to_value`: the value that comes back, or the text of the
/// error, depends on the value alone. Reading a URI panics where the capacity
/// of its string is above `i32::MAX`. A string of the copy is built from its
/// text, so that its capacity is the length of the text.
#[verifier::external_body]
fn location_value(value: &serde_json::Value) -> (r: Result<serde_json::Value, String>)
    requires
        uris::location_fits(json::value_contents(*value)),
    ensures
        json::value_result(r) == lsp_location(json::value_contents(*value)),
{
    let typed = serde_json::from_value::<lsp_types::Location>(value.clone());
    typed.and_then(serde_json::to_value).map_err(|e| e.to_string())
}

/// Reads a `Location`, unless a URI in it is too long.
pub fn location(j: &Json) -> (r: Result<Json, String>)
    ensures
        json::result_view(r) == read_location(j@),
{
    if !uris::location_ok(Some(j)) {
        return refuse_long();
    }
    finish(location_value(&json::value_of(j)))
}

/// What reading a value as a list of `Location`s and writing it back gives.
pub uninterp spec fn lsp_locations(j: JsonView) -> Result<JsonView, Seq<char>>;

/// What [`locations`] gives.
pub open spec fn read_locations(j: JsonView) -> Result<JsonView, Seq<char>> {
    if uris::locations_fit(j) {
        lsp_locations(j)
    } else {
        too_long()
    }
}

/// `serde_json::from_value` for a copy of the value as
/// `Vec<lsp_types::Location>`, then `serde_json::to_value`: the value that
/// comes back, or the text of the error, depends on the value alone. Reading a
/// URI panics where the capacity of its string is above `i32::MAX`. A string of
/// the copy is built from its text, so that its capacity is the length of the
/// text.
#[verifier::external_body]
fn locations_value(value: &serde_json::Value) -> (r: Result<serde_json::Value, String>)
    requires
        uris::locations_fit(json::value_contents(*value)),
    ensures
        json::value_result(r) == lsp_locations(json::value_contents(*value)),
{
    let typed = serde_json::from_value::<Vec<lsp_types::Location>>(value.clone());
    typed.and_then(serde_json::to_value).map_err(|e| e.to_string())
}

/// Reads a list of `Location`s, unless a URI in it is too long.
pub fn locations(j: &Json) -> (r: Result<Json, String>)
    ensures
        json::result_view(r) == read_locations(j@),
{
    if !uris::locations_ok(Some(j)) {
        return refuse_long();
    }
    finish(locations_value(&json::value_of(j)))
}

/// What reading a value as a list of `LocationLink`s and writing it back gives.
pub uninterp spec fn lsp_location_links(j: JsonView) -> Result<JsonView, Seq<char>>;

/// What [`location_links`] gives.
pub open spec fn read_location_links(j: JsonView) -> Result<JsonView, Seq<char>> {
    if uris::location_links_fit(j) {
        lsp_location_links(j)
    } else {
        too_long()
    }
}

/// `serde_json::from_value` for a copy of the value as
/// `Vec<lsp_types::LocationLink>`, then `serde_json::to_value`: the value that
/// comes back, or the text of the error, depends on the value alone. Reading a
/// URI panics where the capacity of its string is above `i32::MAX`. A string of
/// the copy is built from its text, so that its capacity is the length of the
/// text.
#[verifier::external_body]
fn location_links_value(value: &serde_json::Value) -> (r: Result<serde_json::Value, String>)
    requires
        uris::location_links_fit(json::value_contents(*value)),
    ensures
        json::value_result(r) == lsp_location_links(json::value_contents(*value)),
{
    let typed = serde_json::from_value::<Vec<lsp_types::LocationLink>>(value.clone());
    typed.and_then(serde_json::to_value).map_err(|e| e.to_string())
}

/// Reads a list of `LocationLink`s, unless a URI in it is too long.
pub fn location_links(j: &Json) -> (r: Result<Json, String>)
    ensures
        json::result_view(r) == read_location_links(j@),
{
    if !uris::location_links_ok(Some(j)) {
        return refuse_long();
    }
    finish(location_links_value(&json::value_of(j)))
}

/// What reading a value as a list of `DocumentLink`s and writing it back gives.
pub uninterp spec fn lsp_document_links(j: JsonView) -> Result<JsonView, Seq<char>>;

/// What [`document_links`] gives.
pub open spec fn read_document_links(j: JsonView) -> Result<JsonView, Seq<char>> {
    if uris::document_links_fit(j) {
        lsp_document_links(j)
    } else {
        too_long()
    }
}

/// `serde_json::from_value` for a copy of the value as
/// `Vec<lsp_types::DocumentLink>`, then `serde_json::to_value`: the value that
/// comes back, or the text of the error, depends on the value alone. Reading a
/// URI panics where the capacity of its string is above `i32::MAX`. A string of
/// the copy is built from its text, so that its capacity is the length of the
/// text.
#[verifier::external_body]
fn document_links_value(value: &serde_json::Value) -> (r: Result<serde_json::Value, String>)
    requires
        uris::document_links_fit(json::value_contents(*value)),
    ensures
        json::value_result(r) == lsp_document_links(json::value_contents(*value)),
{
    let typed = serde_json::from_value::<Vec<lsp_types::DocumentLink>>(value.clone());
    typed.and_then(serde_json::to_value).map_err(|e| e.to_string())
}

/// Reads a list of `DocumentLink`s, unless a URI in it is too long.
pub fn document_links(j: &Json) -> (r: Result<Json, String>)
    ensures
        json::result_view(r) == read_document_links(j@),
{
    if !uris::document_links_ok(Some(j)) {
        return refuse_long();
    }
    finish(document_links_value(&json::value_of(j)))
}

/// What reading a value as a list of `Diagnostic`s and writing it back gives.
pub uninterp spec fn lsp_diagnostics(j: JsonView) -> Result<JsonView, Seq<char>>;

/// What [`diagnostics`] gives.
pub open spec fn read_diagnostics(j: JsonView) -> Result<JsonView, Seq<char>> {
    if uris::diagnostics_fit(j) {
        lsp_diagnostics(j)
    } else {
        too_long()
    }
}

/// `serde_json::from_value` for a copy of the value as
/// `Vec<lsp_types::Diagnostic>`, then `serde_json::to_value`: the value that
/// comes back, or the text of the error, depends on the value alone. Reading a
/// URI panics where the capacity of its string is above `i32::MAX`. A string of
/// the copy is built from its text, so that its capacity is the length of the
/// text.
#[verifier::external_body]
fn diagnostics_value(value: &serde_json::Value) -> (r: Result<serde_json::Value, String>)
    requires
        uris::diagnostics_fit(json::value_contents(*value)),
    ensures
        json::value_result(r) == lsp_diagnostics(json::value_contents(*value)),
{
    let typed = serde_json::from_value::<Vec<lsp_types::Diagnostic>>(value.clone());
    typed.and_then(serde_json::to_value).map_err(|e| e.to_string())
}

/// Reads a list of `Diagnostic`s, unless a URI in it is too long.
pub fn diagnostics(j: &Json) -> (r: Result<Json, String>)
    ensures
        json::result_view(r) == read_diagnostics(j@),
{
    if !uris::diagnostics_ok(Some(j)) {
        return refuse_long();
    }
    finish(diagnostics_value(&json::value_of(j)))
}

/// What reading a value as a `CodeAction` and writing it back gives.
pub uninterp spec fn lsp_code_action(j: JsonView) -> Result<JsonView, Seq<char>>;

/// What [`code_action`] gives.
pub open spec fn read_code_action(j: JsonView) -> Result<JsonView, Seq<char>> {
    if uris::code_action_fits(j) {
        lsp_code_action(j)
    } else {
        too_long()
    }
}

/// `serde_json::from_value` for a copy of the value as `lsp_types::CodeAction`,
/// then `serde_json::to_value`: the value that comes back, or the text of the
/// error, depends on the value alone. Reading a URI panics where the capacity
/// of its string is above `i32::MAX`. A string of the copy is built from its
/// text, so that its capacity is the length of the text.
#[verifier::external_body]
fn code_action_value(value: &serde_json::Value) -> (r: Result<serde_json::Value, String>)
    requires
        uris::code_action_fits(json::value_contents(*value)),
    ensures
        json::value_result(r) == lsp_code_action(json::value_contents(*value)),
{
    let typed = serde_json::from_value::<lsp_types::CodeAction>(value.clone());
    typed.and_then(serde_json::to_value).map_err(|e| e.to_string())
}

/// Reads a `CodeAction`, unless a URI in it is too long.
pub fn code_action(j: &Json) -> (r: Result<Json, String>)
    ensures
        json::result_view(r) == read_code_action(j@),
{
    if !uris::code_action_ok(Some(j)) {
        return refuse_long();
    }
    finish(code_action_value(&json::value_of(j)))
}

/// What reading a value as a list of `TextEdit`s and writing it back gives.
pub uninterp spec fn lsp_text_edits(j: JsonView) -> Result<JsonView, Seq<char>>;

/// `serde_json::from_value` for `Vec<lsp_types::TextEdit>`, then
/// `serde_json::to_value`: the value that comes back, or the text of the error,
/// depends on the value alone.
#[verifier::external_body]
fn text_edits_value(value: serde_json::Value) -> (r: Result<serde_json::Value, String>)
    ensures
        json::value_result(r) == lsp_text_edits(json::value_contents(value)),
{
    let typed = serde_json::from_value::<Vec<lsp_types::TextEdit>>(value);
    typed.and_then(serde_json::to_value).map_err(|e| e.to_string())
}

/// Reads a list of `TextEdit`s.
pub fn text_edits(j: &Json) -> (r: Result<Json, String>)
    ensures
        json::result_view(r) == lsp_text_edits(j@),
{
    finish(text_edits_value(json::value_of(j)))
}

/// What reading a value as a `WorkspaceEdit` and writing it back gives.
pub uninterp spec fn lsp_workspace_edit(j: JsonView) -> Result<JsonView, Seq<char>>;

/// What [`workspace_edit`] gives.
pub open spec fn read_workspace_edit(j: JsonView) -> Result<JsonView, Seq<char>> {
    if uris::workspace_edit_fits(j) {
        lsp_workspace_edit(j)
    } else {
        too_long()
    }
}

/// `serde_json::from_value` for a copy of the value as
/// `lsp_types::WorkspaceEdit`, then `serde_json::to_value`: the value that
/// comes back, or the text of the error, depends on the value alone. Reading a
/// URI panics where the capacity of its string is above `i32::MAX`. A string of
/// the copy is built from its text, so that its capacity is the length of the
/// text.
#[verifier::external_body]
fn workspace_edit_value(value: &serde_json::Value) -> (r: Result<serde_json::Value, String>)
    requires
        uris::workspace_edit_fits(json::value_contents(*value)),
    ensures
        json::value_result(r) == lsp_workspace_edit(json::value_contents(*value)),
{
    let typed = serde_json::from_value::<lsp_types::WorkspaceEdit>(value.clone());
    typed.and_then(serde_json::to_value).map_err(|e| e.to_string())
}

/// Reads a `WorkspaceEdit`, unless a URI in it is too long.
pub fn workspace_edit(j: &Json) -> (r: Result<Json, String>)
    ensures
        json::result_view(r) == read_workspace_edit(j@),
{
    if !uris::workspace_edit_ok(Some(j)) {
        return refuse_long();
    }
    finish(workspace_edit_value(&json::value_of(j)))
}

/// What reading a value as a `SignatureHelp` and writing it back gives.
pub uninterp spec fn lsp_signature_help(j: JsonView) -> Result<JsonView, Seq<char>>;

/// `serde_json::from_value` for `lsp_types::SignatureHelp`, then
/// `serde_json::to_value`: the value that comes back, or the text of the error,
/// depends on the value alone.
#[verifier::external_body]
fn signature_help_value(value: serde_json::Value) -> (r: Result<serde_json::Value, String>)
    ensures
        json::value_result(r) == lsp_signature_help(json::value_contents(value)),
{
    let typed = serde_json::from_value::<lsp_types::SignatureHelp>(value);
    typed.and_then(serde_json::to_value).map_err(|e| e.to_string())
}

/// Reads a `SignatureHelp`.
pub fn signature_help(j: &Json) -> (r: Result<Json, String>)
    ensures
        json::result_view(r) == lsp_signature_help(j@),
{
    finish(signature_help_value(json::value_of(j)))
}

/// What reading a value as a list of `DocumentSymbol`s and writing it back
/// gives.
pub uninterp spec fn lsp_document_symbols(j: JsonView) -> Result<JsonView, Seq<char>>;

/// `serde_json::from_value` for `Vec<lsp_types::DocumentSymbol>`, then
/// `serde_json::to_value`: the value that comes back, or the text of the error,
/// depends on the value alone.
#[verifier::external_body]
fn document_symbols_value(value: serde_json::Value) -> (r: Result<serde_json::Value, String>)
    ensures
        json::value_result(r) == lsp_document_symbols(json::value_contents(value)),
{
    let typed = serde_json::from_value::<Vec<lsp_types::DocumentSymbol>>(value);
    typed.and_then(serde_json::to_value).map_err(|e| e.to_string())
}

/// Reads a list of `DocumentSymbol`s.
pub fn document_symbols(j: &Json) -> (r: Result<Json, String>)
    ensures
        json::result_view(r) == lsp_document_symbols(j@),
{
    finish(document_symbols_value(json::value_of(j)))
}

/// What reading a value as a list of `SymbolInformation`s and writing it back
/// gives.
pub uninterp spec fn lsp_symbol_informations(j: JsonView) -> Result<JsonView, Seq<char>>;

/// What [`symbol_informations`] gives.
pub open spec fn read_symbol_informations(j: JsonView) -> Result<JsonView, Seq<char>> {
    if uris::symbol_informations_fit(j) {
        lsp_symbol_informations(j)
    } else {
        too_long()
    }
}

/// `serde_json::from_value` for a copy of the value as
/// `Vec<lsp_types::SymbolInformation>`, then `serde_json::to_value`: the value
/// that comes back, or the text of the error, depends on the value alone.
/// Reading a URI panics where the capacity of its string is above `i32::MAX`. A
/// string of the copy is built from its text, so that its capacity is the
/// length of the text.
#[verifier::external_body]
fn symbol_informations_value(value: &serde_json::Value) -> (r: Result<serde_json::Value, String>)
    requires
        uris::symbol_informations_fit(json::value_contents(*value)),
    ensures
        json::value_result(r) == lsp_symbol_informations(json::value_contents(*value)),
{
    let typed = serde_json::from_value::<Vec<lsp_types::SymbolInformation>>(value.clone());
    typed.and_then(serde_json::to_value).map_err(|e| e.to_string())
}

/// Reads a list of `SymbolInformation`s, unless a URI in it is too long.
pub fn symbol_informations(j: &Json) -> (r: Result<Json, String>)
    ensures
        json::result_view(r) == read_symbol_informations(j@),
{
    if !uris::symbol_informations_ok(Some(j)) {
        return refuse_long();
    }
    finish(symbol_informations_value(&json::value_of(j)))
}

/// What reading a value as a list of `DocumentHighlight`s and writing it back
/// gives.
pub uninterp spec fn lsp_document_highlights(j: JsonView) -> Result<JsonView, Seq<char>>;

/// `serde_json::from_value` for `Vec<lsp_types::DocumentHighlight>`, then
/// `serde_json::to_value`: the value that comes back, or the text of the error,
/// depends on the value alone.
#[verifier::external_body]
fn document_highlights_value(value: serde_json::Value) -> (r: Result<serde_json::Value, String>)
    ensures
        json::value_result(r) == lsp_document_highlights(json::value_contents(value)),
{
    let typed = serde_json::from_value::<Vec<lsp_types::DocumentHighlight>>(value);
    typed.and_then(serde_json::to_value).map_err(|e| e.to_string())
}

/// Reads a list of `DocumentHighlight`s.
pub fn document_highlights(j: &Json) -> (r: Result<Json, String>)
    ensures
        json::result_view(r) == lsp_document_highlights(j@),
{
    finish(document_highlights_value(json::value_of(j)))
}

/// What reading a value as a list of `InlayHint`s and writing it back gives.
pub uninterp spec fn lsp_inlay_hints(j: JsonView) -> Result<JsonView, Seq<char>>;

/// What [`inlay_hints`] gives.
pub open spec fn read_inlay_hints(j: JsonView) -> Result<JsonView, Seq<char>> {
    if uris::inlay_hints_fit(j) {
        lsp_inlay_hints(j)
    } else {
        too_long()
    }
}

/// `serde_json::from_value` for a copy of the value as
/// `Vec<lsp_types::InlayHint>`, then `serde_json::to_value`: the value that
/// comes back, or the text of the error, depends on the value alone. Reading a
/// URI panics where the capacity of its string is above `i32::MAX`. A string of
/// the copy is built from its text, so that its capacity is the length of the
/// text.
#[verifier::external_body]
fn inlay_hints_value(value: &serde_json::Value) -> (r: Result<serde_json::Value, String>)
    requires
        uris::inlay_hints_fit(json::value_contents(*value)),
    ensures
        json::value_result(r) == lsp_inlay_hints(json::value_contents(*value)),
{
    let typed = serde_json::from_value::<Vec<lsp_types::InlayHint>>(value.clone());
    typed.and_then(serde_json::to_value).map_err(|e| e.to_string())
}

/// Reads a list of `InlayHint`s, unless a URI in it is too long.
pub fn inlay_hints(j: &Json) -> (r: Result<Json, String>)
    ensures
        json::result_view(r) == read_inlay_hints(j@),
{
    if !uris::inlay_hints_ok(Some(j)) {
        return refuse_long();
    }
    finish(inlay_hints_value(&json::value_of(j)))
}

/// What reading a value as a list of `CallHierarchyItem`s and writing it back
/// gives.
pub uninterp spec fn lsp_call_items(j: JsonView) -> Result<JsonView, Seq<char>>;

/// What [`call_items`] gives.
pub open spec fn read_call_items(j: JsonView) -> Result<JsonView, Seq<char>> {
    if uris::hierarchy_items_fit(j) {
        lsp_call_items(j)
    } else {
        too_long()
    }
}

/// `serde_json::from_value` for a copy of the value as
/// `Vec<lsp_types::CallHierarchyItem>`, then `serde_json::to_value`: the value
/// that comes back, or the text of the error, depends on the value alone.
/// Reading a URI panics where the capacity of its string is above `i32::MAX`. A
/// string of the copy is built from its text, so that its capacity is the
/// length of the text.
#[verifier::external_body]
fn call_items_value(value: &serde_json::Value) -> (r: Result<serde_json::Value, String>)
    requires
        uris::hierarchy_items_fit(json::value_contents(*value)),
    ensures
        json::value_result(r) == lsp_call_items(json::value_contents(*value)),
{
    let typed = serde_json::from_value::<Vec<lsp_types::CallHierarchyItem>>(value.clone());
    typed.and_then(serde_json::to_value).map_err(|e| e.to_string())
}

/// Reads a list of `CallHierarchyItem`s, unless a URI in it is too long.
pub fn call_items(j: &Json) -> (r: Result<Json, String>)
    ensures
        json::result_view(r) == read_call_items(j@),
{
    if !uris::hierarchy_items_ok(Some(j)) {
        return refuse_long();
    }
    finish(call_items_value(&json::value_of(j)))
}

/// What reading a value as a list of `CallHierarchyIncomingCall`s and writing
/// it back gives.
pub uninterp spec fn lsp_incoming_calls(j: JsonView) -> Result<JsonView, Seq<char>>;

/// What [`incoming_calls`] gives.
pub open spec fn read_incoming_calls(j: JsonView) -> Result<JsonView, Seq<char>> {
    if uris::incoming_calls_fit(j) {
        lsp_incoming_calls(j)
    } else {
        too_long()
    }
}

/// `serde_json::from_value` for a copy of the value as
/// `Vec<lsp_types::CallHierarchyIncomingCall>`, then `serde_json::to_value`:
/// the value that comes back, or the text of the error, depends on the value
/// alone. Reading a URI panics where the capacity of its string is above
/// `i32::MAX`. A string of the copy is built from its text, so that its
/// capacity is the length of the text.
#[verifier::external_body]
fn incoming_calls_value(value: &serde_json::Value) -> (r: Result<serde_json::Value, String>)
    requires
        uris::incoming_calls_fit(json::value_contents(*value)),
    ensures
        json::value_result(r) == lsp_incoming_calls(json::value_contents(*value)),
{
    let typed = serde_json::from_value::<Vec<lsp_types::CallHierarchyIncomingCall>>(value.clone());
    typed.and_then(serde_json::to_value).map_err(|e| e.to_string())
}

/// Reads a list of `CallHierarchyIncomingCall`s, unless a URI in it is
/// too long.
pub fn incoming_calls(j: &Json) -> (r: Result<Json, String>)
    ensures
        json::result_view(r) == read_incoming_calls(j@),
{
    if !uris::incoming_calls_ok(Some(j)) {
        return refuse_long();
    }
    finish(incoming_calls_value(&json::value_of(j)))
}

/// What reading a value as a list of `CallHierarchyOutgoingCall`s and writing
/// it back gives.
pub uninterp spec fn lsp_outgoing_calls(j: JsonView) -> Result<JsonView, Seq<char>>;

/// What [`outgoing_calls`] gives.
pub open spec fn read_outgoing_calls(j: JsonView) -> Result<JsonView, Seq<char>> {
    if uris::outgoing_calls_fit(j) {
        lsp_outgoing_calls(j)
    } else {
        too_long()
    }
}

/// `serde_json::from_value` for a copy of the value as
/// `Vec<lsp_types::CallHierarchyOutgoingCall>`, then `serde_json::to_value`:
/// the value that comes back, or the text of the error, depends on the value
/// alone. Reading a URI panics where the capacity of its string is above
/// `i32::MAX`. A string of the copy is built from its text, so that its
/// capacity is the length of the text.
#[verifier::external_body]
fn outgoing_calls_value(value: &serde_json::Value) -> (r: Result<serde_json::Value, String>)
    requires
        uris::outgoing_calls_fit(json::value_contents(*value)),
    ensures
        json::value_result(r) == lsp_outgoing_calls(json::value_contents(*value)),
{
    let typed = serde_json::from_value::<Vec<lsp_types::CallHierarchyOutgoingCall>>(value.clone());
    typed.and_then(serde_json::to_value).map_err(|e| e.to_string())
}

/// Reads a list of `CallHierarchyOutgoingCall`s, unless a URI in it is
/// too long.
pub fn outgoing_calls(j: &Json) -> (r: Result<Json, String>)
    ensures
        json::result_view(r) == read_outgoing_calls(j@),
{
    if !uris::outgoing_calls_ok(Some(j)) {
        return refuse_long();
    }
    finish(outgoing_calls_value(&json::value_of(j)))
}

/// What reading a value as a list of `SelectionRange`s and writing it back
/// gives.
pub uninterp spec fn lsp_selection_ranges(j: JsonView) -> Result<JsonView, Seq<char>>;

/// `serde_json::from_value` for `Vec<lsp_types::SelectionRange>`, then
/// `serde_json::to_value`: the value that comes back, or the text of the error,
/// depends on the value alone.
#[verifier::external_body]
fn selection_ranges_value(value: serde_json::Value) -> (r: Result<serde_json::Value, String>)
    ensures
        json::value_result(r) == lsp_selection_ranges(json::value_contents(value)),
{
    let typed = serde_json::from_value::<Vec<lsp_types::SelectionRange>>(value);
    typed.and_then(serde_json::to_value).map_err(|e| e.to_string())
}

/// Reads a list of `SelectionRange`s.
pub fn selection_ranges(j: &Json) -> (r: Result<Json, String>)
    ensures
        json::result_view(r) == lsp_selection_ranges(j@),
{
    finish(selection_ranges_value(json::value_of(j)))
}

/// What reading a value as a `SemanticTokens` and writing it back gives.
pub uninterp spec fn lsp_semantic_tokens(j: JsonView) -> Result<JsonView, Seq<char>>;

/// `serde_json::from_value` for `lsp_types::SemanticTokens`, then
/// `serde_json::to_value`: the value that comes back, or the text of the error,
/// depends on the value alone.
#[verifier::external_body]
fn semantic_tokens_value(value: serde_json::Value) -> (r: Result<serde_json::Value, String>)
    ensures
        json::value_result(r) == lsp_semantic_tokens(json::value_contents(value)),
{
    let typed = serde_json::from_value::<lsp_types::SemanticTokens>(value);
    typed.and_then(serde_json::to_value).map_err(|e| e.to_string())
}

/// Reads a `SemanticTokens`.
pub fn semantic_tokens(j: &Json) -> (r: Result<Json, String>)
    ensures
        json::result_view(r) == lsp_semantic_tokens(j@),
{
    finish(semantic_tokens_value(json::value_of(j)))
}

/// What reading a value as a `SemanticTokensDelta` and writing it back gives.
pub uninterp spec fn lsp_semantic_tokens_delta(j: JsonView) -> Result<JsonView, Seq<char>>;

/// `serde_json::from_value` for `lsp_types::SemanticTokensDelta`, then
/// `serde_json::to_value`: the value that comes back, or the text of the error,
/// depends on the value alone.
#[verifier::external_body]
fn semantic_tokens_delta_value(value: serde_json::Value) -> (r: Result<serde_json::Value, String>)
    ensures
        json::value_result(r) == lsp_semantic_tokens_delta(json::value_contents(value)),
{
    let typed = serde_json::from_value::<lsp_types::SemanticTokensDelta>(value);
    typed.and_then(serde_json::to_value).map_err(|e| e.to_string())
}

/// Reads a `SemanticTokensDelta`.
pub fn semantic_tokens_delta(j: &Json) -> (r: Result<Json, String>)
    ensures
        json::result_view(r) == lsp_semantic_tokens_delta(j@),
{
    finish(semantic_tokens_delta_value(json::value_of(j)))
}

/// What reading a value as a list of `CodeLens`es and writing it back gives.
pub uninterp spec fn lsp_code_lenses(j: JsonView) -> Result<JsonView, Seq<char>>;

/// `serde_json::from_value` for `Vec<lsp_types::CodeLens>`, then
/// `serde_json::to_value`: the value that comes back, or the text of the error,
/// depends on the value alone.
#[verifier::external_body]
fn code_lenses_value(value: serde_json::Value) -> (r: Result<serde_json::Value, String>)
    ensures
        json::value_result(r) == lsp_code_lenses(json::value_contents(value)),
{
    let typed = serde_json::from_value::<Vec<lsp_types::CodeLens>>(value);
    typed.and_then(serde_json::to_value).map_err(|e| e.to_string())
}

/// Reads a list of `CodeLens`es.
pub fn code_lenses(j: &Json) -> (r: Result<Json, String>)
    ensures
        json::result_view(r) == lsp_code_lenses(j@),
{
    finish(code_lenses_value(json::value_of(j)))
}

/// What reading a value as a `CodeLens` and writing it back gives.
pub uninterp spec fn lsp_code_lens(j: JsonView) -> Result<JsonView, Seq<char>>;

/// `serde_json::from_value` for `lsp_types::CodeLens`, then
/// `serde_json::to_value`: the value that comes back, or the text of the error,
/// depends on the value alone.
#[verifier::external_body]
fn code_lens_value(value: serde_json::Value) -> (r: Result<serde_json::Value, String>)
    ensures
        json::value_result(r) == lsp_code_lens(json::value_contents(value)),
{
    let typed = serde_json::from_value::<lsp_types::CodeLens>(value);
    typed.and_then(serde_json::to_value).map_err(|e| e.to_string())
}

/// Reads a `CodeLens`.
pub fn code_lens(j: &Json) -> (r: Result<Json, String>)
    ensures
        json::result_view(r) == lsp_code_lens(j@),
{
    finish(code_lens_value(json::value_of(j)))
}

/// What reading a value as a list of `TypeHierarchyItem`s and writing it back
/// gives.
pub uninterp spec fn lsp_type_items(j: JsonView) -> Result<JsonView, Seq<char>>;

/// What [`type_items`] gives.
pub open spec fn read_type_items(j: JsonView) -> Result<JsonView, Seq<char>> {
    if uris::hierarchy_items_fit(j) {
        lsp_type_items(j)
    } else {
        too_long()
    }
}

/// `serde_json::from_value` for a copy of the value as
/// `Vec<lsp_types::TypeHierarchyItem>`, then `serde_json::to_value`: the value
/// that comes back, or the text of the error, depends on the value alone.
/// Reading a URI panics where the capacity of its string is above `i32::MAX`. A
/// string of the copy is built from its text, so that its capacity is the
/// length of the text.
#[verifier::external_body]
fn type_items_value(value: &serde_json::Value) -> (r: Result<serde_json::Value, String>)
    requires
        uris::hierarchy_items_fit(json::value_contents(*value)),
    ensures
        json::value_result(r) == lsp_type_items(json::value_contents(*value)),
{
    let typed = serde_json::from_value::<Vec<lsp_types::TypeHierarchyItem>>(value.clone());
    typed.and_then(serde_json::to_value).map_err(|e| e.to_string())
}

/// Reads a list of `TypeHierarchyItem`s, unless a URI in it is too long.
pub fn type_items(j: &Json) -> (r: Result<Json, String>)
    ensures
        json::result_view(r) == read_type_items(j@),
{
    if !uris::hierarchy_items_ok(Some(j)) {
        return refuse_long();
    }
    finish(type_items_value(&json::value_of(j)))
}

/// What reading a value as a `PublishDiagnosticsParams` and writing it back
/// gives.
pub uninterp spec fn lsp_publish_diagnostics(j: JsonView) -> Result<JsonView, Seq<char>>;

/// What [`publish_diagnostics`] gives.
pub open spec fn read_publish_diagnostics(j: JsonView) -> Result<JsonView, Seq<char>> {
    if uris::publish_diagnostics_fits(j) {
        lsp_publish_diagnostics(j)
    } else {
        too_long()
    }
}

/// `serde_json::from_value` for a copy of the value as
/// `lsp_types::PublishDiagnosticsParams`, then `serde_json::to_value`: the
/// value that comes back, or the text of the error, depends on the value alone.
/// Reading a URI panics where the capacity of its string is above `i32::MAX`. A
/// string of the copy is built from its text, so that its capacity is the
/// length of the text.
#[verifier::external_body]
fn publish_diagnostics_value(value: &serde_json::Value) -> (r: Result<serde_json::Value, String>)
    requires
        uris::publish_diagnostics_fits(json::value_contents(*value)),
    ensures
        json::value_result(r) == lsp_publish_diagnostics(json::value_contents(*value)),
{
    let typed = serde_json::from_value::<lsp_types::PublishDiagnosticsParams>(value.clone());
    typed.and_then(serde_json::to_value).map_err(|e| e.to_string())
}

/// Reads a `PublishDiagnosticsParams`, unless a URI in it is too long.
pub fn publish_diagnostics(j: &Json) -> (r: Result<Json, String>)
    ensures
        json::result_view(r) == read_publish_diagnostics(j@),
{
    if !uris::publish_diagnostics_ok(Some(j)) {
        return refuse_long();
    }
    finish(publish_diagnostics_value(&json::value_of(j)))
}

/// What reading a value as a list of `FoldingRange`s and writing it back gives.
pub uninterp spec fn lsp_folding_ranges(j: JsonView) -> Result<JsonView, Seq<char>>;

/// `serde_json::from_value` for `Vec<lsp_types::FoldingRange>`, then
/// `serde_json::to_value`: the value that comes back, or the text of the error,
/// depends on the value alone.
#[verifier::external_body]
fn folding_ranges_value(value: serde_json::Value) -> (r: Result<serde_json::Value, String>)
    ensures
        json::value_result(r) == lsp_folding_ranges(json::value_contents(value)),
{
    let typed = serde_json::from_value::<Vec<lsp_types::FoldingRange>>(value);
    typed.and_then(serde_json::to_value).map_err(|e| e.to_string())
}

/// Reads a list of `FoldingRange`s.
pub fn folding_ranges(j: &Json) -> (r: Result<Json, String>)
    ensures
        json::result_view(r) == lsp_folding_ranges(j@),
{
    finish(folding_ranges_value(json::value_of(j)))
}

/// What reading a value as a `LinkedEditingRanges` and writing it back gives.
pub uninterp spec fn lsp_linked_editing_ranges(j: JsonView) -> Result<JsonView, Seq<char>>;

/// `serde_json::from_value` for `lsp_types::LinkedEditingRanges`, then
/// `serde_json::to_value`: the value that comes back, or the text of the error,
/// depends on the value alone.
#[verifier::external_body]
fn linked_editing_ranges_value(value: serde_json::Value) -> (r: Result<serde_json::Value, String>)
    ensures
        json::value_result(r) == lsp_linked_editing_ranges(json::value_contents(value)),
{
    let typed = serde_json::from_value::<lsp_types::LinkedEditingRanges>(value);
    typed.and_then(serde_json::to_value).map_err(|e| e.to_string())
}

/// Reads a `LinkedEditingRanges`.
pub fn linked_editing_ranges(j: &Json) -> (r: Result<Json, String>)
    ensures
        json::result_view(r) == lsp_linked_editing_ranges(j@),
{
    finish(linked_editing_ranges_value(json::value_of(j)))
}

/// What reading a value as a `CallHierarchyItem` and writing it back gives.
pub uninterp spec fn lsp_call_item(j: JsonView) -> Result<JsonView, Seq<char>>;

/// What [`call_item`] gives.
pub open spec fn read_call_item(j: JsonView) -> Result<JsonView, Seq<char>> {
    if uris::hierarchy_item_fits(j) {
        lsp_call_item(j)
    } else {
        too_long()
    }
}

/// `serde_json::from_value` for a copy of the value as
/// `lsp_types::CallHierarchyItem`, then `serde_json::to_value`: the value that
/// comes back, or the text of the error, depends on the value alone. Reading a
/// URI panics where the capacity of its string is above `i32::MAX`. A string of
/// the copy is built from its text, so that its capacity is the length of the
/// text.
#[verifier::external_body]
fn call_item_value(value: &serde_json::Value) -> (r: Result<serde_json::Value, String>)
    requires
        uris::hierarchy_item_fits(json::value_contents(*value)),
    ensures
        json::value_result(r) == lsp_call_item(json::value_contents(*value)),
{
    let typed = serde_json::from_value::<lsp_types::CallHierarchyItem>(value.clone());
    typed.and_then(serde_json::to_value).map_err(|e| e.to_string())
}

/// Reads a `CallHierarchyItem`, unless a URI in it is too long.
pub fn call_item(j: &Json) -> (r: Result<Json, String>)
    ensures
        json::result_view(r) == read_call_item(j@),
{
    if !uris::hierarchy_item_ok(Some(j)) {
        return refuse_long();
    }
    finish(call_item_value(&json::value_of(j)))
}

/// What reading a value as a `TypeHierarchyItem` and writing it back gives.
pub uninterp spec fn lsp_type_item(j: JsonView) -> Result<JsonView, Seq<char>>;

/// What [`type_item`] gives.
pub open spec fn read_type_item(j: JsonView) -> Result<JsonView, Seq<char>> {
    if uris::hierarchy_item_fits(j) {
        lsp_type_item(j)
    } else {
        too_long()
    }
}

/// `serde_json::from_value` for a copy of the value as
/// `lsp_types::TypeHierarchyItem`, then `serde_json::to_value`: the value that
/// comes back, or the text of the error, depends on the value alone. Reading a
/// URI panics where the capacity of its string is above `i32::MAX`. A string of
/// the copy is built from its text, so that its capacity is the length of the
/// text.
#[verifier::external_body]
fn type_item_value(value: &serde_json::Value) -> (r: Result<serde_json::Value, String>)
    requires
        uris::hierarchy_item_fits(json::value_contents(*value)),
    ensures
        json::value_result(r) == lsp_type_item(json::value_contents(*value)),
{
    let typed = serde_json::from_value::<lsp_types::TypeHierarchyItem>(value.clone());
    typed.and_then(serde_json::to_value).map_err(|e| e.to_string())
}

/// Reads a `TypeHierarchyItem`, unless a URI in it is too long.
pub fn type_item(j: &Json) -> (r: Result<Json, String>)
    ensures
        json::result_view(r) == read_type_item(j@),
{
    if !uris::hierarchy_item_ok(Some(j)) {
        return refuse_long();
    }
    finish(type_item_value(&json::value_of(j)))
}

/// What reading a value as a list of values gives.
pub uninterp spec fn lsp_value_list(j: JsonView) -> Result<JsonView, Seq<char>>;

/// `serde_json::from_value` for `Vec<serde_json::Value>`: an array is read as
/// it is, and for anything else the text of the error depends on the value
/// alone.
#[verifier::external_body]
fn value_list_value(value: serde_json::Value) -> (r: Result<serde_json::Value, String>)
    ensures
        json::value_result(r) == lsp_value_list(json::value_contents(value)),
        json::value_result(r) is Ok <==> json::value_contents(value) is Array,
        json::value_result(r) matches Ok(list) ==> list == json::value_contents(value),
{
    let list = serde_json::from_value::<Vec<serde_json::Value>>(value);
    list.map(serde_json::Value::Array).map_err(|e| e.to_string())
}

/// Reads a list of values.
pub fn value_list(j: &Json) -> (r: Result<Json, String>)
    ensures
        json::result_view(r) == lsp_value_list(j@),
        r is Ok <==> j@ is Array,
        r matches Ok(list) ==> list@ == j@,
{
    finish(value_list_value(json::value_of(j)))
}

} // verus!
