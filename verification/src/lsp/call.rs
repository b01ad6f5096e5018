//! Requests to a server: what is sent, and how long an answer is waited for.

use vstd::prelude::*;

use crate::json::{object1, Fields, Json, JsonView};
use crate::lsp::types::RangeItem;

verus! {

/// How long an answer is waited for, in milliseconds, unless a feature says
/// otherwise.
pub const REQUEST_TIMEOUT_MS: u64 = 120_000;

/// A request to a server.
pub struct Call {
    pub method: String,
    pub params: Json,
    pub timeout_ms: u64,
}

/// The model of [`Call`].
#[verifier::ext_equal]
pub struct CallView {
    pub method: Seq<char>,
    pub params: JsonView,
    pub timeout_ms: u64,
}

impl DeepView for Call {
    type V = CallView;

    open spec fn deep_view(&self) -> CallView {
        CallView { method: self.method@, params: self.params@, timeout_ms: self.timeout_ms }
    }
}

/// A request with the usual time to answer.
pub open spec fn call_of(method: Seq<char>, params: JsonView) -> CallView {
    CallView { method, params, timeout_ms: REQUEST_TIMEOUT_MS }
}

/// Makes a request with the usual time to answer.
pub fn make_call(method: &str, params: Json) -> (r: Call)
    ensures
        r.deep_view() == call_of(method@, params@),
{
    Call { method: method.to_string(), params, timeout_ms: REQUEST_TIMEOUT_MS }
}

/// `{"uri": ..}`
pub open spec fn uri_view(uri: Seq<char>) -> JsonView {
    JsonView::Object(map!["uri"@ => JsonView::Str(uri)])
}

/// `{"line": .., "character": ..}`
pub open spec fn position_view(line: u32, character: u32) -> JsonView {
    JsonView::Object(
        map![
            "line"@ => JsonView::Int(line as int),
            "character"@ => JsonView::Int(character as int),
        ],
    )
}

/// `{"start": .., "end": ..}`
pub open spec fn range_view(range: RangeItem) -> JsonView {
    JsonView::Object(
        map![
            "start"@ => position_view(range.line, range.character),
            "end"@ => position_view(range.end_line, range.end_character),
        ],
    )
}

/// Parameters that name a document.
pub open spec fn document_params(uri: Seq<char>) -> JsonView {
    JsonView::Object(map!["textDocument"@ => uri_view(uri)])
}

/// Parameters that name a place in a document.
pub open spec fn position_params(uri: Seq<char>, line: u32, character: u32) -> JsonView {
    JsonView::Object(
        map!["textDocument"@ => uri_view(uri), "position"@ => position_view(line, character)],
    )
}

/// Parameters that name a range in a document.
pub open spec fn range_params(uri: Seq<char>, range: RangeItem) -> JsonView {
    JsonView::Object(map!["textDocument"@ => uri_view(uri), "range"@ => range_view(range)])
}

/// Writes a position.
pub fn position_json(line: u32, character: u32) -> (r: Json)
    ensures
        r@ == position_view(line, character),
{
    let mut f = Fields::new();
    f.put_u64("line", line as u64);
    f.put_u64("character", character as u64);
    f.done()
}

/// Writes a range.
pub fn range_json(range: RangeItem) -> (r: Json)
    ensures
        r@ == range_view(range),
{
    let mut f = Fields::new();
    f.put("start", position_json(range.line, range.character));
    f.put("end", position_json(range.end_line, range.end_character));
    f.done()
}

/// Starts parameters that name a document.
pub fn document_fields(uri: &str) -> (r: Fields)
    ensures
        r@ == map!["textDocument"@ => uri_view(uri@)],
{
    let mut f = Fields::new();
    f.put("textDocument", object1("uri", Json::string(uri)));
    f
}

/// Starts parameters that name a place in a document.
pub fn position_fields(uri: &str, line: u32, character: u32) -> (r: Fields)
    ensures
        r@ == map![
            "textDocument"@ => uri_view(uri@),
            "position"@ => position_view(line, character),
        ],
{
    let mut f = document_fields(uri);
    f.put("position", position_json(line, character));
    f
}

/// Makes a request about a document.
pub fn document_call(method: &str, uri: &str) -> (r: Call)
    ensures
        r.deep_view() == call_of(method@, document_params(uri@)),
{
    make_call(method, document_fields(uri).done())
}

/// Makes a request about a place in a document.
pub fn position_call(method: &str, uri: &str, line: u32, character: u32) -> (r: Call)
    ensures
        r.deep_view() == call_of(method@, position_params(uri@, line, character)),
{
    make_call(method, position_fields(uri, line, character).done())
}

/// Makes a request about a range in a document.
pub fn range_call(method: &str, uri: &str, range: RangeItem) -> (r: Call)
    ensures
        r.deep_view() == call_of(method@, range_params(uri@, range)),
{
    let mut f = document_fields(uri);
    f.put("range", range_json(range));
    make_call(method, f.done())
}

/// A request on the wire.
pub open spec fn request_message(id: i64, method: Seq<char>, params: JsonView) -> JsonView {
    JsonView::Object(
        map![
            "jsonrpc"@ => JsonView::Str("2.0"@),
            "id"@ => JsonView::Int(id as int),
            "method"@ => JsonView::Str(method),
            "params"@ => params,
        ],
    )
}

/// A notification on the wire.
pub open spec fn notification_message(method: Seq<char>, params: JsonView) -> JsonView {
    JsonView::Object(
        map![
            "jsonrpc"@ => JsonView::Str("2.0"@),
            "method"@ => JsonView::Str(method),
            "params"@ => params,
        ],
    )
}

/// The notification that an answer is no longer waited for.
pub open spec fn cancel_message(id: i64) -> JsonView {
    notification_message(
        "$/cancelRequest"@,
        JsonView::Object(map!["id"@ => JsonView::Int(id as int)]),
    )
}

/// Writes a request.
pub fn request(id: i64, method: &str, params: Json) -> (r: Json)
    ensures
        r@ == request_message(id, method@, params@),
{
    let mut f = Fields::new();
    f.put_str("jsonrpc", "2.0");
    f.put("id", Json::integer(id));
    f.put_str("method", method);
    f.put("params", params);
    f.done()
}

/// Writes a notification.
pub fn notification(method: &str, params: Json) -> (r: Json)
    ensures
        r@ == notification_message(method@, params@),
{
    let mut f = Fields::new();
    f.put_str("jsonrpc", "2.0");
    f.put_str("method", method);
    f.put("params", params);
    f.done()
}

/// Writes the notification that an answer is no longer waited for.
pub fn cancel(id: i64) -> (r: Json)
    ensures
        r@ == cancel_message(id),
{
    notification("$/cancelRequest", object1("id", Json::integer(id)))
}

} // verus!
