//! Values by their members.

use vstd::prelude::*;

use crate::json::JsonView;
use crate::lsp::types::RangeItem;

verus! {

/// Whether an object has a member.
pub open spec fn holds(j: JsonView, key: Seq<char>) -> bool {
    j matches JsonView::Object(m) && m.contains_key(key)
}

/// Whether an object lacks a member.
pub open spec fn lacks(j: JsonView, key: Seq<char>) -> bool {
    j matches JsonView::Object(m) && !m.contains_key(key)
}

/// The member of an object that has it.
pub open spec fn member(j: JsonView, key: Seq<char>) -> JsonView {
    j->Object_0[key]
}

/// Whether an object has a member with a value.
pub open spec fn has(j: JsonView, key: Seq<char>, value: JsonView) -> bool {
    holds(j, key) && member(j, key) == value
}

/// Whether a value is a text.
pub open spec fn is_text(j: JsonView, s: Seq<char>) -> bool {
    j == JsonView::Str(s)
}

/// Whether an object has a member with a text.
pub open spec fn has_text(j: JsonView, key: Seq<char>, s: Seq<char>) -> bool {
    has(j, key, JsonView::Str(s))
}

/// Whether an object has a member with a number.
pub open spec fn has_number(j: JsonView, key: Seq<char>, n: int) -> bool {
    has(j, key, JsonView::Int(n))
}

/// Whether an object has a member with a list of values.
pub open spec fn has_list(j: JsonView, key: Seq<char>, items: Seq<JsonView>) -> bool {
    has(j, key, JsonView::Array(items))
}

/// Whether an object has a text where there is one, and lacks the member where
/// there is none.
pub open spec fn has_maybe(j: JsonView, key: Seq<char>, s: Option<Seq<char>>) -> bool {
    match s {
        Some(s) => has_text(j, key, s),
        None => lacks(j, key),
    }
}

/// Whether a value is a position of the protocol.
pub open spec fn is_position(j: JsonView, line: u32, character: u32) -> bool {
    has_number(j, "line"@, line as int) && has_number(j, "character"@, character as int)
}

/// Whether a value is a range of the protocol.
pub open spec fn is_span(j: JsonView, r: RangeItem) -> bool {
    &&& holds(j, "start"@)
    &&& holds(j, "end"@)
    &&& is_position(member(j, "start"@), r.line, r.character)
    &&& is_position(member(j, "end"@), r.end_line, r.end_character)
}

/// Whether an object has a range under a key.
pub open spec fn spans(j: JsonView, key: Seq<char>, r: RangeItem) -> bool {
    holds(j, key) && is_span(member(j, key), r)
}

} // verus!
