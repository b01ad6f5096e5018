//! What the values of a server come to: places, hovers, signatures and the
//! like.

use vstd::prelude::*;
use vstd::string::*;
use vstd::utf8::*;

use crate::json::JsonView;
use crate::laws::reading;
use crate::laws::shapes;
use crate::lsp::actions;
use crate::lsp::decode;
use crate::lsp::features;
use crate::lsp::read;
use crate::lsp::read::DocumentLinkView;
use crate::lsp::types;
use crate::lsp::types::{
    CallHierarchyItem, CallHierarchyItemView, DiagnosticItem, DiagnosticItemView,
    DocumentHighlightItem, FoldingRangeItem, InlayHintItem, LocationView, RangeItem,
    SelectionRangeItem, SelectionRangeItemView,
};
use crate::lsp::wire;
use crate::text;
use crate::uri;

verus! {

// ---------------------------------------------------------------------------
// Locations
// ---------------------------------------------------------------------------

/// Whether a location is a range of a document.
pub open spec fn is_at(l: LocationView, uri: Seq<char>, r: RangeItem) -> bool {
    &&& l.uri == uri::uri_path(uri)
    &&& l.line == r.line
    &&& l.character == r.character
    &&& l.end_line == Some(r.end_line)
    &&& l.end_character == Some(r.end_character)
}

/// Whether a value is a `Location`.
pub open spec fn is_location(j: JsonView, uri: Seq<char>, r: RangeItem) -> bool {
    shapes::has_text(j, "uri"@, uri) && shapes::spans(j, "range"@, r)
}

/// Whether a value is a `LocationLink`.
pub open spec fn is_link(j: JsonView, uri: Seq<char>, r: RangeItem) -> bool {
    shapes::has_text(j, "targetUri"@, uri) && shapes::spans(j, "targetSelectionRange"@, r)
}

/// An answer that is one location leads there.
pub proof fn law_one_location_leads_there(
    result: JsonView,
    one: JsonView,
    uri: Seq<char>,
    r: RangeItem,
)
    requires
        !(result is Null),
        decode::read_location(result) == Ok::<JsonView, Seq<char>>(one),
        is_location(one, uri, r),
    ensures
        read::locations_of(result).len() == 1,
        is_at(read::locations_of(result)[0], uri, r),
{
}

/// An answer that is a list of locations leads to each of them, in order.
pub proof fn law_listed_locations_are_all_there(
    result: JsonView,
    items: Seq<JsonView>,
    i: int,
    uri: Seq<char>,
    r: RangeItem,
)
    requires
        !(result is Null),
        decode::read_location(result) is Err,
        decode::read_locations(result) == Ok::<JsonView, Seq<char>>(JsonView::Array(items)),
        0 <= i < items.len(),
        is_location(items[i], uri, r),
    ensures
        read::locations_of(result).len() == items.len(),
        is_at(read::locations_of(result)[i], uri, r),
{
}

/// An answer that is a list of links leads to the name at the end of each, in
/// order.
pub proof fn law_listed_links_are_all_there(
    result: JsonView,
    items: Seq<JsonView>,
    i: int,
    uri: Seq<char>,
    r: RangeItem,
)
    requires
        !(result is Null),
        decode::read_location(result) is Err,
        decode::read_locations(result) is Err,
        decode::read_location_links(result) == Ok::<JsonView, Seq<char>>(JsonView::Array(items)),
        0 <= i < items.len(),
        is_link(items[i], uri, r),
    ensures
        read::locations_of(result).len() == items.len(),
        is_at(read::locations_of(result)[i], uri, r),
{
}

/// An empty answer leads nowhere.
pub proof fn law_no_answer_leads_nowhere()
    ensures
        read::locations_of(JsonView::Null).len() == 0,
{
}

/// A symbol of the name that is looked for is found where it is, and no other
/// symbol is.
pub proof fn law_named_symbols_are_found(infos: Seq<JsonView>, query: Seq<char>)
    ensures
        forall|k: int, uri: Seq<char>, r: RangeItem|
            0 <= k < infos.len() && #[trigger] reading::is_symbol_at(infos[k], query, uri, r)
                ==> exists|n: int|
                0 <= n < read::symbol_locations_of(infos, query).len() && (
                #[trigger] read::symbol_locations_of(infos, query)[n]).uri == uri::uri_path(uri)
                    && read::symbol_locations_of(infos, query)[n].line == r.line
                    && read::symbol_locations_of(infos, query)[n].character == r.character,
        forall|n: int|
            0 <= n < read::symbol_locations_of(infos, query).len() ==> exists|k: int|
                0 <= k < infos.len() && (#[trigger] infos[k]).at("name"@).text() == query
                    && types::location_of(infos[k].at("location"@))
                    == #[trigger] read::symbol_locations_of(infos, query)[n],
{
    let found = read::symbol_locations_of(infos, query);
    let places = read::symbol_places(infos, query);
    let p = |j: JsonView| j.at("name"@).text() == query;
    let f = |j: JsonView| types::location_of(j.at("location"@));
    read::law_symbol_locations_are_complete(infos, query);
    assert forall|k: int, uri: Seq<char>, r: RangeItem|
        0 <= k < infos.len() && #[trigger] reading::is_symbol_at(
            infos[k],
            query,
            uri,
            r,
        ) implies exists|n: int|
        0 <= n < found.len() && (#[trigger] found[n]).uri == uri::uri_path(uri) && found[n].line
            == r.line && found[n].character == r.character by {
        let x = f(infos[k]);
        infos.lemma_filter_contains(p, k);
        let kept = infos.filter(p);
        let m = choose|m: int| 0 <= m < kept.len() && kept[m] == infos[k];
        assert(places[m] == x);
        assert(places.contains(x));
        assert(read::has_place(found, x));
        let n = choose|n: int| 0 <= n < found.len() && read::same_place(#[trigger] found[n], x);
        assert(found[n].uri == uri::uri_path(uri));
    }
    assert forall|n: int| 0 <= n < found.len() implies exists|k: int|
        0 <= k < infos.len() && (#[trigger] infos[k]).at("name"@).text() == query
            && types::location_of(infos[k].at("location"@)) == #[trigger] found[n] by {
        let x = found[n];
        assert(found.contains(x));
        assert(places.contains(x));
        let kept = infos.filter(p);
        let m = choose|m: int| 0 <= m < places.len() && places[m] == x;
        assert(x == f(kept[m]));
        assert(kept.contains(kept[m]));
        infos.lemma_filter_contains_rev(p, kept[m]);
        infos.lemma_filter_pred(p, m);
        let k = choose|k: int| 0 <= k < infos.len() && infos[k] == kept[m];
        assert(infos[k].at("name"@).text() == query);
    }
}

// ---------------------------------------------------------------------------
// Links
// ---------------------------------------------------------------------------

/// Whether a place comes at or before another.
pub open spec fn not_after(line: u32, character: u32, other_line: u32, other_character: u32) -> bool {
    line < other_line || (line == other_line && character <= other_character)
}

/// Whether a range holds a place, its ends among it.
pub open spec fn covers(r: RangeItem, line: u32, character: u32) -> bool {
    not_after(r.line, r.character, line, character) && not_after(
        line,
        character,
        r.end_line,
        r.end_character,
    )
}

/// Whether a link leads to a file and touches a line.
pub open spec fn leads_from(link: DocumentLinkView, line: u32) -> bool {
    &&& link.target is Some
    &&& "file://"@.is_prefix_of(link.target->0)
    &&& link.range.line <= line
    &&& line <= link.range.end_line
}

/// The file that is opened is that of a link on the line, from its start on. A
/// link under the cursor is taken before any other; without one, no other link
/// on the line is nearer to the cursor.
pub proof fn law_nearest_link_is_followed(
    links: Seq<DocumentLinkView>,
    line: u32,
    character: u32,
)
    ensures
        match read::selected_link(links, line, character) {
            Some(l) => exists|b: int|
                #![trigger links[b]]
                {
                    &&& 0 <= b < links.len()
                    &&& leads_from(links[b], line)
                    &&& l.uri == uri::uri_path(links[b].target->0)
                    &&& l.line == 0
                    &&& l.character == 0
                    &&& l.end_line is None
                    &&& l.end_character is None
                    &&& forall|k: int|
                        0 <= k < links.len() && leads_from(#[trigger] links[k], line) && covers(
                            links[k].range,
                            line,
                            character,
                        ) ==> covers(links[b].range, line, character) && b <= k
                    &&& forall|k: int|
                        0 <= k < links.len() && leads_from(#[trigger] links[k], line) && !covers(
                            links[b].range,
                            line,
                            character,
                        ) ==> gap(links[b].range, line, character) <= gap(
                            links[k].range,
                            line,
                            character,
                        )
                },
            None => forall|k: int|
                0 <= k < links.len() ==> !leads_from(#[trigger] links[k], line),
        },
{
    read::law_best_link(links, line, character);
    assert forall|k: int| 0 <= k < links.len() implies leads_from(#[trigger] links[k], line)
        == read::link_usable(links[k], line) by {}
    assert forall|k: int| 0 <= k < links.len() implies covers(
        (#[trigger] links[k]).range,
        line,
        character,
    ) == read::holds_cursor(links[k].range, line, character) by {}
    if let Some(b) = read::best_link(links, line, character) {
        assert(leads_from(links[b], line));
        assert forall|k: int|
            0 <= k < links.len() && leads_from(#[trigger] links[k], line) && covers(
                links[k].range,
                line,
                character,
            ) implies covers(links[b].range, line, character) && b <= k by {
            assert(!read::link_nearer(links[k], links[b], line, character));
            if k < b {
                assert(read::link_nearer(links[b], links[k], line, character));
            }
        }
        assert forall|k: int|
            0 <= k < links.len() && leads_from(#[trigger] links[k], line) && !covers(
                links[b].range,
                line,
                character,
            ) implies gap(links[b].range, line, character) <= gap(
            links[k].range,
            line,
            character,
        ) by {
            assert(!read::link_nearer(links[k], links[b], line, character));
        }
    }
}

/// How many characters lie between a place and a range that touches its line
/// and does not hold it.
pub open spec fn gap(r: RangeItem, line: u32, character: u32) -> int {
    if covers(r, line, character) {
        0
    } else if !not_after(r.line, r.character, line, character) {
        r.character - character
    } else {
        character - r.end_character
    }
}

/// The links of an answer are read with the range and the file that each names.
pub proof fn law_links_are_read(items: Seq<JsonView>, i: int, target: Seq<char>, r: RangeItem)
    requires
        0 <= i < items.len(),
        shapes::spans(items[i], "range"@, r),
    ensures
        wire::lsp_list::<read::DocumentLink>(items).len() == items.len(),
        wire::lsp_list::<read::DocumentLink>(items)[i].range == r,
        shapes::has_text(items[i], "target"@, target) ==> wire::lsp_list::<read::DocumentLink>(
            items,
        )[i].target == Some(target),
        shapes::lacks(items[i], "target"@) ==> wire::lsp_list::<read::DocumentLink>(
            items,
        )[i].target is None,
{
}

// ---------------------------------------------------------------------------
// Hover
// ---------------------------------------------------------------------------

/// A hover shows the text that it holds: plain text as it is, marked-up content
/// by its value, and code in a fence with its language.
pub proof fn law_hover_shows_its_text(
    hover: JsonView,
    contents: JsonView,
    language: Seq<char>,
    value: Seq<char>,
)
    requires
        shapes::has(hover, "contents"@, contents),
    ensures
        shapes::is_text(contents, value) ==> read::hover_text_of(hover) == value,
        shapes::has_text(contents, "value"@, value) && shapes::lacks(contents, "language"@)
            ==> read::hover_text_of(hover) == value,
        shapes::has_text(contents, "language"@, language) && shapes::has_text(
            contents,
            "value"@,
            value,
        ) ==> read::hover_text_of(hover) == "```"@ + language + "\n"@ + value + "\n```"@,
{
}

/// The parts of a hover follow each other with an empty line between them, and
/// none is left out.
pub proof fn law_hover_parts_follow_each_other(
    shorter: JsonView,
    longer: JsonView,
    last: JsonView,
    parts: Seq<JsonView>,
    part: JsonView,
)
    requires
        shapes::has_list(shorter, "contents"@, parts),
        shapes::has_list(longer, "contents"@, parts.push(part)),
        shapes::has(last, "contents"@, part),
        part is Str || (shapes::holds(part, "language"@) && shapes::holds(part, "value"@)),
    ensures
        parts.len() > 0 ==> read::hover_text_of(longer) == read::hover_text_of(shorter) + "\n\n"@
            + read::hover_text_of(last),
        parts.len() == 0 ==> read::hover_text_of(longer) == read::hover_text_of(last),
{
    let a = Seq::new(parts.len(), |i: int| read::marked_text_of(parts[i]));
    let more = parts.push(part);
    let b = Seq::new(more.len(), |i: int| read::marked_text_of(more[i]));
    assert(b.drop_last() =~= a);
    assert(b.last() == read::marked_text_of(part));
}

// ---------------------------------------------------------------------------
// Signatures
// ---------------------------------------------------------------------------

/// Every signature is shown, under its label, with every parameter. The active
/// parameter is the signature's own, or that of the answer where it names none.
pub proof fn law_signatures_are_shown(
    help: JsonView,
    sigs: Seq<JsonView>,
    i: int,
    label: Seq<char>,
    params: Seq<JsonView>,
    own: u32,
    shared: u32,
)
    requires
        shapes::has_list(help, "signatures"@, sigs),
        0 <= i < sigs.len(),
        shapes::has_text(sigs[i], "label"@, label),
        shapes::has_list(sigs[i], "parameters"@, params) || (shapes::lacks(sigs[i], "parameters"@)
            && params.len() == 0),
    ensures
        read::signatures_of(help) is Some,
        ({
            let shown = (read::signatures_of(help)->0)[i];
            &&& (read::signatures_of(help)->0).len() == sigs.len()
            &&& shown.label == label
            &&& shown.parameters.len() == params.len()
            &&& shapes::has_number(sigs[i], "activeParameter"@, own as int)
                ==> shown.active_parameter == Some(own)
            &&& shapes::lacks(sigs[i], "activeParameter"@) && shapes::has_number(
                help,
                "activeParameter"@,
                shared as int,
            ) ==> shown.active_parameter == Some(shared)
            &&& shapes::lacks(sigs[i], "activeParameter"@) && shapes::lacks(
                help,
                "activeParameter"@,
            ) ==> shown.active_parameter is None
        }),
{
    assert(sigs[i].at("parameters"@).items() =~= params);
}

/// What is said of a signature is its documentation.
pub proof fn law_signatures_keep_their_documentation(
    help: JsonView,
    sigs: Seq<JsonView>,
    i: int,
    doc: JsonView,
    words: Seq<char>,
)
    requires
        shapes::has_list(help, "signatures"@, sigs),
        0 <= i < sigs.len(),
    ensures
        shapes::has_text(sigs[i], "documentation"@, words) ==> (read::signatures_of(
            help,
        )->0)[i].documentation == Some(words),
        shapes::has(sigs[i], "documentation"@, doc) && shapes::has_text(doc, "value"@, words)
            ==> (read::signatures_of(help)->0)[i].documentation == Some(words),
        shapes::lacks(sigs[i], "documentation"@) ==> (read::signatures_of(
            help,
        )->0)[i].documentation is None,
{
}

/// A parameter is shown under its label, which is a text of its own or the bytes
/// of the signature's label from one offset up to another.
pub proof fn law_parameters_are_labelled(
    help: JsonView,
    sigs: Seq<JsonView>,
    i: int,
    signature: Seq<char>,
    params: Seq<JsonView>,
    k: int,
    label: Seq<char>,
    from: u32,
    to: u32,
)
    requires
        shapes::has_list(help, "signatures"@, sigs),
        0 <= i < sigs.len(),
        shapes::has_text(sigs[i], "label"@, signature),
        shapes::has_list(sigs[i], "parameters"@, params),
        0 <= k < params.len(),
    ensures
        shapes::has_text(params[k], "label"@, label) ==> (read::signatures_of(
            help,
        )->0)[i].parameters[k].label == label,
        shapes::has_list(
            params[k],
            "label"@,
            seq![JsonView::Int(from as int), JsonView::Int(to as int)],
        ) && from <= to <= encode_utf8(signature).len() && valid_utf8(
            encode_utf8(signature).subrange(from as int, to as int),
        ) ==> encode_utf8((read::signatures_of(help)->0)[i].parameters[k].label) == encode_utf8(
            signature,
        ).subrange(from as int, to as int),
        shapes::has_list(
            params[k],
            "label"@,
            seq![JsonView::Int(from as int), JsonView::Int(to as int)],
        ) && (from > to || to > encode_utf8(signature).len() || !valid_utf8(
            encode_utf8(signature).subrange(from as int, to as int),
        )) ==> (read::signatures_of(help)->0)[i].parameters[k].label.len() == 0,
        shapes::has_text(params[k], "documentation"@, label) ==> (read::signatures_of(
            help,
        )->0)[i].parameters[k].documentation == Some(label),
        shapes::lacks(params[k], "documentation"@) ==> (read::signatures_of(
            help,
        )->0)[i].parameters[k].documentation is None,
{
    let part = encode_utf8(signature).subrange(from as int, to as int);
    if from <= to <= encode_utf8(signature).len() && valid_utf8(part) {
        decode_utf8_encode_utf8(part);
    }
}

// ---------------------------------------------------------------------------
// Diagnostics
// ---------------------------------------------------------------------------

/// Whether a diagnostic covers a range.
pub open spec fn is_over(d: DiagnosticItemView, r: RangeItem) -> bool {
    &&& d.line == r.line
    &&& d.character == r.character
    &&& d.end_line == r.end_line
    &&& d.end_character == r.end_character
}

/// Every diagnostic is read over its range, with its message, its severity and
/// its source. One without a severity is information.
pub proof fn law_diagnostics_are_read(
    items: Seq<JsonView>,
    i: int,
    r: RangeItem,
    message: Seq<char>,
    severity: int,
    word: Seq<char>,
)
    requires
        0 <= i < items.len(),
        shapes::spans(items[i], "range"@, r),
        shapes::has_text(items[i], "message"@, message),
    ensures
        features::diagnostics_outcome(Ok(JsonView::Array(items))).len() == items.len(),
        ({
            let d = features::diagnostics_outcome(Ok(JsonView::Array(items)))[i];
            &&& is_over(d, r)
            &&& d.message == message
            &&& shapes::has_number(items[i], "severity"@, severity) && 1 <= severity <= 4
                ==> d.severity == severity
            &&& shapes::lacks(items[i], "severity"@) ==> d.severity == 3
            &&& shapes::has_text(items[i], "source"@, word) ==> d.source == Some(word)
            &&& shapes::lacks(items[i], "source"@) ==> d.source is None
            &&& shapes::has_text(items[i], "code"@, word) ==> d.code == Some(word)
            &&& shapes::lacks(items[i], "code"@) ==> d.code is None
        }),
        wire::lsp_list::<DiagnosticItem>(items) == features::diagnostics_outcome(
            Ok(JsonView::Array(items)),
        ),
{
}

/// A number as the code of a diagnostic is shown by its digits.
pub proof fn law_diagnostic_numbers_are_shown(items: Seq<JsonView>, i: int, n: int)
    requires
        0 <= i < items.len(),
        shapes::has_number(items[i], "code"@, n),
        i64::MIN <= n <= i64::MAX,
    ensures
        n >= 0 ==> wire::lsp_list::<DiagnosticItem>(items)[i].code == Some(text::decimal(n as nat)),
        n < 0 ==> wire::lsp_list::<DiagnosticItem>(items)[i].code == Some(
            "-"@ + text::decimal((-n) as nat),
        ),
{
    reveal_strlit("-");
    assert("-"@ =~= seq!['-']);
}

/// The diagnostics of an answer are its items, or its related documents where it
/// has no items.
pub proof fn law_reports_hold_their_items(result: JsonView, items: JsonView)
    ensures
        shapes::has(result, "items"@, items) ==> features::report_items(result) == items,
        shapes::lacks(result, "items"@) && shapes::has(result, "relatedDocuments"@, items)
            ==> features::report_items(result) == items,
        shapes::lacks(result, "items"@) && shapes::lacks(result, "relatedDocuments"@)
            ==> features::report_items(result) == JsonView::Array(Seq::empty()),
{
}

// ---------------------------------------------------------------------------
// Highlights, hints, hierarchies, ranges and lenses
// ---------------------------------------------------------------------------

/// Every highlight is read over its range, as a read, a write or plain text.
pub proof fn law_highlights_are_read(items: Seq<JsonView>, i: int, r: RangeItem)
    requires
        0 <= i < items.len(),
        shapes::spans(items[i], "range"@, r),
    ensures
        wire::lsp_list::<DocumentHighlightItem>(items).len() == items.len(),
        ({
            let h = wire::lsp_list::<DocumentHighlightItem>(items)[i];
            &&& h.line == r.line
            &&& h.character == r.character
            &&& h.end_line == r.end_line
            &&& h.end_character == r.end_character
            &&& shapes::has_number(items[i], "kind"@, 1) ==> h.kind == "text"@
            &&& shapes::has_number(items[i], "kind"@, 2) ==> h.kind == "read"@
            &&& shapes::has_number(items[i], "kind"@, 3) ==> h.kind == "write"@
            &&& shapes::lacks(items[i], "kind"@) ==> h.kind == "text"@
        }),
{
}

/// Every hint is read at its position, with its label, its kind and its padding.
pub proof fn law_hints_are_read(
    items: Seq<JsonView>,
    i: int,
    position: JsonView,
    line: u32,
    character: u32,
    label: Seq<char>,
    padded: bool,
)
    requires
        0 <= i < items.len(),
        shapes::has(items[i], "position"@, position),
        shapes::is_position(position, line, character),
    ensures
        wire::lsp_list::<InlayHintItem>(items).len() == items.len(),
        ({
            let h = wire::lsp_list::<InlayHintItem>(items)[i];
            &&& h.line == line
            &&& h.character == character
            &&& shapes::has_text(items[i], "label"@, label) ==> h.label == label
            &&& shapes::has_number(items[i], "kind"@, 1) ==> h.kind == "type"@
            &&& shapes::has_number(items[i], "kind"@, 2) ==> h.kind == "parameter"@
            &&& shapes::lacks(items[i], "kind"@) ==> h.kind == "other"@
            &&& shapes::has(items[i], "paddingLeft"@, JsonView::Bool(padded)) ==> h.padding_left
                == padded
            &&& shapes::lacks(items[i], "paddingLeft"@) ==> !h.padding_left
            &&& shapes::has(items[i], "paddingRight"@, JsonView::Bool(padded)) ==> h.padding_right
                == padded
            &&& shapes::lacks(items[i], "paddingRight"@) ==> !h.padding_right
        }),
{
}

/// The label of a hint that comes in parts is the parts one after another.
pub proof fn law_hint_parts_follow_each_other(
    parts: Seq<JsonView>,
    part: JsonView,
    value: Seq<char>,
)
    requires
        shapes::has_text(part, "value"@, value),
    ensures
        read::hint_label_of(JsonView::Array(Seq::empty())).len() == 0,
        read::hint_label_of(JsonView::Array(parts.push(part))) == read::hint_label_of(
            JsonView::Array(parts),
        ) + value,
{
    reveal_strlit("");
    let more = parts.push(part);
    let a = Seq::new(parts.len(), |i: int| parts[i].at("value"@).text());
    let b = Seq::new(more.len(), |i: int| more[i].at("value"@).text());
    assert(b.drop_last() =~= a);
    assert(b.last() == value);
    assert(read::hint_label_of(JsonView::Array(more)) == text::joined(b, ""@));
    assert(read::hint_label_of(JsonView::Array(parts)) == text::joined(a, ""@));
    assert(text::joined(b, ""@) =~= text::joined(a, ""@) + value);
    let none = Seq::<JsonView>::empty();
    let c = Seq::new(none.len(), |i: int| none[i].at("value"@).text());
    assert(read::hint_label_of(JsonView::Array(none)) == text::joined(c, ""@));
}

/// Whether a value is an item of a hierarchy.
pub open spec fn is_hierarchy_item(
    j: JsonView,
    name: Seq<char>,
    uri: Seq<char>,
    selection: RangeItem,
) -> bool {
    &&& shapes::has_text(j, "name"@, name)
    &&& shapes::has_text(j, "uri"@, uri)
    &&& shapes::spans(j, "selectionRange"@, selection)
}

/// Whether an item of a hierarchy is read with what it names.
pub open spec fn shows_item(
    v: CallHierarchyItemView,
    j: JsonView,
    name: Seq<char>,
    uri: Seq<char>,
    selection: RangeItem,
) -> bool {
    &&& v.name == name
    &&& v.uri == uri
    &&& v.line == selection.line
    &&& v.character == selection.character
    &&& forall|n: int| #[trigger]
        shapes::has_number(j, "kind"@, n) && 1 <= n <= 26 ==> v.kind == reading::symbol_kinds()[n
            - 1]
    &&& forall|detail: Seq<char>| #[trigger]
        shapes::has_text(j, "detail"@, detail) ==> v.detail == Some(detail)
    &&& shapes::lacks(j, "detail"@) ==> v.detail is None
}

proof fn lemma_item(j: JsonView, name: Seq<char>, uri: Seq<char>, selection: RangeItem)
    requires
        is_hierarchy_item(j, name, uri, selection),
    ensures
        shows_item(
            <CallHierarchyItem as wire::FromLsp>::lsp(j),
            j,
            name,
            uri,
            selection,
        ),
{
    assert forall|n: int| #[trigger] shapes::has_number(j, "kind"@, n) && 1 <= n
        <= 26 implies <CallHierarchyItem as wire::FromLsp>::lsp(j).kind
        == reading::symbol_kinds()[n - 1] by {
        reading::law_symbol_kinds(n);
    }
}

/// Every item of a hierarchy is read under its name, at the start of what is
/// selected for it.
pub proof fn law_hierarchy_items_are_read(
    items: Seq<JsonView>,
    i: int,
    name: Seq<char>,
    uri: Seq<char>,
    selection: RangeItem,
)
    requires
        0 <= i < items.len(),
        is_hierarchy_item(items[i], name, uri, selection),
    ensures
        wire::lsp_list::<CallHierarchyItem>(items).len() == items.len(),
        shows_item(
            wire::lsp_list::<CallHierarchyItem>(items)[i],
            items[i],
            name,
            uri,
            selection,
        ),
{
    lemma_item(items[i], name, uri, selection);
}

/// Every call is read with the item at its other end, and with every range from
/// which it is made.
pub proof fn law_calls_are_read(
    items: Seq<JsonView>,
    i: int,
    key: Seq<char>,
    item: JsonView,
    name: Seq<char>,
    uri: Seq<char>,
    selection: RangeItem,
    ranges: Seq<JsonView>,
    k: int,
    r: RangeItem,
)
    requires
        0 <= i < items.len(),
        shapes::has(items[i], key, item),
        is_hierarchy_item(item, name, uri, selection),
        shapes::has_list(items[i], "fromRanges"@, ranges),
    ensures
        ({
            let calls = features::calls_outcome(Ok(JsonView::Array(items)), key);
            &&& calls is Ok
            &&& calls->Ok_0.len() == items.len()
            &&& shows_item(calls->Ok_0[i].item, item, name, uri, selection)
            &&& calls->Ok_0[i].from_ranges.len() == ranges.len()
            &&& 0 <= k < ranges.len() && shapes::is_span(ranges[k], r)
                ==> calls->Ok_0[i].from_ranges[k] == r
        }),
{
    lemma_item(item, name, uri, selection);
}

/// The range so many steps around another.
pub open spec fn range_around(j: JsonView, steps: nat) -> JsonView
    decreases steps,
{
    if steps == 0 {
        j
    } else {
        range_around(shapes::member(j, "parent"@), (steps - 1) as nat)
    }
}

/// Whether there are so many ranges around another.
pub open spec fn goes_around(j: JsonView, steps: nat) -> bool
    decreases steps,
{
    steps > 0 ==> shapes::holds(j, "parent"@) && !(shapes::member(j, "parent"@) is Null)
        && goes_around(shapes::member(j, "parent"@), (steps - 1) as nat)
}

/// The shown range so many steps around another.
pub open spec fn shown_around(v: SelectionRangeItemView, steps: nat) -> SelectionRangeItemView
    decreases steps,
{
    if steps == 0 {
        v
    } else {
        shown_around(*v.parent->0, (steps - 1) as nat)
    }
}

proof fn lemma_around(j: JsonView, steps: nat)
    requires
        goes_around(j, steps),
    ensures
        shown_around(read::selection_of(j), steps) == read::selection_of(range_around(j, steps)),
    decreases steps,
{
    if steps > 0 {
        lemma_around(shapes::member(j, "parent"@), (steps - 1) as nat);
    }
}

/// Every selection range is read with all ranges around it, each where it is.
pub proof fn law_selection_ranges_are_read(
    items: Seq<JsonView>,
    i: int,
    steps: nat,
    r: RangeItem,
)
    requires
        0 <= i < items.len(),
        goes_around(items[i], steps),
        shapes::spans(range_around(items[i], steps), "range"@, r),
    ensures
        wire::lsp_list::<SelectionRangeItem>(items).len() == items.len(),
        ({
            let v = shown_around(wire::lsp_list::<SelectionRangeItem>(items)[i], steps);
            &&& v.line == r.line
            &&& v.character == r.character
            &&& v.end_line == r.end_line
            &&& v.end_character == r.end_character
            &&& shapes::lacks(range_around(items[i], steps), "parent"@) ==> v.parent is None
        }),
{
    lemma_around(items[i], steps);
}

/// Every fold is read from its first line to its last.
pub proof fn law_folds_are_read(
    items: Seq<JsonView>,
    i: int,
    first: u32,
    last: u32,
    kind: Seq<char>,
)
    requires
        0 <= i < items.len(),
        shapes::has_number(items[i], "startLine"@, first as int),
        shapes::has_number(items[i], "endLine"@, last as int),
    ensures
        wire::lsp_list::<FoldingRangeItem>(items).len() == items.len(),
        wire::lsp_list::<FoldingRangeItem>(items)[i].start_line == first,
        wire::lsp_list::<FoldingRangeItem>(items)[i].end_line == last,
        shapes::has_text(items[i], "kind"@, kind) ==> wire::lsp_list::<FoldingRangeItem>(
            items,
        )[i].kind == Some(kind),
        shapes::lacks(items[i], "kind"@) ==> wire::lsp_list::<FoldingRangeItem>(items)[i].kind
            is None,
{
}

/// Every range that is edited together with others is read, with the pattern of
/// the words.
pub proof fn law_linked_ranges_are_read(
    j: JsonView,
    ranges: Seq<JsonView>,
    i: int,
    r: RangeItem,
    pattern: Seq<char>,
)
    requires
        shapes::has_list(j, "ranges"@, ranges),
        0 <= i < ranges.len(),
        shapes::is_span(ranges[i], r),
    ensures
        read::linked_ranges_of(j).ranges.len() == ranges.len(),
        read::linked_ranges_of(j).ranges[i] == r,
        shapes::has_text(j, "wordPattern"@, pattern) ==> read::linked_ranges_of(j).word_pattern
            == Some(pattern),
        shapes::lacks(j, "wordPattern"@) ==> read::linked_ranges_of(j).word_pattern is None,
{
}

/// Every lens is read over its range, with the title of its command, and is
/// found again by its index.
pub proof fn law_lenses_are_read(
    items: Seq<JsonView>,
    i: int,
    r: RangeItem,
    command: JsonView,
    title: Seq<char>,
)
    requires
        0 <= i < items.len() <= usize::MAX,
        shapes::spans(items[i], "range"@, r),
    ensures
        read::lenses_of(items).len() == items.len(),
        ({
            let v = read::lenses_of(items)[i];
            &&& v.line == r.line
            &&& v.character == r.character
            &&& v.end_line == r.end_line
            &&& v.end_character == r.end_character
            &&& v.index == i
            &&& shapes::has(items[i], "command"@, command) && shapes::has_text(
                command,
                "title"@,
                title,
            ) ==> v.command_title == Some(title)
            &&& shapes::lacks(items[i], "command"@) ==> v.command_title is None
        }),
{
}

// ---------------------------------------------------------------------------
// Actions
// ---------------------------------------------------------------------------

/// Every action is shown under its title, with its kind where it is more than a
/// bare command, and is found again by its index: what is kept at that index is
/// the action itself.
pub proof fn law_actions_are_shown_and_kept(
    items: Seq<JsonView>,
    i: int,
    title: Seq<char>,
    kind: Seq<char>,
    action: JsonView,
)
    requires
        0 <= i < items.len() <= usize::MAX,
        shapes::has_text(items[i], "title"@, title),
    ensures
        actions::shown_actions(items).len() == items.len(),
        actions::kept_actions(items).len() == items.len(),
        actions::shown_actions(items)[i].title == title,
        actions::shown_actions(items)[i].index == i,
        ({
            let acts = shapes::holds(items[i], "edit"@) || shapes::holds(items[i], "command"@);
            let shown = actions::shown_actions(items)[i];
            let kept = actions::kept_actions(items)[i];
            &&& acts && shapes::has_text(items[i], "kind"@, kind) ==> shown.kind == Some(kind)
            &&& !acts || shapes::lacks(items[i], "kind"@) ==> shown.kind is None
            &&& acts && decode::read_code_action(items[i]) == Ok::<JsonView, Seq<char>>(action)
                ==> kept == action
            &&& !acts ==> shapes::has_text(kept, "title"@, title) && shapes::lacks(kept, "edit"@)
                && shapes::lacks(kept, "command"@)
        }),
{
    reveal_strlit("title");
    reveal_strlit("edit");
    reveal_strlit("command");
    assert("title"@.len() == 5 && "edit"@.len() == 4 && "command"@.len() == 7);
}

/// Executing an action applies its edit, where it has one, and runs its command,
/// where it has one: the command by its name, with its own arguments.
pub proof fn law_actions_do_what_they_say(
    edit: Option<types::WorkspaceEditView>,
    call: Option<crate::lsp::call::CallView>,
    action: JsonView,
    e: JsonView,
    command: JsonView,
    name: Seq<char>,
    arguments: JsonView,
)
    requires
        actions::is_action_step(edit, call, action),
    ensures
        shapes::has(action, "edit"@, e) && !(e is Null) ==> edit is Some
            && types::is_workspace_edit_of(edit->0, e),
        shapes::lacks(action, "edit"@) ==> edit is None,
        shapes::lacks(action, "command"@) ==> call is None,
        shapes::has(action, "command"@, command) && shapes::has_text(command, "command"@, name)
            ==> call is Some && runs_command(call->0, name) && (shapes::has(
            command,
            "arguments"@,
            arguments,
        ) ==> shapes::has(call->0.params, "arguments"@, arguments)),
{
    reveal_strlit("command");
    reveal_strlit("arguments");
    assert("command"@.len() == 7 && "arguments"@.len() == 9);
}

/// Whether a request runs a command.
pub open spec fn runs_command(call: crate::lsp::call::CallView, name: Seq<char>) -> bool {
    call.method == "workspace/executeCommand"@ && shapes::has_text(call.params, "command"@, name)
}

/// Executing a lens runs its command, where it has one; without one the lens
/// itself is sent to be filled in.
pub proof fn law_lenses_run_their_command(
    lens: JsonView,
    command: JsonView,
    name: Seq<char>,
)
    requires
        lens is Object,
    ensures
        shapes::has(lens, "command"@, command) && shapes::has_text(command, "command"@, name) ==> {
            &&& actions::lens_step(lens) is Execute
            &&& runs_command(actions::lens_step(lens)->Execute_0, name)
            &&& actions::lens_command(lens) == actions::lens_step(lens)
        },
        shapes::lacks(lens, "command"@) ==> {
            &&& actions::lens_step(lens) is Resolve
            &&& actions::lens_step(lens)->Resolve_0.method == "codeLens/resolve"@
            &&& actions::lens_step(lens)->Resolve_0.params == lens
            &&& actions::lens_command(lens) is Nothing
        },
{
    reveal_strlit("command");
    reveal_strlit("arguments");
    assert("command"@.len() == 7 && "arguments"@.len() == 9);
}

} // verus!
