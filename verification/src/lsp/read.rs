//! What the client makes of the results of requests.
//!
//! Each function takes a result in the protocol's own form and gives the
//! values that the editor receives.

use vstd::prelude::*;
use vstd::string::*;
use vstd::utf8::*;

use crate::json;
use crate::json::{Json, JsonView};
use crate::lsp::decode;
use crate::lsp::types;
use crate::lsp::types::{
    extract_doc, from_lsp_location, from_lsp_location_link, highlight_kind_label, range_at,
    symbol_kind_label, CallHierarchyCall, CallHierarchyCallView, CallHierarchyItem,
    CallHierarchyItemView, CodeLensItem, CodeLensItemView, DocumentHighlightItem,
    DocumentHighlightItemView, DocumentSymbolItem, DocumentSymbolItemView, FoldingRangeItem,
    FoldingRangeItemView, InlayHintItem, InlayHintItemView, LinkedEditingRangeItem,
    LinkedEditingRangeItemView, Location, LocationView, ParameterInfo, ParameterInfoView,
    RangeItem, SelectionRangeItem, SelectionRangeItemView, SignatureInfo, SignatureInfoView,
};
use crate::lsp::wire;
use crate::lsp::wire::{read_items, read_items_at, FromLsp};
use crate::seqs;
use crate::text;
use crate::uri;
use crate::uri::decode_uri;

verus! {

// ---------------------------------------------------------------------------
// Hover
// ---------------------------------------------------------------------------

/// Source text in a fenced block.
pub open spec fn fenced(language: Seq<char>, value: Seq<char>) -> Seq<char> {
    "```"@ + language + "\n"@ + value + "\n```"@
}

/// The text of a `MarkedString`.
pub open spec fn marked_text_of(j: JsonView) -> Seq<char> {
    match j {
        JsonView::Str(s) => s,
        _ => fenced(j.at("language"@).text(), j.at("value"@).text()),
    }
}

/// The text of a `Hover`: its marked strings with an empty line between them,
/// or its marked-up content.
pub open spec fn hover_text_of(j: JsonView) -> Seq<char> {
    let contents = j.at("contents"@);
    match contents {
        JsonView::Array(items) => text::joined(
            Seq::new(items.len(), |i: int| marked_text_of(items[i])),
            "\n\n"@,
        ),
        _ => if contents is Str || contents.get("language"@) is Some {
            marked_text_of(contents)
        } else {
            contents.at("value"@).text()
        },
    }
}

fn marked_text(j: &Json) -> (r: String)
    ensures
        r@ == marked_text_of(j@),
{
    match j.as_str() {
        Some(s) => s.to_string(),
        None => {
            let language = j.text_at("language");
            let value = j.text_at("value");
            "```".to_string().concat(language.as_str()).concat("\n").concat(
                value.as_str(),
            ).concat("\n```")
        },
    }
}

/// Reads the text of a `Hover`.
pub fn hover_text(hover: &Json) -> (r: String)
    ensures
        r@ == hover_text_of(hover@),
{
    let contents = hover.at("contents");
    if let Some(items) = contents.as_array() {
        let mut parts: Vec<String> = Vec::new();
        let mut i: usize = 0;
        while i < items.len()
            invariant
                i <= items@.len(),
                parts@.len() == i,
                forall|k: int| 0 <= k < i ==> (#[trigger] parts@[k])@ == marked_text_of(items@[k]@),
            decreases items@.len() - i,
        {
            parts.push(marked_text(&items[i]));
            i = i + 1;
        }
        proof {
            let js = json::items_view(items@);
            assert(parts.deep_view() =~= Seq::new(js.len(), |i: int| marked_text_of(js[i])));
        }
        return text::join(&parts, "\n\n");
    }
    let marked = match contents.as_str() {
        Some(_) => true,
        None => match contents.get("language") {
            Some(_) => true,
            None => false,
        },
    };
    if marked {
        marked_text(&contents)
    } else {
        contents.text_at("value")
    }
}

// ---------------------------------------------------------------------------
// Locations
// ---------------------------------------------------------------------------

/// Where a list of `LocationLink`s leads.
pub open spec fn link_targets_of(items: Seq<JsonView>) -> Seq<LocationView> {
    Seq::new(items.len(), |i: int| types::link_target_of(items[i]))
}

/// The locations that a result names: one location, a list of them, or a list
/// of links. Anything else names none.
pub open spec fn locations_of(result: JsonView) -> Seq<LocationView> {
    if result is Null {
        Seq::empty()
    } else {
        match decode::read_location(result) {
            Ok(one) => seq![types::location_of(one)],
            Err(_) => match decode::read_locations(result) {
                Ok(list) => wire::lsp_list::<Location>(list.items()),
                Err(_) => match decode::read_location_links(result) {
                    Ok(links) => link_targets_of(links.items()),
                    Err(_) => Seq::empty(),
                },
            },
        }
    }
}

/// Reads where the links of a list lead.
pub fn link_targets(links: &Json) -> (r: Vec<Location>)
    ensures
        r.deep_view() == link_targets_of(links@.items()),
{
    let mut out: Vec<Location> = Vec::new();
    if let Some(items) = links.as_array() {
        let mut i: usize = 0;
        while i < items.len()
            invariant
                i <= items@.len(),
                out@.len() == i,
                forall|k: int|
                    0 <= k < i ==> (#[trigger] out@[k]).deep_view() == types::link_target_of(
                        items@[k]@,
                    ),
            decreases items@.len() - i,
        {
            out.push(from_lsp_location_link(&items[i]));
            i = i + 1;
        }
    }
    assert(out.deep_view() =~= link_targets_of(links@.items()));
    out
}

/// Reads the locations that a result names. This never fails.
pub fn parse_locations(result: &Json) -> (r: Result<Vec<Location>, String>)
    ensures
        r is Ok,
        r->Ok_0.deep_view() == locations_of(result@),
{
    let mut out: Vec<Location> = Vec::new();
    if result.is_null() {
        assert(out.deep_view() =~= locations_of(result@));
        return Ok(out);
    }
    if let Ok(loc) = decode::location(result) {
        out.push(from_lsp_location(&loc));
        assert(out.deep_view() =~= locations_of(result@));
        return Ok(out);
    }
    if let Ok(list) = decode::locations(result) {
        return Ok(read_items(&list));
    }
    if let Ok(links) = decode::location_links(result) {
        return Ok(link_targets(&links));
    }
    assert(out.deep_view() =~= locations_of(result@));
    Ok(out)
}

/// A link in a document.
pub struct DocumentLink {
    pub range: RangeItem,
    pub target: Option<String>,
}

/// The model of [`DocumentLink`].
#[verifier::ext_equal]
pub struct DocumentLinkView {
    pub range: RangeItem,
    pub target: Option<Seq<char>>,
}

impl DeepView for DocumentLink {
    type V = DocumentLinkView;

    open spec fn deep_view(&self) -> DocumentLinkView {
        DocumentLinkView { range: self.range, target: self.target.deep_view() }
    }
}

impl FromLsp for DocumentLink {
    open spec fn lsp(j: JsonView) -> DocumentLinkView {
        DocumentLinkView {
            range: types::range_of(j.at("range"@)),
            target: j.at("target"@).as_str(),
        }
    }

    fn from_lsp(j: &Json) -> (r: DocumentLink) {
        DocumentLink { range: range_at(j, "range"), target: j.string_at("target") }
    }
}

/// Whether a link can be followed from a line: it leads to a file, and covers
/// the line.
pub open spec fn link_usable(link: DocumentLinkView, line: u32) -> bool {
    &&& link.target matches Some(target) && "file://"@.is_prefix_of(target)
    &&& link.range.line <= line <= link.range.end_line
}

/// Whether a range holds a position.
pub open spec fn holds_cursor(range: RangeItem, line: u32, character: u32) -> bool {
    &&& line > range.line || (line == range.line && character >= range.character)
    &&& line < range.end_line || (line == range.end_line && character <= range.end_character)
}

/// How many characters lie between a position and a range on its line.
pub open spec fn link_distance(range: RangeItem, line: u32, character: u32) -> int {
    if holds_cursor(range, line, character) {
        0
    } else if line == range.line && character < range.character {
        range.character - character
    } else if line == range.end_line && character > range.end_character {
        character - range.end_character
    } else {
        0
    }
}

/// Whether one link is to be preferred to another: a link that holds the
/// position comes first, then the nearer one.
pub open spec fn link_nearer(
    a: DocumentLinkView,
    b: DocumentLinkView,
    line: u32,
    character: u32,
) -> bool {
    let inside_a = holds_cursor(a.range, line, character);
    let inside_b = holds_cursor(b.range, line, character);
    if inside_a != inside_b {
        inside_a
    } else {
        link_distance(a.range, line, character) < link_distance(b.range, line, character)
    }
}

/// Which link to follow: of the usable ones, the first that no other is
/// preferred to.
pub open spec fn best_link(links: Seq<DocumentLinkView>, line: u32, character: u32) -> Option<int>
    decreases links.len(),
{
    if links.len() == 0 {
        None
    } else {
        let best = best_link(links.drop_last(), line, character);
        if !link_usable(links.last(), line) {
            best
        } else {
            match best {
                Some(b) => if link_nearer(links.last(), links[b], line, character) {
                    Some(links.len() - 1)
                } else {
                    best
                },
                None => Some(links.len() - 1),
            }
        }
    }
}

/// The start of the file that a link leads to.
pub open spec fn link_location(link: DocumentLinkView) -> LocationView {
    LocationView {
        uri: uri::uri_path(
            match link.target {
                Some(target) => target,
                None => Seq::empty(),
            },
        ),
        line: 0,
        character: 0,
        end_line: None,
        end_character: None,
    }
}

/// The file that the best link leads to.
pub open spec fn selected_link(
    links: Seq<DocumentLinkView>,
    line: u32,
    character: u32,
) -> Option<LocationView> {
    match best_link(links, line, character) {
        Some(b) => Some(link_location(links[b])),
        None => None,
    }
}

proof fn lemma_best_link_range(links: Seq<DocumentLinkView>, line: u32, character: u32)
    ensures
        best_link(links, line, character) matches Some(b) ==> 0 <= b < links.len() && link_usable(
            links[b],
            line,
        ),
    decreases links.len(),
{
    if links.len() > 0 {
        lemma_best_link_range(links.drop_last(), line, character);
    }
}

fn usable(link: &DocumentLink, line: u32) -> (r: bool)
    ensures
        r == link_usable(link.deep_view(), line),
{
    match &link.target {
        Some(target) => text::starts_with(target.as_str(), "file://") && line >= link.range.line
            && line <= link.range.end_line,
        None => false,
    }
}

fn inside(range: &RangeItem, line: u32, character: u32) -> (r: bool)
    ensures
        r == holds_cursor(*range, line, character),
{
    (line > range.line || (line == range.line && character >= range.character)) && (line
        < range.end_line || (line == range.end_line && character <= range.end_character))
}

fn distance(range: &RangeItem, line: u32, character: u32) -> (r: u32)
    ensures
        r == link_distance(*range, line, character),
{
    if inside(range, line, character) {
        0
    } else if line == range.line && character < range.character {
        range.character - character
    } else if line == range.end_line && character > range.end_character {
        character - range.end_character
    } else {
        0
    }
}

fn nearer(a: &DocumentLink, b: &DocumentLink, line: u32, character: u32) -> (r: bool)
    ensures
        r == link_nearer(a.deep_view(), b.deep_view(), line, character),
{
    let inside_a = inside(&a.range, line, character);
    let inside_b = inside(&b.range, line, character);
    if inside_a != inside_b {
        inside_a
    } else {
        distance(&a.range, line, character) < distance(&b.range, line, character)
    }
}

/// Picks the file link at a position, or the nearest one on the same line.
pub fn select_document_link(links: &Vec<DocumentLink>, line: u32, character: u32) -> (r: Option<
    Location,
>)
    ensures
        r.deep_view() == selected_link(links.deep_view(), line, character),
{
    let ghost ls = links.deep_view();
    let mut best: Option<usize> = None;
    let mut i: usize = 0;
    while i < links.len()
        invariant
            i <= links@.len(),
            ls == links.deep_view(),
            match best {
                Some(b) => b < i && best_link(ls.take(i as int), line, character) == Some(
                    b as int,
                ),
                None => best_link(ls.take(i as int), line, character) is None,
            },
        decreases links@.len() - i,
    {
        let ghost now = ls.take(i + 1);
        assert(now.drop_last() =~= ls.take(i as int));
        assert(now.last() == links@[i as int].deep_view());
        if usable(&links[i], line) {
            match best {
                Some(b) => {
                    assert(now[b as int] == links@[b as int].deep_view());
                    if nearer(&links[i], &links[b], line, character) {
                        best = Some(i);
                    }
                },
                None => {
                    best = Some(i);
                },
            }
        }
        i = i + 1;
    }
    assert(ls.take(i as int) =~= ls);
    match best {
        Some(b) => {
            let target = match &links[b].target {
                Some(t) => t.clone(),
                None => String::new(),
            };
            Some(
                Location {
                    uri: decode_uri(target.as_str()),
                    line: 0,
                    character: 0,
                    end_line: None,
                    end_character: None,
                },
            )
        },
        None => None,
    }
}

/// The link that is followed can be followed, no other usable link is preferred
/// to it, and those before it are not as near. Where no link is usable, none is
/// followed.
pub proof fn law_best_link(links: Seq<DocumentLinkView>, line: u32, character: u32)
    ensures
        best_link(links, line, character) matches Some(b) ==> {
            &&& 0 <= b < links.len()
            &&& link_usable(links[b], line)
            &&& forall|j: int|
                0 <= j < links.len() && link_usable(#[trigger] links[j], line) ==> !link_nearer(
                    links[j],
                    links[b],
                    line,
                    character,
                )
            &&& forall|j: int|
                0 <= j < b && link_usable(#[trigger] links[j], line) ==> link_nearer(
                    links[b],
                    links[j],
                    line,
                    character,
                )
        },
        best_link(links, line, character) is None ==> forall|j: int|
            0 <= j < links.len() ==> !link_usable(#[trigger] links[j], line),
    decreases links.len(),
{
    if links.len() > 0 {
        let rest = links.drop_last();
        law_best_link(rest, line, character);
        lemma_best_link_range(rest, line, character);
        assert forall|j: int| 0 <= j < rest.len() implies links[j] == rest[j] by {}
    }
}

// ---------------------------------------------------------------------------
// Signature help
// ---------------------------------------------------------------------------

/// The text between two byte offsets, or nothing where the offsets do not cut
/// out text.
pub open spec fn byte_slice(s: Seq<char>, start: int, end: int) -> Seq<char> {
    let bytes = encode_utf8(s);
    if start <= end <= bytes.len() && valid_utf8(bytes.subrange(start, end)) {
        decode_utf8(bytes.subrange(start, end))
    } else {
        Seq::empty()
    }
}

fn slice_bytes(s: &str, start: u32, end: u32) -> (r: String)
    ensures
        r@ == byte_slice(s@, start as int, end as int),
{
    let bytes = s.as_bytes();
    let from: usize = start as usize;
    let to: usize = end as usize;
    if from > to || to > bytes.len() {
        return String::new();
    }
    let mut part: Vec<u8> = Vec::new();
    let mut i: usize = from;
    assert(part@ =~= bytes@.subrange(from as int, from as int));
    while i < to
        invariant
            from <= i <= to <= bytes@.len(),
            part@ == bytes@.subrange(from as int, i as int),
        decreases to - i,
    {
        part.push(bytes[i]);
        assert(part@ =~= bytes@.subrange(from as int, i + 1));
        i = i + 1;
    }
    match text::utf8_text(part.as_slice()) {
        Some(t) => {
            proof {
                encode_utf8_decode_utf8(t@);
            }
            t.to_string()
        },
        None => String::new(),
    }
}

/// The parameter that a `ParameterInformation` describes. Its label is a text,
/// or the part of the signature's label between two offsets.
pub open spec fn parameter_of(j: JsonView, signature: Seq<char>) -> ParameterInfoView {
    ParameterInfoView {
        label: match j.at("label"@) {
            JsonView::Str(s) => s,
            JsonView::Array(a) => if a.len() == 2 {
                byte_slice(signature, a[0].u32() as int, a[1].u32() as int)
            } else {
                Seq::empty()
            },
            _ => Seq::empty(),
        },
        documentation: types::doc_text(j.opt_at("documentation"@)),
    }
}

/// The signature that a `SignatureInformation` describes.
pub open spec fn signature_of(j: JsonView, active: Option<u32>) -> SignatureInfoView {
    let label = j.at("label"@).text();
    let params = j.at("parameters"@).items();
    SignatureInfoView {
        label,
        documentation: types::doc_text(j.opt_at("documentation"@)),
        active_parameter: match j.at("activeParameter"@).as_u32() {
            Some(n) => Some(n),
            None => active,
        },
        parameters: Seq::new(params.len(), |i: int| parameter_of(params[i], label)),
    }
}

/// The signatures of a `SignatureHelp`, where it has any.
pub open spec fn signatures_of(j: JsonView) -> Option<Seq<SignatureInfoView>> {
    let sigs = j.at("signatures"@).items();
    let active = j.at("activeParameter"@).as_u32();
    if sigs.len() == 0 {
        None
    } else {
        Some(Seq::new(sigs.len(), |i: int| signature_of(sigs[i], active)))
    }
}

fn word(j: &Json) -> (r: u32)
    ensures
        r == j@.u32(),
{
    match j.as_u32() {
        Some(n) => n,
        None => 0,
    }
}

fn parameter_info(j: &Json, signature: &str) -> (r: ParameterInfo)
    ensures
        r.deep_view() == parameter_of(j@, signature@),
{
    let label = match j.str_at("label") {
        Some(s) => s.to_string(),
        None => match j.array_at("label") {
            Some(a) => if a.len() == 2 {
                slice_bytes(signature, word(&a[0]), word(&a[1]))
            } else {
                String::new()
            },
            None => String::new(),
        },
    };
    ParameterInfo { label, documentation: extract_doc(j.opt_at("documentation")) }
}

fn signature_info(j: &Json, active: Option<u32>) -> (r: SignatureInfo)
    ensures
        r.deep_view() == signature_of(j@, active),
{
    let label = j.text_at("label");
    let mut parameters: Vec<ParameterInfo> = Vec::new();
    if let Some(params) = j.array_at("parameters") {
        let mut i: usize = 0;
        while i < params.len()
            invariant
                i <= params@.len(),
                parameters@.len() == i,
                forall|k: int|
                    0 <= k < i ==> (#[trigger] parameters@[k]).deep_view() == parameter_of(
                        params@[k]@,
                        label@,
                    ),
            decreases params@.len() - i,
        {
            parameters.push(parameter_info(&params[i], label.as_str()));
            i = i + 1;
        }
    }
    proof {
        let params = j@.at("parameters"@).items();
        assert(parameters.deep_view() =~= Seq::new(
            params.len(),
            |i: int| parameter_of(params[i], label@),
        ));
    }
    let active_parameter = match j.u32_at("activeParameter") {
        Some(n) => Some(n),
        None => active,
    };
    SignatureInfo {
        label,
        documentation: extract_doc(j.opt_at("documentation")),
        active_parameter,
        parameters,
    }
}

/// Reads the signatures of a `SignatureHelp`.
pub fn signature_infos(help: &Json) -> (r: Option<Vec<SignatureInfo>>)
    ensures
        r.deep_view() == signatures_of(help@),
{
    let active = help.u32_at("activeParameter");
    match help.array_at("signatures") {
        Some(sigs) => {
            if sigs.len() == 0 {
                return None;
            }
            let mut out: Vec<SignatureInfo> = Vec::new();
            let mut i: usize = 0;
            while i < sigs.len()
                invariant
                    i <= sigs@.len(),
                    out@.len() == i,
                    forall|k: int|
                        0 <= k < i ==> (#[trigger] out@[k]).deep_view() == signature_of(
                            sigs@[k]@,
                            active,
                        ),
                decreases sigs@.len() - i,
            {
                out.push(signature_info(&sigs[i], active));
                i = i + 1;
            }
            proof {
                let js = json::items_view(sigs@);
                assert(out.deep_view() =~= Seq::new(
                    js.len(),
                    |i: int| signature_of(js[i], active),
                ));
            }
            Some(out)
        },
        None => None,
    }
}

// ---------------------------------------------------------------------------
// Symbols
// ---------------------------------------------------------------------------

/// The number of a symbol's kind.
pub open spec fn kind_of(j: JsonView) -> i64 {
    match j.at("kind"@).as_i64() {
        Some(n) => n,
        None => 0,
    }
}

fn kind_name(j: &Json) -> (r: String)
    ensures
        r@ == types::symbol_kind_name(kind_of(j@)),
{
    let kind: i64 = match j.int_at("kind") {
        Some(n) => n,
        None => 0,
    };
    symbol_kind_label(kind).to_string()
}

/// The symbol that a `DocumentSymbol` describes, with those below it.
pub open spec fn document_symbol_of(j: JsonView) -> DocumentSymbolItemView
    decreases j,
{
    let selection = types::range_of(j.at("selectionRange"@));
    let range = types::range_of(j.at("range"@));
    DocumentSymbolItemView {
        name: j.at("name"@).text(),
        kind: types::symbol_kind_name(kind_of(j)),
        detail: j.at("detail"@).as_str(),
        line: selection.line,
        character: selection.character,
        end_line: range.end_line,
        end_character: range.end_character,
        children: match j {
            JsonView::Object(m) => if m.contains_key("children"@) {
                match m["children"@] {
                    JsonView::Array(items) => Seq::new(
                        items.len(),
                        |i: int|
                            if 0 <= i < items.len() {
                                document_symbol_of(items[i])
                            } else {
                                arbitrary()
                            },
                    ),
                    _ => Seq::empty(),
                }
            } else {
                Seq::empty()
            },
            _ => Seq::empty(),
        },
    }
}

/// The symbols of a list.
pub open spec fn document_symbols_of(items: Seq<JsonView>) -> Seq<DocumentSymbolItemView> {
    Seq::new(items.len(), |i: int| document_symbol_of(items[i]))
}

/// Reads a list of `DocumentSymbol`s.
pub fn convert_doc_symbols(syms: &Vec<Json>) -> (r: Vec<DocumentSymbolItem>)
    ensures
        r.deep_view() == document_symbols_of(json::items_view(syms@)),
    decreases syms@,
{
    let mut out: Vec<DocumentSymbolItem> = Vec::new();
    let mut i: usize = 0;
    while i < syms.len()
        invariant
            i <= syms@.len(),
            out@.len() == i,
            forall|k: int|
                0 <= k < i ==> (#[trigger] out@[k]).deep_view() == document_symbol_of(syms@[k]@),
        decreases syms@.len() - i,
    {
        assert(decreases_to!(syms@ => syms@[i as int]));
        out.push(convert_doc_symbol(&syms[i]));
        i = i + 1;
    }
    assert(out.deep_view() =~= document_symbols_of(json::items_view(syms@)));
    out
}

fn convert_doc_symbol(sym: &Json) -> (r: DocumentSymbolItem)
    ensures
        r.deep_view() == document_symbol_of(sym@),
    decreases *sym,
{
    let selection = range_at(sym, "selectionRange");
    let range = range_at(sym, "range");
    let children = match sym.array_at("children") {
        Some(items) => convert_doc_symbols(items),
        None => Vec::new(),
    };
    let ghost below = children.deep_view();
    assert(below =~= document_symbols_of(sym@.at("children"@).items()));
    assert(below =~= document_symbol_of(sym@).children);
    let r = DocumentSymbolItem {
        name: sym.text_at("name"),
        kind: kind_name(sym),
        detail: sym.string_at("detail"),
        line: selection.line,
        character: selection.character,
        end_line: range.end_line,
        end_character: range.end_character,
        children,
    };
    assert(r.deep_view().children =~= below);
    r
}

/// The symbol that a `SymbolInformation` describes, with a detail of choice.
pub open spec fn symbol_information_of(
    j: JsonView,
    detail: Option<Seq<char>>,
) -> DocumentSymbolItemView {
    let range = types::range_of(j.at("location"@).at("range"@));
    DocumentSymbolItemView {
        name: j.at("name"@).text(),
        kind: types::symbol_kind_name(kind_of(j)),
        detail,
        line: range.line,
        character: range.character,
        end_line: range.end_line,
        end_character: range.end_character,
        children: Seq::empty(),
    }
}

fn symbol_information(j: &Json, detail: Option<String>) -> (r: DocumentSymbolItem)
    ensures
        r.deep_view() == symbol_information_of(j@, detail.deep_view()),
{
    let location = j.at("location");
    let range = range_at(&location, "range");
    let r = DocumentSymbolItem {
        name: j.text_at("name"),
        kind: kind_name(j),
        detail,
        line: range.line,
        character: range.character,
        end_line: range.end_line,
        end_character: range.end_character,
        children: Vec::new(),
    };
    assert(r.deep_view().children =~= Seq::<DocumentSymbolItemView>::empty());
    r
}

/// The symbols of a flat list, as an outline shows them.
pub open spec fn outline_of(items: Seq<JsonView>) -> Seq<DocumentSymbolItemView> {
    Seq::new(items.len(), |i: int| symbol_information_of(items[i], None))
}

/// The symbols of a flat list, each with the document that it is in.
pub open spec fn workspace_symbols_of(items: Seq<JsonView>) -> Seq<DocumentSymbolItemView> {
    Seq::new(
        items.len(),
        |i: int|
            symbol_information_of(items[i], Some(items[i].at("location"@).at("uri"@).text())),
    )
}

/// Reads a flat list of symbols for an outline.
pub fn outline(infos: &Json) -> (r: Vec<DocumentSymbolItem>)
    ensures
        r.deep_view() == outline_of(infos@.items()),
{
    let mut out: Vec<DocumentSymbolItem> = Vec::new();
    if let Some(items) = infos.as_array() {
        let mut i: usize = 0;
        while i < items.len()
            invariant
                i <= items@.len(),
                out@.len() == i,
                forall|k: int|
                    0 <= k < i ==> (#[trigger] out@[k]).deep_view() == symbol_information_of(
                        items@[k]@,
                        None,
                    ),
            decreases items@.len() - i,
        {
            out.push(symbol_information(&items[i], None));
            i = i + 1;
        }
    }
    assert(out.deep_view() =~= outline_of(infos@.items()));
    out
}

/// Reads a flat list of symbols of a workspace.
pub fn workspace_symbols(infos: &Json) -> (r: Vec<DocumentSymbolItem>)
    ensures
        r.deep_view() == workspace_symbols_of(infos@.items()),
{
    let mut out: Vec<DocumentSymbolItem> = Vec::new();
    if let Some(items) = infos.as_array() {
        let mut i: usize = 0;
        while i < items.len()
            invariant
                i <= items@.len(),
                out@.len() == i,
                forall|k: int|
                    0 <= k < i ==> (#[trigger] out@[k]).deep_view() == symbol_information_of(
                        items@[k]@,
                        Some(items@[k]@.at("location"@).at("uri"@).text()),
                    ),
            decreases items@.len() - i,
        {
            let uri = items[i].at("location").text_at("uri");
            out.push(symbol_information(&items[i], Some(uri)));
            i = i + 1;
        }
    }
    assert(out.deep_view() =~= workspace_symbols_of(infos@.items()));
    out
}

/// Whether one place comes before another: by document, then line, then
/// character.
pub open spec fn place_less(a: LocationView, b: LocationView) -> bool {
    if a.uri != b.uri {
        text::text_less(a.uri, b.uri)
    } else if a.line != b.line {
        a.line < b.line
    } else {
        a.character < b.character
    }
}

/// Whether two locations name the same place.
pub open spec fn same_place(a: LocationView, b: LocationView) -> bool {
    a.uri == b.uri && a.line == b.line && a.character == b.character
}

/// Locations in order with one more: after those that do not come after it.
pub open spec fn insert_location(sorted: Seq<LocationView>, x: LocationView) -> Seq<LocationView>
    decreases sorted.len(),
{
    if sorted.len() == 0 || !place_less(x, sorted.last()) {
        sorted.push(x)
    } else {
        insert_location(sorted.drop_last(), x).push(sorted.last())
    }
}

/// Locations in order of their places; those of one place keep their order.
pub open spec fn locations_sorted(list: Seq<LocationView>) -> Seq<LocationView>
    decreases list.len(),
{
    if list.len() == 0 {
        Seq::empty()
    } else {
        insert_location(locations_sorted(list.drop_last()), list.last())
    }
}

/// Of locations in a row that name the same place, the first.
pub open spec fn places_once(list: Seq<LocationView>) -> Seq<LocationView>
    decreases list.len(),
{
    if list.len() == 0 {
        Seq::empty()
    } else {
        let rest = places_once(list.drop_last());
        if rest.len() > 0 && same_place(rest.last(), list.last()) {
            rest
        } else {
            rest.push(list.last())
        }
    }
}

/// The places where the symbols of a given name are.
pub open spec fn symbol_places(infos: Seq<JsonView>, query: Seq<char>) -> Seq<LocationView> {
    infos.filter(|j: JsonView| j.at("name"@).text() == query).map_values(
        |j: JsonView| types::location_of(j.at("location"@)),
    )
}

/// The places where the symbols of a given name are, in order, each once.
pub open spec fn symbol_locations_of(infos: Seq<JsonView>, query: Seq<char>) -> Seq<LocationView> {
    places_once(locations_sorted(symbol_places(infos, query)))
}

fn before(a: &Location, b: &Location) -> (r: bool)
    ensures
        r == place_less(a.deep_view(), b.deep_view()),
{
    if !text::str_eq(a.uri.as_str(), b.uri.as_str()) {
        text::str_less(a.uri.as_str(), b.uri.as_str())
    } else if a.line != b.line {
        a.line < b.line
    } else {
        a.character < b.character
    }
}

proof fn lemma_insert_location(sorted: Seq<LocationView>, x: LocationView, at: int)
    requires
        0 <= at <= sorted.len(),
        at == 0 || !place_less(x, sorted[at - 1]),
        forall|k: int| at <= k < sorted.len() ==> place_less(x, #[trigger] sorted[k]),
    ensures
        insert_location(sorted, x) == sorted.insert(at, x),
    decreases sorted.len(),
{
    if at == sorted.len() {
        assert(sorted.insert(at, x) =~= sorted.push(x));
    } else {
        lemma_insert_location(sorted.drop_last(), x, at);
        assert(sorted.insert(at, x) =~= sorted.drop_last().insert(at, x).push(sorted.last()));
    }
}

fn insert_sorted(sorted: &mut Vec<Location>, x: Location)
    ensures
        final(sorted).deep_view() == insert_location(old(sorted).deep_view(), x.deep_view()),
{
    let ghost prior = sorted.deep_view();
    let ghost xv = x.deep_view();
    let mut at: usize = sorted.len();
    while at > 0 && before(&x, &sorted[at - 1])
        invariant
            at <= sorted@.len(),
            prior == sorted.deep_view(),
            xv == x.deep_view(),
            forall|k: int| at <= k < prior.len() ==> place_less(xv, #[trigger] prior[k]),
        decreases at,
    {
        assert(prior[at - 1] == sorted@[at - 1].deep_view());
        at = at - 1;
    }
    proof {
        if at > 0 {
            assert(prior[at - 1] == sorted@[at - 1].deep_view());
        }
        lemma_insert_location(prior, xv, at as int);
    }
    sorted.insert(at, x);
    assert(sorted.deep_view() =~= prior.insert(at as int, xv));
}

fn copy_location(l: &Location) -> (r: Location)
    ensures
        r.deep_view() == l.deep_view(),
{
    Location {
        uri: l.uri.clone(),
        line: l.line,
        character: l.character,
        end_line: l.end_line,
        end_character: l.end_character,
    }
}

fn drop_repeats(list: &Vec<Location>) -> (r: Vec<Location>)
    ensures
        r.deep_view() == places_once(list.deep_view()),
{
    let ghost all = list.deep_view();
    let mut out: Vec<Location> = Vec::new();
    let mut i: usize = 0;
    assert(out.deep_view() =~= places_once(all.take(0)));
    while i < list.len()
        invariant
            i <= list@.len(),
            all == list.deep_view(),
            out.deep_view() == places_once(all.take(i as int)),
        decreases list@.len() - i,
    {
        let ghost now = all.take(i + 1);
        let ghost prior = out.deep_view();
        assert(now.drop_last() =~= all.take(i as int));
        assert(now.last() == list@[i as int].deep_view());
        let n: usize = out.len();
        let repeated = n > 0 && {
            let last = &out[n - 1];
            assert(prior.last() == last.deep_view());
            text::str_eq(last.uri.as_str(), list[i].uri.as_str()) && last.line == list[i].line
                && last.character == list[i].character
        };
        if !repeated {
            out.push(copy_location(&list[i]));
            assert(out.deep_view() =~= prior.push(list@[i as int].deep_view()));
        }
        i = i + 1;
    }
    assert(all.take(i as int) =~= all);
    out
}

/// Finds where the symbols of a given name are, in order, each place once.
pub fn symbol_locations(infos: &Json, query: &str) -> (r: Vec<Location>)
    ensures
        r.deep_view() == symbol_locations_of(infos@.items(), query@),
{
    let ghost js = infos@.items();
    let ghost p = |j: JsonView| j.at("name"@).text() == query@;
    let ghost f = |j: JsonView| types::location_of(j.at("location"@));
    let mut sorted: Vec<Location> = Vec::new();
    proof {
        seqs::lemma_filter_start(js, p);
        assert(js.take(0).filter(p).map_values(f) =~= Seq::<LocationView>::empty());
        assert(sorted.deep_view() =~= Seq::<LocationView>::empty());
    }
    if let Some(items) = infos.as_array() {
        let mut i: usize = 0;
        while i < items.len()
            invariant
                i <= items@.len(),
                js == json::items_view(items@),
                p == (|j: JsonView| j.at("name"@).text() == query@),
                f == (|j: JsonView| types::location_of(j.at("location"@))),
                sorted.deep_view() == locations_sorted(
                    js.take(i as int).filter(p).map_values(f),
                ),
            decreases items@.len() - i,
        {
            proof {
                seqs::lemma_filter_step(js, i as int, p);
            }
            let name = items[i].text_at("name");
            if text::str_eq(name.as_str(), query) {
                let location = items[i].at("location");
                proof {
                    let kept = js.take(i as int).filter(p);
                    let more = js.take(i + 1).filter(p);
                    assert(more.map_values(f).drop_last() =~= kept.map_values(f));
                    assert(more.map_values(f).last() == types::location_of(location@));
                }
                insert_sorted(&mut sorted, from_lsp_location(&location));
            }
            i = i + 1;
        }
        assert(js.take(i as int) =~= js);
    } else {
        assert(js =~= js.take(0));
    }
    drop_repeats(&sorted)
}

/// Locations that are put in order come out in order, and are the same ones.
pub proof fn law_locations_sorted(list: Seq<LocationView>)
    ensures
        locations_sorted(list).to_multiset() == list.to_multiset(),
        forall|i: int, j: int|
            0 <= i < j < locations_sorted(list).len() ==> !place_less(
                #[trigger] locations_sorted(list)[j],
                #[trigger] locations_sorted(list)[i],
            ),
    decreases list.len(),
{
    broadcast use vstd::seq_lib::group_to_multiset_ensures;

    if list.len() > 0 {
        let rest = list.drop_last();
        law_locations_sorted(rest);
        lemma_insert_location_sorted(locations_sorted(rest), list.last());
        assert(list =~= rest.push(list.last()));
    }
}

proof fn lemma_place_order(a: LocationView, b: LocationView, c: LocationView)
    ensures
        place_less(a, b) ==> !place_less(b, a),
        place_less(a, b) || place_less(b, a) || same_place(a, b),
        place_less(a, b) && place_less(b, c) ==> place_less(a, c),
        place_less(a, b) && !place_less(c, b) ==> place_less(a, c),
        same_place(a, b) ==> !place_less(a, b),
{
    text::lemma_text_less_total(a.uri, b.uri);
    text::lemma_text_less_total(b.uri, c.uri);
    text::lemma_text_less_total(a.uri, c.uri);
    if text::text_less(a.uri, b.uri) && text::text_less(b.uri, c.uri) {
        text::lemma_text_less_transitive(a.uri, b.uri, c.uri);
    }
}

proof fn lemma_insert_location_sorted(sorted: Seq<LocationView>, x: LocationView)
    requires
        forall|i: int, j: int|
            0 <= i < j < sorted.len() ==> !place_less(#[trigger] sorted[j], #[trigger] sorted[i]),
    ensures
        insert_location(sorted, x).to_multiset() == sorted.to_multiset().insert(x),
        forall|i: int, j: int|
            0 <= i < j < insert_location(sorted, x).len() ==> !place_less(
                #[trigger] insert_location(sorted, x)[j],
                #[trigger] insert_location(sorted, x)[i],
            ),
        forall|i: int|
            0 <= i < insert_location(sorted, x).len() ==> (#[trigger] insert_location(
                sorted,
                x,
            )[i]) == x || sorted.contains(insert_location(sorted, x)[i]),
    decreases sorted.len(),
{
    broadcast use vstd::seq_lib::group_to_multiset_ensures;

    let r = insert_location(sorted, x);
    if sorted.len() == 0 || !place_less(x, sorted.last()) {
        assert forall|i: int| 0 <= i < r.len() implies (#[trigger] r[i]) == x || sorted.contains(
            r[i],
        ) by {
            if i < sorted.len() {
                assert(sorted[i] == r[i]);
            }
        }
        assert forall|i: int, j: int| 0 <= i < j < r.len() implies !place_less(
            #[trigger] r[j],
            #[trigger] r[i],
        ) by {
            if j == sorted.len() {
                assert(r[i] == sorted[i]);
                lemma_place_order(x, sorted[i], sorted.last());
                if i < sorted.len() - 1 {
                    assert(!place_less(sorted[sorted.len() - 1], sorted[i]));
                }
            } else {
                assert(r[i] == sorted[i] && r[j] == sorted[j]);
            }
        }
    } else {
        let rest = sorted.drop_last();
        let inner = insert_location(rest, x);
        lemma_insert_location_sorted(rest, x);
        assert(sorted =~= rest.push(sorted.last()));
        assert(r.to_multiset() =~= sorted.to_multiset().insert(x));
        assert forall|i: int| 0 <= i < r.len() implies (#[trigger] r[i]) == x || sorted.contains(
            r[i],
        ) by {
            if i < inner.len() {
                assert(inner[i] == r[i]);
                if inner[i] != x {
                    let k = choose|k: int| 0 <= k < rest.len() && rest[k] == inner[i];
                    assert(sorted[k] == inner[i]);
                }
            } else {
                assert(sorted[sorted.len() - 1] == r[i]);
            }
        }
        assert forall|i: int, j: int| 0 <= i < j < r.len() implies !place_less(
            #[trigger] r[j],
            #[trigger] r[i],
        ) by {
            if j == inner.len() {
                assert(r[i] == inner[i]);
                if inner[i] != x {
                    let k = choose|k: int| 0 <= k < rest.len() && rest[k] == inner[i];
                    assert(!place_less(sorted[sorted.len() - 1], sorted[k]));
                } else {
                    lemma_place_order(x, sorted.last(), x);
                }
            } else {
                assert(r[i] == inner[i] && r[j] == inner[j]);
            }
        }
    }
}

/// Whether some location of a list names the same place as another.
pub open spec fn has_place(list: Seq<LocationView>, x: LocationView) -> bool {
    exists|j: int| 0 <= j < list.len() && same_place(#[trigger] list[j], x)
}

/// Every place of a symbol is among those that come out, and no other is.
pub proof fn law_symbol_locations_are_complete(infos: Seq<JsonView>, query: Seq<char>)
    ensures
        forall|x: LocationView| #[trigger]
            symbol_places(infos, query).contains(x) ==> has_place(
                symbol_locations_of(infos, query),
                x,
            ),
        forall|x: LocationView| #[trigger]
            symbol_locations_of(infos, query).contains(x) ==> symbol_places(infos, query).contains(
                x,
            ),
{
    let places = symbol_places(infos, query);
    let sorted = locations_sorted(places);
    law_locations_sorted(places);
    assert forall|x: LocationView| #[trigger] places.contains(x) implies has_place(
        places_once(sorted),
        x,
    ) by {
        lemma_same_members(places, sorted, x);
        lemma_places_once_complete(sorted, x);
    }
    assert forall|x: LocationView| #[trigger] places_once(sorted).contains(x) implies places.contains(
        x,
    ) by {
        lemma_same_members(places, sorted, x);
        lemma_places_once_complete(sorted, x);
    }
}

proof fn lemma_same_members(a: Seq<LocationView>, b: Seq<LocationView>, x: LocationView)
    requires
        a.to_multiset() == b.to_multiset(),
    ensures
        a.contains(x) == b.contains(x),
{
    vstd::seq_lib::to_multiset_contains(a, x);
    vstd::seq_lib::to_multiset_contains(b, x);
}

proof fn lemma_places_once_complete(list: Seq<LocationView>, x: LocationView)
    ensures
        list.contains(x) ==> has_place(places_once(list), x),
        places_once(list).contains(x) ==> list.contains(x),
    decreases list.len(),
{
    if list.len() > 0 {
        let init = list.drop_last();
        let rest = places_once(init);
        let once = places_once(list);
        lemma_places_once_complete(init, x);
        if list.contains(x) {
            if init.contains(x) {
                let j = choose|j: int| 0 <= j < rest.len() && same_place(#[trigger] rest[j], x);
                assert(same_place(once[j], x));
            } else {
                let k = choose|k: int| 0 <= k < list.len() && list[k] == x;
                if k < init.len() {
                    assert(init[k] == x);
                }
                assert(same_place(once[once.len() - 1], x));
            }
        }
        if once.contains(x) {
            let j = choose|j: int| 0 <= j < once.len() && once[j] == x;
            if j < rest.len() {
                assert(rest[j] == x);
                let k = choose|k: int| 0 <= k < init.len() && init[k] == x;
                assert(list[k] == x);
            } else {
                assert(list[list.len() - 1] == x);
            }
        }
    }
}

/// The places where a symbol is come out strictly in order, so no place comes
/// twice.
pub proof fn law_symbol_locations_ascend(infos: Seq<JsonView>, query: Seq<char>)
    ensures
        forall|i: int, j: int|
            0 <= i < j < symbol_locations_of(infos, query).len() ==> place_less(
                #[trigger] symbol_locations_of(infos, query)[i],
                #[trigger] symbol_locations_of(infos, query)[j],
            ),
{
    let list = locations_sorted(symbol_places(infos, query));
    law_locations_sorted(symbol_places(infos, query));
    lemma_places_once_ascend(list);
}

proof fn lemma_places_once_ascend(list: Seq<LocationView>)
    requires
        forall|i: int, j: int|
            0 <= i < j < list.len() ==> !place_less(#[trigger] list[j], #[trigger] list[i]),
    ensures
        forall|i: int, j: int|
            0 <= i < j < places_once(list).len() ==> place_less(
                #[trigger] places_once(list)[i],
                #[trigger] places_once(list)[j],
            ),
        places_once(list).len() > 0 <==> list.len() > 0,
        list.len() > 0 ==> same_place(places_once(list).last(), list.last()),
        forall|i: int|
            0 <= i < places_once(list).len() ==> list.contains(#[trigger] places_once(list)[i]),
    decreases list.len(),
{
    if list.len() > 0 {
        let rest = list.drop_last();
        let kept = places_once(rest);
        lemma_places_once_ascend(rest);
        let r = places_once(list);
        let x = list.last();
        assert forall|i: int| 0 <= i < r.len() implies list.contains(#[trigger] r[i]) by {
            if i < kept.len() {
                assert(r[i] == kept[i]);
                let k = choose|k: int| 0 <= k < rest.len() && rest[k] == kept[i];
                assert(list[k] == kept[i]);
            } else {
                assert(list[list.len() - 1] == x);
            }
        }
        if !(kept.len() > 0 && same_place(kept.last(), x)) {
            assert forall|i: int, j: int| 0 <= i < j < r.len() implies place_less(
                #[trigger] r[i],
                #[trigger] r[j],
            ) by {
                if j == kept.len() {
                    let last = kept.last();
                    assert(kept[kept.len() - 1] == last);
                    let k = choose|k: int| 0 <= k < rest.len() && rest[k] == last;
                    assert(!place_less(list[list.len() - 1], list[k]));
                    lemma_place_order(last, x, x);
                    assert(r[i] == kept[i]);
                    if i < kept.len() - 1 {
                        assert(place_less(kept[i], kept[kept.len() - 1]));
                        lemma_place_order(kept[i], last, x);
                    }
                } else {
                    assert(r[i] == kept[i] && r[j] == kept[j]);
                }
            }
        } else {
            let last = kept.last();
            assert(r == kept);
        }
    }
}

// ---------------------------------------------------------------------------
// Highlights, hints, hierarchies, ranges and lenses
// ---------------------------------------------------------------------------

impl FromLsp for DocumentHighlightItem {
    open spec fn lsp(j: JsonView) -> DocumentHighlightItemView {
        let range = types::range_of(j.at("range"@));
        DocumentHighlightItemView {
            line: range.line,
            character: range.character,
            end_line: range.end_line,
            end_character: range.end_character,
            kind: types::highlight_kind_name(j.at("kind"@).as_i64()),
        }
    }

    fn from_lsp(j: &Json) -> (r: DocumentHighlightItem) {
        let range = range_at(j, "range");
        DocumentHighlightItem {
            line: range.line,
            character: range.character,
            end_line: range.end_line,
            end_character: range.end_character,
            kind: highlight_kind_label(j.int_at("kind")).to_string(),
        }
    }
}

/// The text of an inlay hint's label, which is a string or a list of parts.
pub open spec fn hint_label_of(j: JsonView) -> Seq<char> {
    match j {
        JsonView::Array(parts) => text::joined(
            Seq::new(parts.len(), |i: int| parts[i].at("value"@).text()),
            ""@,
        ),
        _ => j.text(),
    }
}

fn hint_label(j: &Json) -> (r: String)
    ensures
        r@ == hint_label_of(j@),
{
    if let Some(parts) = j.as_array() {
        let mut values: Vec<String> = Vec::new();
        let mut i: usize = 0;
        while i < parts.len()
            invariant
                i <= parts@.len(),
                values@.len() == i,
                forall|k: int|
                    0 <= k < i ==> (#[trigger] values@[k])@ == parts@[k]@.at("value"@).text(),
            decreases parts@.len() - i,
        {
            values.push(parts[i].text_at("value"));
            i = i + 1;
        }
        proof {
            let js = json::items_view(parts@);
            assert(values.deep_view() =~= Seq::new(js.len(), |i: int| js[i].at("value"@).text()));
        }
        return text::join(&values, "");
    }
    match j.as_str() {
        Some(s) => s.to_string(),
        None => String::new(),
    }
}

impl FromLsp for InlayHintItem {
    open spec fn lsp(j: JsonView) -> InlayHintItemView {
        InlayHintItemView {
            line: j.at("position"@).at("line"@).u32(),
            character: j.at("position"@).at("character"@).u32(),
            label: hint_label_of(j.at("label"@)),
            kind: if j.at("kind"@).as_i64() == Some(1i64) {
                "type"@
            } else if j.at("kind"@).as_i64() == Some(2i64) {
                "parameter"@
            } else {
                "other"@
            },
            padding_left: j.at("paddingLeft"@).as_bool() == Some(true),
            padding_right: j.at("paddingRight"@).as_bool() == Some(true),
        }
    }

    fn from_lsp(j: &Json) -> (r: InlayHintItem) {
        let position = j.at("position");
        let kind = match j.int_at("kind") {
            Some(1) => "type",
            Some(2) => "parameter",
            _ => "other",
        };
        InlayHintItem {
            line: position.number_at("line"),
            character: position.number_at("character"),
            label: hint_label(&j.at("label")),
            kind: kind.to_string(),
            padding_left: match j.bool_at("paddingLeft") {
                Some(b) => b,
                None => false,
            },
            padding_right: match j.bool_at("paddingRight") {
                Some(b) => b,
                None => false,
            },
        }
    }
}

impl FromLsp for CallHierarchyItem {
    open spec fn lsp(j: JsonView) -> CallHierarchyItemView {
        let selection = types::range_of(j.at("selectionRange"@));
        CallHierarchyItemView {
            name: j.at("name"@).text(),
            kind: types::symbol_kind_name(kind_of(j)),
            uri: j.at("uri"@).text(),
            line: selection.line,
            character: selection.character,
            detail: j.at("detail"@).as_str(),
        }
    }

    fn from_lsp(j: &Json) -> (r: CallHierarchyItem) {
        convert_call_hierarchy_item(j)
    }
}

/// Reads a `CallHierarchyItem`, or a `TypeHierarchyItem`, which has the same
/// members.
pub fn convert_call_hierarchy_item(item: &Json) -> (r: CallHierarchyItem)
    ensures
        r.deep_view() == CallHierarchyItem::lsp(item@),
{
    let selection = range_at(item, "selectionRange");
    CallHierarchyItem {
        name: item.text_at("name"),
        kind: kind_name(item),
        uri: item.text_at("uri"),
        line: selection.line,
        character: selection.character,
        detail: item.string_at("detail"),
    }
}

/// The calls of a list; the other end of each stands under `key`.
pub open spec fn calls_of(items: Seq<JsonView>, key: Seq<char>) -> Seq<CallHierarchyCallView> {
    Seq::new(
        items.len(),
        |i: int|
            CallHierarchyCallView {
                item: CallHierarchyItem::lsp(items[i].at(key)),
                from_ranges: wire::lsp_list::<RangeItem>(items[i].at("fromRanges"@).items()),
            },
    )
}

/// Reads the calls of a list; the other end of each stands under `key`.
pub fn hierarchy_calls(calls: &Json, key: &str) -> (r: Vec<CallHierarchyCall>)
    ensures
        r.deep_view() == calls_of(calls@.items(), key@),
{
    let mut out: Vec<CallHierarchyCall> = Vec::new();
    if let Some(items) = calls.as_array() {
        let ghost js = json::items_view(items@);
        let mut i: usize = 0;
        while i < items.len()
            invariant
                i <= items@.len(),
                js == json::items_view(items@),
                out@.len() == i,
                forall|k: int|
                    0 <= k < i ==> (#[trigger] out@[k]).deep_view() == calls_of(js, key@)[k],
            decreases items@.len() - i,
        {
            out.push(
                CallHierarchyCall {
                    item: convert_call_hierarchy_item(&items[i].at(key)),
                    from_ranges: read_items_at(&items[i], "fromRanges"),
                },
            );
            i = i + 1;
        }
    }
    assert(out.deep_view() =~= calls_of(calls@.items(), key@));
    out
}

/// The range that a `SelectionRange` stands for, with those around it.
pub open spec fn selection_of(j: JsonView) -> SelectionRangeItemView
    decreases j,
{
    let range = types::range_of(j.at("range"@));
    SelectionRangeItemView {
        line: range.line,
        character: range.character,
        end_line: range.end_line,
        end_character: range.end_character,
        parent: match j {
            JsonView::Object(m) => if m.contains_key("parent"@) && !(m["parent"@] is Null) {
                Some(Box::new(selection_of(m["parent"@])))
            } else {
                None
            },
            _ => None,
        },
    }
}

/// Reads a `SelectionRange` with those around it.
pub fn convert_selection_range(r: &Json) -> (out: SelectionRangeItem)
    ensures
        out.deep_view() == selection_of(r@),
    decreases *r,
{
    let range = range_at(r, "range");
    let parent = match r.opt_at("parent") {
        Some(p) => Some(Box::new(convert_selection_range(p))),
        None => None,
    };
    SelectionRangeItem {
        line: range.line,
        character: range.character,
        end_line: range.end_line,
        end_character: range.end_character,
        parent,
    }
}

impl FromLsp for SelectionRangeItem {
    open spec fn lsp(j: JsonView) -> SelectionRangeItemView {
        selection_of(j)
    }

    fn from_lsp(j: &Json) -> (r: SelectionRangeItem) {
        convert_selection_range(j)
    }
}

impl FromLsp for FoldingRangeItem {
    open spec fn lsp(j: JsonView) -> FoldingRangeItemView {
        FoldingRangeItemView {
            start_line: j.at("startLine"@).u32(),
            end_line: j.at("endLine"@).u32(),
            kind: j.at("kind"@).as_str(),
        }
    }

    fn from_lsp(j: &Json) -> (r: FoldingRangeItem) {
        FoldingRangeItem {
            start_line: j.number_at("startLine"),
            end_line: j.number_at("endLine"),
            kind: j.string_at("kind"),
        }
    }
}

/// The ranges that a `LinkedEditingRanges` stands for.
pub open spec fn linked_ranges_of(j: JsonView) -> LinkedEditingRangeItemView {
    LinkedEditingRangeItemView {
        ranges: wire::lsp_list::<RangeItem>(j.at("ranges"@).items()),
        word_pattern: j.at("wordPattern"@).as_str(),
    }
}

/// Reads a `LinkedEditingRanges`.
pub fn linked_ranges(j: &Json) -> (r: LinkedEditingRangeItem)
    ensures
        r.deep_view() == linked_ranges_of(j@),
{
    LinkedEditingRangeItem {
        ranges: read_items_at(j, "ranges"),
        word_pattern: j.string_at("wordPattern"),
    }
}

/// The lens that a `CodeLens` stands for, at its place in the list.
pub open spec fn lens_of(j: JsonView, index: int) -> CodeLensItemView {
    let range = types::range_of(j.at("range"@));
    CodeLensItemView {
        line: range.line,
        character: range.character,
        end_line: range.end_line,
        end_character: range.end_character,
        command_title: match j.opt_at("command"@) {
            Some(c) => Some(c.at("title"@).text()),
            None => None,
        },
        index: index as usize,
    }
}

/// The lenses of a list.
pub open spec fn lenses_of(items: Seq<JsonView>) -> Seq<CodeLensItemView> {
    Seq::new(items.len(), |i: int| lens_of(items[i], i))
}

/// Reads the lenses of a list.
pub fn code_lens_items(items: &Vec<Json>) -> (r: Vec<CodeLensItem>)
    ensures
        r.deep_view() == lenses_of(json::items_view(items@)),
{
    let mut out: Vec<CodeLensItem> = Vec::new();
    let mut i: usize = 0;
    while i < items.len()
        invariant
            i <= items@.len(),
            out@.len() == i,
            forall|k: int|
                0 <= k < i ==> (#[trigger] out@[k]).deep_view() == lens_of(items@[k]@, k),
        decreases items@.len() - i,
    {
        let range = range_at(&items[i], "range");
        let command_title = match items[i].opt_at("command") {
            Some(c) => Some(c.text_at("title")),
            None => None,
        };
        out.push(
            CodeLensItem {
                line: range.line,
                character: range.character,
                end_line: range.end_line,
                end_character: range.end_character,
                command_title,
                index: i,
            },
        );
        i = i + 1;
    }
    assert(out.deep_view() =~= lenses_of(json::items_view(items@)));
    out
}

} // verus!
