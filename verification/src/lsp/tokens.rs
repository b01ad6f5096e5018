//! Semantic tokens: the relative encoding, and edits to it.

use vstd::prelude::*;

use crate::json;
use crate::json::{Json, JsonView};
use crate::lsp::types::{SemanticTokenItem, SemanticTokenItemView};
use crate::text;

verus! {

/// One token in the protocol's relative encoding.
#[derive(Clone, Copy)]
pub struct SemanticToken {
    pub delta_line: u32,
    pub delta_start: u32,
    pub length: u32,
    pub token_type: u32,
    pub token_modifiers_bitset: u32,
}

impl DeepView for SemanticToken {
    type V = SemanticToken;

    open spec fn deep_view(&self) -> SemanticToken {
        *self
    }
}

// ---------------------------------------------------------------------------
// Reading the encoding
// ---------------------------------------------------------------------------

/// The tokens that a flat list of numbers stands for, five to each.
pub open spec fn tokens_of(data: Seq<JsonView>) -> Seq<SemanticToken> {
    Seq::new(
        data.len() / 5,
        |i: int|
            SemanticToken {
                delta_line: data[5 * i].u32(),
                delta_start: data[5 * i + 1].u32(),
                length: data[5 * i + 2].u32(),
                token_type: data[5 * i + 3].u32(),
                token_modifiers_bitset: data[5 * i + 4].u32(),
            },
    )
}

fn number(j: &Json) -> (r: u32)
    ensures
        r == j@.u32(),
{
    match j.as_u32() {
        Some(n) => n,
        None => 0,
    }
}

/// Reads the tokens in the array under a key.
pub fn tokens_at(j: &Json, key: &str) -> (r: Vec<SemanticToken>)
    ensures
        r@ == tokens_of(j@.at(key@).items()),
{
    let mut out: Vec<SemanticToken> = Vec::new();
    if let Some(data) = j.array_at(key) {
        let ghost js = json::items_view(data@);
        let total: usize = data.len();
        let n: usize = total / 5;
        let mut i: usize = 0;
        while i < n
            invariant
                i <= n,
                total == data@.len(),
                n == total / 5,
                js == json::items_view(data@),
                out@ == tokens_of(js).take(i as int),
            decreases n - i,
        {
            let at: usize = 5 * i;
            out.push(
                SemanticToken {
                    delta_line: number(&data[at]),
                    delta_start: number(&data[at + 1]),
                    length: number(&data[at + 2]),
                    token_type: number(&data[at + 3]),
                    token_modifiers_bitset: number(&data[at + 4]),
                },
            );
            i = i + 1;
        }
        assert(out@ =~= tokens_of(js));
    }
    assert(out@ =~= tokens_of(j@.at(key@).items()));
    out
}

// ---------------------------------------------------------------------------
// Decoding
// ---------------------------------------------------------------------------

/// The line of a token: the sum of the line steps up to it.
pub open spec fn token_line(data: Seq<SemanticToken>, i: int) -> int
    decreases i + 1,
{
    if i < 0 {
        0
    } else {
        token_line(data, i - 1) + data[i].delta_line
    }
}

/// The start of a token in its line: relative to the token before it where
/// that one is on the same line, and to the line's start otherwise.
pub open spec fn token_start(data: Seq<SemanticToken>, i: int) -> int
    decreases i + 1,
{
    if i < 0 {
        0
    } else if data[i].delta_line > 0 {
        data[i].delta_start as int
    } else {
        token_start(data, i - 1) + data[i].delta_start
    }
}

/// Whether every token's place is a number of 32 bits.
pub open spec fn places_fit(data: Seq<SemanticToken>) -> bool {
    forall|i: int|
        0 <= i < data.len() ==> #[trigger] token_line(data, i) <= u32::MAX && token_start(data, i)
            <= u32::MAX
}

/// Whether a set of bits holds a bit.
pub open spec fn bit_set(bits: u32, i: int) -> bool {
    bits & (1u32 << (i as u32)) != 0
}

/// The names of the bits that are set.
pub open spec fn modifiers_of(bits: u32, names: Seq<Seq<char>>) -> Seq<Seq<char>>
    decreases names.len(),
{
    if names.len() == 0 {
        Seq::empty()
    } else {
        let rest = modifiers_of(bits, names.drop_last());
        if bit_set(bits, names.len() - 1) {
            rest.push(names.last())
        } else {
            rest
        }
    }
}

/// The name of a token type, or a name made of its number.
pub open spec fn type_label(token_type: u32, names: Seq<Seq<char>>) -> Seq<char> {
    if token_type < names.len() {
        names[token_type as int]
    } else {
        "type_"@ + text::decimal(token_type as nat)
    }
}

/// The decoded form of a token.
pub open spec fn decoded_token(
    data: Seq<SemanticToken>,
    i: int,
    type_names: Seq<Seq<char>>,
    mod_names: Seq<Seq<char>>,
) -> SemanticTokenItemView {
    SemanticTokenItemView {
        line: token_line(data, i) as u32,
        start: token_start(data, i) as u32,
        length: data[i].length,
        token_type: type_label(data[i].token_type, type_names),
        modifiers: modifiers_of(data[i].token_modifiers_bitset, mod_names),
    }
}

/// The decoded form of a list of tokens.
pub open spec fn decoded_tokens(
    data: Seq<SemanticToken>,
    type_names: Seq<Seq<char>>,
    mod_names: Seq<Seq<char>>,
) -> Seq<SemanticTokenItemView> {
    Seq::new(data.len(), |i: int| decoded_token(data, i, type_names, mod_names))
}

/// Whether tokens can be decoded: their places are numbers of 32 bits, and
/// every modifier has a bit.
pub open spec fn decodable(data: Seq<SemanticToken>, mod_names: Seq<Seq<char>>) -> bool {
    places_fit(data) && (data.len() > 0 ==> mod_names.len() <= 32)
}

fn modifier_names(bits: u32, names: &Vec<String>) -> (r: Vec<String>)
    requires
        names@.len() <= 32,
    ensures
        r.deep_view() == modifiers_of(bits, names.deep_view()),
{
    let mut out: Vec<String> = Vec::new();
    let ghost ns = names.deep_view();
    let mut i: usize = 0;
    assert(out.deep_view() =~= modifiers_of(bits, ns.take(0)));
    while i < names.len()
        invariant
            i <= names@.len() <= 32,
            ns == names.deep_view(),
            out.deep_view() == modifiers_of(bits, ns.take(i as int)),
        decreases names@.len() - i,
    {
        let ghost before = out.deep_view();
        let ghost now = ns.take(i + 1);
        assert(now.drop_last() =~= ns.take(i as int));
        if bits & (1u32 << (i as u32)) != 0 {
            out.push(names[i].clone());
            assert(out.deep_view() =~= before.push(ns[i as int]));
        }
        i = i + 1;
    }
    assert(ns.take(i as int) =~= ns);
    out
}

/// Decodes tokens from their relative encoding.
pub fn decode_raw_tokens(
    data: &Vec<SemanticToken>,
    type_names: &Vec<String>,
    mod_names: &Vec<String>,
) -> (r: Vec<SemanticTokenItem>)
    requires
        decodable(data@, mod_names.deep_view()),
    ensures
        r.deep_view() == decoded_tokens(data@, type_names.deep_view(), mod_names.deep_view()),
{
    let mut decoded: Vec<SemanticTokenItem> = Vec::new();
    let mut line: u32 = 0;
    let mut start: u32 = 0;
    let mut i: usize = 0;
    while i < data.len()
        invariant
            decodable(data@, mod_names.deep_view()),
            i <= data@.len(),
            line == token_line(data@, i - 1),
            start == token_start(data@, i - 1),
            decoded@.len() == i,
            forall|k: int|
                0 <= k < i ==> (#[trigger] decoded@[k]).deep_view() == decoded_token(
                    data@,
                    k,
                    type_names.deep_view(),
                    mod_names.deep_view(),
                ),
        decreases data@.len() - i,
    {
        let token = data[i];
        assert(token_line(data@, i as int) <= u32::MAX);
        if token.delta_line > 0 {
            line = line + token.delta_line;
            start = token.delta_start;
        } else {
            start = start + token.delta_start;
        }
        let token_type = if (token.token_type as usize) < type_names.len() {
            type_names[token.token_type as usize].clone()
        } else {
            "type_".to_string().concat(text::decimal_text(token.token_type as u64).as_str())
        };
        decoded.push(
            SemanticTokenItem {
                line,
                start,
                length: token.length,
                token_type,
                modifiers: modifier_names(token.token_modifiers_bitset, mod_names),
            },
        );
        i = i + 1;
    }
    assert(decoded.deep_view() =~= decoded_tokens(
        data@,
        type_names.deep_view(),
        mod_names.deep_view(),
    ));
    decoded
}

fn places_ok(data: &Vec<SemanticToken>) -> (r: bool)
    ensures
        r == places_fit(data@),
{
    let mut line: u32 = 0;
    let mut start: u32 = 0;
    let mut i: usize = 0;
    while i < data.len()
        invariant
            i <= data@.len(),
            line == token_line(data@, i - 1),
            start == token_start(data@, i - 1),
            forall|k: int|
                0 <= k < i ==> #[trigger] token_line(data@, k) <= u32::MAX && token_start(data@, k)
                    <= u32::MAX,
        decreases data@.len() - i,
    {
        let token = data[i];
        if token.delta_line > 0 {
            match line.checked_add(token.delta_line) {
                Some(n) => {
                    line = n;
                    start = token.delta_start;
                },
                None => {
                    assert(token_line(data@, i as int) > u32::MAX);
                    return false;
                },
            }
        } else {
            match start.checked_add(token.delta_start) {
                Some(n) => {
                    start = n;
                },
                None => {
                    assert(token_line(data@, i as int) == line && token_start(data@, i as int)
                        > u32::MAX);
                    return false;
                },
            }
        }
        assert(token_line(data@, i as int) == line);
        assert(token_start(data@, i as int) == start);
        i = i + 1;
    }
    true
}

/// Decodes tokens where that is possible.
pub fn decode_tokens(
    data: &Vec<SemanticToken>,
    type_names: &Vec<String>,
    mod_names: &Vec<String>,
) -> (r: Option<Vec<SemanticTokenItem>>)
    ensures
        r.deep_view() == decoded_if(data@, type_names.deep_view(), mod_names.deep_view()),
{
    if places_ok(data) && (data.len() == 0 || mod_names.len() <= 32) {
        Some(decode_raw_tokens(data, type_names, mod_names))
    } else {
        None
    }
}

/// The decoded form of a list of tokens that can be decoded.
pub open spec fn decoded_if(
    data: Seq<SemanticToken>,
    type_names: Seq<Seq<char>>,
    mod_names: Seq<Seq<char>>,
) -> Option<Seq<SemanticTokenItemView>> {
    if decodable(data, mod_names) {
        Some(decoded_tokens(data, type_names, mod_names))
    } else {
        None
    }
}

// ---------------------------------------------------------------------------
// Edits
// ---------------------------------------------------------------------------

/// One edit of a list of tokens.
pub struct TokenEdit {
    pub start: u32,
    pub delete_count: u32,
    pub data: Vec<SemanticToken>,
}

/// The model of [`TokenEdit`].
#[verifier::ext_equal]
pub struct TokenEditView {
    pub start: u32,
    pub delete_count: u32,
    pub data: Seq<SemanticToken>,
}

impl DeepView for TokenEdit {
    type V = TokenEditView;

    open spec fn deep_view(&self) -> TokenEditView {
        TokenEditView { start: self.start, delete_count: self.delete_count, data: self.data@ }
    }
}

/// The edit that a `SemanticTokensEdit` stands for.
pub open spec fn token_edit_of(j: JsonView) -> TokenEditView {
    TokenEditView {
        start: j.at("start"@).u32(),
        delete_count: j.at("deleteCount"@).u32(),
        data: tokens_of(j.at("data"@).items()),
    }
}

/// A list of edits, from the highest start down, with one more: after those
/// that start no lower.
pub open spec fn insert_edit(sorted: Seq<TokenEditView>, e: TokenEditView) -> Seq<TokenEditView>
    decreases sorted.len(),
{
    if sorted.len() == 0 || sorted.last().start >= e.start {
        sorted.push(e)
    } else {
        insert_edit(sorted.drop_last(), e).push(sorted.last())
    }
}

/// Edits from the highest start down; those with the same start keep their
/// order.
pub open spec fn edits_descending(edits: Seq<TokenEditView>) -> Seq<TokenEditView>
    decreases edits.len(),
{
    if edits.len() == 0 {
        Seq::empty()
    } else {
        insert_edit(edits_descending(edits.drop_last()), edits.last())
    }
}

proof fn lemma_insert_edit(sorted: Seq<TokenEditView>, e: TokenEditView, at: int)
    requires
        0 <= at <= sorted.len(),
        at == 0 || sorted[at - 1].start >= e.start,
        forall|k: int| at <= k < sorted.len() ==> (#[trigger] sorted[k]).start < e.start,
    ensures
        insert_edit(sorted, e) == sorted.insert(at, e),
    decreases sorted.len(),
{
    if at == sorted.len() {
        assert(sorted.insert(at, e) =~= sorted.push(e));
    } else {
        lemma_insert_edit(sorted.drop_last(), e, at);
        assert(sorted.insert(at, e) =~= sorted.drop_last().insert(at, e).push(sorted.last()));
    }
}

/// The edits that a list of `SemanticTokensEdit`s stands for.
pub open spec fn token_edits_of(items: Seq<JsonView>) -> Seq<TokenEditView> {
    Seq::new(items.len(), |i: int| token_edit_of(items[i]))
}

fn read_edits_descending(items: &Vec<Json>) -> (r: Vec<TokenEdit>)
    ensures
        r.deep_view() == edits_descending(token_edits_of(json::items_view(items@))),
{
    let ghost all = token_edits_of(json::items_view(items@));
    let mut sorted: Vec<TokenEdit> = Vec::new();
    let mut i: usize = 0;
    assert(sorted.deep_view() =~= edits_descending(all.take(0)));
    while i < items.len()
        invariant
            i <= items@.len(),
            all == token_edits_of(json::items_view(items@)),
            sorted.deep_view() == edits_descending(all.take(i as int)),
        decreases items@.len() - i,
    {
        let e = TokenEdit {
            start: items[i].number_at("start"),
            delete_count: items[i].number_at("deleteCount"),
            data: tokens_at(&items[i], "data"),
        };
        let ghost before = sorted.deep_view();
        let ghost ev = e.deep_view();
        let mut at: usize = sorted.len();
        while at > 0 && sorted[at - 1].start < e.start
            invariant
                at <= sorted@.len(),
                before == sorted.deep_view(),
                ev == e.deep_view(),
                forall|k: int| at <= k < before.len() ==> (#[trigger] before[k]).start < ev.start,
            decreases at,
        {
            assert(before[at - 1].start == sorted@[at - 1].start);
            at = at - 1;
        }
        proof {
            if at > 0 {
                assert(before[at - 1].start == sorted@[at - 1].start);
            }
            lemma_insert_edit(before, ev, at as int);
        }
        sorted.insert(at, e);
        assert(sorted.deep_view() =~= before.insert(at as int, ev));
        assert(all.take(i + 1).drop_last() =~= all.take(i as int));
        assert(all.take(i + 1).last() == ev);
        i = i + 1;
    }
    assert(all.take(i as int) =~= all);
    sorted
}

/// The number of tokens before what an edit keeps behind it.
pub open spec fn edit_end(len: int, e: TokenEditView) -> int {
    if e.start + e.delete_count < len {
        e.start + e.delete_count
    } else {
        len
    }
}

/// A list of tokens after an edit.
pub open spec fn edited(data: Seq<SemanticToken>, e: TokenEditView) -> Seq<SemanticToken> {
    data.take(e.start as int) + e.data + data.skip(edit_end(data.len() as int, e))
}

/// A list of tokens after some edits, one after the other.
pub open spec fn edited_all(data: Seq<SemanticToken>, edits: Seq<TokenEditView>) -> Seq<
    SemanticToken,
>
    decreases edits.len(),
{
    if edits.len() == 0 {
        data
    } else {
        edited_all(edited(data, edits[0]), edits.drop_first())
    }
}

/// Whether each edit starts within the list that it finds.
pub open spec fn edits_fit(data: Seq<SemanticToken>, edits: Seq<TokenEditView>) -> bool
    decreases edits.len(),
{
    edits.len() > 0 ==> edits[0].start <= data.len() && edits_fit(
        edited(data, edits[0]),
        edits.drop_first(),
    )
}

/// Applies one edit.
pub fn apply_edit(data: &Vec<SemanticToken>, e: &TokenEdit) -> (r: Vec<SemanticToken>)
    requires
        e.start <= data@.len(),
    ensures
        r@ == edited(data@, e.deep_view()),
        e.start + e.delete_count <= data@.len() ==> r@ == data@.take(e.start as int) + e.data@
            + data@.skip(e.start + e.delete_count),
        e.start + e.delete_count > data@.len() ==> r@ == data@.take(e.start as int) + e.data@,
{
    let mut out: Vec<SemanticToken> = Vec::new();
    let n: usize = data.len();
    let start: usize = e.start as usize;
    let end: usize = if (e.delete_count as usize) < n - start {
        start + e.delete_count as usize
    } else {
        n
    };
    let mut i: usize = 0;
    while i < start
        invariant
            i <= start <= n,
            n == data@.len(),
            out@ == data@.take(i as int),
        decreases start - i,
    {
        out.push(data[i]);
        i = i + 1;
    }
    let mut j: usize = 0;
    while j < e.data.len()
        invariant
            j <= e.data@.len(),
            start <= data@.len(),
            out@ == data@.take(start as int) + e.data@.take(j as int),
        decreases e.data@.len() - j,
    {
        out.push(e.data[j]);
        assert(out@ =~= data@.take(start as int) + e.data@.take(j + 1));
        j = j + 1;
    }
    assert(e.data@.take(j as int) =~= e.data@);
    let ghost head = data@.take(start as int) + e.data@;
    let mut k: usize = end;
    assert(out@ =~= head + data@.subrange(end as int, end as int));
    while k < n
        invariant
            end <= k <= n,
            n == data@.len(),
            out@ == head + data@.subrange(end as int, k as int),
        decreases n - k,
    {
        out.push(data[k]);
        assert(out@ =~= head + data@.subrange(end as int, k + 1));
        k = k + 1;
    }
    assert(out@ =~= edited(data@, e.deep_view()));
    assert(out@ =~= data@.take(start as int) + e.data@ + data@.skip(end as int));
    out
}

/// Applies edits one after the other, where each starts within the list.
pub fn apply_edits(data: &Vec<SemanticToken>, edits: &Vec<TokenEdit>) -> (r: Option<
    Vec<SemanticToken>,
>)
    ensures
        match r {
            Some(out) => edits_fit(data@, edits.deep_view()) && out@ == edited_all(
                data@,
                edits.deep_view(),
            ),
            None => !edits_fit(data@, edits.deep_view()),
        },
{
    let ghost all = edits.deep_view();
    let mut current: Vec<SemanticToken> = data.clone();
    let mut i: usize = 0;
    assert(all.skip(0) =~= all);
    assert(current@ =~= data@);
    while i < edits.len()
        invariant
            i <= edits@.len(),
            all == edits.deep_view(),
            edits_fit(data@, all) == edits_fit(current@, all.skip(i as int)),
            edited_all(data@, all) == edited_all(current@, all.skip(i as int)),
        decreases edits@.len() - i,
    {
        assert(all.skip(i as int)[0] == edits@[i as int].deep_view());
        assert(all.skip(i as int).drop_first() =~= all.skip(i + 1));
        if edits[i].start as usize > current.len() {
            return None;
        }
        current = apply_edit(&current, &edits[i]);
        i = i + 1;
    }
    assert(all.skip(i as int) =~= Seq::<TokenEditView>::empty());
    Some(current)
}

/// Applies the `edits` of a `SemanticTokensDelta`, from the highest start
/// down, where each starts within the list that it finds.
pub fn apply_delta(data: &Vec<SemanticToken>, delta: &Json) -> (r: Option<Vec<SemanticToken>>)
    ensures
        match r {
            Some(out) => delta_of(data@, delta@) == Some(out@),
            None => delta_of(data@, delta@) is None,
        },
{
    match delta.array_at("edits") {
        Some(items) => {
            let sorted = read_edits_descending(items);
            apply_edits(data, &sorted)
        },
        None => {
            assert(token_edits_of(delta@.at("edits"@).items()) =~= Seq::<TokenEditView>::empty());
            let out = data.clone();
            assert(out@ =~= data@);
            Some(out)
        },
    }
}

/// The tokens after the edits of a `SemanticTokensDelta`, where each edit
/// starts within the list that it finds.
pub open spec fn delta_of(data: Seq<SemanticToken>, delta: JsonView) -> Option<
    Seq<SemanticToken>,
> {
    let edits = edits_descending(token_edits_of(delta.at("edits"@).items()));
    if edits_fit(data, edits) {
        Some(edited_all(data, edits))
    } else {
        None
    }
}

// ---------------------------------------------------------------------------
// Laws
// ---------------------------------------------------------------------------

/// Putting edits in order keeps every edit, and leaves none with a lower start
/// before one with a higher start.
pub proof fn law_edits_descending(edits: Seq<TokenEditView>)
    ensures
        edits_descending(edits).to_multiset() == edits.to_multiset(),
        forall|i: int, j: int|
            0 <= i < j < edits_descending(edits).len() ==> (#[trigger] edits_descending(
                edits,
            )[i]).start >= (#[trigger] edits_descending(edits)[j]).start,
    decreases edits.len(),
{
    broadcast use vstd::seq_lib::group_to_multiset_ensures;

    if edits.len() > 0 {
        let rest = edits.drop_last();
        law_edits_descending(rest);
        lemma_insert_keeps_order(edits_descending(rest), edits.last());
        assert(edits =~= rest.push(edits.last()));
    }
}

proof fn lemma_insert_keeps_order(sorted: Seq<TokenEditView>, e: TokenEditView)
    requires
        forall|i: int, j: int|
            0 <= i < j < sorted.len() ==> (#[trigger] sorted[i]).start >= (
            #[trigger] sorted[j]).start,
    ensures
        insert_edit(sorted, e).to_multiset() == sorted.to_multiset().insert(e),
        insert_edit(sorted, e).len() == sorted.len() + 1,
        forall|i: int, j: int|
            0 <= i < j < insert_edit(sorted, e).len() ==> (#[trigger] insert_edit(
                sorted,
                e,
            )[i]).start >= (#[trigger] insert_edit(sorted, e)[j]).start,
        forall|i: int|
            0 <= i < insert_edit(sorted, e).len() ==> (#[trigger] insert_edit(sorted, e)[i]) == e
                || sorted.contains(insert_edit(sorted, e)[i]),
    decreases sorted.len(),
{
    broadcast use vstd::seq_lib::group_to_multiset_ensures;

    if sorted.len() == 0 || sorted.last().start >= e.start {
        let r = sorted.push(e);
        assert forall|i: int| 0 <= i < r.len() implies (#[trigger] r[i]) == e || sorted.contains(
            r[i],
        ) by {
            if i < sorted.len() {
                assert(sorted[i] == r[i]);
            }
        }
    } else {
        let rest = sorted.drop_last();
        let inner = insert_edit(rest, e);
        lemma_insert_keeps_order(rest, e);
        let r = inner.push(sorted.last());
        assert(sorted =~= rest.push(sorted.last()));
        assert(r.to_multiset() =~= sorted.to_multiset().insert(e));
        assert forall|i: int| 0 <= i < r.len() implies (#[trigger] r[i]) == e || sorted.contains(
            r[i],
        ) by {
            if i < inner.len() {
                assert(inner[i] == r[i]);
                if inner[i] != e {
                    let k = choose|k: int| 0 <= k < rest.len() && rest[k] == inner[i];
                    assert(sorted[k] == inner[i]);
                }
            } else {
                assert(sorted[sorted.len() - 1] == r[i]);
            }
        }
        assert forall|i: int, j: int| 0 <= i < j < r.len() implies (#[trigger] r[i]).start >= (
        #[trigger] r[j]).start by {
            if j == inner.len() {
                assert(r[i] == inner[i]);
                if inner[i] != e {
                    let k = choose|k: int| 0 <= k < rest.len() && rest[k] == inner[i];
                    assert(sorted[k].start >= sorted[sorted.len() - 1].start);
                }
            } else {
                assert(r[i] == inner[i] && r[j] == inner[j]);
            }
        }
    }
}

/// An edit leaves the tokens before its start alone, puts its own tokens
/// there, and keeps what lies behind the tokens that it deletes.
pub proof fn law_edit_is_local(data: Seq<SemanticToken>, e: TokenEditView)
    requires
        e.start <= data.len(),
    ensures
        edited(data, e).take(e.start as int) == data.take(e.start as int),
        edited(data, e).subrange(e.start as int, e.start + e.data.len()) == e.data,
        edited(data, e).skip(e.start + e.data.len()) == data.skip(
            edit_end(data.len() as int, e),
        ),
{
    let r = edited(data, e);
    assert(r.take(e.start as int) =~= data.take(e.start as int));
    assert(r.subrange(e.start as int, e.start + e.data.len()) =~= e.data);
    assert(r.skip(e.start + e.data.len()) =~= data.skip(edit_end(data.len() as int, e)));
}

/// Edits that delete nothing and bring nothing change nothing.
pub proof fn law_empty_edit(data: Seq<SemanticToken>, e: TokenEditView)
    requires
        e.start <= data.len(),
        e.delete_count == 0,
        e.data.len() == 0,
    ensures
        edited(data, e) == data,
{
    assert(edited(data, e) =~= data);
}

/// Whether one place is another or comes before it.
pub open spec fn place_not_after(line: int, start: int, other_line: int, other_start: int) -> bool {
    line < other_line || (line == other_line && start <= other_start)
}

proof fn lemma_places_ascend(data: Seq<SemanticToken>, i: int, j: int)
    requires
        0 <= i <= j < data.len(),
    ensures
        place_not_after(
            token_line(data, i),
            token_start(data, i),
            token_line(data, j),
            token_start(data, j),
        ),
    decreases j - i,
{
    if i < j {
        lemma_places_ascend(data, i, j - 1);
    }
}

/// The places of decoded tokens never go back: neither their lines nor, on one
/// line, their starts.
pub proof fn law_places_ascend(
    data: Seq<SemanticToken>,
    type_names: Seq<Seq<char>>,
    mod_names: Seq<Seq<char>>,
    i: int,
    j: int,
)
    requires
        decodable(data, mod_names),
        0 <= i <= j < data.len(),
    ensures
        ({
            let tokens = decoded_tokens(data, type_names, mod_names);
            place_not_after(
                tokens[i].line as int,
                tokens[i].start as int,
                tokens[j].line as int,
                tokens[j].start as int,
            )
        }),
{
    lemma_places_ascend(data, i, j);
    lemma_place_is_nonnegative(data, i);
    lemma_place_is_nonnegative(data, j);
    assert(token_line(data, i) <= u32::MAX && token_line(data, j) <= u32::MAX);
}

proof fn lemma_place_is_nonnegative(data: Seq<SemanticToken>, i: int)
    ensures
        token_line(data, i) >= 0,
        token_start(data, i) >= 0,
    decreases i + 1,
{
    if i >= 0 {
        lemma_place_is_nonnegative(data, i - 1);
    }
}

proof fn lemma_place_in_prefix(data: Seq<SemanticToken>, n: int, i: int)
    requires
        0 <= n <= data.len(),
        i < n,
    ensures
        token_line(data.take(n), i) == token_line(data, i),
        token_start(data.take(n), i) == token_start(data, i),
    decreases i + 1,
{
    if i >= 0 {
        lemma_place_in_prefix(data, n, i - 1);
    }
}

/// The first tokens of a list are decoded as they are in the whole list.
pub proof fn law_prefix_decodes_to_prefix(
    data: Seq<SemanticToken>,
    type_names: Seq<Seq<char>>,
    mod_names: Seq<Seq<char>>,
    n: int,
)
    requires
        0 <= n <= data.len(),
    ensures
        decoded_tokens(data.take(n), type_names, mod_names) == decoded_tokens(
            data,
            type_names,
            mod_names,
        ).take(n),
        decodable(data, mod_names) ==> decodable(data.take(n), mod_names),
{
    let part = decoded_tokens(data.take(n), type_names, mod_names);
    let whole = decoded_tokens(data, type_names, mod_names);
    assert forall|i: int| 0 <= i < n implies part[i] == whole.take(n)[i] by {
        lemma_place_in_prefix(data, n, i);
    }
    assert(part =~= whole.take(n));
    if decodable(data, mod_names) {
        assert forall|i: int| 0 <= i < n implies #[trigger] token_line(data.take(n), i) <= u32::MAX
            && token_start(data.take(n), i) <= u32::MAX by {
            lemma_place_in_prefix(data, n, i);
            assert(token_line(data, i) <= u32::MAX);
        }
    }
}

} // verus!
