//! Semantic tokens: what edits leave, and where tokens are.

use vstd::prelude::*;
use vstd::string::*;

use crate::json::JsonView;
use crate::laws::shapes;
use crate::lsp::actions;
use crate::lsp::actions::TokenStepView;
use crate::lsp::client::ClientView;
use crate::lsp::tokens;
use crate::lsp::tokens::{SemanticToken, TokenEditView};
use crate::text;

verus! {

// ---------------------------------------------------------------------------
// Edits
// ---------------------------------------------------------------------------

/// An edit takes out as many tokens as it counts, from its start on, and puts
/// its own in their place: those before and behind stay. One that counts beyond
/// the end takes out the rest.
pub proof fn law_edit_replaces_what_it_counts(data: Seq<SemanticToken>, e: TokenEditView)
    requires
        e.start <= data.len(),
    ensures
        e.start + e.delete_count <= data.len() ==> {
            let r = tokens::edited(data, e);
            &&& r.len() == data.len() - e.delete_count + e.data.len()
            &&& r.take(e.start as int) == data.take(e.start as int)
            &&& r.subrange(e.start as int, e.start + e.data.len()) == e.data
            &&& r.skip(e.start + e.data.len()) == data.skip(e.start + e.delete_count)
        },
        e.start + e.delete_count > data.len() ==> {
            let r = tokens::edited(data, e);
            &&& r.len() == e.start + e.data.len()
            &&& r.take(e.start as int) == data.take(e.start as int)
            &&& r.skip(e.start as int) == e.data
        },
{
    let r = tokens::edited(data, e);
    assert(r.take(e.start as int) =~= data.take(e.start as int));
    if e.start + e.delete_count <= data.len() {
        assert(r.subrange(e.start as int, e.start + e.data.len()) =~= e.data);
        assert(r.skip(e.start + e.data.len()) =~= data.skip(e.start + e.delete_count));
    } else {
        assert(r.skip(e.start as int) =~= e.data);
    }
}

/// Edits one after the other do what the first of them and then the rest do, and
/// one by itself does what it says.
pub proof fn law_edits_follow_each_other(
    data: Seq<SemanticToken>,
    first: Seq<TokenEditView>,
    rest: Seq<TokenEditView>,
    e: TokenEditView,
)
    ensures
        tokens::edited_all(data, first + rest) == tokens::edited_all(
            tokens::edited_all(data, first),
            rest,
        ),
        tokens::edited_all(data, seq![e]) == tokens::edited(data, e),
        tokens::edited_all(data, Seq::empty()) == data,
    decreases first.len(),
{
    assert(seq![e].drop_first() =~= Seq::<TokenEditView>::empty());
    assert(tokens::edited_all(tokens::edited(data, e), Seq::<TokenEditView>::empty())
        == tokens::edited(data, e));
    if first.len() == 0 {
        assert(first + rest =~= rest);
    } else {
        assert((first + rest).drop_first() =~= first.drop_first() + rest);
        law_edits_follow_each_other(
            tokens::edited(data, first[0]),
            first.drop_first(),
            rest,
            e,
        );
    }
}

/// Whether a value is an edit of the protocol: where it starts, how many tokens
/// it takes out, and the numbers of those that it brings.
pub open spec fn is_token_edit(j: JsonView, start: u32, count: u32, numbers: Seq<JsonView>) -> bool {
    &&& shapes::has_number(j, "start"@, start as int)
    &&& shapes::has_number(j, "deleteCount"@, count as int)
    &&& shapes::has_list(j, "data"@, numbers) || (shapes::lacks(j, "data"@) && numbers.len() == 0)
}

proof fn lemma_token_edit(j: JsonView, start: u32, count: u32, numbers: Seq<JsonView>)
    requires
        is_token_edit(j, start, count, numbers),
    ensures
        tokens::token_edit_of(j).start == start,
        tokens::token_edit_of(j).delete_count == count,
        tokens::token_edit_of(j).data == tokens::tokens_of(numbers),
{
    assert(j.at("data"@).items() =~= numbers);
}

/// A delta with one edit gives the tokens before its start, those that it
/// brings, and those behind the ones that it counts. One that starts behind the
/// end cannot be applied.
pub proof fn law_delta_of_one_edit(
    data: Seq<SemanticToken>,
    delta: JsonView,
    j: JsonView,
    start: u32,
    count: u32,
    numbers: Seq<JsonView>,
)
    requires
        shapes::has_list(delta, "edits"@, seq![j]),
        is_token_edit(j, start, count, numbers),
    ensures
        start + count <= data.len() ==> tokens::delta_of(data, delta) == Some(
            data.take(start as int) + tokens::tokens_of(numbers) + data.skip(start + count),
        ),
        start <= data.len() < start + count ==> tokens::delta_of(data, delta) == Some(
            data.take(start as int) + tokens::tokens_of(numbers),
        ),
        start > data.len() ==> tokens::delta_of(data, delta) is None,
{
    let e = tokens::token_edit_of(j);
    lemma_token_edit(j, start, count, numbers);
    let edits = tokens::token_edits_of(seq![j]);
    assert(edits =~= seq![e]);
    assert(edits.drop_last() =~= Seq::<TokenEditView>::empty());
    assert(tokens::edits_descending(Seq::<TokenEditView>::empty())
        =~= Seq::<TokenEditView>::empty());
    assert(tokens::edits_descending(edits) =~= seq![e]);
    assert(seq![e].drop_first() =~= Seq::<TokenEditView>::empty());
    assert(tokens::edits_fit(tokens::edited(data, e), Seq::<TokenEditView>::empty()));
    law_edits_follow_each_other(data, Seq::empty(), Seq::empty(), e);
    if start <= data.len() {
        let r = tokens::edited(data, e);
        law_edit_replaces_what_it_counts(data, e);
        if start + count <= data.len() {
            assert(r =~= r.take(start as int) + r.subrange(start as int, start + e.data.len())
                + r.skip(start + e.data.len()));
        } else {
            assert(r =~= r.take(start as int) + r.skip(start as int));
        }
    }
}

/// Two edits that do not touch each other's tokens both count from the tokens as
/// they were, in whichever order a delta names them.
pub proof fn law_delta_of_two_edits(
    data: Seq<SemanticToken>,
    delta: JsonView,
    a: JsonView,
    b: JsonView,
    start_a: u32,
    count_a: u32,
    numbers_a: Seq<JsonView>,
    start_b: u32,
    count_b: u32,
    numbers_b: Seq<JsonView>,
)
    requires
        shapes::has_list(delta, "edits"@, seq![a, b]) || shapes::has_list(
            delta,
            "edits"@,
            seq![b, a],
        ),
        is_token_edit(a, start_a, count_a, numbers_a),
        is_token_edit(b, start_b, count_b, numbers_b),
        start_a < start_b,
        start_a + count_a <= start_b,
        start_b + count_b <= data.len(),
    ensures
        tokens::delta_of(data, delta) == Some(
            data.take(start_a as int) + tokens::tokens_of(numbers_a) + data.subrange(
                start_a + count_a,
                start_b as int,
            ) + tokens::tokens_of(numbers_b) + data.skip(start_b + count_b),
        ),
{
    let x = tokens::token_edit_of(a);
    let y = tokens::token_edit_of(b);
    lemma_token_edit(a, start_a, count_a, numbers_a);
    lemma_token_edit(b, start_b, count_b, numbers_b);
    let empty = Seq::<TokenEditView>::empty();
    assert(tokens::edits_descending(empty) =~= empty);
    assert(seq![x].drop_last() =~= empty);
    assert(seq![y].drop_last() =~= empty);
    assert(tokens::edits_descending(seq![x]) =~= seq![x]);
    assert(tokens::edits_descending(seq![y]) =~= seq![y]);
    assert(seq![x, y].drop_last() =~= seq![x]);
    assert(seq![y, x].drop_last() =~= seq![y]);
    assert(tokens::insert_edit(empty, y) =~= seq![y]);
    assert(tokens::edits_descending(seq![x, y]) =~= seq![y, x]);
    assert(tokens::edits_descending(seq![y, x]) =~= seq![y, x]);
    let order = tokens::edits_descending(
        tokens::token_edits_of(delta.at("edits"@).items()),
    );
    assert(tokens::token_edits_of(seq![a, b]) =~= seq![x, y]);
    assert(tokens::token_edits_of(seq![b, a]) =~= seq![y, x]);
    assert(order == seq![y, x]);
    assert(seq![y, x].drop_first() =~= seq![x]);
    assert(seq![x].drop_first() =~= empty);
    let mid = tokens::edited(data, y);
    law_edit_replaces_what_it_counts(data, y);
    let r = tokens::edited(mid, x);
    law_edit_replaces_what_it_counts(mid, x);
    assert(tokens::edits_fit(r, empty));
    assert(tokens::edits_fit(mid, seq![x]));
    assert(tokens::edits_fit(data, seq![y, x]));
    law_edits_follow_each_other(mid, empty, empty, x);
    assert(tokens::edited_all(data, seq![y, x]) == r);
    assert(mid =~= data.take(start_b as int) + y.data + data.skip(start_b + count_b));
    assert(r =~= mid.take(start_a as int) + x.data + mid.skip(start_a + count_a));
    assert(r =~= data.take(start_a as int) + x.data + data.subrange(
        start_a + count_a,
        start_b as int,
    ) + y.data + data.skip(start_b + count_b));
}

/// Edits with the same start keep their order.
pub proof fn law_edits_of_one_start_keep_their_order(edits: Seq<TokenEditView>, start: u32)
    ensures
        tokens::edits_descending(edits).filter(|e: TokenEditView| e.start == start)
            == edits.filter(|e: TokenEditView| e.start == start),
    decreases edits.len(),
{
    let p = |e: TokenEditView| e.start == start;
    reveal(Seq::filter);
    if edits.len() > 0 {
        let rest = edits.drop_last();
        law_edits_of_one_start_keep_their_order(rest, start);
        tokens::law_edits_descending(rest);
        lemma_insert_keeps_filter(tokens::edits_descending(rest), edits.last(), start);
    }
}

proof fn lemma_insert_keeps_filter(sorted: Seq<TokenEditView>, e: TokenEditView, start: u32)
    requires
        forall|i: int, j: int|
            0 <= i < j < sorted.len() ==> (#[trigger] sorted[i]).start >= (
            #[trigger] sorted[j]).start,
    ensures
        tokens::insert_edit(sorted, e).filter(|x: TokenEditView| x.start == start) == if e.start
            == start {
            sorted.filter(|x: TokenEditView| x.start == start).push(e)
        } else {
            sorted.filter(|x: TokenEditView| x.start == start)
        },
    decreases sorted.len(),
{
    let p = |x: TokenEditView| x.start == start;
    reveal(Seq::filter);
    if sorted.len() == 0 || sorted.last().start >= e.start {
        assert(sorted.push(e).drop_last() =~= sorted);
    } else {
        let rest = sorted.drop_last();
        lemma_insert_keeps_filter(rest, e, start);
        let inner = tokens::insert_edit(rest, e);
        assert(inner.push(sorted.last()).drop_last() =~= inner);
        if e.start == start {
            assert(!p(sorted.last()));
        }
    }
}

// ---------------------------------------------------------------------------
// Numbers
// ---------------------------------------------------------------------------

/// Five numbers stand for one token, in the order in which they come. Numbers
/// that are left over stand for none.
pub proof fn law_five_numbers_are_a_token(numbers: Seq<JsonView>, i: int, token: SemanticToken)
    requires
        0 <= 5 * i,
        5 * i + 4 < numbers.len(),
        numbers[5 * i] == JsonView::Int(token.delta_line as int),
        numbers[5 * i + 1] == JsonView::Int(token.delta_start as int),
        numbers[5 * i + 2] == JsonView::Int(token.length as int),
        numbers[5 * i + 3] == JsonView::Int(token.token_type as int),
        numbers[5 * i + 4] == JsonView::Int(token.token_modifiers_bitset as int),
    ensures
        5 * tokens::tokens_of(numbers).len() <= numbers.len(),
        numbers.len() < 5 * tokens::tokens_of(numbers).len() + 5,
        tokens::tokens_of(numbers)[i] == token,
{
}

// ---------------------------------------------------------------------------
// Places
// ---------------------------------------------------------------------------

/// The first token is at the place that it names. Each other is as many lines
/// below the one before as it says: on the same line it starts that much later,
/// and on another it starts where it says.
pub proof fn law_places_are_relative(
    data: Seq<SemanticToken>,
    type_names: Seq<Seq<char>>,
    mod_names: Seq<Seq<char>>,
    i: int,
)
    requires
        tokens::decoded_if(data, type_names, mod_names) is Some,
        0 <= i < data.len(),
    ensures
        ({
            let shown = tokens::decoded_if(data, type_names, mod_names)->0;
            &&& shown.len() == data.len()
            &&& shown[i].length == data[i].length
            &&& i == 0 ==> shown[i].line == data[i].delta_line && shown[i].start
                == data[i].delta_start
            &&& i > 0 ==> shown[i].line == shown[i - 1].line + data[i].delta_line
            &&& i > 0 && data[i].delta_line == 0 ==> shown[i].start == shown[i - 1].start
                + data[i].delta_start
            &&& i > 0 && data[i].delta_line > 0 ==> shown[i].start == data[i].delta_start
        }),
{
    assert(tokens::token_line(data, i) <= u32::MAX);
    assert(tokens::token_line(data, -1) == 0);
    assert(tokens::token_start(data, -1) == 0);
    lemma_nonnegative(data, i);
    if i > 0 {
        assert(tokens::token_line(data, i - 1) <= u32::MAX);
        lemma_nonnegative(data, i - 1);
    }
}

proof fn lemma_nonnegative(data: Seq<SemanticToken>, i: int)
    ensures
        tokens::token_line(data, i) >= 0,
        tokens::token_start(data, i) >= 0,
    decreases i + 1,
{
    if i >= 0 {
        lemma_nonnegative(data, i - 1);
    }
}

/// The type of a token is the name at its number, or a name made of the number
/// where the server named none.
pub proof fn law_types_are_named(
    data: Seq<SemanticToken>,
    type_names: Seq<Seq<char>>,
    mod_names: Seq<Seq<char>>,
    i: int,
)
    requires
        tokens::decoded_if(data, type_names, mod_names) is Some,
        0 <= i < data.len(),
    ensures
        ({
            let shown = tokens::decoded_if(data, type_names, mod_names)->0;
            &&& data[i].token_type < type_names.len() ==> shown[i].token_type
                == type_names[data[i].token_type as int]
            &&& data[i].token_type >= type_names.len() ==> shown[i].token_type == "type_"@
                + text::decimal(data[i].token_type as nat)
        }),
{
}

/// The modifiers of a token are the names whose bits are set, in the order of
/// their bits: one name more adds it exactly when its bit is set.
pub proof fn law_modifiers_are_the_set_bits(bits: u32, names: Seq<Seq<char>>, name: Seq<char>)
    requires
        names.len() < 32,
    ensures
        tokens::modifiers_of(bits, Seq::empty()).len() == 0,
        (bits >> names.len() as u32) & 1 == 1 ==> tokens::modifiers_of(bits, names.push(name))
            == tokens::modifiers_of(bits, names).push(name),
        (bits >> names.len() as u32) & 1 == 0 ==> tokens::modifiers_of(bits, names.push(name))
            == tokens::modifiers_of(bits, names),
{
    assert(names.push(name).drop_last() =~= names);
    let k = names.len() as u32;
    assert((bits >> k) & 1 == 1 <==> bits & (1u32 << k) != 0) by (bit_vector)
        requires
            k < 32,
    ;
    assert((bits >> k) & 1 == 0 <==> bits & (1u32 << k) == 0) by (bit_vector)
        requires
            k < 32,
    ;
}

/// The modifiers that a token is shown with are those of its own bits.
pub proof fn law_modifiers_are_of_the_token(
    data: Seq<SemanticToken>,
    type_names: Seq<Seq<char>>,
    mod_names: Seq<Seq<char>>,
    i: int,
)
    requires
        tokens::decoded_if(data, type_names, mod_names) is Some,
        0 <= i < data.len(),
    ensures
        (tokens::decoded_if(data, type_names, mod_names)->0)[i].modifiers == tokens::modifiers_of(
            data[i].token_modifiers_bitset,
            mod_names,
        ),
{
}

proof fn lemma_small_places(data: Seq<SemanticToken>, bound: int, i: int)
    requires
        bound >= 0,
        forall|k: int|
            0 <= k < data.len() ==> (#[trigger] data[k]).delta_line <= bound && data[k].delta_start
                <= bound,
        -1 <= i < data.len(),
    ensures
        tokens::token_line(data, i) <= (i + 1) * bound,
        tokens::token_start(data, i) <= (i + 1) * bound,
    decreases i + 1,
{
    if i >= 0 {
        lemma_small_places(data, bound, i - 1);
        assert(data[i].delta_line <= bound);
        assert((i + 1) * bound == i * bound + bound) by (nonlinear_arith);
        assert(i * bound >= 0) by (nonlinear_arith)
            requires
                i >= 0,
                bound >= 0,
        ;
    }
}

/// Tokens whose steps are small enough for their number can all be shown.
pub proof fn law_small_steps_are_shown(
    data: Seq<SemanticToken>,
    type_names: Seq<Seq<char>>,
    mod_names: Seq<Seq<char>>,
    bound: int,
)
    requires
        bound >= 0,
        data.len() * bound <= u32::MAX,
        mod_names.len() <= 32,
        forall|k: int|
            0 <= k < data.len() ==> (#[trigger] data[k]).delta_line <= bound && data[k].delta_start
                <= bound,
    ensures
        tokens::decoded_if(data, type_names, mod_names) is Some,
{
    assert forall|i: int| 0 <= i < data.len() implies #[trigger] tokens::token_line(data, i)
        <= u32::MAX && tokens::token_start(data, i) <= u32::MAX by {
        lemma_small_places(data, bound, i);
        assert((i + 1) * bound <= data.len() * bound) by (nonlinear_arith)
            requires
                i + 1 <= data.len(),
                bound >= 0,
        ;
    }
}

// ---------------------------------------------------------------------------
// What is kept
// ---------------------------------------------------------------------------

/// All tokens of a document, once they have come, are the ones that are kept,
/// under the name that came with them.
pub proof fn law_full_tokens_are_kept(
    c: ClientView,
    uri: Seq<char>,
    full: JsonView,
    numbers: Seq<JsonView>,
    id: Seq<char>,
)
    requires
        shapes::has_list(full, "data"@, numbers),
    ensures
        actions::kept_tokens(actions::after_full(c, uri, full), uri) == tokens::tokens_of(numbers),
        shapes::has_text(full, "resultId"@, id) ==> {
            let ids = actions::after_full(c, uri, full).result_ids;
            ids.contains_key(uri) && ids[uri] == id
        },
        shapes::lacks(full, "resultId"@) ==> actions::after_full(c, uri, full).result_ids
            == c.result_ids,
{
}

/// Edits are applied to the tokens that are kept, and what they give is kept in
/// turn, under the name that came with them.
pub proof fn law_deltas_change_what_is_kept(
    c: ClientView,
    uri: Seq<char>,
    delta: JsonView,
    data: Seq<SemanticToken>,
    id: Seq<char>,
)
    requires
        tokens::delta_of(actions::kept_tokens(c, uri), delta) == Some(data),
    ensures
        actions::kept_tokens(actions::after_delta(c, uri, delta), uri) == data,
        shapes::has_text(delta, "resultId"@, id) ==> {
            let ids = actions::after_delta(c, uri, delta).result_ids;
            ids.contains_key(uri) && ids[uri] == id
        },
{
}

/// What the editor is shown is always what is kept: the tokens that came whole,
/// or those that the edits give.
pub proof fn law_shown_tokens_are_the_kept_ones(
    c: ClientView,
    uri: Seq<char>,
    full: Result<JsonView, Seq<char>>,
    delta: Result<JsonView, Seq<char>>,
)
    requires
        full is Err ==> delta is Ok && tokens::delta_of(
            actions::kept_tokens(c, uri),
            delta->Ok_0,
        ) is Some,
    ensures
        ({
            let after = actions::delta_state(c, uri, false, false, full, delta);
            let kept = actions::kept_tokens(after, uri);
            let shown = tokens::decoded_if(
                kept,
                actions::legend_types(c.capabilities),
                actions::legend_modifiers(c.capabilities),
            );
            match actions::delta_outcome(c, uri, false, false, full, delta) {
                TokenStepView::Tokens(v) => shown == Some(v),
                TokenStepView::AskFull(_) => false,
                TokenStepView::Unusable => shown is None,
            }
        }),
{
}

/// The names of types and modifiers are those of the server's legend.
pub proof fn law_legend_is_the_servers(
    capabilities: JsonView,
    provider: JsonView,
    legend: JsonView,
    type_names: Seq<JsonView>,
    mod_names: Seq<JsonView>,
    i: int,
    name: Seq<char>,
)
    requires
        shapes::has(capabilities, "semanticTokensProvider"@, provider),
        shapes::has(provider, "legend"@, legend),
        shapes::has_list(legend, "tokenTypes"@, type_names),
        shapes::has_list(legend, "tokenModifiers"@, mod_names),
    ensures
        actions::legend_types(Some(capabilities)).len() == type_names.len(),
        actions::legend_modifiers(Some(capabilities)).len() == mod_names.len(),
        0 <= i < type_names.len() && shapes::is_text(type_names[i], name)
            ==> actions::legend_types(Some(capabilities))[i] == name,
        0 <= i < mod_names.len() && shapes::is_text(mod_names[i], name)
            ==> actions::legend_modifiers(Some(capabilities))[i] == name,
{
}

} // verus!
