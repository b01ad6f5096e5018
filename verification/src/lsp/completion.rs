//! Completion: which request is made, which answer is kept, and what an item
//! looks like once the server has filled it in.

use vstd::prelude::*;
use vstd::string::*;

use crate::json;
use crate::json::{Fields, Json, JsonView};
use crate::lsp::call;
use crate::lsp::call::{position_fields, Call, CallView};
use crate::lsp::client::{items_of, ClientView, CompletionCache, LspClient};
use crate::lsp::decode;
use crate::lsp::types;
use crate::lsp::types::{from_lsp_completion_item, CompletionItem, CompletionItemView};
use crate::lsp::wire;
use crate::text;

verus! {

/// How long a completion is waited for, in milliseconds.
pub const COMPLETION_TIMEOUT_MS: u64 = 3000;

/// How long the details of a completion item are waited for, in milliseconds.
pub const RESOLVE_TIMEOUT_MS: u64 = 5000;

/// The most items that are kept of an answer.
pub const MAX_ITEMS: usize = 500;

// ---------------------------------------------------------------------------
// Asking
// ---------------------------------------------------------------------------

/// Whether a server completes when a character is typed.
pub open spec fn triggers_on(capabilities: Option<JsonView>, trigger: Seq<char>) -> bool {
    match capabilities {
        Some(c) => types::strings_of(
            c.at("completionProvider"@).at("triggerCharacters"@).items(),
        ).contains(trigger),
        None => false,
    }
}

/// A kind of trigger, from 1 to 3.
pub open spec fn clamped_kind(kind: u32) -> u32 {
    if kind < 1 {
        1
    } else if kind > 3 {
        3
    } else {
        kind
    }
}

/// Whether a request names a character that the server completes on.
pub open spec fn character_supported(
    capabilities: Option<JsonView>,
    trigger: Option<Seq<char>>,
) -> bool {
    trigger matches Some(t) && t.len() > 0 && triggers_on(capabilities, t)
}

/// Why a completion is asked for. A request on behalf of a character that the
/// server does not complete on is made as one for more of an incomplete list.
pub open spec fn trigger_context(
    capabilities: Option<JsonView>,
    kind: u32,
    trigger: Option<Seq<char>>,
) -> JsonView {
    if clamped_kind(kind) != 2 {
        JsonView::Object(map!["triggerKind"@ => JsonView::Int(clamped_kind(kind) as int)])
    } else if character_supported(capabilities, trigger) {
        JsonView::Object(
            map![
                "triggerKind"@ => JsonView::Int(2),
                "triggerCharacter"@ => JsonView::Str(trigger->0),
            ],
        )
    } else {
        JsonView::Object(map!["triggerKind"@ => JsonView::Int(3)])
    }
}

/// The parameters of a completion request.
pub open spec fn completion_params(
    uri: Seq<char>,
    line: u32,
    character: u32,
    context: JsonView,
) -> JsonView {
    JsonView::Object(
        map![
            "textDocument"@ => call::uri_view(uri),
            "position"@ => call::position_view(line, character),
            "context"@ => context,
        ],
    )
}

/// A completion request: of the requests under its key only the newest counts.
pub struct CompletionCall {
    pub generation: u64,
    pub key: String,
    pub call: Call,
}

fn lists_text(items: &Vec<Json>, t: &str) -> (r: bool)
    ensures
        r == types::strings_of(json::items_view(items@)).contains(t@),
{
    let ghost texts = types::strings_of(json::items_view(items@));
    let mut i: usize = 0;
    while i < items.len()
        invariant
            i <= items@.len(),
            texts == types::strings_of(json::items_view(items@)),
            forall|k: int| 0 <= k < i ==> texts[k] != t@,
        decreases items@.len() - i,
    {
        let same = match items[i].as_str() {
            Some(s) => text::str_eq(s, t),
            None => text::str_eq("", t),
        };
        proof {
            reveal_strlit("");
            assert(""@ =~= Seq::<char>::empty());
        }
        if same {
            assert(texts[i as int] == t@);
            return true;
        }
        i = i + 1;
    }
    false
}

impl LspClient {
    fn completes_on(&self, trigger: &str) -> (r: bool)
        ensures
            r == triggers_on(self@.capabilities, trigger@),
    {
        match &self.capabilities {
            Some(c) => {
                let provider = c.at("completionProvider");
                match provider.array_at("triggerCharacters") {
                    Some(items) => lists_text(items, trigger),
                    None => false,
                }
            },
            None => false,
        }
    }

    fn context_json(&self, kind: u32, trigger: Option<&str>) -> (r: Json)
        ensures
            r@ == trigger_context(self@.capabilities, kind, text::text_of(trigger)),
    {
        let clamped: u32 = if kind < 1 {
            1
        } else if kind > 3 {
            3
        } else {
            kind
        };
        let mut f = Fields::new();
        if clamped != 2 {
            f.put_u64("triggerKind", clamped as u64);
            return f.done();
        }
        if let Some(t) = trigger {
            if t.unicode_len() > 0 && self.completes_on(t) {
                f.put_u64("triggerKind", 2);
                f.put_str("triggerCharacter", t);
                return f.done();
            }
        }
        f.put_u64("triggerKind", 3);
        f.done()
    }

    /// Asks for completions. The generation is taken when the request is made,
    /// not when its answer comes, so that an older answer can be told from a
    /// newer one.
    pub fn completion(
        &mut self,
        uri: &str,
        line: u32,
        character: u32,
        trigger_kind: u32,
        trigger_character: Option<&str>,
    ) -> (r: CompletionCall)
        ensures
            r.generation == old(self)@.completion_generation.wrapping_add(1),
            r.key@ == "completion:"@ + uri@,
            r.call.deep_view() == (CallView {
                method: "textDocument/completion"@,
                params: completion_params(
                    uri@,
                    line,
                    character,
                    trigger_context(
                        old(self)@.capabilities,
                        trigger_kind,
                        text::text_of(trigger_character),
                    ),
                ),
                timeout_ms: COMPLETION_TIMEOUT_MS,
            }),
            final(self)@ == (ClientView { completion_generation: r.generation, ..old(self)@ }),
    {
        let generation: u64 = self.completion_generation.wrapping_add(1);
        self.completion_generation = generation;
        let context = self.context_json(trigger_kind, trigger_character);
        let mut f = position_fields(uri, line, character);
        f.put("context", context);
        CompletionCall {
            generation,
            key: "completion:".to_string().concat(uri),
            call: Call {
                method: "textDocument/completion".to_string(),
                params: f.done(),
                timeout_ms: COMPLETION_TIMEOUT_MS,
            },
        }
    }
}

// ---------------------------------------------------------------------------
// Taking the answer
// ---------------------------------------------------------------------------

/// The items of an answer, given what it was read as: a list of items is read
/// strictly, and anything else counts only where it is a completion list.
pub open spec fn answer_items(
    is_list: bool,
    items: Result<JsonView, Seq<char>>,
    list: Result<JsonView, Seq<char>>,
) -> Result<Seq<JsonView>, Seq<char>> {
    if is_list {
        match items {
            Ok(a) => Ok(a.items()),
            Err(e) => Err(e),
        }
    } else {
        match list {
            Ok(l) => Ok(l.at("items"@).items()),
            Err(_) => Ok(Seq::empty()),
        }
    }
}

/// The items of an answer.
pub open spec fn completion_items_of(result: JsonView) -> Result<Seq<JsonView>, Seq<char>> {
    answer_items(
        result is Array,
        decode::lsp_completion_items(result),
        decode::lsp_completion_list(result),
    )
}

/// How many items are kept: at least one, and never more than 500.
pub open spec fn kept_count(len: int, max_items: usize) -> int {
    let most = if max_items < 1 {
        1
    } else if max_items > MAX_ITEMS {
        MAX_ITEMS as int
    } else {
        max_items as int
    };
    if len < most {
        len
    } else {
        most
    }
}

/// The items that are kept of an answer.
pub open spec fn kept_items(items: Seq<JsonView>, max_items: usize) -> Seq<JsonView> {
    items.take(kept_count(items.len() as int, max_items))
}

/// The items as the editor receives them.
pub open spec fn shown_items(items: Seq<JsonView>) -> Seq<CompletionItemView> {
    Seq::new(items.len(), |i: int| types::completion_item_of(items[i], i as usize))
}

/// A client after the items of a generation have come: an older generation
/// never replaces a newer one.
pub open spec fn stored(c: ClientView, generation: u64, items: Seq<JsonView>) -> ClientView {
    if generation >= c.cached_generation {
        ClientView { cached_generation: generation, completions: items, ..c }
    } else {
        c
    }
}

/// What a completion request comes to, given the items of its answer.
pub open spec fn completion_outcome(
    generation: u64,
    items: Result<Seq<JsonView>, Seq<char>>,
    max_items: usize,
) -> Result<(u64, Seq<CompletionItemView>), Seq<char>> {
    match items {
        Ok(list) => Ok((generation, shown_items(kept_items(list, max_items)))),
        Err(e) => Err(e),
    }
}

fn show_items(items: &Vec<Json>) -> (r: Vec<CompletionItem>)
    ensures
        r.deep_view() == shown_items(json::items_view(items@)),
{
    let mut out: Vec<CompletionItem> = Vec::new();
    let mut i: usize = 0;
    while i < items.len()
        invariant
            i <= items@.len(),
            out@.len() == i,
            forall|k: int|
                0 <= k < i ==> (#[trigger] out@[k]).deep_view() == types::completion_item_of(
                    items@[k]@,
                    k as usize,
                ),
        decreases items@.len() - i,
    {
        out.push(from_lsp_completion_item(&items[i], i));
        i = i + 1;
    }
    assert(out.deep_view() =~= shown_items(json::items_view(items@)));
    out
}

fn keep_items(items: &Vec<Json>, max_items: usize) -> (r: Vec<Json>)
    ensures
        json::items_view(r@) == kept_items(json::items_view(items@), max_items),
{
    let most: usize = if max_items < 1 {
        1
    } else if max_items > MAX_ITEMS {
        MAX_ITEMS
    } else {
        max_items
    };
    let n: usize = if items.len() < most {
        items.len()
    } else {
        most
    };
    let mut out: Vec<Json> = Vec::new();
    let mut i: usize = 0;
    while i < n
        invariant
            i <= n <= items@.len(),
            out@.len() == i,
            forall|k: int| 0 <= k < i ==> (#[trigger] out@[k])@ == items@[k]@,
        decreases n - i,
    {
        out.push(items[i].copy());
        i = i + 1;
    }
    assert(json::items_view(out@) =~= kept_items(json::items_view(items@), max_items));
    out
}

fn read_completion_items(result: &Json) -> (r: Result<Vec<Json>, String>)
    ensures
        match r {
            Ok(v) => completion_items_of(result@) == Ok::<Seq<JsonView>, Seq<char>>(
                json::items_view(v@),
            ),
            Err(e) => completion_items_of(result@) == Err::<Seq<JsonView>, Seq<char>>(e@),
        },
{
    if result.is_array() {
        match decode::completion_items(result) {
            Ok(list) => Ok(items_of(&list)),
            Err(e) => Err(e),
        }
    } else {
        match decode::completion_list(result) {
            Ok(list) => Ok(items_of(&list.at("items"))),
            Err(_) => {
                let none: Vec<Json> = Vec::new();
                assert(json::items_view(none@) =~= Seq::<JsonView>::empty());
                Ok(none)
            },
        }
    }
}

impl LspClient {
    /// Keeps the items of a generation, and gives them as the editor receives
    /// them.
    pub fn store_completions(&mut self, generation: u64, items: &Vec<Json>, max_items: usize) -> (r:
        Vec<CompletionItem>)
        ensures
            r.deep_view() == shown_items(kept_items(json::items_view(items@), max_items)),
            final(self)@ == stored(
                old(self)@,
                generation,
                kept_items(json::items_view(items@), max_items),
            ),
    {
        let kept = keep_items(items, max_items);
        let shown = show_items(&kept);
        if generation >= self.cached_completions.generation {
            self.cached_completions = CompletionCache { generation, items: kept };
        }
        shown
    }

    /// Takes the answer to a completion request. A request that a newer one
    /// replaced has none.
    pub fn completion_reply(
        &mut self,
        generation: u64,
        max_items: usize,
        result: Option<Json>,
    ) -> (r: Result<Option<(u64, Vec<CompletionItem>)>, String>)
        ensures
            match result {
                Some(j) => match completion_outcome(
                    generation,
                    completion_items_of(j@),
                    max_items,
                ) {
                    Ok(shown) => r matches Ok(Some((g, v))) && g == shown.0 && v.deep_view()
                        == shown.1,
                    Err(e) => r matches Err(x) && x@ == e,
                },
                None => r matches Ok(None),
            },
            final(self)@ == match result {
                Some(j) => match completion_items_of(j@) {
                    Ok(items) => stored(old(self)@, generation, kept_items(items, max_items)),
                    Err(_) => old(self)@,
                },
                None => old(self)@,
            },
    {
        match result {
            Some(j) => match read_completion_items(&j) {
                Ok(items) => Ok(
                    Some((generation, self.store_completions(generation, &items, max_items))),
                ),
                Err(e) => Err(e),
            },
            None => Ok(None),
        }
    }
}

// ---------------------------------------------------------------------------
// Filling an item in
// ---------------------------------------------------------------------------

/// Why an item cannot be asked about, if it cannot.
pub open spec fn resolve_error(c: ClientView, generation: u64, index: usize) -> Option<Seq<char>> {
    if c.cached_generation != generation {
        Some(
            "stale completion generation: requested "@ + text::decimal(generation as nat)
                + ", current "@ + text::decimal(c.cached_generation as nat),
        )
    } else if index >= c.completions.len() {
        Some("invalid completion index"@)
    } else {
        None
    }
}

/// Members with one taken from another value, where they lack it.
pub open spec fn filled_member(
    m: Map<Seq<char>, JsonView>,
    original: JsonView,
    key: Seq<char>,
) -> Map<Seq<char>, JsonView> {
    if JsonView::Object(m).opt_at(key) is None && original.opt_at(key) is Some {
        m.insert(key, original.at(key))
    } else {
        m
    }
}

/// An item that the server filled in. An answer may hold only what was missing
/// before: what it leaves out is kept from the item as it was.
pub open spec fn filled_item(resolved: JsonView, original: JsonView) -> JsonView {
    let m = resolved.members();
    let m = filled_member(m, original, "insertText"@);
    let m = filled_member(m, original, "insertTextFormat"@);
    let m = filled_member(m, original, "textEdit"@);
    let m = filled_member(m, original, "additionalTextEdits"@);
    let m = filled_member(m, original, "commitCharacters"@);
    let m = filled_member(m, original, "detail"@);
    let m = filled_member(m, original, "documentation"@);
    JsonView::Object(m)
}

/// What asking about an item comes to, given what the answer was read as.
pub open spec fn resolve_outcome(
    resolved: Result<JsonView, Seq<char>>,
    original: JsonView,
    index: usize,
) -> Result<CompletionItemView, Seq<char>> {
    match resolved {
        Ok(item) => Ok(types::completion_item_of(filled_item(item, original), index)),
        Err(e) => Err(e),
    }
}

impl Fields {
    /// The members of an object, or none.
    pub fn of(j: &Json) -> (r: Fields)
        ensures
            r@ == j@.members(),
    {
        match j.copy() {
            Json::Object(entries) => Fields { entries },
            _ => Fields::new(),
        }
    }

    fn fill(&mut self, original: &Json, key: &str)
        ensures
            final(self)@ == filled_member(old(self)@, original@, key@),
    {
        if self.lacks(key) {
            if let Some(v) = original.opt_at(key) {
                self.put(key, v.copy());
            }
        }
    }
}

/// Fills an item in with what it was before, where an answer leaves that out.
pub fn fill_item(resolved: &Json, original: &Json) -> (r: Json)
    ensures
        r@ == filled_item(resolved@, original@),
{
    let mut f = Fields::of(resolved);
    f.fill(original, "insertText");
    f.fill(original, "insertTextFormat");
    f.fill(original, "textEdit");
    f.fill(original, "additionalTextEdits");
    f.fill(original, "commitCharacters");
    f.fill(original, "detail");
    f.fill(original, "documentation");
    f.done()
}

/// Takes what the server says of an item.
pub fn take_resolved(resolved: Result<Json, String>, original: &Json, index: usize) -> (r: Result<
    CompletionItem,
    String,
>)
    ensures
        wire::outcome(r) == resolve_outcome(json::result_view(resolved), original@, index),
{
    match resolved {
        Ok(item) => Ok(from_lsp_completion_item(&fill_item(&item, original), index)),
        Err(e) => Err(e),
    }
}

impl LspClient {
    /// Asks about an item of the newest completions. The item itself is what is
    /// sent.
    pub fn completion_resolve(&self, generation: u64, index: usize) -> (r: Result<Call, String>)
        ensures
            match resolve_error(self@, generation, index) {
                Some(e) => r matches Err(x) && x@ == e,
                None => r matches Ok(call) && call.deep_view() == (CallView {
                    method: "completionItem/resolve"@,
                    params: self@.completions[index as int],
                    timeout_ms: RESOLVE_TIMEOUT_MS,
                }),
            },
    {
        if self.cached_completions.generation != generation {
            return Err(
                "stale completion generation: requested ".to_string().concat(
                    text::decimal_text(generation).as_str(),
                ).concat(", current ").concat(
                    text::decimal_text(self.cached_completions.generation).as_str(),
                ),
            );
        }
        if index >= self.cached_completions.items.len() {
            return Err("invalid completion index".to_string());
        }
        Ok(
            Call {
                method: "completionItem/resolve".to_string(),
                params: self.cached_completions.items[index].copy(),
                timeout_ms: RESOLVE_TIMEOUT_MS,
            },
        )
    }

    /// Takes what the server says of an item that was asked about.
    pub fn completion_resolve_reply(&self, original: &Json, index: usize, result: &Json) -> (r:
        Result<CompletionItem, String>)
        ensures
            wire::outcome(r) == resolve_outcome(
                decode::lsp_completion_item(result@),
                original@,
                index,
            ),
    {
        take_resolved(decode::completion_item(result), original, index)
    }
}

// ---------------------------------------------------------------------------
// Laws
// ---------------------------------------------------------------------------

/// An older answer never replaces a newer one, whatever it holds.
pub proof fn law_older_completions_never_replace_newer(
    c: ClientView,
    older: u64,
    newer: u64,
    old_items: Seq<JsonView>,
    new_items: Seq<JsonView>,
)
    requires
        older < newer,
        newer >= c.cached_generation,
    ensures
        stored(stored(c, newer, new_items), older, old_items) == stored(c, newer, new_items),
        stored(c, newer, new_items).completions == new_items,
{
}

/// Once a newer answer is kept, an item of an older one cannot be asked about.
pub proof fn law_stale_items_are_refused(
    c: ClientView,
    older: u64,
    newer: u64,
    items: Seq<JsonView>,
    index: usize,
)
    requires
        older < newer,
        newer >= c.cached_generation,
    ensures
        resolve_error(stored(c, newer, items), older, index) is Some,
{
}

/// An answer keeps at least one item, where it has any, and never more than was
/// asked for or than 500.
pub proof fn law_kept_items_are_bounded(items: Seq<JsonView>, max_items: usize)
    ensures
        kept_items(items, max_items).len() <= items.len(),
        kept_items(items, max_items).len() <= MAX_ITEMS,
        max_items >= 1 ==> kept_items(items, max_items).len() <= max_items,
        items.len() > 0 ==> kept_items(items, max_items).len() >= 1,
        kept_items(items, max_items).is_prefix_of(items),
{
}

/// The server never hears of a trigger character that it did not name.
pub proof fn law_trigger_characters_are_known(
    capabilities: Option<JsonView>,
    kind: u32,
    trigger: Option<Seq<char>>,
)
    ensures
        trigger_context(capabilities, kind, trigger).get("triggerCharacter"@) matches Some(t)
            ==> t is Str && triggers_on(capabilities, t.text()),
        1 <= trigger_context(capabilities, kind, trigger).at("triggerKind"@)->Int_0 <= 3,
{
    reveal_strlit("triggerKind");
    reveal_strlit("triggerCharacter");
    assert("triggerKind"@.len() != "triggerCharacter"@.len());
}

/// Whether an answer about an item may leave a member out.
pub open spec fn is_deferred(key: Seq<char>) -> bool {
    ||| key == "insertText"@
    ||| key == "insertTextFormat"@
    ||| key == "textEdit"@
    ||| key == "additionalTextEdits"@
    ||| key == "commitCharacters"@
    ||| key == "detail"@
    ||| key == "documentation"@
}

/// What an answer says of an item stands; what it leaves out stays as it was.
pub proof fn law_filling_keeps_both(resolved: JsonView, original: JsonView, key: Seq<char>)
    requires
        resolved is Object,
    ensures
        resolved.opt_at(key) is Some ==> filled_item(resolved, original).at(key) == resolved.at(
            key,
        ),
        resolved.opt_at(key) is None && original.opt_at(key) is Some && is_deferred(key)
            ==> filled_item(resolved, original).at(key) == original.at(key),
{
    let m0 = resolved.members();
    let m1 = filled_member(m0, original, "insertText"@);
    let m2 = filled_member(m1, original, "insertTextFormat"@);
    let m3 = filled_member(m2, original, "textEdit"@);
    let m4 = filled_member(m3, original, "additionalTextEdits"@);
    let m5 = filled_member(m4, original, "commitCharacters"@);
    let m6 = filled_member(m5, original, "detail"@);
    lemma_filled_member(m0, original, "insertText"@, key);
    lemma_filled_member(m1, original, "insertTextFormat"@, key);
    lemma_filled_member(m2, original, "textEdit"@, key);
    lemma_filled_member(m3, original, "additionalTextEdits"@, key);
    lemma_filled_member(m4, original, "commitCharacters"@, key);
    lemma_filled_member(m5, original, "detail"@, key);
    lemma_filled_member(m6, original, "documentation"@, key);
}

proof fn lemma_filled_member(
    m: Map<Seq<char>, JsonView>,
    original: JsonView,
    fill: Seq<char>,
    key: Seq<char>,
)
    ensures
        JsonView::Object(m).opt_at(key) is Some ==> JsonView::Object(
            filled_member(m, original, fill),
        ).at(key) == JsonView::Object(m).at(key),
        key == fill && JsonView::Object(m).opt_at(key) is None && original.opt_at(key) is Some
            ==> JsonView::Object(filled_member(m, original, fill)).at(key) == original.at(key),
        key != fill ==> JsonView::Object(filled_member(m, original, fill)).at(key)
            == JsonView::Object(m).at(key),
{
}

} // verus!
