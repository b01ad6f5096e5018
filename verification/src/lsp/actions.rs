//! Features whose answers are kept for a later request: code actions, code
//! lenses and semantic tokens.

use vstd::prelude::*;
use vstd::string::*;

use crate::json;
use crate::json::{object1, Fields, Json, JsonView};
use crate::lsp::call;
use crate::lsp::call::{
    document_call, document_fields, make_call, range_call, range_json, Call, CallView,
};
use crate::lsp::client::{items_of, ClientView, LspClient};
use crate::lsp::decode;
use crate::lsp::features::take_edit;
use crate::lsp::read;
use crate::lsp::tokens;
use crate::lsp::tokens::{apply_delta, decode_tokens, tokens_at, SemanticToken};
use crate::lsp::types;
use crate::lsp::types::{
    from_lsp_workspace_edit, strings_at, CodeAction, CodeActionView, CodeLensItem,
    CodeLensItemView, RangeItem, SemanticTokenItem, SemanticTokenItemView, WorkspaceEdit,
    WorkspaceEditView,
};
use crate::lsp::wire;

verus! {

// ---------------------------------------------------------------------------
// Code actions
// ---------------------------------------------------------------------------

/// The diagnostics that go with a code-action request, given what they were
/// read as: none where they are no list of diagnostics.
pub open spec fn context_diagnostics(
    is_list: bool,
    diagnostics: Result<JsonView, Seq<char>>,
) -> JsonView {
    if is_list {
        match diagnostics {
            Ok(list) => list,
            Err(_) => JsonView::Array(Seq::empty()),
        }
    } else {
        JsonView::Array(Seq::empty())
    }
}

/// The parameters of a code-action request.
pub open spec fn code_action_params(
    uri: Seq<char>,
    range: RangeItem,
    diagnostics: JsonView,
) -> JsonView {
    JsonView::Object(
        map![
            "textDocument"@ => call::uri_view(uri),
            "range"@ => call::range_view(range),
            "context"@ => JsonView::Object(map!["diagnostics"@ => diagnostics]),
        ],
    )
}

/// Whether an item of an answer is a code action rather than a bare command.
pub open spec fn is_action(item: JsonView) -> bool {
    item.get("edit"@) is Some || item.get("command"@) is Some
}

/// An item of an answer as the editor receives it. A bare command has no kind.
pub open spec fn shown_action(item: JsonView, index: int) -> CodeActionView {
    CodeActionView {
        title: item.at("title"@).text(),
        kind: if is_action(item) {
            item.at("kind"@).as_str()
        } else {
            None
        },
        index: index as usize,
    }
}

/// An action that has only a title.
pub open spec fn titled(title: Seq<char>) -> JsonView {
    JsonView::Object(map!["title"@ => JsonView::Str(title)])
}

/// What is kept of an item of an answer, given what it was read as.
pub open spec fn kept_action(item: JsonView, read: Result<JsonView, Seq<char>>) -> JsonView {
    if is_action(item) {
        match read {
            Ok(action) => action,
            Err(_) => titled(item.at("title"@).text()),
        }
    } else {
        titled(item.at("title"@).text())
    }
}

/// The items of an answer as the editor receives them.
pub open spec fn shown_actions(items: Seq<JsonView>) -> Seq<CodeActionView> {
    Seq::new(items.len(), |i: int| shown_action(items[i], i))
}

/// What is kept of an answer.
pub open spec fn kept_actions(items: Seq<JsonView>) -> Seq<JsonView> {
    Seq::new(items.len(), |i: int| kept_action(items[i], decode::read_code_action(items[i])))
}

/// A request to run a command.
pub open spec fn command_call(command: JsonView) -> CallView {
    call::call_of(
        "workspace/executeCommand"@,
        JsonView::Object(
            map![
                "command"@ => JsonView::Str(command.at("command"@).text()),
                "arguments"@ => command.at("arguments"@),
            ],
        ),
    )
}

fn make_command_call(command: &Json) -> (r: Call)
    ensures
        r.deep_view() == command_call(command@),
{
    let mut f = Fields::new();
    f.put_str("command", command.text_at("command").as_str());
    f.put("arguments", command.at("arguments"));
    make_call("workspace/executeCommand", f.done())
}

/// What executing an action does: an edit to apply, and a command to run.
pub struct ActionStep {
    pub edit: Option<WorkspaceEdit>,
    pub call: Option<Call>,
}

/// Whether executing an action does what the action says.
pub open spec fn is_action_step(
    edit: Option<WorkspaceEditView>,
    call: Option<CallView>,
    action: JsonView,
) -> bool {
    &&& match action.opt_at("edit"@) {
        Some(e) => edit matches Some(w) && types::is_workspace_edit_of(w, e),
        None => edit is None,
    }
    &&& call == match action.opt_at("command"@) {
        Some(c) => Some(command_call(c)),
        None => None,
    }
}

/// Whether an item of an answer is a code action.
fn acts(item: &Json) -> (r: bool)
    ensures
        r == is_action(item@),
{
    match item.get("edit") {
        Some(_) => true,
        None => match item.get("command") {
            Some(_) => true,
            None => false,
        },
    }
}

/// Keeps an item of an answer, given what it was read as.
pub fn keep_action(item: &Json, read: Result<Json, String>) -> (r: Json)
    ensures
        r@ == kept_action(item@, json::result_view(read)),
{
    if acts(item) {
        if let Ok(action) = read {
            return action;
        }
    }
    object1("title", Json::Str(item.text_at("title")))
}

impl LspClient {
    /// Asks for the code actions of a range.
    pub fn code_action(&self, uri: &str, range: RangeItem, diagnostics: &Json) -> (r: Call)
        ensures
            r.deep_view() == call::call_of(
                "textDocument/codeAction"@,
                code_action_params(
                    uri@,
                    range,
                    context_diagnostics(
                        diagnostics@ is Array,
                        decode::read_diagnostics(diagnostics@),
                    ),
                ),
            ),
    {
        let none: Vec<Json> = Vec::new();
        assert(json::items_view(none@) =~= Seq::<JsonView>::empty());
        let list = if diagnostics.is_array() {
            match decode::diagnostics(diagnostics) {
                Ok(d) => d,
                Err(_) => Json::array(none),
            }
        } else {
            Json::array(none)
        };
        let mut f = document_fields(uri);
        f.put("range", range_json(range));
        f.put("context", object1("diagnostics", list));
        make_call("textDocument/codeAction", f.done())
    }

    /// Takes the answer to a code-action request, and keeps its actions. An
    /// answer that is no list is an error, and nothing is kept of it.
    pub fn code_action_reply(&mut self, result: &Json) -> (r: Result<Vec<CodeAction>, String>)
        ensures
            match result@ {
                JsonView::Null => r matches Ok(v) && v@.len() == 0,
                JsonView::Array(items) => r matches Ok(v) && v.deep_view() == shown_actions(items),
                _ => r matches Err(e) && decode::lsp_value_list(result@) == Err::<
                    JsonView,
                    Seq<char>,
                >(e@),
            },
            final(self)@ == match result@ {
                JsonView::Array(items) => ClientView { actions: kept_actions(items), ..old(self)@ },
                _ => old(self)@,
            },
    {
        if result.is_null() {
            return Ok(Vec::new());
        }
        let list = match decode::value_list(result) {
            Ok(list) => list,
            Err(e) => {
                return Err(e);
            },
        };
        let items = items_of(&list);
        let ghost js = json::items_view(items@);
        let mut actions: Vec<CodeAction> = Vec::new();
        let mut cached: Vec<Json> = Vec::new();
        let mut i: usize = 0;
        while i < items.len()
            invariant
                i <= items@.len(),
                js == json::items_view(items@),
                actions@.len() == i,
                cached@.len() == i,
                forall|k: int|
                    0 <= k < i ==> (#[trigger] actions@[k]).deep_view() == shown_action(js[k], k),
                forall|k: int|
                    0 <= k < i ==> (#[trigger] cached@[k])@ == kept_action(
                        js[k],
                        decode::read_code_action(js[k]),
                    ),
            decreases items@.len() - i,
        {
            let item = &items[i];
            let kind = if acts(item) {
                item.string_at("kind")
            } else {
                None
            };
            actions.push(CodeAction { title: item.text_at("title"), kind, index: i });
            cached.push(keep_action(item, decode::code_action(item)));
            i = i + 1;
        }
        assert(actions.deep_view() =~= shown_actions(js));
        assert(json::items_view(cached@) =~= kept_actions(js));
        self.cached_actions = cached;
        Ok(actions)
    }

    /// Executes a kept action.
    pub fn execute_code_action(&self, index: usize) -> (r: Result<ActionStep, String>)
        ensures
            match r {
                Ok(step) => index < self@.actions.len() && is_action_step(
                    step.edit.deep_view(),
                    step.call.deep_view(),
                    self@.actions[index as int],
                ),
                Err(e) => index >= self@.actions.len() && e@ == "invalid action index"@,
            },
    {
        if index >= self.cached_actions.len() {
            return Err("invalid action index".to_string());
        }
        let action = &self.cached_actions[index];
        let edit = match action.opt_at("edit") {
            Some(e) => Some(from_lsp_workspace_edit(e)),
            None => None,
        };
        let call = match action.opt_at("command") {
            Some(c) => Some(make_command_call(c)),
            None => None,
        };
        Ok(ActionStep { edit, call })
    }
}

// ---------------------------------------------------------------------------
// Code lenses
// ---------------------------------------------------------------------------

/// What to do to execute a lens.
pub enum LensStep {
    /// Ask the server for the lens's command first.
    Resolve(Call),
    /// Run the lens's command.
    Execute(Call),
    /// The lens has no command.
    Nothing,
}

/// The model of [`LensStep`].
#[verifier::ext_equal]
pub enum LensStepView {
    Resolve(CallView),
    Execute(CallView),
    Nothing,
}

impl DeepView for LensStep {
    type V = LensStepView;

    open spec fn deep_view(&self) -> LensStepView {
        match *self {
            LensStep::Resolve(c) => LensStepView::Resolve(c.deep_view()),
            LensStep::Execute(c) => LensStepView::Execute(c.deep_view()),
            LensStep::Nothing => LensStepView::Nothing,
        }
    }
}

/// How a lens that the server has filled in is executed.
pub open spec fn lens_command(lens: JsonView) -> LensStepView {
    match lens.opt_at("command"@) {
        Some(c) => LensStepView::Execute(command_call(c)),
        None => LensStepView::Nothing,
    }
}

/// How a kept lens is executed.
pub open spec fn lens_step(lens: JsonView) -> LensStepView {
    match lens.opt_at("command"@) {
        Some(c) => LensStepView::Execute(command_call(c)),
        None => LensStepView::Resolve(call::call_of("codeLens/resolve"@, lens)),
    }
}

/// How a lens is executed, given what the server's answer was read as.
pub open spec fn resolved_lens(lens: Result<JsonView, Seq<char>>) -> Result<
    LensStepView,
    Seq<char>,
> {
    match lens {
        Ok(l) => Ok(lens_command(l)),
        Err(e) => Err(e),
    }
}

/// Whether running a lens's command comes to an edit, given its outcome.
pub open spec fn is_lens_edit(
    edit: Option<WorkspaceEditView>,
    result: Result<JsonView, Seq<char>>,
) -> bool {
    match result {
        Ok(j) => match decode::read_workspace_edit(j) {
            Ok(e) => edit matches Some(w) && types::is_workspace_edit_of(w, e),
            Err(_) => edit is None,
        },
        Err(_) => edit is None,
    }
}

/// Takes a lens that the server has filled in.
pub fn take_lens(lens: Result<Json, String>) -> (r: Result<LensStep, String>)
    ensures
        wire::outcome(r) == resolved_lens(json::result_view(lens)),
{
    match lens {
        Ok(l) => Ok(
            match l.opt_at("command") {
                Some(c) => LensStep::Execute(make_command_call(c)),
                None => LensStep::Nothing,
            },
        ),
        Err(e) => Err(e),
    }
}

impl LspClient {
    /// Asks for the lenses of a document.
    pub fn code_lens(&self, uri: &str) -> (r: Call)
        ensures
            r.deep_view() == call::call_of("textDocument/codeLens"@, call::document_params(uri@)),
    {
        document_call("textDocument/codeLens", uri)
    }

    /// Keeps lenses, and gives them as the editor receives them.
    pub fn store_lenses(&mut self, lenses: Vec<Json>) -> (r: Vec<CodeLensItem>)
        ensures
            r.deep_view() == read::lenses_of(json::items_view(lenses@)),
            final(self)@ == (ClientView {
                code_lenses: json::items_view(lenses@),
                ..old(self)@
            }),
    {
        let items = read::code_lens_items(&lenses);
        self.cached_code_lenses = lenses;
        items
    }

    /// Takes the answer to a request for lenses, and keeps them.
    pub fn code_lens_reply(&mut self, result: &Json) -> (r: Result<Vec<CodeLensItem>, String>)
        ensures
            wire::outcome(r) == if result@ is Null {
                Ok(Seq::empty())
            } else {
                match decode::lsp_code_lenses(result@) {
                    Ok(list) => Ok(read::lenses_of(list.items())),
                    Err(e) => Err(e),
                }
            },
            final(self)@ == if result@ is Null {
                old(self)@
            } else {
                match decode::lsp_code_lenses(result@) {
                    Ok(list) => ClientView { code_lenses: list.items(), ..old(self)@ },
                    Err(_) => old(self)@,
                }
            },
    {
        if result.is_null() {
            let none: Vec<CodeLensItem> = Vec::new();
            assert(none.deep_view() =~= Seq::<CodeLensItemView>::empty());
            return Ok(none);
        }
        match decode::code_lenses(result) {
            Ok(list) => Ok(self.store_lenses(items_of(&list))),
            Err(e) => Err(e),
        }
    }

    /// Executes a kept lens.
    pub fn execute_code_lens(&self, index: usize) -> (r: Result<LensStep, String>)
        ensures
            match r {
                Ok(step) => index < self@.code_lenses.len() && step.deep_view() == lens_step(
                    self@.code_lenses[index as int],
                ),
                Err(e) => index >= self@.code_lenses.len() && e@ == "invalid code lens index"@,
            },
    {
        if index >= self.cached_code_lenses.len() {
            return Err("invalid code lens index".to_string());
        }
        let lens = &self.cached_code_lenses[index];
        Ok(
            match lens.opt_at("command") {
                Some(c) => LensStep::Execute(make_command_call(c)),
                None => LensStep::Resolve(make_call("codeLens/resolve", lens.copy())),
            },
        )
    }

    /// Takes a lens that the server was asked to fill in.
    pub fn resolve_code_lens_reply(&self, result: &Json) -> (r: Result<LensStep, String>)
        ensures
            wire::outcome(r) == resolved_lens(decode::lsp_code_lens(result@)),
    {
        take_lens(decode::code_lens(result))
    }

    /// Takes the outcome of running a lens's command, which may be an edit.
    pub fn execute_code_lens_reply(&self, result: Result<Json, String>) -> (r: Option<
        WorkspaceEdit,
    >)
        ensures
            is_lens_edit(r.deep_view(), json::result_view(result)),
    {
        match result {
            Ok(j) => match take_edit(decode::workspace_edit(&j)) {
                Ok(w) => Some(w),
                Err(_) => None,
            },
            Err(_) => None,
        }
    }
}

// ---------------------------------------------------------------------------
// Semantic tokens
// ---------------------------------------------------------------------------

/// The names of the token types that a server uses.
pub open spec fn legend_types(capabilities: Option<JsonView>) -> Seq<Seq<char>> {
    match capabilities {
        Some(c) => types::strings_of(
            c.at("semanticTokensProvider"@).at("legend"@).at("tokenTypes"@).items(),
        ),
        None => Seq::empty(),
    }
}

/// The names of the token modifiers that a server uses.
pub open spec fn legend_modifiers(capabilities: Option<JsonView>) -> Seq<Seq<char>> {
    match capabilities {
        Some(c) => types::strings_of(
            c.at("semanticTokensProvider"@).at("legend"@).at("tokenModifiers"@).items(),
        ),
        None => Seq::empty(),
    }
}

/// Tokens as the editor receives them, where they can be decoded.
pub open spec fn shown_tokens(c: ClientView, data: Seq<SemanticToken>) -> Option<
    Seq<SemanticTokenItemView>,
> {
    tokens::decoded_if(data, legend_types(c.capabilities), legend_modifiers(c.capabilities))
}

/// A client that knows the name of a document's tokens, where they have one.
pub open spec fn with_result_id(c: ClientView, uri: Seq<char>, named: JsonView) -> ClientView {
    match named.at("resultId"@).as_str() {
        Some(id) => ClientView { result_ids: c.result_ids.insert(uri, id), ..c },
        None => c,
    }
}

/// A client that keeps a document's tokens.
pub open spec fn with_tokens(
    c: ClientView,
    uri: Seq<char>,
    data: Seq<SemanticToken>,
) -> ClientView {
    ClientView { token_data: c.token_data.insert(uri, data), ..c }
}

/// A client that keeps nothing of a document's tokens.
pub open spec fn without_tokens(c: ClientView, uri: Seq<char>) -> ClientView {
    ClientView {
        result_ids: c.result_ids.remove(uri),
        token_data: c.token_data.remove(uri),
        ..c
    }
}

/// The tokens of a `SemanticTokens`.
pub open spec fn full_data(full: JsonView) -> Seq<SemanticToken> {
    tokens::tokens_of(full.at("data"@).items())
}

/// A client after a document's tokens have come whole.
pub open spec fn after_full(c: ClientView, uri: Seq<char>, full: JsonView) -> ClientView {
    with_tokens(with_result_id(c, uri, full), uri, full_data(full))
}

/// The tokens that are kept of a document.
pub open spec fn kept_tokens(c: ClientView, uri: Seq<char>) -> Seq<SemanticToken> {
    if c.token_data.contains_key(uri) {
        c.token_data[uri]
    } else {
        Seq::empty()
    }
}

/// A client after edits to a document's tokens have come. Edits that do not fit
/// leave the tokens alone.
pub open spec fn after_delta(c: ClientView, uri: Seq<char>, delta: JsonView) -> ClientView {
    let named = with_result_id(c, uri, delta);
    match tokens::delta_of(kept_tokens(c, uri), delta) {
        Some(data) => with_tokens(named, uri, data),
        None => named,
    }
}

/// A request for all tokens of a document.
pub open spec fn full_call(uri: Seq<char>) -> CallView {
    call::call_of("textDocument/semanticTokens/full"@, call::document_params(uri))
}

/// A request for what changed since the tokens of a given name.
pub open spec fn delta_call(uri: Seq<char>, id: Seq<char>) -> CallView {
    call::call_of(
        "textDocument/semanticTokens/full/delta"@,
        JsonView::Object(
            map!["textDocument"@ => call::uri_view(uri), "previousResultId"@ => JsonView::Str(id)],
        ),
    )
}

/// What the tokens of a document come to.
pub enum TokenStep {
    /// The tokens as the editor receives them.
    Tokens(Vec<SemanticTokenItem>),
    /// The server must be asked for all tokens.
    AskFull(Call),
    /// The tokens, or the edits to them, make no sense.
    Unusable,
}

/// The model of [`TokenStep`].
#[verifier::ext_equal]
pub enum TokenStepView {
    Tokens(Seq<SemanticTokenItemView>),
    AskFull(CallView),
    Unusable,
}

impl DeepView for TokenStep {
    type V = TokenStepView;

    open spec fn deep_view(&self) -> TokenStepView {
        match *self {
            TokenStep::Tokens(v) => TokenStepView::Tokens(v.deep_view()),
            TokenStep::AskFull(c) => TokenStepView::AskFull(c.deep_view()),
            TokenStep::Unusable => TokenStepView::Unusable,
        }
    }
}

/// Tokens that were decoded, or the word that they could not be.
pub open spec fn token_step(shown: Option<Seq<SemanticTokenItemView>>) -> TokenStepView {
    match shown {
        Some(v) => TokenStepView::Tokens(v),
        None => TokenStepView::Unusable,
    }
}

/// What the edits of a delta come to.
pub open spec fn delta_step(c: ClientView, uri: Seq<char>, delta: JsonView) -> TokenStepView {
    match tokens::delta_of(kept_tokens(c, uri), delta) {
        Some(data) => token_step(shown_tokens(c, data)),
        None => TokenStepView::Unusable,
    }
}

/// What an answer to a delta request comes to, given what it was read as. An
/// answer that is neither tokens nor edits, or an error, asks for all tokens.
pub open spec fn delta_outcome(
    c: ClientView,
    uri: Seq<char>,
    failed: bool,
    empty: bool,
    full: Result<JsonView, Seq<char>>,
    delta: Result<JsonView, Seq<char>>,
) -> TokenStepView {
    if failed {
        TokenStepView::AskFull(full_call(uri))
    } else if empty {
        TokenStepView::Tokens(Seq::empty())
    } else {
        match full {
            Ok(f) => token_step(shown_tokens(c, full_data(f))),
            Err(_) => match delta {
                Ok(d) => delta_step(c, uri, d),
                Err(_) => TokenStepView::AskFull(full_call(uri)),
            },
        }
    }
}

/// A client after an answer to a delta request, given what it was read as.
pub open spec fn delta_state(
    c: ClientView,
    uri: Seq<char>,
    failed: bool,
    empty: bool,
    full: Result<JsonView, Seq<char>>,
    delta: Result<JsonView, Seq<char>>,
) -> ClientView {
    if failed {
        without_tokens(c, uri)
    } else if empty {
        c
    } else {
        match full {
            Ok(f) => after_full(c, uri, f),
            Err(_) => match delta {
                Ok(d) => after_delta(c, uri, d),
                Err(_) => without_tokens(c, uri),
            },
        }
    }
}

/// The value of a result, or null.
pub open spec fn value_or_null(result: Result<JsonView, Seq<char>>) -> JsonView {
    match result {
        Ok(j) => j,
        Err(_) => JsonView::Null,
    }
}

impl LspClient {
    /// The names of the token types and modifiers that the server uses.
    pub fn get_semtok_legend(&self) -> (r: (Vec<String>, Vec<String>))
        ensures
            r.0.deep_view() == legend_types(self@.capabilities),
            r.1.deep_view() == legend_modifiers(self@.capabilities),
    {
        match &self.capabilities {
            Some(c) => {
                let legend = c.at("semanticTokensProvider").at("legend");
                (strings_at(&legend, "tokenTypes"), strings_at(&legend, "tokenModifiers"))
            },
            None => {
                let a: Vec<String> = Vec::new();
                let b: Vec<String> = Vec::new();
                assert(a.deep_view() =~= Seq::<Seq<char>>::empty());
                assert(b.deep_view() =~= Seq::<Seq<char>>::empty());
                (a, b)
            },
        }
    }

    fn show_tokens(&self, data: &Vec<SemanticToken>) -> (r: TokenStep)
        ensures
            r.deep_view() == token_step(shown_tokens(self@, data@)),
    {
        let (type_names, mod_names) = self.get_semtok_legend();
        match decode_tokens(data, &type_names, &mod_names) {
            Some(v) => TokenStep::Tokens(v),
            None => TokenStep::Unusable,
        }
    }

    fn name_tokens(&mut self, uri: &str, named: &Json)
        ensures
            final(self)@ == with_result_id(old(self)@, uri@, named@),
    {
        if let Some(id) = named.string_at("resultId") {
            self.semtok_prev_result_id.insert(uri, id);
        }
    }

    fn keep_tokens(&mut self, uri: &str, data: Vec<SemanticToken>)
        ensures
            final(self)@ == with_tokens(old(self)@, uri@, data@),
    {
        assert(data.deep_view() =~= data@);
        self.semtok_prev_data.insert(uri, data);
    }

    fn forget_tokens(&mut self, uri: &str)
        ensures
            final(self)@ == without_tokens(old(self)@, uri@),
    {
        self.semtok_prev_result_id.remove(uri);
        self.semtok_prev_data.remove(uri);
    }

    /// Asks for all tokens of a document.
    pub fn semantic_tokens_full(&self, uri: &str) -> (r: Call)
        ensures
            r.deep_view() == full_call(uri@),
    {
        document_call("textDocument/semanticTokens/full", uri)
    }

    /// Keeps the tokens of a document, and gives them as the editor receives
    /// them.
    pub fn store_tokens(&mut self, uri: &str, full: &Json) -> (r: TokenStep)
        ensures
            r.deep_view() == token_step(shown_tokens(old(self)@, full_data(full@))),
            final(self)@ == after_full(old(self)@, uri@, full@),
    {
        let data = tokens_at(full, "data");
        let shown = self.show_tokens(&data);
        self.name_tokens(uri, full);
        self.keep_tokens(uri, data);
        shown
    }

    /// Takes the answer to a request for all tokens.
    pub fn semantic_tokens_full_reply(&mut self, uri: &str, result: &Json) -> (r: Result<
        TokenStep,
        String,
    >)
        ensures
            wire::outcome(r) == if result@ is Null {
                Ok(TokenStepView::Tokens(Seq::empty()))
            } else {
                match decode::lsp_semantic_tokens(result@) {
                    Ok(full) => Ok(token_step(shown_tokens(old(self)@, full_data(full)))),
                    Err(e) => Err(e),
                }
            },
            final(self)@ == if result@ is Null {
                old(self)@
            } else {
                match decode::lsp_semantic_tokens(result@) {
                    Ok(full) => after_full(old(self)@, uri@, full),
                    Err(_) => old(self)@,
                }
            },
    {
        if result.is_null() {
            return Ok(no_tokens());
        }
        match decode::semantic_tokens(result) {
            Ok(full) => Ok(self.store_tokens(uri, &full)),
            Err(e) => Err(e),
        }
    }

    /// Asks for what changed in the tokens of a document, or for all of them
    /// where none have a name yet.
    pub fn semantic_tokens_full_delta(&self, uri: &str) -> (r: Call)
        ensures
            r.deep_view() == if self@.result_ids.contains_key(uri@) {
                delta_call(uri@, self@.result_ids[uri@])
            } else {
                full_call(uri@)
            },
    {
        match self.semtok_prev_result_id.get(uri) {
            Some(id) => {
                let mut f = document_fields(uri);
                f.put_str("previousResultId", id.as_str());
                make_call("textDocument/semanticTokens/full/delta", f.done())
            },
            None => self.semantic_tokens_full(uri),
        }
    }

    /// Whether the tokens of a document have a name, so that what changed in
    /// them can be asked for.
    pub fn has_named_tokens(&self, uri: &str) -> (r: bool)
        ensures
            r == self@.result_ids.contains_key(uri@),
    {
        self.semtok_prev_result_id.contains(uri)
    }

    /// Applies the edits of a delta to the tokens of a document.
    pub fn apply_token_delta(&mut self, uri: &str, delta: &Json) -> (r: TokenStep)
        ensures
            r.deep_view() == delta_step(old(self)@, uri@, delta@),
            final(self)@ == after_delta(old(self)@, uri@, delta@),
    {
        let kept: Vec<SemanticToken> = match self.semtok_prev_data.get(uri) {
            Some(data) => {
                let copy = data.clone();
                assert(copy@ =~= data@);
                assert(data.deep_view() =~= data@);
                copy
            },
            None => Vec::new(),
        };
        assert(kept@ =~= kept_tokens(self@, uri@));
        let edited = apply_delta(&kept, delta);
        let step = match &edited {
            Some(data) => self.show_tokens(data),
            None => TokenStep::Unusable,
        };
        self.name_tokens(uri, delta);
        if let Some(data) = edited {
            self.keep_tokens(uri, data);
        }
        step
    }

    /// Takes the outcome of a request for what changed in the tokens of a
    /// document.
    pub fn semantic_tokens_delta_reply(&mut self, uri: &str, result: Result<Json, String>) -> (r:
        TokenStep)
        ensures
            r.deep_view() == delta_outcome(
                old(self)@,
                uri@,
                result is Err,
                value_or_null(json::result_view(result)) is Null,
                decode::lsp_semantic_tokens(value_or_null(json::result_view(result))),
                decode::lsp_semantic_tokens_delta(value_or_null(json::result_view(result))),
            ),
            final(self)@ == delta_state(
                old(self)@,
                uri@,
                result is Err,
                value_or_null(json::result_view(result)) is Null,
                decode::lsp_semantic_tokens(value_or_null(json::result_view(result))),
                decode::lsp_semantic_tokens_delta(value_or_null(json::result_view(result))),
            ),
    {
        let answer = match result {
            Ok(j) => j,
            Err(_) => {
                self.forget_tokens(uri);
                return TokenStep::AskFull(self.semantic_tokens_full(uri));
            },
        };
        if answer.is_null() {
            return no_tokens();
        }
        if let Ok(full) = decode::semantic_tokens(&answer) {
            return self.store_tokens(uri, &full);
        }
        if let Ok(delta) = decode::semantic_tokens_delta(&answer) {
            return self.apply_token_delta(uri, &delta);
        }
        self.forget_tokens(uri);
        TokenStep::AskFull(self.semantic_tokens_full(uri))
    }

    /// Asks for the tokens of a range.
    pub fn semantic_tokens_range(&self, uri: &str, range: RangeItem) -> (r: Call)
        ensures
            r.deep_view() == call::call_of(
                "textDocument/semanticTokens/range"@,
                call::range_params(uri@, range),
            ),
    {
        range_call("textDocument/semanticTokens/range", uri, range)
    }

    /// Takes the answer to a request for the tokens of a range. Nothing of it is
    /// kept.
    pub fn semantic_tokens_range_reply(&self, result: &Json) -> (r: Result<TokenStep, String>)
        ensures
            wire::outcome(r) == if result@ is Null {
                Ok(TokenStepView::Tokens(Seq::empty()))
            } else {
                match decode::lsp_semantic_tokens(result@) {
                    Ok(full) => Ok(token_step(shown_tokens(self@, full_data(full)))),
                    Err(e) => Err(e),
                }
            },
    {
        if result.is_null() {
            return Ok(no_tokens());
        }
        match decode::semantic_tokens(result) {
            Ok(full) => {
                let data = tokens_at(&full, "data");
                Ok(self.show_tokens(&data))
            },
            Err(e) => Err(e),
        }
    }
}

fn no_tokens() -> (r: TokenStep)
    ensures
        r.deep_view() == TokenStepView::Tokens(Seq::empty()),
{
    let none: Vec<SemanticTokenItem> = Vec::new();
    assert(none.deep_view() =~= Seq::<SemanticTokenItemView>::empty());
    TokenStep::Tokens(none)
}

// ---------------------------------------------------------------------------
// Laws
// ---------------------------------------------------------------------------

/// Every action that the editor receives can be executed by its index, and no
/// other can.
pub proof fn law_actions_are_kept_by_index(items: Seq<JsonView>, index: usize)
    requires
        items.len() <= usize::MAX,
    ensures
        index < kept_actions(items).len() <==> exists|i: int|
            0 <= i < shown_actions(items).len() && (#[trigger] shown_actions(items)[i]).index
                == index,
{
    if index < items.len() {
        assert(shown_actions(items)[index as int].index == index);
    }
}

/// A failed delta request forgets what was kept of the document, so that the
/// next request asks for all tokens.
pub proof fn law_failed_delta_starts_over(
    c: ClientView,
    uri: Seq<char>,
    empty: bool,
    full: Result<JsonView, Seq<char>>,
    delta: Result<JsonView, Seq<char>>,
)
    ensures
        delta_outcome(c, uri, true, empty, full, delta) == TokenStepView::AskFull(full_call(uri)),
        !delta_state(c, uri, true, empty, full, delta).result_ids.contains_key(uri),
        !delta_state(c, uri, true, empty, full, delta).token_data.contains_key(uri),
{
}

/// A delta without edits gives the tokens that were kept.
pub proof fn law_empty_delta_keeps_tokens(c: ClientView, uri: Seq<char>, delta: JsonView)
    requires
        delta.at("edits"@).items().len() == 0,
    ensures
        tokens::delta_of(kept_tokens(c, uri), delta) == Some(kept_tokens(c, uri)),
        kept_tokens(after_delta(c, uri, delta), uri) == kept_tokens(c, uri),
{
    assert(tokens::token_edits_of(delta.at("edits"@).items()) =~= Seq::empty());
}

/// What is kept of one document does not depend on the answers about another.
pub proof fn law_documents_are_kept_apart(
    c: ClientView,
    uri: Seq<char>,
    other: Seq<char>,
    full: JsonView,
    delta: JsonView,
)
    requires
        uri != other,
    ensures
        kept_tokens(after_full(c, uri, full), other) == kept_tokens(c, other),
        kept_tokens(after_delta(c, uri, delta), other) == kept_tokens(c, other),
        kept_tokens(without_tokens(c, uri), other) == kept_tokens(c, other),
{
}

} // verus!
