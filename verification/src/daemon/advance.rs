//! How a feature goes on when the server has answered.

use vstd::prelude::*;
use vstd::string::*;

use crate::daemon::answer;
use crate::daemon::answer::{locations_answer, take_answer, written_answer};
use crate::daemon::feature;
use crate::daemon::feature::{
    ask, edit_event, edit_ref, fail, go_on, Progress, ProgressView, Stage, StageView,
};
use crate::daemon::request::Request;
use crate::daemon::session;
use crate::daemon::session::{completion_event, error_event, value_event};
use crate::json;
use crate::json::{Json, JsonView};
use crate::lsp::actions;
use crate::lsp::actions::{TokenStep, TokenStepView};
use crate::lsp::client;
use crate::lsp::client::{require_result, ClientView, LspClient};
use crate::lsp::completion;
use crate::lsp::decode;
use crate::lsp::features;
use crate::lsp::features::DefinitionStep;
use crate::lsp::read;
use crate::lsp::types::{
    CompletionItem, Location, LocationView, SemanticTokenItem, WorkspaceEdit, WorkspaceEditView,
};
use crate::lsp::wire;
use crate::lsp::wire::{list_json, Wire};

verus! {

// ---------------------------------------------------------------------------
// Completion
// ---------------------------------------------------------------------------

/// What the outcome of a completion comes to.
pub open spec fn completion_progress(
    req: Request,
    generation: u64,
    max_items: usize,
    outcome: Result<Option<JsonView>, Seq<char>>,
) -> ProgressView {
    match outcome {
        Err(e) => feature::failing(req, e),
        Ok(None) => ProgressView::Silent,
        Ok(Some(j)) => match completion::completion_outcome(
            generation,
            completion::completion_items_of(j),
            max_items,
        ) {
            Ok(shown) => ProgressView::Reply(
                session::completion_event_view(
                    req.spec_id(),
                    shown.0,
                    wire::wire_list::<CompletionItem>(shown.1),
                ),
            ),
            Err(e) => feature::failing(req, e),
        },
    }
}

/// A client after the outcome of a completion.
pub open spec fn after_completion(
    c: ClientView,
    generation: u64,
    max_items: usize,
    outcome: Result<Option<JsonView>, Seq<char>>,
) -> ClientView {
    match outcome {
        Ok(Some(j)) => match completion::completion_items_of(j) {
            Ok(items) => completion::stored(
                c,
                generation,
                completion::kept_items(items, max_items),
            ),
            Err(_) => c,
        },
        _ => c,
    }
}

fn advance_completion(
    client: &mut LspClient,
    req: &Request,
    generation: u64,
    max_items: usize,
    outcome: Result<Option<Json>, String>,
) -> (r: Progress)
    ensures
        r.deep_view() == completion_progress(
            *req,
            generation,
            max_items,
            client::outcome_view(outcome),
        ),
        final(client)@ == after_completion(
            old(client)@,
            generation,
            max_items,
            client::outcome_view(outcome),
        ),
{
    match outcome {
        Err(e) => fail(req, e.as_str()),
        Ok(result) => match client.completion_reply(generation, max_items, result) {
            Ok(Some((g, items))) => Progress::Reply(
                completion_event(req.id(), g, list_json(&items)),
            ),
            Ok(None) => Progress::Silent,
            Err(e) => fail(req, e.as_str()),
        },
    }
}

// ---------------------------------------------------------------------------
// Definition
// ---------------------------------------------------------------------------

/// How a definition goes on after the document's links were looked at. Where
/// they lead nowhere, the workspace may know the symbol under the cursor.
pub open spec fn after_links(
    req: Request,
    symbol: Seq<char>,
    found: Seq<LocationView>,
) -> ProgressView {
    if found.len() == 0 && symbol.len() > 0 {
        feature::asking(StageView::Symbols, feature::symbol_call(symbol))
    } else {
        ProgressView::Reply(answer::locations_event("definition"@, req.spec_id(), found))
    }
}

/// The declarations of a symbol that the workspace knows, or none where it
/// cannot say.
pub open spec fn symbol_definition(
    symbol: Seq<char>,
    result: Result<JsonView, Seq<char>>,
) -> Seq<LocationView> {
    match result {
        Ok(j) => match features::list_or_empty(
            j,
            features::symbol_location_outcome(decode::read_symbol_informations(j), symbol),
        ) {
            Ok(list) => list,
            Err(_) => Seq::empty(),
        },
        Err(_) => Seq::empty(),
    }
}

/// How a definition goes on after its first answer.
pub open spec fn definition_progress(
    req: Request,
    uri: Seq<char>,
    result: Result<JsonView, Seq<char>>,
) -> ProgressView {
    match result {
        Err(e) => feature::failing(req, e),
        Ok(j) => if read::locations_of(j).len() > 0 {
            ProgressView::Reply(
                answer::locations_event("definition"@, req.spec_id(), read::locations_of(j)),
            )
        } else {
            feature::asking(
                StageView::Links,
                crate::lsp::call::call_of(
                    "textDocument/documentLink"@,
                    crate::lsp::call::document_params(uri),
                ),
            )
        },
    }
}

fn advance_definition(client: &LspClient, req: &Request, uri: &str, result: Result<Json, String>)
    -> (r: Progress)
    ensures
        r.deep_view() == definition_progress(*req, uri@, json::result_view(result)),
{
    match result {
        Err(e) => fail(req, e.as_str()),
        Ok(j) => match client.definition_reply(uri, &j) {
            DefinitionStep::Found(list) => Progress::Reply(
                locations_answer("definition", req.id(), &list),
            ),
            DefinitionStep::LookForLinks(call) => ask(Stage::Links, call),
        },
    }
}

fn advance_links(
    client: &LspClient,
    req: &Request,
    line: u32,
    character: u32,
    symbol: &str,
    result: Result<Json, String>,
) -> (r: Progress)
    ensures
        r.deep_view() == after_links(
            *req,
            symbol@,
            features::linked_definition(json::result_view(result), line, character),
        ),
{
    let found = client.definition_link_reply(result, line, character);
    if found.len() == 0 && symbol.unicode_len() > 0 {
        ask(Stage::Symbols, client.workspace_symbol(symbol))
    } else {
        Progress::Reply(locations_answer("definition", req.id(), &found))
    }
}

fn advance_symbols(client: &LspClient, req: &Request, symbol: &str, result: Result<Json, String>)
    -> (r: Progress)
    ensures
        r.deep_view() == ProgressView::Reply(
            answer::locations_event(
                "definition"@,
                req.spec_id(),
                symbol_definition(symbol@, json::result_view(result)),
            ),
        ),
{
    let none: Vec<Location> = Vec::new();
    assert(none.deep_view() =~= Seq::<LocationView>::empty());
    let found = match result {
        Ok(j) => match client.workspace_symbol_locations(symbol, &j) {
            Ok(list) => list,
            Err(_) => none,
        },
        Err(_) => none,
    };
    Progress::Reply(locations_answer("definition", req.id(), &found))
}

// ---------------------------------------------------------------------------
// Tokens
// ---------------------------------------------------------------------------

/// How a request for tokens goes on.
pub open spec fn token_progress(
    req: Request,
    step: Result<TokenStepView, Seq<char>>,
) -> ProgressView {
    match step {
        Ok(TokenStepView::Tokens(v)) => ProgressView::Reply(
            session::value_event_view(
                "semanticTokens"@,
                req.spec_id(),
                "tokens"@,
                wire::wire_list::<SemanticTokenItem>(v),
            ),
        ),
        Ok(TokenStepView::AskFull(call)) => feature::asking(StageView::FullTokens, call),
        Ok(TokenStepView::Unusable) => ProgressView::Unusable,
        Err(e) => feature::failing(req, e),
    }
}

/// What all tokens of a document, or of a range, come to.
pub open spec fn full_tokens(c: ClientView, result: Result<JsonView, Seq<char>>) -> Result<
    TokenStepView,
    Seq<char>,
> {
    match result {
        Err(e) => Err(e),
        Ok(j) => if j is Null {
            Ok(TokenStepView::Tokens(Seq::empty()))
        } else {
            match decode::lsp_semantic_tokens(j) {
                Ok(full) => Ok(
                    actions::token_step(actions::shown_tokens(c, actions::full_data(full))),
                ),
                Err(e) => Err(e),
            }
        },
    }
}

/// A client after all tokens of a document have come.
pub open spec fn after_full_tokens(
    c: ClientView,
    uri: Seq<char>,
    result: Result<JsonView, Seq<char>>,
) -> ClientView {
    match result {
        Err(_) => c,
        Ok(j) => if j is Null {
            c
        } else {
            match decode::lsp_semantic_tokens(j) {
                Ok(full) => actions::after_full(c, uri, full),
                Err(_) => c,
            }
        },
    }
}

/// What the outcome of a request for changed tokens comes to.
pub open spec fn delta_tokens(
    c: ClientView,
    uri: Seq<char>,
    result: Result<JsonView, Seq<char>>,
) -> TokenStepView {
    let j = actions::value_or_null(result);
    actions::delta_outcome(
        c,
        uri,
        result is Err,
        j is Null,
        decode::lsp_semantic_tokens(j),
        decode::lsp_semantic_tokens_delta(j),
    )
}

/// A client after the outcome of a request for changed tokens.
pub open spec fn after_delta_tokens(
    c: ClientView,
    uri: Seq<char>,
    result: Result<JsonView, Seq<char>>,
) -> ClientView {
    let j = actions::value_or_null(result);
    actions::delta_state(
        c,
        uri,
        result is Err,
        j is Null,
        decode::lsp_semantic_tokens(j),
        decode::lsp_semantic_tokens_delta(j),
    )
}

fn go_on_with_tokens(req: &Request, step: Result<TokenStep, String>) -> (r: Progress)
    ensures
        r.deep_view() == token_progress(*req, wire::outcome(step)),
{
    match step {
        Ok(TokenStep::Tokens(v)) => Progress::Reply(
            value_event("semanticTokens", req.id(), "tokens", list_json(&v)),
        ),
        Ok(TokenStep::AskFull(call)) => ask(Stage::FullTokens, call),
        Ok(TokenStep::Unusable) => Progress::Unusable,
        Err(e) => fail(req, e.as_str()),
    }
}

fn advance_full_tokens(
    client: &mut LspClient,
    req: &Request,
    uri: &str,
    result: Result<Json, String>,
) -> (r: Progress)
    ensures
        r.deep_view() == token_progress(
            *req,
            full_tokens(old(client)@, json::result_view(result)),
        ),
        final(client)@ == after_full_tokens(old(client)@, uri@, json::result_view(result)),
{
    match result {
        Err(e) => fail(req, e.as_str()),
        Ok(j) => {
            let step = client.semantic_tokens_full_reply(uri, &j);
            go_on_with_tokens(req, step)
        },
    }
}

fn advance_range_tokens(client: &LspClient, req: &Request, result: Result<Json, String>) -> (r:
    Progress)
    ensures
        r.deep_view() == token_progress(*req, full_tokens(client@, json::result_view(result))),
{
    match result {
        Err(e) => fail(req, e.as_str()),
        Ok(j) => go_on_with_tokens(req, client.semantic_tokens_range_reply(&j)),
    }
}

fn advance_delta_tokens(
    client: &mut LspClient,
    req: &Request,
    uri: &str,
    result: Result<Json, String>,
) -> (r: Progress)
    ensures
        r.deep_view() == token_progress(
            *req,
            Ok(delta_tokens(old(client)@, uri@, json::result_view(result))),
        ),
        final(client)@ == after_delta_tokens(old(client)@, uri@, json::result_view(result)),
{
    let step = client.semantic_tokens_delta_reply(uri, result);
    go_on_with_tokens(req, Ok(step))
}

// ---------------------------------------------------------------------------
// Edits
// ---------------------------------------------------------------------------

/// Whether a rename ends as it should.
pub open spec fn is_rename_end(
    p: ProgressView,
    req: Request,
    result: Result<JsonView, Seq<char>>,
) -> bool {
    match result {
        Err(e) => p == feature::failing(req, e),
        Ok(j) => exists|edit: Result<Option<WorkspaceEditView>, Seq<char>>|
            #[trigger] features::is_rename_result(edit, j) && p == ProgressView::Reply(
                answer::answer(
                    "rename"@,
                    req.spec_id(),
                    "edit"@,
                    answer::opt_written::<WorkspaceEdit>(edit),
                ),
            ),
    }
}

/// Whether the execution of a lens ends as it should.
pub open spec fn is_lens_end(
    p: ProgressView,
    req: Request,
    result: Result<JsonView, Seq<char>>,
) -> bool {
    exists|edit: Option<WorkspaceEditView>|
        #[trigger] actions::is_lens_edit(edit, result) && p == ProgressView::Reply(
            feature::edit_event_view(req.spec_id(), edit, "codeLensExecute"@),
        )
}

/// How a lens goes on once the server was asked for its command.
pub open spec fn lens_resolved(req: Request, result: Result<JsonView, Seq<char>>) -> ProgressView {
    match result {
        Err(e) => feature::failing(req, e),
        Ok(j) => match actions::resolved_lens(decode::lsp_code_lens(j)) {
            Ok(step) => feature::lens_progress(req.spec_id(), step),
            Err(e) => feature::failing(req, e),
        },
    }
}

fn advance_rename(client: &LspClient, req: &Request, result: Result<Json, String>) -> (r: Progress)
    ensures
        is_rename_end(r.deep_view(), *req, json::result_view(result)),
{
    match result {
        Err(e) => fail(req, e.as_str()),
        Ok(j) => {
            let edit = client.rename_reply(&j);
            assert(features::is_rename_result(wire::outcome(edit), j@));
            let event = match &edit {
                Ok(Some(w)) => value_event("rename", req.id(), "edit", w.to_json()),
                Ok(None) => value_event("rename", req.id(), "edit", Json::Null),
                Err(e) => error_event(req.id(), e.as_str()),
            };
            Progress::Reply(event)
        },
    }
}

fn advance_lens(client: &LspClient, req: &Request, result: Result<Json, String>) -> (r: Progress)
    ensures
        is_lens_end(r.deep_view(), *req, json::result_view(result)),
{
    let edit = client.execute_code_lens_reply(result);
    assert(actions::is_lens_edit(edit.deep_view(), json::result_view(result)));
    Progress::Reply(edit_event(req.id(), edit_ref(&edit), "codeLensExecute"))
}

fn advance_resolve(client: &LspClient, req: &Request, result: Result<Json, String>) -> (r: Progress)
    ensures
        r.deep_view() == lens_resolved(*req, json::result_view(result)),
{
    match result {
        Err(e) => fail(req, e.as_str()),
        Ok(j) => match client.resolve_code_lens_reply(&j) {
            Ok(step) => go_on(req.id(), step),
            Err(e) => fail(req, e.as_str()),
        },
    }
}

// ---------------------------------------------------------------------------
// All features
// ---------------------------------------------------------------------------

/// What more about a completion item comes to.
pub open spec fn item_progress(
    req: Request,
    original: JsonView,
    index: usize,
    result: Result<JsonView, Seq<char>>,
) -> ProgressView {
    match result {
        Err(e) => feature::failing(req, e),
        Ok(j) => ProgressView::Reply(
            answer::answer(
                "completionResolve"@,
                req.spec_id(),
                "item"@,
                answer::written::<CompletionItem>(
                    completion::resolve_outcome(decode::lsp_completion_item(j), original, index),
                ),
            ),
        ),
    }
}

/// Whether a feature goes on as it should, given the outcome of what the server
/// was asked.
pub open spec fn is_advance(
    p: ProgressView,
    c: ClientView,
    req: Request,
    stage: StageView,
    method: Seq<char>,
    outcome: Result<Option<JsonView>, Seq<char>>,
) -> bool {
    let result = client::required_result(method, outcome);
    match (stage, req) {
        (StageView::Completion { generation }, Request::Completion { max_items, .. }) => p
            == completion_progress(req, generation, max_items, outcome),
        (StageView::Item { original }, Request::CompletionResolve { index, .. }) => p
            == item_progress(req, original, index, result),
        (StageView::Links, Request::Definition { line, character, symbol, .. }) => p == after_links(
            req,
            symbol@,
            features::linked_definition(result, line, character),
        ),
        (StageView::Symbols, Request::Definition { symbol, .. }) => p == ProgressView::Reply(
            answer::locations_event(
                "definition"@,
                req.spec_id(),
                symbol_definition(symbol@, result),
            ),
        ),
        (StageView::ActionCommand { edit }, _) => p == ProgressView::Reply(
            feature::edit_event_view(req.spec_id(), edit, "executeAction"@),
        ),
        (StageView::LensResolve, _) => p == lens_resolved(req, result),
        (StageView::LensCommand, _) => is_lens_end(p, req, result),
        (StageView::FullTokens, _) => p == token_progress(req, full_tokens(c, result)),
        (StageView::Answer, Request::Definition { uri, .. }) => p == definition_progress(
            req,
            uri@,
            result,
        ),
        (StageView::Answer, Request::Rename { .. }) => is_rename_end(p, req, result),
        (StageView::Answer, Request::SemanticTokensDelta { uri, .. }) => p == token_progress(
            req,
            Ok(delta_tokens(c, uri@, result)),
        ),
        (StageView::Answer, Request::SemanticTokensRange { .. }) => p == token_progress(
            req,
            full_tokens(c, result),
        ),
        (StageView::Answer, _) => p == match result {
            Ok(j) => ProgressView::Reply(answer::answer_event(req, j)),
            Err(e) => feature::failing(req, e),
        },
        _ => false,
    }
}

/// A client after the outcome of what the server was asked.
pub open spec fn after_advance(
    c: ClientView,
    req: Request,
    stage: StageView,
    method: Seq<char>,
    outcome: Result<Option<JsonView>, Seq<char>>,
) -> ClientView {
    let result = client::required_result(method, outcome);
    match (stage, req) {
        (StageView::Completion { generation }, Request::Completion { max_items, .. }) =>
            after_completion(c, generation, max_items, outcome),
        (StageView::FullTokens, Request::SemanticTokensFull { uri, .. }) => after_full_tokens(
            c,
            uri@,
            result,
        ),
        (StageView::FullTokens, Request::SemanticTokensDelta { uri, .. }) => after_full_tokens(
            c,
            uri@,
            result,
        ),
        (StageView::Answer, Request::SemanticTokensDelta { uri, .. }) => after_delta_tokens(
            c,
            uri@,
            result,
        ),
        (StageView::Answer, _) => match result {
            Ok(j) => answer::after_answer(c, req, j),
            Err(_) => c,
        },
        _ => c,
    }
}

fn advance_item(
    client: &LspClient,
    req: &Request,
    original: &Json,
    index: usize,
    result: Result<Json, String>,
) -> (r: Progress)
    ensures
        r.deep_view() == item_progress(*req, original@, index, json::result_view(result)),
{
    match result {
        Err(e) => fail(req, e.as_str()),
        Ok(j) => Progress::Reply(
            written_answer(
                "completionResolve",
                req.id(),
                "item",
                client.completion_resolve_reply(original, index, &j),
            ),
        ),
    }
}

fn advance_answer(client: &mut LspClient, req: &Request, result: Result<Json, String>) -> (r:
    Progress)
    requires
        answer::is_plain(*req),
    ensures
        r.deep_view() == match json::result_view(result) {
            Ok(j) => ProgressView::Reply(answer::answer_event(*req, j)),
            Err(e) => feature::failing(*req, e),
        },
        final(client)@ == match json::result_view(result) {
            Ok(j) => answer::after_answer(old(client)@, *req, j),
            Err(_) => old(client)@,
        },
{
    match result {
        Ok(j) => Progress::Reply(take_answer(client, req, &j)),
        Err(e) => fail(req, e.as_str()),
    }
}

/// Goes on with a request, given the outcome of what the server was asked.
/// `method` is the method of that call.
pub fn advance(
    client: &mut LspClient,
    req: &Request,
    stage: Stage,
    method: &str,
    outcome: Result<Option<Json>, String>,
) -> (r: Progress)
    requires
        feature::fits(*req, stage.deep_view()),
    ensures
        is_advance(
            r.deep_view(),
            old(client)@,
            *req,
            stage.deep_view(),
            method@,
            client::outcome_view(outcome),
        ),
        final(client)@ == after_advance(
            old(client)@,
            *req,
            stage.deep_view(),
            method@,
            client::outcome_view(outcome),
        ),
        r matches Progress::Ask { stage: s, .. } ==> feature::fits(*req, s.deep_view()),
{
    if let (Stage::Completion { generation }, Request::Completion { max_items, .. }) = (
        &stage,
        req,
    ) {
        return advance_completion(client, req, *generation, *max_items, outcome);
    }
    let result = require_result(method, outcome);
    match (stage, req) {
        (Stage::Item { original }, Request::CompletionResolve { index, .. }) => advance_item(
            client,
            req,
            &original,
            *index,
            result,
        ),
        (Stage::Links, Request::Definition { line, character, symbol, .. }) => advance_links(
            client,
            req,
            *line,
            *character,
            symbol.as_str(),
            result,
        ),
        (Stage::Symbols, Request::Definition { symbol, .. }) => advance_symbols(
            client,
            req,
            symbol.as_str(),
            result,
        ),
        (Stage::ActionCommand { edit }, _) => Progress::Reply(
            edit_event(req.id(), edit_ref(&edit), "executeAction"),
        ),
        (Stage::LensResolve, _) => advance_resolve(client, req, result),
        (Stage::LensCommand, _) => advance_lens(client, req, result),
        (Stage::FullTokens, Request::SemanticTokensFull { uri, .. }) => advance_full_tokens(
            client,
            req,
            uri.as_str(),
            result,
        ),
        (Stage::FullTokens, Request::SemanticTokensDelta { uri, .. }) => advance_full_tokens(
            client,
            req,
            uri.as_str(),
            result,
        ),
        (Stage::Answer, Request::Definition { uri, .. }) => advance_definition(
            client,
            req,
            uri.as_str(),
            result,
        ),
        (Stage::Answer, Request::Rename { .. }) => advance_rename(client, req, result),
        (Stage::Answer, Request::SemanticTokensDelta { uri, .. }) => advance_delta_tokens(
            client,
            req,
            uri.as_str(),
            result,
        ),
        (Stage::Answer, Request::SemanticTokensRange { .. }) => advance_range_tokens(
            client,
            req,
            result,
        ),
        (Stage::Answer, _) => advance_answer(client, req, result),
        _ => Progress::Silent,
    }
}

// ---------------------------------------------------------------------------
// Laws
// ---------------------------------------------------------------------------

/// How many answers a feature may still wait for at a stage.
pub open spec fn answers_left(stage: StageView) -> nat {
    match stage {
        StageView::Answer => 3,
        StageView::Links => 2,
        StageView::LensResolve => 2,
        _ => 1,
    }
}

/// Every feature comes to an end: after an answer there is less to wait for
/// than before, and never more than three answers.
pub proof fn law_features_end(
    p: ProgressView,
    c: ClientView,
    req: Request,
    stage: StageView,
    method: Seq<char>,
    outcome: Result<Option<JsonView>, Seq<char>>,
)
    requires
        feature::fits(req, stage),
        is_advance(p, c, req, stage, method, outcome),
    ensures
        p matches ProgressView::Ask { stage: next, .. } ==> answers_left(next) < answers_left(
            stage,
        ),
        answers_left(stage) <= 3,
{
}

/// Only a completion whose place a newer one has taken ends without a word.
pub proof fn law_only_replaced_completions_are_silent(
    p: ProgressView,
    c: ClientView,
    req: Request,
    stage: StageView,
    method: Seq<char>,
    outcome: Result<Option<JsonView>, Seq<char>>,
)
    requires
        feature::fits(req, stage),
        is_advance(p, c, req, stage, method, outcome),
    ensures
        p is Silent ==> req is Completion && outcome == Ok::<Option<JsonView>, Seq<char>>(None),
{
}

/// Whether an event answers a request.
pub open spec fn answers(event: JsonView, req: Request) -> bool {
    event.at("id"@) == JsonView::Int(req.spec_id() as int)
}

/// Whatever a server answers, the event that ends a feature carries the number
/// of the request, so that the editor can tell what was answered.
pub proof fn law_every_end_answers_the_request(
    p: ProgressView,
    c: ClientView,
    req: Request,
    stage: StageView,
    method: Seq<char>,
    outcome: Result<Option<JsonView>, Seq<char>>,
)
    requires
        feature::fits(req, stage),
        is_advance(p, c, req, stage, method, outcome),
    ensures
        p matches ProgressView::Reply(e) ==> answers(e, req),
{
    lemma_members();
    if stage is Answer && answer::is_plain(req) {
        if let Ok(j) = client::required_result(method, outcome) {
            lemma_answer_event(req, j);
        }
    }
}

/// A request that ends before a server was asked carries its number too.
pub proof fn law_every_refusal_answers_the_request(p: ProgressView, c: ClientView, req: Request)
    requires
        feature::is_begin(p, c, req),
    ensures
        p matches ProgressView::Reply(e) ==> answers(e, req),
{
    lemma_members();
}

/// A definition that the server knows is what the editor gets; links and the
/// workspace's symbols are looked at only where there is none.
pub proof fn law_definitions_come_first(
    p: ProgressView,
    c: ClientView,
    req: Request,
    method: Seq<char>,
    j: JsonView,
)
    requires
        req is Definition,
        is_advance(p, c, req, StageView::Answer, method, Ok(Some(j))),
    ensures
        read::locations_of(j).len() > 0 ==> p == ProgressView::Reply(
            answer::locations_event("definition"@, req.spec_id(), read::locations_of(j)),
        ),
        read::locations_of(j).len() == 0 ==> p is Ask,
{
}

/// The names of an event's members are told apart from that of its number.
proof fn lemma_members()
    ensures
        "type"@ != "id"@,
        "message"@ != "id"@,
        "generation"@ != "id"@,
        "items"@ != "id"@,
        "locations"@ != "id"@,
        "item"@ != "id"@,
        "edit"@ != "id"@,
        "tokens"@ != "id"@,
{
    reveal_strlit("id");
    reveal_strlit("type");
    reveal_strlit("message");
    reveal_strlit("generation");
    reveal_strlit("items");
    reveal_strlit("locations");
    reveal_strlit("item");
    reveal_strlit("edit");
    reveal_strlit("tokens");
    assert("id"@.len() == 2);
    assert("type"@.len() == 4);
    assert("message"@.len() == 7);
    assert("generation"@.len() == 10);
    assert("items"@.len() == 5);
    assert("locations"@.len() == 9);
    assert("item"@.len() == 4);
    assert("edit"@.len() == 4);
    assert("tokens"@.len() == 6);
}

proof fn lemma_answer_members()
    ensures
        "contents"@ != "id"@,
        "actions"@ != "id"@,
        "edits"@ != "id"@,
        "signatures"@ != "id"@,
        "symbols"@ != "id"@,
        "highlights"@ != "id"@,
        "hints"@ != "id"@,
        "calls"@ != "id"@,
        "ranges"@ != "id"@,
        "lenses"@ != "id"@,
        "result"@ != "id"@,
        "uri"@ != "id"@,
{
    reveal_strlit("id");
    reveal_strlit("contents");
    reveal_strlit("actions");
    reveal_strlit("edits");
    reveal_strlit("signatures");
    reveal_strlit("symbols");
    reveal_strlit("highlights");
    reveal_strlit("hints");
    reveal_strlit("calls");
    reveal_strlit("ranges");
    reveal_strlit("lenses");
    reveal_strlit("result");
    reveal_strlit("uri");
    assert("id"@.len() == 2);
    assert("contents"@.len() == 8);
    assert("actions"@.len() == 7);
    assert("edits"@.len() == 5);
    assert("signatures"@.len() == 10);
    assert("symbols"@.len() == 7);
    assert("highlights"@.len() == 10);
    assert("hints"@.len() == 5);
    assert("calls"@.len() == 5);
    assert("ranges"@.len() == 6);
    assert("lenses"@.len() == 6);
    assert("result"@.len() == 6);
    assert("uri"@.len() == 3);
}

proof fn lemma_answer_event(req: Request, j: JsonView)
    requires
        answer::is_plain(req),
    ensures
        answers(answer::answer_event(req, j), req),
{
    lemma_members();
    lemma_answer_members();
}

} // verus!
