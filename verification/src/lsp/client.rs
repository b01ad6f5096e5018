//! The state of the connection to one language server.
//!
//! Nothing here waits or sends. A request is begun, which gives the messages
//! to send; what comes of it is told to the client, which gives the result.

use vstd::prelude::*;
use vstd::string::*;

use crate::json;
use crate::json::{Fields, Json, JsonView};
use crate::lsp::call;
use crate::lsp::recent::RecentChanges;
use crate::lsp::server;
use crate::lsp::server::{answer_server_request, handle_server_notification, ServerEvent};
use crate::lsp::tokens::SemanticToken;
use crate::strmap::StrMap;
use crate::text;

verus! {

// ---------------------------------------------------------------------------
// State
// ---------------------------------------------------------------------------

/// The completion items that a later request may ask more about.
pub struct CompletionCache {
    pub generation: u64,
    pub items: Vec<Json>,
}

/// The client of one language server.
pub struct LspClient {
    pub next_id: i64,
    /// Requests that wait for an answer.
    pub pending: Vec<i64>,
    /// Newest request per feature of which only the newest is useful.
    pub latest_requests: StrMap<i64>,
    /// What the server said it can do.
    pub capabilities: Option<Json>,
    /// Code actions of the last answer.
    pub cached_actions: Vec<Json>,
    /// Completion items of the newest answer.
    pub cached_completions: CompletionCache,
    pub completion_generation: u64,
    /// Code lenses of the last answer.
    pub cached_code_lenses: Vec<Json>,
    /// Name of the last semantic tokens, per document.
    pub semtok_prev_result_id: StrMap<String>,
    /// Last semantic tokens, per document.
    pub semtok_prev_data: StrMap<Vec<SemanticToken>>,
    /// Methods that the server registered.
    pub registered_methods: Vec<String>,
    /// Settings that the server may ask for.
    pub settings: Json,
    /// File changes that the server was told of a moment ago.
    pub watched_file_notifications: RecentChanges,
    pub server_name: String,
}

/// The model of [`LspClient`].
#[verifier::ext_equal]
pub struct ClientView {
    pub next_id: i64,
    pub pending: Set<i64>,
    pub latest: Map<Seq<char>, i64>,
    pub capabilities: Option<JsonView>,
    pub actions: Seq<JsonView>,
    pub cached_generation: u64,
    pub completions: Seq<JsonView>,
    pub completion_generation: u64,
    pub code_lenses: Seq<JsonView>,
    pub result_ids: Map<Seq<char>, Seq<char>>,
    pub token_data: Map<Seq<char>, Seq<SemanticToken>>,
    pub registered: Set<Seq<char>>,
    pub settings: JsonView,
    pub watched: Map<(Seq<char>, u32), u64>,
    pub server_name: Seq<char>,
}

impl LspClient {
    /// The client's state as a mathematical object.
    pub open spec fn view(&self) -> ClientView {
        ClientView {
            next_id: self.next_id,
            pending: self.pending@.to_set(),
            latest: self.latest_requests@,
            capabilities: match self.capabilities {
                Some(c) => Some(c@),
                None => None,
            },
            actions: json::items_view(self.cached_actions@),
            cached_generation: self.cached_completions.generation,
            completions: json::items_view(self.cached_completions.items@),
            completion_generation: self.completion_generation,
            code_lenses: json::items_view(self.cached_code_lenses@),
            result_ids: self.semtok_prev_result_id@,
            token_data: self.semtok_prev_data@,
            registered: self.registered_methods.deep_view().to_set(),
            settings: self.settings@,
            watched: self.watched_file_notifications@,
            server_name: self.server_name@,
        }
    }
}

/// The state of a client that has not sent anything.
pub open spec fn new_client(server_name: Seq<char>, settings: Option<JsonView>) -> ClientView {
    ClientView {
        next_id: 1,
        pending: Set::empty(),
        latest: Map::empty(),
        capabilities: None,
        actions: Seq::empty(),
        cached_generation: 0,
        completions: Seq::empty(),
        completion_generation: 0,
        code_lenses: Seq::empty(),
        result_ids: Map::empty(),
        token_data: Map::empty(),
        registered: Set::empty(),
        settings: match settings {
            Some(s) => s,
            None => JsonView::Object(Map::empty()),
        },
        watched: Map::empty(),
        server_name,
    }
}

/// A copy of a list of values.
pub fn copy_items(items: &Vec<Json>) -> (r: Vec<Json>)
    ensures
        json::items_view(r@) == json::items_view(items@),
{
    let mut out: Vec<Json> = Vec::new();
    let mut i: usize = 0;
    while i < items.len()
        invariant
            i <= items@.len(),
            out@.len() == i,
            forall|k: int| 0 <= k < i ==> (#[trigger] out@[k])@ == items@[k]@,
        decreases items@.len() - i,
    {
        out.push(items[i].copy());
        i = i + 1;
    }
    assert(json::items_view(out@) =~= json::items_view(items@));
    out
}

/// The items of an array, or none.
pub fn items_of(j: &Json) -> (r: Vec<Json>)
    ensures
        json::items_view(r@) == j@.items(),
{
    match j.as_array() {
        Some(items) => copy_items(items),
        None => {
            let out: Vec<Json> = Vec::new();
            assert(json::items_view(out@) =~= j@.items());
            out
        },
    }
}

proof fn lemma_push_id(ids: Seq<i64>, id: i64)
    ensures
        ids.push(id).to_set() == ids.to_set().insert(id),
{
    let more = ids.push(id);
    assert forall|x: i64| more.contains(x) <==> ids.contains(x) || x == id by {
        if ids.contains(x) {
            let k = choose|k: int| 0 <= k < ids.len() && ids[k] == x;
            assert(more[k] == x);
        }
        if x == id {
            assert(more[ids.len() as int] == x);
        }
        if more.contains(x) {
            let k = choose|k: int| 0 <= k < more.len() && more[k] == x;
            if k < ids.len() {
                assert(ids[k] == x);
            }
        }
    }
    assert(more.to_set() =~= ids.to_set().insert(id));
}

fn has_id(ids: &Vec<i64>, id: i64) -> (r: bool)
    ensures
        r == ids@.to_set().contains(id),
{
    let mut i: usize = 0;
    while i < ids.len()
        invariant
            i <= ids@.len(),
            forall|k: int| 0 <= k < i ==> ids@[k] != id,
        decreases ids@.len() - i,
    {
        if ids[i] == id {
            return true;
        }
        i = i + 1;
    }
    false
}

fn without_id(ids: &Vec<i64>, id: i64) -> (r: Vec<i64>)
    ensures
        r@.to_set() == ids@.to_set().remove(id),
{
    let mut out: Vec<i64> = Vec::new();
    let mut i: usize = 0;
    while i < ids.len()
        invariant
            i <= ids@.len(),
            forall|x: i64|
                #[trigger] out@.contains(x) <==> x != id && exists|k: int|
                    0 <= k < i && ids@[k] == x,
        decreases ids@.len() - i,
    {
        let ghost before = out@;
        if ids[i] != id {
            out.push(ids[i]);
            assert forall|x: i64| #[trigger] out@.contains(x) <==> before.contains(x) || x
                == ids@[i as int] by {
                if before.contains(x) {
                    let k = choose|k: int| 0 <= k < before.len() && before[k] == x;
                    assert(out@[k] == x);
                }
                if x == ids@[i as int] {
                    assert(out@[before.len() as int] == x);
                }
                if out@.contains(x) {
                    let k = choose|k: int| 0 <= k < out@.len() && out@[k] == x;
                    if k < before.len() {
                        assert(before[k] == x);
                    }
                }
            }
        }
        assert forall|x: i64| #[trigger] out@.contains(x) <==> x != id && exists|k: int|
            0 <= k < i + 1 && ids@[k] == x by {
            if before.contains(x) {
                let k = choose|k: int| 0 <= k < i && ids@[k] == x;
                assert(0 <= k < i + 1 && ids@[k] == x);
            }
            if x != id && exists|k: int| 0 <= k < i + 1 && ids@[k] == x {
                let k = choose|k: int| 0 <= k < i + 1 && ids@[k] == x;
                if k < i {
                    assert(before.contains(x));
                }
            }
        }
        i = i + 1;
    }
    assert(out@.to_set() =~= ids@.to_set().remove(id));
    out
}

// ---------------------------------------------------------------------------
// Requests
// ---------------------------------------------------------------------------

/// The request that a new request under a key takes the place of, where it
/// still waits for an answer.
pub open spec fn replaced(c: ClientView, key: Option<Seq<char>>) -> Option<i64> {
    match key {
        Some(k) => if c.latest.contains_key(k) && c.pending.insert(c.next_id).contains(
            c.latest[k],
        ) {
            Some(c.latest[k])
        } else {
            None
        },
        None => None,
    }
}

/// A client after a request was begun.
pub open spec fn begun(c: ClientView, key: Option<Seq<char>>) -> ClientView {
    let pending = c.pending.insert(c.next_id);
    ClientView {
        next_id: c.next_id.wrapping_add(1),
        pending: match replaced(c, key) {
            Some(old) => pending.remove(old),
            None => pending,
        },
        latest: match key {
            Some(k) => c.latest.insert(k, c.next_id),
            None => c.latest,
        },
        ..c
    }
}

/// The messages that begin a request: first that the request it replaces is no
/// longer waited for, then the request itself.
pub open spec fn begin_messages(
    c: ClientView,
    key: Option<Seq<char>>,
    method: Seq<char>,
    params: JsonView,
) -> Seq<JsonView> {
    let request = call::request_message(c.next_id, method, params);
    match replaced(c, key) {
        Some(old) => seq![call::cancel_message(old), request],
        None => seq![request],
    }
}

/// Whether a request is still the newest under its key.
pub open spec fn is_newest(c: ClientView, key: Option<Seq<char>>, id: i64) -> bool {
    match key {
        Some(k) => c.latest.contains_key(k) && c.latest[k] == id,
        None => true,
    }
}

/// A client after a request was settled: its key no longer points at it.
pub open spec fn settled(c: ClientView, key: Option<Seq<char>>, id: i64) -> ClientView {
    match key {
        Some(k) => if is_newest(c, key, id) {
            ClientView { latest: c.latest.remove(k), ..c }
        } else {
            c
        },
        None => c,
    }
}

/// A client after an answer to a request is no longer waited for.
pub open spec fn dropped(c: ClientView, id: i64) -> ClientView {
    ClientView { pending: c.pending.remove(id), ..c }
}

/// What a response means: nothing where a newer request took its place, an
/// error where it reports one, and its result otherwise.
pub open spec fn response_result(
    c: ClientView,
    key: Option<Seq<char>>,
    id: i64,
    response: JsonView,
) -> Result<Option<JsonView>, Seq<char>> {
    if !is_newest(c, key, id) {
        Ok(None)
    } else {
        match response.get("error"@) {
            Some(e) => Err("LSP error: "@ + json::json_text(e)),
            None => Ok(Some(response.at("result"@))),
        }
    }
}

/// The outcome of a request whose answer will not come.
pub open spec fn closed_result(
    c: ClientView,
    key: Option<Seq<char>>,
    id: i64,
    reason: Seq<char>,
) -> Result<Option<JsonView>, Seq<char>> {
    if is_newest(c, key, id) {
        Err(reason)
    } else {
        Ok(None)
    }
}

/// The error of a request that was not answered in time.
pub open spec fn timeout_text(timeout_ms: u64, method: Seq<char>) -> Seq<char> {
    "LSP request timed out after "@ + text::decimal(timeout_ms as nat) + "ms: "@ + method
}

/// The outcome of a request, over the models of its values.
pub open spec fn outcome_view(r: Result<Option<Json>, String>) -> Result<
    Option<JsonView>,
    Seq<char>,
> {
    match r {
        Ok(Some(j)) => Ok(Some(j@)),
        Ok(None) => Ok(None),
        Err(e) => Err(e@),
    }
}

/// A request that was begun: its number, and what to send.
pub struct Begun {
    pub id: i64,
    pub messages: Vec<Json>,
}

/// A request that was not answered in time: what to send, and the error.
pub struct TimedOut {
    pub message: Option<Json>,
    pub error: String,
}

impl LspClient {
    /// A client that has not sent anything.
    pub fn new(server_name: &str, settings: Option<Json>) -> (r: LspClient)
        ensures
            r@ == new_client(
                server_name@,
                match settings {
                    Some(s) => Some(s@),
                    None => None,
                },
            ),
    {
        let settings = match settings {
            Some(s) => s,
            None => Fields::new().done(),
        };
        let r = LspClient {
            next_id: 1,
            pending: Vec::new(),
            latest_requests: StrMap::new(),
            capabilities: None,
            cached_actions: Vec::new(),
            cached_completions: CompletionCache { generation: 0, items: Vec::new() },
            completion_generation: 0,
            cached_code_lenses: Vec::new(),
            semtok_prev_result_id: StrMap::new(),
            semtok_prev_data: StrMap::new(),
            registered_methods: Vec::new(),
            settings,
            watched_file_notifications: RecentChanges::new(),
            server_name: server_name.to_string(),
        };
        assert(r@ =~= new_client(server_name@, Some(settings@)));
        r
    }

    fn next_request_id(&mut self) -> (r: i64)
        ensures
            r == old(self)@.next_id,
            final(self)@ == (ClientView { next_id: r.wrapping_add(1), ..old(self)@ }),
    {
        let id: i64 = self.next_id;
        self.next_id = id.wrapping_add(1);
        id
    }

    /// Begins a request. Where only the newest request for `key` is useful, the
    /// one before it is cancelled first.
    pub fn begin_request(&mut self, key: Option<&str>, method: &str, params: Json) -> (r: Begun)
        ensures
            r.id == old(self)@.next_id,
            json::items_view(r.messages@) == begin_messages(
                old(self)@,
                text::text_of(key),
                method@,
                params@,
            ),
            final(self)@ == begun(old(self)@, text::text_of(key)),
    {
        let ghost c = self@;
        let id: i64 = self.next_request_id();
        let request = call::request(id, method, params);
        let ghost requested = request@;
        assert(self@.pending == c.pending);
        proof {
            lemma_push_id(self.pending@, id);
        }
        self.pending.push(id);
        let mut messages: Vec<Json> = Vec::new();
        if let Some(k) = key {
            let previous: Option<i64> = match self.latest_requests.get(k) {
                Some(p) => Some(*p),
                None => None,
            };
            self.latest_requests.insert(k, id);
            if let Some(old_id) = previous {
                if let Some(cancel) = self.cancel_pending_request(old_id) {
                    messages.push(cancel);
                }
            }
        }
        messages.push(request);
        assert(json::items_view(messages@) =~= begin_messages(
            c,
            text::text_of(key),
            method@,
            params@,
        ));
        assert(self@ =~= begun(c, text::text_of(key)));
        Begun { id, messages }
    }

    /// Gives up on a request that still waits for an answer, and gives the
    /// message that says so.
    pub fn cancel_pending_request(&mut self, id: i64) -> (r: Option<Json>)
        ensures
            match r {
                Some(m) => old(self)@.pending.contains(id) && m@ == call::cancel_message(id),
                None => !old(self)@.pending.contains(id),
            },
            final(self)@ == dropped(old(self)@, id),
    {
        let ghost c = self@;
        if !has_id(&self.pending, id) {
            assert(self@ =~= dropped(c, id));
            return None;
        }
        self.pending = without_id(&self.pending, id);
        assert(self@ =~= dropped(c, id));
        Some(call::cancel(id))
    }

    /// Removes `key` only if it still points at `id`. A false return means that
    /// a newer request replaced this one while it was waiting.
    pub fn clear_latest_request(&mut self, key: &str, id: i64) -> (r: bool)
        ensures
            r == is_newest(old(self)@, Some(key@), id),
            final(self)@ == settled(old(self)@, Some(key@), id),
    {
        let newest: bool = match self.latest_requests.get(key) {
            Some(current) => *current == id,
            None => false,
        };
        if newest {
            self.latest_requests.remove(key);
        }
        newest
    }

    fn settle(&mut self, key: Option<&str>, id: i64) -> (r: bool)
        ensures
            r == is_newest(old(self)@, text::text_of(key), id),
            final(self)@ == settled(old(self)@, text::text_of(key), id),
    {
        match key {
            Some(k) => self.clear_latest_request(k, id),
            None => true,
        }
    }

    /// Takes note that a request could not be sent.
    pub fn send_failed(&mut self, key: Option<&str>, id: i64)
        ensures
            final(self)@ == dropped(settled(old(self)@, text::text_of(key), id), id),
    {
        self.settle(key, id);
        let ghost c = self@;
        self.pending = without_id(&self.pending, id);
        assert(self@ =~= dropped(c, id));
    }

    /// Takes note that a response to a request has come. A false return means
    /// that no request waits for it.
    pub fn response_arrived(&mut self, id: i64) -> (r: bool)
        ensures
            r == old(self)@.pending.contains(id),
            final(self)@ == dropped(old(self)@, id),
    {
        let ghost c = self@;
        let known = has_id(&self.pending, id);
        self.pending = without_id(&self.pending, id);
        assert(self@ =~= dropped(c, id));
        known
    }

    /// Settles a request with the response that came.
    pub fn answered(&mut self, key: Option<&str>, id: i64, response: &Json) -> (r: Result<
        Option<Json>,
        String,
    >)
        ensures
            outcome_view(r) == response_result(old(self)@, text::text_of(key), id, response@),
            final(self)@ == settled(old(self)@, text::text_of(key), id),
    {
        if !self.settle(key, id) {
            return Ok(None);
        }
        match response.get("error") {
            Some(e) => Err("LSP error: ".to_string().concat(e.render().as_str())),
            None => Ok(Some(response.at("result"))),
        }
    }

    /// Settles a request whose answer will not come.
    pub fn closed(&mut self, key: Option<&str>, id: i64, reason: &str) -> (r: Result<
        Option<Json>,
        String,
    >)
        ensures
            outcome_view(r) == closed_result(old(self)@, text::text_of(key), id, reason@),
            final(self)@ == settled(dropped(old(self)@, id), text::text_of(key), id),
    {
        let ghost c = self@;
        self.pending = without_id(&self.pending, id);
        assert(self@ =~= dropped(c, id));
        if self.settle(key, id) {
            Err(reason.to_string())
        } else {
            Ok(None)
        }
    }

    /// Settles a request that was not answered in time.
    pub fn timed_out(&mut self, key: Option<&str>, id: i64, method: &str, timeout_ms: u64) -> (r:
        TimedOut)
        ensures
            match r.message {
                Some(m) => old(self)@.pending.contains(id) && m@ == call::cancel_message(id),
                None => !old(self)@.pending.contains(id),
            },
            r.error@ == timeout_text(timeout_ms, method@),
            final(self)@ == settled(dropped(old(self)@, id), text::text_of(key), id),
    {
        let message = self.cancel_pending_request(id);
        self.settle(key, id);
        let error = "LSP request timed out after ".to_string().concat(
            text::decimal_text(timeout_ms).as_str(),
        ).concat("ms: ").concat(method);
        TimedOut { message, error }
    }
}

/// The outcome of a request that nothing replaces.
pub open spec fn required_result(
    method: Seq<char>,
    outcome: Result<Option<JsonView>, Seq<char>>,
) -> Result<JsonView, Seq<char>> {
    match outcome {
        Ok(Some(j)) => Ok(j),
        Ok(None) => Err("non-superseding request was unexpectedly cancelled: "@ + method),
        Err(e) => Err(e),
    }
}

/// Takes the result of a request that nothing replaces.
pub fn require_result(method: &str, outcome: Result<Option<Json>, String>) -> (r: Result<
    Json,
    String,
>)
    ensures
        json::result_view(r) == required_result(method@, outcome_view(outcome)),
{
    match outcome {
        Ok(Some(j)) => Ok(j),
        Ok(None) => Err(
            "non-superseding request was unexpectedly cancelled: ".to_string().concat(method),
        ),
        Err(e) => Err(e),
    }
}

// ---------------------------------------------------------------------------
// Messages from the server
// ---------------------------------------------------------------------------

/// What a message from the server is.
pub enum Incoming {
    /// A response; `known` says whether a request waits for it.
    Response { id: i64, known: bool },
    /// A request: an event to pass on, then a response to send.
    Request { event: Option<ServerEvent>, response: Json },
    /// A notification, with the event that it brings.
    Notification { event: Option<ServerEvent> },
    /// Neither of these.
    Ignored,
}

/// The request that a response answers.
pub open spec fn response_id(msg: JsonView) -> i64 {
    match msg.at("id"@).as_i64() {
        Some(n) => n,
        None => 0,
    }
}

/// Whether a message is a response: it has an id and no method.
pub open spec fn is_response(msg: JsonView) -> bool {
    msg.get("id"@) is Some && msg.get("method"@) is None
}

/// Whether a message is a request: it has an id and a method.
pub open spec fn is_request(msg: JsonView) -> bool {
    msg.get("id"@) is Some && msg.get("method"@) is Some
}

/// Whether a message is a notification: it has a method and no id.
pub open spec fn is_notification(msg: JsonView) -> bool {
    msg.get("id"@) is None && msg.at("method"@) is Str
}

/// A client after a message from the server.
pub open spec fn after_message(c: ClientView, msg: JsonView) -> ClientView {
    if is_response(msg) {
        dropped(c, response_id(msg))
    } else if is_request(msg) {
        ClientView { registered: c.registered.union(server::registered_by(msg).to_set()), ..c }
    } else {
        c
    }
}

/// Whether a message is taken for what it is.
pub open spec fn is_incoming(r: Incoming, c: ClientView, msg: JsonView) -> bool {
    match r {
        Incoming::Response { id, known } => is_response(msg) && id == response_id(msg) && known
            == c.pending.contains(id),
        Incoming::Request { event, response } => is_request(msg) && response@
            == server::server_response(msg, c.settings) && server::is_request_event(
            event.deep_view(),
            msg,
        ),
        Incoming::Notification { event } => is_notification(msg) && event.deep_view()
            == server::notification_event(msg.at("method"@).text(), msg),
        Incoming::Ignored => !is_response(msg) && !is_request(msg) && !is_notification(msg),
    }
}

fn extend_methods(registered: &mut Vec<String>, mut methods: Vec<String>)
    ensures
        final(registered).deep_view().to_set() == old(registered).deep_view().to_set().union(
            methods.deep_view().to_set(),
        ),
{
    let ghost a = registered.deep_view();
    let ghost b = methods.deep_view();
    registered.append(&mut methods);
    assert(registered.deep_view() =~= a + b);
    assert((a + b).to_set() =~= a.to_set().union(b.to_set())) by {
        assert forall|x: Seq<char>| (a + b).contains(x) <==> a.contains(x) || b.contains(x) by {
            if a.contains(x) {
                let k = choose|k: int| 0 <= k < a.len() && a[k] == x;
                assert((a + b)[k] == x);
            }
            if b.contains(x) {
                let k = choose|k: int| 0 <= k < b.len() && b[k] == x;
                assert((a + b)[a.len() + k] == x);
            }
        }
    }
}

impl LspClient {
    /// Answers a request from the server.
    pub fn handle_server_request(&mut self, msg: &Json) -> (r: (Option<ServerEvent>, Json))
        ensures
            server::is_request_event(r.0.deep_view(), msg@),
            r.1@ == server::server_response(msg@, old(self)@.settings),
            final(self)@ == (ClientView {
                registered: old(self)@.registered.union(server::registered_by(msg@).to_set()),
                ..old(self)@
            }),
    {
        let reply = answer_server_request(msg, &self.settings);
        extend_methods(&mut self.registered_methods, reply.methods);
        (reply.event, reply.response)
    }

    /// Takes a message from the server.
    pub fn receive(&mut self, msg: &Json) -> (r: Incoming)
        ensures
            is_incoming(r, old(self)@, msg@),
            final(self)@ == after_message(old(self)@, msg@),
    {
        match msg.get("id") {
            Some(id) => {
                let has_method = match msg.get("method") {
                    Some(_) => true,
                    None => false,
                };
                if has_method {
                    let (event, response) = self.handle_server_request(msg);
                    Incoming::Request { event, response }
                } else {
                    let number: i64 = match id.as_i64() {
                        Some(n) => n,
                        None => 0,
                    };
                    let known = self.response_arrived(number);
                    Incoming::Response { id: number, known }
                }
            },
            None => match msg.str_at("method") {
                Some(method) => Incoming::Notification {
                    event: handle_server_notification(method, msg),
                },
                None => Incoming::Ignored,
            },
        }
    }
}

// ---------------------------------------------------------------------------
// Laws
// ---------------------------------------------------------------------------

/// Of two requests under one key the newer wins: the server hears that the
/// older is given up before it hears of the newer, and whatever it answers to
/// the older comes to nothing.
pub proof fn law_newest_request_wins(
    c: ClientView,
    key: Seq<char>,
    method: Seq<char>,
    params: JsonView,
    response: JsonView,
    reason: Seq<char>,
)
    requires
        c.latest.contains_key(key) ==> c.latest[key] != c.next_id,
    ensures
        ({
            let older = c.next_id;
            let between = begun(c, Some(key));
            let newer = between.next_id;
            let after = begun(between, Some(key));
            &&& older != newer
            &&& begin_messages(between, Some(key), method, params) == seq![
                call::cancel_message(older),
                call::request_message(newer, method, params),
            ]
            &&& !after.pending.contains(older)
            &&& after.pending.contains(newer)
            &&& response_result(after, Some(key), older, response)
                == Ok::<Option<JsonView>, Seq<char>>(None)
            &&& closed_result(after, Some(key), older, reason)
                == Ok::<Option<JsonView>, Seq<char>>(None)
            &&& is_newest(after, Some(key), newer)
        }),
{
    let between = begun(c, Some(key));
    assert(between.latest[key] == c.next_id);
    assert(between.pending.contains(c.next_id));
}

/// A request that is begun waits for its answer, and once the answer has been
/// taken nothing is left of it.
pub proof fn law_answered_request_leaves_nothing(
    c: ClientView,
    key: Option<Seq<char>>,
)
    requires
        !c.pending.contains(c.next_id),
        key matches Some(k) ==> !c.latest.contains_key(k),
    ensures
        ({
            let waiting = begun(c, key);
            let after = settled(dropped(waiting, c.next_id), key, c.next_id);
            &&& waiting.pending.contains(c.next_id)
            &&& is_newest(waiting, key, c.next_id)
            &&& after.pending == c.pending
            &&& after.latest == c.latest
        }),
{
    let waiting = begun(c, key);
    let after = settled(dropped(waiting, c.next_id), key, c.next_id);
    assert(after.pending =~= c.pending);
    assert(after.latest =~= c.latest);
}

/// A request that could not be sent leaves nothing behind, just as one that was
/// answered, whose answer never came, or that ran out of time.
pub proof fn law_every_end_is_clean(c: ClientView, key: Option<Seq<char>>, id: i64)
    ensures
        dropped(settled(c, key, id), id) == settled(dropped(c, id), key, id),
        !settled(dropped(c, id), key, id).pending.contains(id),
        !(key is Some && is_newest(settled(dropped(c, id), key, id), key, id)),
{
}

/// A response to a request that no one waits for changes nothing.
pub proof fn law_unexpected_response_is_ignored(c: ClientView, msg: JsonView)
    requires
        is_response(msg),
        !c.pending.contains(response_id(msg)),
    ensures
        after_message(c, msg) == c,
{
    assert(c.pending.remove(response_id(msg)) =~= c.pending);
}

/// Only a registration adds to the methods that a server registered, and
/// nothing takes one away.
pub proof fn law_registrations_only_grow(c: ClientView, msg: JsonView, method: Seq<char>)
    ensures
        c.registered.contains(method) ==> after_message(c, msg).registered.contains(method),
        !c.registered.contains(method) && after_message(c, msg).registered.contains(method)
            ==> is_request(msg) && server::registered_by(msg).contains(method),
{
}

} // verus!
