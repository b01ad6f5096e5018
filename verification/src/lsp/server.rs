//! Requests and notifications that come from a server.

use vstd::prelude::*;

use crate::json;
use crate::json::{object1, Fields, Json, JsonView};
use crate::lsp::decode;
use crate::lsp::types;
use crate::lsp::types::{DiagnosticItem, DiagnosticItemView, WorkspaceEdit, WorkspaceEditView};
use crate::lsp::types::from_lsp_workspace_edit;
use crate::lsp::wire;
use crate::lsp::wire::read_items_at;
use crate::seqs;
use crate::text;

verus! {

// ---------------------------------------------------------------------------
// Configuration
// ---------------------------------------------------------------------------

/// The value at the end of a path of keys.
pub open spec fn value_along(value: JsonView, keys: Seq<Seq<char>>) -> Option<JsonView>
    decreases keys.len(),
{
    if keys.len() == 0 {
        Some(value)
    } else {
        match value.get(keys[0]) {
            Some(next) => value_along(next, keys.drop_first()),
            None => None,
        }
    }
}

/// The settings of a section. A member whose key is the section itself wins
/// over the nested value that the section's dotted path leads to.
pub open spec fn section_value(settings: JsonView, section: Seq<char>) -> JsonView {
    match settings.get(section) {
        Some(v) => v,
        None => match value_along(settings, text::split(section, '.')) {
            Some(v) => v,
            None => JsonView::Null,
        },
    }
}

/// The settings of a section.
pub fn configuration_value(settings: &Json, section: &str) -> (r: Json)
    ensures
        r@ == section_value(settings@, section@),
{
    if let Some(value) = settings.get(section) {
        return value.copy();
    }
    let keys = text::split_text(section, '.');
    let ghost ks = keys.deep_view();
    let mut current = settings;
    let mut i: usize = 0;
    assert(ks.skip(0) =~= ks);
    while i < keys.len()
        invariant
            i <= keys@.len(),
            ks == keys.deep_view(),
            ks == text::split(section@, '.'),
            settings@.get(section@) is None,
            value_along(settings@, ks) == value_along(current@, ks.skip(i as int)),
        decreases keys@.len() - i,
    {
        assert(ks.skip(i as int)[0] == keys@[i as int]@);
        assert(ks.skip(i as int).drop_first() =~= ks.skip(i + 1));
        match current.get(keys[i].as_str()) {
            Some(next) => {
                current = next;
            },
            None => {
                return Json::Null;
            },
        }
        i = i + 1;
    }
    current.copy()
}

/// The answer to one item of a `workspace/configuration` request: the settings
/// of its section, or all settings where it names none.
pub open spec fn item_value(settings: JsonView, item: JsonView) -> JsonView {
    match item.at("section"@).as_str() {
        Some(section) => section_value(settings, section),
        None => settings,
    }
}

/// The answers to the items of a `workspace/configuration` request, in the
/// order of the items.
pub open spec fn configuration_of(params: Option<JsonView>, settings: JsonView) -> Seq<JsonView> {
    match params {
        Some(p) => {
            let items = p.at("items"@).items();
            Seq::new(items.len(), |i: int| item_value(settings, items[i]))
        },
        None => Seq::empty(),
    }
}

/// Answers a `workspace/configuration` request.
pub fn configuration_response(params: Option<&Json>, settings: &Json) -> (r: Vec<Json>)
    ensures
        json::items_view(r@) == configuration_of(json::opt_view(params), settings@),
{
    let mut out: Vec<Json> = Vec::new();
    if let Some(p) = params {
        if let Some(items) = p.array_at("items") {
            let mut i: usize = 0;
            while i < items.len()
                invariant
                    i <= items@.len(),
                    out@.len() == i,
                    forall|k: int|
                        0 <= k < i ==> (#[trigger] out@[k])@ == item_value(settings@, items@[k]@),
                decreases items@.len() - i,
            {
                out.push(
                    match items[i].str_at("section") {
                        Some(section) => configuration_value(settings, section),
                        None => settings.copy(),
                    },
                );
                i = i + 1;
            }
        }
    }
    assert(json::items_view(out@) =~= configuration_of(json::opt_view(params), settings@));
    out
}

/// The methods that a `client/registerCapability` request names, in order.
pub open spec fn methods_of(params: Option<JsonView>) -> Seq<Seq<char>> {
    match params {
        Some(p) => p.at("registrations"@).items().filter(
            |j: JsonView| j.at("method"@) is Str,
        ).map_values(|j: JsonView| j.at("method"@).text()),
        None => Seq::empty(),
    }
}

/// Reads the methods that a `client/registerCapability` request names.
pub fn registration_methods(params: Option<&Json>) -> (r: Vec<String>)
    ensures
        r.deep_view() == methods_of(json::opt_view(params)),
{
    let mut out: Vec<String> = Vec::new();
    let ghost p = |j: JsonView| j.at("method"@) is Str;
    let ghost f = |j: JsonView| j.at("method"@).text();
    if let Some(ps) = params {
        let ghost js = ps@.at("registrations"@).items();
        proof {
            seqs::lemma_filter_start(js, p);
            assert(out.deep_view() =~= js.take(0).filter(p).map_values(f));
        }
        if let Some(items) = ps.array_at("registrations") {
            let mut i: usize = 0;
            while i < items.len()
                invariant
                    i <= items@.len(),
                    js == json::items_view(items@),
                    p == (|j: JsonView| j.at("method"@) is Str),
                    f == (|j: JsonView| j.at("method"@).text()),
                    out.deep_view() == js.take(i as int).filter(p).map_values(f),
                decreases items@.len() - i,
            {
                let ghost before = out.deep_view();
                proof {
                    seqs::lemma_filter_step(js, i as int, p);
                }
                if let Some(method) = items[i].str_at("method") {
                    out.push(method.to_string());
                    assert(out.deep_view() =~= before.push(f(js[i as int])));
                    assert(out.deep_view() =~= js.take(i + 1).filter(p).map_values(f));
                }
                i = i + 1;
            }
            assert(js.take(i as int) =~= js);
        } else {
            assert(js =~= js.take(0));
        }
    }
    assert(out.deep_view() =~= methods_of(json::opt_view(params)));
    out
}

/// The answers to a configuration request are as many as its items, and each
/// stands where its item stood.
pub proof fn law_configuration_in_order(params: JsonView, settings: JsonView, i: int)
    requires
        0 <= i < params.at("items"@).items().len(),
    ensures
        configuration_of(Some(params), settings).len() == params.at("items"@).items().len(),
        configuration_of(Some(params), settings)[i] == item_value(
            settings,
            params.at("items"@).items()[i],
        ),
{
}

/// An exact dotted key wins over whatever the nested settings say.
pub proof fn law_exact_key_wins(settings: JsonView, section: Seq<char>, value: JsonView)
    requires
        settings.get(section) == Some(value),
    ensures
        section_value(settings, section) == value,
{
}

// ---------------------------------------------------------------------------
// Events
// ---------------------------------------------------------------------------

/// What a server has to say to the editor.
pub enum ServerEvent {
    Diagnostics { uri: String, diagnostics: Vec<DiagnosticItem> },
    LogMessage { level: String, message: String },
    ShowMessage { level: String, message: String },
    ApplyEdit { id: Json, edit: WorkspaceEdit },
    Progress {
        token: String,
        kind: String,
        title: String,
        message: String,
        percentage: Option<u64>,
    },
    Stopped { message: String },
}

/// The model of [`ServerEvent`].
#[verifier::ext_equal]
pub enum ServerEventView {
    Diagnostics { uri: Seq<char>, diagnostics: Seq<DiagnosticItemView> },
    LogMessage { level: Seq<char>, message: Seq<char> },
    ShowMessage { level: Seq<char>, message: Seq<char> },
    ApplyEdit { id: JsonView, edit: WorkspaceEditView },
    Progress {
        token: Seq<char>,
        kind: Seq<char>,
        title: Seq<char>,
        message: Seq<char>,
        percentage: Option<u64>,
    },
    Stopped { message: Seq<char> },
}

impl DeepView for ServerEvent {
    type V = ServerEventView;

    open spec fn deep_view(&self) -> ServerEventView {
        match *self {
            ServerEvent::Diagnostics { uri, diagnostics } => ServerEventView::Diagnostics {
                uri: uri@,
                diagnostics: diagnostics.deep_view(),
            },
            ServerEvent::LogMessage { level, message } => ServerEventView::LogMessage {
                level: level@,
                message: message@,
            },
            ServerEvent::ShowMessage { level, message } => ServerEventView::ShowMessage {
                level: level@,
                message: message@,
            },
            ServerEvent::ApplyEdit { id, edit } => ServerEventView::ApplyEdit {
                id: id@,
                edit: edit.deep_view(),
            },
            ServerEvent::Progress { token, kind, title, message, percentage } => {
                ServerEventView::Progress {
                    token: token@,
                    kind: kind@,
                    title: title@,
                    message: message@,
                    percentage,
                }
            },
            ServerEvent::Stopped { message } => ServerEventView::Stopped { message: message@ },
        }
    }
}

/// The name of a message's level.
pub open spec fn level_name(level: Option<u64>) -> Seq<char> {
    if level == Some(1u64) {
        "error"@
    } else if level == Some(2u64) {
        "warn"@
    } else if level == Some(3u64) {
        "info"@
    } else {
        "debug"@
    }
}

/// The event that `textDocument/publishDiagnostics` brings, given what its
/// parameters were read as.
pub open spec fn diagnostics_event(params: Result<JsonView, Seq<char>>) -> Option<
    ServerEventView,
> {
    match params {
        Ok(pd) => Some(
            ServerEventView::Diagnostics {
                uri: pd.at("uri"@).text(),
                diagnostics: wire::lsp_list::<DiagnosticItem>(pd.at("diagnostics"@).items()),
            },
        ),
        Err(_) => None,
    }
}

/// The event that `$/progress` brings: nothing unless it has a token and a
/// value.
pub open spec fn progress_event(params: JsonView) -> Option<ServerEventView> {
    match (params.get("token"@), params.get("value"@)) {
        (Some(token), Some(value)) => Some(
            ServerEventView::Progress {
                token: json::json_text(token),
                kind: value.at("kind"@).text(),
                title: value.at("title"@).text(),
                message: value.at("message"@).text(),
                percentage: value.at("percentage"@).as_u64(),
            },
        ),
        _ => None,
    }
}

/// The event that a notification brings; most bring none.
pub open spec fn notification_event(method: Seq<char>, msg: JsonView) -> Option<ServerEventView> {
    let params = msg.at("params"@);
    let level = level_name(params.at("type"@).as_u64());
    let message = params.at("message"@).text();
    if method == "textDocument/publishDiagnostics"@ {
        diagnostics_event(decode::read_publish_diagnostics(params))
    } else if method == "window/logMessage"@ {
        Some(ServerEventView::LogMessage { level, message })
    } else if method == "window/showMessage"@ {
        Some(ServerEventView::ShowMessage { level, message })
    } else if method == "$/progress"@ {
        progress_event(params)
    } else {
        None
    }
}

/// Reads the diagnostics of a document.
pub fn read_diagnostics(params: &Result<Json, String>) -> (r: Option<ServerEvent>)
    ensures
        r.deep_view() == diagnostics_event(json::result_view(*params)),
{
    match params {
        Ok(pd) => Some(
            ServerEvent::Diagnostics {
                uri: pd.text_at("uri"),
                diagnostics: read_items_at(pd, "diagnostics"),
            },
        ),
        Err(_) => None,
    }
}

fn level_label(level: Option<u64>) -> (r: String)
    ensures
        r@ == level_name(level),
{
    let label = match level {
        Some(1) => "error",
        Some(2) => "warn",
        Some(3) => "info",
        _ => "debug",
    };
    label.to_string()
}

fn u64_at(j: &Json, key: &str) -> (r: Option<u64>)
    ensures
        r == j@.at(key@).as_u64(),
{
    match j.get(key) {
        Some(v) => v.as_u64(),
        None => None,
    }
}

/// Reads a report of progress.
pub fn read_progress(params: &Json) -> (r: Option<ServerEvent>)
    ensures
        r.deep_view() == progress_event(params@),
{
    match (params.get("token"), params.get("value")) {
        (Some(token), Some(value)) => Some(
            ServerEvent::Progress {
                token: token.render(),
                kind: value.text_at("kind"),
                title: value.text_at("title"),
                message: value.text_at("message"),
                percentage: u64_at(value, "percentage"),
            },
        ),
        _ => None,
    }
}

/// Handles a notification from a server.
pub fn handle_server_notification(method: &str, msg: &Json) -> (r: Option<ServerEvent>)
    ensures
        r.deep_view() == notification_event(method@, msg@),
{
    let params = msg.at("params");
    if text::str_eq(method, "textDocument/publishDiagnostics") {
        read_diagnostics(&decode::publish_diagnostics(&params))
    } else if text::str_eq(method, "window/logMessage") {
        Some(
            ServerEvent::LogMessage {
                level: level_label(u64_at(&params, "type")),
                message: params.text_at("message"),
            },
        )
    } else if text::str_eq(method, "window/showMessage") {
        Some(
            ServerEvent::ShowMessage {
                level: level_label(u64_at(&params, "type")),
                message: params.text_at("message"),
            },
        )
    } else if text::str_eq(method, "$/progress") {
        read_progress(&params)
    } else {
        None
    }
}

// ---------------------------------------------------------------------------
// Requests
// ---------------------------------------------------------------------------

/// A successful response.
pub open spec fn response_message(id: JsonView, result: JsonView) -> JsonView {
    JsonView::Object(
        map!["jsonrpc"@ => JsonView::Str("2.0"@), "id"@ => id, "result"@ => result],
    )
}

/// The response to a method that is not known.
pub open spec fn unknown_method_message(id: JsonView) -> JsonView {
    JsonView::Object(
        map![
            "jsonrpc"@ => JsonView::Str("2.0"@),
            "id"@ => id,
            "error"@ => JsonView::Object(
                map![
                    "code"@ => JsonView::Int(-32601),
                    "message"@ => JsonView::Str("method not found"@),
                ],
            ),
        ],
    )
}

/// The response to a server's request.
pub open spec fn server_response(msg: JsonView, settings: JsonView) -> JsonView {
    let method = msg.at("method"@).text();
    let id = msg.at("id"@);
    if method == "workspace/applyEdit"@ {
        response_message(id, JsonView::Object(map!["applied"@ => JsonView::Bool(true)]))
    } else if method == "workspace/configuration"@ {
        response_message(
            id,
            JsonView::Array(configuration_of(msg.get("params"@), settings)),
        )
    } else if method == "client/registerCapability"@ || method
        == "window/workDoneProgress/create"@ {
        response_message(id, JsonView::Null)
    } else {
        unknown_method_message(id)
    }
}

/// The methods that a server's request registers.
pub open spec fn registered_by(msg: JsonView) -> Seq<Seq<char>> {
    if msg.at("method"@).text() == "client/registerCapability"@ {
        methods_of(msg.get("params"@))
    } else {
        Seq::empty()
    }
}

/// Whether an event is what a server's request brings: an edit to apply, where
/// the request carries one.
pub open spec fn is_request_event(event: Option<ServerEventView>, msg: JsonView) -> bool {
    if msg.at("method"@).text() == "workspace/applyEdit"@ && msg.get("params"@) is Some {
        is_edit_event(event, msg.at("id"@), decode::read_workspace_edit(msg.at("params"@).at("edit"@)))
    } else {
        event is None
    }
}

/// Whether an event asks to apply an edit, given what the edit was read as.
pub open spec fn is_edit_event(
    event: Option<ServerEventView>,
    id: JsonView,
    edit: Result<JsonView, Seq<char>>,
) -> bool {
    match edit {
        Ok(e) => event matches Some(ServerEventView::ApplyEdit { id: i, edit: w }) && i == id
            && types::is_workspace_edit_of(w, e),
        Err(_) => event is None,
    }
}

/// Reads the edit that a server asks to apply.
pub fn read_apply_edit(id: &Json, edit: &Result<Json, String>) -> (r: Option<ServerEvent>)
    ensures
        is_edit_event(r.deep_view(), id@, json::result_view(*edit)),
{
    match edit {
        Ok(e) => Some(ServerEvent::ApplyEdit { id: id.copy(), edit: from_lsp_workspace_edit(e) }),
        Err(_) => None,
    }
}

fn response(id: Json, result: Json) -> (r: Json)
    ensures
        r@ == response_message(id@, result@),
{
    let mut f = Fields::new();
    f.put_str("jsonrpc", "2.0");
    f.put("id", id);
    f.put("result", result);
    f.done()
}

fn unknown_method(id: Json) -> (r: Json)
    ensures
        r@ == unknown_method_message(id@),
{
    let mut e = Fields::new();
    e.put("code", Json::integer(-32601));
    e.put_str("message", "method not found");
    let mut f = Fields::new();
    f.put_str("jsonrpc", "2.0");
    f.put("id", id);
    f.put("error", e.done());
    f.done()
}

/// What is done about a server's request.
pub struct ServerReply {
    /// An event to pass on before the response is sent.
    pub event: Option<ServerEvent>,
    /// The response to send.
    pub response: Json,
    /// Methods that the server registers.
    pub methods: Vec<String>,
}

/// Answers a request from a server.
pub fn answer_server_request(msg: &Json, settings: &Json) -> (r: ServerReply)
    ensures
        r.response@ == server_response(msg@, settings@),
        is_request_event(r.event.deep_view(), msg@),
        r.methods.deep_view() == registered_by(msg@),
{
    let method = msg.text_at("method");
    let id = msg.at("id");
    let mut event: Option<ServerEvent> = None;
    let methods = if text::str_eq(method.as_str(), "client/registerCapability") {
        registration_methods(msg.get("params"))
    } else {
        Vec::new()
    };
    assert(methods.deep_view() =~= registered_by(msg@));
    let response = if text::str_eq(method.as_str(), "workspace/applyEdit") {
        if let Some(params) = msg.get("params") {
            event = read_apply_edit(&id, &decode::workspace_edit(&params.at("edit")));
        }
        response(id, object1("applied", Json::Bool(true)))
    } else if text::str_eq(method.as_str(), "workspace/configuration") {
        let values = configuration_response(msg.get("params"), settings);
        response(id, Json::array(values))
    } else if text::str_eq(method.as_str(), "client/registerCapability") {
        response(id, Json::Null)
    } else if text::str_eq(method.as_str(), "window/workDoneProgress/create") {
        response(id, Json::Null)
    } else {
        unknown_method(id)
    };
    ServerReply { event, response, methods }
}

} // verus!
