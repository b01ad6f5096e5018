//! Starting and stopping a server, and keeping it in step with the editor's
//! documents.

use vstd::prelude::*;
use vstd::string::*;

use crate::json;
use crate::json::{object1, Fields, Json, JsonView};
use crate::lsp::call;
use crate::lsp::call::{document_fields, make_call, notification, Call};
use crate::lsp::capabilities;
use crate::lsp::client::{ClientView, LspClient};
use crate::lsp::decode;
use crate::lsp::recent;
use crate::lsp::recent::FileChange;
use crate::path;
use crate::text;

verus! {

// ---------------------------------------------------------------------------
// Lifecycle
// ---------------------------------------------------------------------------

/// The name of a workspace folder: that of its directory, where it has one.
pub open spec fn folder_name(root_path: Seq<char>) -> Seq<char> {
    match path::name_of(root_path) {
        Some(name) => name,
        None => "workspace"@,
    }
}

/// The parameters of the `initialize` request.
pub open spec fn initialize_params(
    process_id: u32,
    version: Seq<char>,
    root_uri: Seq<char>,
    root_path: Seq<char>,
    init_options: Option<JsonView>,
) -> JsonView {
    JsonView::Object(
        map![
            "processId"@ => JsonView::Int(process_id as int),
            "clientInfo"@ => JsonView::Object(
                map!["name"@ => JsonView::Str("SimpleCC"@), "version"@ => JsonView::Str(version)],
            ),
            "rootUri"@ => JsonView::Str(root_uri),
            "rootPath"@ => JsonView::Str(root_path),
            "capabilities"@ => capabilities::client_capabilities_view(),
            "initializationOptions"@ => match init_options {
                Some(o) => o,
                None => JsonView::Null,
            },
            "workspaceFolders"@ => JsonView::Array(
                seq![
                    JsonView::Object(
                        map![
                            "uri"@ => JsonView::Str(root_uri),
                            "name"@ => JsonView::Str(folder_name(root_path)),
                        ],
                    ),
                ],
            ),
        ],
    )
}

/// A client after the server said what it can do, given what that was read as.
pub open spec fn initialized(c: ClientView, result: Result<JsonView, Seq<char>>) -> ClientView {
    match result {
        Ok(r) => ClientView { capabilities: Some(r.at("capabilities"@)), ..c },
        Err(_) => c,
    }
}

impl LspClient {
    /// The request that starts the conversation.
    pub fn initialize(
        &self,
        process_id: u32,
        version: &str,
        root_uri: &str,
        root_path: &str,
        init_options: Option<Json>,
    ) -> (r: Call)
        ensures
            r.deep_view() == call::call_of(
                "initialize"@,
                initialize_params(
                    process_id,
                    version@,
                    root_uri@,
                    root_path@,
                    match init_options {
                        Some(o) => Some(o@),
                        None => None,
                    },
                ),
            ),
    {
        let mut info = Fields::new();
        info.put_str("name", "SimpleCC");
        info.put_str("version", version);
        let mut folder = Fields::new();
        folder.put_str("uri", root_uri);
        match path::file_name(root_path) {
            Some(name) => folder.put_str("name", name.as_str()),
            None => folder.put_str("name", "workspace"),
        }
        let options = match init_options {
            Some(o) => o,
            None => Json::Null,
        };
        let mut f = Fields::new();
        f.put_u64("processId", process_id as u64);
        f.put("clientInfo", info.done());
        f.put_str("rootUri", root_uri);
        f.put_str("rootPath", root_path);
        f.put("capabilities", capabilities::client_capabilities());
        f.put("initializationOptions", options);
        f.put("workspaceFolders", Json::array1(folder.done()));
        make_call("initialize", f.done())
    }

    /// Takes what the server said it can do, where that could be read.
    pub fn set_capabilities(&mut self, result: Result<Json, String>)
        ensures
            final(self)@ == initialized(old(self)@, json::result_view(result)),
    {
        if let Ok(r) = result {
            self.capabilities = Some(r.at("capabilities"));
        }
    }

    /// Takes the answer to `initialize`, and gives the notification that
    /// follows it.
    pub fn initialize_reply(&mut self, result: &Json) -> (r: Json)
        ensures
            final(self)@ == initialized(old(self)@, decode::lsp_initialize_result(result@)),
            r@ == call::notification_message("initialized"@, JsonView::Object(Map::empty())),
    {
        self.set_capabilities(decode::initialize_result(result));
        notification("initialized", Fields::new().done())
    }

    /// The request that asks the server to get ready to stop.
    pub fn shutdown(&self) -> (r: Call)
        ensures
            r.deep_view() == call::call_of("shutdown"@, JsonView::Null),
    {
        make_call("shutdown", Json::Null)
    }

    /// The notification that stops the server.
    pub fn exit(&self) -> (r: Json)
        ensures
            r@ == call::notification_message("exit"@, JsonView::Null),
    {
        notification("exit", Json::Null)
    }
}

// ---------------------------------------------------------------------------
// Julia
// ---------------------------------------------------------------------------

impl LspClient {
    /// The notification that switches the Julia server to another project. Any
    /// other server is refused.
    pub fn julia_activate_environment(&self, env_path: &str) -> (r: Result<Json, String>)
        ensures
            match r {
                Ok(m) => self@.server_name == "julia-lsp"@ && m@ == call::notification_message(
                    "julia/activateenvironment"@,
                    JsonView::Object(map!["envPath"@ => JsonView::Str(env_path@)]),
                ),
                Err(e) => self@.server_name != "julia-lsp"@ && e@ == "server "@
                    + self@.server_name + " is not Julia LanguageServer"@,
            },
    {
        if !text::str_eq(self.server_name.as_str(), "julia-lsp") {
            return Err(
                "server ".to_string().concat(self.server_name.as_str()).concat(
                    " is not Julia LanguageServer",
                ),
            );
        }
        Ok(
            notification(
                "julia/activateenvironment",
                object1("envPath", Json::string(env_path)),
            ),
        )
    }

    /// The notification that has the Julia server rebuild its symbols. Any other
    /// server needs none.
    pub fn refresh_julia_language_server(&self) -> (r: Option<Json>)
        ensures
            match r {
                Some(m) => self@.server_name == "julia-lsp"@ && m@ == call::notification_message(
                    "julia/refreshLanguageServer"@,
                    JsonView::Null,
                ),
                None => self@.server_name != "julia-lsp"@,
            },
    {
        if !text::str_eq(self.server_name.as_str(), "julia-lsp") {
            return None;
        }
        Some(notification("julia/refreshLanguageServer", Json::Null))
    }
}

// ---------------------------------------------------------------------------
// Configuration and documents
// ---------------------------------------------------------------------------

/// Settings, or an empty object where there are none.
pub open spec fn settings_or_empty(settings: Option<JsonView>) -> JsonView {
    match settings {
        Some(s) => s,
        None => JsonView::Object(Map::empty()),
    }
}

/// Whether a server takes changes to a document piece by piece.
pub open spec fn supports_incremental(capabilities: Option<JsonView>) -> bool {
    match capabilities {
        Some(c) => c.at("textDocumentSync"@).as_i64() == Some(2i64) || c.at(
            "textDocumentSync"@,
        ).at("change"@).as_i64() == Some(2i64),
        None => false,
    }
}

/// The whole text of a document as one change.
pub open spec fn whole_text(text: Option<Seq<char>>) -> JsonView {
    JsonView::Array(
        seq![
            JsonView::Object(
                map![
                    "text"@ => JsonView::Str(
                        match text {
                            Some(t) => t,
                            None => Seq::empty(),
                        },
                    ),
                ],
            ),
        ],
    )
}

/// The changes to send: the given ones where the server takes them piece by
/// piece, and the whole text otherwise.
pub open spec fn content_changes(
    capabilities: Option<JsonView>,
    text: Option<Seq<char>>,
    changes: Option<Seq<JsonView>>,
) -> JsonView {
    match changes {
        Some(list) => if supports_incremental(capabilities) {
            JsonView::Array(list)
        } else {
            whole_text(text)
        },
        None => whole_text(text),
    }
}

/// The notification that a document was opened.
pub open spec fn did_open_message(
    uri: Seq<char>,
    language_id: Seq<char>,
    version: i32,
    text: Seq<char>,
) -> JsonView {
    call::notification_message(
        "textDocument/didOpen"@,
        JsonView::Object(
            map![
                "textDocument"@ => JsonView::Object(
                    map![
                        "uri"@ => JsonView::Str(uri),
                        "languageId"@ => JsonView::Str(language_id),
                        "version"@ => JsonView::Int(version as int),
                        "text"@ => JsonView::Str(text),
                    ],
                ),
            ],
        ),
    )
}

/// The notification that a document was changed.
pub open spec fn did_change_message(
    uri: Seq<char>,
    version: i32,
    changes: JsonView,
) -> JsonView {
    call::notification_message(
        "textDocument/didChange"@,
        JsonView::Object(
            map![
                "textDocument"@ => JsonView::Object(
                    map![
                        "uri"@ => JsonView::Str(uri),
                        "version"@ => JsonView::Int(version as int),
                    ],
                ),
                "contentChanges"@ => changes,
            ],
        ),
    )
}

/// The notification that a document was saved, with its text where that is
/// given.
pub open spec fn did_save_message(uri: Seq<char>, text: Option<Seq<char>>) -> JsonView {
    let m = map!["textDocument"@ => call::uri_view(uri)];
    call::notification_message(
        "textDocument/didSave"@,
        JsonView::Object(
            match text {
                Some(t) => m.insert("text"@, JsonView::Str(t)),
                None => m,
            },
        ),
    )
}

fn whole(text: Option<&str>) -> (r: Json)
    ensures
        r@ == whole_text(text::text_of(text)),
{
    let t = match text {
        Some(t) => Json::string(t),
        None => Json::Str(String::new()),
    };
    Json::array1(object1("text", t))
}

impl LspClient {
    /// Replaces the settings that the server may ask for, and gives the
    /// notification that has it ask again.
    pub fn did_change_configuration(&mut self, settings: Option<Json>) -> (r: Json)
        ensures
            final(self)@ == (ClientView {
                settings: settings_or_empty(
                    match settings {
                        Some(s) => Some(s@),
                        None => None,
                    },
                ),
                ..old(self)@
            }),
            r@ == call::notification_message(
                "workspace/didChangeConfiguration"@,
                JsonView::Object(map!["settings"@ => final(self)@.settings]),
            ),
    {
        let s = match settings {
            Some(s) => s,
            None => Fields::new().done(),
        };
        let message = notification(
            "workspace/didChangeConfiguration",
            object1("settings", s.copy()),
        );
        self.settings = s;
        message
    }

    /// The notification that a document was opened.
    pub fn did_open(&self, uri: &str, language_id: &str, version: i32, text: &str) -> (r: Json)
        ensures
            r@ == did_open_message(uri@, language_id@, version, text@),
    {
        let mut doc = Fields::new();
        doc.put_str("uri", uri);
        doc.put_str("languageId", language_id);
        doc.put("version", Json::integer(version as i64));
        doc.put_str("text", text);
        notification("textDocument/didOpen", object1("textDocument", doc.done()))
    }

    fn takes_pieces(&self) -> (r: bool)
        ensures
            r == supports_incremental(self@.capabilities),
    {
        match &self.capabilities {
            Some(c) => {
                let sync = c.at("textDocumentSync");
                let kind: Option<i64> = sync.as_i64();
                let change: Option<i64> = sync.int_at("change");
                (match kind {
                    Some(n) => n == 2,
                    None => false,
                }) || (match change {
                    Some(n) => n == 2,
                    None => false,
                })
            },
            None => false,
        }
    }

    /// The notification that a document was changed.
    pub fn did_change(
        &self,
        uri: &str,
        version: i32,
        text: Option<&str>,
        changes: Option<Vec<Json>>,
    ) -> (r: Json)
        ensures
            r@ == did_change_message(
                uri@,
                version,
                content_changes(
                    self@.capabilities,
                    text::text_of(text),
                    match changes {
                        Some(list) => Some(json::items_view(list@)),
                        None => None,
                    },
                ),
            ),
    {
        let content = match changes {
            Some(list) => if self.takes_pieces() {
                Json::array(list)
            } else {
                whole(text)
            },
            None => whole(text),
        };
        let mut doc = Fields::new();
        doc.put_str("uri", uri);
        doc.put("version", Json::integer(version as i64));
        let mut f = Fields::new();
        f.put("textDocument", doc.done());
        f.put("contentChanges", content);
        notification("textDocument/didChange", f.done())
    }

    /// The notification that a document was saved.
    pub fn did_save(&self, uri: &str, text: Option<&str>) -> (r: Json)
        ensures
            r@ == did_save_message(uri@, text::text_of(text)),
    {
        let mut f = document_fields(uri);
        if let Some(t) = text {
            f.put_str("text", t);
        }
        notification("textDocument/didSave", f.done())
    }

    /// The notification that a document was closed.
    pub fn did_close(&self, uri: &str) -> (r: Json)
        ensures
            r@ == call::notification_message(
                "textDocument/didClose"@,
                call::document_params(uri@),
            ),
    {
        notification("textDocument/didClose", document_fields(uri).done())
    }
}

// ---------------------------------------------------------------------------
// Watched files
// ---------------------------------------------------------------------------

/// How long a change is remembered, in nanoseconds.
pub const REMEMBER_NS: u64 = 2_000_000_000;

/// How long a repeated change is held back, in nanoseconds.
pub const REPEAT_NS: u64 = 250_000_000;

/// The times at which changes were passed on, after some more were offered.
pub open spec fn times_after(
    times: Map<(Seq<char>, u32), u64>,
    changes: Seq<(Seq<char>, u32)>,
    now: u64,
) -> Map<(Seq<char>, u32), u64>
    decreases changes.len(),
{
    if changes.len() == 0 {
        times
    } else {
        let before = times_after(times, changes.drop_last(), now);
        if recent::just_seen(before, changes.last(), now, REPEAT_NS) {
            before
        } else {
            before.insert(changes.last(), now)
        }
    }
}

/// The changes that are passed on: those that were not passed on a moment ago.
pub open spec fn passed_on(
    times: Map<(Seq<char>, u32), u64>,
    changes: Seq<(Seq<char>, u32)>,
    now: u64,
) -> Seq<(Seq<char>, u32)>
    decreases changes.len(),
{
    if changes.len() == 0 {
        Seq::empty()
    } else {
        let rest = changes.drop_last();
        let before = times_after(times, rest, now);
        if recent::just_seen(before, changes.last(), now, REPEAT_NS) {
            passed_on(times, rest, now)
        } else {
            passed_on(times, rest, now).push(changes.last())
        }
    }
}

/// Whether the server asked to be told of changes to files.
pub open spec fn watches_files(c: ClientView) -> bool {
    c.registered.contains("workspace/didChangeWatchedFiles"@)
}

/// The changes that are passed on to a client's server.
pub open spec fn told_changes(
    c: ClientView,
    changes: Seq<(Seq<char>, u32)>,
    now: u64,
) -> Seq<(Seq<char>, u32)> {
    if watches_files(c) {
        passed_on(recent::recent_within(c.watched, now, REMEMBER_NS), changes, now)
    } else {
        Seq::empty()
    }
}

/// A client after changes to files were offered to it.
pub open spec fn told(c: ClientView, changes: Seq<(Seq<char>, u32)>, now: u64) -> ClientView {
    if watches_files(c) {
        ClientView {
            watched: times_after(
                recent::recent_within(c.watched, now, REMEMBER_NS),
                changes,
                now,
            ),
            ..c
        }
    } else {
        c
    }
}

/// The notification that files were changed.
pub open spec fn watched_message(changes: Seq<(Seq<char>, u32)>) -> JsonView {
    call::notification_message(
        "workspace/didChangeWatchedFiles"@,
        JsonView::Object(
            map![
                "changes"@ => JsonView::Array(
                    Seq::new(
                        changes.len(),
                        |i: int|
                            JsonView::Object(
                                map![
                                    "uri"@ => JsonView::Str(changes[i].0),
                                    "type"@ => JsonView::Int(changes[i].1 as int),
                                ],
                            ),
                    ),
                ),
            ],
        ),
    )
}

fn change_json(change: &FileChange) -> (r: Json)
    ensures
        r@ == JsonView::Object(
            map![
                "uri"@ => JsonView::Str(change.deep_view().0),
                "type"@ => JsonView::Int(change.deep_view().1 as int),
            ],
        ),
{
    let mut f = Fields::new();
    f.put_str("uri", change.uri.as_str());
    f.put_u64("type", change.change_type as u64);
    f.done()
}

impl LspClient {
    /// Tells the server of changes to files, where it asked for them and was not
    /// told of them a moment ago. `now` is a time in nanoseconds.
    pub fn did_change_watched_files(&mut self, changes: &Vec<FileChange>, now: u64) -> (r: Option<
        Json,
    >)
        ensures
            final(self)@ == told(old(self)@, changes.deep_view(), now),
            match r {
                Some(m) => told_changes(old(self)@, changes.deep_view(), now).len() > 0 && m@
                    == watched_message(told_changes(old(self)@, changes.deep_view(), now)),
                None => told_changes(old(self)@, changes.deep_view(), now).len() == 0,
            },
    {
        if !text::list_contains(&self.registered_methods, "workspace/didChangeWatchedFiles") {
            return None;
        }
        let ghost c = self@;
        let ghost all = changes.deep_view();
        self.watched_file_notifications.keep_within(now, REMEMBER_NS);
        let ghost times = recent::recent_within(c.watched, now, REMEMBER_NS);
        let mut fresh: Vec<Json> = Vec::new();
        let mut i: usize = 0;
        let ghost start = *self;
        proof {
            assert(all.take(0) =~= Seq::<(Seq<char>, u32)>::empty());
        }
        let ghost mut passed = Seq::<(Seq<char>, u32)>::empty();
        while i < changes.len()
            invariant
                i <= changes@.len(),
                all == changes.deep_view(),
                times == recent::recent_within(c.watched, now, REMEMBER_NS),
                self@ == (ClientView {
                    watched: times_after(times, all.take(i as int), now),
                    ..c
                }),
                passed == passed_on(times, all.take(i as int), now),
                fresh@.len() == passed.len(),
                forall|k: int|
                    0 <= k < fresh@.len() ==> (#[trigger] fresh@[k])@ == JsonView::Object(
                        map![
                            "uri"@ => JsonView::Str(passed[k].0),
                            "type"@ => JsonView::Int(passed[k].1 as int),
                        ],
                    ),
            decreases changes@.len() - i,
        {
            let change = &changes[i];
            proof {
                assert(all.take(i + 1).drop_last() =~= all.take(i as int));
                assert(all.take(i + 1).last() == change.deep_view());
            }
            let held = match self.watched_file_notifications.time_of(change) {
                Some(seen) => now < seen || now - seen < REPEAT_NS,
                None => false,
            };
            if !held {
                self.watched_file_notifications.note(change, now);
                fresh.push(change_json(change));
                proof {
                    passed = passed.push(change.deep_view());
                }
            }
            i = i + 1;
        }
        assert(all.take(i as int) =~= all);
        if fresh.len() == 0 {
            return None;
        }
        assert(json::items_view(fresh@) =~= Seq::new(
            passed.len(),
            |k: int|
                JsonView::Object(
                    map![
                        "uri"@ => JsonView::Str(passed[k].0),
                        "type"@ => JsonView::Int(passed[k].1 as int),
                    ],
                ),
        ));
        Some(
            notification(
                "workspace/didChangeWatchedFiles",
                object1("changes", Json::array(fresh)),
            ),
        )
    }

    /// Tells the server that one file was changed.
    pub fn did_change_watched_file(&mut self, uri: &str, now: u64) -> (r: Option<Json>)
        ensures
            final(self)@ == told(old(self)@, seq![(uri@, 2u32)], now),
            match r {
                Some(m) => told_changes(old(self)@, seq![(uri@, 2u32)], now).len() > 0 && m@
                    == watched_message(told_changes(old(self)@, seq![(uri@, 2u32)], now)),
                None => told_changes(old(self)@, seq![(uri@, 2u32)], now).len() == 0,
            },
    {
        let mut changes: Vec<FileChange> = Vec::new();
        changes.push(FileChange { uri: uri.to_string(), change_type: 2 });
        assert(changes.deep_view() =~= seq![(uri@, 2u32)]);
        self.did_change_watched_files(&changes, now)
    }
}

/// A change that a server was told of is held back when it is offered again
/// within a quarter of a second.
pub proof fn law_repeated_change_is_held_back(
    c: ClientView,
    change: (Seq<char>, u32),
    first: u64,
    second: u64,
)
    requires
        told_changes(c, seq![change], first).len() > 0,
        first <= second,
        second - first < REPEAT_NS,
    ensures
        told_changes(told(c, seq![change], first), seq![change], second).len() == 0,
{
    let s = seq![change];
    assert(s.drop_last() =~= Seq::<(Seq<char>, u32)>::empty());
    assert(s.last() == change);
    reveal_with_fuel(times_after, 2);
    reveal_with_fuel(passed_on, 2);
    let a = recent::recent_within(c.watched, first, REMEMBER_NS);
    let t1 = times_after(a, s, first);
    assert(t1.contains_key(change));
    let b = recent::recent_within(t1, second, REMEMBER_NS);
    assert(recent::just_seen(b, change, second, REPEAT_NS));
}

/// A change that was passed on a quarter of a second ago or longer is passed
/// on again.
pub proof fn law_later_change_is_passed_on(
    c: ClientView,
    change: (Seq<char>, u32),
    seen: u64,
    now: u64,
)
    requires
        watches_files(c),
        c.watched.contains_key(change),
        c.watched[change] == seen,
        now >= seen + REPEAT_NS,
    ensures
        told_changes(c, seq![change], now) == seq![change],
{
    let s = seq![change];
    assert(s.drop_last() =~= Seq::<(Seq<char>, u32)>::empty());
    assert(s.last() == change);
    reveal_with_fuel(times_after, 2);
    reveal_with_fuel(passed_on, 2);
    assert(passed_on(recent::recent_within(c.watched, now, REMEMBER_NS), s, now) =~= s);
}

/// A server that did not ask to be told of changes to files is told of none.
pub proof fn law_unregistered_server_is_not_told(
    c: ClientView,
    changes: Seq<(Seq<char>, u32)>,
    now: u64,
)
    requires
        !watches_files(c),
    ensures
        told_changes(c, changes, now).len() == 0,
        told(c, changes, now) == c,
{
}

} // verus!
