//! The workspace that the daemon serves, and what a request leads to in it.
//!
//! Nothing here waits, sends or reads a file. A request gives the action to
//! take; what comes of the action is told to the session.

use vstd::prelude::*;
use vstd::string::*;

use crate::config::{Config, ServerConfig};
use crate::daemon::request;
use crate::daemon::request::Request;
use crate::installer;
use crate::installer::ServerInfo;
use crate::json;
use crate::json::{Fields, Json, JsonView};
use crate::lsp::client::{ClientView, LspClient};
use crate::lsp::call;
use crate::lsp::sync;
use crate::registry;
use crate::registry::{EnsureStep, Registry, RegistryView, SettingsUpdate};
use crate::strmap::StrMap;
use crate::text;

verus! {

// ---------------------------------------------------------------------------
// Events
// ---------------------------------------------------------------------------

/// The event that a request failed.
pub open spec fn error_event_view(id: u64, message: Seq<char>) -> JsonView {
    JsonView::Object(
        map![
            "type"@ => JsonView::Str("error"@),
            "id"@ => JsonView::Int(id as int),
            "message"@ => JsonView::Str(message),
        ],
    )
}

/// The event that a request is done.
pub open spec fn done_event_view(kind: Seq<char>, id: u64) -> JsonView {
    JsonView::Object(map!["type"@ => JsonView::Str(kind), "id"@ => JsonView::Int(id as int)])
}

/// The event that answers a request with a value.
pub open spec fn value_event_view(
    kind: Seq<char>,
    id: u64,
    field: Seq<char>,
    value: JsonView,
) -> JsonView {
    JsonView::Object(
        map![
            "type"@ => JsonView::Str(kind),
            "id"@ => JsonView::Int(id as int),
            field => value,
        ],
    )
}

/// The event that a request failed.
pub fn error_event(id: u64, message: &str) -> (r: Json)
    ensures
        r@ == error_event_view(id, message@),
{
    let mut f = Fields::new();
    f.put_str("type", "error");
    f.put_u64("id", id);
    f.put_str("message", message);
    f.done()
}

/// The event that a request is done.
pub fn done_event(kind: &str, id: u64) -> (r: Json)
    ensures
        r@ == done_event_view(kind@, id),
{
    let mut f = Fields::new();
    f.put_str("type", kind);
    f.put_u64("id", id);
    f.done()
}

/// The event that answers a request with a value.
pub fn value_event(kind: &str, id: u64, field: &str, value: Json) -> (r: Json)
    ensures
        r@ == value_event_view(kind@, id, field@, value@),
{
    let mut f = Fields::new();
    f.put_str("type", kind);
    f.put_u64("id", id);
    f.put(field, value);
    f.done()
}

/// The event that answers a completion.
pub open spec fn completion_event_view(id: u64, generation: u64, items: JsonView) -> JsonView {
    JsonView::Object(
        map![
            "type"@ => JsonView::Str("completion"@),
            "id"@ => JsonView::Int(id as int),
            "generation"@ => JsonView::Int(generation as int),
            "items"@ => items,
        ],
    )
}

/// The event that answers a completion.
pub fn completion_event(id: u64, generation: u64, items: Json) -> (r: Json)
    ensures
        r@ == completion_event_view(id, generation, items@),
{
    let mut f = Fields::new();
    f.put_str("type", "completion");
    f.put_u64("id", id);
    f.put_u64("generation", generation);
    f.put("items", items);
    f.done()
}

/// Why a request has no server.
pub open spec fn no_server_text(language_id: Seq<char>) -> Seq<char> {
    "no active language server for filetype: "@ + language_id
}

// ---------------------------------------------------------------------------
// State
// ---------------------------------------------------------------------------

/// The workspace, where there is one, and the filetypes of its documents.
pub struct Daemon {
    pub registry: Option<Registry>,
    /// Filetype of each open document.
    pub uri_ft: StrMap<String>,
}

/// The model of [`Daemon`].
#[verifier::ext_equal]
pub struct DaemonView {
    pub registry: Option<RegistryView>,
    pub filetypes: Map<Seq<char>, Seq<char>>,
}

/// The model of a registry, where there is one.
pub open spec fn registry_view(r: Option<Registry>) -> Option<RegistryView> {
    match r {
        Some(r) => Some(r@),
        None => None,
    }
}

impl Daemon {
    /// The daemon's state as a mathematical object.
    pub open spec fn view(&self) -> DaemonView {
        DaemonView { registry: registry_view(self.registry), filetypes: self.uri_ft@ }
    }
}

/// The state without a workspace.
pub open spec fn no_workspace() -> DaemonView {
    DaemonView { registry: None, filetypes: Map::empty() }
}

/// The state of a workspace that was just opened.
pub open spec fn new_workspace(config: Config, root: Seq<char>) -> DaemonView {
    DaemonView {
        registry: Some(
            RegistryView {
                servers: config@,
                clients: Map::empty(),
                ft_map: Map::empty(),
                root_dir: root,
            },
        ),
        filetypes: Map::empty(),
    }
}

/// The running primary server of a filetype.
pub open spec fn primary_of(d: DaemonView, language_id: Seq<char>, alive: Seq<u64>) -> Option<u64> {
    match d.registry {
        Some(r) => registry::client_for(r, language_id, alive),
        None => None,
    }
}

/// The running servers of a filetype.
pub open spec fn servers_of(d: DaemonView, filetype: Seq<char>, alive: Seq<u64>) -> Seq<u64> {
    match d.registry {
        Some(r) => registry::clients_for(r, filetype, alive),
        None => Seq::empty(),
    }
}

/// The running servers of a document.
pub open spec fn document_servers(d: DaemonView, uri: Seq<char>, alive: Seq<u64>) -> Seq<u64> {
    if d.filetypes.contains_key(uri) {
        servers_of(d, d.filetypes[uri], alive)
    } else {
        Seq::empty()
    }
}

/// Whether a list holds every server that runs, in any order.
pub open spec fn is_every_server(list: Seq<u64>, d: DaemonView) -> bool {
    match d.registry {
        Some(r) => registry::is_all_clients(list, r.clients),
        None => list.len() == 0,
    }
}

/// Whether a list holds every server that is alive, in any order.
pub open spec fn is_every_live_server(list: Seq<u64>, d: DaemonView, alive: Seq<u64>) -> bool {
    match d.registry {
        Some(r) => registry::is_active_clients(list, r, alive),
        None => list.len() == 0,
    }
}

// ---------------------------------------------------------------------------
// Actions
// ---------------------------------------------------------------------------

/// What to do about a request.
pub enum Action {
    /// Send an event to the editor.
    Reply(Json),
    /// Load the configuration, and hand it to [`Daemon::initialize`] or
    /// [`Daemon::reload`].
    LoadConfiguration,
    /// Stop watching files, stop servers, then send an event to the editor.
    Stop { servers: Vec<u64>, event: Json },
    /// Send servers their settings, and answer with [`reloaded`].
    Update(Vec<SettingsUpdate>),
    /// Begin a feature with a server.
    Ask(u64),
    /// Tell servers of a document, and others that its file was changed.
    Tell { servers: Vec<u64>, watchers: Vec<u64> },
    /// Start a server, then tell the servers of the filetype of the document.
    Start { name: String, server: ServerConfig },
    /// Install a server, and answer with [`install_result`].
    Install,
    /// Look at the installed servers, and answer with [`installable_servers`].
    ListServers,
}

/// Whether an action sends an event and nothing else.
pub open spec fn replies(a: Action, event: JsonView) -> bool {
    a matches Action::Reply(e) && e@ == event
}

/// Whether an action tells servers of a document and nothing else.
pub open spec fn tells(a: Action, servers: Seq<u64>) -> bool {
    a matches Action::Tell { servers: s, watchers } && s@ == servers && watchers@.len() == 0
}

/// Whether an action stops every server, and then sends an event.
pub open spec fn stops(a: Action, d: DaemonView, event: JsonView) -> bool {
    a matches Action::Stop { servers, event: e } && e@ == event && is_every_server(servers@, d)
}

/// Whether an action begins a feature with a server, or sends an event where
/// there is none.
pub open spec fn asks(a: Action, server: Option<u64>, missing: JsonView) -> bool {
    match server {
        Some(h) => a matches Action::Ask(n) && n == h,
        None => replies(a, missing),
    }
}

/// The event that a request ends with where no server handles its filetype. The
/// editor shows an empty popup menu for a completion.
pub open spec fn missing_event(req: Request) -> JsonView {
    match req {
        Request::Completion { id, .. } => completion_event_view(
            id,
            0,
            JsonView::Array(Seq::empty()),
        ),
        _ => error_event_view(req.spec_id(), no_server_text(req.spec_language())),
    }
}

/// Whether an action is right for a request of a Julia buffer.
pub open spec fn is_julia_action(
    a: Action,
    d: DaemonView,
    req: Request,
    wrong_buffer: Seq<char>,
    alive: Seq<u64>,
) -> bool {
    if req.spec_language() != "julia"@ {
        replies(a, error_event_view(req.spec_id(), wrong_buffer))
    } else {
        asks(
            a,
            primary_of(d, "julia"@, alive),
            error_event_view(req.spec_id(), "Julia language server is not running"@),
        )
    }
}

/// Whether an action, and the state after it, are right for a document that was
/// opened.
pub open spec fn is_open_action(
    a: Action,
    before: DaemonView,
    after: DaemonView,
    uri: Seq<char>,
    filetype: Seq<char>,
    alive: Seq<u64>,
) -> bool {
    &&& after.filetypes == before.filetypes.insert(uri, filetype)
    &&& match (before.registry, after.registry) {
        (Some(r), Some(s)) => {
            let live = registry::pruned(r, alive);
            match a {
                Action::Start { name, server } => registry::is_ensure_step(
                    EnsureStep::Start { name, server },
                    live,
                    s,
                    filetype,
                ),
                Action::Tell { servers, watchers } => {
                    &&& watchers@.len() == 0
                    &&& {
                        ||| servers@.len() == 0 && registry::is_ensure_step(
                            EnsureStep::NoServer,
                            live,
                            s,
                            filetype,
                        )
                        ||| servers@ == registry::clients_for(s, filetype, alive)
                            && exists|name: String| #[trigger]
                            registry::is_ensure_step(EnsureStep::Ready(name), live, s, filetype)
                    }
                },
                _ => false,
            }
        },
        (None, None) => tells(a, Seq::empty()),
        _ => false,
    }
}

/// Whether an action, and the state after it, are right for a request.
pub open spec fn is_action(
    a: Action,
    before: DaemonView,
    after: DaemonView,
    req: Request,
    alive: Seq<u64>,
) -> bool {
    match req {
        Request::Initialize { .. } => a is LoadConfiguration && after == before,
        Request::Shutdown { id } => {
            &&& stops(a, before, done_event_view("shutdown"@, id))
            &&& after == no_workspace()
        },
        Request::JuliaActivateEnvironment { .. } => {
            &&& is_julia_action(
                a,
                before,
                req,
                "Julia environment activation requires a Julia buffer"@,
                alive,
            )
            &&& after == before
        },
        Request::JuliaRefreshLanguageServer { .. } => {
            &&& is_julia_action(
                a,
                before,
                req,
                "Julia language server refresh requires a Julia buffer"@,
                alive,
            )
            &&& after == before
        },
        Request::ReloadConfiguration { id, .. } => {
            &&& match before.registry {
                Some(_) => a is LoadConfiguration,
                None => replies(a, error_event_view(id, "SimpleCC is not initialized"@)),
            }
            &&& after == before
        },
        Request::DidOpen { uri, language_id, .. } => is_open_action(
            a,
            before,
            after,
            uri@,
            language_id@,
            alive,
        ),
        Request::DidChange { uri, .. } => {
            &&& tells(a, document_servers(before, uri@, alive))
            &&& after == before
        },
        Request::DidSave { uri, .. } => {
            &&& a matches Action::Tell { servers, watchers }
            &&& servers@ == document_servers(before, uri@, alive)
            &&& is_every_live_server(watchers@, before, alive)
            &&& after == before
        },
        Request::DidClose { uri, .. } => {
            &&& tells(a, document_servers(before, uri@, alive))
            &&& after == (DaemonView { filetypes: before.filetypes.remove(uri@), ..before })
        },
        Request::InstallServer { .. } => a is Install && after == before,
        Request::ListInstallable { .. } => a is ListServers && after == before,
        _ => {
            &&& asks(a, primary_of(before, req.spec_language(), alive), missing_event(req))
            &&& after == before
        },
    }
}

fn no_servers() -> (r: Vec<u64>)
    ensures
        r@ == Seq::<u64>::empty(),
{
    let out: Vec<u64> = Vec::new();
    assert(out@ =~= Seq::<u64>::empty());
    out
}

impl Daemon {
    /// A daemon without a workspace.
    pub fn new() -> (r: Daemon)
        ensures
            r@ == no_workspace(),
    {
        Daemon { registry: None, uri_ft: StrMap::new() }
    }

    /// The primary server of a filetype.
    pub fn primary_client(&self, language_id: &str, alive: &Vec<u64>) -> (r: Option<u64>)
        ensures
            r == primary_of(self@, language_id@, alive@),
    {
        match &self.registry {
            Some(reg) => reg.client_for_filetype(language_id, alive),
            None => None,
        }
    }

    /// The primary server of a filetype, or the event that ends a request where
    /// there is none. A request that ended without one would leave the editor
    /// waiting for an answer that cannot come.
    pub fn primary_client_or_error(&self, id: u64, language_id: &str, alive: &Vec<u64>) -> (r:
        Result<u64, Json>)
        ensures
            match r {
                Ok(h) => primary_of(self@, language_id@, alive@) == Some(h),
                Err(e) => primary_of(self@, language_id@, alive@) is None && e@
                    == error_event_view(id, no_server_text(language_id@)),
            },
    {
        match self.primary_client(language_id, alive) {
            Some(h) => Ok(h),
            None => {
                let message = "no active language server for filetype: ".to_string().concat(
                    language_id,
                );
                Err(error_event(id, message.as_str()))
            },
        }
    }

    /// The servers of a filetype.
    pub fn filetype_clients(&self, filetype: &str, alive: &Vec<u64>) -> (r: Vec<u64>)
        ensures
            r@ == servers_of(self@, filetype@, alive@),
    {
        match &self.registry {
            Some(reg) => reg.clients_for_filetype(filetype, alive),
            None => no_servers(),
        }
    }

    /// The servers of a document.
    fn document_clients(&self, uri: &str, alive: &Vec<u64>) -> (r: Vec<u64>)
        ensures
            r@ == document_servers(self@, uri@, alive@),
    {
        match self.uri_ft.get(uri) {
            Some(ft) => self.filetype_clients(ft.as_str(), alive),
            None => no_servers(),
        }
    }

    /// All servers that are alive, in any order.
    pub fn active_clients(&self, alive: &Vec<u64>) -> (r: Vec<u64>)
        ensures
            is_every_live_server(r@, self@, alive@),
    {
        match &self.registry {
            Some(reg) => reg.active_clients(alive),
            None => no_servers(),
        }
    }

    fn stop_all(&mut self) -> (r: Vec<u64>)
        ensures
            is_every_server(r@, old(self)@),
            final(self)@ == no_workspace(),
    {
        let mut none: Option<Registry> = None;
        std::mem::swap(&mut none, &mut self.registry);
        self.uri_ft = StrMap::new();
        match none {
            Some(mut reg) => reg.shutdown_all(),
            None => no_servers(),
        }
    }

    fn julia_action(&self, req: &Request, wrong_buffer: &str, alive: &Vec<u64>) -> (r: Action)
        ensures
            is_julia_action(r, self@, *req, wrong_buffer@, alive@),
    {
        if !text::str_eq(req.language(), "julia") {
            return Action::Reply(error_event(req.id(), wrong_buffer));
        }
        match self.primary_client("julia", alive) {
            Some(h) => Action::Ask(h),
            None => Action::Reply(
                error_event(req.id(), "Julia language server is not running"),
            ),
        }
    }

    fn open_document(&mut self, uri: &str, language_id: &str, alive: &Vec<u64>) -> (r: Action)
        ensures
            is_open_action(r, old(self)@, final(self)@, uri@, language_id@, alive@),
    {
        self.uri_ft.insert(uri, language_id.to_string());
        let mut taken: Option<Registry> = None;
        std::mem::swap(&mut taken, &mut self.registry);
        match taken {
            Some(mut reg) => {
                let step = reg.ensure_server(language_id, alive);
                let action = match step {
                    EnsureStep::Ready(name) => {
                        let servers = reg.clients_for_filetype(language_id, alive);
                        assert(registry::is_ensure_step(
                            EnsureStep::Ready(name),
                            registry::pruned(old(self)@.registry->0, alive@),
                            reg@,
                            language_id@,
                        ));
                        Action::Tell { servers, watchers: no_servers() }
                    },
                    EnsureStep::NoServer => Action::Tell {
                        servers: no_servers(),
                        watchers: no_servers(),
                    },
                    EnsureStep::Start { name, server } => Action::Start { name, server },
                };
                self.registry = Some(reg);
                action
            },
            None => Action::Tell { servers: no_servers(), watchers: no_servers() },
        }
    }

    /// Finds what to do about a request. `alive` lists the servers whose
    /// connection is open.
    pub fn handle_request(&mut self, req: &Request, alive: &Vec<u64>) -> (r: Action)
        ensures
            is_action(r, old(self)@, final(self)@, *req, alive@),
    {
        match req {
            Request::Initialize { .. } => Action::LoadConfiguration,
            Request::Shutdown { id } => {
                let servers = self.stop_all();
                Action::Stop { servers, event: done_event("shutdown", *id) }
            },
            Request::JuliaActivateEnvironment { .. } => self.julia_action(
                req,
                "Julia environment activation requires a Julia buffer",
                alive,
            ),
            Request::JuliaRefreshLanguageServer { .. } => self.julia_action(
                req,
                "Julia language server refresh requires a Julia buffer",
                alive,
            ),
            Request::ReloadConfiguration { id, .. } => match &self.registry {
                Some(_) => Action::LoadConfiguration,
                None => Action::Reply(error_event(*id, "SimpleCC is not initialized")),
            },
            Request::DidOpen { uri, language_id, .. } => self.open_document(
                uri.as_str(),
                language_id.as_str(),
                alive,
            ),
            Request::DidChange { uri, .. } => Action::Tell {
                servers: self.document_clients(uri.as_str(), alive),
                watchers: no_servers(),
            },
            Request::DidSave { uri, .. } => Action::Tell {
                servers: self.document_clients(uri.as_str(), alive),
                watchers: self.active_clients(alive),
            },
            Request::DidClose { uri, .. } => {
                let servers = self.document_clients(uri.as_str(), alive);
                self.uri_ft.remove(uri.as_str());
                Action::Tell { servers, watchers: no_servers() }
            },
            Request::InstallServer { .. } => Action::Install,
            Request::ListInstallable { .. } => Action::ListServers,
            Request::Completion { id, language_id, .. } => match self.primary_client(
                language_id.as_str(),
                alive,
            ) {
                Some(h) => Action::Ask(h),
                None => {
                    let none: Vec<Json> = Vec::new();
                    assert(json::items_view(none@) =~= Seq::<JsonView>::empty());
                    Action::Reply(completion_event(*id, 0, Json::array(none)))
                },
            },
            _ => match self.primary_client_or_error(req.id(), req.language(), alive) {
                Ok(h) => Action::Ask(h),
                Err(event) => Action::Reply(event),
            },
        }
    }
}

// ---------------------------------------------------------------------------
// What comes of an action
// ---------------------------------------------------------------------------

/// The error of a workspace whose configuration could not be loaded.
pub open spec fn load_error_text(error: Seq<char>) -> Seq<char> {
    "failed to load SimpleCC configuration: "@ + error
}

/// The event that a configuration was taken, or why it was not.
pub open spec fn reloaded_view(id: u64, count: usize, error: Option<Seq<char>>) -> JsonView {
    match error {
        Some(e) => error_event_view(id, e),
        None => value_event_view(
            "configurationReloaded"@,
            id,
            "servers"@,
            JsonView::Int(count as int),
        ),
    }
}

/// The event that ends a change of configuration: how many servers got new
/// settings, or why one of them could not be told.
pub fn reloaded(id: u64, count: usize, error: Option<&str>) -> (r: Json)
    ensures
        r@ == reloaded_view(id, count, text::text_of(error)),
{
    match error {
        Some(e) => error_event(id, e),
        None => value_event("configurationReloaded", id, "servers", Json::UInt(count as u64)),
    }
}

/// Whether an action sends each server its settings from a configuration.
pub open spec fn updates(a: Action, r: RegistryView) -> bool {
    a matches Action::Update(list) && exists|keys: Seq<Seq<char>>|
        json::arranges(keys, r.clients.dom()) && list.deep_view()
            == #[trigger] registry::updates_in(keys, r.clients, r.servers)
}

impl Daemon {
    /// Opens a workspace with the configuration that was loaded. A configuration
    /// that could not be loaded leaves the workspace before it alone.
    pub fn initialize(&mut self, id: u64, root: &str, config: Result<Config, String>) -> (r: Action)
        ensures
            match config {
                Ok(c) => {
                    &&& stops(r, old(self)@, done_event_view("initialized"@, id))
                    &&& final(self)@ == new_workspace(c, root@)
                },
                Err(e) => {
                    &&& replies(r, error_event_view(id, load_error_text(e@)))
                    &&& final(self)@ == old(self)@
                },
            },
    {
        match config {
            Ok(c) => {
                let servers = self.stop_all();
                self.registry = Some(Registry::new(c, root));
                Action::Stop { servers, event: done_event("initialized", id) }
            },
            Err(e) => {
                let message = "failed to load SimpleCC configuration: ".to_string().concat(
                    e.as_str(),
                );
                Action::Reply(error_event(id, message.as_str()))
            },
        }
    }

    /// Takes the configuration that was loaded for a running workspace. One that
    /// could not be loaded leaves the one before it in place.
    pub fn reload(&mut self, id: u64, config: Result<Config, String>, alive: &Vec<u64>) -> (r:
        Action)
        ensures
            final(self)@.filetypes == old(self)@.filetypes,
            match (old(self)@.registry, config) {
                (Some(before), Ok(c)) => {
                    &&& final(self)@.registry == Some(
                        RegistryView { servers: c@, ..registry::pruned(before, alive@) },
                    )
                    &&& updates(r, final(self)@.registry->0)
                },
                (Some(before), Err(e)) => {
                    &&& final(self)@.registry == Some(registry::pruned(before, alive@))
                    &&& final(self)@.registry->0.servers == before.servers
                    &&& replies(r, error_event_view(id, e@))
                },
                (None, _) => {
                    &&& final(self)@.registry is None
                    &&& replies(r, error_event_view(id, "SimpleCC is not initialized"@))
                },
            },
    {
        let mut taken: Option<Registry> = None;
        std::mem::swap(&mut taken, &mut self.registry);
        match taken {
            Some(mut reg) => match config {
                Ok(c) => {
                    let list = reg.reload_configuration(c, alive);
                    assert(reg@.servers == c@);
                    assert(updates(Action::Update(list), reg@));
                    self.registry = Some(reg);
                    Action::Update(list)
                },
                Err(e) => {
                    reg.prune_dead_clients(alive);
                    self.registry = Some(reg);
                    Action::Reply(error_event(id, e.as_str()))
                },
            },
            None => Action::Reply(error_event(id, "SimpleCC is not initialized")),
        }
    }

    /// Takes note that a server was started for a filetype, and gives the event
    /// that says so.
    pub fn started(&mut self, filetype: &str, name: &str, handle: u64) -> (r: Option<Json>)
        ensures
            final(self)@.filetypes == old(self)@.filetypes,
            match old(self)@.registry {
                Some(before) => {
                    &&& r matches Some(e) && e@ == registry::status_event_view(
                        name@,
                        "running"@,
                        None,
                    )
                    &&& final(self)@.registry == Some(
                        registry::with_server(
                            RegistryView {
                                clients: before.clients.insert(name@, handle),
                                ..before
                            },
                            filetype@,
                            name@,
                        ),
                    )
                },
                None => r is None && final(self)@ == old(self)@,
            },
    {
        let mut taken: Option<Registry> = None;
        std::mem::swap(&mut taken, &mut self.registry);
        match taken {
            Some(mut reg) => {
                let event = reg.started(filetype, name, handle);
                self.registry = Some(reg);
                Some(event)
            },
            None => None,
        }
    }

    /// Takes note that a server was installed, so that it can be started.
    pub fn installed(&mut self, name: &str, command: &str)
        ensures
            final(self)@.filetypes == old(self)@.filetypes,
            match old(self)@.registry {
                Some(before) => final(self)@.registry == Some(
                    registry::with_command(before, name@, command@),
                ),
                None => final(self)@.registry is None,
            },
    {
        let mut taken: Option<Registry> = None;
        std::mem::swap(&mut taken, &mut self.registry);
        if let Some(mut reg) = taken {
            reg.update_server_command(name, command);
            self.registry = Some(reg);
        }
    }
}

/// The event that ends an installation.
pub open spec fn install_result_view(
    id: u64,
    server: Seq<char>,
    outcome: Result<Seq<char>, Seq<char>>,
) -> JsonView {
    let m = map![
        "type"@ => JsonView::Str("installResult"@),
        "id"@ => JsonView::Int(id as int),
        "server"@ => JsonView::Str(server),
    ];
    JsonView::Object(
        match outcome {
            Ok(path) => m.insert("status"@, JsonView::Str("ok"@)).insert(
                "path"@,
                JsonView::Str(path),
            ),
            Err(e) => m.insert("status"@, JsonView::Str("error"@)).insert(
                "message"@,
                JsonView::Str(e),
            ),
        },
    )
}

/// The event that ends an installation: where the server is, or why there is
/// none.
pub fn install_result(id: u64, server: &str, outcome: Result<&str, &str>) -> (r: Json)
    ensures
        r@ == install_result_view(
            id,
            server@,
            match outcome {
                Ok(path) => Ok(path@),
                Err(e) => Err(e@),
            },
        ),
{
    let mut f = Fields::new();
    f.put_str("type", "installResult");
    f.put_u64("id", id);
    f.put_str("server", server);
    match outcome {
        Ok(path) => {
            f.put_str("status", "ok");
            f.put_str("path", path);
        },
        Err(e) => {
            f.put_str("status", "error");
            f.put_str("message", e);
        },
    }
    f.done()
}

/// The event that lists the servers that can be installed.
pub fn installable_servers(id: u64, servers: &Vec<ServerInfo>) -> (r: Json)
    ensures
        r@ == value_event_view(
            "installableServers"@,
            id,
            "servers"@,
            JsonView::Array(
                Seq::new(servers@.len(), |i: int| installer::info_wire(servers@[i].deep_view())),
            ),
        ),
{
    let mut items: Vec<Json> = Vec::new();
    let mut i: usize = 0;
    while i < servers.len()
        invariant
            i <= servers@.len(),
            items@.len() == i,
            forall|k: int|
                0 <= k < i ==> (#[trigger] items@[k])@ == installer::info_wire(
                    servers@[k].deep_view(),
                ),
        decreases servers@.len() - i,
    {
        items.push(servers[i].to_json());
        i = i + 1;
    }
    assert(json::items_view(items@) =~= Seq::new(
        servers@.len(),
        |i: int| installer::info_wire(servers@[i].deep_view()),
    ));
    value_event("installableServers", id, "servers", Json::array(items))
}

// ---------------------------------------------------------------------------
// Documents
// ---------------------------------------------------------------------------

/// What a server is told of a document.
pub open spec fn document_message_view(c: ClientView, req: Request) -> Option<JsonView> {
    match req {
        Request::DidOpen { uri, language_id, version, text, .. } => Some(
            sync::did_open_message(uri@, language_id@, version, text@),
        ),
        Request::DidChange { uri, version, text, changes, .. } => Some(
            sync::did_change_message(
                uri@,
                version,
                sync::content_changes(
                    c.capabilities,
                    text.deep_view(),
                    match changes {
                        Some(list) => Some(json::items_view(list@)),
                        None => None,
                    },
                ),
            ),
        ),
        Request::DidSave { uri, text, .. } => Some(
            sync::did_save_message(uri@, text.deep_view()),
        ),
        Request::DidClose { uri, .. } => Some(
            call::notification_message("textDocument/didClose"@, call::document_params(uri@)),
        ),
        _ => None,
    }
}

fn text_ref(t: &Option<String>) -> (r: Option<&str>)
    ensures
        text::text_of(r) == t.deep_view(),
{
    match t {
        Some(s) => Some(s.as_str()),
        None => None,
    }
}

/// Writes what a server is told of a document.
pub fn document_message(client: &LspClient, req: &Request) -> (r: Option<Json>)
    ensures
        r.deep_view() == document_message_view(client@, *req),
{
    match req {
        Request::DidOpen { uri, language_id, version, text, .. } => Some(
            client.did_open(uri.as_str(), language_id.as_str(), *version, text.as_str()),
        ),
        Request::DidChange { uri, version, text, changes, .. } => {
            let list = match changes {
                Some(items) => Some(crate::lsp::client::copy_items(items)),
                None => None,
            };
            Some(client.did_change(uri.as_str(), *version, text_ref(text), list))
        },
        Request::DidSave { uri, text, .. } => Some(client.did_save(uri.as_str(), text_ref(text))),
        Request::DidClose { uri, .. } => Some(client.did_close(uri.as_str())),
        _ => None,
    }
}

// ---------------------------------------------------------------------------
// Laws
// ---------------------------------------------------------------------------

/// A request for a feature that no server handles is still answered, under its
/// own number, so that the editor never waits for an answer that cannot come.
pub proof fn law_missing_server_is_reported(
    a: Action,
    before: DaemonView,
    after: DaemonView,
    req: Request,
    alive: Seq<u64>,
)
    requires
        is_action(a, before, after, req, alive),
        request::is_feature(req),
        primary_of(before, req.spec_language(), alive) is None,
    ensures
        a matches Action::Reply(e) && e@.at("id"@) == JsonView::Int(req.spec_id() as int),
        after == before,
{
    lemma_event_keys();
}

/// The names of an event's members are told apart.
proof fn lemma_event_keys()
    ensures
        "type"@ != "id"@,
        "message"@ != "id"@,
        "generation"@ != "id"@,
        "items"@ != "id"@,
{
    reveal_strlit("type");
    reveal_strlit("id");
    reveal_strlit("message");
    reveal_strlit("generation");
    reveal_strlit("items");
    assert("id"@.len() == 2);
    assert("type"@.len() == 4);
    assert("message"@.len() == 7);
    assert("generation"@.len() == 10);
    assert("items"@.len() == 5);
}

/// A workspace that was opened starts with no server and no document.
pub proof fn law_new_workspace_is_empty(
    config: Config,
    root: Seq<char>,
    ft: Seq<char>,
    alive: Seq<u64>,
)
    ensures
        primary_of(new_workspace(config, root), ft, alive) is None,
        servers_of(new_workspace(config, root), ft, alive).len() == 0,
        forall|uri: Seq<char>|
            (#[trigger] document_servers(new_workspace(config, root), uri, alive)).len() == 0,
{
}

/// A document that was closed is forgotten: later changes to it reach no
/// server.
pub proof fn law_closed_document_is_forgotten(
    d: DaemonView,
    uri: Seq<char>,
    other: Seq<char>,
    alive: Seq<u64>,
)
    ensures
        document_servers(
            DaemonView { filetypes: d.filetypes.remove(uri), ..d },
            uri,
            alive,
        ).len() == 0,
        other != uri ==> document_servers(
            DaemonView { filetypes: d.filetypes.remove(uri), ..d },
            other,
            alive,
        ) == document_servers(d, other, alive),
{
}

} // verus!
