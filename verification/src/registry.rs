//! The language servers that run, and which of them serves a filetype.
//!
//! A running server is known here by a number. Whether it is alive is asked of
//! its connection, and handed in.

use vstd::prelude::*;
use vstd::string::*;

use crate::byte_path;
use crate::config;
use crate::config::{copy_strings, Config, ServerConfig, ServerConfigView};
use crate::installer;
use crate::json;
use crate::json::{Fields, Json, JsonView};
use crate::lsp::server::{ServerEvent, ServerEventView};
use crate::lsp::types::{DiagnosticItem, WorkspaceEdit};
use crate::lsp::wire;
use crate::lsp::wire::{list_json, Wire};
use crate::path;
use crate::seqs;
use crate::strmap::StrMap;
use crate::text;
use crate::uri;

verus! {

/// The language servers that run.
pub struct Registry {
    pub config: Config,
    /// Running servers by name.
    pub clients: StrMap<u64>,
    /// Names of the servers of a filetype, the primary one first.
    pub ft_map: StrMap<Vec<String>>,
    pub root_dir: String,
}

/// The model of [`Registry`].
#[verifier::ext_equal]
pub struct RegistryView {
    pub servers: Map<Seq<char>, ServerConfigView>,
    pub clients: Map<Seq<char>, u64>,
    pub ft_map: Map<Seq<char>, Seq<Seq<char>>>,
    pub root_dir: Seq<char>,
}

impl Registry {
    /// The registry as a mathematical object.
    pub open spec fn view(&self) -> RegistryView {
        RegistryView {
            servers: self.config@,
            clients: self.clients@,
            ft_map: self.ft_map@,
            root_dir: self.root_dir@,
        }
    }

    /// A registry in which nothing runs.
    pub fn new(config: Config, root_dir: &str) -> (r: Registry)
        ensures
            r@ == (RegistryView {
                servers: config@,
                clients: Map::empty(),
                ft_map: Map::empty(),
                root_dir: root_dir@,
            }),
    {
        Registry {
            config,
            clients: StrMap::new(),
            ft_map: StrMap::new(),
            root_dir: root_dir.to_string(),
        }
    }
}

fn is_listed(list: &Vec<u64>, n: u64) -> (r: bool)
    ensures
        r == list@.contains(n),
{
    let mut i: usize = 0;
    while i < list.len()
        invariant
            i <= list@.len(),
            forall|k: int| 0 <= k < i ==> list@[k] != n,
        decreases list@.len() - i,
    {
        if list[i] == n {
            return true;
        }
        i = i + 1;
    }
    false
}

// ---------------------------------------------------------------------------
// Servers that have died
// ---------------------------------------------------------------------------

/// The running servers that are alive.
pub open spec fn live_clients(clients: Map<Seq<char>, u64>, alive: Seq<u64>) -> Map<
    Seq<char>,
    u64,
> {
    Map::new(
        |name: Seq<char>| clients.contains_key(name) && alive.contains(clients[name]),
        |name: Seq<char>| clients[name],
    )
}

/// The names of a list that are among some servers.
pub open spec fn live_names(names: Seq<Seq<char>>, clients: Map<Seq<char>, u64>) -> Seq<Seq<char>> {
    names.filter(|name: Seq<char>| clients.contains_key(name))
}

/// The filetypes that still have a server, with their servers.
pub open spec fn live_filetypes(
    ft_map: Map<Seq<char>, Seq<Seq<char>>>,
    clients: Map<Seq<char>, u64>,
) -> Map<Seq<char>, Seq<Seq<char>>> {
    Map::new(
        |ft: Seq<char>| ft_map.contains_key(ft) && live_names(ft_map[ft], clients).len() > 0,
        |ft: Seq<char>| live_names(ft_map[ft], clients),
    )
}

/// A registry without the servers that have died.
pub open spec fn pruned(r: RegistryView, alive: Seq<u64>) -> RegistryView {
    let clients = live_clients(r.clients, alive);
    RegistryView { clients, ft_map: live_filetypes(r.ft_map, clients), ..r }
}

fn keep_names(names: &Vec<String>, clients: &StrMap<u64>) -> (r: Vec<String>)
    ensures
        r.deep_view() == live_names(names.deep_view(), clients@),
{
    let ghost all = names.deep_view();
    let ghost p = |name: Seq<char>| clients@.contains_key(name);
    let mut out: Vec<String> = Vec::new();
    let mut i: usize = 0;
    proof {
        seqs::lemma_filter_start(all, p);
        assert(out.deep_view() =~= all.take(0).filter(p));
    }
    while i < names.len()
        invariant
            i <= names@.len(),
            all == names.deep_view(),
            p == (|name: Seq<char>| clients@.contains_key(name)),
            out.deep_view() == all.take(i as int).filter(p),
        decreases names@.len() - i,
    {
        let ghost before = out.deep_view();
        proof {
            seqs::lemma_filter_step(all, i as int, p);
        }
        if clients.contains(names[i].as_str()) {
            out.push(names[i].clone());
            assert(out.deep_view() =~= before.push(all[i as int]));
        }
        i = i + 1;
    }
    assert(all.take(i as int) =~= all);
    out
}

fn keep_clients(clients: &StrMap<u64>, alive: &Vec<u64>) -> (r: StrMap<u64>)
    ensures
        r@ == live_clients(clients@, alive@),
{
    let keys = clients.keys();
    let ghost ks = keys.deep_view();
    let mut out: StrMap<u64> = StrMap::new();
    let mut i: usize = 0;
    while i < keys.len()
        invariant
            i <= keys@.len(),
            ks == keys.deep_view(),
            json::arranges(ks, clients@.dom()),
            forall|name: Seq<char>|
                #[trigger] out@.contains_key(name) <==> live_clients(
                    clients@,
                    alive@,
                ).contains_key(name) && exists|k: int| 0 <= k < i && #[trigger] ks[k] == name,
            forall|name: Seq<char>|
                #[trigger] out@.contains_key(name) ==> out@[name] == clients@[name],
        decreases keys@.len() - i,
    {
        let name = keys[i].as_str();
        let ghost before = out@;
        assert(ks[i as int] == name@);
        assert(ks.contains(name@));
        if let Some(handle) = clients.get(name) {
            if is_listed(alive, *handle) {
                out.insert(name, *handle);
            }
        }
        assert forall|n: Seq<char>|
            #[trigger] out@.contains_key(n) <==> live_clients(clients@, alive@).contains_key(n)
                && exists|k: int| 0 <= k < i + 1 && #[trigger] ks[k] == n by {
            if before.contains_key(n) {
                let k = choose|k: int| 0 <= k < i && #[trigger] ks[k] == n;
                assert(0 <= k < i + 1 && ks[k] == n);
            }
            if live_clients(clients@, alive@).contains_key(n) && exists|k: int|
                0 <= k < i + 1 && #[trigger] ks[k] == n {
                let k = choose|k: int| 0 <= k < i + 1 && #[trigger] ks[k] == n;
                if k < i {
                    assert(before.contains_key(n));
                }
            }
        }
        i = i + 1;
    }
    proof {
        assert forall|name: Seq<char>| #[trigger] live_clients(
            clients@,
            alive@,
        ).contains_key(name) implies out@.contains_key(name) by {
            assert(ks.contains(name));
            let k = choose|k: int| 0 <= k < ks.len() && ks[k] == name;
            assert(0 <= k < i && ks[k] == name);
        }
        assert(out@ =~= live_clients(clients@, alive@));
    }
    out
}

fn keep_filetypes(ft_map: &StrMap<Vec<String>>, clients: &StrMap<u64>) -> (r: StrMap<Vec<String>>)
    ensures
        r@ == live_filetypes(ft_map@, clients@),
{
    let keys = ft_map.keys();
    let ghost ks = keys.deep_view();
    let mut out: StrMap<Vec<String>> = StrMap::new();
    let mut i: usize = 0;
    while i < keys.len()
        invariant
            i <= keys@.len(),
            ks == keys.deep_view(),
            json::arranges(ks, ft_map@.dom()),
            forall|ft: Seq<char>|
                #[trigger] out@.contains_key(ft) <==> live_filetypes(
                    ft_map@,
                    clients@,
                ).contains_key(ft) && exists|k: int| 0 <= k < i && #[trigger] ks[k] == ft,
            forall|ft: Seq<char>|
                #[trigger] out@.contains_key(ft) ==> out@[ft] == live_names(ft_map@[ft], clients@),
        decreases keys@.len() - i,
    {
        let ft = keys[i].as_str();
        let ghost before = out@;
        assert(ks[i as int] == ft@);
        assert(ks.contains(ft@));
        if let Some(names) = ft_map.get(ft) {
            let kept = keep_names(names, clients);
            if kept.len() > 0 {
                out.insert(ft, kept);
            }
        }
        assert forall|n: Seq<char>|
            #[trigger] out@.contains_key(n) <==> live_filetypes(ft_map@, clients@).contains_key(n)
                && exists|k: int| 0 <= k < i + 1 && #[trigger] ks[k] == n by {
            if before.contains_key(n) {
                let k = choose|k: int| 0 <= k < i && #[trigger] ks[k] == n;
                assert(0 <= k < i + 1 && ks[k] == n);
            }
            if live_filetypes(ft_map@, clients@).contains_key(n) && exists|k: int|
                0 <= k < i + 1 && #[trigger] ks[k] == n {
                let k = choose|k: int| 0 <= k < i + 1 && #[trigger] ks[k] == n;
                if k < i {
                    assert(before.contains_key(n));
                }
            }
        }
        i = i + 1;
    }
    proof {
        assert forall|ft: Seq<char>| #[trigger] live_filetypes(
            ft_map@,
            clients@,
        ).contains_key(ft) implies out@.contains_key(ft) by {
            assert(ks.contains(ft));
            let k = choose|k: int| 0 <= k < ks.len() && ks[k] == ft;
            assert(0 <= k < i && ks[k] == ft);
        }
        assert(out@ =~= live_filetypes(ft_map@, clients@));
    }
    out
}

impl Registry {
    /// Forgets the servers that have died.
    pub fn prune_dead_clients(&mut self, alive: &Vec<u64>)
        ensures
            final(self)@ == pruned(old(self)@, alive@),
    {
        self.clients = keep_clients(&self.clients, alive);
        self.ft_map = keep_filetypes(&self.ft_map, &self.clients);
    }
}

// ---------------------------------------------------------------------------
// Finding a server
// ---------------------------------------------------------------------------

/// The primary server of a filetype, where it was started.
pub open spec fn primary(r: RegistryView, filetype: Seq<char>) -> Option<Seq<char>> {
    if r.ft_map.contains_key(filetype) && r.ft_map[filetype].len() > 0 {
        Some(r.ft_map[filetype][0])
    } else {
        None
    }
}

/// The running server of a name, where it is alive.
pub open spec fn client_named(r: RegistryView, name: Seq<char>, alive: Seq<u64>) -> Option<u64> {
    if r.clients.contains_key(name) && alive.contains(r.clients[name]) {
        Some(r.clients[name])
    } else {
        None
    }
}

/// The running primary server of a filetype, where it is alive.
pub open spec fn client_for(r: RegistryView, filetype: Seq<char>, alive: Seq<u64>) -> Option<u64> {
    match primary(r, filetype) {
        Some(name) => client_named(r, name, alive),
        None => None,
    }
}

/// The running servers of a filetype that are alive.
pub open spec fn clients_for(r: RegistryView, filetype: Seq<char>, alive: Seq<u64>) -> Seq<u64> {
    if r.ft_map.contains_key(filetype) {
        r.ft_map[filetype].filter(
            |name: Seq<char>| client_named(r, name, alive) is Some,
        ).map_values(|name: Seq<char>| client_named(r, name, alive)->0)
    } else {
        Seq::empty()
    }
}

/// The running servers that are alive, in a given order of names.
pub open spec fn clients_in(keys: Seq<Seq<char>>, r: RegistryView, alive: Seq<u64>) -> Seq<u64> {
    keys.filter(|name: Seq<char>| client_named(r, name, alive) is Some).map_values(
        |name: Seq<char>| client_named(r, name, alive)->0,
    )
}

/// The running servers, in a given order of names.
pub open spec fn clients_of(keys: Seq<Seq<char>>, clients: Map<Seq<char>, u64>) -> Seq<u64> {
    Seq::new(keys.len(), |i: int| clients[keys[i]])
}

/// Whether a list holds each running server once, in any order of names.
pub open spec fn is_all_clients(list: Seq<u64>, clients: Map<Seq<char>, u64>) -> bool {
    exists|keys: Seq<Seq<char>>|
        json::arranges(keys, clients.dom()) && list == #[trigger] clients_of(keys, clients)
}

/// Whether a list holds the running servers that are alive, in any order.
pub open spec fn is_active_clients(list: Seq<u64>, r: RegistryView, alive: Seq<u64>) -> bool {
    exists|keys: Seq<Seq<char>>|
        json::arranges(keys, r.clients.dom()) && list == #[trigger] clients_in(keys, r, alive)
}

/// A registry in which a configured server has another command.
pub open spec fn with_command(
    r: RegistryView,
    name: Seq<char>,
    command: Seq<char>,
) -> RegistryView {
    if r.servers.contains_key(name) {
        RegistryView {
            servers: r.servers.insert(name, ServerConfigView { command, ..r.servers[name] }),
            ..r
        }
    } else {
        r
    }
}

fn live_handles(clients: &StrMap<u64>, names: &Vec<String>, alive: &Vec<u64>, Ghost(r): Ghost<
    RegistryView,
>) -> (out: Vec<u64>)
    requires
        r.clients == clients@,
    ensures
        out@ == clients_in(names.deep_view(), r, alive@),
{
    let ghost all = names.deep_view();
    let ghost p = |name: Seq<char>| client_named(r, name, alive@) is Some;
    let ghost f = |name: Seq<char>| client_named(r, name, alive@)->0;
    let mut out: Vec<u64> = Vec::new();
    let mut i: usize = 0;
    proof {
        seqs::lemma_filter_start(all, p);
        assert(out@ =~= all.take(0).filter(p).map_values(f));
    }
    while i < names.len()
        invariant
            i <= names@.len(),
            r.clients == clients@,
            all == names.deep_view(),
            p == (|name: Seq<char>| client_named(r, name, alive@) is Some),
            f == (|name: Seq<char>| client_named(r, name, alive@)->0),
            out@ == all.take(i as int).filter(p).map_values(f),
        decreases names@.len() - i,
    {
        proof {
            seqs::lemma_filter_step(all, i as int, p);
        }
        if let Some(handle) = clients.get(names[i].as_str()) {
            if is_listed(alive, *handle) {
                out.push(*handle);
                assert(out@ =~= all.take(i + 1).filter(p).map_values(f));
            }
        }
        i = i + 1;
    }
    assert(all.take(i as int) =~= all);
    out
}

impl Registry {
    /// The running server of a name, where it is alive.
    pub fn client_by_name(&self, name: &str, alive: &Vec<u64>) -> (r: Option<u64>)
        ensures
            r == client_named(self@, name@, alive@),
    {
        match self.clients.get(name) {
            Some(handle) => if is_listed(alive, *handle) {
                Some(*handle)
            } else {
                None
            },
            None => None,
        }
    }

    /// The primary server of a filetype, where it was started and is alive.
    pub fn client_for_filetype(&self, filetype: &str, alive: &Vec<u64>) -> (r: Option<u64>)
        ensures
            r == client_for(self@, filetype@, alive@),
    {
        match self.ft_map.get(filetype) {
            Some(names) => if names.len() > 0 {
                self.client_by_name(names[0].as_str(), alive)
            } else {
                None
            },
            None => None,
        }
    }

    /// The servers of a filetype that were started and are alive.
    pub fn clients_for_filetype(&self, filetype: &str, alive: &Vec<u64>) -> (r: Vec<u64>)
        ensures
            r@ == clients_for(self@, filetype@, alive@),
    {
        match self.ft_map.get(filetype) {
            Some(names) => live_handles(&self.clients, names, alive, Ghost(self@)),
            None => Vec::new(),
        }
    }

    /// All servers that are alive, in any order.
    pub fn active_clients(&self, alive: &Vec<u64>) -> (r: Vec<u64>)
        ensures
            is_active_clients(r@, self@, alive@),
    {
        let keys = self.clients.keys();
        live_handles(&self.clients, &keys, alive, Ghost(self@))
    }

    /// The names of all servers that are alive, in any order.
    pub fn active_servers(&self, alive: &Vec<u64>) -> (r: Vec<String>)
        ensures
            json::arranges(r.deep_view(), live_clients(self@.clients, alive@).dom()),
    {
        keep_clients(&self.clients, alive).keys()
    }

    /// Takes all servers out, to stop them, in any order.
    pub fn shutdown_all(&mut self) -> (r: Vec<u64>)
        ensures
            is_all_clients(r@, old(self)@.clients),
            final(self)@ == (RegistryView { clients: Map::empty(), ..old(self)@ }),
    {
        let keys = self.clients.keys();
        let ghost ks = keys.deep_view();
        let mut out: Vec<u64> = Vec::new();
        let mut i: usize = 0;
        while i < keys.len()
            invariant
                i <= keys@.len(),
                ks == keys.deep_view(),
                json::arranges(ks, self.clients@.dom()),
                out@.len() == i,
                forall|k: int| 0 <= k < i ==> out@[k] == self.clients@[#[trigger] ks[k]],
            decreases keys@.len() - i,
        {
            assert(ks[i as int] == keys@[i as int]@);
            assert(ks.contains(ks[i as int]));
            if let Some(handle) = self.clients.get(keys[i].as_str()) {
                out.push(*handle);
            }
            i = i + 1;
        }
        assert(out@ =~= clients_of(ks, self.clients@));
        self.clients = StrMap::new();
        out
    }

    /// Changes the command of a server, after it was installed.
    pub fn update_server_command(&mut self, name: &str, command: &str)
        ensures
            final(self)@ == with_command(old(self)@, name@, command@),
    {
        let updated = match self.config.language_servers.get(name) {
            Some(server) => {
                let mut copy = server.copy();
                copy.command = command.to_string();
                Some(copy)
            },
            None => None,
        };
        if let Some(server) = updated {
            self.config.language_servers.insert(name, server);
        }
    }
}

// ---------------------------------------------------------------------------
// Starting a server
// ---------------------------------------------------------------------------

/// What to do so that a filetype has a server.
pub enum EnsureStep {
    /// It has one.
    Ready(String),
    /// No server handles it.
    NoServer,
    /// A server must be started.
    Start { name: String, server: ServerConfig },
}

/// A registry in which a server is among those of a filetype.
pub open spec fn with_server(
    r: RegistryView,
    filetype: Seq<char>,
    name: Seq<char>,
) -> RegistryView {
    let names = if r.ft_map.contains_key(filetype) {
        r.ft_map[filetype]
    } else {
        Seq::empty()
    };
    RegistryView {
        ft_map: r.ft_map.insert(
            filetype,
            if names.contains(name) {
                names
            } else {
                names.push(name)
            },
        ),
        ..r
    }
}

/// Whether the primary server of a filetype runs.
pub open spec fn primary_runs(r: RegistryView, filetype: Seq<char>) -> bool {
    primary(r, filetype) matches Some(name) && r.clients.contains_key(name)
}

/// Whether a step, and the registry after it, are right for a filetype, given a
/// registry without dead servers.
pub open spec fn is_ensure_step(
    step: EnsureStep,
    r: RegistryView,
    after: RegistryView,
    filetype: Seq<char>,
) -> bool {
    match step {
        EnsureStep::Ready(name) => if primary_runs(r, filetype) {
            name@ == primary(r, filetype)->0 && after == r
        } else {
            &&& r.servers.contains_key(name@)
            &&& config::is_chosen((name@, r.servers[name@]), r.servers, filetype)
            &&& r.clients.contains_key(name@)
            &&& after == with_server(r, filetype, name@)
        },
        EnsureStep::NoServer => {
            &&& !primary_runs(r, filetype)
            &&& after == r
            &&& forall|name: Seq<char>| #[trigger]
                r.servers.contains_key(name) ==> !config::handles(r.servers[name], filetype)
        },
        EnsureStep::Start { name, server } => {
            &&& !primary_runs(r, filetype)
            &&& after == r
            &&& config::is_chosen((name@, server.deep_view()), r.servers, filetype)
            &&& !r.clients.contains_key(name@)
        },
    }
}

impl Registry {
    fn map_filetype(&mut self, filetype: &str, name: &str)
        ensures
            final(self)@ == with_server(old(self)@, filetype@, name@),
    {
        let mut names = match self.ft_map.get(filetype) {
            Some(list) => copy_strings(list),
            None => {
                let none: Vec<String> = Vec::new();
                assert(none.deep_view() =~= Seq::<Seq<char>>::empty());
                none
            },
        };
        let ghost before = names.deep_view();
        if !text::list_contains(&names, name) {
            names.push(name.to_string());
            assert(names.deep_view() =~= before.push(name@));
        }
        self.ft_map.insert(filetype, names);
    }

    /// Finds what to do so that a filetype has a server.
    pub fn ensure_server(&mut self, filetype: &str, alive: &Vec<u64>) -> (r: EnsureStep)
        ensures
            is_ensure_step(r, pruned(old(self)@, alive@), final(self)@, filetype@),
    {
        self.prune_dead_clients(alive);
        if let Some(names) = self.ft_map.get(filetype) {
            if names.len() > 0 {
                if self.clients.contains(names[0].as_str()) {
                    return EnsureStep::Ready(names[0].clone());
                }
            }
        }
        let (name, server) = match self.config.server_for_filetype(filetype) {
            Some((n, s)) => (n.to_string(), s.copy()),
            None => {
                return EnsureStep::NoServer;
            },
        };
        if self.clients.contains(name.as_str()) {
            self.map_filetype(filetype, name.as_str());
            return EnsureStep::Ready(name);
        }
        EnsureStep::Start { name, server }
    }

    /// Takes note that a server was started for a filetype, and gives the event
    /// that says so.
    pub fn started(&mut self, filetype: &str, name: &str, handle: u64) -> (r: Json)
        ensures
            final(self)@ == with_server(
                RegistryView {
                    clients: old(self)@.clients.insert(name@, handle),
                    ..old(self)@
                },
                filetype@,
                name@,
            ),
            r@ == status_event_view(name@, "running"@, None),
    {
        self.clients.insert(name, handle);
        self.map_filetype(filetype, name);
        status_event(name, "running", None)
    }
}

// ---------------------------------------------------------------------------
// The command of a server
// ---------------------------------------------------------------------------

/// The command that starts a server, as far as it can be told without the
/// search path: a managed installation first, then an absolute path that
/// exists. The marker of the Julia server is not a command.
pub open spec fn local_command(
    name: Seq<char>,
    command: Seq<char>,
    managed: Option<Seq<char>>,
    command_exists: bool,
) -> Option<Seq<char>> {
    if name != "julia-lsp"@ && managed is Some {
        managed
    } else if path::absolute(command) && command_exists {
        Some(command)
    } else {
        None
    }
}

/// Finds the command that starts a server, as far as it can be told without the
/// search path. `managed` is the binary of a managed installation that is
/// complete.
pub fn resolve_command(
    name: &str,
    command: &str,
    managed: Option<&str>,
    command_exists: bool,
) -> (r: Option<String>)
    ensures
        r.deep_view() == local_command(name@, command@, text::text_of(managed), command_exists),
{
    if !text::str_eq(name, "julia-lsp") {
        if let Some(m) = managed {
            return Some(m.to_string());
        }
    }
    if path::is_absolute(command) && command_exists {
        return Some(command.to_string());
    }
    None
}

/// A managed installation is used before anything else, whatever command is
/// configured. Julia's is the exception: it is not a command.
pub proof fn law_managed_installation_comes_first(
    name: Seq<char>,
    command: Seq<char>,
    managed: Seq<char>,
    command_exists: bool,
)
    requires
        name != "julia-lsp"@,
    ensures
        local_command(name, command, Some(managed), command_exists) == Some(managed),
{
}

/// Whether a command that was found on the search path is tried before it is
/// used. One server has no way to be tried.
pub fn is_tried(name: &str) -> (r: bool)
    ensures
        r == (name@ != "pyright"@),
{
    !text::str_eq(name, "pyright")
}

/// The command that was found on the search path, where it can be used.
pub fn found_command(name: &str, found: Option<&str>, runs: bool) -> (r: Option<String>)
    ensures
        r.deep_view() == if name@ == "pyright"@ || runs {
            text::text_of(found)
        } else {
            None
        },
{
    if !is_tried(name) || runs {
        match found {
            Some(f) => Some(f.to_string()),
            None => None,
        }
    } else {
        None
    }
}

// ---------------------------------------------------------------------------
// Events about a server
// ---------------------------------------------------------------------------

/// The event that reports the state of a server.
pub open spec fn status_event_view(
    server: Seq<char>,
    status: Seq<char>,
    message: Option<Seq<char>>,
) -> JsonView {
    let m = map![
        "type"@ => JsonView::Str("serverStatus"@),
        "server"@ => JsonView::Str(server),
        "status"@ => JsonView::Str(status),
    ];
    JsonView::Object(wire::with_opt_str(m, "message"@, message))
}

/// The event that reports that a server was not found.
pub open spec fn not_found_view(
    server: Seq<char>,
    message: Seq<char>,
    installable: bool,
) -> JsonView {
    JsonView::Object(
        map![
            "type"@ => JsonView::Str("serverStatus"@),
            "server"@ => JsonView::Str(server),
            "status"@ => JsonView::Str("notFound"@),
            "message"@ => JsonView::Str(message),
            "installable"@ => JsonView::Bool(installable),
        ],
    )
}

/// The event that reports the state of a server.
pub fn status_event(server: &str, status: &str, message: Option<&str>) -> (r: Json)
    ensures
        r@ == status_event_view(server@, status@, text::text_of(message)),
{
    let mut f = Fields::new();
    f.put_str("type", "serverStatus");
    f.put_str("server", server);
    f.put_str("status", status);
    if let Some(m) = message {
        f.put_str("message", m);
    }
    f.done()
}

fn not_found(server: &str, message: &str, installable: bool) -> (r: Json)
    ensures
        r@ == not_found_view(server@, message@, installable),
{
    let mut f = Fields::new();
    f.put_str("type", "serverStatus");
    f.put_str("server", server);
    f.put_str("status", "notFound");
    f.put_str("message", message);
    f.put_bool("installable", installable);
    f.done()
}

/// Why a server cannot be started, if it cannot: its command was not found, or
/// the Julia server is not in its environment. Without the latter test the
/// command would start and die at once.
pub open spec fn launch_problem(
    name: Seq<char>,
    command: Seq<char>,
    resolved: bool,
    julia_installed: bool,
) -> Option<JsonView> {
    if !resolved {
        Some(
            not_found_view(
                name,
                "command not found: "@ + command,
                installer::server_meta(name) is Some,
            ),
        )
    } else if name == "julia-lsp"@ && !julia_installed {
        Some(
            not_found_view(
                name,
                "LanguageServer.jl is not installed in the @simplecc environment"@,
                true,
            ),
        )
    } else {
        None
    }
}

/// Checks that a server can be started, and gives the event to send where it
/// cannot.
pub fn check_launch(name: &str, command: &str, resolved: bool, julia_installed: bool) -> (r: Option<
    Json,
>)
    ensures
        r.deep_view() == launch_problem(name@, command@, resolved, julia_installed),
{
    if !resolved {
        let message = "command not found: ".to_string().concat(command);
        return Some(not_found(name, message.as_str(), installer::is_known_server(name)));
    }
    if text::str_eq(name, "julia-lsp") && !julia_installed {
        return Some(
            not_found(
                name,
                "LanguageServer.jl is not installed in the @simplecc environment",
                true,
            ),
        );
    }
    None
}

/// An event of a server as the editor receives it.
pub open spec fn event_view(server_name: Seq<char>, event: ServerEventView) -> JsonView {
    match event {
        ServerEventView::Diagnostics { uri, diagnostics } => JsonView::Object(
            map![
                "type"@ => JsonView::Str("diagnostics"@),
                "uri"@ => JsonView::Str(uri),
                "items"@ => wire::wire_list::<DiagnosticItem>(diagnostics),
            ],
        ),
        ServerEventView::LogMessage { level, message } => JsonView::Object(
            map![
                "type"@ => JsonView::Str("log"@),
                "server"@ => JsonView::Str(server_name),
                "level"@ => JsonView::Str(level),
                "message"@ => JsonView::Str(message),
            ],
        ),
        ServerEventView::ShowMessage { level, message } => JsonView::Object(
            map![
                "type"@ => JsonView::Str("showMessage"@),
                "server"@ => JsonView::Str(server_name),
                "level"@ => JsonView::Str(level),
                "message"@ => JsonView::Str(message),
            ],
        ),
        ServerEventView::Progress { token, kind, title, message, percentage } => JsonView::Object(
            map![
                "type"@ => JsonView::Str("progress"@),
                "server"@ => JsonView::Str(server_name),
                "token"@ => JsonView::Str(token),
                "kind"@ => JsonView::Str(kind),
                "title"@ => JsonView::Str(title),
                "message"@ => JsonView::Str(message),
                "percentage"@ => match percentage {
                    Some(p) => JsonView::Int(p as int),
                    None => JsonView::Null,
                },
            ],
        ),
        ServerEventView::ApplyEdit { edit, .. } => JsonView::Object(
            map![
                "type"@ => JsonView::Str("applyEdit"@),
                "edit"@ => WorkspaceEdit::wire(edit),
            ],
        ),
        ServerEventView::Stopped { message } => status_event_view(
            server_name,
            "stopped"@,
            Some(message),
        ),
    }
}

fn message_event(kind: &str, server_name: &str, level: &str, message: &str) -> (r: Json)
    ensures
        r@ == JsonView::Object(
            map![
                "type"@ => JsonView::Str(kind@),
                "server"@ => JsonView::Str(server_name@),
                "level"@ => JsonView::Str(level@),
                "message"@ => JsonView::Str(message@),
            ],
        ),
{
    let mut f = Fields::new();
    f.put_str("type", kind);
    f.put_str("server", server_name);
    f.put_str("level", level);
    f.put_str("message", message);
    f.done()
}

/// Writes an event of a server for the editor.
pub fn forward_server_event(server_name: &str, event: &ServerEvent) -> (r: Json)
    ensures
        r@ == event_view(server_name@, event.deep_view()),
{
    match event {
        ServerEvent::Diagnostics { uri, diagnostics } => {
            let mut f = Fields::new();
            f.put_str("type", "diagnostics");
            f.put_str("uri", uri.as_str());
            f.put("items", list_json(diagnostics));
            f.done()
        },
        ServerEvent::LogMessage { level, message } => message_event(
            "log",
            server_name,
            level.as_str(),
            message.as_str(),
        ),
        ServerEvent::ShowMessage { level, message } => message_event(
            "showMessage",
            server_name,
            level.as_str(),
            message.as_str(),
        ),
        ServerEvent::Progress { token, kind, title, message, percentage } => {
            let mut f = Fields::new();
            f.put_str("type", "progress");
            f.put_str("server", server_name);
            f.put_str("token", token.as_str());
            f.put_str("kind", kind.as_str());
            f.put_str("title", title.as_str());
            f.put_str("message", message.as_str());
            f.put(
                "percentage",
                match percentage {
                    Some(p) => Json::UInt(*p),
                    None => Json::Null,
                },
            );
            f.done()
        },
        ServerEvent::ApplyEdit { id: _, edit } => {
            let mut f = Fields::new();
            f.put_str("type", "applyEdit");
            f.put("edit", edit.to_json());
            f.done()
        },
        ServerEvent::Stopped { message } => status_event(
            server_name,
            "stopped",
            Some(message.as_str()),
        ),
    }
}

// ---------------------------------------------------------------------------
// A new configuration
// ---------------------------------------------------------------------------

/// The settings that a running server gets from a configuration.
pub open spec fn new_settings(
    servers: Map<Seq<char>, ServerConfigView>,
    name: Seq<char>,
) -> Option<JsonView> {
    if servers.contains_key(name) {
        config::with_overrides(config::default_settings(name), servers[name].settings)
    } else {
        None
    }
}

/// A running server and the settings that it gets.
pub struct SettingsUpdate {
    pub handle: u64,
    pub settings: Option<Json>,
}

impl DeepView for SettingsUpdate {
    type V = (u64, Option<JsonView>);

    open spec fn deep_view(&self) -> (u64, Option<JsonView>) {
        (self.handle, self.settings.deep_view())
    }
}

/// The updates that a configuration brings, in a given order of names.
pub open spec fn updates_in(
    keys: Seq<Seq<char>>,
    clients: Map<Seq<char>, u64>,
    servers: Map<Seq<char>, ServerConfigView>,
) -> Seq<(u64, Option<JsonView>)> {
    Seq::new(keys.len(), |i: int| (clients[keys[i]], new_settings(servers, keys[i])))
}

impl Registry {
    /// Takes a new configuration, and gives the settings that each running
    /// server gets from it, in any order of servers.
    pub fn reload_configuration(&mut self, config: Config, alive: &Vec<u64>) -> (r: Vec<
        SettingsUpdate,
    >)
        ensures
            final(self)@ == (RegistryView { servers: config@, ..pruned(old(self)@, alive@) }),
            exists|keys: Seq<Seq<char>>|
                json::arranges(keys, final(self)@.clients.dom()) && r.deep_view()
                    == #[trigger] updates_in(keys, final(self)@.clients, config@),
    {
        self.prune_dead_clients(alive);
        let keys = self.clients.keys();
        let ghost ks = keys.deep_view();
        let mut out: Vec<SettingsUpdate> = Vec::new();
        let mut i: usize = 0;
        while i < keys.len()
            invariant
                i <= keys@.len(),
                ks == keys.deep_view(),
                json::arranges(ks, self.clients@.dom()),
                out@.len() == i,
                forall|k: int|
                    0 <= k < i ==> (#[trigger] out@[k]).deep_view() == updates_in(
                        ks,
                        self.clients@,
                        config@,
                    )[k],
            decreases keys@.len() - i,
        {
            let name = keys[i].as_str();
            assert(ks[i as int] == name@);
            assert(ks.contains(name@));
            let handle: u64 = match self.clients.get(name) {
                Some(h) => *h,
                None => 0,
            };
            let settings = match config.language_servers.get(name) {
                Some(server) => server.effective_settings(name),
                None => None,
            };
            out.push(SettingsUpdate { handle, settings });
            i = i + 1;
        }
        self.config = config;
        assert(out.deep_view() =~= updates_in(ks, self@.clients, config@));
        assert(json::arranges(ks, self@.clients.dom()));
        out
    }
}

// ---------------------------------------------------------------------------
// The root of a server
// ---------------------------------------------------------------------------

/// The directories in which a project's marker is looked for: from one
/// directory up, and never above the boundary where there is one.
pub open spec fn search_dirs(directory: Seq<char>, boundary: Option<Seq<char>>) -> Seq<Seq<char>>
    decreases directory.len(),
{
    proof {
        path::lemma_parent(directory);
    }
    if boundary matches Some(b) && path::same_path(directory, b) {
        seq![directory]
    } else {
        match path::parent_of(directory) {
            Some(parent) => seq![directory] + search_dirs(parent, boundary),
            None => seq![directory],
        }
    }
}

/// The path of a workspace, given the one that the file system has for it, if it
/// has one, and the current directory.
pub open spec fn workspace_path(
    root: Seq<char>,
    canonical: Option<Seq<char>>,
    current_dir: Option<Seq<char>>,
) -> Seq<char> {
    match canonical {
        Some(path) => path,
        None => if path::absolute(root) {
            root
        } else {
            match current_dir {
                Some(dir) => path::joined_path(dir, root),
                None => path::joined_path("/"@, root),
            }
        },
    }
}

/// Finds the path of a workspace.
pub fn absolute_workspace_path(
    root: &[u8],
    canonical: Option<&[u8]>,
    current_dir: Option<&[u8]>,
) -> (r: Vec<u8>)
    ensures
        byte_path::byte_text(r@) == workspace_path(
            byte_path::byte_text(root@),
            byte_path::maybe_text(byte_path::bytes_in(canonical)),
            byte_path::maybe_text(byte_path::bytes_in(current_dir)),
        ),
{
    if let Some(path) = canonical {
        return byte_path::copy(path);
    }
    if root.len() > 0 && root[0] == 0x2f {
        return byte_path::copy(root);
    }
    match current_dir {
        Some(dir) => byte_path::join(dir, root),
        None => {
            let mut top: Vec<u8> = Vec::new();
            top.push(0x2f);
            proof {
                reveal_strlit("/");
                assert(byte_path::byte_text(top@) =~= "/"@);
            }
            byte_path::join(top.as_slice(), root)
        },
    }
}

/// The workspace as a boundary, for a directory inside it.
pub open spec fn boundary_of(directory: Seq<char>, workspace_root: Seq<char>) -> Option<Seq<char>> {
    if path::within(directory, workspace_root) {
        Some(workspace_root)
    } else {
        None
    }
}

/// The directories in which a project's marker is looked for.
pub fn root_candidates(directory: &[u8], workspace_root: &[u8]) -> (r: Vec<Vec<u8>>)
    ensures
        byte_path::byte_texts(r.deep_view()) == search_dirs(
            byte_path::byte_text(directory@),
            boundary_of(byte_path::byte_text(directory@), byte_path::byte_text(workspace_root@)),
        ),
{
    let root = byte_path::text_of_bytes(workspace_root);
    let mut current = byte_path::text_of_bytes(directory);
    let bounded = path::is_within(current.as_str(), root.as_str());
    let ghost start = byte_path::byte_text(directory@);
    let ghost boundary = boundary_of(start, root@);
    let mut out: Vec<Vec<u8>> = Vec::new();
    proof {
        byte_path::lemma_byte_text(directory@);
        assert(byte_path::byte_texts(out.deep_view()) + search_dirs(current@, boundary)
            =~= search_dirs(start, boundary));
    }
    loop
        invariant
            bounded == (boundary is Some),
            start == byte_path::byte_text(directory@),
            root@ == byte_path::byte_text(workspace_root@),
            boundary == boundary_of(start, root@),
            byte_path::is_byte_text(current@),
            byte_path::byte_texts(out.deep_view()) + search_dirs(current@, boundary)
                == search_dirs(start, boundary),
        decreases current@.len(),
    {
        let ghost before = byte_path::byte_texts(out.deep_view());
        let at_boundary = bounded && path::is_same(current.as_str(), root.as_str());
        let next = path::parent(current.as_str());
        let ghost here = current@;
        let bytes = byte_path::bytes_of_text(current.as_str());
        assert(bytes.deep_view() =~= bytes@);
        out.push(bytes);
        assert(byte_path::byte_texts(out.deep_view()) =~= before.push(here));
        if at_boundary {
            assert(byte_path::byte_texts(out.deep_view()) =~= before + search_dirs(here, boundary));
            return out;
        }
        match next {
            Some(parent) => {
                proof {
                    path::lemma_parent(here);
                    byte_path::lemma_parent_bytes(here);
                    assert(before + search_dirs(here, boundary) =~= byte_path::byte_texts(
                        out.deep_view(),
                    ) + search_dirs(parent@, boundary));
                }
                current = parent;
            },
            None => {
                assert(byte_path::byte_texts(out.deep_view()) =~= before + search_dirs(
                    here,
                    boundary,
                ));
                return out;
            },
        }
    }
}

/// The first directory that holds a marker.
pub open spec fn first_marked(dirs: Seq<Seq<char>>, marked: Seq<bool>) -> Option<Seq<char>>
    decreases dirs.len(),
{
    if dirs.len() == 0 || marked.len() == 0 {
        None
    } else if marked[0] {
        Some(dirs[0])
    } else {
        first_marked(dirs.drop_first(), marked.drop_first())
    }
}

/// The root of a server: the nearest directory that holds a marker, or the
/// workspace.
pub open spec fn server_root(
    workspace_root: Seq<char>,
    dirs: Seq<Seq<char>>,
    marked: Seq<bool>,
) -> Seq<char> {
    match first_marked(dirs, marked) {
        Some(d) => d,
        None => workspace_root,
    }
}

/// Finds the root of a server, given which of the directories hold one of the
/// markers.
pub fn server_root_path(workspace_root: &[u8], dirs: &Vec<Vec<u8>>, marked: &Vec<bool>) -> (r: Vec<
    u8,
>)
    ensures
        byte_path::byte_text(r@) == server_root(
            byte_path::byte_text(workspace_root@),
            byte_path::byte_texts(dirs.deep_view()),
            marked@,
        ),
{
    let ghost all = byte_path::byte_texts(dirs.deep_view());
    let mut i: usize = 0;
    assert(all.skip(0) =~= all);
    assert(marked@.skip(0) =~= marked@);
    while i < dirs.len() && i < marked.len()
        invariant
            i <= dirs@.len(),
            i <= marked@.len(),
            all == byte_path::byte_texts(dirs.deep_view()),
            first_marked(all, marked@) == first_marked(
                all.skip(i as int),
                marked@.skip(i as int),
            ),
        decreases dirs@.len() - i,
    {
        proof {
            assert(dirs.deep_view()[i as int] =~= dirs@[i as int]@);
            assert(all.skip(i as int)[0] == byte_path::byte_text(dirs@[i as int]@));
            assert(all.skip(i as int).drop_first() =~= all.skip(i + 1));
            assert(marked@.skip(i as int).drop_first() =~= marked@.skip(i + 1));
        }
        if marked[i] {
            return byte_path::copy(dirs[i].as_slice());
        }
        i = i + 1;
    }
    byte_path::copy(workspace_root)
}

/// The directory of the document that starts a server, where markers are looked
/// for at all and the document is a file, given the path of its URI.
pub open spec fn directory_of(
    document_path: Option<Seq<char>>,
    has_patterns: bool,
) -> Option<Seq<char>> {
    if !has_patterns {
        None
    } else {
        match document_path {
            Some(p) => path::parent_of(p),
            None => None,
        }
    }
}

/// Finds the directory of a document, given its path.
pub fn directory_of_path(document_path: Option<&[u8]>, has_patterns: bool) -> (r: Option<Vec<u8>>)
    ensures
        byte_path::maybe_text(r.deep_view()) == directory_of(
            byte_path::maybe_text(byte_path::bytes_in(document_path)),
            has_patterns,
        ),
{
    if !has_patterns {
        return None;
    }
    match document_path {
        Some(p) => byte_path::parent(p),
        None => None,
    }
}

/// Finds the directory of the document that starts a server, where markers are
/// looked for at all.
pub fn document_directory(document_uri: &str, root_patterns: &Vec<String>) -> (r: Option<Vec<u8>>)
    ensures
        byte_path::maybe_text(r.deep_view()) == directory_of(
            byte_path::maybe_text(uri::url_file_path(document_uri@)),
            root_patterns@.len() > 0,
        ),
{
    let document = uri::file_of_uri(document_uri);
    match &document {
        Some(p) => {
            assert(p.deep_view() =~= p@);
            directory_of_path(Some(p.as_slice()), root_patterns.len() > 0)
        },
        None => directory_of_path(None, root_patterns.len() > 0),
    }
}

// ---------------------------------------------------------------------------
// Laws
// ---------------------------------------------------------------------------

/// A server that has died is never handed out, and no filetype leads to it.
pub proof fn law_dead_servers_are_never_returned(
    r: RegistryView,
    filetype: Seq<char>,
    alive: Seq<u64>,
)
    ensures
        client_for(r, filetype, alive) matches Some(h) ==> alive.contains(h),
        forall|name: Seq<char>| #[trigger]
            pruned(r, alive).clients.contains_key(name) ==> alive.contains(
                pruned(r, alive).clients[name],
            ),
        pruned(r, alive).ft_map.contains_key(filetype) ==> pruned(
            r,
            alive,
        ).ft_map[filetype].len() > 0,
        pruned(r, alive).ft_map.contains_key(filetype) ==> forall|i: int|
            0 <= i < pruned(r, alive).ft_map[filetype].len() ==> pruned(
                r,
                alive,
            ).clients.contains_key(#[trigger] pruned(r, alive).ft_map[filetype][i]),
{
    let p = pruned(r, alive);
    if p.ft_map.contains_key(filetype) {
        let keep = |name: Seq<char>| p.clients.contains_key(name);
        let names = r.ft_map[filetype];
        assert forall|i: int| 0 <= i < p.ft_map[filetype].len() implies p.clients.contains_key(
            #[trigger] p.ft_map[filetype][i],
        ) by {
            names.lemma_filter_pred(keep, i);
        }
    }
}

/// A server that was started for a filetype is the one that the filetype then
/// has, unless it had another before.
pub proof fn law_started_server_is_found(
    r: RegistryView,
    filetype: Seq<char>,
    name: Seq<char>,
    handle: u64,
    alive: Seq<u64>,
)
    requires
        primary(r, filetype) is None,
        alive.contains(handle),
    ensures
        client_for(
            with_server(
                RegistryView { clients: r.clients.insert(name, handle), ..r },
                filetype,
                name,
            ),
            filetype,
            alive,
        ) == Some(handle),
{
    let names = if r.ft_map.contains_key(filetype) {
        r.ft_map[filetype]
    } else {
        Seq::empty()
    };
    assert(names.len() == 0);
    assert(names.push(name)[0] == name);
}

/// A search that starts inside the workspace never leaves it.
pub proof fn law_search_stays_inside(directory: Seq<char>, workspace_root: Seq<char>)
    requires
        path::within(directory, workspace_root),
        path::absolute(directory) == path::absolute(workspace_root),
    ensures
        forall|i: int|
            0 <= i < search_dirs(directory, Some(workspace_root)).len() ==> path::within(
                #[trigger] search_dirs(directory, Some(workspace_root))[i],
                workspace_root,
            ),
    decreases directory.len(),
{
    path::lemma_parent(directory);
    if !path::same_path(directory, workspace_root) {
        path::law_parent_stays_within(directory, workspace_root);
        if let Some(parent) = path::parent_of(directory) {
            law_search_stays_inside(parent, workspace_root);
            let rest = search_dirs(parent, Some(workspace_root));
            assert forall|i: int|
                0 <= i < search_dirs(directory, Some(workspace_root)).len() implies path::within(
                #[trigger] search_dirs(directory, Some(workspace_root))[i],
                workspace_root,
            ) by {
                if i > 0 {
                    assert(search_dirs(directory, Some(workspace_root))[i] == rest[i - 1]);
                }
            }
        }
    }
}

/// The root of a server for a document inside the workspace lies inside the
/// workspace, whatever markers lie above it.
pub proof fn law_root_is_never_above_workspace(
    directory: Seq<char>,
    workspace_root: Seq<char>,
    marked: Seq<bool>,
)
    requires
        path::within(directory, workspace_root),
        path::absolute(directory) == path::absolute(workspace_root),
    ensures
        path::within(
            server_root(
                workspace_root,
                search_dirs(directory, boundary_of(directory, workspace_root)),
                marked,
            ),
            workspace_root,
        ),
{
    let dirs = search_dirs(directory, Some(workspace_root));
    law_search_stays_inside(directory, workspace_root);
    lemma_first_marked(dirs, marked);
    if let Some(d) = first_marked(dirs, marked) {
        let i = choose|i: int| 0 <= i < dirs.len() && dirs[i] == d;
        assert(path::within(dirs[i], workspace_root));
    } else {
        assert(path::components_of(workspace_root).is_prefix_of(
            path::components_of(workspace_root),
        )) by {
            let c = path::components_of(workspace_root);
            assert(c.take(c.len() as int) =~= c);
        }
    }
}

proof fn lemma_first_marked(dirs: Seq<Seq<char>>, marked: Seq<bool>)
    ensures
        first_marked(dirs, marked) matches Some(d) ==> dirs.contains(d),
    decreases dirs.len(),
{
    if dirs.len() > 0 && marked.len() > 0 {
        if marked[0] {
            assert(dirs[0] == first_marked(dirs, marked)->0);
        } else {
            lemma_first_marked(dirs.drop_first(), marked.drop_first());
            if let Some(d) = first_marked(dirs.drop_first(), marked.drop_first()) {
                let i = choose|i: int|
                    0 <= i < dirs.drop_first().len() && dirs.drop_first()[i] == d;
                assert(dirs[i + 1] == d);
            }
        }
    }
}

} // verus!
