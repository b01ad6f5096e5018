//! Which server is chosen, where its root is, and which servers are found.

use vstd::prelude::*;
use vstd::string::*;

use crate::config;
use crate::config::ServerConfigView;
use crate::installer;
use crate::json;
use crate::json::JsonView;
use crate::laws::shapes;
use crate::path;
use crate::registry;
use crate::registry::{EnsureStep, RegistryView};
use crate::seqs;
use crate::text;

verus! {

// ---------------------------------------------------------------------------
// The root
// ---------------------------------------------------------------------------

/// The root of a server is the first directory that holds a marker, counted from
/// the document up. It is the workspace only where no directory holds one.
pub proof fn law_nearest_marker_is_the_root(
    workspace_root: Seq<char>,
    dirs: Seq<Seq<char>>,
    marked: Seq<bool>,
    i: int,
)
    ensures
        0 <= i < dirs.len() && i < marked.len() && marked[i] && (forall|j: int|
            0 <= j < i ==> !marked[j]) ==> registry::server_root(workspace_root, dirs, marked)
            == dirs[i],
        (forall|j: int| 0 <= j < dirs.len() && j < marked.len() ==> !marked[j])
            ==> registry::server_root(workspace_root, dirs, marked) == workspace_root,
        is_nearest(registry::server_root(workspace_root, dirs, marked), dirs, marked) || (
        registry::server_root(workspace_root, dirs, marked) == workspace_root && forall|j: int|
            0 <= j < dirs.len() && j < marked.len() ==> !marked[j]),
{
    lemma_first_marked(dirs, marked);
    if 0 <= i < dirs.len() && i < marked.len() && marked[i] && (forall|j: int|
        0 <= j < i ==> !marked[j]) {
        let d = registry::first_marked(dirs, marked)->0;
        let k = choose|k: int|
            0 <= k < dirs.len() && k < marked.len() && marked[k] && (forall|j: int|
                0 <= j < k ==> !marked[j]) && d == #[trigger] dirs[k];
        assert(k == i);
    }
}

/// Whether a directory is the first of those that hold a marker.
pub open spec fn is_nearest(d: Seq<char>, dirs: Seq<Seq<char>>, marked: Seq<bool>) -> bool {
    exists|k: int|
        0 <= k < dirs.len() && k < marked.len() && marked[k] && (forall|j: int|
            0 <= j < k ==> !marked[j]) && d == #[trigger] dirs[k]
}

proof fn lemma_first_marked(dirs: Seq<Seq<char>>, marked: Seq<bool>)
    ensures
        match registry::first_marked(dirs, marked) {
            Some(d) => is_nearest(d, dirs, marked),
            None => forall|j: int| 0 <= j < dirs.len() && j < marked.len() ==> !marked[j],
        },
    decreases dirs.len(),
{
    if dirs.len() > 0 && marked.len() > 0 {
        if marked[0] {
            assert(dirs[0] == registry::first_marked(dirs, marked)->0);
        } else {
            let ds = dirs.drop_first();
            let ms = marked.drop_first();
            lemma_first_marked(ds, ms);
            match registry::first_marked(ds, ms) {
                Some(d) => {
                    let k = choose|k: int|
                        0 <= k < ds.len() && k < ms.len() && ms[k] && (forall|j: int|
                            0 <= j < k ==> !ms[j]) && d == #[trigger] ds[k];
                    assert(dirs[k + 1] == d);
                    assert forall|j: int| 0 <= j < k + 1 implies !marked[j] by {
                        if j > 0 {
                            assert(!ms[j - 1]);
                        }
                    }
                },
                None => {
                    assert forall|j: int| 0 <= j < dirs.len() && j < marked.len() implies !marked[j] by {
                        if j > 0 {
                            assert(!ms[j - 1]);
                        }
                    }
                },
            }
        }
    }
}

/// The search for a marker begins at the directory of the document and goes up
/// one component at a time.
pub proof fn law_search_goes_up(directory: Seq<char>, boundary: Option<Seq<char>>)
    ensures
        ({
            let dirs = registry::search_dirs(directory, boundary);
            &&& dirs.len() > 0
            &&& dirs[0] == directory
            &&& forall|k: int|
                0 <= k < dirs.len() ==> path::components_of(#[trigger] dirs[k])
                    == path::components_of(directory).take(path::components_of(directory).len() - k)
                    && path::absolute(dirs[k]) == path::absolute(directory)
            &&& dirs.len() <= path::components_of(directory).len() + 1
        }),
    decreases directory.len(),
{
    path::lemma_parent(directory);
    let all = path::components_of(directory);
    let dirs = registry::search_dirs(directory, boundary);
    assert(all.take(all.len() as int) =~= all);
    if !(boundary matches Some(b) && path::same_path(directory, b)) {
        if let Some(parent) = path::parent_of(directory) {
            law_search_goes_up(parent, boundary);
            let rest = registry::search_dirs(parent, boundary);
            assert forall|k: int| 0 <= k < dirs.len() implies path::components_of(
                #[trigger] dirs[k],
            ) == all.take(all.len() - k) && path::absolute(dirs[k]) == path::absolute(
                directory,
            ) by {
                if k > 0 {
                    assert(dirs[k] == rest[k - 1]);
                    assert(all.drop_last().take(all.len() - 1 - (k - 1)) =~= all.take(
                        all.len() - k,
                    ));
                }
            }
        }
    }
}

/// The search ends at the workspace, where the document is in it, and otherwise
/// at the top: the workspace itself is searched, and no directory before it is
/// the workspace.
pub proof fn law_search_ends_at_the_workspace(directory: Seq<char>, workspace_root: Seq<char>)
    ensures
        ({
            let dirs = registry::search_dirs(
                directory,
                registry::boundary_of(directory, workspace_root),
            );
            &&& path::within(directory, workspace_root) && path::absolute(directory)
                == path::absolute(workspace_root) ==> path::same_path(dirs.last(), workspace_root)
            &&& !path::within(directory, workspace_root) ==> path::components_of(dirs.last()).len()
                == 0
        }),
{
    if path::within(directory, workspace_root) {
        lemma_search_end(directory, workspace_root);
    } else {
        lemma_search_top(directory);
    }
}

proof fn lemma_search_end(directory: Seq<char>, root: Seq<char>)
    requires
        path::within(directory, root),
    ensures
        path::absolute(directory) == path::absolute(root) ==> path::same_path(
            registry::search_dirs(directory, Some(root)).last(),
            root,
        ),
    decreases directory.len(),
{
    path::lemma_parent(directory);
    if path::absolute(directory) == path::absolute(root) && !path::same_path(directory, root) {
        path::law_parent_stays_within(directory, root);
        if let Some(parent) = path::parent_of(directory) {
            lemma_search_end(parent, root);
            law_search_goes_up(parent, Some(root));
            let rest = registry::search_dirs(parent, Some(root));
            assert((seq![directory] + rest).last() == rest.last());
        }
    }
}

proof fn lemma_search_top(directory: Seq<char>)
    ensures
        path::components_of(registry::search_dirs(directory, None).last()).len() == 0,
    decreases directory.len(),
{
    path::lemma_parent(directory);
    if let Some(parent) = path::parent_of(directory) {
        lemma_search_top(parent);
        law_search_goes_up(parent, None);
        let rest = registry::search_dirs(parent, None);
        assert((seq![directory] + rest).last() == rest.last());
    }
}

/// The search begins at the directory that holds the document, and there is none
/// where no markers are looked for.
pub proof fn law_search_begins_beside_the_document(document: Seq<char>)
    requires
        path::components_of(document).len() > 0,
    ensures
        registry::directory_of(Some(document), false) is None,
        registry::directory_of(None, true) is None,
        registry::directory_of(Some(document), true) is Some,
        path::components_of(registry::directory_of(Some(document), true)->0)
            == path::components_of(document).drop_last(),
        path::absolute(registry::directory_of(Some(document), true)->0) == path::absolute(document),
{
    path::lemma_parent(document);
}

/// A workspace is where the file system says that it is. Without its word an
/// absolute path stands by itself, and any other lies below the current
/// directory.
pub proof fn law_workspaces_are_found(
    root: Seq<char>,
    found: Seq<char>,
    current: Seq<char>,
    dir: Option<Seq<char>>,
)
    ensures
        registry::workspace_path(root, Some(found), dir) == found,
        path::absolute(root) ==> registry::workspace_path(root, None, dir) == root,
        !path::absolute(root) && current.len() > 0 && current.last() != '/'
            ==> registry::workspace_path(root, None, Some(current)) == current + "/"@ + root,
        !path::absolute(root) && current.len() > 0 && current.last() == '/'
            ==> registry::workspace_path(root, None, Some(current)) == current + root,
        !path::absolute(root) ==> registry::workspace_path(root, None, None) == "/"@ + root,
{
    reveal_strlit("/");
}

// ---------------------------------------------------------------------------
// Choosing
// ---------------------------------------------------------------------------

/// One text comes before another where they first differ by a smaller character,
/// or where it ends there.
pub proof fn law_texts_are_ordered_by_their_first_difference(
    a: Seq<char>,
    b: Seq<char>,
    k: int,
)
    requires
        0 <= k <= a.len(),
        k <= b.len(),
        forall|i: int| 0 <= i < k ==> a[i] == b[i],
    ensures
        k < a.len() && k < b.len() && a[k] < b[k] ==> text::text_less(a, b) && !text::text_less(
            b,
            a,
        ),
        k == a.len() && k < b.len() ==> text::text_less(a, b) && !text::text_less(b, a),
    decreases k,
{
    if k > 0 {
        assert(a[0] == b[0]);
        law_texts_are_ordered_by_their_first_difference(a.drop_first(), b.drop_first(), k - 1);
    }
}

/// The server that is chosen for a filetype lists it. No other server that lists
/// it has a higher priority, and of those with the same priority its name comes
/// first.
pub proof fn law_highest_priority_is_chosen(
    chosen: (Seq<char>, ServerConfigView),
    servers: Map<Seq<char>, ServerConfigView>,
    filetype: Seq<char>,
    other: Seq<char>,
)
    requires
        config::is_chosen(chosen, servers, filetype),
        servers.contains_key(other),
        servers[other].filetypes.contains(filetype),
        other != chosen.0,
    ensures
        servers.contains_key(chosen.0) && servers[chosen.0] == chosen.1,
        chosen.1.filetypes.contains(filetype),
        servers[other].priority <= chosen.1.priority,
        servers[other].priority == chosen.1.priority ==> text::text_less(chosen.0, other),
{
    assert(config::handles(servers[other], filetype));
}

/// The servers of a filetype come from the highest priority down, each that lists
/// the filetype once, and no other.
pub proof fn law_servers_come_by_priority(
    list: Seq<(Seq<char>, ServerConfigView)>,
    servers: Map<Seq<char>, ServerConfigView>,
    filetype: Seq<char>,
    name: Seq<char>,
)
    requires
        config::is_server_order(list, servers, filetype),
    ensures
        forall|i: int, j: int|
            0 <= i < j < list.len() ==> (#[trigger] list[i]).1.priority >= (
            #[trigger] list[j]).1.priority && list[i].0 != list[j].0,
        servers.contains_key(name) && servers[name].filetypes.contains(filetype) <==> exists|i: int|
            0 <= i < list.len() && (#[trigger] list[i]).0 == name,
        forall|i: int|
            0 <= i < list.len() ==> servers.contains_key((#[trigger] list[i]).0)
                && servers[list[i].0] == list[i].1,
{
    assert forall|i: int, j: int| 0 <= i < j < list.len() implies (
    #[trigger] list[i]).1.priority >= (#[trigger] list[j]).1.priority && list[i].0
        != list[j].0 by {
        assert(config::server_before(list[i], list[j]));
        text::lemma_text_less_total(list[i].0, list[j].0);
    }
    if servers.contains_key(name) && servers[name].filetypes.contains(filetype) {
        assert(config::handles(servers[name], filetype));
        let i = choose|i: int| 0 <= i < list.len() && list[i] == (name, servers[name]);
        assert(list[i].0 == name);
    }
    if exists|i: int| 0 <= i < list.len() && (#[trigger] list[i]).0 == name {
        let i = choose|i: int| 0 <= i < list.len() && (#[trigger] list[i]).0 == name;
        assert(config::handles(list[i].1, filetype));
    }
}

/// A server is started only where its filetype has none that runs, and then the
/// one that is configured for it; and where a server of that name runs already,
/// it serves the filetype as well.
pub proof fn law_servers_are_started_once(
    step: EnsureStep,
    r: RegistryView,
    after: RegistryView,
    filetype: Seq<char>,
)
    requires
        registry::is_ensure_step(step, r, after, filetype),
    ensures
        step matches EnsureStep::Start { name, server } ==> {
            &&& r.servers.contains_key(name@)
            &&& r.servers[name@] == server.deep_view()
            &&& server.deep_view().filetypes.contains(filetype)
            &&& !r.clients.contains_key(name@)
            &&& after == r
            &&& forall|other: Seq<char>| #[trigger]
                r.servers.contains_key(other) && r.servers[other].filetypes.contains(filetype)
                    && other != name@ ==> r.servers[other].priority <= server.deep_view().priority
                    && (r.servers[other].priority == server.deep_view().priority
                    ==> text::text_less(name@, other))
        },
        step matches EnsureStep::Ready(name) ==> {
            &&& r.clients.contains_key(name@)
            &&& after.ft_map.contains_key(filetype)
            &&& after.ft_map[filetype].contains(name@)
            &&& after.clients == r.clients
        },
        step is NoServer ==> forall|name: Seq<char>| #[trigger]
            r.servers.contains_key(name) ==> !r.servers[name].filetypes.contains(filetype),
        r.ft_map.contains_key(filetype) && r.ft_map[filetype].len() > 0 && r.clients.contains_key(
            r.ft_map[filetype][0],
        ) ==> (step matches EnsureStep::Ready(name) && name@ == r.ft_map[filetype][0]),
{
    if let EnsureStep::Start { name, server } = step {
        assert forall|other: Seq<char>| #[trigger]
            r.servers.contains_key(other) && r.servers[other].filetypes.contains(filetype) && other
                != name@ implies r.servers[other].priority <= server.deep_view().priority && (
        r.servers[other].priority == server.deep_view().priority ==> text::text_less(
            name@,
            other,
        )) by {
            assert(config::handles(r.servers[other], filetype));
        }
    }
    if let EnsureStep::Ready(name) = step {
        if registry::primary_runs(r, filetype) {
            assert(r.ft_map[filetype][0] == name@);
        } else {
            let names = if r.ft_map.contains_key(filetype) {
                r.ft_map[filetype]
            } else {
                Seq::empty()
            };
            if !names.contains(name@) {
                assert(names.push(name@)[names.len() as int] == name@);
            }
        }
    }
    if step is NoServer {
        assert forall|name: Seq<char>| #[trigger]
            r.servers.contains_key(name) implies !r.servers[name].filetypes.contains(filetype) by {
            assert(!config::handles(r.servers[name], filetype));
        }
    }
}

// ---------------------------------------------------------------------------
// Finding
// ---------------------------------------------------------------------------

/// A request goes to the first server of its filetype, where that runs and is
/// alive, and to no other.
pub proof fn law_requests_go_to_the_primary(
    r: RegistryView,
    filetype: Seq<char>,
    alive: Seq<u64>,
    names: Seq<Seq<char>>,
)
    requires
        r.ft_map.contains_key(filetype),
        r.ft_map[filetype] == names,
        names.len() > 0,
    ensures
        r.clients.contains_key(names[0]) && alive.contains(r.clients[names[0]])
            ==> registry::client_for(r, filetype, alive) == Some(r.clients[names[0]]),
        !r.clients.contains_key(names[0]) || !alive.contains(r.clients[names[0]])
            ==> registry::client_for(r, filetype, alive) is None,
{
}

/// A document is told to every server of its filetype that runs and is alive, in
/// order, and to no other.
pub proof fn law_every_live_server_is_told(
    r: RegistryView,
    filetype: Seq<char>,
    alive: Seq<u64>,
    names: Seq<Seq<char>>,
    i: int,
)
    requires
        r.ft_map.contains_key(filetype),
        r.ft_map[filetype] == names,
        0 <= i < names.len(),
    ensures
        r.clients.contains_key(names[i]) && alive.contains(r.clients[names[i]])
            ==> registry::clients_for(r, filetype, alive).contains(r.clients[names[i]]),
        forall|h: u64| #[trigger]
            registry::clients_for(r, filetype, alive).contains(h) ==> alive.contains(h) && exists|
                k: int,
            |
                0 <= k < names.len() && r.clients.contains_key(#[trigger] names[k])
                    && r.clients[names[k]] == h,
        (forall|k: int|
            0 <= k < names.len() ==> r.clients.contains_key(#[trigger] names[k]) && alive.contains(
                r.clients[names[k]],
            )) ==> registry::clients_for(r, filetype, alive).len() == names.len()
            && registry::clients_for(r, filetype, alive)[i] == r.clients[names[i]],
{
    let p = |name: Seq<char>| registry::client_named(r, name, alive) is Some;
    let f = |name: Seq<char>| registry::client_named(r, name, alive)->0;
    let kept = names.filter(p);
    let list = registry::clients_for(r, filetype, alive);
    if r.clients.contains_key(names[i]) && alive.contains(r.clients[names[i]]) {
        names.lemma_filter_contains(p, i);
        let k = choose|k: int| 0 <= k < kept.len() && kept[k] == names[i];
        assert(list[k] == r.clients[names[i]]);
    }
    assert forall|h: u64| #[trigger] list.contains(h) implies alive.contains(h) && exists|k: int|
        0 <= k < names.len() && r.clients.contains_key(#[trigger] names[k])
            && r.clients[names[k]] == h by {
        let k = choose|k: int| 0 <= k < list.len() && list[k] == h;
        names.lemma_filter_pred(p, k);
        assert(kept.contains(kept[k]));
        names.lemma_filter_contains_rev(p, kept[k]);
        let m = choose|m: int| 0 <= m < names.len() && names[m] == kept[k];
        assert(r.clients.contains_key(names[m]));
    }
    if forall|k: int|
        0 <= k < names.len() ==> r.clients.contains_key(#[trigger] names[k]) && alive.contains(
            r.clients[names[k]],
        ) {
        lemma_filter_all(names, p);
    }
}

proof fn lemma_filter_all(s: Seq<Seq<char>>, p: spec_fn(Seq<char>) -> bool)
    requires
        forall|k: int| 0 <= k < s.len() ==> p(#[trigger] s[k]),
    ensures
        s.filter(p) == s,
    decreases s.len(),
{
    reveal(Seq::filter);
    if s.len() > 0 {
        assert forall|k: int| 0 <= k < s.drop_last().len() implies p(
            #[trigger] s.drop_last()[k],
        ) by {
            assert(p(s[k]));
        }
        lemma_filter_all(s.drop_last(), p);
        assert(p(s[s.len() - 1]));
        assert(s.drop_last().push(s.last()) =~= s);
    }
}

/// Servers that have died are forgotten, and nothing else: those that live keep
/// their names and the filetypes that they serve, in order.
pub proof fn law_only_dead_servers_are_forgotten(
    r: RegistryView,
    alive: Seq<u64>,
    name: Seq<char>,
    filetype: Seq<char>,
)
    ensures
        ({
            let live = registry::pruned(r, alive);
            &&& live.clients.contains_key(name) <==> r.clients.contains_key(name)
                && alive.contains(r.clients[name])
            &&& live.clients.contains_key(name) ==> live.clients[name] == r.clients[name]
            &&& live.servers == r.servers
            &&& live.root_dir == r.root_dir
            &&& live.clients.contains_key(name) && r.ft_map.contains_key(filetype)
                && r.ft_map[filetype].contains(name) ==> live.ft_map.contains_key(filetype)
                && live.ft_map[filetype].contains(name)
            &&& r.ft_map.contains_key(filetype) && r.ft_map[filetype].len() > 0
                && live.clients.contains_key(r.ft_map[filetype][0]) ==> live.ft_map.contains_key(
                filetype,
            ) && live.ft_map[filetype].len() > 0 && live.ft_map[filetype][0]
                == r.ft_map[filetype][0]
        }),
{
    let live = registry::pruned(r, alive);
    let p = |n: Seq<char>| live.clients.contains_key(n);
    if r.ft_map.contains_key(filetype) {
        let names = r.ft_map[filetype];
        if live.clients.contains_key(name) && names.contains(name) {
            let i = choose|i: int| 0 <= i < names.len() && names[i] == name;
            names.lemma_filter_contains(p, i);
            assert(names.filter(p).contains(name));
        }
        if names.len() > 0 && live.clients.contains_key(names[0]) {
            seqs::lemma_filter_start(names, p);
            seqs::lemma_filter_places(names, names.len() as int, p);
            assert(names.take(names.len() as int) =~= names);
            assert(names.filter(p)[0] == names[0]);
        }
    }
}

/// A server that was started runs under its number and serves its filetype,
/// behind those that served it before.
pub proof fn law_started_servers_serve(
    r: RegistryView,
    filetype: Seq<char>,
    name: Seq<char>,
    other: Seq<char>,
)
    ensures
        ({
            let after = registry::with_server(r, filetype, name);
            &&& after.ft_map.contains_key(filetype)
            &&& after.ft_map[filetype].contains(name)
            &&& r.ft_map.contains_key(filetype) ==> r.ft_map[filetype].is_prefix_of(
                after.ft_map[filetype],
            )
            &&& r.ft_map.contains_key(filetype) && r.ft_map[filetype].contains(name)
                ==> after.ft_map[filetype] == r.ft_map[filetype]
            &&& other != filetype ==> (after.ft_map.contains_key(other) == r.ft_map.contains_key(
                other,
            ))
            &&& other != filetype && r.ft_map.contains_key(other) ==> after.ft_map[other]
                == r.ft_map[other]
            &&& after.clients == r.clients
            &&& after.servers == r.servers
        }),
{
    let names = if r.ft_map.contains_key(filetype) {
        r.ft_map[filetype]
    } else {
        Seq::empty()
    };
    if !names.contains(name) {
        assert(names.push(name)[names.len() as int] == name);
    }
}

/// Every running server is stopped, once: as many as run, and each among them.
pub proof fn law_every_running_server_is_listed(
    list: Seq<u64>,
    clients: Map<Seq<char>, u64>,
    name: Seq<char>,
)
    requires
        registry::is_all_clients(list, clients),
    ensures
        clients.contains_key(name) ==> list.contains(clients[name]),
        forall|h: u64| #[trigger]
            list.contains(h) ==> exists|n: Seq<char>| #[trigger]
                clients.contains_key(n) && clients[n] == h,
        clients.dom().finite() && list.len() == clients.dom().len(),
{
    let keys = choose|keys: Seq<Seq<char>>|
        json::arranges(keys, clients.dom()) && list == #[trigger] registry::clients_of(
            keys,
            clients,
        );
    if clients.contains_key(name) {
        assert(keys.contains(name));
        let i = choose|i: int| 0 <= i < keys.len() && keys[i] == name;
        assert(list[i] == clients[name]);
    }
    assert forall|h: u64| #[trigger] list.contains(h) implies exists|n: Seq<char>| #[trigger]
        clients.contains_key(n) && clients[n] == h by {
        let i = choose|i: int| 0 <= i < list.len() && list[i] == h;
        assert(keys.contains(keys[i]));
        assert(clients.contains_key(keys[i]));
    }
    assert(keys.to_set() =~= clients.dom());
    keys.unique_seq_to_set();
}

/// Every running server that is alive is listed, and no other.
pub proof fn law_every_live_server_is_listed(
    list: Seq<u64>,
    r: RegistryView,
    alive: Seq<u64>,
    name: Seq<char>,
)
    requires
        registry::is_active_clients(list, r, alive),
    ensures
        r.clients.contains_key(name) && alive.contains(r.clients[name]) ==> list.contains(
            r.clients[name],
        ),
        forall|h: u64| #[trigger]
            list.contains(h) ==> alive.contains(h) && exists|n: Seq<char>| #[trigger]
                r.clients.contains_key(n) && r.clients[n] == h,
{
    let keys = choose|keys: Seq<Seq<char>>|
        json::arranges(keys, r.clients.dom()) && list == #[trigger] registry::clients_in(
            keys,
            r,
            alive,
        );
    let p = |n: Seq<char>| registry::client_named(r, n, alive) is Some;
    let kept = keys.filter(p);
    if r.clients.contains_key(name) && alive.contains(r.clients[name]) {
        assert(keys.contains(name));
        let i = choose|i: int| 0 <= i < keys.len() && keys[i] == name;
        keys.lemma_filter_contains(p, i);
        let k = choose|k: int| 0 <= k < kept.len() && kept[k] == name;
        assert(list[k] == r.clients[name]);
    }
    assert forall|h: u64| #[trigger] list.contains(h) implies alive.contains(h) && exists|
        n: Seq<char>,
    | #[trigger]
        r.clients.contains_key(n) && r.clients[n] == h by {
        let k = choose|k: int| 0 <= k < list.len() && list[k] == h;
        keys.lemma_filter_pred(p, k);
        assert(r.clients.contains_key(kept[k]));
    }
}

// ---------------------------------------------------------------------------
// Commands
// ---------------------------------------------------------------------------

/// A command that is an absolute path is used where there is such a file; one
/// that is not must be looked for. What is installed for Julia is no command.
pub proof fn law_commands_are_found(
    name: Seq<char>,
    command: Seq<char>,
    managed: Seq<char>,
    exists_at: bool,
)
    ensures
        name != "julia-lsp"@ ==> registry::local_command(name, command, Some(managed), exists_at)
            == Some(managed),
        name == "julia-lsp"@ ==> registry::local_command(name, command, Some(managed), exists_at)
            == registry::local_command(name, command, None, exists_at),
        command.len() > 0 && command[0] == '/' && exists_at ==> registry::local_command(
            name,
            command,
            None,
            exists_at,
        ) == Some(command),
        command.len() == 0 || command[0] != '/' || !exists_at ==> registry::local_command(
            name,
            command,
            None,
            exists_at,
        ) is None,
{
}

/// A server is started exactly where its command was found and, for Julia, where
/// its package is installed. Otherwise the editor hears which server is missing,
/// why, and whether it can be installed.
pub proof fn law_missing_commands_are_reported(
    name: Seq<char>,
    command: Seq<char>,
    resolved: bool,
    julia_installed: bool,
)
    ensures
        registry::launch_problem(name, command, resolved, julia_installed) is None <==> resolved
            && (name != "julia-lsp"@ || julia_installed),
        registry::launch_problem(name, command, resolved, julia_installed) matches Some(e) ==> {
            &&& shapes::has_text(e, "type"@, "serverStatus"@)
            &&& shapes::has_text(e, "server"@, name)
            &&& shapes::has_text(e, "status"@, "notFound"@)
            &&& !resolved ==> shapes::has_text(e, "message"@, "command not found: "@ + command)
            &&& !resolved ==> shapes::has(
                e,
                "installable"@,
                JsonView::Bool(installer::server_meta(name) is Some),
            )
            &&& resolved ==> shapes::has(e, "installable"@, JsonView::Bool(true))
        },
{
    reveal_strlit("type");
    reveal_strlit("server");
    reveal_strlit("status");
    reveal_strlit("message");
    reveal_strlit("installable");
    assert("type"@.len() == 4 && "server"@.len() == 6 && "status"@.len() == 6 && "message"@.len()
        == 7 && "installable"@.len() == 11);
    assert("server"@[1] != "status"@[1]);
}

/// A new command changes the command of its server, and nothing else.
pub proof fn law_new_commands_change_one_server(
    r: RegistryView,
    name: Seq<char>,
    command: Seq<char>,
    other: Seq<char>,
)
    ensures
        ({
            let after = registry::with_command(r, name, command);
            &&& r.servers.contains_key(name) ==> after.servers.contains_key(name)
                && after.servers[name].command == command && after.servers[name].args
                == r.servers[name].args && after.servers[name].filetypes == r.servers[name].filetypes
                && after.servers[name].priority == r.servers[name].priority
                && after.servers[name].settings == r.servers[name].settings
            &&& after.servers.contains_key(other) == r.servers.contains_key(other)
            &&& other != name && r.servers.contains_key(other) ==> after.servers[other]
                == r.servers[other]
            &&& after.clients == r.clients
            &&& after.ft_map == r.ft_map
        }),
{
}

// ---------------------------------------------------------------------------
// Configuration
// ---------------------------------------------------------------------------

/// A server that has no settings of itself gets those that are configured for it,
/// and none where none are.
pub proof fn law_configured_settings_are_given(
    servers: Map<Seq<char>, ServerConfigView>,
    name: Seq<char>,
    configured: JsonView,
)
    requires
        servers.contains_key(name),
        name != "julia-lsp"@,
    ensures
        servers[name].settings == Some(configured) ==> registry::new_settings(servers, name)
            == Some(configured),
        servers[name].settings is None ==> registry::new_settings(servers, name) is None,
{
}

/// A server that is no longer configured gets no settings.
pub proof fn law_unconfigured_servers_get_no_settings(
    servers: Map<Seq<char>, ServerConfigView>,
    name: Seq<char>,
)
    requires
        !servers.contains_key(name),
    ensures
        registry::new_settings(servers, name) is None,
{
}

/// Each running server gets the settings of its own name from a new
/// configuration, once.
pub proof fn law_each_server_gets_its_own_settings(
    keys: Seq<Seq<char>>,
    clients: Map<Seq<char>, u64>,
    servers: Map<Seq<char>, ServerConfigView>,
    name: Seq<char>,
)
    requires
        json::arranges(keys, clients.dom()),
        clients.contains_key(name),
    ensures
        exists|i: int|
            0 <= i < keys.len() && (#[trigger] registry::updates_in(keys, clients, servers)[i])
                == (clients[name], registry::new_settings(servers, name)),
        registry::updates_in(keys, clients, servers).len() == keys.len(),
{
    assert(keys.contains(name));
    let i = choose|i: int| 0 <= i < keys.len() && keys[i] == name;
    assert(registry::updates_in(keys, clients, servers)[i] == (
        clients[name],
        registry::new_settings(servers, name),
    ));
}

/// A configuration is refused exactly for a server without a name, without a
/// command, or with a filetype without a name.
pub proof fn law_problems_are_blanks(name: Seq<char>, server: ServerConfigView)
    ensures
        config::server_problem(name, server) is None <==> {
            &&& !is_blank(name)
            &&& !is_blank(server.command)
            &&& forall|i: int|
                0 <= i < server.filetypes.len() ==> !is_blank(#[trigger] server.filetypes[i])
        },
        is_blank(name) ==> config::server_problem(name, server) == Some(
            "language server names must not be empty"@,
        ),
        !is_blank(name) && is_blank(server.command) ==> config::server_problem(name, server)
            == Some("language server '"@ + name + "' has an empty command"@),
{
    lemma_blank(name);
    lemma_blank(server.command);
    assert forall|i: int| 0 <= i < server.filetypes.len() implies is_blank(
        #[trigger] server.filetypes[i],
    ) == (text::trimmed(server.filetypes[i]).len() == 0) by {
        lemma_blank(server.filetypes[i]);
    }
    if config::has_blank(server.filetypes) {
        let i = choose|i: int|
            0 <= i < server.filetypes.len() && text::trimmed(
                #[trigger] server.filetypes[i],
            ).len() == 0;
        assert(is_blank(server.filetypes[i]));
    }
}

/// Whether a text holds nothing but white space.
pub open spec fn is_blank(s: Seq<char>) -> bool {
    forall|i: int| 0 <= i < s.len() ==> text::whitespace(#[trigger] s[i])
}

proof fn lemma_blank(s: Seq<char>)
    ensures
        is_blank(s) <==> text::trimmed(s).len() == 0,
    decreases s.len(),
{
    if s.len() > 0 {
        if text::whitespace(s[0]) {
            lemma_blank(s.drop_first());
            if is_blank(s.drop_first()) {
                assert forall|i: int| 0 <= i < s.len() implies text::whitespace(
                    #[trigger] s[i],
                ) by {
                    if i > 0 {
                        assert(text::whitespace(s.drop_first()[i - 1]));
                    }
                }
            }
            if is_blank(s) {
                assert forall|i: int| 0 <= i < s.drop_first().len() implies text::whitespace(
                    #[trigger] s.drop_first()[i],
                ) by {
                    assert(text::whitespace(s[i + 1]));
                }
            }
        } else {
            lemma_end_stays(s);
            assert(!is_blank(s));
        }
    }
}

proof fn lemma_end_stays(s: Seq<char>)
    requires
        s.len() > 0,
        !text::whitespace(s[0]),
    ensures
        text::trim_end(s).len() > 0,
    decreases s.len(),
{
    if text::whitespace(s.last()) {
        lemma_end_stays(s.drop_last());
    }
}

/// The configuration of a project is the first file that exists, and a path that
/// is given is taken before any.
pub proof fn law_first_existing_file_is_taken(
    candidates: Seq<Seq<u8>>,
    exists_at: Seq<bool>,
    i: int,
    given: Seq<u8>,
)
    requires
        candidates.len() == exists_at.len(),
    ensures
        0 <= i < candidates.len() && exists_at[i] && (forall|j: int| 0 <= j < i ==> !exists_at[j])
            ==> config::selected_path(None, candidates, exists_at) == Some(candidates[i]),
        (forall|j: int| 0 <= j < candidates.len() ==> !exists_at[j]) ==> config::selected_path(
            None,
            candidates,
            exists_at,
        ) is None,
        given.len() > 0 ==> config::selected_path(Some(given), candidates, exists_at) == Some(
            given,
        ),
        given.len() == 0 ==> config::selected_path(Some(given), candidates, exists_at)
            == config::selected_path(None, candidates, exists_at),
    decreases candidates.len(),
{
    if candidates.len() > 0 && !exists_at[0] {
        let cs = candidates.drop_first();
        let es = exists_at.drop_first();
        law_first_existing_file_is_taken(cs, es, i - 1, given);
        if i < candidates.len() && forall|j: int| 0 <= j < i ==> !exists_at[j] {
            assert forall|j: int| 0 <= j < i - 1 implies !es[j] by {
                assert(!exists_at[j + 1]);
            }
        }
        if forall|j: int| 0 <= j < candidates.len() ==> !exists_at[j] {
            assert forall|j: int| 0 <= j < cs.len() implies !es[j] by {
                assert(!exists_at[j + 1]);
            }
        }
    }
}

/// A configuration is valid exactly where none of its servers has a problem.
pub proof fn law_valid_configurations_have_no_problem(
    servers: Map<Seq<char>, ServerConfigView>,
    name: Seq<char>,
    error: Seq<char>,
)
    ensures
        config::is_valid(servers) && servers.contains_key(name) ==> !is_blank(name) && !is_blank(
            servers[name].command,
        ),
        config::is_problem(error, servers) ==> !config::is_valid(servers),
        !config::is_valid(servers) ==> exists|e: Seq<char>| #[trigger] config::is_problem(e, servers),
{
    if config::is_valid(servers) && servers.contains_key(name) {
        law_problems_are_blanks(name, servers[name]);
    }
    if !config::is_valid(servers) {
        let n = choose|n: Seq<char>| #[trigger]
            servers.contains_key(n) && config::server_problem(n, servers[n]) is Some;
        assert(config::is_problem(config::server_problem(n, servers[n])->0, servers));
    }
}

/// The built-in servers: each under its name, with the filetypes it is for and the
/// markers of its projects.
pub proof fn law_builtin_servers_serve_their_filetypes()
    ensures
        is_builtin("rust-analyzer"@, "rust-analyzer"@, "rust"@, "Cargo.toml"@),
        is_builtin("clangd"@, "clangd"@, "c"@, "compile_commands.json"@),
        is_builtin("clangd"@, "clangd"@, "cpp"@, ".clangd"@),
        is_builtin("pyright"@, "pyright-langserver"@, "python"@, "pyproject.toml"@),
        is_builtin(
            "typescript-language-server"@,
            "typescript-language-server"@,
            "typescript"@,
            "tsconfig.json"@,
        ),
        is_builtin(
            "typescript-language-server"@,
            "typescript-language-server"@,
            "javascript"@,
            "package.json"@,
        ),
        is_builtin(
            "typescript-language-server"@,
            "typescript-language-server"@,
            "typescriptreact"@,
            "package.json"@,
        ),
        is_builtin(
            "typescript-language-server"@,
            "typescript-language-server"@,
            "javascriptreact"@,
            "package.json"@,
        ),
        is_builtin("lua-language-server"@, "lua-language-server"@, "lua"@, ".luarc.json"@),
        is_builtin("gopls"@, "gopls"@, "go"@, "go.mod"@),
        is_builtin("gopls"@, "gopls"@, "gomod"@, "go.mod"@),
        is_builtin("julia-lsp"@, "julia"@, "julia"@, "Project.toml"@),
{
    reveal_strlit("rust-analyzer");
    reveal_strlit("clangd");
    reveal_strlit("pyright");
    reveal_strlit("typescript-language-server");
    reveal_strlit("lua-language-server");
    reveal_strlit("gopls");
    reveal_strlit("julia-lsp");
    assert("rust-analyzer"@.len() == 13 && "clangd"@.len() == 6 && "pyright"@.len() == 7
        && "typescript-language-server"@.len() == 26 && "lua-language-server"@.len() == 19
        && "gopls"@.len() == 5 && "julia-lsp"@.len() == 9);
    let s = config::default_servers();
    assert(s["rust-analyzer"@].filetypes[0] == "rust"@);
    assert(s["rust-analyzer"@].root_patterns[0] == "Cargo.toml"@);
    assert(s["clangd"@].filetypes[0] == "c"@);
    assert(s["clangd"@].filetypes[1] == "cpp"@);
    assert(s["clangd"@].root_patterns[0] == "compile_commands.json"@);
    assert(s["clangd"@].root_patterns[1] == ".clangd"@);
    assert(s["pyright"@].filetypes[0] == "python"@);
    assert(s["pyright"@].root_patterns[0] == "pyproject.toml"@);
    assert(s["typescript-language-server"@].filetypes[0] == "typescript"@);
    assert(s["typescript-language-server"@].filetypes[1] == "javascript"@);
    assert(s["typescript-language-server"@].filetypes[2] == "typescriptreact"@);
    assert(s["typescript-language-server"@].filetypes[3] == "javascriptreact"@);
    assert(s["typescript-language-server"@].root_patterns[0] == "package.json"@);
    assert(s["typescript-language-server"@].root_patterns[1] == "tsconfig.json"@);
    assert(s["lua-language-server"@].filetypes[0] == "lua"@);
    assert(s["lua-language-server"@].root_patterns[0] == ".luarc.json"@);
    assert(s["gopls"@].filetypes[0] == "go"@);
    assert(s["gopls"@].filetypes[1] == "gomod"@);
    assert(s["gopls"@].root_patterns[0] == "go.mod"@);
    assert(s["julia-lsp"@].filetypes[0] == "julia"@);
    assert(s["julia-lsp"@].root_patterns[0] == "Project.toml"@);
}

/// Whether a server is built in with a command, a filetype and a marker.
pub open spec fn is_builtin(
    name: Seq<char>,
    command: Seq<char>,
    filetype: Seq<char>,
    marker: Seq<char>,
) -> bool {
    &&& config::default_servers().contains_key(name)
    &&& config::default_servers()[name].command == command
    &&& config::default_servers()[name].filetypes.contains(filetype)
    &&& config::default_servers()[name].root_patterns.contains(marker)
    &&& config::default_servers()[name].priority == 0
}


} // verus!
