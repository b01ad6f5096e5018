use simplecc::byte_path;
use simplecc::config::{Config, ServerConfig};
use simplecc::json::Json;
use simplecc::registry::{
    absolute_workspace_path, check_launch, directory_of_path, document_directory, found_command, is_tried, resolve_command,
    root_candidates, server_root_path, status_event, EnsureStep, Registry,
};
use simplecc::strmap::StrMap;
use simplecc::uri;

fn server(filetypes: &[&str], priority: i32) -> ServerConfig {
    ServerConfig {
        command: "server".to_string(),
        args: vec![],
        filetypes: filetypes.iter().map(|ft| ft.to_string()).collect(),
        root_patterns: vec![],
        initialization_options: None,
        settings: None,
        priority,
    }
}

fn config() -> Config {
    let mut language_servers = StrMap::new();
    language_servers.insert("one", server(&["rust", "toml"], 0));
    language_servers.insert("two", server(&["c"], 0));
    Config { language_servers }
}

fn select_root_bytes(
    workspace: &[u8],
    document_uri: &str,
    markers: &[&str],
    existing: &[&[u8]],
) -> Vec<u8> {
    let patterns: Vec<String> = markers.iter().map(|marker| marker.to_string()).collect();
    let Some(directory) = document_directory(document_uri, &patterns) else {
        return workspace.to_vec();
    };
    let dirs = root_candidates(&directory, workspace);
    let marked = dirs
        .iter()
        .map(|dir| {
            markers.iter().any(|marker| {
                existing.contains(&byte_path::join(dir, marker.as_bytes()).as_slice())
            })
        })
        .collect();
    server_root_path(workspace, &dirs, &marked)
}

fn select_root(workspace: &str, document_uri: &str, markers: &[&str], existing: &[&str]) -> String {
    let existing: Vec<&[u8]> = existing.iter().map(|path| path.as_bytes()).collect();
    let root = select_root_bytes(workspace.as_bytes(), document_uri, markers, &existing);
    String::from_utf8(root).unwrap()
}

#[test]
fn root_patterns_choose_the_nearest_marker_without_crossing_workspace() {
    let workspace = "/tmp/simplecc-registry-root";
    let package = format!("{workspace}/packages/app");
    let document_uri = uri::uri_of_file(&format!("{package}/src/main.rs")).unwrap();
    let marker = format!("{package}/Cargo.toml");
    let selected = select_root(workspace, &document_uri, &["Cargo.toml"], &[&marker]);
    assert_eq!(selected, package);
}

#[test]
fn root_patterns_do_not_select_a_marker_above_the_workspace() {
    let sandbox = "/tmp/simplecc-registry-boundary";
    let workspace = format!("{sandbox}/workspace");
    let document_uri = uri::uri_of_file(&format!("{workspace}/src/main.rs")).unwrap();
    let marker = format!("{sandbox}/Cargo.toml");
    let selected = select_root(&workspace, &document_uri, &["Cargo.toml"], &[&marker]);
    assert_eq!(selected, workspace);
}

#[test]
fn documents_outside_the_workspace_are_searched_to_the_top() {
    let document_uri = "file:///other/lib/src/a.rs";
    assert_eq!(
        select_root("/work", document_uri, &["Cargo.toml"], &["/other/Cargo.toml"]),
        "/other"
    );
    assert_eq!(select_root("/work", document_uri, &["Cargo.toml"], &[]), "/work");
    assert_eq!(select_root("/work", document_uri, &[], &["/other/Cargo.toml"]), "/work");
    assert_eq!(select_root("/work", "untitled:1", &["x"], &["/x"]), "/work");
    assert_eq!(root_candidates(b"/a/b", b"/z"), [&b"/a/b"[..], b"/a", b"/"]);
    assert_eq!(root_candidates(b"/a/b/c", b"/a/b"), [b"/a/b/c".to_vec(), b"/a/b".to_vec()]);
    assert_eq!(directory_of_path(Some(b"/a/b.rs"), true).unwrap(), b"/a");
    assert!(directory_of_path(Some(b"/a/b.rs"), false).is_none());
    assert!(directory_of_path(None, true).is_none());
}

#[test]
fn roots_need_not_be_text() {
    let document_uri = "file:///w/%FF%20x/src/a.rs";
    assert_eq!(
        document_directory(document_uri, &vec!["m".to_string()]).unwrap(),
        b"/w/\xff x/src"
    );
    let root = select_root_bytes(b"/w", document_uri, &["m"], &[b"/w/\xff x/m", b"/m"]);
    assert_eq!(root, b"/w/\xff x");
    assert_eq!(uri::directory_uri(&root).unwrap(), "file:///w/%FF%20x/");
    // A directory that only looks like it once it is shown as text.
    let root = select_root_bytes(b"/w", document_uri, &["m"], &["/w/\u{fffd} x/m".as_bytes()]);
    assert_eq!(root, b"/w");
    // A workspace that differs in one byte is no boundary.
    let root = select_root_bytes(b"/w/\xfe x", document_uri, &["m"], &[b"/m"]);
    assert_eq!(root, b"/");
    let root = select_root_bytes(b"/w/\xff x", document_uri, &["m"], &[b"/m"]);
    assert_eq!(root, b"/w/\xff x");
}

#[test]
fn a_server_is_started_once_and_found_again() {
    let mut r = Registry::new(config(), "/w");
    match r.ensure_server("rust", &vec![]) {
        EnsureStep::Start { name, .. } => assert_eq!(name, "one"),
        _ => panic!("nothing to start"),
    }
    assert!(r.client_for_filetype("rust", &vec![]).is_none());
    let event = r.started("rust", "one", 7);
    assert_eq!(event.render(), r#"{"server":"one","status":"running","type":"serverStatus"}"#);

    let alive = vec![7];
    assert_eq!(r.client_for_filetype("rust", &alive), Some(7));
    assert_eq!(r.clients_for_filetype("rust", &alive), [7]);
    assert_eq!(r.client_by_name("one", &alive), Some(7));
    assert_eq!(r.active_clients(&alive), [7]);
    assert_eq!(r.active_servers(&alive), ["one"]);
    assert!(matches!(r.ensure_server("rust", &alive), EnsureStep::Ready(name) if name == "one"));
    assert!(r.client_for_filetype("toml", &alive).is_none());
    assert!(matches!(r.ensure_server("toml", &alive), EnsureStep::Ready(name) if name == "one"));
    assert_eq!(r.client_for_filetype("toml", &alive), Some(7));
    assert!(matches!(r.ensure_server("zig", &alive), EnsureStep::NoServer));
}

#[test]
fn dead_servers_are_forgotten() {
    let mut r = Registry::new(config(), "/w");
    r.started("rust", "one", 1);
    r.started("c", "two", 2);
    let alive = vec![2];
    assert!(r.client_for_filetype("rust", &alive).is_none());
    assert!(r.clients_for_filetype("rust", &alive).is_empty());
    r.prune_dead_clients(&alive);
    assert!(!r.clients.contains("one"));
    assert!(!r.ft_map.contains("rust"));
    assert_eq!(r.client_for_filetype("c", &alive), Some(2));
    assert!(matches!(r.ensure_server("rust", &alive), EnsureStep::Start { .. }));
    assert_eq!(r.shutdown_all(), [2]);
    assert!(r.active_clients(&alive).is_empty());
}

#[test]
fn a_new_configuration_reaches_the_servers_that_run() {
    let mut r = Registry::new(config(), "/w");
    r.started("rust", "one", 1);
    r.started("c", "two", 2);
    let mut language_servers = StrMap::new();
    let mut one = server(&["rust"], 0);
    one.settings = Some(Json::parse(br#"{"a":1}"#).unwrap());
    language_servers.insert("one", one);
    let updates = r.reload_configuration(Config { language_servers }, &vec![1, 2]);
    let mut seen: Vec<_> = updates
        .iter()
        .map(|update| (update.handle, update.settings.as_ref().map(|s| s.render())))
        .collect();
    seen.sort();
    assert_eq!(seen, [(1, Some(r#"{"a":1}"#.to_string())), (2, None)]);
    assert!(r.config.server_for_filetype("c").is_none());
    r.update_server_command("one", "/opt/one");
    r.update_server_command("missing", "/opt/x");
    assert_eq!(r.config.language_servers.get("one").unwrap().command, "/opt/one");
    assert!(r.config.language_servers.get("missing").is_none());
}

#[test]
fn managed_servers_come_before_the_search_path() {
    assert_eq!(resolve_command("gopls", "gopls", Some("/m/gopls"), false).unwrap(), "/m/gopls");
    assert_eq!(resolve_command("gopls", "/usr/bin/gopls", None, true).unwrap(), "/usr/bin/gopls");
    assert!(resolve_command("gopls", "/usr/bin/gopls", None, false).is_none());
    assert!(resolve_command("gopls", "gopls", None, true).is_none());
    assert!(resolve_command("julia-lsp", "julia", Some("/j/Project.toml"), false).is_none());
    assert!(is_tried("gopls") && !is_tried("pyright"));
    assert_eq!(found_command("gopls", Some("/bin/gopls"), true).unwrap(), "/bin/gopls");
    assert!(found_command("gopls", Some("/bin/gopls"), false).is_none());
    assert_eq!(found_command("pyright", Some("/bin/p"), false).unwrap(), "/bin/p");
    assert!(found_command("gopls", None, true).is_none());
}

#[test]
fn servers_that_cannot_start_are_reported() {
    assert_eq!(
        check_launch("gopls", "gopls", false, false).unwrap().render(),
        r#"{"installable":true,"message":"command not found: gopls","server":"gopls","status":"notFound","type":"serverStatus"}"#
    );
    assert_eq!(
        check_launch("mine", "m", false, false).unwrap().bool_at("installable"),
        Some(false)
    );
    assert_eq!(
        check_launch("julia-lsp", "julia", true, false).unwrap().str_at("message"),
        Some("LanguageServer.jl is not installed in the @simplecc environment")
    );
    assert!(check_launch("julia-lsp", "julia", true, true).is_none());
    assert!(check_launch("gopls", "gopls", true, false).is_none());
    assert_eq!(
        status_event("s", "error", Some("why")).render(),
        r#"{"message":"why","server":"s","status":"error","type":"serverStatus"}"#
    );
}

#[test]
fn workspaces_have_absolute_paths() {
    assert_eq!(
        absolute_workspace_path(b"/var/w", Some(b"/private/var/w"), None),
        b"/private/var/w"
    );
    assert_eq!(absolute_workspace_path(b"/gone", None, Some(b"/cwd")), b"/gone");
    assert_eq!(absolute_workspace_path(b"w", None, Some(b"/cwd")), b"/cwd/w");
    assert_eq!(absolute_workspace_path(b"w", None, Some(b"/\xff/")), b"/\xff/w");
    assert_eq!(absolute_workspace_path(b"w", None, None), b"/w");
}
