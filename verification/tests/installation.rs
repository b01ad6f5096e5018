use simplecc::installer::{
    base_install_dir, check_gzip_size, command_outcome, current_platform, find_server_meta,
    installed_binary_path, is_julia_lsp_installed, is_known_server, is_server_installed,
    is_usable_executable, julia_depot, julia_lsp_env_project, julia_outcome, known_servers,
    latest_release_url, list_installable, managed_binary, plan_install, progress_event, promote_next,
    promote_start, relocate_binary, server_install_dir, staged_binary, unique_sibling_path,
    ArchiveKind, CommandEnd, Download, Extraction, FileMeta, InstallEnv, InstallGuard, InstallPlan, Marker,
    PromoteAction, PromoteStep, ZipAction, MAX_DOWNLOAD_BYTES, MAX_EXTRACTED_BYTES,
};

fn env(home: Option<&str>) -> InstallEnv {
    InstallEnv { data_dir: None, home: home.map(|h| h.to_string()), julia_depot_path: None }
}

fn file(len: u64, mode: u32) -> Option<FileMeta> {
    Some(FileMeta { is_file: true, len, mode: Some(mode) })
}

#[test]
fn npm_servers_install_into_the_managed_prefix() {
    for name in ["pyright", "typescript-language-server"] {
        let meta = find_server_meta(name).unwrap();
        let install_dir = "/tmp/simplecc-managed-test";
        let command = meta.install_command(install_dir.as_bytes()).unwrap();
        assert_eq!(command.program, "npm");
        assert!(command.args.iter().any(|arg| arg == "--prefix"));
        assert!(command.args.iter().any(|arg| arg == install_dir));
        assert!(!command.args.iter().any(|arg| arg == "-g"));
        assert!(meta.binary_rel_path.contains("node_modules/.bin"));
    }
}

#[test]
fn zip_extraction_rejects_parent_directory_entries() {
    let mut extraction = Extraction::new();
    let name = "package/../../unsafe-zip-escaped";
    let result = extraction.zip_entry(name, None, false, 8, b"/tmp/unsafe-zip");
    assert!(result.is_err());
    assert_eq!(
        result.err().unwrap(),
        "unsafe zip entry path: package/../../unsafe-zip-escaped"
    );
}

#[test]
fn zip_extraction_strips_the_release_top_directory() {
    let mut extraction = Extraction::new();
    let name = "clangd-release/bin/clangd";
    match extraction.zip_entry(name, Some(name), false, 6, b"/tmp/safe-zip").ok().unwrap() {
        ZipAction::WriteFile(file) => assert_eq!(file, b"/tmp/safe-zip/bin/clangd"),
        _ => panic!("not a file"),
    }
    let top = "clangd-release/";
    assert!(matches!(
        extraction.zip_entry(top, Some(top), true, 0, b"/d"),
        Ok(ZipAction::Skip)
    ));
    match extraction.zip_entry("r/bin/", Some("r/bin/"), true, 0, b"/d").ok().unwrap() {
        ZipAction::MakeDir(dir) => assert_eq!(dir, b"/d/bin"),
        _ => panic!("not a directory"),
    }
    assert_eq!(extraction.extracted, 6);
}

#[test]
fn archives_expand_only_so_far() {
    let mut tar = Extraction::new();
    assert!(tar.tar_entry(true, MAX_EXTRACTED_BYTES).is_ok());
    assert_eq!(
        tar.tar_entry(true, 1).unwrap_err(),
        "expanded tar archive exceeds the safety limit"
    );
    assert_eq!(tar.tar_entry(true, u64::MAX).unwrap_err(), "expanded archive size overflow");
    assert_eq!(
        Extraction::new().tar_entry(false, 0).unwrap_err(),
        "archive contains unsupported link or special-file entry"
    );
    assert_eq!(
        Extraction::new().zip_entry("r/a", Some("r/a"), false, u64::MAX, b"/d").err().unwrap(),
        "expanded zip archive exceeds the safety limit"
    );
    assert!(check_gzip_size(MAX_EXTRACTED_BYTES).is_ok());
    assert_eq!(
        check_gzip_size(MAX_EXTRACTED_BYTES + 1).unwrap_err(),
        "expanded gzip exceeds the safety limit"
    );
}

#[test]
fn install_detection_rejects_empty_or_non_executable_files() {
    assert!(!is_usable_executable(file(0, 0o755)));
    assert!(!is_usable_executable(file(6, 0o644)));
    assert!(is_usable_executable(file(6, 0o755)));
    assert!(is_usable_executable(file(6, 0o100)));
    assert!(is_usable_executable(Some(FileMeta { is_file: true, len: 1, mode: None })));
    assert!(!is_usable_executable(Some(FileMeta { is_file: false, len: 1, mode: Some(0o755) })));
    assert!(!is_usable_executable(None));
}

#[derive(Clone, PartialEq, Debug)]
struct Tree {
    destination: Option<&'static str>,
    staged: Option<&'static str>,
    backup: Option<&'static str>,
}

fn promote(tree: &mut Tree, fails: impl Fn(PromoteAction) -> Option<&'static str>) -> Option<String> {
    let mut action = promote_start(tree.destination.is_some());
    let mut first = String::new();
    loop {
        let error = fails(action);
        if error.is_none() {
            match action {
                PromoteAction::SetAside => tree.backup = tree.destination.take(),
                PromoteAction::Activate { .. } => tree.destination = tree.staged.take(),
                PromoteAction::Restore => tree.destination = tree.backup.take(),
                PromoteAction::RemoveBackup => tree.backup = None,
            }
        } else if matches!(action, PromoteAction::Activate { .. }) {
            first = error.unwrap().to_string();
        }
        match promote_next(action, error, &first) {
            PromoteStep::Do(next) => action = next,
            PromoteStep::Done => return None,
            PromoteStep::Failed(error) => return Some(error),
        }
    }
}

#[test]
fn staged_installation_replaces_complete_tree_atomically() {
    let mut tree = Tree { destination: Some("old"), staged: Some("new"), backup: None };
    assert_eq!(promote(&mut tree, |_| None), None);
    assert_eq!(tree, Tree { destination: Some("new"), staged: None, backup: None });

    let mut tree = Tree { destination: None, staged: Some("new"), backup: None };
    assert_eq!(promote(&mut tree, |_| None), None);
    assert_eq!(tree, Tree { destination: Some("new"), staged: None, backup: None });
}

#[test]
fn a_failed_promotion_restores_what_was_there() {
    let start = Tree { destination: Some("old"), staged: Some("new"), backup: None };
    let mut tree = start.clone();
    let error = promote(&mut tree, |action| {
        if matches!(action, PromoteAction::Activate { .. }) {
            Some("busy")
        } else {
            None
        }
    });
    assert_eq!(error.unwrap(), "failed to activate managed installation");
    assert_eq!(tree, start);

    let mut tree = start.clone();
    let error = promote(&mut tree, |action| match action {
        PromoteAction::Activate { .. } => Some("busy"),
        PromoteAction::Restore => Some("gone"),
        _ => None,
    });
    assert_eq!(
        error.unwrap(),
        "failed to activate managed installation (busy); also failed to restore the previous installation (gone)"
    );

    let mut tree = start.clone();
    let error = promote(&mut tree, |_| Some("no"));
    assert_eq!(error.unwrap(), "failed to stage the previous managed installation");
    assert_eq!(tree, start);
}

#[test]
fn platforms_that_are_not_known_are_refused() {
    assert!(current_platform("linux", "aarch64").ensure_supported().is_ok());
    assert!(current_platform("macos", "x86_64").ensure_supported().is_ok());
    assert_eq!(
        current_platform("windows", "x86_64").ensure_supported().unwrap_err(),
        "managed server installation is not supported on unknown"
    );
    assert_eq!(
        current_platform("linux", "riscv64").ensure_supported().unwrap_err(),
        "managed server installation is not supported on unknown architecture"
    );
}

#[test]
fn releases_are_downloaded_for_the_platform() {
    let url = |name: &str, os: &str, arch: &str, version: &str| {
        find_server_meta(name).unwrap().download_url(&current_platform(os, arch), version)
    };
    assert_eq!(
        url("rust-analyzer", "linux", "x86_64", "2026-01-01"),
        "https://github.com/rust-lang/rust-analyzer/releases/download/2026-01-01/rust-analyzer-x86_64-unknown-linux-gnu.gz"
    );
    assert_eq!(
        url("rust-analyzer", "macos", "aarch64", "v"),
        "https://github.com/rust-lang/rust-analyzer/releases/download/v/rust-analyzer-aarch64-apple-darwin.gz"
    );
    assert_eq!(
        url("clangd", "macos", "x86_64", "18.1.3"),
        "https://github.com/clangd/clangd/releases/download/18.1.3/clangd-mac-18.1.3.zip"
    );
    assert_eq!(
        url("lua-language-server", "linux", "aarch64", "3.9"),
        "https://github.com/LuaLS/lua-language-server/releases/download/3.9/lua-language-server-3.9-linux-arm64.tar.gz"
    );
    assert_eq!(url("gopls", "linux", "x86_64", "1"), "");
    assert_eq!(
        latest_release_url("clangd/clangd"),
        "https://api.github.com/repos/clangd/clangd/releases/latest"
    );
    let meta = find_server_meta("lua-language-server").unwrap();
    assert_eq!(meta.archive_file(b"/s").unwrap(), b"/s/download.tar.gz");
    assert!(find_server_meta("gopls").unwrap().archive_file(b"/s").is_none());
}

#[test]
fn every_offered_server_has_a_plan() {
    let plat = current_platform("linux", "x86_64");
    for meta in known_servers() {
        assert!(plan_install(&meta, &plat, b"/s").is_ok(), "{}", meta.name);
    }
    let gopls = find_server_meta("gopls").unwrap();
    match plan_install(&gopls, &plat, b"/s").ok().unwrap() {
        InstallPlan::Command(command) => {
            assert_eq!(command.program, "go");
            assert_eq!(command.args, ["install", "golang.org/x/tools/gopls@latest"]);
            assert_eq!(command.env, [("GOBIN".to_string(), "/s".to_string())]);
        }
        _ => panic!("not a command"),
    }
    let other = current_platform("plan9", "x86_64");
    assert!(plan_install(&gopls, &other, b"/s").is_err());
    let julia = find_server_meta("julia-lsp").unwrap();
    match plan_install(&julia, &other, b"/s").ok().unwrap() {
        InstallPlan::Julia(command) => {
            assert_eq!(command.program, "julia");
            assert_eq!(command.args[..3], ["--startup-file=no", "--history-file=no", "-e"]);
            assert_eq!(
                command.args[3],
                "using Pkg; Pkg.activate(\"simplecc\"; shared=true); \
                 Pkg.add(\"LanguageServer\"); Pkg.instantiate()"
            );
        }
        _ => panic!("not a package"),
    }
    let mut odd = find_server_meta("clangd").unwrap();
    odd.github_repo = None;
    assert_eq!(
        plan_install(&odd, &plat, b"/s").err().unwrap(),
        "no github repo for clangd"
    );
    odd.archive_kind = ArchiveKind::Command;
    assert_eq!(
        plan_install(&odd, &plat, b"/s").err().unwrap(),
        "no install command for clangd"
    );
}

#[test]
fn installations_have_their_places() {
    let e = env(Some("/home/me"));
    assert_eq!(base_install_dir(&e), b"/home/me/.local/share/simplecc/servers");
    assert_eq!(server_install_dir(&e, "gopls"), b"/home/me/.local/share/simplecc/servers/gopls");
    assert_eq!(
        installed_binary_path(&e, "clangd").unwrap(),
        b"/home/me/.local/share/simplecc/servers/clangd/bin/clangd"
    );
    assert!(installed_binary_path(&e, "unknown").is_none());
    assert_eq!(julia_depot(&e), "/home/me/.julia");
    assert_eq!(
        julia_lsp_env_project(&e),
        "/home/me/.julia/environments/simplecc/Project.toml"
    );
    assert_eq!(installed_binary_path(&e, "julia-lsp").unwrap(), julia_lsp_env_project(&e).as_bytes());
    assert_eq!(base_install_dir(&env(None)), b"/tmp/.local/share/simplecc/servers");
    let named = InstallEnv {
        data_dir: Some(b"/data".to_vec()),
        home: None,
        julia_depot_path: Some(":/depot:/other".to_string()),
    };
    assert_eq!(base_install_dir(&named), b"/data/simplecc/servers");
    assert_eq!(julia_depot(&named), "/depot");
}

#[test]
fn data_directories_need_not_be_text() {
    let e = InstallEnv {
        data_dir: Some(b"/d\xff".to_vec()),
        home: Some("/ü".to_string()),
        julia_depot_path: None,
    };
    assert_eq!(server_install_dir(&e, "gopls"), b"/d\xff/simplecc/servers/gopls");
    assert_eq!(installed_binary_path(&e, "gopls").unwrap(), b"/d\xff/simplecc/servers/gopls/gopls");
    assert_eq!(
        installed_binary_path(&e, "julia-lsp").unwrap(),
        "/ü/.julia/environments/simplecc/Project.toml".as_bytes()
    );
    let markers: Vec<_> = known_servers()
        .iter()
        .map(|_| Marker { meta: file(9, 0o755), content: None })
        .collect();
    let listed = list_installable(&e, &markers);
    assert_eq!(
        listed[3].path.as_deref(),
        Some("/d\u{fffd}/simplecc/servers/gopls/gopls")
    );

    let gopls = find_server_meta("gopls").unwrap();
    let command = gopls.install_command(b"/d\xff").unwrap();
    assert_eq!(command.env[0].1, "/d\u{fffd}");
    let clangd = find_server_meta("clangd").unwrap();
    assert_eq!(clangd.archive_file(b"/d\xff").unwrap(), b"/d\xff/download.zip");
    let mut sibling = b"/d\xff/.a".to_vec();
    sibling.extend_from_slice("\u{fffd}.x-1-2".as_bytes());
    assert_eq!(unique_sibling_path(b"/d\xff/a\xfe/", "x", 1, "2"), sibling);
    assert_eq!(
        relocate_binary(b"/d\xff/.s", b"/d\xff//.s/b\xfe/x", b"/e\xfd").unwrap(),
        b"/e\xfd/b\xfe/x"
    );
    assert!(relocate_binary(b"/d\xff/.s", b"/d\xfe/.s/x", b"/e").is_err());
    assert_eq!(
        staged_binary(b"/d\xff", false, None).unwrap_err(),
        "binary not found after installation: /d\u{fffd}"
    );
    let mut extraction = Extraction::new();
    match extraction.zip_entry("r/ü", Some("r/ü"), false, 6, b"/d\xff").ok().unwrap() {
        ZipAction::WriteFile(file) => assert_eq!(file, b"/d\xff/\xc3\xbc"),
        _ => panic!("not written"),
    }
}

#[test]
fn installed_servers_are_listed() {
    assert!(is_known_server("gopls") && !is_known_server("other"));
    assert!(is_julia_lsp_installed(Some("[deps]\nLanguageServer = \"x\"")));
    assert!(!is_julia_lsp_installed(Some("[deps]")));
    assert!(!is_julia_lsp_installed(None));
    let marker = |meta: Option<FileMeta>| Marker { meta, content: None };
    assert!(is_server_installed("gopls", &marker(file(1, 0o755))));
    assert!(!is_server_installed("gopls", &marker(None)));
    assert!(!is_server_installed("other", &marker(file(1, 0o755))));

    assert_eq!(
        managed_binary(&env(Some("/h")), "clangd", &marker(file(1, 0o755))).unwrap(),
        b"/h/.local/share/simplecc/servers/clangd/bin/clangd"
    );
    assert!(managed_binary(&env(Some("/h")), "clangd", &marker(file(0, 0o755))).is_none());
    assert!(managed_binary(&env(Some("/h")), "clangd", &marker(None)).is_none());
    assert!(managed_binary(&env(Some("/h")), "other", &marker(file(1, 0o755))).is_none());

    let markers: Vec<_> = known_servers()
        .iter()
        .map(|meta| marker(if meta.name == "clangd" { file(9, 0o755) } else { None }))
        .collect();
    let listed = list_installable(&env(Some("/h")), &markers);
    let names: Vec<_> = listed.iter().map(|info| info.name.as_str()).collect();
    assert_eq!(
        names,
        [
            "rust-analyzer",
            "clangd",
            "lua-language-server",
            "gopls",
            "pyright",
            "typescript-language-server",
            "julia-lsp"
        ]
    );
    assert_eq!(
        listed[1].to_json().render(),
        r#"{"installed":true,"name":"clangd","path":"/h/.local/share/simplecc/servers/clangd/bin/clangd"}"#
    );
    assert_eq!(
        listed[0].to_json().render(),
        r#"{"installed":false,"name":"rust-analyzer","path":null}"#
    );
}

#[test]
fn one_installation_at_a_time() {
    let mut guard = InstallGuard::new();
    assert_eq!(guard.begin_install("nope").err().unwrap(), "unknown server: nope");
    assert_eq!(guard.begin_install("gopls").ok().unwrap().name, "gopls");
    assert_eq!(guard.begin_install("gopls").err().unwrap(), "gopls is already being installed");
    assert!(guard.begin_install("clangd").is_ok());
    guard.end_install("gopls");
    assert!(guard.begin_install("gopls").is_ok());
    assert!(guard.begin_install("clangd").is_err());
}

#[test]
fn downloads_report_their_progress() {
    let mut download = Download::start(Some(1000)).ok().unwrap();
    assert_eq!(download.chunk(49).unwrap(), None);
    assert_eq!(download.chunk(1).unwrap(), Some(5));
    assert_eq!(download.chunk(49).unwrap(), None);
    assert_eq!(download.chunk(500).unwrap(), Some(59));
    assert_eq!(download.chunk(1000).unwrap(), Some(159));
    let mut unknown = Download::start(None).ok().unwrap();
    assert_eq!(unknown.chunk(1_000_000).unwrap(), None);
    assert_eq!(
        Download::start(Some(MAX_DOWNLOAD_BYTES + 1)).err().unwrap(),
        "download is too large: 536870913 bytes (limit: 536870912 bytes)"
    );
    let mut large = Download::start(None).ok().unwrap();
    assert!(large.chunk(MAX_DOWNLOAD_BYTES).is_ok());
    assert_eq!(
        large.chunk(1).unwrap_err(),
        "download exceeded the 536870912 byte safety limit"
    );
    let mut large = Download::start(None).ok().unwrap();
    large.chunk(1).unwrap();
    assert_eq!(large.chunk(u64::MAX).unwrap_err(), "download size overflow");
    assert_eq!(
        progress_event("gopls", "downloading", 35).render(),
        r#"{"percent":35,"server":"gopls","stage":"downloading","type":"installProgress"}"#
    );
}

#[test]
fn binaries_move_with_their_installation() {
    assert_eq!(
        unique_sibling_path(b"/s/gopls", "installing", 42, "777"),
        b"/s/.gopls.installing-42-777"
    );
    assert_eq!(staged_binary(b"/st/bin/x", true, None).unwrap(), b"/st/bin/x");
    assert_eq!(staged_binary(b"/st/bin/x", false, Some(b"/st/r/x")).unwrap(), b"/st/r/x");
    assert_eq!(
        staged_binary(b"/st/bin/x", false, None).unwrap_err(),
        "binary not found after installation: /st/bin/x"
    );
    assert_eq!(relocate_binary(b"/s/.st", b"/s/.st/r/bin/x", b"/s/x").unwrap(), b"/s/x/r/bin/x");
    assert_eq!(
        relocate_binary(b"/s/.st", b"/s/other/x", b"/s/x").unwrap_err(),
        "staged binary escaped its installation directory"
    );
}

#[test]
fn commands_that_fail_are_reported() {
    let ended =
        |success: bool, stderr: &str| CommandEnd::Ended { success, stderr: stderr.to_string() };
    let npm = |end: CommandEnd| command_outcome("npm", &end);
    assert!(npm(ended(true, "warning")).is_ok());
    assert_eq!(npm(ended(false, " no network\n")).unwrap_err(), "npm failed: no network");
    assert_eq!(
        npm(CommandEnd::NotFound).unwrap_err(),
        "'npm' not found in PATH. Please install it first."
    );
    assert_eq!(npm(CommandEnd::NotRun).unwrap_err(), "failed to run managed installer npm");
    assert_eq!(npm(CommandEnd::TimedOut).unwrap_err(), "managed installer npm timed out");

    let julia = |end: CommandEnd, exists: bool| julia_outcome(&end, "/p", exists);
    assert!(julia(ended(true, ""), true).is_ok());
    assert_eq!(
        julia(ended(false, "boom"), true).unwrap_err(),
        "julia LanguageServer install failed: boom"
    );
    assert_eq!(
        julia(ended(true, ""), false).unwrap_err(),
        "install reported success but /p was not created"
    );
    assert_eq!(
        julia(CommandEnd::NotFound, true).unwrap_err(),
        "'julia' not found in PATH. Please install Julia first."
    );
    assert_eq!(julia(CommandEnd::NotRun, true).unwrap_err(), "failed to run julia");
    assert_eq!(
        julia(CommandEnd::TimedOut, true).unwrap_err(),
        "Julia language-server install timed out"
    );
}
