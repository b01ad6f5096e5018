use simplecc::config::{config_candidates, Config, ConfigSource, FileContent, ServerConfig};
use simplecc::json::Json;
use simplecc::strmap::StrMap;

fn json(text: &str) -> Json {
    Json::parse(text.as_bytes()).unwrap()
}

fn server(filetypes: &[&str], priority: i32) -> ServerConfig {
    ServerConfig {
        command: "server".to_string(),
        args: vec![],
        filetypes: filetypes.iter().map(|ft| ft.to_string()).collect(),
        root_patterns: vec![],
        initialization_options: None,
        settings: None,
        priority,
    }
}

fn config(servers: Vec<(&str, ServerConfig)>) -> Config {
    let mut language_servers = StrMap::new();
    for (name, server) in servers {
        language_servers.insert(name, server);
    }
    Config { language_servers }
}

#[test]
fn julia_defaults_are_merged_with_user_overrides() {
    let config = ServerConfig {
        command: "julia".to_string(),
        args: vec![],
        filetypes: vec!["julia".to_string()],
        root_patterns: vec!["Project.toml".to_string()],
        initialization_options: Some(json(r#"{ "custom": true }"#)),
        settings: Some(json(r#"{ "julia": { "lint": { "missingrefs": "symbols" } } }"#)),
        priority: 0,
    };

    let init = config.effective_initialization_options("julia-lsp").unwrap();
    assert_eq!(init.bool_at("useFormatterConfigDefaults"), Some(true));
    assert_eq!(init.bool_at("custom"), Some(true));

    let settings = config.effective_settings("julia-lsp").unwrap();
    let julia = settings.at("julia");
    assert_eq!(julia.at("lint").str_at("missingrefs"), Some("symbols"));
    assert_eq!(julia.str_at("completionmode"), Some("qualify"));
}

#[test]
fn other_servers_have_no_defaults() {
    let plain = server(&["rust"], 0);
    assert!(plain.effective_settings("rust-analyzer").is_none());
    assert!(plain.effective_initialization_options("rust-analyzer").is_none());

    let mut given = server(&["rust"], 0);
    given.settings = Some(json(r#"{"check": {"command": "clippy"}}"#));
    assert_eq!(
        given.effective_settings("rust-analyzer").unwrap().render(),
        r#"{"check":{"command":"clippy"}}"#
    );
}

#[test]
fn julia_settings_are_complete_without_overrides() {
    let settings = server(&["julia"], 0).effective_settings("julia-lsp").unwrap();
    let lint = settings.at("julia").at("lint");
    for key in ["call", "iter", "nothingcomp", "constif", "lazy", "datadecl", "typeparam"] {
        assert_eq!(lint.bool_at(key), Some(true), "{key}");
    }
}

#[test]
fn live_reload_reports_invalid_json_instead_of_using_defaults() {
    let path = "/tmp/simplecc-invalid-config.json";
    let candidates = config_candidates("/tmp", None);
    match Config::load_selected(Some(path), &candidates, &vec![false, false]) {
        ConfigSource::File(file) => assert_eq!(file, path.as_bytes()),
        ConfigSource::BuiltIn => panic!("the defaults hide the error"),
    }
    assert!(Json::parse(b"{ invalid json").is_err());
    assert_eq!(
        Config::load(path.as_bytes(), FileContent::Invalid).err().unwrap(),
        "invalid JSON in configuration /tmp/simplecc-invalid-config.json"
    );
    assert_eq!(
        Config::load(path.as_bytes(), FileContent::Unreadable).err().unwrap(),
        "failed to read configuration /tmp/simplecc-invalid-config.json"
    );
}

#[test]
fn server_selection_is_stable_and_respects_priority() {
    let config = config(vec![
        ("zeta", server(&["rust"], 0)),
        ("alpha", server(&["rust"], 0)),
        ("preferred", server(&["rust"], 10)),
    ]);

    let ordered: Vec<_> =
        config.servers_for_filetype("rust").into_iter().map(|(name, _)| name).collect();
    assert_eq!(ordered, ["preferred", "alpha", "zeta"]);
    assert_eq!(config.server_for_filetype("rust").unwrap().0, "preferred");
}

#[test]
fn selection_does_not_depend_on_the_order_of_the_file() {
    let one = config(vec![
        ("b", server(&["c"], 1)),
        ("a", server(&["c"], 1)),
        ("low", server(&["c"], -5)),
        ("other", server(&["d"], 100)),
    ]);
    let two = config(vec![
        ("other", server(&["d"], 100)),
        ("low", server(&["c"], -5)),
        ("a", server(&["c"], 1)),
        ("b", server(&["c"], 1)),
    ]);
    for config in [&one, &two] {
        let names: Vec<_> =
            config.servers_for_filetype("c").into_iter().map(|(name, _)| name).collect();
        assert_eq!(names, ["a", "b", "low"]);
        assert!(config.server_for_filetype("zig").is_none());
        assert!(config.servers_for_filetype("zig").is_empty());
    }
}

#[test]
fn configuration_validation_rejects_empty_commands() {
    let mut broken = server(&["rust"], 0);
    broken.command = " ".to_string();
    let content = FileContent::Parsed(config(vec![("broken", broken)]));
    let error = Config::load(b"/tmp/simplecc-empty-command.json", content).err().unwrap();
    assert!(error.contains("empty command"));
    assert_eq!(error, "language server 'broken' has an empty command");
}

#[test]
fn configuration_validation_names_each_problem() {
    let error = config(vec![(" \t", server(&["rust"], 0))]).validate().unwrap_err();
    assert_eq!(error, "language server names must not be empty");
    let error = config(vec![("x", server(&["rust", "\u{a0}"], 0))]).validate().unwrap_err();
    assert_eq!(error, "language server 'x' contains an empty filetype");
    assert!(config(vec![("x", server(&["rust"], 0))]).validate().is_ok());
    assert!(config(vec![]).validate().is_ok());
}

#[test]
fn built_in_servers_are_valid_and_resolve() {
    let config = Config::default();
    assert!(config.validate().is_ok());
    for (filetype, name) in [
        ("rust", "rust-analyzer"),
        ("c", "clangd"),
        ("cpp", "clangd"),
        ("python", "pyright"),
        ("go", "gopls"),
        ("lua", "lua-language-server"),
        ("julia", "julia-lsp"),
        ("typescript", "typescript-language-server"),
        ("javascript", "typescript-language-server"),
    ] {
        assert_eq!(config.server_for_filetype(filetype).unwrap().0, name);
    }
    for (name, server) in &config.language_servers.entries {
        for filetype in &server.filetypes {
            assert!(config.server_for_filetype(filetype).is_some(), "{name}: {filetype}");
        }
    }
    assert_eq!(config.language_servers.entries.len(), 7);
}

#[test]
fn self_test_passes_for_configurations_without_problems() {
    assert!(Config::default().self_test().is_ok());
    assert!(config(vec![]).self_test().is_ok());
    assert!(config(vec![("x", server(&["rust", "toml"], 0)), ("y", server(&[], 3))])
        .self_test()
        .is_ok());
    let error = config(vec![("x", server(&["rust", ""], 0))]).self_test().unwrap_err();
    assert_eq!(error, "language server 'x' contains an empty filetype");
}

#[test]
fn configurations_are_taken_from_their_source() {
    let file = || ConfigSource::File(b"/c.json".to_vec());
    let built_in = Config::from_source(ConfigSource::BuiltIn, FileContent::Invalid).unwrap();
    assert_eq!(built_in.language_servers.keys(), Config::default().language_servers.keys());
    assert_eq!(
        Config::from_source(file(), FileContent::Unreadable).err().unwrap(),
        "failed to read configuration /c.json"
    );
    assert_eq!(
        Config::from_source(file(), FileContent::Invalid).err().unwrap(),
        "invalid JSON in configuration /c.json"
    );
    let parsed = FileContent::Parsed(config(vec![("x", server(&["rust"], 0))]));
    let taken = Config::from_source(file(), parsed).unwrap();
    assert_eq!(taken.language_servers.keys(), ["x"]);
    let parsed = FileContent::Parsed(config(vec![("", server(&["rust"], 0))]));
    assert_eq!(
        Config::from_source(file(), parsed).err().unwrap(),
        "language server names must not be empty"
    );
}

#[test]
fn built_in_commands() {
    let config = Config::default();
    let rust = config.language_servers.get("rust-analyzer").unwrap();
    assert_eq!(rust.command, "rust-analyzer");
    assert!(rust.root_patterns.contains(&"Cargo.toml".to_string()));
    let pyright = config.language_servers.get("pyright").unwrap();
    assert_eq!(pyright.command, "pyright-langserver");
    assert_eq!(pyright.args, ["--stdio"]);
    let julia = config.language_servers.get("julia-lsp").unwrap();
    assert_eq!(julia.command, "julia");
    assert!(julia.args.last().unwrap().contains("LanguageServer.LanguageServerInstance"));
}

#[test]
fn configuration_files_are_searched_in_order() {
    let candidates = config_candidates("/work/project", Some(b"/home/me"));
    assert_eq!(
        candidates,
        [
            &b"/work/project/simplecc.json"[..],
            b"/work/project/.simplecc.json",
            b"/home/me/.config/simplecc/simplecc.json",
        ]
    );
    assert_eq!(config_candidates("/p", None).len(), 2);

    let found = |exists: [bool; 3]| Config::find_path(&candidates, &exists.to_vec());
    assert_eq!(found([true, true, true]).unwrap(), candidates[0]);
    assert_eq!(found([false, true, true]).unwrap(), candidates[1]);
    assert_eq!(found([false, false, true]).unwrap(), candidates[2]);
    assert!(found([false, false, false]).is_none());
}

#[test]
fn home_directories_need_not_be_text() {
    let candidates = config_candidates("/ü", Some(b"/home/\xff/"));
    assert_eq!(candidates[0], "/ü/simplecc.json".as_bytes());
    assert_eq!(candidates[2], b"/home/\xff/.config/simplecc/simplecc.json");
    assert_eq!(
        Config::load(&candidates[2], FileContent::Unreadable).err().unwrap(),
        "failed to read configuration /home/\u{fffd}/.config/simplecc/simplecc.json"
    );
    assert_eq!(
        Config::load(&candidates[0], FileContent::Invalid).err().unwrap(),
        "invalid JSON in configuration /ü/simplecc.json"
    );
}

#[test]
fn explicit_configuration_path_takes_precedence() {
    let candidates = config_candidates("/p", None);
    let all = vec![true, true];
    match Config::load_selected(Some("/elsewhere.json"), &candidates, &all) {
        ConfigSource::File(file) => assert_eq!(file, b"/elsewhere.json"),
        ConfigSource::BuiltIn => panic!("explicit path ignored"),
    }
    match Config::load_selected(Some(""), &candidates, &all) {
        ConfigSource::File(file) => assert_eq!(file, b"/p/simplecc.json"),
        ConfigSource::BuiltIn => panic!("project file ignored"),
    }
    assert!(matches!(
        Config::load_selected(None, &candidates, &vec![false, false]),
        ConfigSource::BuiltIn
    ));
}

#[test]
fn overrides_are_laid_over_defaults() {
    let base = json(r#"{"a": {"b": 1, "c": 2}, "d": [1], "e": 3}"#);
    let over = json(r#"{"a": {"b": null, "x": true}, "d": {}}"#);
    let merged = base.merge(&over);
    let expected = json(r#"{"a": {"b": null, "c": 2, "x": true}, "d": {}, "e": 3}"#);
    assert_eq!(merged.render(), expected.render());
    assert_eq!(merged.merge(&over).render(), expected.render());
    assert_eq!(base.merge(&base).render(), base.render());
    assert_eq!(Json::Null.merge(&base).render(), base.render());
    assert_eq!(base.merge(&json("7")).render(), "7");
}
