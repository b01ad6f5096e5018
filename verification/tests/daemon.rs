use simplecc::config::Config;
use simplecc::daemon::advance::advance;
use simplecc::daemon::feature::{begin, told, Progress};
use simplecc::daemon::request::{
    default_completion_max_items, default_completion_trigger_kind, default_tab_size, default_true,
    Request,
};
use simplecc::daemon::session::{
    document_message, install_result, installable_servers, reloaded, Action, Daemon,
};
use simplecc::installer::ServerInfo;
use simplecc::json::Json;
use simplecc::lsp::client::LspClient;

fn json(text: &str) -> Json {
    Json::parse(text.as_bytes()).unwrap()
}

fn s(text: &str) -> String {
    text.to_string()
}

fn reply(action: Action) -> Json {
    match action {
        Action::Reply(event) => event,
        _ => panic!("no reply"),
    }
}

fn hover(id: u64, language: &str) -> Request {
    Request::Hover { id, uri: s("file:///a"), language_id: s(language), line: 1, character: 2 }
}

fn open(language: &str) -> Request {
    Request::DidOpen {
        id: 0,
        uri: s("file:///a"),
        language_id: s(language),
        version: 1,
        text: s("x"),
    }
}

/// A daemon with one server for Rust.
fn running() -> (Daemon, Vec<u64>) {
    let mut daemon = Daemon::new();
    daemon.initialize(1, "/w", Ok(Config::default()));
    match daemon.handle_request(&open("rust"), &vec![]) {
        Action::Start { name, .. } => assert_eq!(name, "rust-analyzer"),
        _ => panic!("nothing to start"),
    }
    let event = daemon.started("rust", "rust-analyzer", 5).unwrap();
    assert_eq!(event.str_at("status"), Some("running"));
    (daemon, vec![5])
}

#[test]
fn activation_preserves_document_order() {
    let request = Request::JuliaActivateEnvironment {
        id: 1,
        language_id: "julia".to_string(),
        env_path: "/tmp/project".to_string(),
    };
    assert!(request.preserves_document_order());
}

#[test]
fn initialize_and_shutdown_are_ordered_lifecycle_barriers() {
    let initialize =
        Request::Initialize { id: 1, root: "/tmp/project".to_string(), config_path: None };
    let shutdown = Request::Shutdown { id: 2 };

    assert!(initialize.preserves_document_order());
    assert!(initialize.is_lifecycle_barrier());
    assert!(shutdown.preserves_document_order());
    assert!(shutdown.is_lifecycle_barrier());
}

#[test]
fn features_overtake_each_other() {
    assert!(!hover(1, "rust").preserves_document_order());
    assert!(!hover(1, "rust").is_lifecycle_barrier());
    assert!(open("rust").preserves_document_order());
    assert!(!open("rust").is_lifecycle_barrier());
    assert_eq!(hover(9, "rust").id(), 9);
    assert_eq!(hover(9, "rust").language(), "rust");
    assert_eq!(Request::Shutdown { id: 3 }.language(), "");
}

#[test]
fn what_a_request_leaves_out() {
    assert_eq!(default_tab_size(), 4);
    assert!(default_true());
    assert_eq!(default_completion_max_items(), 100);
    assert_eq!(default_completion_trigger_kind(), 1);
}

#[test]
fn missing_primary_client_returns_error_with_request_id() {
    let daemon = Daemon::new();
    let reply = daemon.primary_client_or_error(73, "rust", &vec![]).err().unwrap();
    assert_eq!(reply.str_at("type"), Some("error"));
    assert_eq!(reply.at("id").as_u64(), Some(73));
    assert!(reply.str_at("message").unwrap().contains("no active language server"));
}

#[test]
fn every_feature_without_a_server_is_answered() {
    let mut daemon = Daemon::new();
    let event = reply(daemon.handle_request(&hover(4, "zig"), &vec![]));
    assert_eq!(
        event.render(),
        r#"{"id":4,"message":"no active language server for filetype: zig","type":"error"}"#
    );
    let completion = Request::Completion {
        id: 5,
        uri: s("u"),
        language_id: s("zig"),
        line: 0,
        character: 0,
        max_items: 10,
        trigger_kind: 1,
        trigger_character: s(""),
    };
    let event = reply(daemon.handle_request(&completion, &vec![]));
    assert_eq!(event.render(), r#"{"generation":0,"id":5,"items":[],"type":"completion"}"#);
}

#[test]
fn initialize_and_shutdown_are_processed_in_wire_order() {
    let mut daemon = Daemon::new();
    let initialize = Request::Initialize { id: 1, root: s("/w"), config_path: None };
    assert!(matches!(
        daemon.handle_request(&initialize, &vec![]),
        Action::LoadConfiguration
    ));
    let mut events = vec![];
    match daemon.initialize(1, "/w", Ok(Config::default())) {
        Action::Stop { servers, event } => {
            assert!(servers.is_empty());
            events.push(event.render());
        }
        _ => panic!("not initialized"),
    }
    match daemon.handle_request(&Request::Shutdown { id: 2 }, &vec![]) {
        Action::Stop { event, .. } => events.push(event.render()),
        _ => panic!("not shut down"),
    }
    assert_eq!(events, [r#"{"id":1,"type":"initialized"}"#, r#"{"id":2,"type":"shutdown"}"#]);
}

#[test]
fn a_workspace_that_cannot_be_opened_leaves_the_one_before() {
    let (mut daemon, alive) = running();
    let event = reply(daemon.initialize(8, "/other", Err(s("bad file"))));
    assert_eq!(
        event.render(),
        r#"{"id":8,"message":"failed to load SimpleCC configuration: bad file","type":"error"}"#
    );
    assert_eq!(daemon.primary_client("rust", &alive), Some(5));
    match daemon.initialize(9, "/other", Ok(Config::default())) {
        Action::Stop { servers, .. } => assert_eq!(servers, [5]),
        _ => panic!("not opened"),
    }
    assert_eq!(daemon.primary_client("rust", &alive), None);
}

#[test]
fn documents_reach_their_servers() {
    let (mut daemon, alive) = running();
    assert_eq!(daemon.filetype_clients("rust", &alive), [5]);
    match daemon.handle_request(&open("rust"), &alive) {
        Action::Tell { servers, watchers } => {
            assert_eq!(servers, [5]);
            assert!(watchers.is_empty());
        }
        _ => panic!("not told"),
    }
    let change = Request::DidChange {
        id: 0,
        uri: s("file:///a"),
        version: 2,
        text: Some(s("y")),
        changes: None,
    };
    assert!(matches!(
        daemon.handle_request(&change, &alive),
        Action::Tell { servers, .. } if servers == [5]
    ));
    let save = Request::DidSave { id: 0, uri: s("file:///other.toml"), text: None };
    match daemon.handle_request(&save, &alive) {
        Action::Tell { servers, watchers } => {
            assert!(servers.is_empty());
            assert_eq!(watchers, [5]);
        }
        _ => panic!("not told"),
    }
    let close = Request::DidClose { id: 0, uri: s("file:///a") };
    assert!(matches!(
        daemon.handle_request(&close, &alive),
        Action::Tell { servers, .. } if servers == [5]
    ));
    assert!(matches!(
        daemon.handle_request(&change, &alive),
        Action::Tell { servers, .. } if servers.is_empty()
    ));
    assert!(matches!(
        daemon.handle_request(&open("zig"), &alive),
        Action::Tell { servers, .. } if servers.is_empty()
    ));
    let client = LspClient::new("rust-analyzer", None);
    let text = document_message(&client, &change).unwrap();
    assert_eq!(text.str_at("method"), Some("textDocument/didChange"));
    assert_eq!(text.at("params").at("contentChanges").render(), r#"[{"text":"y"}]"#);
    assert_eq!(
        document_message(&client, &close).unwrap().str_at("method"),
        Some("textDocument/didClose")
    );
    assert_eq!(
        document_message(&client, &save).unwrap().str_at("method"),
        Some("textDocument/didSave")
    );
    assert_eq!(
        document_message(&client, &open("rust")).unwrap().str_at("method"),
        Some("textDocument/didOpen")
    );
    assert!(document_message(&client, &hover(1, "rust")).is_none());
}

#[test]
fn configuration_is_reloaded_only_when_it_can_be_read() {
    let (mut daemon, alive) = running();
    let request = Request::ReloadConfiguration { id: 6, config_path: None };
    assert!(matches!(
        daemon.handle_request(&request, &alive),
        Action::LoadConfiguration
    ));
    let event = reply(daemon.reload(6, Err(s("invalid JSON")), &alive));
    assert_eq!(event.render(), r#"{"id":6,"message":"invalid JSON","type":"error"}"#);
    assert!(daemon.registry.as_ref().unwrap().config.server_for_filetype("go").is_some());
    match daemon.reload(6, Ok(Config::default()), &alive) {
        Action::Update(updates) => assert_eq!(updates.len(), 1),
        _ => panic!("not reloaded"),
    }
    assert_eq!(
        reloaded(6, 1, None).render(),
        r#"{"id":6,"servers":1,"type":"configurationReloaded"}"#
    );
    assert_eq!(
        reloaded(6, 1, Some("closed")).render(),
        r#"{"id":6,"message":"closed","type":"error"}"#
    );
    let mut empty = Daemon::new();
    let event = reply(empty.handle_request(&request, &vec![]));
    assert_eq!(event.str_at("message"), Some("SimpleCC is not initialized"));
}

#[test]
fn julia_requests_need_a_julia_buffer_and_server() {
    let (mut daemon, alive) = running();
    let activate = |language: &str| Request::JuliaActivateEnvironment {
        id: 7,
        language_id: s(language),
        env_path: s("/env"),
    };
    let event = reply(daemon.handle_request(&activate("rust"), &alive));
    assert_eq!(
        event.str_at("message"),
        Some("Julia environment activation requires a Julia buffer")
    );
    let event = reply(daemon.handle_request(&activate("julia"), &alive));
    assert_eq!(event.str_at("message"), Some("Julia language server is not running"));
    let refresh = Request::JuliaRefreshLanguageServer { id: 8, language_id: s("c") };
    let event = reply(daemon.handle_request(&refresh, &alive));
    assert_eq!(
        event.str_at("message"),
        Some("Julia language server refresh requires a Julia buffer")
    );

    let mut julia = LspClient::new("julia-lsp", None);
    match begin(&mut julia, &activate("julia")) {
        Progress::Tell(m) => assert_eq!(m.str_at("method"), Some("julia/activateenvironment")),
        _ => panic!("not told"),
    }
    assert_eq!(
        told(&activate("julia"), None).render(),
        r#"{"id":7,"path":"/env","type":"juliaEnvironment"}"#
    );
    assert_eq!(told(&refresh, None).render(), r#"{"id":8,"type":"juliaRefreshed"}"#);
    assert_eq!(
        told(&refresh, Some("closed")).render(),
        r#"{"id":8,"message":"closed","type":"error"}"#
    );
    let mut other = LspClient::new("other", None);
    let event = ended(begin(&mut other, &refresh));
    assert_eq!(event.str_at("message"), Some("Active server is not Julia LanguageServer"));
}

#[test]
fn installations_are_reported() {
    let (mut daemon, alive) = running();
    let install = Request::InstallServer { id: 3, server: s("gopls") };
    assert!(matches!(daemon.handle_request(&install, &alive), Action::Install));
    assert!(matches!(
        daemon.handle_request(&Request::ListInstallable { id: 3 }, &alive),
        Action::ListServers
    ));
    daemon.installed("gopls", "/m/gopls");
    let config = &daemon.registry.as_ref().unwrap().config;
    assert_eq!(config.language_servers.get("gopls").unwrap().command, "/m/gopls");
    assert_eq!(
        install_result(3, "gopls", Ok("/m/gopls")).render(),
        r#"{"id":3,"path":"/m/gopls","server":"gopls","status":"ok","type":"installResult"}"#
    );
    assert_eq!(
        install_result(3, "gopls", Err("no go")).render(),
        r#"{"id":3,"message":"no go","server":"gopls","status":"error","type":"installResult"}"#
    );
    let list = vec![ServerInfo { name: s("x"), installed: false, path: None }];
    assert_eq!(
        installable_servers(4, &list).render(),
        r#"{"id":4,"servers":[{"installed":false,"name":"x","path":null}],"type":"installableServers"}"#
    );
}

fn ended(progress: Progress) -> Json {
    match progress {
        Progress::Reply(event) => event,
        Progress::Ask { call, .. } => panic!("asks {}", call.method),
        _ => panic!("no reply"),
    }
}

/// Runs a request with answers to what is asked, in order.
fn run(client: &mut LspClient, request: &Request, answers: &[(&str, Result<&str, &str>)]) -> Json {
    let mut progress = begin(client, request);
    for (method, answer) in answers {
        match progress {
            Progress::Ask { stage, call, .. } => {
                assert_eq!(call.method, *method);
                let outcome = match answer {
                    Ok(text) => Ok(Some(json(text))),
                    Err(error) => Err(error.to_string()),
                };
                progress = advance(client, request, stage, &call.method, outcome);
            }
            _ => panic!("nothing is asked before {method}"),
        }
    }
    ended(progress)
}

fn client() -> LspClient {
    LspClient::new("srv", None)
}

const RANGE: &str = r#"{"start":{"line":1,"character":2},"end":{"line":3,"character":4}}"#;

fn once(request: &Request, method: &str, answer: &str) -> String {
    run(&mut client(), request, &[(method, Ok(&answer.replace("RANGE", RANGE)))]).render()
}

#[test]
fn a_hover_is_answered() {
    let method = "textDocument/hover";
    assert_eq!(
        once(&hover(1, "r"), method, r#"{"contents":{"kind":"plaintext","value":"t"}}"#),
        r#"{"contents":"t","id":1,"type":"hover"}"#
    );
    assert_eq!(
        once(&hover(1, "r"), method, r#"{"contents":["a",{"language":"rust","value":"fn"}]}"#),
        "{\"contents\":\"a\\n\\n```rust\\nfn\\n```\",\"id\":1,\"type\":\"hover\"}"
    );
    assert_eq!(
        once(&hover(1, "r"), method, "null"),
        r#"{"contents":null,"id":1,"type":"hover"}"#
    );
    let error = run(&mut client(), &hover(1, "r"), &[(method, Err("timed out"))]);
    assert_eq!(error.render(), r#"{"id":1,"message":"timed out","type":"error"}"#);
    let error = run(&mut client(), &hover(1, "r"), &[(method, Ok("7"))]);
    assert_eq!(error.str_at("type"), Some("error"));
}

fn definition(symbol: &str) -> Request {
    Request::Definition {
        id: 2,
        uri: s("file:///a"),
        language_id: s("julia"),
        line: 4,
        character: 9,
        symbol: s(symbol),
    }
}

#[test]
fn a_definition_falls_back_to_links_and_symbols() {
    let place = format!(r#"{{"uri":"file:///b","range":{RANGE}}}"#);
    let found = r#"{"id":2,"locations":[{"character":2,"end_character":4,"end_line":3,"line":1,"uri":"/b"}],"type":"definition"}"#;
    let none = r#"{"id":2,"locations":[],"type":"definition"}"#;
    let first = ("textDocument/definition", Ok("[]"));
    let no_links = ("textDocument/documentLink", Ok("null"));

    let event = run(&mut client(), &definition("f"), &[("textDocument/definition", Ok(&place))]);
    assert_eq!(event.render(), found);

    let links = r#"[{"range":{"start":{"line":4,"character":8},"end":{"line":4,"character":20}},
        "target":"file:///inc.jl"}]"#;
    let event = run(
        &mut client(),
        &definition("f"),
        &[first, ("textDocument/documentLink", Ok(links))],
    );
    assert_eq!(
        event.render(),
        r#"{"id":2,"locations":[{"character":0,"line":0,"uri":"/inc.jl"}],"type":"definition"}"#
    );

    let symbols = format!(
        r#"[{{"name":"g","kind":12,"location":{place}}},{{"name":"f","kind":12,"location":{place}}},
            {{"name":"f","kind":12,"location":{place}}}]"#
    );
    let event = run(
        &mut client(),
        &definition("f"),
        &[first, no_links, ("workspace/symbol", Ok(&symbols))],
    );
    assert_eq!(event.render(), found);

    let failing = ("textDocument/documentLink", Err("unsupported"));
    let event = run(&mut client(), &definition(""), &[first, failing]);
    assert_eq!(event.render(), none);
    let event = run(
        &mut client(),
        &definition("f"),
        &[first, failing, ("workspace/symbol", Err("unsupported"))],
    );
    assert_eq!(event.render(), none);
    let event =
        run(&mut client(), &definition("f"), &[("textDocument/definition", Err("no"))]);
    assert_eq!(event.render(), r#"{"id":2,"message":"no","type":"error"}"#);
}

#[test]
fn places_are_listed() {
    let answer = r#"[{"uri":"file:///b","range":RANGE}]"#;
    let places = r#"[{"character":2,"end_character":4,"end_line":3,"line":1,"uri":"/b"}]"#;
    let request = |kind: &str| {
        let (id, uri, language_id, line, character) = (3, s("u"), s("r"), 0, 0);
        match kind {
            "references" => Request::References { id, uri, language_id, line, character },
            "implementation" => Request::Implementation { id, uri, language_id, line, character },
            _ => Request::TypeDefinition { id, uri, language_id, line, character },
        }
    };
    for kind in ["references", "implementation", "typeDefinition"] {
        assert_eq!(
            once(&request(kind), &format!("textDocument/{kind}"), answer),
            format!(r#"{{"id":3,"locations":{places},"type":"{kind}"}}"#)
        );
    }
    match begin(&mut client(), &request("references")) {
        Progress::Ask { call, .. } => assert_eq!(
            call.params.at("context").render(),
            r#"{"includeDeclaration":true}"#
        ),
        _ => panic!("not asked"),
    }
}

#[test]
fn code_actions_are_kept_and_executed() {
    let request = Request::CodeAction {
        id: 1,
        uri: s("u"),
        language_id: s("r"),
        line: 1,
        character: 2,
        end_line: None,
        end_character: Some(9),
        diagnostics: json("null"),
    };
    let mut c = client();
    match begin(&mut c, &request) {
        Progress::Ask { call, .. } => assert_eq!(
            call.params.render(),
            r#"{"context":{"diagnostics":[]},"range":{"end":{"character":9,"line":1},"start":{"character":2,"line":1}},"textDocument":{"uri":"u"}}"#
        ),
        _ => panic!("not asked"),
    }
    let answer = format!(
        r#"[{{"title":"edit","kind":"quickfix","edit":{{"changes":{{"file:///b":
            [{{"range":{RANGE},"newText":"n"}}]}}}}}},
            {{"title":"both","edit":{{}},"command":{{"title":"t","command":"c","arguments":[1]}}}},
            {{"title":"bare"}},
            {{"title":"run","command":{{"title":"t","command":"d"}}}}]"#
    );
    let event = run(&mut c, &request, &[("textDocument/codeAction", Ok(&answer))]);
    assert_eq!(
        event.render(),
        r#"{"actions":[{"index":0,"kind":"quickfix","title":"edit"},{"index":1,"kind":null,"title":"both"},{"index":2,"kind":null,"title":"bare"},{"index":3,"kind":null,"title":"run"}],"id":1,"type":"codeAction"}"#
    );
    let execute = |index: usize| Request::ExecuteAction { id: 2, language_id: s("r"), index };
    let event = run(&mut c, &execute(0), &[]);
    assert_eq!(event.str_at("type"), Some("applyEdit"));
    assert_eq!(
        event.at("edit").render(),
        r#"{"changes":[{"edits":[{"character":2,"end_character":4,"end_line":3,"line":1,"new_text":"n"}],"uri":"file:///b"}]}"#
    );
    let command = "workspace/executeCommand";
    let event = run(&mut c, &execute(1), &[(command, Err("ignored"))]);
    assert_eq!(event.render(), r#"{"edit":{"changes":[]},"id":2,"type":"applyEdit"}"#);
    let event = run(&mut c, &execute(2), &[]);
    assert_eq!(event.render(), r#"{"id":2,"type":"executeAction"}"#);
    match begin(&mut c, &execute(3)) {
        Progress::Ask { call, .. } => {
            assert_eq!(call.params.render(), r#"{"arguments":null,"command":"d"}"#)
        }
        _ => panic!("not asked"),
    }
    let event = run(&mut c, &execute(3), &[(command, Ok("null"))]);
    assert_eq!(event.render(), r#"{"id":2,"type":"executeAction"}"#);
    let event = run(&mut c, &execute(4), &[]);
    assert_eq!(event.render(), r#"{"id":2,"message":"invalid action index","type":"error"}"#);
    let event = run(&mut c, &request, &[("textDocument/codeAction", Ok("{}"))]);
    assert_eq!(event.str_at("type"), Some("error"));
    assert_eq!(run(&mut c, &execute(2), &[]).str_at("type"), Some("executeAction"));
}

#[test]
fn code_lenses_are_kept_and_executed() {
    let request = Request::CodeLens { id: 1, uri: s("u"), language_id: s("r") };
    let mut c = client();
    let answer = format!(
        r#"[{{"range":{RANGE},"command":{{"title":"Run","command":"run"}}}},
            {{"range":{RANGE},"data":7}}]"#
    );
    let event = run(&mut c, &request, &[("textDocument/codeLens", Ok(&answer))]);
    assert_eq!(event.at("lenses").as_array().unwrap().len(), 2);
    let execute = |index: usize| Request::ExecuteCodeLens { id: 2, language_id: s("r"), index };
    let command = "workspace/executeCommand";
    let done = r#"{"id":2,"type":"codeLensExecute"}"#;
    assert_eq!(run(&mut c, &execute(0), &[(command, Ok("7"))]).render(), done);
    assert_eq!(run(&mut c, &execute(0), &[(command, Err("no"))]).render(), done);
    let edit = r#"{"changes":{"file:///b":[]}}"#;
    assert_eq!(
        run(&mut c, &execute(0), &[(command, Ok(edit))]).render(),
        r#"{"edit":{"changes":[{"edits":[],"uri":"file:///b"}]},"id":2,"type":"applyEdit"}"#
    );
    let resolved = answer[1..answer.find("},\n").unwrap() + 1].to_string();
    assert_eq!(
        run(
            &mut c,
            &execute(1),
            &[("codeLens/resolve", Ok(&resolved)), (command, Ok("null"))]
        )
        .render(),
        done
    );
    let bare = format!(r#"{{"range":{RANGE}}}"#);
    assert_eq!(run(&mut c, &execute(1), &[("codeLens/resolve", Ok(&bare))]).render(), done);
    assert_eq!(
        run(&mut c, &execute(1), &[("codeLens/resolve", Err("no"))]).render(),
        r#"{"id":2,"message":"no","type":"error"}"#
    );
    assert_eq!(
        run(&mut c, &execute(2), &[]).str_at("message"),
        Some("invalid code lens index")
    );
}

#[test]
fn edits_of_a_document() {
    let formatting = Request::Formatting {
        id: 1,
        uri: s("u"),
        language_id: s("r"),
        tab_size: 4,
        insert_spaces: true,
    };
    assert_eq!(
        once(&formatting, "textDocument/formatting", r#"[{"range":RANGE,"newText":"n"}]"#),
        r#"{"edits":[{"character":2,"end_character":4,"end_line":3,"line":1,"new_text":"n"}],"id":1,"type":"formatting"}"#
    );
    let rename = Request::Rename {
        id: 2,
        uri: s("u"),
        language_id: s("r"),
        line: 0,
        character: 0,
        new_name: s("y"),
    };
    assert_eq!(
        once(&rename, "textDocument/rename", r#"{"changes":{"file:///b":[]}}"#),
        r#"{"edit":{"changes":[{"edits":[],"uri":"file:///b"}]},"id":2,"type":"rename"}"#
    );
    assert_eq!(
        once(&rename, "textDocument/rename", "null"),
        r#"{"edit":null,"id":2,"type":"rename"}"#
    );
    let linked = Request::LinkedEditingRange {
        id: 3,
        uri: s("u"),
        language_id: s("r"),
        line: 0,
        character: 0,
    };
    assert_eq!(
        once(&linked, "textDocument/linkedEditingRange", r#"{"ranges":[RANGE]}"#),
        r#"{"id":3,"result":{"ranges":[{"character":2,"end_character":4,"end_line":3,"line":1}]},"type":"linkedEditingRange"}"#
    );
    assert_eq!(
        once(&linked, "textDocument/linkedEditingRange", "null"),
        r#"{"id":3,"result":null,"type":"linkedEditingRange"}"#
    );
    let folding = Request::FoldingRange { id: 4, uri: s("u"), language_id: s("r") };
    let event = json(&once(
        &folding,
        "textDocument/foldingRange",
        r#"[{"startLine":1,"endLine":5,"kind":"comment"}]"#,
    ));
    assert_eq!(event.at("ranges").as_array().unwrap()[0].number_at("end_line"), 5);
}

#[test]
fn signatures_are_answered() {
    let request = Request::SignatureHelp {
        id: 1,
        uri: s("u"),
        language_id: s("r"),
        line: 0,
        character: 0,
    };
    let event = json(&once(
        &request,
        "textDocument/signatureHelp",
        r#"{"signatures":[{"label":"f(a, b)","parameters":[{"label":[2,3]},{"label":"b"}]}],
            "activeParameter":1}"#,
    ));
    let first = &event.at("signatures").as_array().unwrap()[0].copy();
    assert_eq!(first.str_at("label"), Some("f(a, b)"));
    assert_eq!(first.number_at("active_parameter"), 1);
    let labels: Vec<_> = first
        .array_at("parameters")
        .unwrap()
        .iter()
        .map(|p| p.text_at("label"))
        .collect();
    assert_eq!(labels, ["a", "b"]);
    assert_eq!(
        once(&request, "textDocument/signatureHelp", "null"),
        r#"{"id":1,"signatures":null,"type":"signatureHelp"}"#
    );
}

#[test]
fn symbols_are_listed() {
    let request = Request::DocumentSymbol { id: 1, uri: s("u"), language_id: s("r") };
    let nested = r#"[{"name":"m","kind":2,"range":RANGE,"selectionRange":RANGE,"children":
        [{"name":"f","kind":12,"range":RANGE,"selectionRange":RANGE}]}]"#;
    let event = json(&once(&request, "textDocument/documentSymbol", nested));
    let top = event.at("symbols").as_array().unwrap()[0].copy();
    assert_eq!(top.str_at("kind"), Some("Module"));
    assert_eq!(top.array_at("children").unwrap()[0].str_at("name"), Some("f"));
    let flat = r#"[{"name":"g","kind":12,"location":{"uri":"file:///b","range":RANGE}}]"#;
    let event = json(&once(&request, "textDocument/documentSymbol", flat));
    assert_eq!(event.at("symbols").as_array().unwrap()[0].str_at("name"), Some("g"));
    assert_eq!(
        once(&request, "textDocument/documentSymbol", "7"),
        r#"{"id":1,"symbols":[],"type":"documentSymbol"}"#
    );
    let request = Request::WorkspaceSymbol { id: 2, language_id: s("r"), query: s("g") };
    let event = json(&once(&request, "workspace/symbol", flat));
    assert_eq!(event.str_at("type"), Some("workspaceSymbol"));
    assert_eq!(event.at("symbols").as_array().unwrap()[0].str_at("name"), Some("g"));
}

#[test]
fn highlights_hints_and_selections() {
    let highlight = Request::DocumentHighlight {
        id: 1,
        uri: s("u"),
        language_id: s("r"),
        line: 0,
        character: 0,
    };
    assert_eq!(
        once(&highlight, "textDocument/documentHighlight", r#"[{"range":RANGE,"kind":3}]"#),
        r#"{"highlights":[{"character":2,"end_character":4,"end_line":3,"kind":"write","line":1}],"id":1,"type":"documentHighlight"}"#
    );
    let hints = Request::InlayHint {
        id: 2,
        uri: s("u"),
        language_id: s("r"),
        start_line: 1,
        end_line: 9,
    };
    let event = json(&once(
        &hints,
        "textDocument/inlayHint",
        r#"[{"position":{"line":1,"character":2},"label":[{"value":": "},{"value":"i32"}],"kind":1,
            "paddingLeft":true}]"#,
    ));
    let hint = event.at("hints").as_array().unwrap()[0].copy();
    assert_eq!(hint.str_at("label"), Some(": i32"));
    assert_eq!(hint.bool_at("padding_left"), Some(true));
    let selection = Request::SelectionRange {
        id: 3,
        uri: s("u"),
        language_id: s("r"),
        positions: vec![
            json(r#"{"line":1,"character":2}"#),
            json(r#"{"line":1}"#),
            json("7"),
            json(r#"{"line":4294967297,"character":3}"#),
        ],
    };
    match begin(&mut client(), &selection) {
        Progress::Ask { call, .. } => assert_eq!(
            call.params.at("positions").render(),
            r#"[{"character":2,"line":1},{"character":3,"line":1}]"#
        ),
        _ => panic!("not asked"),
    }
    let event = json(&once(
        &selection,
        "textDocument/selectionRange",
        r#"[{"range":RANGE,"parent":{"range":RANGE}}]"#,
    ));
    let range = event.at("ranges").as_array().unwrap()[0].copy();
    assert_eq!(range.number_at("end_line"), 3);
    assert_eq!(range.at("parent").number_at("line"), 1);
}

#[test]
fn hierarchies_hand_items_back() {
    let item = format!(
        r#"{{"name":"f","kind":12,"uri":"file:///b","range":{RANGE},"selectionRange":{RANGE}}}"#
    );
    let prepare = |types: bool| {
        let (id, uri, language_id, line, character) = (1, s("u"), s("r"), 0, 0);
        if types {
            Request::PrepareTypeHierarchy { id, uri, language_id, line, character }
        } else {
            Request::PrepareCallHierarchy { id, uri, language_id, line, character }
        }
    };
    for (types, method, kind) in [
        (false, "textDocument/prepareCallHierarchy", "callHierarchyPrepare"),
        (true, "textDocument/prepareTypeHierarchy", "typeHierarchyPrepare"),
    ] {
        let event = json(&once(&prepare(types), method, &format!("[{item}]")));
        assert_eq!(event.str_at("type"), Some(kind));
        let first = event.at("items").as_array().unwrap()[0].copy();
        assert_eq!(first.str_at("kind"), Some("Function"));
        assert_eq!(first.number_at("line"), 1);
        assert!(first.get("detail").unwrap().is_null());
        assert_eq!(first.at("raw").render(), json(&item).render());
    }
    let calls = |incoming: bool, item: &str| {
        let (id, language_id, item) = (2, s("r"), json(item));
        if incoming {
            Request::IncomingCalls { id, language_id, item }
        } else {
            Request::OutgoingCalls { id, language_id, item }
        }
    };
    for (incoming, method, key, kind) in [
        (true, "callHierarchy/incomingCalls", "from", "incomingCalls"),
        (false, "callHierarchy/outgoingCalls", "to", "outgoingCalls"),
    ] {
        let answer = format!(r#"[{{"{key}":{item},"fromRanges":[{RANGE}]}}]"#);
        let event = json(&once(&calls(incoming, &item), method, &answer));
        assert_eq!(event.str_at("type"), Some(kind));
        let call = event.at("calls").as_array().unwrap()[0].copy();
        assert_eq!(call.at("item").str_at("name"), Some("f"));
        assert_eq!(call.array_at("from_ranges").unwrap().len(), 1);
        let event = ended(begin(&mut client(), &calls(incoming, "7")));
        assert!(event.str_at("message").unwrap().starts_with("invalid call hierarchy item: "));
    }
    let kinds = |up: bool, item: &str| {
        let (id, language_id, item) = (3, s("r"), json(item));
        if up {
            Request::Supertypes { id, language_id, item }
        } else {
            Request::Subtypes { id, language_id, item }
        }
    };
    for (up, name) in [(true, "supertypes"), (false, "subtypes")] {
        let event = json(&once(
            &kinds(up, &item),
            &format!("typeHierarchy/{name}"),
            &format!("[{item}]"),
        ));
        assert_eq!(event.str_at("type"), Some(name));
        assert_eq!(event.at("items").as_array().unwrap()[0].str_at("name"), Some("f"));
        let event = ended(begin(&mut client(), &kinds(up, "7")));
        assert!(event.str_at("message").unwrap().starts_with("invalid type hierarchy item: "));
    }
}

#[test]
fn diagnostics_can_be_asked_for() {
    let request = Request::PullDiagnostics { id: 1, uri: s("file:///a"), language_id: s("r") };
    let method = "textDocument/diagnostic";
    let event = json(&once(
        &request,
        method,
        r#"{"kind":"full","items":[{"range":RANGE,"message":"m","severity":1}]}"#,
    ));
    assert_eq!(event.str_at("uri"), Some("file:///a"));
    assert_eq!(event.at("items").as_array().unwrap()[0].str_at("message"), Some("m"));
    assert_eq!(
        once(&request, method, r#"{"kind":"unchanged"}"#),
        r#"{"id":1,"items":[],"type":"diagnostics","uri":"file:///a"}"#
    );
}

#[test]
fn tokens_are_asked_for_in_full_where_a_delta_fails() {
    let mut c = client();
    let delta = Request::SemanticTokensDelta { id: 1, uri: s("u"), language_id: s("r") };
    let full = "textDocument/semanticTokens/full";
    let event = run(&mut c, &delta, &[(full, Ok(r#"{"resultId":"1","data":[0,0,1,0,0]}"#))]);
    assert_eq!(
        event.render(),
        r#"{"id":1,"tokens":[{"length":1,"line":0,"modifiers":[],"start":0,"token_type":"type_0"}],"type":"semanticTokens"}"#
    );
    let event = run(
        &mut c,
        &delta,
        &[("textDocument/semanticTokens/full/delta", Err("gone")), (full, Ok(r#"{"data":[]}"#))],
    );
    assert_eq!(event.render(), r#"{"id":1,"tokens":[],"type":"semanticTokens"}"#);
    let request = Request::SemanticTokensFull { id: 2, uri: s("u"), language_id: s("r") };
    assert_eq!(
        run(&mut c, &request, &[(full, Err("no"))]).render(),
        r#"{"id":2,"message":"no","type":"error"}"#
    );
    let range = Request::SemanticTokensRange {
        id: 3,
        uri: s("u"),
        language_id: s("r"),
        start_line: 1,
        start_character: 2,
        end_line: 3,
        end_character: 4,
    };
    let event = run(&mut c, &range, &[("textDocument/semanticTokens/range", Ok("null"))]);
    assert_eq!(event.render(), r#"{"id":3,"tokens":[],"type":"semanticTokens"}"#);
    run(&mut c, &delta, &[(full, Ok(r#"{"resultId":"1","data":[0,0,1,0,0]}"#))]);
    match begin(&mut c, &delta) {
        Progress::Ask { stage, call, .. } => {
            let bad = json(r#"{"edits":[{"start":9,"deleteCount":0}]}"#);
            assert!(matches!(
                advance(&mut c, &delta, stage, &call.method, Ok(Some(bad))),
                Progress::Unusable
            ));
        }
        _ => panic!("not asked"),
    }
}

#[test]
fn completions_are_answered_unless_replaced() {
    let request = Request::Completion {
        id: 1,
        uri: s("file:///a"),
        language_id: s("r"),
        line: 1,
        character: 2,
        max_items: 1,
        trigger_kind: 1,
        trigger_character: s(""),
    };
    let mut c = client();
    let answer = r#"[{"label":"a"},{"label":"b"}]"#;
    let event = run(&mut c, &request, &[("textDocument/completion", Ok(answer))]);
    assert_eq!(
        event.render(),
        r#"{"generation":1,"id":1,"items":[{"filter_text":"a","index":0,"label":"a"}],"type":"completion"}"#
    );
    match begin(&mut c, &request) {
        Progress::Ask { stage, key, call } => {
            assert_eq!(key.as_deref(), Some("completion:file:///a"));
            assert!(matches!(
                advance(&mut c, &request, stage, &call.method, Ok(None)),
                Progress::Silent
            ));
        }
        _ => panic!("not asked"),
    }
    let resolve = |generation: u64| Request::CompletionResolve {
        id: 2,
        language_id: s("r"),
        generation,
        index: 0,
    };
    let event = run(
        &mut c,
        &resolve(1),
        &[("completionItem/resolve", Ok(r#"{"label":"a","detail":"d"}"#))],
    );
    assert_eq!(
        event.render(),
        r#"{"id":2,"item":{"detail":"d","filter_text":"a","index":0,"label":"a"},"type":"completionResolve"}"#
    );
    let event = run(&mut c, &resolve(9), &[]);
    assert_eq!(
        event.str_at("message"),
        Some("stale completion generation: requested 9, current 1")
    );
    match begin(&mut client(), &hover(1, "r")) {
        Progress::Ask { stage, call, .. } => {
            let event = ended(advance(&mut client(), &hover(1, "r"), stage, &call.method, Ok(None)));
            assert_eq!(
                event.str_at("message"),
                Some("non-superseding request was unexpectedly cancelled: textDocument/hover")
            );
        }
        _ => panic!("not asked"),
    }
}
