use simplecc::json::Json;
use simplecc::lsp::client::{require_result, LspClient};
use simplecc::lsp::recent::FileChange;
use simplecc::lsp::sync::{REMEMBER_NS, REPEAT_NS};

fn json(text: &str) -> Json {
    Json::parse(text.as_bytes()).unwrap()
}

fn client(name: &str) -> LspClient {
    LspClient::new(name, None)
}

fn rendered(values: &[Json]) -> Vec<String> {
    values.iter().map(|value| value.render()).collect()
}

#[test]
fn requests_are_numbered() {
    let mut c = client("srv");
    let first = c.begin_request(None, "a", json(r#"{"p":1}"#));
    assert_eq!(first.id, 1);
    assert_eq!(
        rendered(&first.messages),
        [r#"{"id":1,"jsonrpc":"2.0","method":"a","params":{"p":1}}"#]
    );
    assert_eq!(c.begin_request(None, "b", Json::Null).id, 2);
}

#[test]
fn the_newest_request_wins() {
    let mut c = client("srv");
    let older = c.begin_request(Some("completion:x"), "m", Json::Null);
    let newer = c.begin_request(Some("completion:x"), "m", Json::Null);
    assert_eq!(
        rendered(&newer.messages),
        [
            r#"{"jsonrpc":"2.0","method":"$/cancelRequest","params":{"id":1}}"#,
            r#"{"id":2,"jsonrpc":"2.0","method":"m","params":null}"#,
        ]
    );
    let late = c.answered(Some("completion:x"), older.id, &json(r#"{"result":1}"#));
    assert!(late.unwrap().is_none());
    assert!(c.response_arrived(newer.id));
    let answer = c.answered(Some("completion:x"), newer.id, &json(r#"{"result":2}"#));
    assert_eq!(answer.unwrap().unwrap().render(), "2");
    assert!(c.pending.is_empty());
    assert!(!c.latest_requests.contains("completion:x"));
}

#[test]
fn requests_under_other_keys_are_left_alone() {
    let mut c = client("srv");
    c.begin_request(Some("completion:x"), "m", Json::Null);
    assert_eq!(c.begin_request(Some("completion:y"), "m", Json::Null).messages.len(), 1);
    assert_eq!(c.begin_request(None, "m", Json::Null).messages.len(), 1);
    assert_eq!(c.pending.len(), 3);
}

#[test]
fn responses_carry_results_or_errors() {
    let mut c = client("srv");
    let id = c.begin_request(None, "m", Json::Null).id;
    let error = c.answered(None, id, &json(r#"{"error":{"code":-1,"message":"no"}}"#));
    assert_eq!(error.err().unwrap(), r#"LSP error: {"code":-1,"message":"no"}"#);
    assert!(c.answered(None, id, &json("{}")).unwrap().unwrap().is_null());
}

#[test]
fn requests_that_end_badly_leave_nothing() {
    let mut c = client("srv");
    let key = Some("k");
    let id = c.begin_request(key, "m", Json::Null).id;
    assert_eq!(c.closed(key, id, "channel closed").err().unwrap(), "channel closed");
    assert!(c.pending.is_empty() && !c.latest_requests.contains("k"));

    let id = c.begin_request(key, "m", Json::Null).id;
    c.send_failed(key, id);
    assert!(c.pending.is_empty() && !c.latest_requests.contains("k"));

    let id = c.begin_request(key, "slow/method", Json::Null).id;
    let out = c.timed_out(key, id, "slow/method", 3000);
    assert_eq!(out.error, "LSP request timed out after 3000ms: slow/method");
    assert_eq!(
        out.message.unwrap().render(),
        r#"{"jsonrpc":"2.0","method":"$/cancelRequest","params":{"id":3}}"#
    );
    assert!(c.pending.is_empty() && !c.latest_requests.contains("k"));
    assert!(c.timed_out(None, id, "m", 1).message.is_none());
}

#[test]
fn a_request_that_nothing_replaces_must_have_an_answer() {
    assert_eq!(
        require_result("m", Ok(None)).err().unwrap(),
        "non-superseding request was unexpectedly cancelled: m"
    );
    assert_eq!(require_result("m", Ok(Some(json("1")))).unwrap().render(), "1");
    assert_eq!(require_result("m", Err("e".to_string())).err().unwrap(), "e");
}

#[test]
fn initialize_names_the_workspace() {
    let mut c = client("srv");
    let call = c.initialize(77, "0.2.0", "file:///w/My%20App/", "/w/My App", None);
    assert_eq!(call.method, "initialize");
    assert_eq!(call.timeout_ms, 120000);
    let p = &call.params;
    assert_eq!(p.at("processId").as_u64(), Some(77));
    assert_eq!(p.at("clientInfo").render(), r#"{"name":"SimpleCC","version":"0.2.0"}"#);
    assert_eq!(
        p.at("workspaceFolders").render(),
        r#"[{"name":"My App","uri":"file:///w/My%20App/"}]"#
    );
    assert!(p.get("initializationOptions").unwrap().is_null());
    assert_eq!(p.str_at("rootPath"), Some("/w/My App"));
    let root = c.initialize(1, "v", "file:///", "/", Some(json(r#"{"o":1}"#)));
    assert_eq!(
        root.params.at("workspaceFolders").render(),
        r#"[{"name":"workspace","uri":"file:///"}]"#
    );
    assert_eq!(root.params.at("initializationOptions").render(), r#"{"o":1}"#);

    let done = c.initialize_reply(&json(r#"{"capabilities":{"textDocumentSync":2}}"#));
    assert_eq!(done.render(), r#"{"jsonrpc":"2.0","method":"initialized","params":{}}"#);
    assert_eq!(c.capabilities.as_ref().unwrap().render(), r#"{"textDocumentSync":2}"#);
    c.initialize_reply(&json("7"));
    assert!(c.capabilities.is_some());
    assert_eq!(c.shutdown().method, "shutdown");
    assert_eq!(c.exit().render(), r#"{"jsonrpc":"2.0","method":"exit","params":null}"#);
}

#[test]
fn changes_go_piece_by_piece_where_the_server_takes_them() {
    let changes = || Some(vec![json(r#"{"text":"x","range":{}}"#)]);
    let mut c = client("srv");
    let whole = r#"{"jsonrpc":"2.0","method":"textDocument/didChange","params":{"contentChanges":[{"text":"all"}],"textDocument":{"uri":"u","version":-3}}}"#;
    assert_eq!(c.did_change("u", -3, Some("all"), changes()).render(), whole);
    c.initialize_reply(&json(r#"{"capabilities":{"textDocumentSync":1}}"#));
    assert_eq!(c.did_change("u", -3, Some("all"), changes()).render(), whole);
    for sync in ["2", r#"{"change":2,"openClose":true}"#] {
        c.initialize_reply(&json(&format!(r#"{{"capabilities":{{"textDocumentSync":{sync}}}}}"#)));
        let sent = c.did_change("u", 1, Some("all"), changes());
        assert_eq!(
            sent.at("params").at("contentChanges").render(),
            r#"[{"range":{},"text":"x"}]"#
        );
        assert_eq!(c.did_change("u", -3, Some("all"), None).render(), whole);
    }
    let empty = c.did_change("u", 1, None, None);
    assert_eq!(empty.at("params").at("contentChanges").render(), r#"[{"text":""}]"#);
}

#[test]
fn documents_are_opened_saved_and_closed() {
    let c = client("srv");
    assert_eq!(
        c.did_open("u", "rust", 1, "fn").at("params").render(),
        r#"{"textDocument":{"languageId":"rust","text":"fn","uri":"u","version":1}}"#
    );
    assert_eq!(
        c.did_save("u", Some("t")).at("params").render(),
        r#"{"text":"t","textDocument":{"uri":"u"}}"#
    );
    assert_eq!(
        c.did_save("u", None).render(),
        r#"{"jsonrpc":"2.0","method":"textDocument/didSave","params":{"textDocument":{"uri":"u"}}}"#
    );
    assert_eq!(
        c.did_close("u").render(),
        r#"{"jsonrpc":"2.0","method":"textDocument/didClose","params":{"textDocument":{"uri":"u"}}}"#
    );
}

#[test]
fn only_the_julia_server_is_told_of_environments() {
    let julia = client("julia-lsp");
    assert_eq!(
        julia.julia_activate_environment("/env").unwrap().render(),
        r#"{"jsonrpc":"2.0","method":"julia/activateenvironment","params":{"envPath":"/env"}}"#
    );
    assert_eq!(
        julia.refresh_julia_language_server().unwrap().render(),
        r#"{"jsonrpc":"2.0","method":"julia/refreshLanguageServer","params":null}"#
    );
    let other = client("gopls");
    assert_eq!(
        other.julia_activate_environment("/env").err().unwrap(),
        "server gopls is not Julia LanguageServer"
    );
    assert!(other.refresh_julia_language_server().is_none());
}

#[test]
fn settings_can_be_replaced() {
    let mut c = client("srv");
    assert_eq!(c.settings.render(), "{}");
    let sent = c.did_change_configuration(Some(json(r#"{"a":1}"#)));
    assert_eq!(
        sent.render(),
        r#"{"jsonrpc":"2.0","method":"workspace/didChangeConfiguration","params":{"settings":{"a":1}}}"#
    );
    assert_eq!(c.settings.render(), r#"{"a":1}"#);
    c.did_change_configuration(None);
    assert_eq!(c.settings.render(), "{}");
}

#[test]
fn repeated_file_changes_are_held_back() {
    let mut c = client("srv");
    let change = |uri: &str, change_type: u32| FileChange { uri: uri.to_string(), change_type };
    assert!(c.did_change_watched_file("file:///a", 0).is_none());

    c.receive(&json(
        r#"{"id":1,"method":"client/registerCapability","params":{"registrations":
            [{"id":"w","method":"workspace/didChangeWatchedFiles"}]}}"#,
    ));
    let first = c.did_change_watched_file("file:///a", 1000).unwrap();
    assert_eq!(
        first.at("params").render(),
        r#"{"changes":[{"type":2,"uri":"file:///a"}]}"#
    );
    assert!(c.did_change_watched_file("file:///a", 1000 + REPEAT_NS - 1).is_none());
    assert!(c.did_change_watched_file("file:///a", 1000 + REPEAT_NS).is_some());

    let many = vec![change("file:///b", 1), change("file:///a", 2), change("file:///b", 1)];
    let told = c.did_change_watched_files(&many, 1000 + REPEAT_NS + 1).unwrap();
    assert_eq!(told.at("params").render(), r#"{"changes":[{"type":1,"uri":"file:///b"}]}"#);
    assert!(c.did_change_watched_file("file:///a", 1000 + 2 * REPEAT_NS - 1).is_none());
}

#[test]
fn changes_are_held_back_for_a_quarter_of_a_second() {
    assert_eq!(REPEAT_NS, 250_000_000);
    assert_eq!(REMEMBER_NS, 2_000_000_000);
}
