use simplecc::json::Json;
use simplecc::lsp::client::{Incoming, LspClient};
use simplecc::lsp::read::{parse_locations, select_document_link, DocumentLink};
use simplecc::lsp::server::{
    answer_server_request, configuration_response, configuration_value,
    handle_server_notification, registration_methods, ServerEvent,
};
use simplecc::lsp::types::RangeItem;
use simplecc::registry::forward_server_event;

fn json(text: &str) -> Json {
    Json::parse(text.as_bytes()).unwrap()
}

fn rendered(values: Vec<Json>) -> Vec<String> {
    values.iter().map(|value| value.render()).collect()
}

fn link(start: u32, end: u32, target: &str) -> DocumentLink {
    DocumentLink {
        range: RangeItem { line: 4, character: start, end_line: 4, end_character: end },
        target: Some(target.to_string()),
    }
}

#[test]
fn selects_link_from_include_function_name_on_same_line() {
    let links = vec![link(8, 29, "file:///tmp/core/transformer.jl")];
    let location = select_document_link(&links, 4, 2).unwrap();
    assert_eq!(location.uri, "/tmp/core/transformer.jl");
    assert_eq!(location.line, 0);
}

#[test]
fn prefers_link_containing_cursor_and_ignores_web_targets() {
    let links = vec![
        link(1, 5, "https://example.com"),
        link(10, 20, "file:///tmp/first.jl"),
        link(25, 35, "file:///tmp/second.jl"),
    ];
    let location = select_document_link(&links, 4, 28).unwrap();
    assert_eq!(location.uri, "/tmp/second.jl");
}

#[test]
fn does_not_select_a_link_from_another_line() {
    let links = vec![link(8, 29, "file:///tmp/core/transformer.jl")];
    assert!(select_document_link(&links, 3, 8).is_none());
}

#[test]
fn the_nearest_link_wins_and_the_first_of_two() {
    let links = vec![
        link(0, 2, "file:///far"),
        link(10, 12, "file:///near"),
        link(16, 18, "file:///same"),
    ];
    assert_eq!(select_document_link(&links, 4, 9).unwrap().uri, "/near");
    assert_eq!(select_document_link(&links, 4, 14).unwrap().uri, "/near");
    assert_eq!(select_document_link(&links, 4, 15).unwrap().uri, "/same");
    assert_eq!(select_document_link(&links, 4, 12).unwrap().uri, "/near");
    let none = vec![DocumentLink { target: None, ..link(0, 2, "") }];
    assert!(select_document_link(&none, 4, 1).is_none());
}

#[test]
fn decodes_location_link_target_paths() {
    let result = json(
        r#"[{
            "targetUri": "file:///tmp/My%20Project/source.jl",
            "targetRange": {
                "start": { "line": 1, "character": 0 },
                "end": { "line": 2, "character": 0 }
            },
            "targetSelectionRange": {
                "start": { "line": 1, "character": 4 },
                "end": { "line": 1, "character": 10 }
            }
        }]"#,
    );
    let locations = parse_locations(&result).unwrap();
    assert_eq!(locations[0].uri, "/tmp/My Project/source.jl");
}

#[test]
fn locations_come_in_three_forms() {
    let range = r#"{"start":{"line":1,"character":2},"end":{"line":1,"character":5}}"#;
    let one = format!(r#"{{"uri":"file:///a","range":{range}}}"#);
    let found = parse_locations(&json(&one)).unwrap();
    assert_eq!((found.len(), found[0].line, found[0].character), (1, 1, 2));
    let many = format!(r#"[{one},{one}]"#);
    assert_eq!(parse_locations(&json(&many)).unwrap().len(), 2);
    assert!(parse_locations(&Json::Null).unwrap().is_empty());
    assert!(parse_locations(&json("7")).unwrap().is_empty());
}

#[test]
fn returns_configuration_items_in_request_order() {
    let settings = json(
        r#"{
            "julia": {
                "lint": { "run": true },
                "completionmode": "qualify"
            }
        }"#,
    );
    let params = json(
        r#"{
            "items": [
                { "section": "julia.completionmode" },
                { "section": "julia.lint.run" },
                { "section": "julia.unknown" }
            ]
        }"#,
    );
    assert_eq!(
        rendered(configuration_response(Some(&params), &settings)),
        ["\"qualify\"", "true", "null"]
    );
}

#[test]
fn exact_dotted_setting_overrides_nested_value() {
    let settings = json(
        r#"{
            "julia": { "lint": { "run": true } },
            "julia.lint.run": false
        }"#,
    );
    assert_eq!(configuration_value(&settings, "julia.lint.run").render(), "false");
}

#[test]
fn items_without_a_section_get_all_settings() {
    let settings = json(r#"{"a":1}"#);
    let params = json(r#"{"items":[{},{"section":"a"},{"section":"a.b"}]}"#);
    assert_eq!(
        rendered(configuration_response(Some(&params), &settings)),
        [r#"{"a":1}"#, "1", "null"]
    );
    assert!(configuration_response(None, &settings).is_empty());
}

#[test]
fn records_dynamic_registration_methods() {
    let params = json(
        r#"{
            "registrations": [
                { "id": "files", "method": "workspace/didChangeWatchedFiles" },
                { "id": "config", "method": "workspace/didChangeConfiguration" }
            ]
        }"#,
    );
    assert_eq!(
        registration_methods(Some(&params)),
        vec![
            "workspace/didChangeWatchedFiles".to_string(),
            "workspace/didChangeConfiguration".to_string()
        ]
    );
}

#[test]
fn requests_of_a_server_are_answered() {
    let settings = json(r#"{"x":2}"#);
    let answer = |text: &str| answer_server_request(&json(text), &settings);

    let reply = answer(
        r#"{"id":3,"method":"workspace/configuration","params":{"items":[{"section":"x"}]}}"#,
    );
    assert_eq!(reply.response.render(), r#"{"id":3,"jsonrpc":"2.0","result":[2]}"#);
    assert!(reply.event.is_none());

    let reply = answer(
        r#"{"id":"r","method":"client/registerCapability",
            "params":{"registrations":[{"id":"i","method":"m"}]}}"#,
    );
    assert_eq!(reply.response.render(), r#"{"id":"r","jsonrpc":"2.0","result":null}"#);
    assert_eq!(reply.methods, ["m"]);

    let reply = answer(r#"{"id":4,"method":"window/workDoneProgress/create","params":{}}"#);
    assert_eq!(reply.response.render(), r#"{"id":4,"jsonrpc":"2.0","result":null}"#);

    let reply = answer(r#"{"id":5,"method":"window/showDocument"}"#);
    assert_eq!(
        reply.response.render(),
        r#"{"error":{"code":-32601,"message":"method not found"},"id":5,"jsonrpc":"2.0"}"#
    );

    let reply = answer(
        r#"{"id":6,"method":"workspace/applyEdit","params":{"edit":{"changes":{"file:///a":
            [{"range":{"start":{"line":0,"character":0},"end":{"line":0,"character":1}},
            "newText":"z"}]}}}}"#,
    );
    assert_eq!(reply.response.render(), r#"{"id":6,"jsonrpc":"2.0","result":{"applied":true}}"#);
    match reply.event {
        Some(ServerEvent::ApplyEdit { edit, .. }) => assert_eq!(edit.changes[0].uri, "file:///a"),
        _ => panic!("no edit"),
    }
}

#[test]
fn notifications_become_events() {
    let event = |method: &str, params: &str| {
        let msg = json(&format!(r#"{{"method":"{method}","params":{params}}}"#));
        handle_server_notification(method, &msg)
            .map(|event| forward_server_event("srv", &event).render())
    };
    assert_eq!(
        event("window/logMessage", r#"{"type":1,"message":"m"}"#).unwrap(),
        r#"{"level":"error","message":"m","server":"srv","type":"log"}"#
    );
    assert_eq!(
        event("window/showMessage", r#"{"type":2,"message":"m"}"#).unwrap(),
        r#"{"level":"warn","message":"m","server":"srv","type":"showMessage"}"#
    );
    assert_eq!(
        event("window/logMessage", r#"{"type":9}"#).unwrap(),
        r#"{"level":"debug","message":"","server":"srv","type":"log"}"#
    );
    assert_eq!(
        event(
            "$/progress",
            r#"{"token":7,"value":{"kind":"report","message":"half","percentage":50}}"#
        )
        .unwrap(),
        r#"{"kind":"report","message":"half","percentage":50,"server":"srv","title":"","token":"7","type":"progress"}"#
    );
    assert_eq!(
        event(
            "textDocument/publishDiagnostics",
            r#"{"uri":"file:///a","diagnostics":[{"range":{"start":{"line":1,"character":2},
                "end":{"line":1,"character":3}},"message":"bad","severity":1}]}"#
        )
        .unwrap(),
        r#"{"items":[{"character":2,"end_character":3,"end_line":1,"line":1,"message":"bad","severity":1}],"type":"diagnostics","uri":"file:///a"}"#
    );
    assert!(event("telemetry/event", "{}").is_none());
    assert!(event("$/progress", r#"{"token":7}"#).is_none());
    assert!(event("textDocument/publishDiagnostics", "{}").is_none());
    assert_eq!(
        forward_server_event("srv", &ServerEvent::Stopped { message: "gone".to_string() })
            .render(),
        r#"{"message":"gone","server":"srv","status":"stopped","type":"serverStatus"}"#
    );
}

#[test]
fn messages_are_told_apart() {
    let mut client = LspClient::new("srv", Some(json(r#"{"k":1}"#)));
    let begun = client.begin_request(None, "m", Json::Null);
    assert_eq!(begun.id, 1);
    match client.receive(&json(r#"{"id":1,"result":5}"#)) {
        Incoming::Response { id, known } => assert!(id == 1 && known),
        _ => panic!("no response"),
    }
    match client.receive(&json(r#"{"id":1,"result":5}"#)) {
        Incoming::Response { known, .. } => assert!(!known),
        _ => panic!("no response"),
    }
    match client.receive(&json(
        r#"{"id":9,"method":"workspace/configuration","params":{"items":[{"section":"k"}]}}"#,
    )) {
        Incoming::Request { response, .. } => {
            assert_eq!(response.render(), r#"{"id":9,"jsonrpc":"2.0","result":[1]}"#)
        }
        _ => panic!("no request"),
    }
    assert!(matches!(
        client.receive(&json(r#"{"method":"window/logMessage","params":{}}"#)),
        Incoming::Notification { event: Some(_) }
    ));
    assert!(matches!(client.receive(&json(r#"{"params":{}}"#)), Incoming::Ignored));
    assert!(matches!(
        client.receive(&json(r#"{"id":"text","result":1}"#)),
        Incoming::Response { id: 0, known: false }
    ));
}
