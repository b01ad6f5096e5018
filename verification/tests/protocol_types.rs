use simplecc::json::Json;
use simplecc::lsp::capabilities::client_capabilities;
use simplecc::lsp::decode;
use simplecc::lsp::types::{
    completion_kind_label, from_lsp_completion_item, from_lsp_diagnostic, from_lsp_location,
    from_lsp_location_link, from_lsp_workspace_edit, highlight_kind_label, severity_to_u8,
    symbol_kind_label,
};
use simplecc::lsp::wire::Wire;

fn json(text: &str) -> Json {
    Json::parse(text.as_bytes()).unwrap()
}

const RANGE: &str =
    r#"{"start":{"line":1,"character":2},"end":{"line":3,"character":4},"zzz":0}"#;

fn ranged(text: &str) -> Json {
    json(&text.replace("RANGE", RANGE))
}

fn check(
    name: &str,
    read: impl Fn(&Json) -> Result<Json, String>,
    good: &str,
    expected: &str,
    bad: &str,
) {
    let clean = r#"{"end":{"character":4,"line":3},"start":{"character":2,"line":1}}"#;
    let got = match read(&ranged(good)) {
        Ok(value) => value.render(),
        Err(error) => panic!("{name}: {error}"),
    };
    assert_eq!(got, expected.replace("RANGE", clean), "{name}");
    assert!(read(&ranged(bad)).is_err(), "{name} reads {bad}");
}

#[test]
fn what_the_protocol_knows_is_kept_and_the_rest_is_dropped() {
    check(
        "initialize result",
        decode::initialize_result,
        r#"{"capabilities":{"hoverProvider":true,"zzz":1},"zzz":1}"#,
        r#"{"capabilities":{"hoverProvider":true}}"#,
        r#"{"zzz":1}"#,
    );
    check(
        "completion items",
        decode::completion_items,
        r#"[{"label":"a","kind":3,"zzz":1}]"#,
        r#"[{"kind":3,"label":"a"}]"#,
        r#"[{"kind":3}]"#,
    );
    check(
        "completion list",
        decode::completion_list,
        r#"{"isIncomplete":true,"items":[{"label":"a"}],"zzz":1}"#,
        r#"{"isIncomplete":true,"items":[{"label":"a"}]}"#,
        r#"{"isIncomplete":true}"#,
    );
    check(
        "completion item",
        decode::completion_item,
        r#"{"label":"a","insertTextFormat":2,"zzz":1}"#,
        r#"{"insertTextFormat":2,"label":"a"}"#,
        "7",
    );
    check(
        "hover",
        decode::hover,
        r#"{"contents":{"kind":"markdown","value":"x"},"zzz":1}"#,
        r#"{"contents":{"kind":"markdown","value":"x"}}"#,
        r#"{"contents":7}"#,
    );
    check(
        "location",
        decode::location,
        r#"{"uri":"file:///a","range":RANGE,"zzz":1}"#,
        r#"{"range":RANGE,"uri":"file:///a"}"#,
        r#"{"uri":"file:///a"}"#,
    );
    check(
        "locations",
        decode::locations,
        r#"[{"uri":"file:///a","range":RANGE,"zzz":1}]"#,
        r#"[{"range":RANGE,"uri":"file:///a"}]"#,
        r#"{"uri":"file:///a","range":RANGE}"#,
    );
    check(
        "location links",
        decode::location_links,
        r#"[{"targetUri":"file:///a","targetRange":RANGE,"targetSelectionRange":RANGE,"zzz":1}]"#,
        r#"[{"targetRange":RANGE,"targetSelectionRange":RANGE,"targetUri":"file:///a"}]"#,
        r#"[{"uri":"file:///a","range":RANGE}]"#,
    );
    check(
        "document links",
        decode::document_links,
        r#"[{"range":RANGE,"target":"file:///a","zzz":1}]"#,
        r#"[{"range":RANGE,"target":"file:///a"}]"#,
        r#"[{"target":"file:///a"}]"#,
    );
    check(
        "diagnostics",
        decode::diagnostics,
        r#"[{"range":RANGE,"message":"m","severity":2,"code":7,"zzz":1}]"#,
        r#"[{"code":7,"message":"m","range":RANGE,"severity":2}]"#,
        r#"[{"range":RANGE}]"#,
    );
    check(
        "code action",
        decode::code_action,
        r#"{"title":"t","kind":"quickfix","zzz":1}"#,
        r#"{"kind":"quickfix","title":"t"}"#,
        r#"{"kind":"quickfix"}"#,
    );
    check(
        "text edits",
        decode::text_edits,
        r#"[{"range":RANGE,"newText":"n","zzz":1}]"#,
        r#"[{"newText":"n","range":RANGE}]"#,
        r#"[{"range":RANGE}]"#,
    );
    check(
        "workspace edit",
        decode::workspace_edit,
        r#"{"changes":{"file:///a":[{"range":RANGE,"newText":"n"}]},"zzz":1}"#,
        r#"{"changes":{"file:///a":[{"newText":"n","range":RANGE}]}}"#,
        r#"{"changes":{"file:///a":7}}"#,
    );
    check(
        "signature help",
        decode::signature_help,
        r#"{"signatures":[{"label":"f(a)","zzz":1}],"activeParameter":0,"zzz":1}"#,
        r#"{"activeParameter":0,"signatures":[{"label":"f(a)"}]}"#,
        r#"{"signatures":[{}]}"#,
    );
    check(
        "document symbols",
        decode::document_symbols,
        r#"[{"name":"n","kind":12,"range":RANGE,"selectionRange":RANGE,"zzz":1}]"#,
        r#"[{"kind":12,"name":"n","range":RANGE,"selectionRange":RANGE}]"#,
        r#"[{"name":"n","kind":12,"location":{"uri":"file:///a","range":RANGE}}]"#,
    );
    check(
        "symbol informations",
        decode::symbol_informations,
        r#"[{"name":"n","kind":12,"location":{"uri":"file:///a","range":RANGE},"zzz":1}]"#,
        r#"[{"kind":12,"location":{"range":RANGE,"uri":"file:///a"},"name":"n"}]"#,
        r#"[{"name":"n","kind":12}]"#,
    );
    check(
        "document highlights",
        decode::document_highlights,
        r#"[{"range":RANGE,"kind":3,"zzz":1}]"#,
        r#"[{"kind":3,"range":RANGE}]"#,
        r#"[{"kind":3}]"#,
    );
    check(
        "inlay hints",
        decode::inlay_hints,
        r#"[{"position":{"line":1,"character":2},"label":": i32","kind":1,"zzz":1}]"#,
        r#"[{"kind":1,"label":": i32","position":{"character":2,"line":1}}]"#,
        r#"[{"position":{"line":1,"character":2}}]"#,
    );
    let item = r#"{"name":"n","kind":12,"uri":"file:///a","range":RANGE,"selectionRange":RANGE,"zzz":1}"#;
    let clean = r#"{"kind":12,"name":"n","range":RANGE,"selectionRange":RANGE,"uri":"file:///a"}"#;
    check("call items", decode::call_items, &format!("[{item}]"), &format!("[{clean}]"), item);
    check("call item", decode::call_item, item, clean, r#"{"name":"n"}"#);
    check("type items", decode::type_items, &format!("[{item}]"), &format!("[{clean}]"), item);
    check("type item", decode::type_item, item, clean, r#"{"name":"n"}"#);
    check(
        "incoming calls",
        decode::incoming_calls,
        &format!(r#"[{{"from":{item},"fromRanges":[RANGE],"zzz":1}}]"#),
        &format!(r#"[{{"from":{clean},"fromRanges":[RANGE]}}]"#),
        &format!(r#"[{{"to":{item},"fromRanges":[RANGE]}}]"#),
    );
    check(
        "outgoing calls",
        decode::outgoing_calls,
        &format!(r#"[{{"to":{item},"fromRanges":[RANGE],"zzz":1}}]"#),
        &format!(r#"[{{"fromRanges":[RANGE],"to":{clean}}}]"#),
        &format!(r#"[{{"from":{item},"fromRanges":[RANGE]}}]"#),
    );
    check(
        "selection ranges",
        decode::selection_ranges,
        r#"[{"range":RANGE,"parent":{"range":RANGE,"zzz":1}}]"#,
        r#"[{"parent":{"range":RANGE},"range":RANGE}]"#,
        r#"[{"parent":{"range":RANGE}}]"#,
    );
    check(
        "semantic tokens",
        decode::semantic_tokens,
        r#"{"resultId":"1","data":[1,2,3,4,5],"zzz":1}"#,
        r#"{"data":[1,2,3,4,5],"resultId":"1"}"#,
        r#"{"resultId":"1","edits":[]}"#,
    );
    check(
        "semantic tokens delta",
        decode::semantic_tokens_delta,
        r#"{"resultId":"1","edits":[{"start":0,"deleteCount":1,"zzz":1}],"zzz":1}"#,
        r#"{"edits":[{"deleteCount":1,"start":0}],"resultId":"1"}"#,
        r#"{"resultId":"1","data":[]}"#,
    );
    check(
        "code lenses",
        decode::code_lenses,
        r#"[{"range":RANGE,"command":{"title":"t","command":"c","zzz":1},"zzz":1}]"#,
        r#"[{"command":{"command":"c","title":"t"},"range":RANGE}]"#,
        r#"[{"command":{"title":"t","command":"c"}}]"#,
    );
    check(
        "code lens",
        decode::code_lens,
        r#"{"range":RANGE,"data":{"k":1},"zzz":1}"#,
        r#"{"data":{"k":1},"range":RANGE}"#,
        "null",
    );
    check(
        "publish diagnostics",
        decode::publish_diagnostics,
        r#"{"uri":"file:///a","diagnostics":[{"range":RANGE,"message":"m"}],"zzz":1}"#,
        r#"{"diagnostics":[{"message":"m","range":RANGE}],"uri":"file:///a"}"#,
        r#"{"uri":"file:///a"}"#,
    );
    check(
        "folding ranges",
        decode::folding_ranges,
        r#"[{"startLine":1,"endLine":2,"kind":"comment","zzz":1}]"#,
        r#"[{"endLine":2,"kind":"comment","startLine":1}]"#,
        r#"[{"startLine":1}]"#,
    );
    check(
        "linked editing ranges",
        decode::linked_editing_ranges,
        r#"{"ranges":[RANGE],"wordPattern":"w","zzz":1}"#,
        r#"{"ranges":[RANGE],"wordPattern":"w"}"#,
        r#"{"wordPattern":"w"}"#,
    );
    check("value list", decode::value_list, r#"[1,{"zzz":1}]"#, r#"[1,{"zzz":1}]"#, "{}");
}

#[test]
fn kinds_have_the_names_of_the_protocol() {
    let number = |value: Result<serde_json::Value, serde_json::Error>| {
        value.unwrap().as_i64().unwrap()
    };
    for (kind, label) in [
        (lsp_types::CompletionItemKind::TEXT, "Text"),
        (lsp_types::CompletionItemKind::FUNCTION, "Function"),
        (lsp_types::CompletionItemKind::KEYWORD, "Keyword"),
        (lsp_types::CompletionItemKind::STRUCT, "Struct"),
        (lsp_types::CompletionItemKind::SNIPPET, "Snippet"),
    ] {
        assert_eq!(completion_kind_label(number(serde_json::to_value(kind))), label);
    }
    for (kind, label) in [
        (lsp_types::SymbolKind::FILE, "File"),
        (lsp_types::SymbolKind::FUNCTION, "Function"),
        (lsp_types::SymbolKind::CONSTANT, "Constant"),
        (lsp_types::SymbolKind::STRUCT, "Struct"),
        (lsp_types::SymbolKind::OPERATOR, "Operator"),
        (lsp_types::SymbolKind::TYPE_PARAMETER, "TypeParam"),
    ] {
        assert_eq!(symbol_kind_label(number(serde_json::to_value(kind))), label);
    }
    assert_eq!(symbol_kind_label(0), "Unknown");
    assert_eq!(symbol_kind_label(27), "Unknown");
    for (kind, label) in [
        (lsp_types::DocumentHighlightKind::TEXT, "text"),
        (lsp_types::DocumentHighlightKind::READ, "read"),
        (lsp_types::DocumentHighlightKind::WRITE, "write"),
    ] {
        assert_eq!(highlight_kind_label(Some(number(serde_json::to_value(kind)))), label);
    }
    assert_eq!(highlight_kind_label(None), "text");
    for (severity, level) in [
        (lsp_types::DiagnosticSeverity::ERROR, 1),
        (lsp_types::DiagnosticSeverity::WARNING, 2),
        (lsp_types::DiagnosticSeverity::INFORMATION, 3),
        (lsp_types::DiagnosticSeverity::HINT, 4),
    ] {
        assert_eq!(severity_to_u8(Some(number(serde_json::to_value(severity)))), level);
    }
    assert_eq!(severity_to_u8(None), 3);
    assert_eq!(severity_to_u8(Some(9)), 3);
}

#[test]
fn completion_items_keep_what_they_edit() {
    let item = ranged(
        r#"{"label":"foo","kind":3,"textEdit":{"newText":"foo()","insert":RANGE,
            "replace":{"start":{"line":5,"character":0},"end":{"line":5,"character":3}}},
            "additionalTextEdits":[{"range":RANGE,"newText":"use x;"}],
            "commitCharacters":["."],"documentation":{"kind":"markdown","value":"doc"},
            "insertTextFormat":2,"sortText":"1"}"#,
    );
    let shown = from_lsp_completion_item(&item, 4);
    assert_eq!(
        shown.to_json().render(),
        json(
            r#"{"label":"foo","kind":"Function","documentation":"doc","insert_text":"foo()",
            "text_edit":{"line":5,"character":0,"end_line":5,"end_character":3,"new_text":"foo()"},
            "additional_text_edits":[{"line":1,"character":2,"end_line":3,"end_character":4,
            "new_text":"use x;"}],"commit_characters":["."],"sort_text":"1","filter_text":"foo",
            "index":4,"is_snippet":true}"#
        )
        .render()
    );
    let plain = from_lsp_completion_item(&json(r#"{"label":"x","insertText":"y"}"#), 0);
    assert_eq!(
        plain.to_json().render(),
        r#"{"filter_text":"x","index":0,"insert_text":"y","label":"x"}"#
    );
}

#[test]
fn locations_lead_to_paths() {
    let location = from_lsp_location(&ranged(r#"{"uri":"file:///a%20b","range":RANGE}"#));
    assert_eq!(
        location.to_json().render(),
        r#"{"character":2,"end_character":4,"end_line":3,"line":1,"uri":"/a b"}"#
    );
    let link = from_lsp_location_link(&ranged(
        r#"{"targetUri":"file:///t","targetRange":RANGE,
        "targetSelectionRange":{"start":{"line":7,"character":8},"end":{"line":7,"character":9}}}"#,
    ));
    assert_eq!((link.uri.as_str(), link.line, link.character), ("/t", 7, 8));
    assert_eq!((link.end_line, link.end_character), (Some(7), Some(9)));
}

#[test]
fn diagnostics_have_codes_as_text() {
    let shown = |code: &str| {
        let text = format!(r#"{{"range":RANGE,"message":"m","source":"s","code":{code}}}"#);
        from_lsp_diagnostic(&ranged(&text))
    };
    assert_eq!(shown("7").code.as_deref(), Some("7"));
    assert_eq!(shown("-7").code.as_deref(), Some("-7"));
    assert_eq!(shown("\"E1\"").code.as_deref(), Some("E1"));
    assert_eq!(shown("null").code, None);
    assert_eq!(
        shown("7").to_json().render(),
        r#"{"character":2,"code":"7","end_character":4,"end_line":3,"line":1,"message":"m","severity":3,"source":"s"}"#
    );
}

#[test]
fn workspace_edits_are_listed_by_file() {
    let edit = |n: &str| format!(r#"[{{"range":RANGE,"newText":"{n}"}}]"#);
    let by_changes = from_lsp_workspace_edit(&ranged(&format!(
        r#"{{"changes":{{"file:///a%20b":{}}}}}"#,
        edit("x")
    )));
    assert_eq!(by_changes.changes.len(), 1);
    assert_eq!(by_changes.changes[0].uri, "file:///a%20b");
    assert_eq!(by_changes.changes[0].edits[0].new_text, "x");

    let by_documents = from_lsp_workspace_edit(&ranged(&format!(
        r#"{{"documentChanges":[{{"textDocument":{{"uri":"file:///c","version":null}},"edits":{}}}]}}"#,
        edit("y")
    )));
    assert_eq!(by_documents.changes.len(), 1);
    assert_eq!(by_documents.changes[0].uri, "file:///c");
    assert_eq!(by_documents.changes[0].edits[0].new_text, "y");
    assert!(from_lsp_workspace_edit(&json("{}")).changes.is_empty());
}

#[test]
fn advertises_dynamic_configuration_updates() {
    let text = client_capabilities().render();
    let capabilities: lsp_types::ClientCapabilities = serde_json::from_str(&text).unwrap();
    assert_eq!(
        capabilities
            .workspace
            .and_then(|workspace| workspace.did_change_configuration)
            .and_then(|configuration| configuration.dynamic_registration),
        Some(true)
    );
}

#[test]
fn capabilities_are_all_known_to_the_protocol() {
    let text = client_capabilities().render();
    let capabilities: lsp_types::ClientCapabilities = serde_json::from_str(&text).unwrap();
    assert_eq!(serde_json::to_value(&capabilities).unwrap().to_string(), text);
    let completion = capabilities.text_document.unwrap().completion.unwrap();
    assert_eq!(completion.completion_item.unwrap().snippet_support, Some(true));
}
