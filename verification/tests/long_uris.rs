use simplecc::json::Json;
use simplecc::lsp::decode;
use simplecc::lsp::uris::{
    code_action_ok, diagnostics_ok, document_links_ok, hierarchy_item_ok, hierarchy_items_ok,
    incoming_calls_ok, inlay_hints_ok, location_links_ok, location_ok, locations_ok,
    outgoing_calls_ok, publish_diagnostics_ok, symbol_informations_ok, workspace_edit_ok,
};

const MAX: usize = 2147483647;

fn json(text: &str) -> Json {
    Json::parse(text.as_bytes()).unwrap()
}

fn text(bytes: usize) -> String {
    String::from_utf8(vec![0; bytes]).unwrap()
}

/// Puts a text wherever a value says "LONG". One text serves one place.
fn put(value: &mut Json, long: &mut Option<String>) {
    match value {
        Json::Str(s) if s == "LONG" => *s = long.take().unwrap(),
        Json::Array(items) => items.iter_mut().for_each(|item| put(item, long)),
        Json::Object(entries) => {
            for (key, member) in entries.iter_mut() {
                if key == "LONG" {
                    *key = long.take().unwrap();
                }
                put(member, long);
            }
        }
        _ => {}
    }
}

fn with_text(template: &str, bytes: usize) -> Json {
    let mut value = json(template);
    let mut long = Some(text(bytes));
    put(&mut value, &mut long);
    assert!(long.is_none(), "{template}");
    value
}

type Check = fn(Option<&Json>) -> bool;

#[test]
fn uris_of_more_than_the_limit_do_not_fit() {
    let cases: [(Check, &str); 25] = [
        (location_ok, r#"{"uri":"LONG"}"#),
        (location_ok, r#"["LONG",1]"#),
        (locations_ok, r#"[{},{"uri":"LONG"}]"#),
        (location_links_ok, r#"[{"targetUri":"LONG"}]"#),
        (location_links_ok, r#"[[null,"LONG"]]"#),
        (document_links_ok, r#"[{"target":"LONG"}]"#),
        (diagnostics_ok, r#"[{"codeDescription":{"href":"LONG"}}]"#),
        (diagnostics_ok, r#"[{"relatedInformation":[{"location":{"uri":"LONG"}}]}]"#),
        (publish_diagnostics_ok, r#"{"uri":"LONG"}"#),
        (publish_diagnostics_ok, r#"{"diagnostics":[{"codeDescription":{"href":"LONG"}}]}"#),
        (workspace_edit_ok, r#"{"changes":{"LONG":[]}}"#),
        (workspace_edit_ok, r#"{"documentChanges":[{"kind":"create","uri":"LONG"}]}"#),
        (workspace_edit_ok, r#"{"documentChanges":[{"kind":0,"uri":"LONG"}]}"#),
        (workspace_edit_ok, r#"{"documentChanges":[["delete","LONG"]]}"#),
        (workspace_edit_ok, r#"{"documentChanges":[{"kind":"rename","newUri":"LONG"}]}"#),
        (workspace_edit_ok, r#"{"documentChanges":[{"kind":"rename","oldUri":"LONG"}]}"#),
        (workspace_edit_ok, r#"{"documentChanges":[{"textDocument":{"uri":"LONG"}}]}"#),
        (code_action_ok, r#"{"edit":{"changes":{"LONG":[]}}}"#),
        (code_action_ok, r#"{"diagnostics":[{"codeDescription":{"href":"LONG"}}]}"#),
        (symbol_informations_ok, r#"[{"location":{"uri":"LONG"}}]"#),
        (inlay_hints_ok, r#"[{"label":[{"location":{"uri":"LONG"}}]}]"#),
        (hierarchy_item_ok, r#"{"uri":"LONG"}"#),
        (hierarchy_items_ok, r#"[{"uri":"LONG"}]"#),
        (incoming_calls_ok, r#"[{"from":{"uri":"LONG"}}]"#),
        (outgoing_calls_ok, r#"[{"to":{"uri":"LONG"}}]"#),
    ];
    for (is_ok, template) in cases {
        assert!(!is_ok(Some(&with_text(template, MAX + 1))), "{template}");
    }
    for (is_ok, template) in [cases[0], cases[10]] {
        assert!(is_ok(Some(&with_text(template, MAX))), "{template}");
    }
}

#[test]
fn other_texts_may_be_of_any_length() {
    let cases: [(Check, &str); 8] = [
        (location_ok, r#"{"uri":"file:///a","other":"LONG"}"#),
        (diagnostics_ok, r#"[{"message":"LONG","data":{"uri":"file:///a"}}]"#),
        (diagnostics_ok, r#"[{"data":{"uri":"LONG","href":[]}}]"#),
        (workspace_edit_ok, r#"{"changes":{"file:///a":[{"newText":"LONG"}]}}"#),
        (workspace_edit_ok, r#"{"documentChanges":[{"kind":"rename","uri":"LONG"}]}"#),
        (inlay_hints_ok, r#"[{"label":"LONG"}]"#),
        (hierarchy_item_ok, r#"{"uri":"file:///a","data":{"uri":"LONG"}}"#),
        (symbol_informations_ok, r#"[{"name":"LONG","location":{"uri":"file:///a"}}]"#),
    ];
    for (is_ok, template) in cases {
        assert!(is_ok(Some(&with_text(template, MAX + 1))), "{template}");
    }
}

#[test]
fn values_with_long_uris_are_refused() {
    let range = r#"{"start":{"line":0,"character":0},"end":{"line":0,"character":0}}"#;
    let template = format!(r#"{{"uri":"LONG","range":{range}}}"#);
    let refused = decode::location(&with_text(&template, MAX + 1)).err().unwrap();
    assert_eq!(refused, "URI is too long");
    let short = json(&template.replace("LONG", "file:///a"));
    assert_eq!(decode::location(&short).ok().unwrap().str_at("uri"), Some("file:///a"));
    // As lists, types are read by the places of their fields.
    let listed = json(&format!(r#"["file:///a",{range}]"#));
    assert_eq!(decode::location(&listed).ok().unwrap().str_at("uri"), Some("file:///a"));
    let numbered = json(r#"{"documentChanges":[{"kind":0,"uri":"file:///a"}]}"#);
    assert!(decode::workspace_edit(&numbered).is_ok());
    let listed = json(r#"{"documentChanges":[["rename","file:///a","file:///b",null,null]]}"#);
    assert!(decode::workspace_edit(&listed).is_ok());
}
