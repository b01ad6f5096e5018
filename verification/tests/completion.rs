use simplecc::json::Json;
use simplecc::lsp::client::LspClient;
use simplecc::lsp::completion::fill_item;

fn json(text: &str) -> Json {
    Json::parse(text.as_bytes()).unwrap()
}

fn client() -> LspClient {
    let mut client = LspClient::new("srv", None);
    client.initialize_reply(&json(
        r#"{"capabilities":{"completionProvider":{"triggerCharacters":[".","::"]}}}"#,
    ));
    client
}

#[test]
fn generations_are_taken_when_the_request_is_made() {
    let mut c = client();
    let first = c.completion("file:///a", 1, 2, 1, None);
    let second = c.completion("file:///a", 1, 3, 1, None);
    assert_eq!((first.generation, second.generation), (1, 2));
    assert_eq!(first.key, "completion:file:///a");
    assert_eq!(first.call.method, "textDocument/completion");
    assert_eq!(first.call.timeout_ms, 3000);
    assert_eq!(
        first.call.params.render(),
        r#"{"context":{"triggerKind":1},"position":{"character":2,"line":1},"textDocument":{"uri":"file:///a"}}"#
    );
}

#[test]
fn only_known_trigger_characters_are_sent() {
    let mut c = client();
    let mut context = |kind: u32, trigger: Option<&str>| {
        c.completion("u", 0, 0, kind, trigger).call.params.at("context").render()
    };
    assert_eq!(context(2, Some(".")), r#"{"triggerCharacter":".","triggerKind":2}"#);
    assert_eq!(context(2, Some("::")), r#"{"triggerCharacter":"::","triggerKind":2}"#);
    assert_eq!(context(2, Some("(")), r#"{"triggerKind":3}"#);
    assert_eq!(context(2, Some("")), r#"{"triggerKind":3}"#);
    assert_eq!(context(2, None), r#"{"triggerKind":3}"#);
    assert_eq!(context(1, Some(".")), r#"{"triggerKind":1}"#);
    assert_eq!(context(0, None), r#"{"triggerKind":1}"#);
    assert_eq!(context(9, Some(".")), r#"{"triggerKind":3}"#);
    let mut bare = LspClient::new("srv", None);
    let call = bare.completion("u", 0, 0, 2, Some("."));
    assert_eq!(call.call.params.at("context").render(), r#"{"triggerKind":3}"#);
}

#[test]
fn an_older_answer_never_replaces_a_newer_one() {
    let mut c = client();
    let newer = c.completion_reply(2, 10, Some(json(r#"[{"label":"new"}]"#)));
    assert_eq!(newer.ok().unwrap().unwrap().0, 2);
    let older = c.completion_reply(1, 10, Some(json(r#"[{"label":"old"}]"#)));
    let (generation, items) = older.ok().unwrap().unwrap();
    assert_eq!((generation, items[0].label.as_str()), (1, "old"));

    let resolve = c.completion_resolve(2, 0).ok().unwrap();
    assert_eq!(resolve.method, "completionItem/resolve");
    assert_eq!(resolve.timeout_ms, 5000);
    assert_eq!(resolve.params.render(), r#"{"label":"new"}"#);
    assert_eq!(
        c.completion_resolve(1, 0).err().unwrap(),
        "stale completion generation: requested 1, current 2"
    );
    assert_eq!(c.completion_resolve(2, 1).err().unwrap(), "invalid completion index");
}

#[test]
fn answers_are_cut_to_size() {
    let many = format!("[{}]", vec![r#"{"label":"x"}"#; 600].join(","));
    let mut c = client();
    let mut count = |max: usize| {
        let reply = c.completion_reply(1, max, Some(json(&many)));
        reply.ok().unwrap().unwrap().1.len()
    };
    assert_eq!(count(100), 100);
    assert_eq!(count(0), 1);
    assert_eq!(count(1000), 500);
}

#[test]
fn answers_come_in_several_forms() {
    let mut c = client();
    let mut labels = |text: &str| {
        c.completion_reply(1, 10, Some(json(text))).map(|reply| {
            reply.unwrap().1.into_iter().map(|item| (item.label, item.index)).collect::<Vec<_>>()
        })
    };
    let list = r#"{"isIncomplete":false,"items":[{"label":"a"},{"label":"b"}]}"#;
    assert_eq!(labels(list).unwrap(), [("a".to_string(), 0), ("b".to_string(), 1)]);
    assert!(labels("null").unwrap().is_empty());
    assert!(labels("{}").unwrap().is_empty());
    assert!(labels(r#"[{"kind":1}]"#).is_err());
    assert!(c.completion_reply(1, 10, None).ok().unwrap().is_none());
}

#[test]
fn what_an_answer_leaves_out_stays_as_it_was() {
    let original = json(
        r#"{"label":"f","insertText":"f()","detail":"old","documentation":"d",
            "additionalTextEdits":[],"sortText":"1"}"#,
    );
    let resolved = json(r#"{"label":"f","detail":"new","insertText":null}"#);
    assert_eq!(
        fill_item(&resolved, &original).render(),
        json(
            r#"{"label":"f","insertText":"f()","detail":"new","documentation":"d",
            "additionalTextEdits":[]}"#
        )
        .render()
    );
    let c = client();
    let item = c
        .completion_resolve_reply(&original, 3, &json(r#"{"label":"f","documentation":"more"}"#))
        .ok()
        .unwrap();
    assert_eq!(item.index, 3);
    assert_eq!(item.insert_text.as_deref(), Some("f()"));
    assert_eq!(item.documentation.as_deref(), Some("more"));
    assert!(c.completion_resolve_reply(&original, 3, &json("7")).is_err());
}
