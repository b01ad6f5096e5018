use simplecc::json::Json;
use simplecc::lsp::actions::TokenStep;
use simplecc::lsp::client::LspClient;
use simplecc::lsp::tokens::{
    apply_delta, apply_edit, decode_tokens, tokens_at, SemanticToken, TokenEdit,
};

fn json(text: &str) -> Json {
    Json::parse(text.as_bytes()).unwrap()
}

fn token(delta_line: u32, delta_start: u32) -> SemanticToken {
    SemanticToken { delta_line, delta_start, length: 1, token_type: 0, token_modifiers_bitset: 0 }
}

fn numbers(data: &[SemanticToken]) -> Vec<(u32, u32)> {
    data.iter().map(|t| (t.delta_line, t.delta_start)).collect()
}

fn names(list: &[&str]) -> Vec<String> {
    list.iter().map(|name| name.to_string()).collect()
}

#[test]
fn tokens_are_read_five_numbers_at_a_time() {
    let data = tokens_at(&json(r#"{"data":[1,2,3,4,5,6,7,8,9,10,11]}"#), "data");
    assert_eq!(data.len(), 2);
    assert_eq!(data[1].token_modifiers_bitset, 10);
    assert_eq!(data[1].length, 8);
    assert!(tokens_at(&json("{}"), "data").is_empty());
}

#[test]
fn places_are_relative_to_the_token_before() {
    let data = vec![
        SemanticToken {
            delta_line: 2,
            delta_start: 5,
            length: 3,
            token_type: 1,
            token_modifiers_bitset: 0b101,
        },
        SemanticToken {
            delta_line: 0,
            delta_start: 4,
            length: 1,
            token_type: 9,
            token_modifiers_bitset: 0,
        },
        token(1, 7),
    ];
    let shown =
        decode_tokens(&data, &names(&["class", "function"]), &names(&["static", "async", "mut"]))
            .unwrap();
    let places: Vec<_> = shown.iter().map(|t| (t.line, t.start, t.length)).collect();
    assert_eq!(places, [(2, 5, 3), (2, 9, 1), (3, 7, 1)]);
    assert_eq!(shown[0].token_type, "function");
    assert_eq!(shown[0].modifiers, ["static", "mut"]);
    assert_eq!(shown[1].token_type, "type_9");
    assert_eq!(shown[2].token_type, "class");
}

#[test]
fn places_that_do_not_fit_are_refused() {
    let data = vec![token(u32::MAX, 0), token(1, 0)];
    assert!(decode_tokens(&data, &vec![], &vec![]).is_none());
    let data = vec![token(0, u32::MAX), token(0, 1)];
    assert!(decode_tokens(&data, &vec![], &vec![]).is_none());
    assert!(decode_tokens(&vec![], &vec![], &vec![]).unwrap().is_empty());
}

#[test]
fn places_ascend_and_prefixes_decode_alike() {
    let data = vec![token(0, 3), token(0, 0), token(0, 4), token(2, 1), token(0, 1), token(1, 0)];
    let whole = decode_tokens(&data, &vec![], &vec![]).unwrap();
    let places: Vec<(u32, u32)> = whole.iter().map(|item| (item.line, item.start)).collect();
    assert_eq!(places, [(0, 3), (0, 3), (0, 7), (2, 1), (2, 2), (3, 0)]);
    assert!(places.windows(2).all(|pair| pair[0] <= pair[1]));
    for n in 0..=data.len() {
        let part = decode_tokens(&data[..n].to_vec(), &vec![], &vec![]).unwrap();
        let found: Vec<(u32, u32)> = part.iter().map(|item| (item.line, item.start)).collect();
        assert_eq!(found, places[..n]);
    }
}

#[test]
fn an_edit_replaces_a_stretch_of_tokens() {
    let data = vec![token(1, 1), token(2, 2), token(3, 3)];
    let edit = TokenEdit { start: 1, delete_count: 1, data: vec![token(8, 8), token(9, 9)] };
    assert_eq!(numbers(&apply_edit(&data, &edit)), [(1, 1), (8, 8), (9, 9), (3, 3)]);
    let edit = TokenEdit { start: 2, delete_count: 50, data: vec![] };
    assert_eq!(numbers(&apply_edit(&data, &edit)), [(1, 1), (2, 2)]);
    let edit = TokenEdit { start: 3, delete_count: 0, data: vec![token(4, 4)] };
    assert_eq!(numbers(&apply_edit(&data, &edit)), [(1, 1), (2, 2), (3, 3), (4, 4)]);
    let edit = TokenEdit { start: 1, delete_count: 0, data: vec![] };
    assert_eq!(numbers(&apply_edit(&data, &edit)), numbers(&data));
}

#[test]
fn edits_are_applied_from_the_end() {
    let data = vec![token(1, 1), token(2, 2), token(3, 3)];
    let delta = json(
        r#"{"edits":[{"start":0,"deleteCount":1,"data":[7,7,1,0,0]},
            {"start":2,"deleteCount":1,"data":[8,8,1,0,0,9,9,1,0,0]}]}"#,
    );
    let edited = apply_delta(&data, &delta).unwrap();
    assert_eq!(numbers(&edited), [(7, 7), (2, 2), (8, 8), (9, 9)]);
    assert_eq!(numbers(&apply_delta(&data, &json(r#"{"edits":[]}"#)).unwrap()), numbers(&data));
    assert!(apply_delta(&data, &json(r#"{"edits":[{"start":4,"deleteCount":0}]}"#)).is_none());
}

fn client() -> LspClient {
    let mut client = LspClient::new("srv", None);
    client.initialize_reply(&json(
        r#"{"capabilities":{"semanticTokensProvider":{"full":{"delta":true},
            "legend":{"tokenTypes":["a","b"],"tokenModifiers":["m"]}}}}"#,
    ));
    client
}

fn shown(step: TokenStep) -> Vec<(u32, u32, String)> {
    match step {
        TokenStep::Tokens(items) => {
            items.into_iter().map(|t| (t.line, t.start, t.token_type)).collect()
        }
        TokenStep::AskFull(_) => panic!("asks for all tokens"),
        TokenStep::Unusable => panic!("unusable"),
    }
}

#[test]
fn deltas_are_applied_to_what_was_kept() {
    let mut c = client();
    let uri = "file:///a";
    assert_eq!(c.semantic_tokens_full_delta(uri).method, "textDocument/semanticTokens/full");
    let full = json(r#"{"resultId":"1","data":[0,1,1,0,0,1,2,1,1,0]}"#);
    let step = c.semantic_tokens_full_reply(uri, &full).ok().unwrap();
    assert_eq!(shown(step), [(0, 1, "a".to_string()), (1, 2, "b".to_string())]);

    let ask = c.semantic_tokens_full_delta(uri);
    assert_eq!(ask.method, "textDocument/semanticTokens/full/delta");
    assert_eq!(
        ask.params.render(),
        r#"{"previousResultId":"1","textDocument":{"uri":"file:///a"}}"#
    );
    let delta = json(r#"{"resultId":"2","edits":[{"start":0,"deleteCount":1}]}"#);
    let step = c.semantic_tokens_delta_reply(uri, Ok(delta));
    assert_eq!(shown(step), [(1, 2, "b".to_string())]);
    assert_eq!(c.semantic_tokens_full_delta(uri).params.str_at("previousResultId"), Some("2"));

    let step = c.semantic_tokens_delta_reply(uri, Ok(json(r#"{"data":[3,0,1,0,0]}"#)));
    assert_eq!(shown(step), [(3, 0, "a".to_string())]);
    assert_eq!(c.semantic_tokens_full_delta("file:///b").method, "textDocument/semanticTokens/full");
}

#[test]
fn a_failed_delta_starts_over() {
    let mut c = client();
    let uri = "file:///a";
    let full = json(r#"{"resultId":"1","data":[0,1,1,0,0]}"#);
    c.semantic_tokens_full_reply(uri, &full).ok().unwrap();
    match c.semantic_tokens_delta_reply(uri, Err("gone".to_string())) {
        TokenStep::AskFull(call) => assert_eq!(call.method, "textDocument/semanticTokens/full"),
        _ => panic!("does not start over"),
    }
    assert!(!c.has_named_tokens(uri));

    c.semantic_tokens_full_reply(uri, &full).ok().unwrap();
    assert!(c.has_named_tokens(uri));
    assert!(matches!(
        c.semantic_tokens_delta_reply(uri, Ok(json("7"))),
        TokenStep::AskFull(_)
    ));
    assert!(!c.has_named_tokens(uri));

    c.semantic_tokens_full_reply(uri, &full).ok().unwrap();
    assert!(shown(c.semantic_tokens_delta_reply(uri, Ok(Json::Null))).is_empty());
    assert!(c.has_named_tokens(uri));
    assert!(matches!(
        c.semantic_tokens_delta_reply(
            uri,
            Ok(json(r#"{"edits":[{"start":9,"deleteCount":0}]}"#))
        ),
        TokenStep::Unusable
    ));
}

#[test]
fn tokens_of_a_range_are_not_kept() {
    let mut c = client();
    let reply = c.semantic_tokens_range_reply(&json(r#"{"resultId":"r","data":[0,1,1,0,1]}"#));
    match reply.ok().unwrap() {
        TokenStep::Tokens(items) => assert_eq!(items[0].modifiers, ["m"]),
        _ => panic!("no tokens"),
    }
    assert!(!c.has_named_tokens("file:///a"));
    assert!(c.semantic_tokens_range_reply(&json("7")).is_err());
    assert!(c.semantic_tokens_full_reply("file:///a", &json("7")).is_err());
    assert!(shown(c.semantic_tokens_full_reply("file:///a", &Json::Null).ok().unwrap()).is_empty());
}
