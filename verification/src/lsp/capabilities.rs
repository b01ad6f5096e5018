//! The capabilities that the client advertises when it starts a server.

use vstd::prelude::*;

use crate::json;
use crate::json::{Fields, Json, JsonView};

verus! {

fn plaintext_first() -> (r: Json)
    ensures
        r@ == json::strings_view(
            seq![
                "plaintext"@,
                "markdown"@,
            ],
        ),
{
    let mut list: Vec<String> = Vec::new();
    list.push("plaintext".to_string());
    list.push("markdown".to_string());
    assert(list.deep_view() =~= seq!["plaintext"@, "markdown"@]);
    Json::string_array(&list)
}

fn resolve_properties() -> (r: Json)
    ensures
        r@ == json::strings_view(
            seq![
                "documentation"@,
                "detail"@,
            ],
        ),
{
    let mut list: Vec<String> = Vec::new();
    list.push("documentation".to_string());
    list.push("detail".to_string());
    assert(list.deep_view() =~= seq!["documentation"@, "detail"@]);
    Json::string_array(&list)
}

fn markdown_first() -> (r: Json)
    ensures
        r@ == json::strings_view(
            seq![
                "markdown"@,
                "plaintext"@,
            ],
        ),
{
    let mut list: Vec<String> = Vec::new();
    list.push("markdown".to_string());
    list.push("plaintext".to_string());
    assert(list.deep_view() =~= seq!["markdown"@, "plaintext"@]);
    Json::string_array(&list)
}

fn action_kinds() -> (r: Json)
    ensures
        r@ == json::strings_view(
            seq![
                "quickfix"@,
                "refactor"@,
                "refactor.extract"@,
                "refactor.inline"@,
                "refactor.rewrite"@,
                "source"@,
                "source.organizeImports"@,
            ],
        ),
{
    let mut list: Vec<String> = Vec::new();
    list.push("quickfix".to_string());
    list.push("refactor".to_string());
    list.push("refactor.extract".to_string());
    list.push("refactor.inline".to_string());
    list.push("refactor.rewrite".to_string());
    list.push("source".to_string());
    list.push("source.organizeImports".to_string());
    assert(list.deep_view() =~= seq![
        "quickfix"@,
        "refactor"@,
        "refactor.extract"@,
        "refactor.inline"@,
        "refactor.rewrite"@,
        "source"@,
        "source.organizeImports"@,
    ]);
    Json::string_array(&list)
}

fn token_types() -> (r: Json)
    ensures
        r@ == json::strings_view(
            seq![
                "namespace"@,
                "type"@,
                "class"@,
                "enum"@,
                "interface"@,
                "struct"@,
                "typeParameter"@,
                "parameter"@,
                "variable"@,
                "property"@,
                "enumMember"@,
                "event"@,
                "function"@,
                "method"@,
                "macro"@,
                "keyword"@,
                "modifier"@,
                "comment"@,
                "string"@,
                "number"@,
                "regexp"@,
                "operator"@,
                "decorator"@,
            ],
        ),
{
    let mut list: Vec<String> = Vec::new();
    list.push("namespace".to_string());
    list.push("type".to_string());
    list.push("class".to_string());
    list.push("enum".to_string());
    list.push("interface".to_string());
    list.push("struct".to_string());
    list.push("typeParameter".to_string());
    list.push("parameter".to_string());
    list.push("variable".to_string());
    list.push("property".to_string());
    list.push("enumMember".to_string());
    list.push("event".to_string());
    list.push("function".to_string());
    list.push("method".to_string());
    list.push("macro".to_string());
    list.push("keyword".to_string());
    list.push("modifier".to_string());
    list.push("comment".to_string());
    list.push("string".to_string());
    list.push("number".to_string());
    list.push("regexp".to_string());
    list.push("operator".to_string());
    list.push("decorator".to_string());
    assert(list.deep_view() =~= seq![
        "namespace"@,
        "type"@,
        "class"@,
        "enum"@,
        "interface"@,
        "struct"@,
        "typeParameter"@,
        "parameter"@,
        "variable"@,
        "property"@,
        "enumMember"@,
        "event"@,
        "function"@,
        "method"@,
        "macro"@,
        "keyword"@,
        "modifier"@,
        "comment"@,
        "string"@,
        "number"@,
        "regexp"@,
        "operator"@,
        "decorator"@,
    ]);
    Json::string_array(&list)
}

fn token_modifiers() -> (r: Json)
    ensures
        r@ == json::strings_view(
            seq![
                "declaration"@,
                "definition"@,
                "readonly"@,
                "static"@,
                "deprecated"@,
                "abstract"@,
                "async"@,
                "modification"@,
                "documentation"@,
                "defaultLibrary"@,
            ],
        ),
{
    let mut list: Vec<String> = Vec::new();
    list.push("declaration".to_string());
    list.push("definition".to_string());
    list.push("readonly".to_string());
    list.push("static".to_string());
    list.push("deprecated".to_string());
    list.push("abstract".to_string());
    list.push("async".to_string());
    list.push("modification".to_string());
    list.push("documentation".to_string());
    list.push("defaultLibrary".to_string());
    assert(list.deep_view() =~= seq![
        "declaration"@,
        "definition"@,
        "readonly"@,
        "static"@,
        "deprecated"@,
        "abstract"@,
        "async"@,
        "modification"@,
        "documentation"@,
        "defaultLibrary"@,
    ]);
    Json::string_array(&list)
}

fn token_formats() -> (r: Json)
    ensures
        r@ == json::strings_view(
            seq![
                "relative"@,
            ],
        ),
{
    let mut list: Vec<String> = Vec::new();
    list.push("relative".to_string());
    assert(list.deep_view() =~= seq!["relative"@]);
    Json::string_array(&list)
}

/// What the client can do about completion.
pub open spec fn completion_view() -> JsonView {
    JsonView::Object(
        map![
            "completionItem"@ => JsonView::Object(
                map![
                    "snippetSupport"@ => JsonView::Bool(true),
                    "documentationFormat"@ => json::strings_view(
                        seq![
                            "plaintext"@,
                            "markdown"@,
                        ],
                    ),
                    "resolveSupport"@ => JsonView::Object(
                        map![
                            "properties"@ => json::strings_view(
                                seq![
                                    "documentation"@,
                                    "detail"@,
                                ],
                            ),
                        ],
                    ),
                ],
            ),
        ],
    )
}

fn completion() -> (r: Json)
    ensures
        r@ == completion_view(),
{
    let mut f = Fields::new();
    let mut completion_item = Fields::new();
    completion_item.put_bool("snippetSupport", true);
    completion_item.put("documentationFormat", plaintext_first());
    let mut resolve_support = Fields::new();
    resolve_support.put("properties", resolve_properties());
    completion_item.put("resolveSupport", resolve_support.done());
    f.put("completionItem", completion_item.done());
    f.done()
}

/// What the client can do about signature help.
pub open spec fn signature_help_view() -> JsonView {
    JsonView::Object(
        map![
            "signatureInformation"@ => JsonView::Object(
                map![
                    "documentationFormat"@ => json::strings_view(
                        seq![
                            "markdown"@,
                            "plaintext"@,
                        ],
                    ),
                    "parameterInformation"@ => JsonView::Object(
                        map![
                            "labelOffsetSupport"@ => JsonView::Bool(true),
                        ],
                    ),
                ],
            ),
        ],
    )
}

fn signature_help() -> (r: Json)
    ensures
        r@ == signature_help_view(),
{
    let mut f = Fields::new();
    let mut signature_information = Fields::new();
    signature_information.put("documentationFormat", markdown_first());
    let mut parameter_information = Fields::new();
    parameter_information.put_bool("labelOffsetSupport", true);
    signature_information.put("parameterInformation", parameter_information.done());
    f.put("signatureInformation", signature_information.done());
    f.done()
}

/// What the client can do about code actions.
pub open spec fn code_action_view() -> JsonView {
    JsonView::Object(
        map![
            "codeActionLiteralSupport"@ => JsonView::Object(
                map![
                    "codeActionKind"@ => JsonView::Object(
                        map![
                            "valueSet"@ => json::strings_view(
                                seq![
                                    "quickfix"@,
                                    "refactor"@,
                                    "refactor.extract"@,
                                    "refactor.inline"@,
                                    "refactor.rewrite"@,
                                    "source"@,
                                    "source.organizeImports"@,
                                ],
                            ),
                        ],
                    ),
                ],
            ),
        ],
    )
}

fn code_action() -> (r: Json)
    ensures
        r@ == code_action_view(),
{
    let mut f = Fields::new();
    let mut code_action_literal_support = Fields::new();
    let mut code_action_kind = Fields::new();
    code_action_kind.put("valueSet", action_kinds());
    code_action_literal_support.put("codeActionKind", code_action_kind.done());
    f.put("codeActionLiteralSupport", code_action_literal_support.done());
    f.done()
}

/// What the client can do about semantic tokens.
pub open spec fn semantic_tokens_view() -> JsonView {
    JsonView::Object(
        map![
            "requests"@ => JsonView::Object(
                map![
                    "range"@ => JsonView::Bool(true),
                    "full"@ => JsonView::Object(
                        map![
                            "delta"@ => JsonView::Bool(true),
                        ],
                    ),
                ],
            ),
            "tokenTypes"@ => json::strings_view(
                seq![
                    "namespace"@,
                    "type"@,
                    "class"@,
                    "enum"@,
                    "interface"@,
                    "struct"@,
                    "typeParameter"@,
                    "parameter"@,
                    "variable"@,
                    "property"@,
                    "enumMember"@,
                    "event"@,
                    "function"@,
                    "method"@,
                    "macro"@,
                    "keyword"@,
                    "modifier"@,
                    "comment"@,
                    "string"@,
                    "number"@,
                    "regexp"@,
                    "operator"@,
                    "decorator"@,
                ],
            ),
            "tokenModifiers"@ => json::strings_view(
                seq![
                    "declaration"@,
                    "definition"@,
                    "readonly"@,
                    "static"@,
                    "deprecated"@,
                    "abstract"@,
                    "async"@,
                    "modification"@,
                    "documentation"@,
                    "defaultLibrary"@,
                ],
            ),
            "formats"@ => json::strings_view(
                seq![
                    "relative"@,
                ],
            ),
        ],
    )
}

fn semantic_tokens() -> (r: Json)
    ensures
        r@ == semantic_tokens_view(),
{
    let mut f = Fields::new();
    let mut requests = Fields::new();
    requests.put_bool("range", true);
    let mut full = Fields::new();
    full.put_bool("delta", true);
    requests.put("full", full.done());
    f.put("requests", requests.done());
    f.put("tokenTypes", token_types());
    f.put("tokenModifiers", token_modifiers());
    f.put("formats", token_formats());
    f.done()
}

/// What the client can do about documents.
pub open spec fn text_document_view() -> JsonView {
    JsonView::Object(
        map![
            "synchronization"@ => JsonView::Object(
                map![
                    "didSave"@ => JsonView::Bool(true),
                ],
            ),
            "completion"@ => completion_view(),
            "hover"@ => JsonView::Object(
                map![
                    "contentFormat"@ => json::strings_view(
                        seq![
                            "markdown"@,
                            "plaintext"@,
                        ],
                    ),
                ],
            ),
            "signatureHelp"@ => signature_help_view(),
            "references"@ => JsonView::Object(
                map![
                    "dynamicRegistration"@ => JsonView::Bool(false),
                ],
            ),
            "documentHighlight"@ => JsonView::Object(Map::empty()),
            "documentSymbol"@ => JsonView::Object(
                map![
                    "hierarchicalDocumentSymbolSupport"@ => JsonView::Bool(true),
                ],
            ),
            "formatting"@ => JsonView::Object(
                map![
                    "dynamicRegistration"@ => JsonView::Bool(false),
                ],
            ),
            "definition"@ => JsonView::Object(
                map![
                    "linkSupport"@ => JsonView::Bool(true),
                ],
            ),
            "typeDefinition"@ => JsonView::Object(
                map![
                    "linkSupport"@ => JsonView::Bool(true),
                ],
            ),
            "implementation"@ => JsonView::Object(
                map![
                    "linkSupport"@ => JsonView::Bool(true),
                ],
            ),
            "codeAction"@ => code_action_view(),
            "documentLink"@ => JsonView::Object(
                map![
                    "dynamicRegistration"@ => JsonView::Bool(false),
                    "tooltipSupport"@ => JsonView::Bool(true),
                ],
            ),
            "rename"@ => JsonView::Object(
                map![
                    "prepareSupport"@ => JsonView::Bool(true),
                ],
            ),
            "publishDiagnostics"@ => JsonView::Object(
                map![
                    "relatedInformation"@ => JsonView::Bool(true),
                ],
            ),
            "foldingRange"@ => JsonView::Object(Map::empty()),
            "selectionRange"@ => JsonView::Object(Map::empty()),
            "linkedEditingRange"@ => JsonView::Object(Map::empty()),
            "callHierarchy"@ => JsonView::Object(Map::empty()),
            "semanticTokens"@ => semantic_tokens_view(),
            "typeHierarchy"@ => JsonView::Object(Map::empty()),
            "inlayHint"@ => JsonView::Object(Map::empty()),
        ],
    )
}

fn text_document() -> (r: Json)
    ensures
        r@ == text_document_view(),
{
    let mut f = Fields::new();
    let mut synchronization = Fields::new();
    synchronization.put_bool("didSave", true);
    f.put("synchronization", synchronization.done());
    f.put("completion", completion());
    let mut hover = Fields::new();
    hover.put("contentFormat", markdown_first());
    f.put("hover", hover.done());
    f.put("signatureHelp", signature_help());
    let mut references = Fields::new();
    references.put_bool("dynamicRegistration", false);
    f.put("references", references.done());
    f.put("documentHighlight", Fields::new().done());
    let mut document_symbol = Fields::new();
    document_symbol.put_bool("hierarchicalDocumentSymbolSupport", true);
    f.put("documentSymbol", document_symbol.done());
    let mut formatting = Fields::new();
    formatting.put_bool("dynamicRegistration", false);
    f.put("formatting", formatting.done());
    let mut definition = Fields::new();
    definition.put_bool("linkSupport", true);
    f.put("definition", definition.done());
    let mut type_definition = Fields::new();
    type_definition.put_bool("linkSupport", true);
    f.put("typeDefinition", type_definition.done());
    let mut implementation = Fields::new();
    implementation.put_bool("linkSupport", true);
    f.put("implementation", implementation.done());
    f.put("codeAction", code_action());
    let mut document_link = Fields::new();
    document_link.put_bool("dynamicRegistration", false);
    document_link.put_bool("tooltipSupport", true);
    f.put("documentLink", document_link.done());
    let mut rename = Fields::new();
    rename.put_bool("prepareSupport", true);
    f.put("rename", rename.done());
    let mut publish_diagnostics = Fields::new();
    publish_diagnostics.put_bool("relatedInformation", true);
    f.put("publishDiagnostics", publish_diagnostics.done());
    f.put("foldingRange", Fields::new().done());
    f.put("selectionRange", Fields::new().done());
    f.put("linkedEditingRange", Fields::new().done());
    f.put("callHierarchy", Fields::new().done());
    f.put("semanticTokens", semantic_tokens());
    f.put("typeHierarchy", Fields::new().done());
    f.put("inlayHint", Fields::new().done());
    f.done()
}

/// What the client can do about the workspace.
pub open spec fn workspace_view() -> JsonView {
    JsonView::Object(
        map![
            "applyEdit"@ => JsonView::Bool(true),
            "workspaceEdit"@ => JsonView::Object(
                map![
                    "documentChanges"@ => JsonView::Bool(true),
                ],
            ),
            "workspaceFolders"@ => JsonView::Bool(true),
            "configuration"@ => JsonView::Bool(true),
            "didChangeConfiguration"@ => JsonView::Object(
                map![
                    "dynamicRegistration"@ => JsonView::Bool(true),
                ],
            ),
            "didChangeWatchedFiles"@ => JsonView::Object(
                map![
                    "dynamicRegistration"@ => JsonView::Bool(true),
                    "relativePatternSupport"@ => JsonView::Bool(true),
                ],
            ),
            "symbol"@ => JsonView::Object(Map::empty()),
        ],
    )
}

fn workspace() -> (r: Json)
    ensures
        r@ == workspace_view(),
{
    let mut f = Fields::new();
    f.put_bool("applyEdit", true);
    let mut workspace_edit = Fields::new();
    workspace_edit.put_bool("documentChanges", true);
    f.put("workspaceEdit", workspace_edit.done());
    f.put_bool("workspaceFolders", true);
    f.put_bool("configuration", true);
    let mut did_change_configuration = Fields::new();
    did_change_configuration.put_bool("dynamicRegistration", true);
    f.put("didChangeConfiguration", did_change_configuration.done());
    let mut did_change_watched_files = Fields::new();
    did_change_watched_files.put_bool("dynamicRegistration", true);
    did_change_watched_files.put_bool("relativePatternSupport", true);
    f.put("didChangeWatchedFiles", did_change_watched_files.done());
    f.put("symbol", Fields::new().done());
    f.done()
}

/// The capabilities that the client advertises.
pub open spec fn client_capabilities_view() -> JsonView {
    JsonView::Object(
        map![
            "textDocument"@ => text_document_view(),
            "window"@ => JsonView::Object(
                map![
                    "workDoneProgress"@ => JsonView::Bool(true),
                ],
            ),
            "workspace"@ => workspace_view(),
        ],
    )
}

/// Builds the client capabilities to advertise to a server.
pub fn client_capabilities() -> (r: Json)
    ensures
        r@ == client_capabilities_view(),
{
    let mut f = Fields::new();
    f.put("textDocument", text_document());
    let mut window = Fields::new();
    window.put_bool("workDoneProgress", true);
    f.put("window", window.done());
    f.put("workspace", workspace());
    f.done()
}

} // verus!
