//! The requests of the editor.

use vstd::prelude::*;

use crate::json::Json;

verus! {

/// A request of the editor.
#[allow(inconsistent_fields)]
pub enum Request {
    Initialize { id: u64, root: String, config_path: Option<String> },
    Shutdown { id: u64 },
    JuliaActivateEnvironment { id: u64, language_id: String, env_path: String },
    JuliaRefreshLanguageServer { id: u64, language_id: String },
    ReloadConfiguration { id: u64, config_path: Option<String> },
    DidOpen { id: u64, uri: String, language_id: String, version: i32, text: String },
    DidChange {
        id: u64,
        uri: String,
        version: i32,
        text: Option<String>,
        changes: Option<Vec<Json>>,
    },
    DidSave { id: u64, uri: String, text: Option<String> },
    DidClose { id: u64, uri: String },
    Completion {
        id: u64,
        uri: String,
        language_id: String,
        line: u32,
        character: u32,
        max_items: usize,
        trigger_kind: u32,
        trigger_character: String,
    },
    Hover { id: u64, uri: String, language_id: String, line: u32, character: u32 },
    Definition {
        id: u64,
        uri: String,
        language_id: String,
        line: u32,
        character: u32,
        symbol: String,
    },
    References { id: u64, uri: String, language_id: String, line: u32, character: u32 },
    CodeAction {
        id: u64,
        uri: String,
        language_id: String,
        line: u32,
        character: u32,
        end_line: Option<u32>,
        end_character: Option<u32>,
        diagnostics: Json,
    },
    ExecuteAction { id: u64, language_id: String, index: usize },
    Formatting {
        id: u64,
        uri: String,
        language_id: String,
        tab_size: u32,
        insert_spaces: bool,
    },
    Rename {
        id: u64,
        uri: String,
        language_id: String,
        line: u32,
        character: u32,
        new_name: String,
    },
    SignatureHelp { id: u64, uri: String, language_id: String, line: u32, character: u32 },
    Implementation { id: u64, uri: String, language_id: String, line: u32, character: u32 },
    TypeDefinition { id: u64, uri: String, language_id: String, line: u32, character: u32 },
    DocumentSymbol { id: u64, uri: String, language_id: String },
    WorkspaceSymbol { id: u64, language_id: String, query: String },
    DocumentHighlight { id: u64, uri: String, language_id: String, line: u32, character: u32 },
    InlayHint { id: u64, uri: String, language_id: String, start_line: u32, end_line: u32 },
    PrepareCallHierarchy { id: u64, uri: String, language_id: String, line: u32, character: u32 },
    IncomingCalls { id: u64, language_id: String, item: Json },
    OutgoingCalls { id: u64, language_id: String, item: Json },
    SelectionRange { id: u64, uri: String, language_id: String, positions: Vec<Json> },
    SemanticTokensFull { id: u64, uri: String, language_id: String },
    SemanticTokensDelta { id: u64, uri: String, language_id: String },
    SemanticTokensRange {
        id: u64,
        uri: String,
        language_id: String,
        start_line: u32,
        start_character: u32,
        end_line: u32,
        end_character: u32,
    },
    CodeLens { id: u64, uri: String, language_id: String },
    FoldingRange { id: u64, uri: String, language_id: String },
    LinkedEditingRange { id: u64, uri: String, language_id: String, line: u32, character: u32 },
    CompletionResolve { id: u64, language_id: String, generation: u64, index: usize },
    ExecuteCodeLens { id: u64, language_id: String, index: usize },
    PrepareTypeHierarchy { id: u64, uri: String, language_id: String, line: u32, character: u32 },
    Supertypes { id: u64, language_id: String, item: Json },
    Subtypes { id: u64, language_id: String, item: Json },
    PullDiagnostics { id: u64, uri: String, language_id: String },
    InstallServer { id: u64, server: String },
    ListInstallable { id: u64 },
}

// ---------------------------------------------------------------------------
// What a request leaves out
// ---------------------------------------------------------------------------

/// The width of a tab, where a formatting request does not give one.
pub fn default_tab_size() -> (r: u32)
    ensures
        r == 4,
{
    4
}

/// Whether a formatting request indents with spaces, where it does not say.
pub fn default_true() -> (r: bool)
    ensures
        r,
{
    true
}

/// The most items of a completion, where a request does not say.
pub fn default_completion_max_items() -> (r: usize)
    ensures
        r == 100,
{
    100
}

/// Why a completion is asked for, where a request does not say: by hand.
pub fn default_completion_trigger_kind() -> (r: u32)
    ensures
        r == 1,
{
    1
}

// ---------------------------------------------------------------------------
// The order of requests
// ---------------------------------------------------------------------------

/// Whether a request ends one workspace, or begins another.
pub open spec fn is_barrier(req: Request) -> bool {
    req is Initialize || req is Shutdown
}

/// Whether a request changes what later requests rest on: the workspace, its
/// documents, or its configuration.
pub open spec fn is_ordered(req: Request) -> bool {
    ||| is_barrier(req)
    ||| req is DidOpen
    ||| req is DidChange
    ||| req is DidSave
    ||| req is DidClose
    ||| req is JuliaActivateEnvironment
    ||| req is JuliaRefreshLanguageServer
    ||| req is ReloadConfiguration
}

/// Whether a request is handled by the workspace's servers one at a time, on
/// behalf of one filetype.
pub open spec fn is_feature(req: Request) -> bool {
    !is_ordered(req) && !(req is InstallServer) && !(req is ListInstallable)
}

impl Request {
    /// Whether the request must be finished before the next one is looked at.
    /// A document notification that a completion overtakes would have the
    /// server complete an older text.
    pub fn preserves_document_order(&self) -> (r: bool)
        ensures
            r == is_ordered(*self),
    {
        match self {
            Request::Initialize { .. } => true,
            Request::Shutdown { .. } => true,
            Request::DidOpen { .. } => true,
            Request::DidChange { .. } => true,
            Request::DidSave { .. } => true,
            Request::DidClose { .. } => true,
            Request::JuliaActivateEnvironment { .. } => true,
            Request::JuliaRefreshLanguageServer { .. } => true,
            Request::ReloadConfiguration { .. } => true,
            _ => false,
        }
    }

    /// Whether the requests under way must be given up before this one.
    pub fn is_lifecycle_barrier(&self) -> (r: bool)
        ensures
            r == is_barrier(*self),
    {
        match self {
            Request::Initialize { .. } => true,
            Request::Shutdown { .. } => true,
            _ => false,
        }
    }

    /// The number that the editor gave the request.
    pub open spec fn spec_id(&self) -> u64 {
        match *self {
            Request::Initialize { id, .. } => id,
            Request::Shutdown { id } => id,
            Request::JuliaActivateEnvironment { id, .. } => id,
            Request::JuliaRefreshLanguageServer { id, .. } => id,
            Request::ReloadConfiguration { id, .. } => id,
            Request::DidOpen { id, .. } => id,
            Request::DidChange { id, .. } => id,
            Request::DidSave { id, .. } => id,
            Request::DidClose { id, .. } => id,
            Request::Completion { id, .. } => id,
            Request::Hover { id, .. } => id,
            Request::Definition { id, .. } => id,
            Request::References { id, .. } => id,
            Request::CodeAction { id, .. } => id,
            Request::ExecuteAction { id, .. } => id,
            Request::Formatting { id, .. } => id,
            Request::Rename { id, .. } => id,
            Request::SignatureHelp { id, .. } => id,
            Request::Implementation { id, .. } => id,
            Request::TypeDefinition { id, .. } => id,
            Request::DocumentSymbol { id, .. } => id,
            Request::WorkspaceSymbol { id, .. } => id,
            Request::DocumentHighlight { id, .. } => id,
            Request::InlayHint { id, .. } => id,
            Request::PrepareCallHierarchy { id, .. } => id,
            Request::IncomingCalls { id, .. } => id,
            Request::OutgoingCalls { id, .. } => id,
            Request::SelectionRange { id, .. } => id,
            Request::SemanticTokensFull { id, .. } => id,
            Request::SemanticTokensDelta { id, .. } => id,
            Request::SemanticTokensRange { id, .. } => id,
            Request::CodeLens { id, .. } => id,
            Request::FoldingRange { id, .. } => id,
            Request::LinkedEditingRange { id, .. } => id,
            Request::CompletionResolve { id, .. } => id,
            Request::ExecuteCodeLens { id, .. } => id,
            Request::PrepareTypeHierarchy { id, .. } => id,
            Request::Supertypes { id, .. } => id,
            Request::Subtypes { id, .. } => id,
            Request::PullDiagnostics { id, .. } => id,
            Request::InstallServer { id, .. } => id,
            Request::ListInstallable { id } => id,
        }
    }

    /// The number that the editor gave the request.
    pub fn id(&self) -> (r: u64)
        ensures
            r == self.spec_id(),
    {
        match self {
            Request::Initialize { id, .. } => *id,
            Request::Shutdown { id } => *id,
            Request::JuliaActivateEnvironment { id, .. } => *id,
            Request::JuliaRefreshLanguageServer { id, .. } => *id,
            Request::ReloadConfiguration { id, .. } => *id,
            Request::DidOpen { id, .. } => *id,
            Request::DidChange { id, .. } => *id,
            Request::DidSave { id, .. } => *id,
            Request::DidClose { id, .. } => *id,
            Request::Completion { id, .. } => *id,
            Request::Hover { id, .. } => *id,
            Request::Definition { id, .. } => *id,
            Request::References { id, .. } => *id,
            Request::CodeAction { id, .. } => *id,
            Request::ExecuteAction { id, .. } => *id,
            Request::Formatting { id, .. } => *id,
            Request::Rename { id, .. } => *id,
            Request::SignatureHelp { id, .. } => *id,
            Request::Implementation { id, .. } => *id,
            Request::TypeDefinition { id, .. } => *id,
            Request::DocumentSymbol { id, .. } => *id,
            Request::WorkspaceSymbol { id, .. } => *id,
            Request::DocumentHighlight { id, .. } => *id,
            Request::InlayHint { id, .. } => *id,
            Request::PrepareCallHierarchy { id, .. } => *id,
            Request::IncomingCalls { id, .. } => *id,
            Request::OutgoingCalls { id, .. } => *id,
            Request::SelectionRange { id, .. } => *id,
            Request::SemanticTokensFull { id, .. } => *id,
            Request::SemanticTokensDelta { id, .. } => *id,
            Request::SemanticTokensRange { id, .. } => *id,
            Request::CodeLens { id, .. } => *id,
            Request::FoldingRange { id, .. } => *id,
            Request::LinkedEditingRange { id, .. } => *id,
            Request::CompletionResolve { id, .. } => *id,
            Request::ExecuteCodeLens { id, .. } => *id,
            Request::PrepareTypeHierarchy { id, .. } => *id,
            Request::Supertypes { id, .. } => *id,
            Request::Subtypes { id, .. } => *id,
            Request::PullDiagnostics { id, .. } => *id,
            Request::InstallServer { id, .. } => *id,
            Request::ListInstallable { id } => *id,
        }
    }

    /// The filetype on whose behalf a request is made, if there is one.
    pub open spec fn spec_language(&self) -> Seq<char> {
        match *self {
            Request::JuliaActivateEnvironment { language_id, .. } => language_id@,
            Request::JuliaRefreshLanguageServer { language_id, .. } => language_id@,
            Request::DidOpen { language_id, .. } => language_id@,
            Request::Completion { language_id, .. } => language_id@,
            Request::Hover { language_id, .. } => language_id@,
            Request::Definition { language_id, .. } => language_id@,
            Request::References { language_id, .. } => language_id@,
            Request::CodeAction { language_id, .. } => language_id@,
            Request::ExecuteAction { language_id, .. } => language_id@,
            Request::Formatting { language_id, .. } => language_id@,
            Request::Rename { language_id, .. } => language_id@,
            Request::SignatureHelp { language_id, .. } => language_id@,
            Request::Implementation { language_id, .. } => language_id@,
            Request::TypeDefinition { language_id, .. } => language_id@,
            Request::DocumentSymbol { language_id, .. } => language_id@,
            Request::WorkspaceSymbol { language_id, .. } => language_id@,
            Request::DocumentHighlight { language_id, .. } => language_id@,
            Request::InlayHint { language_id, .. } => language_id@,
            Request::PrepareCallHierarchy { language_id, .. } => language_id@,
            Request::IncomingCalls { language_id, .. } => language_id@,
            Request::OutgoingCalls { language_id, .. } => language_id@,
            Request::SelectionRange { language_id, .. } => language_id@,
            Request::SemanticTokensFull { language_id, .. } => language_id@,
            Request::SemanticTokensDelta { language_id, .. } => language_id@,
            Request::SemanticTokensRange { language_id, .. } => language_id@,
            Request::CodeLens { language_id, .. } => language_id@,
            Request::FoldingRange { language_id, .. } => language_id@,
            Request::LinkedEditingRange { language_id, .. } => language_id@,
            Request::CompletionResolve { language_id, .. } => language_id@,
            Request::ExecuteCodeLens { language_id, .. } => language_id@,
            Request::PrepareTypeHierarchy { language_id, .. } => language_id@,
            Request::Supertypes { language_id, .. } => language_id@,
            Request::Subtypes { language_id, .. } => language_id@,
            Request::PullDiagnostics { language_id, .. } => language_id@,
            _ => Seq::empty(),
        }
    }

    /// The filetype on whose behalf a request is made, or nothing.
    pub fn language(&self) -> (r: &str)
        ensures
            r@ == self.spec_language(),
    {
        match self {
            Request::JuliaActivateEnvironment { language_id, .. } => language_id.as_str(),
            Request::JuliaRefreshLanguageServer { language_id, .. } => language_id.as_str(),
            Request::DidOpen { language_id, .. } => language_id.as_str(),
            Request::Completion { language_id, .. } => language_id.as_str(),
            Request::Hover { language_id, .. } => language_id.as_str(),
            Request::Definition { language_id, .. } => language_id.as_str(),
            Request::References { language_id, .. } => language_id.as_str(),
            Request::CodeAction { language_id, .. } => language_id.as_str(),
            Request::ExecuteAction { language_id, .. } => language_id.as_str(),
            Request::Formatting { language_id, .. } => language_id.as_str(),
            Request::Rename { language_id, .. } => language_id.as_str(),
            Request::SignatureHelp { language_id, .. } => language_id.as_str(),
            Request::Implementation { language_id, .. } => language_id.as_str(),
            Request::TypeDefinition { language_id, .. } => language_id.as_str(),
            Request::DocumentSymbol { language_id, .. } => language_id.as_str(),
            Request::WorkspaceSymbol { language_id, .. } => language_id.as_str(),
            Request::DocumentHighlight { language_id, .. } => language_id.as_str(),
            Request::InlayHint { language_id, .. } => language_id.as_str(),
            Request::PrepareCallHierarchy { language_id, .. } => language_id.as_str(),
            Request::IncomingCalls { language_id, .. } => language_id.as_str(),
            Request::OutgoingCalls { language_id, .. } => language_id.as_str(),
            Request::SelectionRange { language_id, .. } => language_id.as_str(),
            Request::SemanticTokensFull { language_id, .. } => language_id.as_str(),
            Request::SemanticTokensDelta { language_id, .. } => language_id.as_str(),
            Request::SemanticTokensRange { language_id, .. } => language_id.as_str(),
            Request::CodeLens { language_id, .. } => language_id.as_str(),
            Request::FoldingRange { language_id, .. } => language_id.as_str(),
            Request::LinkedEditingRange { language_id, .. } => language_id.as_str(),
            Request::CompletionResolve { language_id, .. } => language_id.as_str(),
            Request::ExecuteCodeLens { language_id, .. } => language_id.as_str(),
            Request::PrepareTypeHierarchy { language_id, .. } => language_id.as_str(),
            Request::Supertypes { language_id, .. } => language_id.as_str(),
            Request::Subtypes { language_id, .. } => language_id.as_str(),
            Request::PullDiagnostics { language_id, .. } => language_id.as_str(),
            _ => {
                proof {
                    reveal_strlit("");
                    assert(""@ =~= Seq::<char>::empty());
                }
                ""
            },
        }
    }
}

// ---------------------------------------------------------------------------
// Laws
// ---------------------------------------------------------------------------

/// A request that ends a workspace is never overtaken, and never counts as a
/// feature of one.
pub proof fn law_barriers_keep_order(req: Request)
    ensures
        is_barrier(req) ==> is_ordered(req),
        is_ordered(req) ==> !is_feature(req),
{
}

} // verus!
