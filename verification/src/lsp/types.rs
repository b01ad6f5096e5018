//! The compact values that the editor receives, and how they are read out of
//! a server's messages.

use vstd::prelude::*;

use crate::json;
use crate::json::{Fields, Json, JsonView};
use crate::lsp::wire;
use crate::lsp::wire::{list_json, read_items_at, FromLsp, Wire};
use crate::seqs;
use crate::text;
use crate::uri;
use crate::uri::decode_uri;

verus! {

/// Simple range.
#[derive(Clone, Copy)]
pub struct RangeItem {
    pub line: u32,
    pub character: u32,
    pub end_line: u32,
    pub end_character: u32,
}

impl DeepView for RangeItem {
    type V = RangeItem;

    open spec fn deep_view(&self) -> RangeItem {
        *self
    }
}

impl Wire for RangeItem {
    open spec fn wire(v: RangeItem) -> JsonView {
        let m = Map::<Seq<char>, JsonView>::empty();
        let m = m.insert("line"@, JsonView::Int(v.line as int));
        let m = m.insert("character"@, JsonView::Int(v.character as int));
        let m = m.insert("end_line"@, JsonView::Int(v.end_line as int));
        let m = m.insert("end_character"@, JsonView::Int(v.end_character as int));
        JsonView::Object(m)
    }

    fn to_json(&self) -> (r: Json) {
        let mut f = Fields::new();
        f.put_u64("line", self.line as u64);
        f.put_u64("character", self.character as u64);
        f.put_u64("end_line", self.end_line as u64);
        f.put_u64("end_character", self.end_character as u64);
        f.done()
    }
}

/// Text edit.
pub struct TextEdit {
    pub line: u32,
    pub character: u32,
    pub end_line: u32,
    pub end_character: u32,
    pub new_text: String,
}

/// The model of [`TextEdit`].
#[verifier::ext_equal]
pub struct TextEditView {
    pub line: u32,
    pub character: u32,
    pub end_line: u32,
    pub end_character: u32,
    pub new_text: Seq<char>,
}

impl DeepView for TextEdit {
    type V = TextEditView;

    open spec fn deep_view(&self) -> TextEditView {
        TextEditView {
            line: self.line,
            character: self.character,
            end_line: self.end_line,
            end_character: self.end_character,
            new_text: self.new_text@,
        }
    }
}

impl Wire for TextEdit {
    open spec fn wire(v: TextEditView) -> JsonView {
        let m = Map::<Seq<char>, JsonView>::empty();
        let m = m.insert("line"@, JsonView::Int(v.line as int));
        let m = m.insert("character"@, JsonView::Int(v.character as int));
        let m = m.insert("end_line"@, JsonView::Int(v.end_line as int));
        let m = m.insert("end_character"@, JsonView::Int(v.end_character as int));
        let m = m.insert("new_text"@, JsonView::Str(v.new_text));
        JsonView::Object(m)
    }

    fn to_json(&self) -> (r: Json) {
        let mut f = Fields::new();
        f.put_u64("line", self.line as u64);
        f.put_u64("character", self.character as u64);
        f.put_u64("end_line", self.end_line as u64);
        f.put_u64("end_character", self.end_character as u64);
        f.put_str("new_text", self.new_text.as_str());
        f.done()
    }
}

/// Simplified completion item sent to the editor.
pub struct CompletionItem {
    pub label: String,
    pub kind: Option<String>,
    pub detail: Option<String>,
    pub documentation: Option<String>,
    pub insert_text: Option<String>,
    /// Server-provided replacement range. The popup menu still uses `insert_text`,
    /// while this keeps what is needed for precise application.
    pub text_edit: Option<TextEdit>,
    /// Extra edits that come with accepting the completion, most commonly an
    /// import.
    pub additional_text_edits: Vec<TextEdit>,
    pub commit_characters: Vec<String>,
    pub preselect: Option<bool>,
    pub sort_text: Option<String>,
    pub filter_text: Option<String>,
    /// Index for completionItem/resolve.
    pub index: usize,
    /// Whether this item uses snippet syntax.
    pub is_snippet: Option<bool>,
}

/// The model of [`CompletionItem`].
#[verifier::ext_equal]
pub struct CompletionItemView {
    pub label: Seq<char>,
    pub kind: Option<Seq<char>>,
    pub detail: Option<Seq<char>>,
    pub documentation: Option<Seq<char>>,
    pub insert_text: Option<Seq<char>>,
    pub text_edit: Option<TextEditView>,
    pub additional_text_edits: Seq<TextEditView>,
    pub commit_characters: Seq<Seq<char>>,
    pub preselect: Option<bool>,
    pub sort_text: Option<Seq<char>>,
    pub filter_text: Option<Seq<char>>,
    pub index: usize,
    pub is_snippet: Option<bool>,
}

impl DeepView for CompletionItem {
    type V = CompletionItemView;

    open spec fn deep_view(&self) -> CompletionItemView {
        CompletionItemView {
            label: self.label@,
            kind: self.kind.deep_view(),
            detail: self.detail.deep_view(),
            documentation: self.documentation.deep_view(),
            insert_text: self.insert_text.deep_view(),
            text_edit: self.text_edit.deep_view(),
            additional_text_edits: self.additional_text_edits.deep_view(),
            commit_characters: self.commit_characters.deep_view(),
            preselect: self.preselect,
            sort_text: self.sort_text.deep_view(),
            filter_text: self.filter_text.deep_view(),
            index: self.index,
            is_snippet: self.is_snippet,
        }
    }
}

impl Wire for CompletionItem {
    open spec fn wire(v: CompletionItemView) -> JsonView {
        let m = Map::<Seq<char>, JsonView>::empty();
        let m = m.insert("label"@, JsonView::Str(v.label));
        let m = wire::with_opt_str(m, "kind"@, v.kind);
        let m = wire::with_opt_str(m, "detail"@, v.detail);
        let m = wire::with_opt_str(m, "documentation"@, v.documentation);
        let m = wire::with_opt_str(m, "insert_text"@, v.insert_text);
        let m = match v.text_edit {
            Some(x) => m.insert("text_edit"@, TextEdit::wire(x)),
            None => m,
        };
        let m = if v.additional_text_edits.len() == 0 {
            m
        } else {
            m.insert("additional_text_edits"@, wire::wire_list::<TextEdit>(v.additional_text_edits))
        };
        let m = if v.commit_characters.len() == 0 {
            m
        } else {
            m.insert("commit_characters"@, json::strings_view(v.commit_characters))
        };
        let m = wire::with_opt_bool(m, "preselect"@, v.preselect);
        let m = wire::with_opt_str(m, "sort_text"@, v.sort_text);
        let m = wire::with_opt_str(m, "filter_text"@, v.filter_text);
        let m = m.insert("index"@, JsonView::Int(v.index as int));
        let m = wire::with_opt_bool(m, "is_snippet"@, v.is_snippet);
        JsonView::Object(m)
    }

    fn to_json(&self) -> (r: Json) {
        let mut f = Fields::new();
        f.put_str("label", self.label.as_str());
        f.put_opt_str("kind", &self.kind);
        f.put_opt_str("detail", &self.detail);
        f.put_opt_str("documentation", &self.documentation);
        f.put_opt_str("insert_text", &self.insert_text);
        if let Some(x) = &self.text_edit {
            f.put("text_edit", x.to_json());
        }
        if self.additional_text_edits.len() > 0 {
            f.put("additional_text_edits", list_json(&self.additional_text_edits));
        }
        if self.commit_characters.len() > 0 {
            f.put("commit_characters", Json::string_array(&self.commit_characters));
        }
        f.put_opt_bool("preselect", self.preselect);
        f.put_opt_str("sort_text", &self.sort_text);
        f.put_opt_str("filter_text", &self.filter_text);
        f.put_u64("index", self.index as u64);
        f.put_opt_bool("is_snippet", self.is_snippet);
        f.done()
    }
}

/// Location for definition / references.
pub struct Location {
    pub uri: String,
    pub line: u32,
    pub character: u32,
    pub end_line: Option<u32>,
    pub end_character: Option<u32>,
}

/// The model of [`Location`].
#[verifier::ext_equal]
pub struct LocationView {
    pub uri: Seq<char>,
    pub line: u32,
    pub character: u32,
    pub end_line: Option<u32>,
    pub end_character: Option<u32>,
}

impl DeepView for Location {
    type V = LocationView;

    open spec fn deep_view(&self) -> LocationView {
        LocationView {
            uri: self.uri@,
            line: self.line,
            character: self.character,
            end_line: self.end_line,
            end_character: self.end_character,
        }
    }
}

impl Wire for Location {
    open spec fn wire(v: LocationView) -> JsonView {
        let m = Map::<Seq<char>, JsonView>::empty();
        let m = m.insert("uri"@, JsonView::Str(v.uri));
        let m = m.insert("line"@, JsonView::Int(v.line as int));
        let m = m.insert("character"@, JsonView::Int(v.character as int));
        let m = wire::with_opt_u32(m, "end_line"@, v.end_line);
        let m = wire::with_opt_u32(m, "end_character"@, v.end_character);
        JsonView::Object(m)
    }

    fn to_json(&self) -> (r: Json) {
        let mut f = Fields::new();
        f.put_str("uri", self.uri.as_str());
        f.put_u64("line", self.line as u64);
        f.put_u64("character", self.character as u64);
        f.put_opt_u32("end_line", self.end_line);
        f.put_opt_u32("end_character", self.end_character);
        f.done()
    }
}

/// Diagnostic item.
pub struct DiagnosticItem {
    pub line: u32,
    pub character: u32,
    pub end_line: u32,
    pub end_character: u32,
    /// 1 = error, 2 = warning, 3 = information, 4 = hint.
    pub severity: u8,
    pub message: String,
    pub source: Option<String>,
    pub code: Option<String>,
}

/// The model of [`DiagnosticItem`].
#[verifier::ext_equal]
pub struct DiagnosticItemView {
    pub line: u32,
    pub character: u32,
    pub end_line: u32,
    pub end_character: u32,
    pub severity: u8,
    pub message: Seq<char>,
    pub source: Option<Seq<char>>,
    pub code: Option<Seq<char>>,
}

impl DeepView for DiagnosticItem {
    type V = DiagnosticItemView;

    open spec fn deep_view(&self) -> DiagnosticItemView {
        DiagnosticItemView {
            line: self.line,
            character: self.character,
            end_line: self.end_line,
            end_character: self.end_character,
            severity: self.severity,
            message: self.message@,
            source: self.source.deep_view(),
            code: self.code.deep_view(),
        }
    }
}

impl Wire for DiagnosticItem {
    open spec fn wire(v: DiagnosticItemView) -> JsonView {
        let m = Map::<Seq<char>, JsonView>::empty();
        let m = m.insert("line"@, JsonView::Int(v.line as int));
        let m = m.insert("character"@, JsonView::Int(v.character as int));
        let m = m.insert("end_line"@, JsonView::Int(v.end_line as int));
        let m = m.insert("end_character"@, JsonView::Int(v.end_character as int));
        let m = m.insert("severity"@, JsonView::Int(v.severity as int));
        let m = m.insert("message"@, JsonView::Str(v.message));
        let m = wire::with_opt_str(m, "source"@, v.source);
        let m = wire::with_opt_str(m, "code"@, v.code);
        JsonView::Object(m)
    }

    fn to_json(&self) -> (r: Json) {
        let mut f = Fields::new();
        f.put_u64("line", self.line as u64);
        f.put_u64("character", self.character as u64);
        f.put_u64("end_line", self.end_line as u64);
        f.put_u64("end_character", self.end_character as u64);
        f.put_u64("severity", self.severity as u64);
        f.put_str("message", self.message.as_str());
        f.put_opt_str("source", &self.source);
        f.put_opt_str("code", &self.code);
        f.done()
    }
}

/// Code action.
pub struct CodeAction {
    pub title: String,
    pub kind: Option<String>,
    /// Index into the client's cached actions.
    pub index: usize,
}

/// The model of [`CodeAction`].
#[verifier::ext_equal]
pub struct CodeActionView {
    pub title: Seq<char>,
    pub kind: Option<Seq<char>>,
    pub index: usize,
}

impl DeepView for CodeAction {
    type V = CodeActionView;

    open spec fn deep_view(&self) -> CodeActionView {
        CodeActionView {
            title: self.title@,
            kind: self.kind.deep_view(),
            index: self.index,
        }
    }
}

impl Wire for CodeAction {
    open spec fn wire(v: CodeActionView) -> JsonView {
        let m = Map::<Seq<char>, JsonView>::empty();
        let m = m.insert("title"@, JsonView::Str(v.title));
        let m = m.insert("kind"@, json::opt_str_view(v.kind));
        let m = m.insert("index"@, JsonView::Int(v.index as int));
        JsonView::Object(m)
    }

    fn to_json(&self) -> (r: Json) {
        let mut f = Fields::new();
        f.put_str("title", self.title.as_str());
        f.put("kind", Json::of_option(&self.kind));
        f.put_u64("index", self.index as u64);
        f.done()
    }
}

/// One parameter of a signature.
pub struct ParameterInfo {
    pub label: String,
    pub documentation: Option<String>,
}

/// The model of [`ParameterInfo`].
#[verifier::ext_equal]
pub struct ParameterInfoView {
    pub label: Seq<char>,
    pub documentation: Option<Seq<char>>,
}

impl DeepView for ParameterInfo {
    type V = ParameterInfoView;

    open spec fn deep_view(&self) -> ParameterInfoView {
        ParameterInfoView {
            label: self.label@,
            documentation: self.documentation.deep_view(),
        }
    }
}

impl Wire for ParameterInfo {
    open spec fn wire(v: ParameterInfoView) -> JsonView {
        let m = Map::<Seq<char>, JsonView>::empty();
        let m = m.insert("label"@, JsonView::Str(v.label));
        let m = wire::with_opt_str(m, "documentation"@, v.documentation);
        JsonView::Object(m)
    }

    fn to_json(&self) -> (r: Json) {
        let mut f = Fields::new();
        f.put_str("label", self.label.as_str());
        f.put_opt_str("documentation", &self.documentation);
        f.done()
    }
}

/// Signature help.
pub struct SignatureInfo {
    pub label: String,
    pub documentation: Option<String>,
    pub active_parameter: Option<u32>,
    pub parameters: Vec<ParameterInfo>,
}

/// The model of [`SignatureInfo`].
#[verifier::ext_equal]
pub struct SignatureInfoView {
    pub label: Seq<char>,
    pub documentation: Option<Seq<char>>,
    pub active_parameter: Option<u32>,
    pub parameters: Seq<ParameterInfoView>,
}

impl DeepView for SignatureInfo {
    type V = SignatureInfoView;

    open spec fn deep_view(&self) -> SignatureInfoView {
        SignatureInfoView {
            label: self.label@,
            documentation: self.documentation.deep_view(),
            active_parameter: self.active_parameter,
            parameters: self.parameters.deep_view(),
        }
    }
}

impl Wire for SignatureInfo {
    open spec fn wire(v: SignatureInfoView) -> JsonView {
        let m = Map::<Seq<char>, JsonView>::empty();
        let m = m.insert("label"@, JsonView::Str(v.label));
        let m = wire::with_opt_str(m, "documentation"@, v.documentation);
        let m = wire::with_opt_u32(m, "active_parameter"@, v.active_parameter);
        let m = m.insert("parameters"@, wire::wire_list::<ParameterInfo>(v.parameters));
        JsonView::Object(m)
    }

    fn to_json(&self) -> (r: Json) {
        let mut f = Fields::new();
        f.put_str("label", self.label.as_str());
        f.put_opt_str("documentation", &self.documentation);
        f.put_opt_u32("active_parameter", self.active_parameter);
        f.put("parameters", list_json(&self.parameters));
        f.done()
    }
}

/// The edits of one file.
pub struct FileEdit {
    pub uri: String,
    pub edits: Vec<TextEdit>,
}

/// The model of [`FileEdit`].
#[verifier::ext_equal]
pub struct FileEditView {
    pub uri: Seq<char>,
    pub edits: Seq<TextEditView>,
}

impl DeepView for FileEdit {
    type V = FileEditView;

    open spec fn deep_view(&self) -> FileEditView {
        FileEditView {
            uri: self.uri@,
            edits: self.edits.deep_view(),
        }
    }
}

impl Wire for FileEdit {
    open spec fn wire(v: FileEditView) -> JsonView {
        let m = Map::<Seq<char>, JsonView>::empty();
        let m = m.insert("uri"@, JsonView::Str(v.uri));
        let m = m.insert("edits"@, wire::wire_list::<TextEdit>(v.edits));
        JsonView::Object(m)
    }

    fn to_json(&self) -> (r: Json) {
        let mut f = Fields::new();
        f.put_str("uri", self.uri.as_str());
        f.put("edits", list_json(&self.edits));
        f.done()
    }
}

/// Workspace edit for multi-file changes.
pub struct WorkspaceEdit {
    pub changes: Vec<FileEdit>,
}

/// The model of [`WorkspaceEdit`].
#[verifier::ext_equal]
pub struct WorkspaceEditView {
    pub changes: Seq<FileEditView>,
}

impl DeepView for WorkspaceEdit {
    type V = WorkspaceEditView;

    open spec fn deep_view(&self) -> WorkspaceEditView {
        WorkspaceEditView {
            changes: self.changes.deep_view(),
        }
    }
}

impl Wire for WorkspaceEdit {
    open spec fn wire(v: WorkspaceEditView) -> JsonView {
        let m = Map::<Seq<char>, JsonView>::empty();
        let m = m.insert("changes"@, wire::wire_list::<FileEdit>(v.changes));
        JsonView::Object(m)
    }

    fn to_json(&self) -> (r: Json) {
        let mut f = Fields::new();
        f.put("changes", list_json(&self.changes));
        f.done()
    }
}

/// Document highlight (occurrences of one symbol).
pub struct DocumentHighlightItem {
    pub line: u32,
    pub character: u32,
    pub end_line: u32,
    pub end_character: u32,
    /// "text", "read" or "write".
    pub kind: String,
}

/// The model of [`DocumentHighlightItem`].
#[verifier::ext_equal]
pub struct DocumentHighlightItemView {
    pub line: u32,
    pub character: u32,
    pub end_line: u32,
    pub end_character: u32,
    pub kind: Seq<char>,
}

impl DeepView for DocumentHighlightItem {
    type V = DocumentHighlightItemView;

    open spec fn deep_view(&self) -> DocumentHighlightItemView {
        DocumentHighlightItemView {
            line: self.line,
            character: self.character,
            end_line: self.end_line,
            end_character: self.end_character,
            kind: self.kind@,
        }
    }
}

impl Wire for DocumentHighlightItem {
    open spec fn wire(v: DocumentHighlightItemView) -> JsonView {
        let m = Map::<Seq<char>, JsonView>::empty();
        let m = m.insert("line"@, JsonView::Int(v.line as int));
        let m = m.insert("character"@, JsonView::Int(v.character as int));
        let m = m.insert("end_line"@, JsonView::Int(v.end_line as int));
        let m = m.insert("end_character"@, JsonView::Int(v.end_character as int));
        let m = m.insert("kind"@, JsonView::Str(v.kind));
        JsonView::Object(m)
    }

    fn to_json(&self) -> (r: Json) {
        let mut f = Fields::new();
        f.put_u64("line", self.line as u64);
        f.put_u64("character", self.character as u64);
        f.put_u64("end_line", self.end_line as u64);
        f.put_u64("end_character", self.end_character as u64);
        f.put_str("kind", self.kind.as_str());
        f.done()
    }
}

/// Inlay hint.
pub struct InlayHintItem {
    pub line: u32,
    pub character: u32,
    pub label: String,
    /// "type", "parameter" or "other".
    pub kind: String,
    pub padding_left: bool,
    pub padding_right: bool,
}

/// The model of [`InlayHintItem`].
#[verifier::ext_equal]
pub struct InlayHintItemView {
    pub line: u32,
    pub character: u32,
    pub label: Seq<char>,
    pub kind: Seq<char>,
    pub padding_left: bool,
    pub padding_right: bool,
}

impl DeepView for InlayHintItem {
    type V = InlayHintItemView;

    open spec fn deep_view(&self) -> InlayHintItemView {
        InlayHintItemView {
            line: self.line,
            character: self.character,
            label: self.label@,
            kind: self.kind@,
            padding_left: self.padding_left,
            padding_right: self.padding_right,
        }
    }
}

impl Wire for InlayHintItem {
    open spec fn wire(v: InlayHintItemView) -> JsonView {
        let m = Map::<Seq<char>, JsonView>::empty();
        let m = m.insert("line"@, JsonView::Int(v.line as int));
        let m = m.insert("character"@, JsonView::Int(v.character as int));
        let m = m.insert("label"@, JsonView::Str(v.label));
        let m = m.insert("kind"@, JsonView::Str(v.kind));
        let m = m.insert("padding_left"@, JsonView::Bool(v.padding_left));
        let m = m.insert("padding_right"@, JsonView::Bool(v.padding_right));
        JsonView::Object(m)
    }

    fn to_json(&self) -> (r: Json) {
        let mut f = Fields::new();
        f.put_u64("line", self.line as u64);
        f.put_u64("character", self.character as u64);
        f.put_str("label", self.label.as_str());
        f.put_str("kind", self.kind.as_str());
        f.put_bool("padding_left", self.padding_left);
        f.put_bool("padding_right", self.padding_right);
        f.done()
    }
}

/// Call hierarchy item.
pub struct CallHierarchyItem {
    pub name: String,
    pub kind: String,
    pub uri: String,
    pub line: u32,
    pub character: u32,
    pub detail: Option<String>,
}

/// The model of [`CallHierarchyItem`].
#[verifier::ext_equal]
pub struct CallHierarchyItemView {
    pub name: Seq<char>,
    pub kind: Seq<char>,
    pub uri: Seq<char>,
    pub line: u32,
    pub character: u32,
    pub detail: Option<Seq<char>>,
}

impl DeepView for CallHierarchyItem {
    type V = CallHierarchyItemView;

    open spec fn deep_view(&self) -> CallHierarchyItemView {
        CallHierarchyItemView {
            name: self.name@,
            kind: self.kind@,
            uri: self.uri@,
            line: self.line,
            character: self.character,
            detail: self.detail.deep_view(),
        }
    }
}

impl Wire for CallHierarchyItem {
    open spec fn wire(v: CallHierarchyItemView) -> JsonView {
        let m = Map::<Seq<char>, JsonView>::empty();
        let m = m.insert("name"@, JsonView::Str(v.name));
        let m = m.insert("kind"@, JsonView::Str(v.kind));
        let m = m.insert("uri"@, JsonView::Str(v.uri));
        let m = m.insert("line"@, JsonView::Int(v.line as int));
        let m = m.insert("character"@, JsonView::Int(v.character as int));
        let m = wire::with_opt_str(m, "detail"@, v.detail);
        JsonView::Object(m)
    }

    fn to_json(&self) -> (r: Json) {
        let mut f = Fields::new();
        f.put_str("name", self.name.as_str());
        f.put_str("kind", self.kind.as_str());
        f.put_str("uri", self.uri.as_str());
        f.put_u64("line", self.line as u64);
        f.put_u64("character", self.character as u64);
        f.put_opt_str("detail", &self.detail);
        f.done()
    }
}

/// Call hierarchy call (incoming or outgoing).
pub struct CallHierarchyCall {
    pub item: CallHierarchyItem,
    pub from_ranges: Vec<RangeItem>,
}

/// The model of [`CallHierarchyCall`].
#[verifier::ext_equal]
pub struct CallHierarchyCallView {
    pub item: CallHierarchyItemView,
    pub from_ranges: Seq<RangeItem>,
}

impl DeepView for CallHierarchyCall {
    type V = CallHierarchyCallView;

    open spec fn deep_view(&self) -> CallHierarchyCallView {
        CallHierarchyCallView {
            item: self.item.deep_view(),
            from_ranges: self.from_ranges.deep_view(),
        }
    }
}

impl Wire for CallHierarchyCall {
    open spec fn wire(v: CallHierarchyCallView) -> JsonView {
        let m = Map::<Seq<char>, JsonView>::empty();
        let m = m.insert("item"@, CallHierarchyItem::wire(v.item));
        let m = m.insert("from_ranges"@, wire::wire_list::<RangeItem>(v.from_ranges));
        JsonView::Object(m)
    }

    fn to_json(&self) -> (r: Json) {
        let mut f = Fields::new();
        f.put("item", self.item.to_json());
        f.put("from_ranges", list_json(&self.from_ranges));
        f.done()
    }
}

/// Semantic token (decoded).
pub struct SemanticTokenItem {
    pub line: u32,
    pub start: u32,
    pub length: u32,
    pub token_type: String,
    pub modifiers: Vec<String>,
}

/// The model of [`SemanticTokenItem`].
#[verifier::ext_equal]
pub struct SemanticTokenItemView {
    pub line: u32,
    pub start: u32,
    pub length: u32,
    pub token_type: Seq<char>,
    pub modifiers: Seq<Seq<char>>,
}

impl DeepView for SemanticTokenItem {
    type V = SemanticTokenItemView;

    open spec fn deep_view(&self) -> SemanticTokenItemView {
        SemanticTokenItemView {
            line: self.line,
            start: self.start,
            length: self.length,
            token_type: self.token_type@,
            modifiers: self.modifiers.deep_view(),
        }
    }
}

impl Wire for SemanticTokenItem {
    open spec fn wire(v: SemanticTokenItemView) -> JsonView {
        let m = Map::<Seq<char>, JsonView>::empty();
        let m = m.insert("line"@, JsonView::Int(v.line as int));
        let m = m.insert("start"@, JsonView::Int(v.start as int));
        let m = m.insert("length"@, JsonView::Int(v.length as int));
        let m = m.insert("token_type"@, JsonView::Str(v.token_type));
        let m = m.insert("modifiers"@, json::strings_view(v.modifiers));
        JsonView::Object(m)
    }

    fn to_json(&self) -> (r: Json) {
        let mut f = Fields::new();
        f.put_u64("line", self.line as u64);
        f.put_u64("start", self.start as u64);
        f.put_u64("length", self.length as u64);
        f.put_str("token_type", self.token_type.as_str());
        f.put("modifiers", Json::string_array(&self.modifiers));
        f.done()
    }
}

/// Code lens.
pub struct CodeLensItem {
    pub line: u32,
    pub character: u32,
    pub end_line: u32,
    pub end_character: u32,
    pub command_title: Option<String>,
    /// Index for codeLens/execute.
    pub index: usize,
}

/// The model of [`CodeLensItem`].
#[verifier::ext_equal]
pub struct CodeLensItemView {
    pub line: u32,
    pub character: u32,
    pub end_line: u32,
    pub end_character: u32,
    pub command_title: Option<Seq<char>>,
    pub index: usize,
}

impl DeepView for CodeLensItem {
    type V = CodeLensItemView;

    open spec fn deep_view(&self) -> CodeLensItemView {
        CodeLensItemView {
            line: self.line,
            character: self.character,
            end_line: self.end_line,
            end_character: self.end_character,
            command_title: self.command_title.deep_view(),
            index: self.index,
        }
    }
}

impl Wire for CodeLensItem {
    open spec fn wire(v: CodeLensItemView) -> JsonView {
        let m = Map::<Seq<char>, JsonView>::empty();
        let m = m.insert("line"@, JsonView::Int(v.line as int));
        let m = m.insert("character"@, JsonView::Int(v.character as int));
        let m = m.insert("end_line"@, JsonView::Int(v.end_line as int));
        let m = m.insert("end_character"@, JsonView::Int(v.end_character as int));
        let m = wire::with_opt_str(m, "command_title"@, v.command_title);
        let m = m.insert("index"@, JsonView::Int(v.index as int));
        JsonView::Object(m)
    }

    fn to_json(&self) -> (r: Json) {
        let mut f = Fields::new();
        f.put_u64("line", self.line as u64);
        f.put_u64("character", self.character as u64);
        f.put_u64("end_line", self.end_line as u64);
        f.put_u64("end_character", self.end_character as u64);
        f.put_opt_str("command_title", &self.command_title);
        f.put_u64("index", self.index as u64);
        f.done()
    }
}

/// Folding range.
pub struct FoldingRangeItem {
    pub start_line: u32,
    pub end_line: u32,
    pub kind: Option<String>,
}

/// The model of [`FoldingRangeItem`].
#[verifier::ext_equal]
pub struct FoldingRangeItemView {
    pub start_line: u32,
    pub end_line: u32,
    pub kind: Option<Seq<char>>,
}

impl DeepView for FoldingRangeItem {
    type V = FoldingRangeItemView;

    open spec fn deep_view(&self) -> FoldingRangeItemView {
        FoldingRangeItemView {
            start_line: self.start_line,
            end_line: self.end_line,
            kind: self.kind.deep_view(),
        }
    }
}

impl Wire for FoldingRangeItem {
    open spec fn wire(v: FoldingRangeItemView) -> JsonView {
        let m = Map::<Seq<char>, JsonView>::empty();
        let m = m.insert("start_line"@, JsonView::Int(v.start_line as int));
        let m = m.insert("end_line"@, JsonView::Int(v.end_line as int));
        let m = wire::with_opt_str(m, "kind"@, v.kind);
        JsonView::Object(m)
    }

    fn to_json(&self) -> (r: Json) {
        let mut f = Fields::new();
        f.put_u64("start_line", self.start_line as u64);
        f.put_u64("end_line", self.end_line as u64);
        f.put_opt_str("kind", &self.kind);
        f.done()
    }
}

/// Linked editing range.
pub struct LinkedEditingRangeItem {
    pub ranges: Vec<RangeItem>,
    pub word_pattern: Option<String>,
}

/// The model of [`LinkedEditingRangeItem`].
#[verifier::ext_equal]
pub struct LinkedEditingRangeItemView {
    pub ranges: Seq<RangeItem>,
    pub word_pattern: Option<Seq<char>>,
}

impl DeepView for LinkedEditingRangeItem {
    type V = LinkedEditingRangeItemView;

    open spec fn deep_view(&self) -> LinkedEditingRangeItemView {
        LinkedEditingRangeItemView {
            ranges: self.ranges.deep_view(),
            word_pattern: self.word_pattern.deep_view(),
        }
    }
}

impl Wire for LinkedEditingRangeItem {
    open spec fn wire(v: LinkedEditingRangeItemView) -> JsonView {
        let m = Map::<Seq<char>, JsonView>::empty();
        let m = m.insert("ranges"@, wire::wire_list::<RangeItem>(v.ranges));
        let m = wire::with_opt_str(m, "word_pattern"@, v.word_pattern);
        JsonView::Object(m)
    }

    fn to_json(&self) -> (r: Json) {
        let mut f = Fields::new();
        f.put("ranges", list_json(&self.ranges));
        f.put_opt_str("word_pattern", &self.word_pattern);
        f.done()
    }
}

/// Document symbol for an outline view.
pub struct DocumentSymbolItem {
    pub name: String,
    pub kind: String,
    pub detail: Option<String>,
    pub line: u32,
    pub character: u32,
    pub end_line: u32,
    pub end_character: u32,
    pub children: Vec<DocumentSymbolItem>,
}

/// The model of [`DocumentSymbolItem`].
#[verifier::ext_equal]
pub struct DocumentSymbolItemView {
    pub name: Seq<char>,
    pub kind: Seq<char>,
    pub detail: Option<Seq<char>>,
    pub line: u32,
    pub character: u32,
    pub end_line: u32,
    pub end_character: u32,
    pub children: Seq<DocumentSymbolItemView>,
}

impl DocumentSymbolItem {
    /// The model of the symbol and of those below it.
    pub open spec fn symbol_view(&self) -> DocumentSymbolItemView
        decreases self,
    {
        DocumentSymbolItemView {
            name: self.name@,
            kind: self.kind@,
            detail: self.detail.deep_view(),
            line: self.line,
            character: self.character,
            end_line: self.end_line,
            end_character: self.end_character,
            children: Seq::new(
                self.children@.len(),
                |i: int|
                    if 0 <= i < self.children@.len() {
                        self.children@[i].symbol_view()
                    } else {
                        arbitrary()
                    },
            ),
        }
    }

    /// Writes the symbol and those below it as JSON.
    fn symbol_json(&self) -> (r: Json)
        ensures
            r@ == symbol_wire(self.symbol_view()),
        decreases self,
    {
        let mut f = Fields::new();
        f.put_str("name", self.name.as_str());
        f.put_str("kind", self.kind.as_str());
        f.put("detail", Json::of_option(&self.detail));
        f.put_u64("line", self.line as u64);
        f.put_u64("character", self.character as u64);
        f.put_u64("end_line", self.end_line as u64);
        f.put_u64("end_character", self.end_character as u64);
        let mut children: Vec<Json> = Vec::new();
        let mut i: usize = 0;
        while i < self.children.len()
            invariant
                i <= self.children@.len(),
                children@.len() == i,
                forall|k: int|
                    0 <= k < i ==> (#[trigger] children@[k])@ == symbol_wire(
                        self.children@[k].symbol_view(),
                    ),
            decreases self.children@.len() - i,
        {
            assert(decreases_to!(*self => self.children));
            assert(decreases_to!(self.children => self.children@));
            assert(decreases_to!(self.children@ => self.children@[i as int]));
            children.push(self.children[i].symbol_json());
            i = i + 1;
        }
        let ghost v = self.symbol_view();
        assert((symbol_wire(v)->Object_0)["children"@]->Array_0 =~= json::items_view(children@));
        f.put("children", Json::array(children));
        f.done()
    }
}

/// The JSON form of a symbol and those below it.
pub open spec fn symbol_wire(v: DocumentSymbolItemView) -> JsonView
    decreases v,
{
    let m = Map::<Seq<char>, JsonView>::empty();
    let m = m.insert("name"@, JsonView::Str(v.name));
    let m = m.insert("kind"@, JsonView::Str(v.kind));
    let m = m.insert("detail"@, json::opt_str_view(v.detail));
    let m = m.insert("line"@, JsonView::Int(v.line as int));
    let m = m.insert("character"@, JsonView::Int(v.character as int));
    let m = m.insert("end_line"@, JsonView::Int(v.end_line as int));
    let m = m.insert("end_character"@, JsonView::Int(v.end_character as int));
    let m = m.insert(
        "children"@,
        JsonView::Array(
            Seq::new(
                v.children.len(),
                |i: int|
                    if 0 <= i < v.children.len() {
                        symbol_wire(v.children[i])
                    } else {
                        JsonView::Null
                    },
            ),
        ),
    );
    JsonView::Object(m)
}

impl DeepView for DocumentSymbolItem {
    type V = DocumentSymbolItemView;

    open spec fn deep_view(&self) -> DocumentSymbolItemView {
        self.symbol_view()
    }
}

impl Wire for DocumentSymbolItem {
    open spec fn wire(v: DocumentSymbolItemView) -> JsonView {
        symbol_wire(v)
    }

    fn to_json(&self) -> (r: Json) {
        self.symbol_json()
    }
}

/// Selection range (nested).
pub struct SelectionRangeItem {
    pub line: u32,
    pub character: u32,
    pub end_line: u32,
    pub end_character: u32,
    pub parent: Option<Box<SelectionRangeItem>>,
}

/// The model of [`SelectionRangeItem`].
pub struct SelectionRangeItemView {
    pub line: u32,
    pub character: u32,
    pub end_line: u32,
    pub end_character: u32,
    pub parent: Option<Box<SelectionRangeItemView>>,
}

impl SelectionRangeItem {
    /// The model of the range and of those around it.
    pub open spec fn range_view(&self) -> SelectionRangeItemView
        decreases self,
    {
        SelectionRangeItemView {
            line: self.line,
            character: self.character,
            end_line: self.end_line,
            end_character: self.end_character,
            parent: match self.parent {
                Some(p) => Some(Box::new(p.range_view())),
                None => None,
            },
        }
    }

    /// Writes the range and those around it as JSON.
    fn range_json(&self) -> (r: Json)
        ensures
            r@ == selection_wire(self.range_view()),
        decreases self,
    {
        let mut f = Fields::new();
        f.put_u64("line", self.line as u64);
        f.put_u64("character", self.character as u64);
        f.put_u64("end_line", self.end_line as u64);
        f.put_u64("end_character", self.end_character as u64);
        if let Some(p) = &self.parent {
            f.put("parent", p.range_json());
        }
        f.done()
    }
}

/// The JSON form of a range and those around it.
pub open spec fn selection_wire(v: SelectionRangeItemView) -> JsonView
    decreases v,
{
    let m = Map::<Seq<char>, JsonView>::empty();
    let m = m.insert("line"@, JsonView::Int(v.line as int));
    let m = m.insert("character"@, JsonView::Int(v.character as int));
    let m = m.insert("end_line"@, JsonView::Int(v.end_line as int));
    let m = m.insert("end_character"@, JsonView::Int(v.end_character as int));
    let m = match v.parent {
        Some(p) => m.insert("parent"@, selection_wire(*p)),
        None => m,
    };
    JsonView::Object(m)
}

impl DeepView for SelectionRangeItem {
    type V = SelectionRangeItemView;

    open spec fn deep_view(&self) -> SelectionRangeItemView {
        self.range_view()
    }
}

impl Wire for SelectionRangeItem {
    open spec fn wire(v: SelectionRangeItemView) -> JsonView {
        selection_wire(v)
    }

    fn to_json(&self) -> (r: Json) {
        self.range_json()
    }
}

// ---------------------------------------------------------------------------
// Reading a server's values
// ---------------------------------------------------------------------------

/// The name of a `CompletionItemKind` by its number in the protocol.
pub open spec fn completion_kind_name(kind: i64) -> Seq<char> {
    if kind == 1 {
        "Text"@
    } else if kind == 2 {
        "Method"@
    } else if kind == 3 {
        "Function"@
    } else if kind == 4 {
        "Constructor"@
    } else if kind == 5 {
        "Field"@
    } else if kind == 6 {
        "Variable"@
    } else if kind == 7 {
        "Class"@
    } else if kind == 8 {
        "Interface"@
    } else if kind == 9 {
        "Module"@
    } else if kind == 10 {
        "Property"@
    } else if kind == 11 {
        "Unit"@
    } else if kind == 12 {
        "Value"@
    } else if kind == 13 {
        "Enum"@
    } else if kind == 14 {
        "Keyword"@
    } else if kind == 15 {
        "Snippet"@
    } else if kind == 16 {
        "Color"@
    } else if kind == 17 {
        "File"@
    } else if kind == 18 {
        "Reference"@
    } else if kind == 19 {
        "Folder"@
    } else if kind == 20 {
        "EnumMember"@
    } else if kind == 21 {
        "Constant"@
    } else if kind == 22 {
        "Struct"@
    } else if kind == 23 {
        "Event"@
    } else if kind == 24 {
        "Operator"@
    } else if kind == 25 {
        "TypeParam"@
    } else {
        "Unknown"@
    }
}

/// Names a completion item kind.
pub fn completion_kind_label(kind: i64) -> (r: &'static str)
    ensures
        r@ == completion_kind_name(kind),
{
    match kind {
        1 => "Text",
        2 => "Method",
        3 => "Function",
        4 => "Constructor",
        5 => "Field",
        6 => "Variable",
        7 => "Class",
        8 => "Interface",
        9 => "Module",
        10 => "Property",
        11 => "Unit",
        12 => "Value",
        13 => "Enum",
        14 => "Keyword",
        15 => "Snippet",
        16 => "Color",
        17 => "File",
        18 => "Reference",
        19 => "Folder",
        20 => "EnumMember",
        21 => "Constant",
        22 => "Struct",
        23 => "Event",
        24 => "Operator",
        25 => "TypeParam",
        _ => "Unknown",
    }
}

/// The name of a `SymbolKind` by its number in the protocol.
pub open spec fn symbol_kind_name(kind: i64) -> Seq<char> {
    if kind == 1 {
        "File"@
    } else if kind == 2 {
        "Module"@
    } else if kind == 3 {
        "Namespace"@
    } else if kind == 4 {
        "Package"@
    } else if kind == 5 {
        "Class"@
    } else if kind == 6 {
        "Method"@
    } else if kind == 7 {
        "Property"@
    } else if kind == 8 {
        "Field"@
    } else if kind == 9 {
        "Constructor"@
    } else if kind == 10 {
        "Enum"@
    } else if kind == 11 {
        "Interface"@
    } else if kind == 12 {
        "Function"@
    } else if kind == 13 {
        "Variable"@
    } else if kind == 14 {
        "Constant"@
    } else if kind == 15 {
        "String"@
    } else if kind == 16 {
        "Number"@
    } else if kind == 17 {
        "Boolean"@
    } else if kind == 18 {
        "Array"@
    } else if kind == 19 {
        "Object"@
    } else if kind == 20 {
        "Key"@
    } else if kind == 21 {
        "Null"@
    } else if kind == 22 {
        "EnumMember"@
    } else if kind == 23 {
        "Struct"@
    } else if kind == 24 {
        "Event"@
    } else if kind == 25 {
        "Operator"@
    } else if kind == 26 {
        "TypeParam"@
    } else {
        "Unknown"@
    }
}

/// Names a symbol kind.
pub fn symbol_kind_label(kind: i64) -> (r: &'static str)
    ensures
        r@ == symbol_kind_name(kind),
{
    match kind {
        1 => "File",
        2 => "Module",
        3 => "Namespace",
        4 => "Package",
        5 => "Class",
        6 => "Method",
        7 => "Property",
        8 => "Field",
        9 => "Constructor",
        10 => "Enum",
        11 => "Interface",
        12 => "Function",
        13 => "Variable",
        14 => "Constant",
        15 => "String",
        16 => "Number",
        17 => "Boolean",
        18 => "Array",
        19 => "Object",
        20 => "Key",
        21 => "Null",
        22 => "EnumMember",
        23 => "Struct",
        24 => "Event",
        25 => "Operator",
        26 => "TypeParam",
        _ => "Unknown",
    }
}

/// The name of a `DocumentHighlightKind` by its number in the protocol.
pub open spec fn highlight_kind_name(kind: Option<i64>) -> Seq<char> {
    if kind == Some(2i64) {
        "read"@
    } else if kind == Some(3i64) {
        "write"@
    } else {
        "text"@
    }
}

/// Names a document highlight kind.
pub fn highlight_kind_label(kind: Option<i64>) -> (r: &'static str)
    ensures
        r@ == highlight_kind_name(kind),
{
    match kind {
        Some(2) => "read",
        Some(3) => "write",
        _ => "text",
    }
}

/// The level of a `DiagnosticSeverity`; information where it is missing or
/// unknown.
pub open spec fn severity_level(sev: Option<i64>) -> u8 {
    match sev {
        Some(n) => if 1 <= n <= 4 {
            n as u8
        } else {
            3
        },
        None => 3,
    }
}

/// Converts a diagnostic severity to its level.
pub fn severity_to_u8(sev: Option<i64>) -> (r: u8)
    ensures
        r == severity_level(sev),
{
    match sev {
        Some(n) => if 1 <= n && n <= 4 {
            n as u8
        } else {
            3
        },
        None => 3,
    }
}

/// The text of a documentation value, which is a string or marked-up content.
pub open spec fn doc_text(doc: Option<JsonView>) -> Option<Seq<char>> {
    match doc {
        Some(JsonView::Str(s)) => Some(s),
        Some(j) => Some(j.at("value"@).text()),
        None => None,
    }
}

/// Extracts the text of a documentation value.
pub fn extract_doc(doc: Option<&Json>) -> (r: Option<String>)
    ensures
        r.deep_view() == doc_text(json::opt_view(doc)),
{
    match doc {
        Some(j) => match j.as_str() {
            Some(s) => Some(s.to_string()),
            None => Some(j.text_at("value")),
        },
        None => None,
    }
}

/// The range that a `Range` stands for.
pub open spec fn range_of(j: JsonView) -> RangeItem {
    RangeItem {
        line: j.at("start"@).at("line"@).u32(),
        character: j.at("start"@).at("character"@).u32(),
        end_line: j.at("end"@).at("line"@).u32(),
        end_character: j.at("end"@).at("character"@).u32(),
    }
}

/// Reads a `Range`.
pub fn from_lsp_range(j: &Json) -> (r: RangeItem)
    ensures
        r == range_of(j@),
{
    let start = j.at("start");
    let end = j.at("end");
    RangeItem {
        line: start.number_at("line"),
        character: start.number_at("character"),
        end_line: end.number_at("line"),
        end_character: end.number_at("character"),
    }
}

/// Reads the `Range` under a key.
pub fn range_at(j: &Json, key: &str) -> (r: RangeItem)
    ensures
        r == range_of(j@.at(key@)),
{
    from_lsp_range(&j.at(key))
}

impl FromLsp for RangeItem {
    open spec fn lsp(j: JsonView) -> RangeItem {
        range_of(j)
    }

    fn from_lsp(j: &Json) -> (r: RangeItem) {
        from_lsp_range(j)
    }
}

/// A text edit over a range.
pub open spec fn edit_over(range: RangeItem, new_text: Seq<char>) -> TextEditView {
    TextEditView {
        line: range.line,
        character: range.character,
        end_line: range.end_line,
        end_character: range.end_character,
        new_text,
    }
}

/// The edit that a `TextEdit` stands for.
pub open spec fn text_edit_of(j: JsonView) -> TextEditView {
    edit_over(range_of(j.at("range"@)), j.at("newText"@).text())
}

fn make_edit(range: RangeItem, new_text: String) -> (r: TextEdit)
    ensures
        r.deep_view() == edit_over(range, new_text@),
{
    TextEdit {
        line: range.line,
        character: range.character,
        end_line: range.end_line,
        end_character: range.end_character,
        new_text,
    }
}

/// Reads a `TextEdit`.
pub fn from_lsp_text_edit(edit: &Json) -> (r: TextEdit)
    ensures
        r.deep_view() == text_edit_of(edit@),
{
    make_edit(range_at(edit, "range"), edit.text_at("newText"))
}

impl FromLsp for TextEdit {
    open spec fn lsp(j: JsonView) -> TextEditView {
        text_edit_of(j)
    }

    fn from_lsp(j: &Json) -> (r: TextEdit) {
        from_lsp_text_edit(j)
    }
}

/// The edit that a completion item asks for. Of the two ranges of an
/// insert-and-replace edit the replace range is taken: it is the right one
/// once a prefix has been typed.
pub open spec fn completion_edit_of(j: JsonView) -> TextEditView {
    match j.opt_at("replace"@) {
        Some(range) => edit_over(range_of(range), j.at("newText"@).text()),
        None => text_edit_of(j),
    }
}

fn from_lsp_completion_edit(j: &Json) -> (r: TextEdit)
    ensures
        r.deep_view() == completion_edit_of(j@),
{
    match j.opt_at("replace") {
        Some(range) => make_edit(from_lsp_range(range), j.text_at("newText")),
        None => from_lsp_text_edit(j),
    }
}

/// The values of an array of strings.
pub open spec fn strings_of(items: Seq<JsonView>) -> Seq<Seq<char>> {
    Seq::new(items.len(), |i: int| items[i].text())
}

/// Reads the array of strings under a key.
pub fn strings_at(j: &Json, key: &str) -> (r: Vec<String>)
    ensures
        r.deep_view() == strings_of(j@.at(key@).items()),
{
    let mut out: Vec<String> = Vec::new();
    if let Some(items) = j.array_at(key) {
        let mut i: usize = 0;
        while i < items.len()
            invariant
                i <= items@.len(),
                out@.len() == i,
                forall|k: int| 0 <= k < i ==> (#[trigger] out@[k])@ == items@[k]@.text(),
            decreases items@.len() - i,
        {
            out.push(
                match items[i].as_str() {
                    Some(s) => s.to_string(),
                    None => String::new(),
                },
            );
            i = i + 1;
        }
    }
    assert(out.deep_view() =~= strings_of(j@.at(key@).items()));
    out
}

/// The completion item that a `CompletionItem` stands for, at its place in the
/// list. The text to insert falls back to the edit's text, the text to filter
/// by falls back to the label.
pub open spec fn completion_item_of(j: JsonView, index: usize) -> CompletionItemView {
    let text_edit = match j.opt_at("textEdit"@) {
        Some(e) => Some(completion_edit_of(e)),
        None => None,
    };
    CompletionItemView {
        label: j.at("label"@).text(),
        kind: match j.at("kind"@).as_i64() {
            Some(k) => Some(completion_kind_name(k)),
            None => None,
        },
        detail: j.at("detail"@).as_str(),
        documentation: doc_text(j.opt_at("documentation"@)),
        insert_text: match (j.at("insertText"@).as_str(), text_edit) {
            (Some(s), _) => Some(s),
            (None, Some(e)) => Some(e.new_text),
            (None, None) => None,
        },
        text_edit,
        additional_text_edits: wire::lsp_list::<TextEdit>(j.at("additionalTextEdits"@).items()),
        commit_characters: strings_of(j.at("commitCharacters"@).items()),
        preselect: j.at("preselect"@).as_bool(),
        sort_text: j.at("sortText"@).as_str(),
        filter_text: match j.at("filterText"@).as_str() {
            Some(s) => Some(s),
            None => Some(j.at("label"@).text()),
        },
        index,
        is_snippet: if j.at("insertTextFormat"@).as_i64() == Some(2i64) {
            Some(true)
        } else {
            None
        },
    }
}

/// Normalizes a full completion item without dropping what it edits.
pub fn from_lsp_completion_item(item: &Json, index: usize) -> (r: CompletionItem)
    ensures
        r.deep_view() == completion_item_of(item@, index),
{
    let text_edit = match item.opt_at("textEdit") {
        Some(e) => Some(from_lsp_completion_edit(e)),
        None => None,
    };
    let insert_text = match item.string_at("insertText") {
        Some(s) => Some(s),
        None => match &text_edit {
            Some(e) => Some(e.new_text.clone()),
            None => None,
        },
    };
    let kind = match item.int_at("kind") {
        Some(k) => Some(completion_kind_label(k).to_string()),
        None => None,
    };
    let filter_text = match item.string_at("filterText") {
        Some(s) => Some(s),
        None => Some(item.text_at("label")),
    };
    let is_snippet = match item.int_at("insertTextFormat") {
        Some(n) => if n == 2 {
            Some(true)
        } else {
            None
        },
        None => None,
    };
    CompletionItem {
        label: item.text_at("label"),
        kind,
        detail: item.string_at("detail"),
        documentation: extract_doc(item.opt_at("documentation")),
        insert_text,
        text_edit,
        additional_text_edits: read_items_at(item, "additionalTextEdits"),
        commit_characters: strings_at(item, "commitCharacters"),
        preselect: item.bool_at("preselect"),
        sort_text: item.string_at("sortText"),
        filter_text,
        index,
        is_snippet,
    }
}

/// A place in a document, with the range that it covers.
pub open spec fn location_at(uri: Seq<char>, range: RangeItem) -> LocationView {
    LocationView {
        uri: uri::uri_path(uri),
        line: range.line,
        character: range.character,
        end_line: Some(range.end_line),
        end_character: Some(range.end_character),
    }
}

/// The location that a `Location` stands for.
pub open spec fn location_of(j: JsonView) -> LocationView {
    location_at(j.at("uri"@).text(), range_of(j.at("range"@)))
}

fn make_location(uri: &str, range: RangeItem) -> (r: Location)
    ensures
        r.deep_view() == location_at(uri@, range),
{
    Location {
        uri: decode_uri(uri),
        line: range.line,
        character: range.character,
        end_line: Some(range.end_line),
        end_character: Some(range.end_character),
    }
}

/// Reads a `Location`.
pub fn from_lsp_location(loc: &Json) -> (r: Location)
    ensures
        r.deep_view() == location_of(loc@),
{
    make_location(loc.text_at("uri").as_str(), range_at(loc, "range"))
}

impl FromLsp for Location {
    open spec fn lsp(j: JsonView) -> LocationView {
        location_of(j)
    }

    fn from_lsp(j: &Json) -> (r: Location) {
        from_lsp_location(j)
    }
}

/// The location that a `LocationLink` leads to.
pub open spec fn link_target_of(j: JsonView) -> LocationView {
    location_at(j.at("targetUri"@).text(), range_of(j.at("targetSelectionRange"@)))
}

/// Reads where a `LocationLink` leads.
pub fn from_lsp_location_link(link: &Json) -> (r: Location)
    ensures
        r.deep_view() == link_target_of(link@),
{
    make_location(link.text_at("targetUri").as_str(), range_at(link, "targetSelectionRange"))
}

/// The edits of one file, as a `TextDocumentEdit` gives them.
pub open spec fn file_edit_of(j: JsonView) -> FileEditView {
    FileEditView {
        uri: j.at("textDocument"@).at("uri"@).text(),
        edits: wire::lsp_list::<TextEdit>(j.at("edits"@).items()),
    }
}

/// Whether a document change edits text, rather than creating, renaming or
/// deleting a file.
pub open spec fn edits_text(j: JsonView) -> bool {
    j.get("edits"@) is Some
}

/// The file edits of a workspace edit's `changes`, in a given order of files.
pub open spec fn change_edits(
    keys: Seq<Seq<char>>,
    changes: Map<Seq<char>, JsonView>,
) -> Seq<FileEditView> {
    Seq::new(
        keys.len(),
        |i: int|
            FileEditView {
                uri: keys[i],
                edits: wire::lsp_list::<TextEdit>(changes[keys[i]].items()),
            },
    )
}

/// The file edits of a workspace edit's `documentChanges`, in order.
pub open spec fn document_edits(items: Seq<JsonView>) -> Seq<FileEditView> {
    items.filter(|j: JsonView| edits_text(j)).map_values(|j: JsonView| file_edit_of(j))
}

/// Whether a workspace edit is what a `WorkspaceEdit` stands for. The files of
/// `changes` come in any order, each once; the text edits of `documentChanges`
/// follow in the order in which they were given.
pub open spec fn is_workspace_edit_of(v: WorkspaceEditView, j: JsonView) -> bool {
    exists|keys: Seq<Seq<char>>|
        json::arranges(keys, j.at("changes"@).members().dom()) && v.changes == #[trigger]
        change_edits(keys, j.at("changes"@).members()) + document_edits(
            j.at("documentChanges"@).items(),
        )
}

fn read_change_edits(changes: &Json) -> (r: Vec<FileEdit>)
    ensures
        exists|keys: Seq<Seq<char>>|
            json::arranges(keys, changes@.members().dom()) && r.deep_view() == #[trigger]
            change_edits(keys, changes@.members()),
{
    let keys = changes.keys();
    let ghost ks = keys.deep_view();
    let mut out: Vec<FileEdit> = Vec::new();
    let mut i: usize = 0;
    while i < keys.len()
        invariant
            i <= keys@.len(),
            ks == keys.deep_view(),
            json::arranges(ks, changes@.members().dom()),
            out@.len() == i,
            forall|k: int|
                0 <= k < i ==> (#[trigger] out@[k]).deep_view() == change_edits(
                    ks,
                    changes@.members(),
                )[k],
        decreases keys@.len() - i,
    {
        assert(ks[i as int] == keys@[i as int]@);
        assert(ks.contains(ks[i as int]));
        out.push(
            FileEdit {
                uri: keys[i].clone(),
                edits: read_items_at(changes, keys[i].as_str()),
            },
        );
        i = i + 1;
    }
    assert(out.deep_view() =~= change_edits(ks, changes@.members()));
    out
}

fn read_document_edits(items: &Vec<Json>) -> (r: Vec<FileEdit>)
    ensures
        r.deep_view() == document_edits(json::items_view(items@)),
{
    let ghost js = json::items_view(items@);
    let ghost p = |j: JsonView| edits_text(j);
    let ghost f = |j: JsonView| file_edit_of(j);
    let mut out: Vec<FileEdit> = Vec::new();
    let mut i: usize = 0;
    proof {
        seqs::lemma_filter_start(js, p);
        assert(out.deep_view() =~= js.take(0).filter(p).map_values(f));
    }
    while i < items.len()
        invariant
            i <= items@.len(),
            js == json::items_view(items@),
            p == (|j: JsonView| edits_text(j)),
            f == (|j: JsonView| file_edit_of(j)),
            out.deep_view() == js.take(i as int).filter(p).map_values(f),
        decreases items@.len() - i,
    {
        let ghost before = out.deep_view();
        proof {
            seqs::lemma_filter_step(js, i as int, p);
        }
        if let Some(_) = items[i].get("edits") {
            let e = FileEdit {
                uri: items[i].at("textDocument").text_at("uri"),
                edits: read_items_at(&items[i], "edits"),
            };
            out.push(e);
            assert(out.deep_view() =~= before.push(file_edit_of(js[i as int])));
            assert(out.deep_view() =~= js.take(i + 1).filter(p).map_values(f));
        }
        i = i + 1;
    }
    assert(js.take(i as int) =~= js);
    out
}

/// Reads a `WorkspaceEdit`.
pub fn from_lsp_workspace_edit(edit: &Json) -> (r: WorkspaceEdit)
    ensures
        is_workspace_edit_of(r.deep_view(), edit@),
{
    let mut changes = read_change_edits(&edit.at("changes"));
    let ghost keys = choose|keys: Seq<Seq<char>>|
        json::arranges(keys, edit@.at("changes"@).members().dom()) && changes.deep_view()
            == #[trigger] change_edits(keys, edit@.at("changes"@).members());
    let ghost first = changes.deep_view();
    let mut rest = match edit.array_at("documentChanges") {
        Some(items) => read_document_edits(items),
        None => {
            proof {
                seqs::lemma_filter_start(Seq::<JsonView>::empty(), |j: JsonView| edits_text(j));
                assert(Seq::<JsonView>::empty().take(0) =~= Seq::<JsonView>::empty());
            }
            Vec::new()
        },
    };
    let ghost second = rest.deep_view();
    assert(second =~= document_edits(edit@.at("documentChanges"@).items()));
    changes.append(&mut rest);
    assert(changes.deep_view() =~= first + second);
    WorkspaceEdit { changes }
}

/// The text of a diagnostic's code, which is a number or a string.
pub open spec fn code_text(code: Option<JsonView>) -> Option<Seq<char>> {
    match code {
        Some(JsonView::Str(s)) => Some(s),
        Some(j) => match j.as_i64() {
            Some(n) => Some(text::int_text(n as int)),
            None => None,
        },
        None => None,
    }
}

/// The diagnostic that a `Diagnostic` stands for.
pub open spec fn diagnostic_of(j: JsonView) -> DiagnosticItemView {
    let range = range_of(j.at("range"@));
    DiagnosticItemView {
        line: range.line,
        character: range.character,
        end_line: range.end_line,
        end_character: range.end_character,
        severity: severity_level(j.at("severity"@).as_i64()),
        message: j.at("message"@).text(),
        source: j.at("source"@).as_str(),
        code: code_text(j.opt_at("code"@)),
    }
}

/// Reads a `Diagnostic`.
pub fn from_lsp_diagnostic(j: &Json) -> (r: DiagnosticItem)
    ensures
        r.deep_view() == diagnostic_of(j@),
{
    let range = range_at(j, "range");
    let code = match j.opt_at("code") {
        Some(c) => match c.as_str() {
            Some(s) => Some(s.to_string()),
            None => match c.as_i64() {
                Some(n) => Some(text::signed_text(n)),
                None => None,
            },
        },
        None => None,
    };
    DiagnosticItem {
        line: range.line,
        character: range.character,
        end_line: range.end_line,
        end_character: range.end_character,
        severity: severity_to_u8(j.int_at("severity")),
        message: j.text_at("message"),
        source: j.string_at("source"),
        code,
    }
}

impl FromLsp for DiagnosticItem {
    open spec fn lsp(j: JsonView) -> DiagnosticItemView {
        diagnostic_of(j)
    }

    fn from_lsp(j: &Json) -> (r: DiagnosticItem) {
        from_lsp_diagnostic(j)
    }
}

} // verus!
