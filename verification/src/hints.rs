//! What language servers say about code: hints, hovers, completions, actions, symbols.
use crate::ids::{BufferId, LanguageServerId, PayloadId, WorktreeId};
use crate::project_path::ProjectPath;
use itertools::Itertools;
use vstd::prelude::*;

verus! {

/// A stretch of a buffer that moves with the text.
#[derive(Clone, Copy, Debug, PartialEq, Eq, Structural)]
pub struct AnchorRange {
    pub start: PayloadId,
    pub end: PayloadId,
}

/// A place in a buffer.
#[derive(Clone, Copy, Debug, PartialEq, Eq, Structural)]
pub struct Location {
    pub buffer: BufferId,
    pub range: AnchorRange,
}

/// A link from one place to another.
#[derive(Clone, Copy, Debug, PartialEq, Eq, Structural)]
pub struct LocationLink {
    pub origin: Option<Location>,
    pub target: Location,
}

/// A stretch of a buffer that is highlighted.
#[derive(Clone, Copy, Debug, PartialEq, Eq, Structural)]
pub struct DocumentHighlight {
    pub range: AnchorRange,
    pub kind: PayloadId,
}

/// A named item of the code.
#[derive(Clone, Debug, PartialEq)]
pub struct Symbol {
    pub language_server_name: String,
    pub source_worktree_id: WorktreeId,
    pub path: ProjectPath,
    pub label: CodeLabel,
    pub name: String,
    pub kind: PayloadId,
    pub range: AnchorRange,
    pub signature: [u8; 32],
}

/// How a text is to be shown.
#[derive(Clone, Debug, PartialEq)]
pub enum HoverBlockKind {
    PlainText,
    Markdown,
    Code { language: String },
}

/// A part of what is shown over a place in a buffer.
#[derive(Clone, Debug, PartialEq)]
pub struct HoverBlock {
    pub text: String,
    pub kind: HoverBlockKind,
}

/// What is shown over a place in a buffer.
#[derive(Clone, Debug, PartialEq)]
pub struct Hover {
    pub contents: Vec<HoverBlock>,
    pub range: Option<AnchorRange>,
    pub language: Option<PayloadId>,
}

impl Hover {
    /// Whether there is no text to be shown.
    pub fn is_empty(&self) -> (res: bool)
        ensures
            res <==> forall|i: int|
                0 <= i < self.contents.len() ==> (#[trigger] self.contents@[i]).text@.len() == 0,
    {
        let mut i: usize = 0;
        while i < self.contents.len()
            invariant
                i <= self.contents.len(),
                forall|j: int| 0 <= j < i ==> (#[trigger] self.contents@[j]).text@.len() == 0,
            decreases self.contents.len() - i,
        {
            if !self.contents[i].text.as_str().is_empty() {
                assert(self.contents@[i as int].text@.len() != 0);
                return false;
            }
            i = i + 1;
        }
        true
    }
}

/// A text in some markup.
#[derive(Clone, Debug, PartialEq)]
pub struct MarkupContent {
    pub kind: HoverBlockKind,
    pub value: String,
}

/// What is shown over a hint.
#[derive(Clone, Debug, PartialEq)]
pub enum InlayHintTooltip {
    String(String),
    MarkupContent(MarkupContent),
}

/// What is shown over a part of a hint.
#[derive(Clone, Debug, PartialEq)]
pub enum InlayHintLabelPartTooltip {
    String(String),
    MarkupContent(MarkupContent),
}

/// A part of a hint.
#[derive(Clone, Debug, PartialEq)]
pub struct InlayHintLabelPart {
    pub value: String,
    pub tooltip: Option<InlayHintLabelPartTooltip>,
    pub location: Option<(LanguageServerId, PayloadId)>,
}

/// The text of a hint.
#[derive(Clone, Debug, PartialEq)]
pub enum InlayHintLabel {
    String(String),
    LabelParts(Vec<InlayHintLabelPart>),
}

/// Whether more can be learned of a hint.
#[derive(Clone, Copy, Debug, PartialEq, Eq, Structural)]
pub enum ResolveState {
    Resolved,
    CanResolve(LanguageServerId, Option<PayloadId>),
    Resolving,
}

/// A text that is shown in a buffer without being part of it.
#[derive(Clone, Debug, PartialEq)]
pub struct InlayHint {
    pub position: PayloadId,
    pub label: InlayHintLabel,
    pub kind: Option<PayloadId>,
    pub padding_left: bool,
    pub padding_right: bool,
    pub tooltip: Option<InlayHintTooltip>,
    pub resolve_state: ResolveState,
}

/// The texts of the parts, one after the other.
pub open spec fn parts_text(parts: Seq<InlayHintLabelPart>) -> Seq<char>
    decreases parts.len(),
{
    if parts.len() == 0 {
        Seq::empty()
    } else {
        parts_text(parts.drop_last()) + parts.last().value@
    }
}

/// Puts the texts of the parts one after the other with `itertools::Itertools::join`, which writes
/// out every item and, between two items, a separator; the separator is empty here.
#[verifier::external_body]
fn join_parts(parts: &Vec<InlayHintLabelPart>) -> (text: String)
    ensures
        text@ == parts_text(parts@),
{
    parts.iter().map(|part| &part.value).join("")
}

impl InlayHint {
    /// The text of the hint.
    pub fn text(&self) -> (text: String)
        ensures
            match self.label {
                InlayHintLabel::String(s) => text == s,
                InlayHintLabel::LabelParts(parts) => text@ == parts_text(parts@),
            },
    {
        match &self.label {
            InlayHintLabel::String(s) => s.clone(),
            InlayHintLabel::LabelParts(parts) => join_parts(parts),
        }
    }
}

/// What the user wants by confirming a completion.
#[derive(Clone, Copy, Debug, PartialEq, Eq, Structural, Hash)]
pub enum CompletionIntent {
    /// To commit the result; side effects are due.
    Complete,
    /// To go on composing; side effects are not due.
    Compose,
}

impl CompletionIntent {
    /// Whether the user wants to commit the result.
    pub fn is_complete(&self) -> (res: bool)
        ensures
            res == (self is Complete),
    {
        *self == CompletionIntent::Complete
    }

    /// Whether the user wants to go on composing.
    pub fn is_compose(&self) -> (res: bool)
        ensures
            res == (self is Compose),
    {
        *self == CompletionIntent::Compose
    }
}

/// What is completed to.
#[derive(Clone, Copy, Debug, PartialEq, Eq, Structural)]
pub enum CompletionItemKind {
    Keyword,
    Variable,
    Color,
    /// Anything else.
    Other,
}

/// How the text of a completion is to be read.
#[derive(Clone, Copy, Debug, PartialEq, Eq, Structural)]
pub enum InsertTextFormat {
    PlainText,
    Snippet,
}

/// The text that a menu shows.
#[derive(Clone, Debug, PartialEq)]
pub struct CodeLabel {
    pub text: String,
    /// The bytes of the text by which the user finds the item.
    pub filter_start: usize,
    pub filter_end: usize,
}

/// A completion that a language server offers.
#[derive(Clone, Debug, PartialEq)]
pub struct Completion {
    /// The stretch of the buffer that is replaced.
    pub old_range: AnchorRange,
    /// The text that is inserted.
    pub new_text: String,
    pub label: CodeLabel,
    pub server_id: LanguageServerId,
    pub documentation: Option<PayloadId>,
    pub kind: Option<CompletionItemKind>,
    pub insert_text_format: Option<InsertTextFormat>,
    /// What the language server said.
    pub lsp_completion: PayloadId,
    /// What is called when the user confirms.
    pub confirm: Option<PayloadId>,
}

impl CodeLabel {
    /// Whether the bytes by which the user finds the item are a stretch of characters of the text.
    pub open spec fn wf(self) -> bool {
        let bytes = vstd::utf8::encode_utf8(self.text@);
        &&& self.filter_start <= self.filter_end <= bytes.len()
        &&& vstd::utf8::is_char_boundary(bytes, self.filter_start as int)
        &&& vstd::utf8::is_char_boundary(bytes, self.filter_end as int)
    }

    /// The text by which the user finds the item.
    pub fn filter_text(&self) -> (text: &str)
        requires
            self.wf(),
        ensures
            vstd::utf8::encode_utf8(text@) == vstd::utf8::encode_utf8(self.text@).subrange(
                self.filter_start as int,
                self.filter_end as int,
            ),
    {
        let whole = self.text.as_str();
        let (_, tail) = whole.split_at(self.filter_start);
        proof {
            let bytes = vstd::utf8::encode_utf8(whole@);
            let n = self.filter_end - self.filter_start;
            vstd::utf8::encode_utf8_valid_utf8(self.text@);
            vstd::utf8::encode_utf8_valid_utf8(tail@);
            if self.filter_end < bytes.len() {
                vstd::utf8::is_char_boundary_iff_not_is_continuation_byte(
                    bytes,
                    self.filter_end as int,
                );
                vstd::utf8::is_char_boundary_iff_not_is_continuation_byte(
                    vstd::utf8::encode_utf8(tail@),
                    n,
                );
                assert(vstd::utf8::encode_utf8(tail@)[n] == bytes[self.filter_end as int]);
            } else {
                vstd::utf8::is_char_boundary_start_end_of_seq(vstd::utf8::encode_utf8(tail@));
            }
        }
        let (text, _) = tail.split_at(self.filter_end - self.filter_start);
        assert(vstd::utf8::encode_utf8(text@) =~= vstd::utf8::encode_utf8(whole@).subrange(
            self.filter_start as int,
            self.filter_end as int,
        ));
        text
    }
}

impl Completion {
    /// The place of the completion in a menu: keywords, then variables, then the others.
    pub open spec fn kind_key(self) -> usize {
        match self.kind {
            Some(CompletionItemKind::Keyword) => 0,
            Some(CompletionItemKind::Variable) => 1,
            _ => 2,
        }
    }

    /// A key by which completions are sorted in a menu.
    pub fn sort_key(&self) -> (key: (usize, &str))
        requires
            self.label.wf(),
        ensures
            key.0 == self.kind_key(),
            vstd::utf8::encode_utf8(key.1@) == vstd::utf8::encode_utf8(self.label.text@).subrange(
                self.label.filter_start as int,
                self.label.filter_end as int,
            ),
    {
        let kind_key: usize = match self.kind {
            Some(CompletionItemKind::Keyword) => 0,
            Some(CompletionItemKind::Variable) => 1,
            _ => 2,
        };
        (kind_key, self.label.filter_text())
    }

    /// Whether the completion is a snippet.
    pub fn is_snippet(&self) -> (res: bool)
        ensures
            res == (self.insert_text_format == Some(InsertTextFormat::Snippet)),
    {
        match self.insert_text_format {
            Some(format) => format == InsertTextFormat::Snippet,
            None => false,
        }
    }

    /// The color that the completion stands for, if it is one; `extracted` is the color that is
    /// found in what the language server said.
    pub fn color(&self, extracted: Option<PayloadId>) -> (res: Option<PayloadId>)
        ensures
            res == (if self.kind == Some(CompletionItemKind::Color) {
                extracted
            } else {
                None
            }),
    {
        match self.kind {
            Some(CompletionItemKind::Color) => extracted,
            _ => None,
        }
    }
}

/// An action on code that a language server offers.
#[derive(Clone, Copy, Debug, PartialEq, Eq, Structural)]
pub struct CodeAction {
    pub server_id: LanguageServerId,
    /// The stretch of the buffer that the action is about.
    pub range: AnchorRange,
    /// What the language server said.
    pub lsp_action: PayloadId,
}

/// The kinds that are switched on.
pub open spec fn enabled_kinds(kinds: Seq<(String, bool)>) -> Seq<String>
    decreases kinds.len(),
{
    if kinds.len() == 0 {
        Seq::empty()
    } else {
        let before = enabled_kinds(kinds.drop_last());
        if kinds.last().1 {
            before.push(kinds.last().0)
        } else {
            before
        }
    }
}

/// The kinds of code actions that the settings switch on.
pub fn deserialize_code_actions(code_actions: &Vec<(String, bool)>) -> (kinds: Vec<String>)
    ensures
        kinds@ == enabled_kinds(code_actions@),
{
    let mut kinds: Vec<String> = Vec::new();
    let mut i: usize = 0;
    while i < code_actions.len()
        invariant
            i <= code_actions.len(),
            kinds@ == enabled_kinds(code_actions@.take(i as int)),
        decreases code_actions.len() - i,
    {
        assert(code_actions@.take(i as int + 1).drop_last() =~= code_actions@.take(i as int));
        if code_actions[i].1 {
            kinds.push(code_actions[i].0.clone());
        }
        i = i + 1;
    }
    assert(code_actions@.take(i as int) =~= code_actions@);
    kinds
}

/// The text of a label is that of its parts, one after the other.
pub proof fn law_label_text(
    a: Seq<InlayHintLabelPart>,
    b: Seq<InlayHintLabelPart>,
    part: InlayHintLabelPart,
)
    ensures
        parts_text(a + b) == parts_text(a) + parts_text(b),
        parts_text(seq![part]) == part.value@,
    decreases b.len(),
{
    assert(seq![part].drop_last() =~= Seq::empty());
    assert(parts_text(Seq::empty()) =~= Seq::empty());
    assert(parts_text(seq![part]) =~= part.value@);
    if b.len() == 0 {
        assert(a + b =~= a);
        assert(parts_text(a) + parts_text(b) =~= parts_text(a));
    } else {
        law_label_text(a, b.drop_last(), part);
        assert((a + b).drop_last() =~= a + b.drop_last());
        assert((a + b).last() == b.last());
        assert(parts_text(a + b) =~= parts_text(a) + parts_text(b));
    }
}

/// Keywords come before variables, and variables before all other completions, which come
/// together.
pub proof fn law_kind_order(a: Completion, b: Completion)
    ensures
        a.kind == Some(CompletionItemKind::Keyword) && b.kind != Some(CompletionItemKind::Keyword)
            ==> a.kind_key() < b.kind_key(),
        a.kind == Some(CompletionItemKind::Variable) && b.kind != Some(CompletionItemKind::Keyword)
            && b.kind != Some(CompletionItemKind::Variable) ==> a.kind_key() < b.kind_key(),
        a.kind == b.kind ==> a.kind_key() == b.kind_key(),
        a.kind != Some(CompletionItemKind::Keyword) && a.kind != Some(CompletionItemKind::Variable)
            && b.kind != Some(CompletionItemKind::Keyword) && b.kind != Some(
            CompletionItemKind::Variable,
        ) ==> a.kind_key() == b.kind_key(),
        a.kind_key() <= 2,
{
}

/// The kinds that are enabled are those of the list that are, in their order.
pub proof fn law_enabled_kinds(
    a: Seq<(String, bool)>,
    b: Seq<(String, bool)>,
    kind: String,
)
    ensures
        enabled_kinds(a + b) == enabled_kinds(a) + enabled_kinds(b),
        enabled_kinds(seq![(kind, true)]) == seq![kind],
        enabled_kinds(seq![(kind, false)]).len() == 0,
    decreases b.len(),
{
    assert(seq![(kind, true)].drop_last() =~= Seq::empty());
    assert(seq![(kind, false)].drop_last() =~= Seq::empty());
    assert(enabled_kinds(Seq::empty()) =~= Seq::empty());
    assert(enabled_kinds(seq![(kind, true)]) =~= seq![kind]);
    if b.len() == 0 {
        assert(a + b =~= a);
        assert(enabled_kinds(a) + enabled_kinds(b) =~= enabled_kinds(a));
    } else {
        law_enabled_kinds(a, b.drop_last(), kind);
        assert((a + b).drop_last() =~= a + b.drop_last());
        assert((a + b).last() == b.last());
        assert(enabled_kinds(a + b) =~= enabled_kinds(a) + enabled_kinds(b));
    }
}

} // verus!
