//! The completion entries that the builder produces.
use vstd::prelude::*;

verus! {

/// What a completion entry stands for.
#[derive(Clone, Copy, Debug, PartialEq, Eq, Structural)]
pub enum CompletionKind {
    Method,
    Property,
    Constant,
    Keyword,
}

/// One completion entry.
#[derive(Clone, Debug)]
pub struct CompletionEntry {
    /// Text shown in the list.
    pub label: String,
    pub kind: CompletionKind,
    /// Detail line (`Class: ...`).
    pub detail: String,
    /// Text inserted on acceptance.
    pub insert_text: String,
    /// Whether `insert_text` is in snippet syntax.
    pub is_snippet: bool,
    /// Text the editor filters on.
    pub filter_text: String,
    /// Whether the member is marked deprecated.
    pub deprecated: bool,
    /// Key that fixes the order in the editor.
    pub sort_text: String,
}

/// The content of an entry, apart from its sort text.
pub struct EntryView {
    pub label: Seq<char>,
    pub kind: CompletionKind,
    pub detail: Seq<char>,
    pub insert_text: Seq<char>,
    pub is_snippet: bool,
    pub filter_text: Seq<char>,
    pub deprecated: bool,
}

impl View for CompletionEntry {
    type V = EntryView;

    open spec fn view(&self) -> EntryView {
        EntryView {
            label: self.label@,
            kind: self.kind,
            detail: self.detail@,
            insert_text: self.insert_text@,
            is_snippet: self.is_snippet,
            filter_text: self.filter_text@,
            deprecated: self.deprecated,
        }
    }
}

} // verus!
