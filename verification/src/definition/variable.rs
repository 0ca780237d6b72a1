//! Variable definition resolution.
//!
//! Go-to-definition for `$variable` references jumps from a variable
//! usage to its most recent assignment or declaration site. The search
//! through the syntax tree reports a [`VarDefSearchResult`]; this module
//! turns it into the definition target that the editor jumps to.
//!
//! When the cursor is already at the definition site (e.g. on a
//! parameter or assignment LHS), there is no target: the user is already
//! at the definition.
use vstd::prelude::*;

use tower_lsp::lsp_types::Url;

verus! {

/// Result of searching for a variable definition in the syntax tree.
#[derive(Debug, PartialEq, Eq, Structural)]
pub enum VarDefSearchResult {
    /// No definition site found for this variable in the current scope.
    NotFound,
    /// The cursor is already sitting on the definition site (e.g. on a
    /// parameter declaration).
    AtDefinition,
    /// Found a prior definition: `offset` is the start of the `$var`
    /// token, `end_offset` its end (byte offsets).
    FoundAt { offset: u32, end_offset: u32 },
}

impl Default for VarDefSearchResult {
    /// No definition site found.
    fn default() -> (r: Self)
        ensures
            r == VarDefSearchResult::NotFound,
    {
        VarDefSearchResult::NotFound
    }
}

/// Where go-to-definition jumps: the document, by its URI (one that
/// `Url::parse` accepts), and the byte range of the defining `$var` token.
#[derive(Debug)]
pub struct DefinitionTarget {
    pub uri: String,
    pub start_offset: u32,
    pub end_offset: u32,
}

/// Whether `Url::parse` accepts a string (a function of the string
/// alone).
pub uninterp spec fn url_parses(s: Seq<char>) -> bool;

/// `Url::parse(uri).is_ok()`: whether the string is a valid absolute URL.
#[verifier::external_body]
fn url_is_valid(uri: &str) -> (r: bool)
    ensures
        r == url_parses(uri@),
{
    Url::parse(uri).is_ok()
}

/// What the outcome of a definition search resolves to. A search that
/// could not run (`None`: the file did not parse) gives `None`; no
/// definition, or the cursor on it, gives `Some(None)`; a found definition
/// gives the target in the document `uri`, or `None` when `uri` does not
/// parse.
pub open spec fn definition_resolves(
    search: Option<VarDefSearchResult>,
    uri: Seq<char>,
    r: Option<Option<DefinitionTarget>>,
) -> bool {
    match search {
        None => r is None,
        Some(VarDefSearchResult::NotFound) => r == Some(None::<DefinitionTarget>),
        Some(VarDefSearchResult::AtDefinition) => r == Some(None::<DefinitionTarget>),
        Some(VarDefSearchResult::FoundAt { offset, end_offset }) => if url_parses(uri) {
            r matches Some(Some(t)) && t.uri@ == uri && t.start_offset == offset && t.end_offset == end_offset
        } else {
            r is None
        },
    }
}

/// Turns the outcome of the syntax-tree search into a definition target.
/// `search` is `None` when the search could not run because the file did
/// not parse.
///
/// Returns:
/// - `Some(Some(target))` — found a prior definition, jump there
/// - `Some(None)` — cursor is at a definition site or no definition
///   found in the tree
/// - `None` — the file did not parse, or the document URI does not parse
pub fn resolve_variable_definition_ast(search: Option<VarDefSearchResult>, uri: &str) -> (r: Option<Option<DefinitionTarget>>)
    ensures
        definition_resolves(search, uri@, r),
{
    let result = match search {
        Some(result) => result,
        None => return None,
    };
    match result {
        VarDefSearchResult::NotFound => {
            // The search ran but found no definition.
            Some(None)
        },
        VarDefSearchResult::AtDefinition => {
            // The cursor is at the definition.
            Some(None)
        },
        VarDefSearchResult::FoundAt { offset, end_offset } => {
            if !url_is_valid(uri) {
                return None;
            }
            Some(Some(DefinitionTarget { uri: uri.to_owned(), start_offset: offset, end_offset }))
        },
    }
}

/// Find the most recent assignment or declaration of a variable: the
/// target to jump to, or `None` when there is none, when the file did not
/// parse, or when the URI does not parse. It is the flattened result of
/// [`resolve_variable_definition_ast`].
pub fn resolve_variable_definition(search: Option<VarDefSearchResult>, uri: &str) -> (r: Option<DefinitionTarget>)
    ensures
        match search {
            Some(VarDefSearchResult::FoundAt { offset, end_offset }) => if url_parses(uri@) {
                r matches Some(t) && t.uri@ == uri@ && t.start_offset == offset && t.end_offset == end_offset
            } else {
                r is None
            },
            _ => r is None,
        },
{
    match resolve_variable_definition_ast(search, uri) {
        Some(Some(t)) => Some(t),
        _ => None,
    }
}

} // verus!
