//! The boundary to the external regex engine.
//!
//! The engine's behaviour is named, not restated: each `uninterp` spec
//! function below stands for the result of one engine operation, which is a
//! deterministic function of the pattern source and the text alone.  The
//! trusted wrappers in `pattern` tie the engine calls to these names and
//! state, over the offset specs of `offsets`, the facts the engine's
//! documentation gives about spans and substrings.

use vstd::prelude::*;

verus! {

#[verifier::external_type_specification]
#[verifier::external_body]
pub struct ExRegex(regex::Regex);

#[verifier::external_type_specification]
#[verifier::external_body]
pub struct ExRegexError(regex::Error);

/// Whether the engine accepts `pattern` as a valid regex source
/// (`regex::Regex::new` returns `Ok`).
pub uninterp spec fn regex_compiles(pattern: Seq<char>) -> bool;

/// The capture-group byte spans that the engine reports for the leftmost
/// match of `pattern` in `text` that begins at or after byte offset `start`:
/// `None` when there is no such match, otherwise one optional byte span per
/// capture group, the whole match at index 0, `None` for groups that did not
/// participate.
pub uninterp spec fn caps_at_spec(pattern: Seq<char>, text: Seq<char>, start: int) -> Option<
    Seq<Option<(usize, usize)>>,
>;

/// The capture-group names of `pattern`, by group index: `None` for the
/// implicit whole-match group at index 0 and for unnamed groups.
pub uninterp spec fn cap_names_spec(pattern: Seq<char>) -> Seq<Option<Seq<char>>>;

/// The substrings of the successive non-overlapping leftmost matches of
/// `pattern` in `text`, in order of occurrence.
pub uninterp spec fn findall_spec(pattern: Seq<char>, text: Seq<char>) -> Seq<Seq<char>>;

/// The pattern source that matches the text `pattern` literally: `pattern`
/// with every regex metacharacter escaped.
pub uninterp spec fn escape_spec(pattern: Seq<char>) -> Seq<char>;

/// Relies on `regex::escape`: the result is a deterministic function of the
/// input text alone.
#[verifier::external_body]
pub(crate) fn escape_raw(pattern: &str) -> (r: String)
    ensures
        r@ == escape_spec(pattern@),
{
    regex::escape(pattern)
}

/// Relies on the `Display` implementation of `regex::Error` for a
/// human-readable description of why a pattern was rejected.
#[verifier::external_body]
pub(crate) fn regex_error_text(e: &regex::Error) -> (r: String) {
    e.to_string()
}

} // verus!
