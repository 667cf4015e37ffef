//! A facade over a byte-offset regular-expression engine that exposes the
//! procedural matching API of codepoint-oriented text processing: pattern
//! compilation with flag bitmasks, anchored matching at a codepoint
//! position, full-string matching, global find, group inspection, and
//! escaping.
//!
//! The engine works in byte offsets into the UTF-8 encoding of a text;
//! every externally visible offset is a codepoint index.  The `offsets`
//! module reconciles the two coordinate systems; `flags` compiles a flag
//! bitmask into an inline-modifier prefix; `pattern` and `matched` carry the
//! `Pattern` and `Match` values; the functions here are the stateless
//! convenience entry points over them.

use vstd::prelude::*;

pub mod engine;
pub mod flags;
pub mod matched;
pub mod offsets;
pub mod pattern;
pub mod strfmt;

use crate::engine::{escape_raw, escape_spec, findall_spec, regex_compiles};
use crate::flags::flagged_source;
use crate::matched::Match;
use crate::pattern::{match_model, match_opt_ok, Pattern};
use vstd::string::StrSliceExecFns;

verus! {

/// The failures the facade surfaces: a pattern source the engine rejects, a
/// flag bitmask supplied together with an already-compiled pattern, and a
/// group re-derivation that finds no match.
#[derive(Debug)]
pub enum RegexError {
    Syntax(String),
    FlagsWithCompiled,
    NoMatch,
}

/// A pattern argument of a module-level function: either a raw pattern
/// source still to be compiled, or an already-compiled `Pattern`.
pub enum PatternArg {
    Raw(String),
    Compiled(Pattern),
}

/// The flag bitmask in effect: the given one, or no flags when none was
/// supplied.
pub open spec fn spec_flags_or_zero(flags: Option<u32>) -> u32 {
    match flags {
        Option::Some(f) => f,
        Option::None => 0,
    }
}

/// The engine pattern source a module-level call works with: the
/// flag-adjusted raw source, or the compiled pattern's own source.
pub open spec fn arg_source(pattern: PatternArg, flags: Option<u32>) -> Seq<char> {
    match pattern {
        PatternArg::Raw(s) => flagged_source(s@, spec_flags_or_zero(flags)),
        PatternArg::Compiled(p) => p.source_spec(),
    }
}

/// Supplying a flag bitmask together with an already-compiled pattern is a
/// caller error.
pub open spec fn arg_flags_rejected(pattern: PatternArg, flags: Option<u32>) -> bool {
    pattern is Compiled && flags is Some
}

/// A module-level call resolves its pattern argument successfully: the
/// flag/pattern combination is legal and, for a raw source, the engine
/// accepts it.
pub open spec fn arg_resolves(pattern: PatternArg, flags: Option<u32>) -> bool {
    &&& !arg_flags_rejected(pattern, flags)
    &&& (pattern is Raw ==> regex_compiles(arg_source(pattern, flags)))
}

/// Compiles a pattern source, first rewriting it under the given flag
/// bitmask.
pub fn compile(pattern: &str, flags: u32) -> (r: Result<Pattern, RegexError>)
    ensures
        (r is Ok) == regex_compiles(flagged_source(pattern@, flags)),
        r matches Ok(p) ==> p.source_spec() == flagged_source(pattern@, flags),
        r matches Err(e) ==> e is Syntax,
{
    let adjusted = flags::compile_flags(pattern, flags);
    Pattern::new(adjusted.as_str())
}

/// Resolves a module-level pattern argument to a compiled `Pattern`.
fn resolve(pattern: PatternArg, flags: Option<u32>) -> (r: Result<Pattern, RegexError>)
    ensures
        (r is Ok) == arg_resolves(pattern, flags),
        r matches Ok(p) ==> p.source_spec() == arg_source(pattern, flags),
        arg_flags_rejected(pattern, flags) ==> (r matches Err(e) && e is FlagsWithCompiled),
        r matches Err(e) && e is Syntax ==> !regex_compiles(arg_source(pattern, flags)),
{
    match pattern {
        PatternArg::Raw(s) => {
            let f: u32 = match flags {
                Some(f) => f,
                None => 0,
            };
            compile(s.as_str(), f)
        },
        PatternArg::Compiled(p) => {
            if flags.is_some() {
                Err(RegexError::FlagsWithCompiled)
            } else {
                Ok(p)
            }
        },
    }
}

/// Anchored match at the start of `text`: compiles a raw pattern (honoring
/// `flags`), or uses the given compiled pattern (with which supplying
/// `flags` is an error), and requires the match to begin at codepoint 0.
pub fn match_text(pattern: PatternArg, text: &str, flags: Option<u32>) -> (r: Result<
    Option<Match>,
    RegexError,
>)
    ensures
        (r is Ok) == arg_resolves(pattern, flags),
        arg_flags_rejected(pattern, flags) ==> (r matches Err(e) && e is FlagsWithCompiled),
        r matches Err(e) && e is Syntax ==> !regex_compiles(arg_source(pattern, flags)),
        r matches Ok(opt) ==> match_opt_ok(opt, arg_source(pattern, flags), text@, 0),
{
    let p = match resolve(pattern, flags) {
        Ok(p) => p,
        Err(e) => {
            return Err(e);
        },
    };
    Ok(p.match_at(text, None))
}

/// Like `match_text`, but the match must additionally span the entire text:
/// a result is returned iff the anchored match exists and its end equals
/// the text's codepoint length.
pub fn fullmatch(pattern: PatternArg, text: &str, flags: Option<u32>) -> (r: Result<
    Option<Match>,
    RegexError,
>)
    ensures
        (r is Ok) == arg_resolves(pattern, flags),
        arg_flags_rejected(pattern, flags) ==> (r matches Err(e) && e is FlagsWithCompiled),
        r matches Err(e) && e is Syntax ==> !regex_compiles(arg_source(pattern, flags)),
        r matches Ok(opt) ==> {
            let model = match_model(arg_source(pattern, flags), text@, 0);
            &&& (opt is Some <==> (model is Some && model.unwrap().endpos == text@.len()))
            &&& (opt matches Some(m) ==> m.model() == model.unwrap() && m.re.source_spec()
                == arg_source(pattern, flags))
        },
{
    let p = match resolve(pattern, flags) {
        Ok(p) => p,
        Err(e) => {
            return Err(e);
        },
    };
    match p.match_at(text, None) {
        Some(m) => {
            if m.end() == text.unicode_len() {
                Ok(Some(m))
            } else {
                Ok(None)
            }
        },
        None => Ok(None),
    }
}

/// Global find: the substrings of all non-overlapping matches of the
/// pattern in `text`, in order found, with the same pattern-argument
/// handling as `match_text`.
pub fn findall(pattern: PatternArg, text: &str, flags: Option<u32>) -> (r: Result<
    Vec<String>,
    RegexError,
>)
    ensures
        (r is Ok) == arg_resolves(pattern, flags),
        arg_flags_rejected(pattern, flags) ==> (r matches Err(e) && e is FlagsWithCompiled),
        r matches Err(e) && e is Syntax ==> !regex_compiles(arg_source(pattern, flags)),
        r matches Ok(v) ==> v.deep_view() == findall_spec(arg_source(pattern, flags), text@),
{
    let p = match resolve(pattern, flags) {
        Ok(p) => p,
        Err(e) => {
            return Err(e);
        },
    };
    Ok(p.findall(text))
}

/// Escapes every regex metacharacter of `pattern`, so that the result
/// matches `pattern` literally when compiled.
pub fn escape(pattern: &str) -> (r: String)
    ensures
        r@ == escape_spec(pattern@),
{
    escape_raw(pattern)
}

} // verus!
