//! Flag bitmask constants and the compiler from a flag bitmask to an
//! inline-modifier prefix on a pattern source.
//!
//! Each of the four supported facets toggles one inline modifier letter; the
//! letters always appear in the fixed order `i`, `m`, `s`, `x`.  Bits outside
//! the four known facets are silently ignored.

use vstd::prelude::*;

verus! {

pub const NOFLAG: u32 = 0;

pub const IGNORECASE: u32 = 2;

pub const I: u32 = 2;

pub const MULTILINE: u32 = 8;

pub const M: u32 = 8;

pub const DOTALL: u32 = 16;

pub const S: u32 = 16;

pub const VERBOSE: u32 = 64;

pub const X: u32 = 64;

/// The modifier letters selected by the known bits of `flags`, in the fixed
/// order `i`, `m`, `s`, `x`.
pub open spec fn flag_letters(flags: u32) -> Seq<char> {
    (if flags & IGNORECASE != 0 {
        seq!['i']
    } else {
        Seq::<char>::empty()
    }) + (if flags & MULTILINE != 0 {
        seq!['m']
    } else {
        Seq::<char>::empty()
    }) + (if flags & DOTALL != 0 {
        seq!['s']
    } else {
        Seq::<char>::empty()
    }) + (if flags & VERBOSE != 0 {
        seq!['x']
    } else {
        Seq::<char>::empty()
    })
}

/// The pattern source after flag adjustment: unchanged when no known flag bit
/// is set, otherwise prefixed with the inline-modifier group `(?...)` holding
/// the selected letters.
pub open spec fn flagged_source(pattern: Seq<char>, flags: u32) -> Seq<char> {
    if flag_letters(flags).len() == 0 {
        pattern
    } else {
        seq!['(', '?'] + flag_letters(flags) + seq![')'] + pattern
    }
}

/// Translates a flag bitmask into an engine-native inline-modifier prefix
/// prepended to the pattern source.
pub fn compile_flags(pattern: &str, flags: u32) -> (r: String)
    ensures
        r@ == flagged_source(pattern@, flags),
{
    proof {
        reveal_strlit("(?");
        reveal_strlit("i");
        reveal_strlit("m");
        reveal_strlit("s");
        reveal_strlit("x");
        reveal_strlit(")");
    }
    if flags & IGNORECASE == 0 && flags & MULTILINE == 0 && flags & DOTALL == 0 && flags & VERBOSE
        == 0 {
        let r = pattern.to_owned();
        proof {
            assert(r@ =~= flagged_source(pattern@, flags));
        }
        return r;
    }
    let mut s = String::from_str("(?");
    if flags & IGNORECASE != 0 {
        s.append("i");
    }
    if flags & MULTILINE != 0 {
        s.append("m");
    }
    if flags & DOTALL != 0 {
        s.append("s");
    }
    if flags & VERBOSE != 0 {
        s.append("x");
    }
    s.append(")");
    s.append(pattern);
    proof {
        assert(s@ =~= flagged_source(pattern@, flags));
    }
    s
}

} // verus!
