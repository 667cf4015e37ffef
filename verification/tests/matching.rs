use regexrs::flags::{DOTALL, I, IGNORECASE, M, MULTILINE, NOFLAG, S, VERBOSE, X};
use regexrs::pattern::Pattern;
use regexrs::{compile, escape, findall, fullmatch, match_text, PatternArg, RegexError};

#[test]
fn constants_have_fixed_values() {
    assert_eq!(NOFLAG, 0);
    assert_eq!(IGNORECASE, 2);
    assert_eq!(I, 2);
    assert_eq!(MULTILINE, 8);
    assert_eq!(M, 8);
    assert_eq!(DOTALL, 16);
    assert_eq!(S, 16);
    assert_eq!(VERBOSE, 64);
    assert_eq!(X, 64);
}

#[test]
fn empty_text_never_matches() {
    for src in ["a", "", "a*", "(?:)", ".*"] {
        let p = compile(src, 0).unwrap();
        assert!(p.match_at("", None).is_none());
        assert!(p.match_at("", Some(0)).is_none());
    }
}

#[test]
fn match_is_anchored_at_requested_position() {
    let p = compile("b", 0).unwrap();
    // The leftmost match starts at codepoint 1, not 0: rejected.
    assert!(p.match_at("ab", None).is_none());
    assert!(p.match_at("ab", Some(0)).is_none());
    // Anchored exactly on it: accepted.
    let m = p.match_at("ab", Some(1)).unwrap();
    assert_eq!(m.pos, 1);
    assert_eq!(m.endpos, 2);
    assert_eq!(m.string, "b");
}

#[test]
fn fullmatch_requires_spanning_the_whole_text() {
    let m = fullmatch(PatternArg::Raw(String::from("ab")), "ab", None)
        .unwrap()
        .unwrap();
    assert_eq!((m.pos, m.endpos), (0, 2));
    assert!(fullmatch(PatternArg::Raw(String::from("ab")), "abc", None)
        .unwrap()
        .is_none());
    let m = match_text(PatternArg::Raw(String::from("ab")), "abc", None)
        .unwrap()
        .unwrap();
    assert_eq!((m.pos, m.endpos), (0, 2));
}

#[test]
fn findall_returns_all_matches_in_order() {
    let r = findall(PatternArg::Raw(String::from(r"\d+")), "a12b345", None).unwrap();
    assert_eq!(r, vec![String::from("12"), String::from("345")]);
}

#[test]
fn findall_method_on_pattern() {
    let p = Pattern::new(r"\d+").unwrap();
    assert_eq!(p.findall("a12b345"), vec![String::from("12"), String::from("345")]);
    assert_eq!(p.findall("xyz"), Vec::<String>::new());
}

#[test]
fn escape_makes_a_literal_pattern() {
    let e = escape("a.b*c");
    assert_eq!(e, "a\\.b\\*c");
    let p = compile(&e, 0).unwrap();
    // Matches the literal text in full.
    assert!(fullmatch(PatternArg::Compiled(p.duplicate()), "a.b*c", None)
        .unwrap()
        .is_some());
    // And only that text: the dot no longer matches an arbitrary character,
    // the star no longer repeats.
    assert!(match_text(PatternArg::Compiled(p.duplicate()), "aXb*c", None)
        .unwrap()
        .is_none());
    assert!(match_text(PatternArg::Compiled(p), "a.bc", None)
        .unwrap()
        .is_none());
}

#[test]
fn flag_composition_uses_fixed_letter_order() {
    let p = compile("abc", IGNORECASE | MULTILINE).unwrap();
    assert_eq!(p.as_source(), "(?im)abc");
    // Equivalent to compiling the inline-modifier source directly.
    let q = compile("(?im)abc", 0).unwrap();
    let m1 = q.match_at("ABC", None).unwrap();
    let m2 = p.match_at("ABC", None).unwrap();
    assert_eq!(m1.string, m2.string);
    assert_eq!((m1.pos, m1.endpos), (m2.pos, m2.endpos));
}

#[test]
fn all_four_flags_in_order() {
    let p = compile("x", IGNORECASE | MULTILINE | DOTALL | VERBOSE).unwrap();
    assert_eq!(p.as_source(), "(?imsx)x");
    let p = compile("x", DOTALL).unwrap();
    assert_eq!(p.as_source(), "(?s)x");
    let p = compile("x", 0).unwrap();
    assert_eq!(p.as_source(), "x");
    // Unknown bits are silently ignored.
    let p = compile("x", 1 | 4).unwrap();
    assert_eq!(p.as_source(), "x");
    let p = compile("x", IGNORECASE | 4).unwrap();
    assert_eq!(p.as_source(), "(?i)x");
}

#[test]
fn unicode_offsets_are_codepoints_not_bytes() {
    let p = compile("llo", 0).unwrap();
    let m = p.match_at("héllo", Some(2)).unwrap();
    assert_eq!(m.pos, 2);
    assert_eq!(m.endpos, 5);
    assert_eq!(m.string, "llo");
}

#[test]
fn match_at_end_of_text() {
    let p = compile("o", 0).unwrap();
    let m = p.match_at("héllo", Some(4)).unwrap();
    assert_eq!((m.pos, m.endpos), (4, 5));
    // An empty match right at the end of the text.
    let p = compile("x*", 0).unwrap();
    let m = p.match_at("héllo", Some(5)).unwrap();
    assert_eq!((m.pos, m.endpos), (5, 5));
    assert_eq!(m.string, "");
}

#[test]
fn empty_pattern_matches_empty_span() {
    let p = compile("", 0).unwrap();
    let m = p.match_at("x", None).unwrap();
    assert_eq!((m.pos, m.endpos), (0, 0));
    assert_eq!(m.string, "");
}

#[test]
fn syntax_error_on_bad_pattern() {
    assert!(matches!(compile("(", 0), Err(RegexError::Syntax(_))));
    assert!(matches!(Pattern::new("["), Err(RegexError::Syntax(_))));
    assert!(matches!(
        match_text(PatternArg::Raw(String::from("(")), "x", None),
        Err(RegexError::Syntax(_))
    ));
    // The flag rewrite is applied before compilation.
    assert!(compile("abc", VERBOSE | 1).is_ok());
}

#[test]
fn flags_with_compiled_pattern_is_an_error() {
    let p = compile("a", 0).unwrap();
    assert!(matches!(
        match_text(PatternArg::Compiled(p.duplicate()), "a", Some(2)),
        Err(RegexError::FlagsWithCompiled)
    ));
    assert!(matches!(
        fullmatch(PatternArg::Compiled(p.duplicate()), "a", Some(0)),
        Err(RegexError::FlagsWithCompiled)
    ));
    assert!(matches!(
        findall(PatternArg::Compiled(p.duplicate()), "a", Some(2)),
        Err(RegexError::FlagsWithCompiled)
    ));
    // Without flags the compiled pattern is used as it is.
    assert!(match_text(PatternArg::Compiled(p), "a", None)
        .unwrap()
        .is_some());
}

#[test]
fn pattern_repr_embeds_quoted_source() {
    let p = compile("ab", 0).unwrap();
    assert_eq!(p.repr(), "regexrs.compile(\"ab\")");
}

#[test]
fn module_match_honors_flags_on_raw_patterns() {
    let m = match_text(PatternArg::Raw(String::from("abc")), "ABC", Some(IGNORECASE))
        .unwrap()
        .unwrap();
    assert_eq!((m.pos, m.endpos), (0, 3));
    assert!(match_text(PatternArg::Raw(String::from("abc")), "ABC", None)
        .unwrap()
        .is_none());
    assert!(match_text(PatternArg::Raw(String::from("abc")), "ABC", Some(NOFLAG))
        .unwrap()
        .is_none());
}

#[test]
fn module_functions_on_multibyte_text() {
    let m = fullmatch(PatternArg::Raw(String::from("héllo")), "héllo", None)
        .unwrap()
        .unwrap();
    assert_eq!((m.pos, m.endpos), (0, 5));
    let r = findall(PatternArg::Raw(String::from("é")), "héllé", None).unwrap();
    assert_eq!(r, vec![String::from("é"), String::from("é")]);
}

#[test]
fn pattern_repr_escapes_embedded_quotes() {
    let p = compile("a\"b", 0).unwrap();
    assert_eq!(p.repr(), "regexrs.compile(\"a\\\"b\")");
}
