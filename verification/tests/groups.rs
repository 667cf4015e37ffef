use regexrs::matched::{GroupReply, Match};
use regexrs::{compile, RegexError};

#[test]
fn group_without_arguments_is_group_zero() {
    let p = compile("(a)(b)?", 0).unwrap();
    let m = p.match_at("ab", None).unwrap();
    let no_args = match m.group(&vec![]).unwrap() {
        GroupReply::One(v) => v,
        GroupReply::Many(_) => panic!("expected a single value"),
    };
    let zero = match m.group(&vec![0]).unwrap() {
        GroupReply::One(v) => v,
        GroupReply::Many(_) => panic!("expected a single value"),
    };
    assert_eq!(no_args, zero);
    assert_eq!(no_args, Some(String::from("ab")));
    assert_eq!(no_args.unwrap(), m.string);
}

#[test]
fn missing_group_yields_no_value_marker_not_error() {
    let p = compile("(a)|(b)", 0).unwrap();
    let m = p.match_at("b", None).unwrap();
    // Group 2 participated, group 1 did not, group 5 does not exist.
    assert!(matches!(m.group(&vec![2]), Ok(GroupReply::One(Some(ref s))) if s == "b"));
    assert!(matches!(m.group(&vec![1]), Ok(GroupReply::One(None))));
    assert!(matches!(m.group(&vec![5]), Ok(GroupReply::One(None))));
}

#[test]
fn group_with_several_indices_yields_aligned_tuple() {
    let p = compile("(a)(b)", 0).unwrap();
    let m = p.match_at("ab", None).unwrap();
    let many = match m.group(&vec![2, 0, 7, 1]).unwrap() {
        GroupReply::Many(v) => v,
        GroupReply::One(_) => panic!("expected a tuple"),
    };
    assert_eq!(
        many,
        vec![
            Some(String::from("b")),
            Some(String::from("ab")),
            None,
            Some(String::from("a")),
        ]
    );
}

#[test]
fn groups_skips_the_whole_match() {
    let p = compile("(a)(b)?", 0).unwrap();
    let m = p.match_at("a", None).unwrap();
    assert_eq!(m.groups().unwrap(), vec![Some(String::from("a")), None]);
    let p = compile("ab", 0).unwrap();
    let m = p.match_at("ab", None).unwrap();
    assert_eq!(m.groups().unwrap(), Vec::<Option<String>>::new());
}

#[test]
fn groups_is_idempotent() {
    let p = compile("(a+)(b)?(c)?", 0).unwrap();
    let m = p.match_at("aac", None).unwrap();
    let first = m.groups().unwrap();
    let second = m.groups().unwrap();
    assert_eq!(first, second);
    assert_eq!(
        first,
        vec![Some(String::from("aa")), None, Some(String::from("c"))]
    );
}

#[test]
fn group_rederivation_without_match_is_an_error() {
    // A Match whose stored pattern/substring pairing is inconsistent: the
    // re-derivation against the stored substring finds no match at all.
    let p = compile("a", 0).unwrap();
    let m = Match {
        string: String::from("zzz"),
        re: p,
        pos: 0,
        endpos: 3,
        lastgroup: None,
    };
    assert!(matches!(m.group(&vec![]), Err(RegexError::NoMatch)));
    assert!(matches!(m.groups(), Err(RegexError::NoMatch)));
}

#[test]
fn lastgroup_names_the_last_participating_named_group() {
    let p = compile("(?P<first>a)(?P<second>b)?", 0).unwrap();
    let m = p.match_at("ab", None).unwrap();
    assert_eq!(m.lastgroup, Some(String::from("second")));
    let m = p.match_at("a", None).unwrap();
    assert_eq!(m.lastgroup, Some(String::from("first")));
    // Unnamed groups are skipped.
    let p = compile("(?P<first>a)(b)?", 0).unwrap();
    let m = p.match_at("ab", None).unwrap();
    assert_eq!(m.lastgroup, Some(String::from("first")));
    let p = compile("(a)(b)", 0).unwrap();
    let m = p.match_at("ab", None).unwrap();
    assert_eq!(m.lastgroup, None);
}

#[test]
fn match_accessors_and_repr() {
    let p = compile("l+", 0).unwrap();
    let m = p.match_at("héllo", Some(2)).unwrap();
    assert_eq!(m.end(), 4);
    assert_eq!(m.endpos, 4);
    assert_eq!(m.pos, 2);
    assert_eq!(m.string, "ll");
    assert_eq!(m.re.as_source(), "l+");
    assert_eq!(m.repr(), "<regexrs.Match object; span=(2, 4), match=\"ll\">");
}
