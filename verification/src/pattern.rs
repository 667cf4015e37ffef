//! Compiled patterns and the anchored match operation.
//!
//! A `Pattern` owns one compiled engine instance together with the
//! (possibly flag-adjusted) source it was compiled from; the private `regex`
//! field is always the compiled form of the private `source` field, which is
//! what lets the trusted wrappers state the engine's results as functions of
//! `source_spec()` alone.  `match_at` performs the anchored
//! match-at-codepoint-position operation: it accepts the engine's match only
//! when it begins exactly at the requested position, and translates the byte
//! span the engine reports back into codepoint offsets.

use vstd::prelude::*;

use crate::engine::{cap_names_spec, caps_at_spec, findall_spec, regex_compiles, regex_error_text};
use crate::matched::Match;
use crate::offsets::{
    boundary, byte_len, byte_of_cp, cp_of_byte, get_byte_to_code_point_and_reverse,
    lemma_boundary_byte_of_cp, lemma_byte_of_cp_boundary, lemma_byte_of_cp_mono,
    lemma_encode_prefix,
};
use crate::strfmt::{quote_str, quoted_spec};
use crate::RegexError;
use vstd::string::StringExecFns;

verus! {

/// The textual representation of a pattern: a call expression embedding the
/// quoted pattern source.
pub open spec fn pattern_repr(source: Seq<char>) -> Seq<char> {
    "regexrs.compile("@ + quoted_spec(source) + ")"@
}

/// An immutable value wrapping one compiled engine instance plus the source
/// text used to produce it.
pub struct Pattern {
    regex: regex::Regex,
    source: String,
}

/// One engine capture result, converted to plain values: the optional byte
/// span and the optional matched substring of each capture group, with the
/// whole match at index 0.
pub(crate) struct EngineCaps {
    pub spans: Vec<Option<(usize, usize)>>,
    pub texts: Vec<Option<String>>,
}

/// Conditions the engine guarantees of every reported byte span: its ends
/// are ordered, lie within the encoded text, and fall on codepoint
/// boundaries.
pub open spec fn span_ok(text: Seq<char>, sp: Option<(usize, usize)>) -> bool {
    sp matches Some(se) ==> {
        &&& se.0 <= se.1 <= byte_len(text)
        &&& boundary(text, se.0 as int)
        &&& boundary(text, se.1 as int)
    }
}

/// The substring reported for a span is the text between the span's
/// codepoint offsets; a substring is reported exactly for the groups that
/// participated.
pub open spec fn span_text(text: Seq<char>, sp: Option<(usize, usize)>, t: Option<String>) -> bool {
    &&& (t is Some <==> sp is Some)
    &&& (sp matches Some(se) ==> t matches Some(ts) && ts@ == text.subrange(
        cp_of_byte(text, se.0 as int),
        cp_of_byte(text, se.1 as int),
    ))
}

/// The name, if any, of the last group in declaration order that has a name
/// and participated in the match described by `spans`.
pub open spec fn last_group(
    names: Seq<Option<Seq<char>>>,
    spans: Seq<Option<(usize, usize)>>,
) -> Option<Seq<char>>
    decreases names.len(),
{
    if names.len() == 0 {
        None
    } else if names.last() is Some && names.len() <= spans.len() && spans[names.len() - 1]
        is Some {
        names.last()
    } else {
        last_group(names.drop_last(), spans)
    }
}

/// A successful match, at the spec level: the matched text, its codepoint
/// span, and the name of the last-matched named group.
#[verifier::ext_equal]
pub struct MatchModel {
    pub string: Seq<char>,
    pub pos: int,
    pub endpos: int,
    pub lastgroup: Option<Seq<char>>,
}

/// What the anchored match-at-position operation yields for a pattern
/// source, a text and a starting codepoint offset: nothing on empty text;
/// otherwise the engine's leftmost match at or after the translated byte
/// offset, accepted only if it begins exactly there, with its byte span
/// translated back to codepoint offsets.
pub open spec fn match_model(source: Seq<char>, text: Seq<char>, pos: int) -> Option<MatchModel> {
    if text.len() == 0 {
        None
    } else {
        let p = byte_of_cp(text, pos);
        match caps_at_spec(source, text, p) {
            Option::None => Option::None,
            Option::Some(spans) => {
                if spans.len() == 0 {
                    Option::None
                } else {
                    match spans[0] {
                        Option::None => Option::None,
                        Option::Some(se0) => {
                            if se0.0 as int == p {
                                Option::Some(
                                    MatchModel {
                                        string: text.subrange(pos, cp_of_byte(text, se0.1 as int)),
                                        pos: pos,
                                        endpos: cp_of_byte(text, se0.1 as int),
                                        lastgroup: last_group(cap_names_spec(source), spans),
                                    },
                                )
                            } else {
                                Option::None
                            }
                        },
                    }
                }
            },
        }
    }
}

/// How an optional `Match` value relates to the match model for `source`,
/// `text` and `pos`.
pub open spec fn match_opt_ok(
    opt: Option<Match>,
    source: Seq<char>,
    text: Seq<char>,
    pos: int,
) -> bool {
    &&& (opt is Some <==> match_model(source, text, pos) is Some)
    &&& (opt matches Some(m) ==> m.model() == match_model(source, text, pos).unwrap()
        && m.re.source_spec() == source)
}

/// The starting codepoint offset of a match call: the given position, or 0
/// when none was given.
pub open spec fn pos_or_zero(pos: Option<usize>) -> int {
    match pos {
        Option::Some(k) => k as int,
        Option::None => 0,
    }
}

/// Anchoring: whenever the engine's leftmost match at or after the requested
/// position does not begin exactly there, the anchored match rejects it and
/// yields no match, even though a match exists further right.
pub proof fn lemma_match_anchored(source: Seq<char>, text: Seq<char>, pos: int)
    requires
        caps_at_spec(source, text, byte_of_cp(text, pos)) matches Some(spans) && (spans.len() > 0
            && (spans[0] matches Some(se0) && se0.0 as int != byte_of_cp(text, pos))),
    ensures
        match_model(source, text, pos) is None,
{
}

/// An empty input text yields no match, whatever the pattern and position.
pub proof fn lemma_empty_text_no_match(source: Seq<char>, pos: int)
    ensures
        match_model(source, Seq::<char>::empty(), pos) is None,
{
}

impl Pattern {
    /// The engine pattern source this value was compiled from.
    pub closed spec fn source_spec(&self) -> Seq<char> {
        self.source@
    }

    /// The pattern source, as text.
    pub fn as_source(&self) -> (r: &str)
        ensures
            r@ == self.source_spec(),
    {
        self.source.as_str()
    }

    /// Relies on `regex::Regex::new`: it succeeds exactly on the pattern
    /// sources the engine accepts, and the compiled value matches per the
    /// source it was built from.
    #[verifier::external_body]
    fn regex_new_pattern(source: &str) -> (r: Result<Pattern, regex::Error>)
        ensures
            (r is Ok) == regex_compiles(source@),
            r matches Ok(p) ==> p.source_spec() == source@,
    {
        match regex::Regex::new(source) {
            Ok(regex) => Ok(Pattern { regex, source: source.to_string() }),
            Err(e) => Err(e),
        }
    }

    /// Compiles `pattern` as the engine-native source, reporting the
    /// engine's rejection as a pattern-syntax error.
    pub fn new(pattern: &str) -> (r: Result<Pattern, RegexError>)
        ensures
            (r is Ok) == regex_compiles(pattern@),
            r matches Ok(p) ==> p.source_spec() == pattern@,
            r matches Err(e) ==> e is Syntax,
    {
        match Self::regex_new_pattern(pattern) {
            Ok(p) => Ok(p),
            Err(e) => Err(RegexError::Syntax(regex_error_text(&e))),
        }
    }

    /// Relies on `regex::Regex::clone`: cloning shares the same immutable
    /// compiled engine, so the copy stands for the same source.
    #[verifier::external_body]
    pub fn duplicate(&self) -> (r: Pattern)
        ensures
            r.source_spec() == self.source_spec(),
    {
        Pattern { regex: self.regex.clone(), source: self.source.clone() }
    }

    /// Relies on `regex::Regex::captures_at`: it reports the capture spans
    /// of the leftmost match beginning at or after `start` (a deterministic
    /// function of the pattern source, the text and `start`, here named
    /// `caps_at_spec`); the whole match is at index 0 and always
    /// participates; there is one span per capture group of the pattern; all
    /// spans are byte spans within the text falling on UTF-8 codepoint
    /// boundaries; each group's substring is the text of its span.  Panics
    /// only when `start` exceeds the text's byte length, which the
    /// precondition excludes.
    #[verifier::external_body]
    pub(crate) fn captures_raw(&self, text: &str, start: usize) -> (r: Option<EngineCaps>)
        requires
            start as int <= byte_len(text@),
        ensures
            (r is Some) == (caps_at_spec(self.source_spec(), text@, start as int) is Some),
            r matches Some(caps) ==> {
                &&& caps.spans@ == caps_at_spec(self.source_spec(), text@, start as int).unwrap()
                &&& caps.spans@.len() == cap_names_spec(self.source_spec()).len()
                &&& caps.spans@.len() >= 1
                &&& caps.spans@[0] matches Some(se0) && start <= se0.0
                &&& caps.texts@.len() == caps.spans@.len()
                &&& forall|i: int|
                    0 <= i < caps.spans@.len() ==> span_ok(text@, #[trigger] caps.spans@[i])
                &&& forall|i: int|
                    0 <= i < caps.spans@.len() ==> span_text(
                        text@,
                        caps.spans@[i],
                        #[trigger] caps.texts@[i],
                    )
            },
    {
        match self.regex.captures_at(text, start) {
            Some(caps) => {
                let spans = caps.iter().map(|m| m.map(|mm| (mm.start(), mm.end()))).collect();
                let texts = caps.iter().map(|m| m.map(|mm| mm.as_str().to_string())).collect();
                Some(EngineCaps { spans, texts })
            },
            None => None,
        }
    }

    /// Relies on `regex::Regex::capture_names`: it yields one entry per
    /// capture group in declaration order (a deterministic function of the
    /// pattern source, here named `cap_names_spec`), at least one entry, and
    /// the entry of the implicit whole-match group at index 0 is unnamed.
    #[verifier::external_body]
    pub(crate) fn capture_names_raw(&self) -> (r: Vec<Option<String>>)
        ensures
            r.deep_view() == cap_names_spec(self.source_spec()),
            r@.len() >= 1,
            r.deep_view()[0] is None,
    {
        self.regex.capture_names().map(|n| n.map(|s| s.to_string())).collect()
    }

    /// Relies on `regex::Regex::find_iter`: it yields the substrings of the
    /// successive non-overlapping leftmost matches, in order (a
    /// deterministic function of the pattern source and the text, here named
    /// `findall_spec`).
    #[verifier::external_body]
    fn find_all_raw(&self, text: &str) -> (r: Vec<String>)
        ensures
            r.deep_view() == findall_spec(self.source_spec(), text@),
    {
        self.regex.find_iter(text).map(|m| m.as_str().to_string()).collect()
    }

    /// Anchored match at a codepoint position: builds the offset index for
    /// `string`, asks the engine for the leftmost match at or after the
    /// translated byte offset, accepts it only when it begins exactly there,
    /// and packages it with codepoint offsets.  An empty input text always
    /// yields no match.
    pub fn match_at(&self, string: &str, pos: Option<usize>) -> (r: Option<Match>)
        requires
            pos matches Some(k) ==> k as int <= string@.len(),
        ensures
            match_opt_ok(r, self.source_spec(), string@, pos_or_zero(pos)),
            r matches Some(m) ==> m.pos <= m.endpos,
    {
        if string.is_empty() {
            return None;
        }
        let k: usize = match pos {
            Some(k) => k,
            None => 0,
        };
        let ghost s = string@;
        let (byte_to_code_point, code_point_to_byte) = get_byte_to_code_point_and_reverse(string);
        proof {
            lemma_byte_of_cp_mono(s, 0, k as int);
            lemma_byte_of_cp_mono(s, k as int, s.len() as int);
            lemma_byte_of_cp_boundary(s, k as int);
            lemma_encode_prefix(s, s.len() as int);
        }
        let p = code_point_to_byte[k];
        match self.captures_raw(string, p) {
            None => None,
            Some(caps) => {
                let sp0 = caps.spans[0];
                match sp0 {
                    Some((ms, me)) => {
                        if ms == p {
                            let names = self.capture_names_raw();
                            let lastgroup = last_group_exec(&names, &caps.spans);
                            let mstring = clone_opt_string_inner(&caps.texts[0]);
                            let mpos = byte_to_code_point[ms];
                            let mend = byte_to_code_point[me];
                            proof {
                                lemma_boundary_byte_of_cp(s, me as int);
                                crate::offsets::lemma_cp_of_byte_mono(s, ms as int, me as int);
                            }
                            let m = Match {
                                string: mstring,
                                re: self.duplicate(),
                                pos: mpos,
                                endpos: mend,
                                lastgroup: lastgroup,
                            };
                            proof {
                                assert(m.model() =~= match_model(
                                    self.source_spec(),
                                    s,
                                    pos_or_zero(pos),
                                ).unwrap());
                            }
                            Some(m)
                        } else {
                            None
                        }
                    },
                    None => None,
                }
            },
        }
    }

    /// The textual representation: a call expression embedding the quoted
    /// pattern source.
    pub fn repr(&self) -> (r: String)
        ensures
            r@ == pattern_repr(self.source_spec()),
    {
        proof {
            reveal_strlit("regexrs.compile(");
            reveal_strlit(")");
        }
        let mut s = String::from_str("regexrs.compile(");
        let q = quote_str(self.as_source());
        s.append(q.as_str());
        s.append(")");
        proof {
            assert(s@ =~= pattern_repr(self.source_spec()));
        }
        s
    }

    /// Global find: the substrings of all non-overlapping matches in
    /// `string`, in order found.
    pub fn findall(&self, string: &str) -> (r: Vec<String>)
        ensures
            r.deep_view() == findall_spec(self.source_spec(), string@),
    {
        self.find_all_raw(string)
    }
}

/// The stored substring of a participating group, cloned out of the engine
/// capture result; the empty string stands in for a group that did not
/// participate and is never read.
fn clone_opt_string_inner(v: &Option<String>) -> (r: String)
    ensures
        v matches Some(t) ==> r@ == t@,
{
    match v {
        Some(t) => t.clone(),
        None => String::new(),
    }
}

/// The name of the last named group, in declaration order, that
/// participated in the match described by `spans`.
fn last_group_exec(names: &Vec<Option<String>>, spans: &Vec<Option<(usize, usize)>>) -> (r: Option<
    String,
>)
    ensures
        r.deep_view() == last_group(names.deep_view(), spans@),
{
    let mut i: usize = names.len();
    proof {
        assert(names.deep_view().subrange(0, i as int) =~= names.deep_view());
    }
    while i > 0
        invariant
            0 <= i <= names@.len(),
            names@.len() == names.deep_view().len(),
            last_group(names.deep_view(), spans@) == last_group(
                names.deep_view().subrange(0, i as int),
                spans@,
            ),
            forall|j: int|
                0 <= j < names@.len() ==> #[trigger] names.deep_view()[j] == names@[j].deep_view(),
        decreases i,
    {
        let j = i - 1;
        let participates = j < spans.len() && spans[j].is_some();
        if names[j].is_some() && participates {
            proof {
                let prefix = names.deep_view().subrange(0, i as int);
                assert(prefix.last() == names.deep_view()[j as int]);
                assert(last_group(prefix, spans@) == prefix.last());
            }
            match &names[j] {
                Some(n) => {
                    return Some(n.clone());
                },
                None => {
                    return None;
                },
            }
        }
        proof {
            let prefix = names.deep_view().subrange(0, i as int);
            assert(prefix.drop_last() =~= names.deep_view().subrange(0, j as int));
        }
        i = j;
    }
    proof {
        assert(names.deep_view().subrange(0, 0) =~= Seq::<Option<Seq<char>>>::empty());
    }
    None
}

} // verus!
