//! Match values and lazy group extraction.
//!
//! A `Match` is an immutable snapshot of one successful match: the exact
//! matched substring, the owning pattern (captured by value, so the match
//! outlives the originating call), the codepoint span, and the name of the
//! last-matched named group.  Group extraction is not cached at match time:
//! every call re-derives the captures by re-running the owning pattern's
//! engine over the stored substring alone.

use vstd::prelude::*;

use crate::engine::caps_at_spec;
use crate::offsets::{cp_of_byte, lemma_encode_prefix};
use crate::pattern::{MatchModel, Pattern};
use crate::strfmt::{dec_rep, quote_str, quoted_spec, usize_to_string};
use crate::RegexError;
use vstd::string::StringExecFns;

verus! {

/// The textual representation of a match: its codepoint span and the quoted
/// matched text.
pub open spec fn match_repr(m: MatchModel) -> Seq<char> {
    "<regexrs.Match object; span=("@ + dec_rep(m.pos as nat) + ", "@ + dec_rep(m.endpos as nat)
        + "), match="@ + quoted_spec(m.string) + ">"@
}

/// One successful match of a pattern in a text.
pub struct Match {
    /// The exact matched substring.
    pub string: String,
    /// The pattern that produced this match.
    pub re: Pattern,
    /// Codepoint offset in the original text where the match starts.
    pub pos: usize,
    /// Codepoint offset in the original text where the match ends
    /// (exclusive).
    pub endpos: usize,
    /// Name of the last-matched named group, if any.
    pub lastgroup: Option<String>,
}

impl Match {
    /// The spec-level view of this match.
    pub open spec fn model(&self) -> MatchModel {
        MatchModel {
            string: self.string@,
            pos: self.pos as int,
            endpos: self.endpos as int,
            lastgroup: self.lastgroup.deep_view(),
        }
    }
}

/// The captured text of each group when the captures are re-derived by
/// matching `source` against `text` (the stored substring) from its start:
/// `None` when that re-derivation finds no match at all, otherwise one
/// optional substring per group, the whole match at index 0.
pub open spec fn derived_caps(source: Seq<char>, text: Seq<char>) -> Option<
    Seq<Option<Seq<char>>>,
> {
    match caps_at_spec(source, text, 0) {
        Option::None => Option::None,
        Option::Some(spans) => Option::Some(
            Seq::new(
                spans.len(),
                |i: int|
                    match spans[i] {
                        Option::None => Option::None,
                        Option::Some(se) => Option::Some(
                            text.subrange(
                                cp_of_byte(text, se.0 as int),
                                cp_of_byte(text, se.1 as int),
                            ),
                        ),
                    },
            ),
        ),
    }
}

/// The captured text of group `i`, with the "no value" marker for a group
/// index that is out of range.
pub open spec fn group_lookup(caps: Seq<Option<Seq<char>>>, i: int) -> Option<Seq<char>> {
    if 0 <= i < caps.len() {
        caps[i]
    } else {
        None
    }
}

/// A group request's reply: a single value, or a tuple of values aligned to
/// the requested indices.
pub enum GroupReply {
    One(Option<String>),
    Many(Vec<Option<String>>),
}

/// The spec-level counterpart of `GroupReply`.
pub enum GroupModel {
    One(Option<Seq<char>>),
    Many(Seq<Option<Seq<char>>>),
}

/// What `group` yields for a pattern source, a stored substring and a
/// sequence of requested indices: the "no match" error when re-derivation
/// finds no match, the whole match (group 0) for an empty request, a single
/// value for one index, and an aligned tuple for several.
pub open spec fn group_model(source: Seq<char>, text: Seq<char>, indices: Seq<usize>) -> Option<
    GroupModel,
> {
    match derived_caps(source, text) {
        Option::None => Option::None,
        Option::Some(caps) => Option::Some(
            if indices.len() == 0 {
                GroupModel::One(group_lookup(caps, 0))
            } else if indices.len() == 1 {
                GroupModel::One(group_lookup(caps, indices[0] as int))
            } else {
                GroupModel::Many(
                    Seq::new(indices.len(), |i: int| group_lookup(caps, indices[i] as int)),
                )
            },
        ),
    }
}

/// How an exec reply realises a spec reply.
pub open spec fn reply_matches(r: GroupReply, m: GroupModel) -> bool {
    match (r, m) {
        (GroupReply::One(v), GroupModel::One(vm)) => v.deep_view() == vm,
        (GroupReply::Many(vs), GroupModel::Many(vms)) => vs.deep_view() == vms,
        _ => false,
    }
}

/// What `groups` yields: all user-defined groups (excluding the whole match
/// at index 0) in declaration order, or the "no match" error.
pub open spec fn groups_model(source: Seq<char>, text: Seq<char>) -> Option<
    Seq<Option<Seq<char>>>,
> {
    match derived_caps(source, text) {
        Option::None => Option::None,
        Option::Some(caps) => Option::Some(caps.skip(1)),
    }
}

/// A group request with no arguments asks for the same thing as a request
/// for group 0: both yield the whole matched text of the re-derivation.
pub proof fn lemma_group_default_is_group_zero(source: Seq<char>, text: Seq<char>)
    ensures
        group_model(source, text, Seq::<usize>::empty()) == group_model(
            source,
            text,
            seq![0usize],
        ),
{
}

/// Group extraction is idempotent: its outcome is a function of the owning
/// pattern's source and the stored substring alone, so two reads of the
/// groups of the same match see the same values.
pub proof fn lemma_groups_idempotent(
    source: Seq<char>,
    text: Seq<char>,
    r1: Option<Seq<Option<Seq<char>>>>,
    r2: Option<Seq<Option<Seq<char>>>>,
)
    requires
        r1 == groups_model(source, text),
        r2 == groups_model(source, text),
    ensures
        r1 == r2,
{
}

impl Match {
    /// With no indices, the whole match (group 0); with one index, that
    /// group's captured text or the "no value" marker; with several, an
    /// aligned tuple of the same.  Fails with the "no match" error when
    /// re-deriving captures against the stored substring finds no match.
    pub fn group(&self, indices: &Vec<usize>) -> (r: Result<GroupReply, RegexError>)
        ensures
            (r is Ok) == (group_model(self.re.source_spec(), self.string@, indices@) is Some),
            r matches Ok(g) ==> reply_matches(
                g,
                group_model(self.re.source_spec(), self.string@, indices@).unwrap(),
            ),
            r matches Err(e) ==> e is NoMatch,
    {
        let ghost src = self.re.source_spec();
        let ghost txt = self.string@;
        proof {
            lemma_encode_prefix(txt, 0);
        }
        let caps = match self.re.captures_raw(self.string.as_str(), 0) {
            Some(c) => c,
            None => {
                return Err(RegexError::NoMatch);
            },
        };
        proof {
            lemma_caps_texts_are_derived(src, txt, caps.spans@, caps.texts@);
        }
        if indices.len() == 0 {
            let v = clone_opt_string(&caps.texts[0]);
            Ok(GroupReply::One(v))
        } else if indices.len() == 1 {
            let v = lookup_clone(&caps.texts, indices[0]);
            Ok(GroupReply::One(v))
        } else {
            let mut out: Vec<Option<String>> = Vec::new();
            let ghost caps_model = derived_caps(src, txt).unwrap();
            for i in it: 0..indices.len()
                invariant
                    it.seq().len() == indices@.len(),
                    out@.len() == it.index(),
                    caps.texts.deep_view() == caps_model,
                    derived_caps(src, txt) == Option::Some(caps_model),
                    forall|j: int|
                        0 <= j < it.index() ==> #[trigger] out.deep_view()[j] == group_lookup(
                            caps_model,
                            indices@[j] as int,
                        ),
                    forall|j: int|
                        0 <= j < out@.len() ==> #[trigger] out.deep_view()[j] == out@[
                            j
                        ].deep_view(),
            {
                let v = lookup_clone(&caps.texts, indices[i]);
                let ghost prev = out.deep_view();
                out.push(v);
                proof {
                    assert(out.deep_view() =~= prev.push(v.deep_view()));
                }
            }
            proof {
                assert(out.deep_view() =~= Seq::new(
                    indices@.len(),
                    |i: int| group_lookup(caps_model, indices@[i] as int),
                ));
            }
            Ok(GroupReply::Many(out))
        }
    }

    /// All user-defined groups in declaration order, each its captured text
    /// or the "no value" marker.  Fails with the "no match" error when
    /// re-deriving captures against the stored substring finds no match.
    pub fn groups(&self) -> (r: Result<Vec<Option<String>>, RegexError>)
        ensures
            (r is Ok) == (groups_model(self.re.source_spec(), self.string@) is Some),
            r matches Ok(v) ==> v.deep_view() == groups_model(
                self.re.source_spec(),
                self.string@,
            ).unwrap(),
            r matches Err(e) ==> e is NoMatch,
    {
        let ghost src = self.re.source_spec();
        let ghost txt = self.string@;
        proof {
            lemma_encode_prefix(txt, 0);
        }
        let caps = match self.re.captures_raw(self.string.as_str(), 0) {
            Some(c) => c,
            None => {
                return Err(RegexError::NoMatch);
            },
        };
        proof {
            lemma_caps_texts_are_derived(src, txt, caps.spans@, caps.texts@);
        }
        let ghost caps_model = derived_caps(src, txt).unwrap();
        let mut out: Vec<Option<String>> = Vec::new();
        let n = caps.texts.len();
        for i in it: 1..n
            invariant
                n == caps.texts@.len(),
                n >= 1,
                out@.len() == it.index(),
                caps.texts.deep_view() == caps_model,
                derived_caps(src, txt) == Option::Some(caps_model),
                forall|j: int|
                    0 <= j < it.index() ==> #[trigger] out.deep_view()[j] == caps_model[j + 1],
                forall|j: int|
                    0 <= j < out@.len() ==> #[trigger] out.deep_view()[j] == out@[j].deep_view(),
        {
            let v = clone_opt_string(&caps.texts[i]);
            let ghost prev = out.deep_view();
            out.push(v);
            proof {
                assert(out.deep_view() =~= prev.push(v.deep_view()));
            }
        }
        proof {
            assert(out.deep_view() =~= caps_model.skip(1));
        }
        Ok(out)
    }

    /// The textual representation: the codepoint span and the quoted
    /// matched text.
    pub fn repr(&self) -> (r: String)
        ensures
            r@ == match_repr(self.model()),
    {
        proof {
            reveal_strlit("<regexrs.Match object; span=(");
            reveal_strlit(", ");
            reveal_strlit("), match=");
            reveal_strlit(">");
        }
        let mut s = String::from_str("<regexrs.Match object; span=(");
        let p = usize_to_string(self.pos);
        s.append(p.as_str());
        s.append(", ");
        let e = usize_to_string(self.endpos);
        s.append(e.as_str());
        s.append("), match=");
        let q = quote_str(self.string.as_str());
        s.append(q.as_str());
        s.append(">");
        proof {
            assert(s@ =~= match_repr(self.model()));
        }
        s
    }

    /// The stored end codepoint offset of the match.
    pub fn end(&self) -> (r: usize)
        ensures
            r as int == self.model().endpos,
    {
        self.endpos
    }
}

/// The engine capture result realises the re-derivation model: each group's
/// reported substring is the captured text the model assigns to it.
proof fn lemma_caps_texts_are_derived(
    source: Seq<char>,
    text: Seq<char>,
    spans: Seq<Option<(usize, usize)>>,
    texts: Seq<Option<String>>,
)
    requires
        caps_at_spec(source, text, 0) == Option::Some(spans),
        texts.len() == spans.len(),
        forall|i: int|
            0 <= i < spans.len() ==> crate::pattern::span_text(
                text,
                spans[i],
                #[trigger] texts[i],
            ),
    ensures
        derived_caps(source, text) matches Some(caps) && caps.len() == texts.len() && forall|
            i: int,
        |
            0 <= i < texts.len() ==> #[trigger] texts[i].deep_view() == caps[i],
{
    let caps = derived_caps(source, text).unwrap();
    assert forall|i: int| 0 <= i < texts.len() implies #[trigger] texts[i].deep_view()
        == caps[i] by {
        assert(crate::pattern::span_text(text, spans[i], texts[i]));
    }
}

/// A cloned copy of one optional captured substring.
fn clone_opt_string(v: &Option<String>) -> (r: Option<String>)
    ensures
        r.deep_view() == v.deep_view(),
{
    match v {
        Some(s) => Some(s.clone()),
        None => None,
    }
}

/// The captured text of group `i`, cloned, with the "no value" marker for
/// an index that is out of range.
fn lookup_clone(texts: &Vec<Option<String>>, i: usize) -> (r: Option<String>)
    ensures
        r.deep_view() == group_lookup(texts.deep_view(), i as int),
{
    if i < texts.len() {
        clone_opt_string(&texts[i])
    } else {
        None
    }
}

} // verus!
