//! Explicit curation commands and relationship predicates.

use vstd::prelude::*;

use crate::domain::model::{BridgeId, EventId, Provenance};
use crate::text::{
    chars_of, collapse, collapse_state, collapse_whitespace, contains_control, has_control, is_control_char,
    is_whitespace_char, string_from_chars,
};

verus! {

pub const MAX_PREDICATE_CHARS: usize = 96;

/// Relates two findings under a named predicate.
#[derive(Clone, Debug, PartialEq, Eq)]
pub struct RelateEvents {
    pub bridge_id: BridgeId,
    pub from: EventId,
    pub to: EventId,
    pub predicate: String,
    pub provenance: Provenance,
    pub expected_revision: u64,
}

/// Removes one relationship.
#[derive(Clone, Debug, PartialEq, Eq)]
pub struct DetachRelationship {
    pub bridge_id: BridgeId,
    pub expected_revision: u64,
}

/// The relationship that links a promoted artifact back to its source.
#[derive(Clone, Debug, PartialEq, Eq)]
pub struct PromotionRelation {
    pub bridge_id: BridgeId,
    pub predicate: String,
}

/// Turns a source artifact into a finding of its own.
#[derive(Clone, Debug, PartialEq, Eq)]
pub struct PromoteArtifact {
    pub source_event: EventId,
    pub artifact_url: String,
    pub promoted_id: EventId,
    pub date: String,
    pub relation: Option<PromotionRelation>,
    pub expected_revision: u64,
}

#[derive(Clone, Copy, Debug, PartialEq, Eq, Structural)]
pub enum CurationCommandError {
    EmptyPredicate,
    ControlCharacter,
    PredicateTooLong,
}

/// Typographic em and en dashes read as an ASCII hyphen.
pub open spec fn plain_dash(c: char) -> char {
    if c == '\u{2014}' || c == '\u{2013}' {
        '-'
    } else {
        c
    }
}

pub open spec fn plain_dashes(s: Seq<char>) -> Seq<char> {
    Seq::new(s.len(), |i: int| plain_dash(s[i]))
}

/// What a relationship predicate normalizes to: control characters are
/// refused; dashes are made plain and whitespace runs collapse to one space;
/// the result must be nonblank and at most 96 characters.
pub open spec fn predicate_normalization(value: Seq<char>) -> Result<Seq<char>, CurationCommandError> {
    if has_control(value) {
        Err(CurationCommandError::ControlCharacter)
    } else {
        let normalized = collapse_whitespace(plain_dashes(value));
        if normalized.len() == 0 {
            Err(CurationCommandError::EmptyPredicate)
        } else if normalized.len() > MAX_PREDICATE_CHARS {
            Err(CurationCommandError::PredicateTooLong)
        } else {
            Ok(normalized)
        }
    }
}

/// Collapses typographic dashes and whitespace without changing word case.
pub fn normalize_predicate(value: &str) -> (result: Result<String, CurationCommandError>)
    ensures
        match (result, predicate_normalization(value@)) {
            (Ok(s), Ok(t)) => s@ == t,
            (Err(e), Err(f)) => e == f,
            _ => false,
        },
{
    let chars = chars_of(value);
    if contains_control(&chars) {
        return Err(CurationCommandError::ControlCharacter);
    }
    let mut plain: Vec<char> = Vec::new();
    let mut i: usize = 0;
    while i < chars.len()
        invariant
            i <= chars.len(),
            plain@ == plain_dashes(chars@.take(i as int)),
        decreases chars.len() - i,
    {
        let c = chars[i];
        let d = if c == '\u{2014}' || c == '\u{2013}' {
            '-'
        } else {
            c
        };
        plain.push(d);
        i = i + 1;
        assert(plain@ =~= plain_dashes(chars@.take(i as int)));
    }
    assert(chars@.take(chars.len() as int) == chars@);
    let normalized = collapse(&plain);
    if normalized.len() == 0 {
        return Err(CurationCommandError::EmptyPredicate);
    }
    if normalized.len() > MAX_PREDICATE_CHARS {
        return Err(CurationCommandError::PredicateTooLong);
    }
    Ok(string_from_chars(&normalized))
}


/// Whitespace appears only as single spaces between other characters (a
/// trailing space is allowed).
pub open spec fn spaced(t: Seq<char>) -> bool {
    forall|i: int|
        0 <= i < t.len() && is_whitespace_char(#[trigger] t[i]) ==> t[i] == ' ' && i > 0 && t[i - 1] != ' '
}

/// Whitespace appears only as single spaces between words.
pub open spec fn canonical(t: Seq<char>) -> bool {
    spaced(t) && (t.len() > 0 ==> t.last() != ' ')
}

/// What collapsing produces: canonical text made of spaces and of the
/// characters of `s` that are not whitespace.
proof fn lemma_collapse_canonical(s: Seq<char>)
    ensures
        canonical(collapse_state(s).0),
        collapse_state(s).1 ==> collapse_state(s).0.len() > 0,
        forall|j: int|
            0 <= j < collapse_state(s).0.len() ==> (#[trigger] collapse_state(s).0[j] == ' ' || (
            !is_whitespace_char(collapse_state(s).0[j]) && s.contains(collapse_state(s).0[j]))),
    decreases s.len(),
{
    if s.len() > 0 {
        let u = s.drop_last();
        lemma_collapse_canonical(u);
        let (out, gap) = collapse_state(u);
        let c = s.last();
        assert forall|x: char| u.contains(x) implies s.contains(x) by {
            let k = choose|k: int| 0 <= k < u.len() && u[k] == x;
            assert(s[k] == x);
        }
        assert(s.contains(c)) by {
            assert(s[s.len() - 1] == c);
        }
        if is_whitespace_char(c) {
        } else if gap {
            let o = out.push(' ').push(c);
            assert(o[out.len() as int] == ' ');
            assert forall|j: int| 0 <= j < o.len() implies (#[trigger] o[j] == ' ' || (!is_whitespace_char(o[j])
                && s.contains(o[j]))) by {
                if j < out.len() {
                    assert(o[j] == out[j]);
                }
            }
            assert forall|i: int| 0 <= i < o.len() && is_whitespace_char(#[trigger] o[i]) implies o[i] == ' '
                && i > 0 && o[i - 1] != ' ' by {
                if i < out.len() {
                    assert(o[i] == out[i]);
                    assert(o[i - 1] == out[i - 1]);
                } else if i == out.len() {
                    assert(o[i - 1] == out.last());
                }
            }
        } else {
            let o = out.push(c);
            assert forall|j: int| 0 <= j < o.len() implies (#[trigger] o[j] == ' ' || (!is_whitespace_char(o[j])
                && s.contains(o[j]))) by {
                if j < out.len() {
                    assert(o[j] == out[j]);
                }
            }
            assert forall|i: int| 0 <= i < o.len() && is_whitespace_char(#[trigger] o[i]) implies o[i] == ' '
                && i > 0 && o[i - 1] != ' ' by {
                if i < out.len() {
                    assert(o[i] == out[i]);
                    assert(o[i - 1] == out[i - 1]);
                }
            }
        }
    }
}

/// Collapsing spaced text leaves it as it is, but for a trailing space.
proof fn lemma_collapse_spaced(t: Seq<char>)
    requires
        spaced(t),
    ensures
        collapse_state(t) == (if t.len() > 0 && t.last() == ' ' {
            (t.drop_last(), true)
        } else {
            (t, false)
        }),
    decreases t.len(),
{
    if t.len() > 0 {
        let u = t.drop_last();
        assert(spaced(u)) by {
            assert forall|i: int| 0 <= i < u.len() && is_whitespace_char(#[trigger] u[i]) implies u[i] == ' ' && i
                > 0 && u[i - 1] != ' ' by {
                assert(t[i] == u[i]);
                assert(t[i - 1] == u[i - 1]);
            }
        }
        lemma_collapse_spaced(u);
        let c = t.last();
        assert(t[t.len() - 1] == c);
        if is_whitespace_char(c) {
            assert(t.len() - 1 > 0);
            assert(u.last() == t[t.len() - 2]);
        } else if u.len() > 0 && u.last() == ' ' {
            assert(u.drop_last().push(' ').push(c) =~= t);
        } else {
            assert(u.push(c) =~= t);
        }
    }
}

/// Normalization law: a normalized predicate normalizes to itself.
pub proof fn law_predicate_normalization_is_idempotent(value: Seq<char>, normalized: Seq<char>)
    requires
        predicate_normalization(value) == Ok::<Seq<char>, CurationCommandError>(normalized),
    ensures
        predicate_normalization(normalized) == Ok::<Seq<char>, CurationCommandError>(normalized),
{
    let p = plain_dashes(value);
    let n = collapse_whitespace(p);
    lemma_collapse_canonical(p);
    assert(!is_whitespace_char('-') && !is_control_char('-') && !is_control_char(' ') && is_whitespace_char(' '));
    assert forall|j: int| 0 <= j < n.len() implies !is_control_char(#[trigger] n[j]) && plain_dash(n[j]) == n[j] by {
        if n[j] != ' ' {
            let k = choose|k: int| 0 <= k < p.len() && p[k] == n[j];
            assert(!is_control_char(value[k]));
        }
    }
    assert(!has_control(n));
    assert(plain_dashes(n) =~= n);
    lemma_collapse_spaced(n);
}

} // verus!
