//! The `Embeddable` capability: a contract through which a domain type
//! exposes the ordered text fragments that should each be turned into one
//! embedding vector.
//!
//! Implementations are provided for the primitive scalar types, for
//! `serde_json::Value` (canonical serialized form) and for homogeneous
//! sequences of embeddable values (flattened in order, failing fast).

use vstd::prelude::*;

use crate::decimal::dec_str;
use crate::decimal::decimal_string;
use crate::one_or_many::merged_view;
use crate::one_or_many::OneOrMany;

verus! {

#[verifier::external_type_specification]
#[verifier::external_body]
pub struct ExValue(serde_json::Value);

#[verifier::external_type_specification]
#[verifier::external_body]
pub struct ExJsonError(serde_json::Error);

/// The canonical JSON text of a structured value, or `None` when the value
/// cannot be serialized. The text is a function of the value alone.
pub uninterp spec fn json_text(v: serde_json::Value) -> Option<Seq<char>>;

/// Relies on `serde_json::to_string`: the canonical JSON text of the value,
/// a function of the value alone; `Err` exactly when serialization fails.
#[verifier::external_body]
fn to_json_string(v: &serde_json::Value) -> (r: Result<String, serde_json::Error>)
    ensures
        r matches Ok(s) ==> json_text(*v) matches Some(t) && s@ == t,
        r is Err ==> json_text(*v) is None,
{
    serde_json::to_string(v)
}

/// Relies on `String::push`: appends exactly the given character.
#[verifier::external_body]
fn push_char(s: &mut String, c: char)
    ensures
        final(s)@ == old(s)@.push(c),
{
    s.push(c)
}

/// Error returned by the built-in `Embeddable` implementations.
#[derive(Debug)]
pub enum EmbeddableError {
    /// A structured value could not be rendered to text; carries the
    /// underlying serialization failure.
    SerializationError(serde_json::Error),
}

/// The capability contract: a type exposes the ordered, discrete text
/// fragments that must each be mapped to exactly one embedding vector.
///
/// `embed_spec` pins the exact fragments (or the failure) at the
/// specification level; `embeddable` computes them. Callers must preserve
/// the fragment order end-to-end, since position is the only correlation key
/// between a fragment and its resulting vector.
pub trait Embeddable {
    type Error;

    /// Whether this value may be asked for its fragments.
    spec fn embed_ready(&self) -> bool;

    /// The fragments this value embeds to, in order, or `None` when
    /// embedding fails.
    spec fn embed_spec(&self) -> Option<Seq<Seq<char>>>;

    /// The ordered text fragments of this value, or this implementer's
    /// failure kind when they cannot be produced.
    fn embeddable(&self) -> (r: Result<OneOrMany<String>, Self::Error>)
        requires
            self.embed_ready(),
        ensures
            r is Ok <==> self.embed_spec() is Some,
            r matches Ok(c) ==> c.deep_view() == self.embed_spec()->Some_0,
    ;
}

/// Whether every element of the sequence embeds successfully.
pub open spec fn seq_embed_ok<T: Embeddable>(s: Seq<T>) -> bool {
    forall|i: int| 0 <= i < s.len() ==> (#[trigger] s[i].embed_spec()) is Some
}

/// The fragments of a sequence of embeddable values: each element's
/// fragments in the element's own order, elements concatenated in sequence
/// order.
pub open spec fn seq_frags<T: Embeddable>(s: Seq<T>) -> Seq<Seq<char>>
    decreases s.len(),
{
    if s.len() == 0 {
        Seq::empty()
    } else {
        (s[0].embed_spec()->Some_0) + seq_frags(s.drop_first())
    }
}

/// A one-element collection, with its deep view pinned.
fn single_string(s: String) -> (c: OneOrMany<String>)
    ensures
        c.deep_view() == seq![s@],
{
    let ghost v = s@;
    let c = OneOrMany::from_single(s);
    proof {
        assert(c.deep_view() =~= seq![v]);
    }
    c
}

impl Embeddable for String {
    type Error = EmbeddableError;

    open spec fn embed_ready(&self) -> bool {
        true
    }

    open spec fn embed_spec(&self) -> Option<Seq<Seq<char>>> {
        Some(seq![self@])
    }

    fn embeddable(&self) -> (r: Result<OneOrMany<String>, EmbeddableError>) {
        Ok(single_string(self.clone()))
    }
}

impl Embeddable for bool {
    type Error = EmbeddableError;

    open spec fn embed_ready(&self) -> bool {
        true
    }

    open spec fn embed_spec(&self) -> Option<Seq<Seq<char>>> {
        Some(seq![if *self { "true"@ } else { "false"@ }])
    }

    fn embeddable(&self) -> (r: Result<OneOrMany<String>, EmbeddableError>) {
        if *self {
            Ok(single_string("true".to_owned()))
        } else {
            Ok(single_string("false".to_owned()))
        }
    }
}

impl Embeddable for char {
    type Error = EmbeddableError;

    open spec fn embed_ready(&self) -> bool {
        true
    }

    open spec fn embed_spec(&self) -> Option<Seq<Seq<char>>> {
        Some(seq![seq![*self]])
    }

    fn embeddable(&self) -> (r: Result<OneOrMany<String>, EmbeddableError>) {
        let mut s = String::new();
        push_char(&mut s, *self);
        proof {
            assert(s@ =~= seq![*self]);
        }
        Ok(single_string(s))
    }
}

impl Embeddable for i8 {
    type Error = EmbeddableError;

    open spec fn embed_ready(&self) -> bool {
        true
    }

    open spec fn embed_spec(&self) -> Option<Seq<Seq<char>>> {
        Some(seq![dec_str(*self as int)])
    }

    fn embeddable(&self) -> (r: Result<OneOrMany<String>, EmbeddableError>) {
        Ok(single_string(decimal_string(*self as i128)))
    }
}

impl Embeddable for i16 {
    type Error = EmbeddableError;

    open spec fn embed_ready(&self) -> bool {
        true
    }

    open spec fn embed_spec(&self) -> Option<Seq<Seq<char>>> {
        Some(seq![dec_str(*self as int)])
    }

    fn embeddable(&self) -> (r: Result<OneOrMany<String>, EmbeddableError>) {
        Ok(single_string(decimal_string(*self as i128)))
    }
}

impl Embeddable for i32 {
    type Error = EmbeddableError;

    open spec fn embed_ready(&self) -> bool {
        true
    }

    open spec fn embed_spec(&self) -> Option<Seq<Seq<char>>> {
        Some(seq![dec_str(*self as int)])
    }

    fn embeddable(&self) -> (r: Result<OneOrMany<String>, EmbeddableError>) {
        Ok(single_string(decimal_string(*self as i128)))
    }
}

impl Embeddable for i64 {
    type Error = EmbeddableError;

    open spec fn embed_ready(&self) -> bool {
        true
    }

    open spec fn embed_spec(&self) -> Option<Seq<Seq<char>>> {
        Some(seq![dec_str(*self as int)])
    }

    fn embeddable(&self) -> (r: Result<OneOrMany<String>, EmbeddableError>) {
        Ok(single_string(decimal_string(*self as i128)))
    }
}

impl Embeddable for i128 {
    type Error = EmbeddableError;

    open spec fn embed_ready(&self) -> bool {
        true
    }

    open spec fn embed_spec(&self) -> Option<Seq<Seq<char>>> {
        Some(seq![dec_str(*self as int)])
    }

    fn embeddable(&self) -> (r: Result<OneOrMany<String>, EmbeddableError>) {
        Ok(single_string(decimal_string(*self)))
    }
}

impl Embeddable for serde_json::Value {
    type Error = EmbeddableError;

    open spec fn embed_ready(&self) -> bool {
        true
    }

    open spec fn embed_spec(&self) -> Option<Seq<Seq<char>>> {
        match json_text(*self) {
            Some(t) => Some(seq![t]),
            None => None,
        }
    }

    fn embeddable(&self) -> (r: Result<OneOrMany<String>, EmbeddableError>) {
        match to_json_string(self) {
            Ok(s) => Ok(single_string(s)),
            Err(e) => Err(EmbeddableError::SerializationError(e)),
        }
    }
}

/// The fragments of the flattened collection are exactly the concatenated
/// per-element fragments, position by position.
proof fn lemma_seq_frags_merge<T: Embeddable>(parts: Seq<OneOrMany<String>>, s: Seq<T>)
    requires
        parts.len() == s.len(),
        forall|j: int| 0 <= j < s.len() ==> (#[trigger] s[j].embed_spec()) is Some,
        forall|j: int| 0 <= j < s.len() ==> (#[trigger] parts[j].deep_view())
            == s[j].embed_spec()->Some_0,
    ensures
        seq_frags(s).len() == merged_view(parts).len(),
        forall|i: int| 0 <= i < seq_frags(s).len() ==> seq_frags(s)[i] == (
        #[trigger] merged_view(parts)[i])@,
    decreases s.len(),
{
    if s.len() > 0 {
        assert(parts[0].deep_view() == s[0].embed_spec()->Some_0);
        assert(parts[0].deep_view().len() == parts[0]@.len());
        lemma_seq_frags_merge(parts.drop_first(), s.drop_first());
        assert forall|i: int| 0 <= i < seq_frags(s).len() implies seq_frags(s)[i] == (
        #[trigger] merged_view(parts)[i])@ by {
            let head = s[0].embed_spec()->Some_0;
            if i < head.len() {
                assert(parts[0].deep_view()[i] == parts[0]@[i]@);
            } else {
                assert(seq_frags(s.drop_first())[i - head.len()] == merged_view(
                    parts.drop_first(),
                )[i - head.len()]@);
            }
        }
    }
}

impl<T: Embeddable> Embeddable for Vec<T> {
    type Error = T::Error;

    open spec fn embed_ready(&self) -> bool {
        self@.len() > 0 && (forall|i: int|
            0 <= i < self@.len() ==> (#[trigger] self@[i]).embed_ready())
    }

    open spec fn embed_spec(&self) -> Option<Seq<Seq<char>>> {
        if seq_embed_ok(self@) {
            Some(seq_frags(self@))
        } else {
            None
        }
    }

    fn embeddable(&self) -> (r: Result<OneOrMany<String>, T::Error>) {
        let mut parts: Vec<OneOrMany<String>> = Vec::new();
        let mut i: usize = 0;
        while i < self.len()
            invariant
                i <= self@.len(),
                self.embed_ready(),
                parts@.len() == i,
                forall|j: int| 0 <= j < i ==> (#[trigger] self@[j].embed_spec()) is Some,
                forall|j: int| 0 <= j < i ==> (#[trigger] parts@[j].deep_view())
                    == self@[j].embed_spec()->Some_0,
            decreases self@.len() - i,
        {
            let item = &self[i];
            match item.embeddable() {
                Ok(c) => parts.push(c),
                Err(e) => {
                    proof {
                        assert(self@[i as int].embed_spec() is None);
                        assert(!seq_embed_ok(self@));
                    }
                    return Err(e);
                },
            }
            i += 1;
        }
        let merged = OneOrMany::merge_all(parts);
        proof {
            assert(seq_embed_ok(self@));
            lemma_seq_frags_merge(parts@, self@);
            assert(merged.deep_view() =~= seq_frags(self@));
        }
        Ok(merged)
    }
}

} // verus!
