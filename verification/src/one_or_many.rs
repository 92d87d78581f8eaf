//! An ordered container that is guaranteed to hold at least one element.
//!
//! A `OneOrMany<T>` is a designated `first` element followed by zero or more
//! `rest` elements. There is no representation of an empty collection, so the
//! length of its view is always at least one.

use vstd::prelude::*;

verus! {

/// Error returned when a collection is built or merged from zero elements.
#[derive(Clone, Copy, Debug, PartialEq, Eq, Structural)]
pub struct EmptyInputError;

/// An ordered, non-empty collection: one designated first element and the
/// remaining elements in their original order.
#[derive(Debug, PartialEq, Eq)]
pub struct OneOrMany<T> {
    first: T,
    rest: Vec<T>,
}

impl<T> View for OneOrMany<T> {
    type V = Seq<T>;

    closed spec fn view(&self) -> Seq<T> {
        seq![self.first] + self.rest@
    }
}

impl<T: DeepView> DeepView for OneOrMany<T> {
    type V = Seq<T::V>;

    open spec fn deep_view(&self) -> Seq<T::V> {
        self@.map_values(|t: T| t.deep_view())
    }
}

/// The concatenation of the contents of a sequence of collections, in order.
pub open spec fn merged_view<T>(cs: Seq<OneOrMany<T>>) -> Seq<T>
    decreases cs.len(),
{
    if cs.len() == 0 {
        Seq::empty()
    } else {
        cs[0]@ + merged_view(cs.drop_first())
    }
}

/// Law: no collection is empty; every view has length at least one.
pub proof fn lemma_nonempty<T>(c: &OneOrMany<T>)
    ensures
        c@.len() >= 1,
{
}

impl<T> OneOrMany<T> {
    /// Build a collection holding exactly one element.
    pub fn from_single(item: T) -> (r: OneOrMany<T>)
        ensures
            r@ == seq![item],
    {
        let r = OneOrMany { first: item, rest: Vec::new() };
        proof {
            assert(r@ =~= seq![r.first]);
        }
        r
    }

    /// Build a collection from a sequence of elements, keeping their order.
    /// Fails with `EmptyInputError` exactly when the sequence is empty.
    pub fn from_sequence(items: Vec<T>) -> (r: Result<OneOrMany<T>, EmptyInputError>)
        ensures
            r is Ok <==> items@.len() > 0,
            r matches Ok(c) ==> c@ == items@,
    {
        if items.is_empty() {
            Err(EmptyInputError)
        } else {
            let ghost orig = items@;
            let mut rest = items;
            let first = rest.remove(0);
            let c = OneOrMany { first, rest };
            proof {
                assert(c@ =~= orig);
            }
            Ok(c)
        }
    }

    /// Flatten a non-empty sequence of collections into one, concatenating
    /// their contents in the order the collections are given. Fails with
    /// `EmptyInputError` exactly when zero collections are given.
    pub fn merge(collections: Vec<OneOrMany<T>>) -> (r: Result<OneOrMany<T>, EmptyInputError>)
        ensures
            r is Ok <==> collections@.len() > 0,
            r matches Ok(c) ==> c@ == merged_view(collections@),
    {
        if collections.is_empty() {
            Err(EmptyInputError)
        } else {
            Ok(Self::merge_all(collections))
        }
    }

    /// Flatten a sequence of collections known to be non-empty.
    pub(crate) fn merge_all(collections: Vec<OneOrMany<T>>) -> (r: OneOrMany<T>)
        requires
            collections@.len() > 0,
        ensures
            r@ == merged_view(collections@),
    {
        let ghost orig = collections@;
        let mut cs = collections;
        let mut acc = cs.remove(0);
        proof {
            assert(orig.drop_first() =~= cs@);
        }
        while cs.len() > 0
            invariant
                acc@ + merged_view(cs@) == merged_view(orig),
            decreases cs@.len(),
        {
            let ghost before = cs@;
            let c = cs.remove(0);
            proof {
                assert(before.drop_first() =~= cs@);
            }
            acc.rest.push(c.first);
            let mut tail = c.rest;
            acc.rest.append(&mut tail);
            proof {
                assert(acc@ + merged_view(cs@) =~= merged_view(orig));
            }
        }
        proof {
            assert(merged_view(cs@) =~= Seq::<T>::empty());
            assert(acc@ =~= merged_view(orig));
        }
        acc
    }
}

/// Law: a clone of a `String` is that very string, so the copies handed out
/// by `first`, `rest` and `all` are the stored elements themselves.
pub proof fn lemma_cloned_string_eq(a: String, b: String)
    requires
        cloned(a, b),
    ensures
        a == b,
{
}

/// Law: for every non-empty sequence of strings, reading the collection back
/// with `all` after building it with `from_sequence` yields exactly the
/// original sequence, in the original order.
///
/// `c` stands for the collection `from_sequence(items)` returns and `a` for
/// the contents of `all()`, as their contracts describe them.
pub proof fn lemma_from_sequence_all_round_trip(
    items: Seq<String>,
    c: OneOrMany<String>,
    a: Seq<String>,
)
    requires
        c@ == items,
        a.len() == c@.len(),
        forall|i: int| 0 <= i < a.len() ==> cloned(c@[i], #[trigger] a[i]),
    ensures
        a == items,
{
    assert forall|i: int| 0 <= i < a.len() implies a[i] == items[i] by {
        lemma_cloned_string_eq(c@[i], a[i]);
    }
    assert(a =~= items);
}

/// Law: a collection built from a single string holds exactly that string:
/// `first` returns it and `rest` is empty.
///
/// `c` stands for `from_single(x)`, `f` for the result of `first()` and `r`
/// for the contents of `rest()`, as their contracts describe them.
pub proof fn lemma_from_single_first_rest(
    x: String,
    c: OneOrMany<String>,
    f: String,
    r: Seq<String>,
)
    requires
        c@ == seq![x],
        cloned(c@[0], f),
        r.len() == c@.len() - 1,
    ensures
        f == x,
        r == Seq::<String>::empty(),
{
    lemma_cloned_string_eq(c@[0], f);
    assert(r =~= Seq::<String>::empty());
}

/// Law: merging two collections concatenates their contents, in order.
pub proof fn lemma_merge_pair_concat<T>(c1: OneOrMany<T>, c2: OneOrMany<T>)
    ensures
        merged_view(seq![c1, c2]) == c1@ + c2@,
{
    let cs = seq![c1, c2];
    assert(cs.drop_first() =~= seq![c2]);
    assert(seq![c2].drop_first() =~= Seq::<OneOrMany<T>>::empty());
    assert(merged_view(Seq::<OneOrMany<T>>::empty()) == Seq::<T>::empty());
    assert(merged_view(seq![c2]) =~= c2@);
    assert(merged_view(cs) =~= c1@ + c2@);
}

/// Law: merge is associative over concatenation: merging `[c1, c2]` first and
/// then the result with `c3` gives the same contents as merging
/// `[c1, c2, c3]` at once.
pub proof fn lemma_merge_assoc<T>(
    c1: OneOrMany<T>,
    c2: OneOrMany<T>,
    c3: OneOrMany<T>,
    c12: OneOrMany<T>,
)
    requires
        c12@ == merged_view(seq![c1, c2]),
    ensures
        merged_view(seq![c12, c3]) == merged_view(seq![c1, c2, c3]),
{
    lemma_merge_pair_concat(c12, c3);
    lemma_merge_pair_concat(c1, c2);
    let cs = seq![c1, c2, c3];
    assert(cs.drop_first() =~= seq![c2, c3]);
    lemma_merge_pair_concat(c2, c3);
    assert(merged_view(seq![c12, c3]) =~= merged_view(cs));
}

impl<T: Clone> OneOrMany<T> {
    /// A copy of the designated first element.
    pub fn first(&self) -> (r: T)
        ensures
            cloned(self@[0], r),
    {
        self.first.clone()
    }

    /// Copies of the remaining elements, in their original order; possibly
    /// empty.
    pub fn rest(&self) -> (r: Vec<T>)
        ensures
            r@.len() == self@.len() - 1,
            forall|i: int| 0 <= i < r@.len() ==> cloned(self@[i + 1], #[trigger] r@[i]),
    {
        self.rest.clone()
    }

    /// Copies of every element, in their original insertion order: the first
    /// element followed by the rest.
    pub fn all(&self) -> (r: Vec<T>)
        ensures
            r@.len() == self@.len(),
            forall|i: int| 0 <= i < r@.len() ==> cloned(self@[i], #[trigger] r@[i]),
    {
        let mut r = Vec::new();
        r.push(self.first.clone());
        r.extend_from_slice(self.rest.as_slice());
        r
    }
}

} // verus!
