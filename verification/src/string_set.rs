//! An order-preserving set of strings, backed by `indexmap::IndexSet`.
//!
//! The ignore-pattern list keeps insertion order and drops duplicates; both
//! facts come from the outside crate and are stated here as trusted
//! contracts over `iset_elems`, the set's contents in insertion order.

use vstd::prelude::*;

verus! {

#[verifier::external_type_specification]
#[verifier::external_body]
#[verifier::reject_recursive_types(T)]
#[verifier::reject_recursive_types(S)]
pub struct ExIndexSet<T, S>(indexmap::IndexSet<T, S>);

/// The elements the set holds, in insertion order.
pub uninterp spec fn iset_elems(s: indexmap::IndexSet<String>) -> Seq<Seq<char>>;

/// Relies on `indexmap::IndexSet::new`: the new set is empty.
#[verifier::external_body]
pub fn iset_new() -> (s: indexmap::IndexSet<String>)
    ensures
        iset_elems(s) == Seq::<Seq<char>>::empty(),
{
    indexmap::IndexSet::new()
}

/// Relies on `indexmap::IndexSet::insert`: a value equal to a present one
/// leaves the set as it is and reports `false`; a new value goes to the end
/// and the call reports `true`.
#[verifier::external_body]
pub fn iset_insert(s: &mut indexmap::IndexSet<String>, value: String) -> (inserted: bool)
    ensures
        inserted == !iset_elems(*old(s)).contains(value@),
        iset_elems(*final(s)) == if iset_elems(*old(s)).contains(value@) {
            iset_elems(*old(s))
        } else {
            iset_elems(*old(s)).push(value@)
        },
{
    s.insert(value)
}

/// Relies on `indexmap::IndexSet::len`: the number of elements held.
#[verifier::external_body]
pub fn iset_len(s: &indexmap::IndexSet<String>) -> (n: usize)
    ensures
        n == iset_elems(*s).len(),
{
    s.len()
}

/// Relies on `indexmap::IndexSet::iter`: iteration yields the elements in
/// insertion order; the body only clones them into a vector.
#[verifier::external_body]
pub fn iset_to_vec(s: &indexmap::IndexSet<String>) -> (r: Vec<String>)
    ensures
        r.deep_view() == iset_elems(*s),
{
    s.iter().cloned().collect()
}

} // verus!
