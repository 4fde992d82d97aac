//! The algebraic guarantees of the filter, stated over the model that the
//! engine's contracts use and proved once and for all.

use vstd::prelude::*;
use crate::filter::FilterModel;
use crate::filter::bits_after;
use crate::filter::hit_before;
use crate::filter::model_index;
use crate::filter::spec_add;
use crate::filter::spec_contains;
use crate::filter::spec_intersection;
use crate::filter::spec_union;

verus! {

/// The filter reached from `f` by adding the elements of `elems` in order.
pub open spec fn spec_add_all(f: FilterModel, elems: Seq<Seq<char>>) -> FilterModel
    decreases elems.len(),
{
    if elems.len() == 0 {
        f
    } else {
        spec_add_all(spec_add(f, elems[0]), elems.drop_first())
    }
}

/// No false negatives: after an element is added, a lookup of that element
/// reports true, whatever was in the filter before.
pub proof fn lemma_add_no_false_negative(f: FilterModel, e: Seq<char>)
    requires
        f.wf(),
    ensures
        spec_contains(spec_add(f, e), e),
{
    let g = spec_add(f, e);
    assert forall|q: int| 0 <= q < g.hashes implies g.bits[#[trigger] model_index(g, e, q)] by {
        let j = model_index(f, e, q);
        assert(model_index(g, e, q) == j);
        assert(0 <= j < f.bits.len());
        assert(hit_before(f, e, f.hashes, j));
        assert(g.bits[j] == (f.bits[j] || hit_before(f, e, f.hashes, j)));
    }
}

/// Monotonicity: the set of elements for which a lookup reports true never
/// shrinks as more elements are added.
pub proof fn lemma_add_monotonic(f: FilterModel, x: Seq<char>, e: Seq<char>)
    requires
        f.wf(),
        spec_contains(f, e),
    ensures
        spec_contains(spec_add(f, x), e),
{
    let g = spec_add(f, x);
    assert forall|q: int| 0 <= q < g.hashes implies g.bits[#[trigger] model_index(g, e, q)] by {
        let j = model_index(f, e, q);
        assert(model_index(g, e, q) == j);
        assert(0 <= j < f.bits.len());
        assert(f.bits[j]);
        assert(g.bits[j] == (f.bits[j] || hit_before(f, x, f.hashes, j)));
    }
}

/// Determinism: two filters with the same capacity, hash count, salt, and
/// bits that receive the same additions in the same order end with the same
/// bits. Together with the constructors' contracts, which pin a fresh
/// filter's model, and the contract of `add`, which pins the model after each
/// addition, the whole evolution is a function of the construction parameters
/// and the added elements.
pub proof fn lemma_deterministic(a: FilterModel, b: FilterModel, elems: Seq<Seq<char>>)
    requires
        a.capacity == b.capacity,
        a.hashes == b.hashes,
        a.salt == b.salt,
        a.bits == b.bits,
    ensures
        spec_add_all(a, elems).bits == spec_add_all(b, elems).bits,
{
    assert(a =~= b);
}

/// Union superset: an element that either operand reports present, the union
/// reports present too. Stated for unsalted operands: the union carries an
/// empty salt, so its lookups derive positions the way an unsalted operand's
/// lookups do.
pub proof fn lemma_union_superset(a: FilterModel, b: FilterModel, e: Seq<char>)
    requires
        a.wf(),
        b.wf(),
        a.capacity == b.capacity,
        a.hashes == b.hashes,
        a.salt == Seq::<char>::empty(),
        b.salt == Seq::<char>::empty(),
        spec_contains(a, e) || spec_contains(b, e),
    ensures
        spec_contains(spec_union(a, b), e),
{
    let u = spec_union(a, b);
    assert forall|q: int| 0 <= q < u.hashes implies u.bits[#[trigger] model_index(u, e, q)] by {
        let j = model_index(a, e, q);
        assert(model_index(u, e, q) == j);
        assert(model_index(b, e, q) == j);
        assert(0 <= j < a.bits.len());
        if spec_contains(a, e) {
            assert(a.bits[j]);
        } else {
            assert(b.bits[j]);
        }
    }
}

/// Intersection subset, on the bits: every bit set in the intersection is set
/// in both operands.
pub proof fn lemma_intersection_bits_subset(a: FilterModel, b: FilterModel)
    ensures
        forall|j: int|
            0 <= j < a.bits.len() ==> (spec_intersection(a, b).bits[j] ==> a.bits[j] && b.bits[j]),
{
}

/// Intersection subset, on lookups: an element the intersection reports
/// present, both operands report present. Stated for unsalted operands, as
/// the union law is.
pub proof fn lemma_intersection_lookup_subset(a: FilterModel, b: FilterModel, e: Seq<char>)
    requires
        a.wf(),
        b.wf(),
        a.capacity == b.capacity,
        a.hashes == b.hashes,
        a.salt == Seq::<char>::empty(),
        b.salt == Seq::<char>::empty(),
        spec_contains(spec_intersection(a, b), e),
    ensures
        spec_contains(a, e),
        spec_contains(b, e),
{
    let u = spec_intersection(a, b);
    assert forall|q: int| 0 <= q < a.hashes implies a.bits[#[trigger] model_index(a, e, q)] by {
        let j = model_index(u, e, q);
        assert(model_index(a, e, q) == j);
        assert(0 <= j < a.bits.len());
        assert(u.bits[j]);
    }
    assert forall|q: int| 0 <= q < b.hashes implies b.bits[#[trigger] model_index(b, e, q)] by {
        let j = model_index(u, e, q);
        assert(model_index(b, e, q) == j);
        assert(0 <= j < b.bits.len());
        assert(u.bits[j]);
    }
}

} // verus!
