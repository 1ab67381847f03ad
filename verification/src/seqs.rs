//! Facts about sequences of sequences.

use vstd::prelude::*;

verus! {

/// A flattened sequence of sequences holds exactly what one of them holds.
pub(crate) proof fn lemma_flatten_contains<A>(lists: Seq<Seq<A>>, x: A)
    ensures
        lists.flatten().contains(x) <==> exists|i: int|
            0 <= i < lists.len() && #[trigger] lists[i].contains(x),
    decreases lists.len(),
{
    if lists.len() > 0 {
        let rest = lists.drop_first();
        lemma_flatten_contains(rest, x);
        let flat = lists.flatten();
        assert(flat == lists[0] + rest.flatten());
        if flat.contains(x) {
            let k = flat.index_of(x);
            if k < lists[0].len() {
                assert(lists[0][k] == x);
                assert(lists[0].contains(x));
            } else {
                assert(rest.flatten()[k - lists[0].len()] == x);
                let i = choose|i: int| 0 <= i < rest.len() && #[trigger] rest[i].contains(x);
                assert(lists[i + 1].contains(x));
            }
        }
        if exists|i: int| 0 <= i < lists.len() && #[trigger] lists[i].contains(x) {
            let i = choose|i: int| 0 <= i < lists.len() && #[trigger] lists[i].contains(x);
            if i == 0 {
                let k = lists[0].index_of(x);
                assert(flat[k] == x);
            } else {
                assert(rest[i - 1].contains(x));
                let k = rest.flatten().index_of(x);
                assert(flat[lists[0].len() + k] == x);
            }
        }
    }
}

/// Flattening one sequence more appends that sequence.
pub(crate) proof fn lemma_flatten_take<A>(lists: Seq<Seq<A>>, i: int)
    requires
        0 <= i < lists.len(),
    ensures
        lists.take(i + 1).flatten() == lists.take(i).flatten() + lists[i],
{
    assert(lists.take(i + 1) =~= lists.take(i).push(lists[i]));
    lists.take(i).lemma_flatten_push(lists[i]);
}

/// What a partial mapping makes of an item is in the mapped sequence.
pub(crate) proof fn lemma_filter_map_holds<A, B>(s: Seq<A>, f: spec_fn(A) -> Option<B>, i: int)
    requires
        0 <= i < s.len(),
        f(s[i]) is Some,
    ensures
        s.filter_map(f).contains(f(s[i])->0),
    decreases s.len(),
{
    let mapped = s.filter_map(f);
    let rest = s.drop_last();
    if i < s.len() - 1 {
        lemma_filter_map_holds(rest, f, i);
        let k = rest.filter_map(f).index_of(f(s[i])->0);
        assert(mapped[k] == f(s[i])->0);
    } else {
        assert(mapped.last() == f(s[i])->0);
        assert(mapped[mapped.len() - 1] == f(s[i])->0);
    }
}

/// Where an item of one sequence lies in the flattened sequence: behind all sequences before its
/// own.
pub(crate) proof fn lemma_flatten_index<A>(lists: Seq<Seq<A>>, i: int, j: int)
    requires
        0 <= i < lists.len(),
        0 <= j < lists[i].len(),
    ensures
        lists.take(i).flatten().len() + j < lists.flatten().len(),
        lists.flatten()[lists.take(i).flatten().len() + j] == lists[i][j],
{
    let rest = lists.skip(i + 1);
    lemma_flatten_take(lists, i);
    vstd::seq_lib::lemma_flatten_concat(lists.take(i + 1), rest);
    assert(lists.take(i + 1) + rest =~= lists);
}

/// Sequences of the same lengths are as long when they are flattened.
pub(crate) proof fn lemma_flatten_same_length<A, B>(one: Seq<Seq<A>>, other: Seq<Seq<B>>)
    requires
        one.len() == other.len(),
        forall|i: int| 0 <= i < one.len() ==> (#[trigger] one[i]).len() == other[i].len(),
    ensures
        one.flatten().len() == other.flatten().len(),
    decreases one.len(),
{
    if one.len() > 0 {
        let rest = one.drop_first();
        let other_rest = other.drop_first();
        assert forall|i: int| 0 <= i < rest.len() implies (#[trigger] rest[i]).len()
            == other_rest[i].len() by {
            assert(rest[i] == one[i + 1]);
        }
        assert(one[0].len() == other[0].len());
        lemma_flatten_same_length(rest, other_rest);
    }
}

} // verus!
