//! Declarations found in Zeek scripts.

use crate::position::Range;
use vstd::prelude::*;
use vstd::std_specs::cmp::PartialEqSpec;

verus! {

/// What is declared.
#[derive(Clone, Copy, Debug, PartialEq, Eq, Hash, Structural)]
pub enum DeclKind {
    Global,
    Option,
    Const,
    Redef,
    RedefEnum,
    RedefRecord,
    Type,
    Func,
    Hook,
    Event,
    Variable,
}

/// A declaration.
#[derive(Debug)]
pub struct Decl {
    /// The name of the module that the declaration belongs to.
    pub module: String,
    /// The name that is declared.
    pub id: String,
    pub kind: DeclKind,
    /// The range of the whole declaration.
    pub range: Range,
    /// The range of the name in it.
    pub selection_range: Range,
    pub documentation: String,
}

/// A declaration in mathematical terms.
pub ghost struct DeclView {
    pub module: Seq<char>,
    pub id: Seq<char>,
    pub kind: DeclKind,
    pub range: Range,
    pub selection_range: Range,
    pub documentation: Seq<char>,
}

impl View for Decl {
    type V = DeclView;

    open spec fn view(&self) -> DeclView {
        DeclView {
            module: self.module@,
            id: self.id@,
            kind: self.kind,
            range: self.range,
            selection_range: self.selection_range,
            documentation: self.documentation@,
        }
    }
}

/// Declarations in mathematical terms.
pub open spec fn decl_views(decls: Seq<Decl>) -> Seq<DeclView> {
    decls.map_values(|decl: Decl| decl@)
}

/// Several lists of declarations in mathematical terms.
pub open spec fn decl_list_views(lists: Seq<Vec<Decl>>) -> Seq<Seq<DeclView>> {
    lists.map_values(|list: Vec<Decl>| decl_views(list@))
}

impl Clone for Decl {
    fn clone(&self) -> (copy: Self)
        ensures
            copy@ == self@,
    {
        Decl {
            module: self.module.clone(),
            id: self.id.clone(),
            kind: self.kind,
            range: self.range,
            selection_range: self.selection_range,
            documentation: self.documentation.clone(),
        }
    }
}

impl PartialEq for Decl {
    fn eq(&self, other: &Self) -> (equal: bool) {
        self.module == other.module && self.id == other.id && self.kind == other.kind && self.range
            == other.range && self.selection_range == other.selection_range && self.documentation
            == other.documentation
    }
}

impl vstd::std_specs::cmp::PartialEqSpecImpl for Decl {
    open spec fn obeys_eq_spec() -> bool {
        true
    }

    open spec fn eq_spec(&self, other: &Self) -> bool {
        self@ == other@
    }
}

impl Eq for Decl {

}

/// The items of a sequence without those that occurred before.
pub open spec fn distinct<A>(items: Seq<A>) -> Seq<A>
    decreases items.len(),
{
    if items.len() == 0 {
        Seq::empty()
    } else {
        let before = distinct(items.drop_last());
        if before.contains(items.last()) {
            before
        } else {
            before.push(items.last())
        }
    }
}

/// `distinct` keeps one of each item and invents none.
pub proof fn law_distinct<A>(items: Seq<A>)
    ensures
        distinct(items).no_duplicates(),
        forall|item: A| #[trigger] distinct(items).contains(item) <==> items.contains(item),
    decreases items.len(),
{
    if items.len() > 0 {
        let rest = items.drop_last();
        let last = items.last();
        let before = distinct(rest);
        let all = distinct(items);
        law_distinct(rest);
        assert forall|item: A| #[trigger] all.contains(item) <==> items.contains(item) by {
            if items.contains(item) && item != last {
                let k = items.index_of(item);
                assert(rest[k] == item);
                assert(before.contains(item));
                assert(all[before.index_of(item)] == item);
            }
            if item == last {
                assert(items[items.len() - 1] == last);
                if !before.contains(last) {
                    assert(all[before.len() as int] == last);
                }
            }
            if all.contains(item) && item != last {
                let k = all.index_of(item);
                assert(before[k] == item);
                assert(before.contains(item));
                assert(rest.contains(item));
                assert(items[rest.index_of(item)] == item);
            }
        }
    }
}

/// Returns whether `decls` holds a declaration equal to `decl`.
fn holds(decls: &Vec<&Decl>, decl: &Decl) -> (held: bool)
    ensures
        held == ref_views(decls@).contains(decl@),
{
    for i in 0..decls.len()
        invariant
            forall|j: int| 0 <= j < i ==> ref_views(decls@)[j] != decl@,
    {
        if *decls[i] == *decl {
            assert(ref_views(decls@)[i as int] == decl@);
            return true;
        }
    }
    false
}

/// Borrowed declarations in mathematical terms.
pub open spec fn ref_views(decls: Seq<&Decl>) -> Seq<DeclView> {
    decls.map_values(|decl: &Decl| decl@)
}

/// Returns the declarations of all lists, one list after the other, without those that are equal
/// to an earlier one.
pub fn distinct_decls<'a>(lists: &'a Vec<Vec<Decl>>) -> (decls: Vec<&'a Decl>)
    ensures
        ref_views(decls@) == distinct(decl_list_views(lists@).flatten()),
{
    let mut decls: Vec<&'a Decl> = Vec::new();
    let ghost views = decl_list_views(lists@);
    for i in 0..lists.len()
        invariant
            views == decl_list_views(lists@),
            ref_views(decls@) == distinct(views.take(i as int).flatten()),
    {
        let list = &lists[i];
        let ghost before = views.take(i as int).flatten();
        let ghost list_views = decl_views(list@);
        assert(before + list_views.take(0) =~= before);
        for j in 0..list.len()
            invariant
                list_views == decl_views(list@),
                ref_views(decls@) == distinct(before + list_views.take(j as int)),
        {
            let decl = &list[j];
            let ghost seen = before + list_views.take(j as int);
            let ghost now = before + list_views.take(j + 1);
            assert(now.drop_last() =~= seen);
            assert(now.last() == decl@);
            let ghost kept = ref_views(decls@);
            if !holds(&decls, decl) {
                decls.push(decl);
                assert(ref_views(decls@) =~= kept.push(decl@));
            }
        }
        assert(list_views.take(list@.len() as int) =~= list_views);
        assert(views[i as int] == list_views);
        proof {
            crate::seqs::lemma_flatten_take(views, i as int);
        }
    }
    assert(views.take(views.len() as int) =~= views);
    decls
}

/// Declarations are equal exactly if they are in all that is known of them.
pub proof fn law_equal_declarations_agree(one: Decl, other: Decl)
    ensures
        one.eq_spec(&other) <==> {
            &&& one.module@ == other.module@
            &&& one.id@ == other.id@
            &&& one.kind == other.kind
            &&& one.range == other.range
            &&& one.selection_range == other.selection_range
            &&& one.documentation@ == other.documentation@
        },
{
}

/// Items stay where they first occurred: what comes later changes nothing about what is kept of the
/// items before it, and items that all differ are kept as they are.
pub proof fn law_distinct_keeps_first_occurrences<A>(items: Seq<A>, more: Seq<A>)
    ensures
        distinct(items).is_prefix_of(distinct(items + more)),
        items.no_duplicates() ==> distinct(items) == items,
    decreases items.len() + more.len(),
{
    if more.len() > 0 {
        law_distinct_keeps_first_occurrences(items, more.drop_last());
        assert((items + more).drop_last() =~= items + more.drop_last());
    } else {
        assert(items + more =~= items);
        if items.len() > 0 && items.no_duplicates() {
            let rest = items.drop_last();
            law_distinct_keeps_first_occurrences(rest, more);
            assert(!rest.contains(items.last())) by {
                if rest.contains(items.last()) {
                    assert(items[rest.index_of(items.last())] == items[items.len() - 1]);
                }
            }
            assert(rest.push(items.last()) =~= items);
        }
    }
}

/// A declaration is seen with all that is known of it.
pub proof fn law_declaration_is_seen_whole(decl: Decl)
    ensures
        decl@.module == decl.module@,
        decl@.id == decl.id@,
        decl@.kind == decl.kind,
        decl@.range == decl.range,
        decl@.selection_range == decl.selection_range,
        decl@.documentation == decl.documentation@,
{
}

/// Declarations are seen all and each in its place, be they in one list, in several or borrowed.
pub proof fn law_declarations_are_seen_whole(
    decls: Seq<Decl>,
    lists: Seq<Vec<Decl>>,
    borrowed: Seq<&Decl>,
)
    ensures
        decl_views(decls).len() == decls.len(),
        forall|i: int| 0 <= i < decls.len() ==> #[trigger] decl_views(decls)[i] == decls[i]@,
        decl_list_views(lists).len() == lists.len(),
        forall|i: int|
            0 <= i < lists.len() ==> (#[trigger] decl_list_views(lists)[i]).len()
                == lists[i]@.len(),
        forall|i: int, j: int|
            0 <= i < lists.len() && 0 <= j < lists[i]@.len() ==> #[trigger] decl_list_views(
                lists,
            )[i][j] == lists[i]@[j]@,
        ref_views(borrowed).len() == borrowed.len(),
        forall|i: int| 0 <= i < borrowed.len() ==> #[trigger] ref_views(borrowed)[i]
            == borrowed[i]@,
{
}

} // verus!
