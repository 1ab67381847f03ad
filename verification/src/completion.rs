//! What a client can complete at a place in a document.

use crate::parse::{Node, NodeView, Tree};
use crate::position::Position;
use crate::query::{distinct_decls, Decl, DeclKind, DeclView};
use crate::symbols::SymbolKind;
use crate::text::qualify;
use vstd::prelude::*;

verus! {

/// What a completion is to a client.
#[derive(Clone, Copy, Debug, PartialEq, Eq, Structural)]
pub enum CompletionItemKind {
    Function,
    Variable,
    Class,
    Interface,
    Property,
    Enum,
    Constant,
    Event,
    Operator,
}

/// A completion.
#[derive(Debug)]
pub struct CompletionItem {
    pub label: String,
    pub kind: CompletionItemKind,
    pub documentation: String,
}

/// A completion in mathematical terms.
pub ghost struct CompletionItemView {
    pub label: Seq<char>,
    pub kind: CompletionItemKind,
    pub documentation: Seq<char>,
}

impl View for CompletionItem {
    type V = CompletionItemView;

    open spec fn view(&self) -> CompletionItemView {
        CompletionItemView {
            label: self.label@,
            kind: self.kind,
            documentation: self.documentation@,
        }
    }
}

/// Completions in mathematical terms.
pub open spec fn item_views(items: Seq<CompletionItem>) -> Seq<CompletionItemView> {
    items.map_values(|item: CompletionItem| item@)
}

/// The kind of completion that a declaration is.
pub open spec fn completion_item_kind(kind: DeclKind) -> CompletionItemKind {
    match kind {
        DeclKind::Global | DeclKind::Variable | DeclKind::Redef => CompletionItemKind::Variable,
        DeclKind::Option => CompletionItemKind::Property,
        DeclKind::Const => CompletionItemKind::Constant,
        DeclKind::RedefEnum => CompletionItemKind::Enum,
        DeclKind::RedefRecord => CompletionItemKind::Interface,
        DeclKind::Type => CompletionItemKind::Class,
        DeclKind::Func => CompletionItemKind::Function,
        DeclKind::Hook => CompletionItemKind::Operator,
        DeclKind::Event => CompletionItemKind::Event,
    }
}

/// The completion of a declaration.
pub open spec fn completion_item_of(decl: DeclView) -> CompletionItemView {
    CompletionItemView {
        label: crate::text::qualified_name(decl.module, decl.id),
        kind: completion_item_kind(decl.kind),
        documentation: decl.documentation,
    }
}

/// The completions where the declarations of `levels` are visible: one for each of them, however
/// often it is met.
pub open spec fn completions_of(levels: Seq<Seq<DeclView>>) -> Seq<CompletionItemView> {
    crate::query::distinct(levels.flatten()).map_values(|decl: DeclView| completion_item_of(decl))
}

/// Returns the kind of completion that a declaration is.
pub fn to_completion_item_kind(kind: DeclKind) -> (item: CompletionItemKind)
    ensures
        item == completion_item_kind(kind),
{
    match kind {
        DeclKind::Global | DeclKind::Variable | DeclKind::Redef => CompletionItemKind::Variable,
        DeclKind::Option => CompletionItemKind::Property,
        DeclKind::Const => CompletionItemKind::Constant,
        DeclKind::RedefEnum => CompletionItemKind::Enum,
        DeclKind::RedefRecord => CompletionItemKind::Interface,
        DeclKind::Type => CompletionItemKind::Class,
        DeclKind::Func => CompletionItemKind::Function,
        DeclKind::Hook => CompletionItemKind::Operator,
        DeclKind::Event => CompletionItemKind::Event,
    }
}

/// Returns the completion of a declaration.
pub fn to_completion_item(decl: &Decl) -> (item: CompletionItem)
    ensures
        item@ == completion_item_of(decl@),
{
    CompletionItem {
        label: qualify(&decl.module, &decl.id),
        kind: to_completion_item_kind(decl.kind),
        documentation: decl.documentation.clone(),
    }
}

/// Returns the node at which completion starts, or nothing if the document has no syntax tree.
/// The declarations of that node and of all nodes above it are visible there.
pub fn completion_node<'tree>(tree: &'tree Option<Tree>, position: &Position) -> (node: Option<
    Node<'tree>,
>)
    ensures
        match tree {
            Some(tree) => node matches Some(node) && node@ == crate::parse::node_at(
                tree@,
                *position,
            ),
            None => node is None,
        },
{
    match tree {
        Some(tree) => tree.descendant_for_position(position),
        None => None,
    }
}

/// Returns the completions where the declarations of `levels` are visible, which are those of a
/// node, of its parent, and so on up to the root.
pub fn completion(levels: &Vec<Vec<Decl>>) -> (items: Vec<CompletionItem>)
    ensures
        item_views(items@) == completions_of(crate::query::decl_list_views(levels@)),
{
    let decls = distinct_decls(levels);
    let mut items: Vec<CompletionItem> = Vec::new();
    for i in 0..decls.len()
        invariant
            items@.len() == i,
            forall|j: int| 0 <= j < i ==> (#[trigger] items@[j])@ == completion_item_of(decls@[j]@),
    {
        items.push(to_completion_item(decls[i]));
    }
    assert(item_views(items@) =~= crate::query::ref_views(decls@).map_values(
        |decl: DeclView| completion_item_of(decl),
    ));
    items
}

/// Every visible declaration can be completed.
pub proof fn law_visible_declarations_complete(levels: Seq<Seq<DeclView>>, i: int, j: int)
    requires
        0 <= i < levels.len(),
        0 <= j < levels[i].len(),
    ensures
        completions_of(levels).contains(completion_item_of(levels[i][j])),
{
    let decl = levels[i][j];
    assert(levels[i].contains(decl));
    crate::seqs::lemma_flatten_contains(levels, decl);
    crate::query::law_distinct(levels.flatten());
    let kept = crate::query::distinct(levels.flatten());
    assert(kept.contains(decl));
    assert(completions_of(levels)[kept.index_of(decl)] == completion_item_of(decl));
}

/// Whatever can be completed is a visible declaration.
pub proof fn law_completions_are_visible(levels: Seq<Seq<DeclView>>, item: CompletionItemView)
    requires
        completions_of(levels).contains(item),
    ensures
        exists|i: int, j: int|
            0 <= i < levels.len() && 0 <= j < levels[i].len() && completion_item_of(
                #[trigger] levels[i][j],
            ) == item,
{
    let kept = crate::query::distinct(levels.flatten());
    let k = completions_of(levels).index_of(item);
    let decl = kept[k];
    crate::query::law_distinct(levels.flatten());
    assert(kept.contains(decl));
    crate::seqs::lemma_flatten_contains(levels, decl);
    let i = choose|i: int| 0 <= i < levels.len() && #[trigger] levels[i].contains(decl);
    assert(levels[i][levels[i].index_of(decl)] == decl);
}

/// There are as many completions as there are different visible declarations.
pub proof fn law_one_completion_per_declaration(levels: Seq<Seq<DeclView>>)
    ensures
        completions_of(levels).len() == levels.flatten().to_set().len(),
{
    let kept = crate::query::distinct(levels.flatten());
    crate::query::law_distinct(levels.flatten());
    kept.unique_seq_to_set();
    assert(kept.to_set() =~= levels.flatten().to_set());
}

/// The completions at a node, where `decls_in` finds the declarations that are made directly in a
/// node.
pub open spec fn completions_at(
    node: NodeView,
    decls_in: spec_fn(NodeView) -> Seq<DeclView>,
) -> Seq<CompletionItemView> {
    completions_of(crate::parse::lineage(node).map_values(decls_in))
}

/// What can be completed at a node can also be completed at every node below it, whatever finds the
/// declarations.
pub proof fn law_completions_reach_down(
    node: NodeView,
    above: NodeView,
    decls_in: spec_fn(NodeView) -> Seq<DeclView>,
    item: CompletionItemView,
)
    requires
        crate::parse::lineage(node).contains(above),
        completions_at(above, decls_in).contains(item),
    ensures
        completions_at(node, decls_in).contains(item),
{
    let nodes = crate::parse::lineage(node);
    let nodes_above = crate::parse::lineage(above);
    let levels_above = nodes_above.map_values(decls_in);
    law_completions_are_visible(levels_above, item);
    let (i, j) = choose|i: int, j: int|
        0 <= i < levels_above.len() && 0 <= j < levels_above[i].len() && completion_item_of(
            #[trigger] levels_above[i][j],
        ) == item;
    let place = nodes_above[i];
    assert(nodes_above.contains(place));
    crate::parse::law_lineages_are_nested(node, above, place);
    let k = nodes.index_of(place);
    assert(nodes.map_values(decls_in)[k] == levels_above[i]);
    law_visible_declarations_complete(nodes.map_values(decls_in), k, j);
}

/// The kind of completion that goes by the same name as a kind of symbol. Modules are not
/// completed.
pub open spec fn same_kind(symbol: SymbolKind) -> Option<CompletionItemKind> {
    match symbol {
        SymbolKind::Module => None,
        SymbolKind::Class => Some(CompletionItemKind::Class),
        SymbolKind::Property => Some(CompletionItemKind::Property),
        SymbolKind::Enum => Some(CompletionItemKind::Enum),
        SymbolKind::Interface => Some(CompletionItemKind::Interface),
        SymbolKind::Function => Some(CompletionItemKind::Function),
        SymbolKind::Variable => Some(CompletionItemKind::Variable),
        SymbolKind::Constant => Some(CompletionItemKind::Constant),
        SymbolKind::Event => Some(CompletionItemKind::Event),
        SymbolKind::Operator => Some(CompletionItemKind::Operator),
    }
}

/// A declaration is completed as the same kind of thing as which it is listed.
pub proof fn law_kinds_agree(kind: DeclKind)
    ensures
        same_kind(crate::symbols::symbol_kind(kind)) == Some(completion_item_kind(kind)),
{
}

/// Which declarations are completed as which kind, for all kinds there are.
pub proof fn law_kinds_of_completions(kind: DeclKind)
    ensures
        completion_item_kind(kind) == CompletionItemKind::Variable <==> (kind == DeclKind::Global
            || kind == DeclKind::Variable || kind == DeclKind::Redef),
        completion_item_kind(kind) == CompletionItemKind::Property <==> kind == DeclKind::Option,
        completion_item_kind(kind) == CompletionItemKind::Constant <==> kind == DeclKind::Const,
        completion_item_kind(kind) == CompletionItemKind::Enum <==> kind == DeclKind::RedefEnum,
        completion_item_kind(kind) == CompletionItemKind::Interface <==> kind
            == DeclKind::RedefRecord,
        completion_item_kind(kind) == CompletionItemKind::Class <==> kind == DeclKind::Type,
        completion_item_kind(kind) == CompletionItemKind::Function <==> kind == DeclKind::Func,
        completion_item_kind(kind) == CompletionItemKind::Operator <==> kind == DeclKind::Hook,
        completion_item_kind(kind) == CompletionItemKind::Event <==> kind == DeclKind::Event,
{
}

/// A completion is labelled by the module, two colons and the name that is declared, and comes with
/// the kind and the documentation of the declaration.
pub proof fn law_completion_is_the_declaration(decl: DeclView)
    ensures
        ({
            let item = completion_item_of(decl);
            let module = decl.module;
            &&& item.label.len() == module.len() + 2 + decl.id.len()
            &&& item.label.take(module.len() as int) == module
            &&& item.label.subrange(module.len() as int, module.len() as int + 2) == seq![':', ':']
            &&& item.label.skip(module.len() as int + 2) == decl.id
            &&& item.kind == completion_item_kind(decl.kind)
            &&& item.documentation == decl.documentation
        }),
{
    crate::text::law_qualified_name_parts(decl.module, decl.id);
}

/// Where all visible declarations differ, there is one completion for each, in the same order.
pub proof fn law_different_declarations_complete_in_order(levels: Seq<Seq<DeclView>>)
    requires
        levels.flatten().no_duplicates(),
    ensures
        completions_of(levels).len() == levels.flatten().len(),
        forall|i: int|
            0 <= i < levels.flatten().len() ==> #[trigger] completions_of(levels)[i]
                == completion_item_of(levels.flatten()[i]),
{
    crate::query::law_distinct_keeps_first_occurrences(levels.flatten(), Seq::empty());
}

/// What becomes visible in further nodes comes behind the completions that there were.
pub proof fn law_further_levels_only_add(
    levels: Seq<Seq<DeclView>>,
    more: Seq<Seq<DeclView>>,
)
    ensures
        completions_of(levels).is_prefix_of(completions_of(levels + more)),
{
    vstd::seq_lib::lemma_flatten_concat(levels, more);
    crate::query::law_distinct_keeps_first_occurrences(levels.flatten(), more.flatten());
    let few = crate::query::distinct(levels.flatten());
    let many = crate::query::distinct((levels + more).flatten());
    assert forall|i: int| 0 <= i < few.len() implies few[i] == many[i] by {
        assert(few[i] == many.take(few.len() as int)[i]);
    }
    assert(completions_of(levels) =~= completions_of(levels + more).take(few.len() as int));
}

/// However far one goes from a node to its parent, to the parent of that, and so on, the
/// declarations in the node where one arrives can be completed at the first node.
pub proof fn law_enclosing_declarations_complete(
    climb: Seq<NodeView>,
    decls_in: spec_fn(NodeView) -> Seq<DeclView>,
    j: int,
)
    requires
        climb.len() > 0,
        forall|i: int, k: int|
            0 <= i && k == i + 1 && k < climb.len() ==> #[trigger] climb[k] == (
            #[trigger] climb[i]).other(crate::parse::parent_number(climb[i])) && climb[k].number
                < climb[i].number,
        0 <= j < decls_in(climb.last()).len(),
    ensures
        exists|item: CompletionItemView| #[trigger]
            completions_at(climb[0], decls_in).contains(item) && item.label
                == crate::text::qualified_name(
                decls_in(climb.last())[j].module,
                decls_in(climb.last())[j].id,
            ) && item.kind == completion_item_kind(decls_in(climb.last())[j].kind)
                && item.documentation == decls_in(climb.last())[j].documentation,
{
    let nodes = crate::parse::lineage(climb[0]);
    let levels = nodes.map_values(decls_in);
    let i = climb.len() - 1;
    crate::parse::law_climbing_stays_in_lineage(climb);
    assert(climb[i] == nodes.take(climb.len() as int)[i]);
    assert(levels[i] == decls_in(climb.last()));
    law_visible_declarations_complete(levels, i, j);
    assert(completions_at(climb[0], decls_in).contains(completion_item_of(levels[i][j])));
}

/// Whatever can be completed at a node is declared in the node or in one that is reached from it by
/// going from a node to its parent.
pub proof fn law_completions_are_of_enclosing_nodes(
    node: NodeView,
    decls_in: spec_fn(NodeView) -> Seq<DeclView>,
    item: CompletionItemView,
)
    requires
        completions_at(node, decls_in).contains(item),
    ensures
        exists|climb: Seq<NodeView>, j: int|
            {
                &&& climb.len() > 0
                &&& climb[0] == node
                &&& forall|i: int, k: int|
                    0 <= i && k == i + 1 && k < climb.len() ==> #[trigger] climb[k] == (
                    #[trigger] climb[i]).other(crate::parse::parent_number(climb[i]))
                &&& 0 <= j < decls_in(climb.last()).len()
                &&& completion_item_of(#[trigger] decls_in(climb.last())[j]) == item
            },
{
    let nodes = crate::parse::lineage(node);
    let levels = nodes.map_values(decls_in);
    crate::parse::law_lineage_follows_parents(node);
    law_completions_are_visible(levels, item);
    let (i, j) = choose|i: int, j: int|
        0 <= i < levels.len() && 0 <= j < levels[i].len() && completion_item_of(
            #[trigger] levels[i][j],
        ) == item;
    let climb = nodes.take(i + 1);
    assert(climb.last() == nodes[i]);
    assert forall|i: int, k: int| 0 <= i && k == i + 1 && k < climb.len() implies
        #[trigger] climb[k] == (#[trigger] climb[i]).other(
        crate::parse::parent_number(climb[i]),
    ) by {
        assert(climb[k] == nodes[k] && climb[i] == nodes[i]);
    }
    assert(completion_item_of(decls_in(climb.last())[j]) == item);
}

/// The completions are those of the different declarations, each in the place of its own.
pub proof fn law_completions_follow_declarations(levels: Seq<Seq<DeclView>>, i: int)
    requires
        0 <= i < crate::query::distinct(levels.flatten()).len(),
    ensures
        completions_of(levels).len() == crate::query::distinct(levels.flatten()).len(),
        ({
            let item = completions_of(levels)[i];
            let decl = crate::query::distinct(levels.flatten())[i];
            &&& item.label == crate::text::qualified_name(decl.module, decl.id)
            &&& item.kind == completion_item_kind(decl.kind)
            &&& item.documentation == decl.documentation
        }),
{
}

/// Completions are seen all, each in its place, and each with all that it holds.
pub proof fn law_completions_are_seen_whole(items: Seq<CompletionItem>, i: int)
    requires
        0 <= i < items.len(),
    ensures
        item_views(items).len() == items.len(),
        item_views(items)[i].label == items[i].label@,
        item_views(items)[i].kind == items[i].kind,
        item_views(items)[i].documentation == items[i].documentation@,
{
}

} // verus!
