//! Syntax trees, as the tree-sitter parser makes them of a text.
//!
//! A tree is known by the language and the text that it was parsed from, and a node by the tree
//! and its number: the nodes of a tree are the root and all visible nodes below it, and they are
//! numbered from zero in the order in which a depth-first walk meets them.

use crate::position::{NodeRange, Point, Position};
use tree_sitter::{Language, Node as SyntaxNode, Tree as SyntaxTree};
use vstd::prelude::*;
use vstd::std_specs::cmp::PartialEqSpec;

verus! {

/// `tree_sitter::Language`: a grammar that was compiled in.
#[verifier::external_type_specification]
#[verifier::external_body]
pub struct ExLanguage(Language);

/// `tree_sitter::Tree`: the result of a parse.
#[verifier::external_type_specification]
#[verifier::external_body]
pub struct ExSyntaxTree(SyntaxTree);

/// `tree_sitter::Node`: a node of a tree, which it borrows.
#[verifier::external_type_specification]
#[verifier::external_body]
pub struct ExSyntaxNode<'tree>(SyntaxNode<'tree>);

/// What a tree was parsed from.
pub ghost struct TreeView {
    pub language: Language,
    pub text: Seq<char>,
}

/// The tree of a node and the node's number in it.
pub ghost struct NodeView {
    pub language: Language,
    pub text: Seq<char>,
    pub number: nat,
}

impl NodeView {
    /// The node of the same tree with another number.
    pub open spec fn other(self, number: nat) -> NodeView {
        NodeView { number, ..self }
    }
}

/// Whether the parser is compatible with a language.
pub uninterp spec fn language_supported(language: Language) -> bool;

/// What a tree was parsed from.
pub uninterp spec fn tree_view(tree: SyntaxTree) -> TreeView;

/// The tree of a node and the node's number in it.
pub uninterp spec fn node_view(node: SyntaxNode<'_>) -> NodeView;

/// The kind of a node, as its grammar calls it.
pub uninterp spec fn node_kind(node: NodeView) -> Seq<char>;

/// The part of the text that a node covers.
pub uninterp spec fn node_range(node: NodeView) -> NodeRange;

/// A node and those below it, written as an S-expression.
pub uninterp spec fn node_sexp(node: NodeView) -> Seq<char>;

/// The number of the parent of a node that is not the root. That of a node without any text can be
/// another node that comes before it instead.
pub uninterp spec fn parent_number(node: NodeView) -> nat;

/// The number of the smallest node below a node at a row and a column.
pub uninterp spec fn descendant_number(node: NodeView, row: u32, column: u32) -> nat;

/// The number of the smallest named node below a node at a row and a column.
pub uninterp spec fn named_descendant_number(node: NodeView, row: u32, column: u32) -> nat;

/// Tries a language on a new parser with `tree_sitter::Parser::set_language`, which accepts it if
/// the parser is compatible with it. That depends on the language alone.
#[verifier::external_body]
fn accepts_language(language: Language) -> (accepted: bool)
    ensures
        accepted == language_supported(language),
{
    tree_sitter::Parser::new().set_language(language).is_ok()
}

/// Parses a text with `tree_sitter::Parser::parse` on a new parser for the language. A parser
/// that has a language, no timeout and no cancellation flag always returns a tree.
#[verifier::external_body]
fn parse_text(language: Language, text: &str) -> (tree: Option<SyntaxTree>)
    requires
        language_supported(language),
    ensures
        tree matches Some(tree) && tree_view(tree) == (TreeView { language, text: text@ }),
{
    let mut parser = tree_sitter::Parser::new();
    parser.set_language(language).ok()?;
    parser.parse(text, None)
}

/// Compares the roots of two trees with `tree_sitter::Node::eq`, which goes by the identity of
/// the nodes. That of a root is part of the tree's own storage, so two trees have the same root
/// only if they are one and the same tree.
#[verifier::external_body]
fn same_root(tree: &SyntaxTree, other: &SyntaxTree) -> (same: bool)
    ensures
        same == (*tree == *other),
{
    tree.root_node() == other.root_node()
}

/// Copies a tree with `tree_sitter::Tree::clone`. The copy was parsed from the same, but has a
/// storage of its own, so it is not the tree that was copied.
#[verifier::external_body]
fn copy_of(tree: &SyntaxTree) -> (copy: SyntaxTree)
    ensures
        tree_view(copy) == tree_view(*tree),
        copy != *tree,
{
    tree.clone()
}

/// Takes the root with `tree_sitter::Tree::root_node`.
#[verifier::external_body]
fn root_of<'tree>(tree: &'tree SyntaxTree) -> (node: SyntaxNode<'tree>)
    ensures
        node_view(node) == (NodeView {
            language: tree_view(*tree).language,
            text: tree_view(*tree).text,
            number: 0,
        }),
{
    tree.root_node()
}

/// Takes the kind of a node with `tree_sitter::Node::kind`.
#[verifier::external_body]
fn kind_of(node: &SyntaxNode<'_>) -> (kind: String)
    ensures
        kind@ == node_kind(node_view(*node)),
{
    node.kind().to_string()
}

/// Takes the part of the text that a node covers with `tree_sitter::Node::range`. It is not claimed
/// that the part ends within the text.
#[verifier::external_body]
fn range_of_node(node: &SyntaxNode<'_>) -> (range: NodeRange)
    ensures
        range == node_range(node_view(*node)),
{
    let range = node.range();
    NodeRange {
        start_byte: range.start_byte,
        end_byte: range.end_byte,
        start_point: Point { row: range.start_point.row, column: range.start_point.column },
        end_point: Point { row: range.end_point.row, column: range.end_point.column },
    }
}

/// Writes a node as an S-expression with `tree_sitter::Node::to_sexp`.
#[verifier::external_body]
fn sexp_of(node: &SyntaxNode<'_>) -> (sexp: String)
    ensures
        sexp@ == node_sexp(node_view(*node)),
{
    node.to_sexp()
}

/// Takes the parent of a node with `tree_sitter::Node::parent`. All nodes but the root have one,
/// and it comes before the node in a depth-first walk. For a node without any text the result can
/// be another node that comes before it.
#[verifier::external_body]
fn parent_of<'tree>(node: &SyntaxNode<'tree>) -> (parent: Option<SyntaxNode<'tree>>)
    ensures
        parent is None <==> node_view(*node).number == 0,
        parent matches Some(parent) ==> {
            &&& node_view(parent) == node_view(*node).other(parent_number(node_view(*node)))
            &&& node_view(parent).number < node_view(*node).number
        },
{
    node.parent()
}

/// Finds a node below another with `tree_sitter::Node::descendant_for_point_range` on a range
/// that begins and ends at one point. There always is one: at worst the node itself.
#[verifier::external_body]
fn descendant_at<'tree>(node: &SyntaxNode<'tree>, row: u32, column: u32) -> (found: Option<
    SyntaxNode<'tree>,
>)
    ensures
        found matches Some(found) && node_view(found) == node_view(*node).other(
            descendant_number(node_view(*node), row, column),
        ),
{
    let point = tree_sitter::Point::new(row as usize, column as usize);
    node.descendant_for_point_range(point, point)
}

/// Finds a named node below another with `tree_sitter::Node::named_descendant_for_point_range` on
/// a range that begins and ends at one point. There always is one: at worst the node itself.
#[verifier::external_body]
fn named_descendant_at<'tree>(node: &SyntaxNode<'tree>, row: u32, column: u32) -> (found: Option<
    SyntaxNode<'tree>,
>)
    ensures
        found matches Some(found) && node_view(found) == node_view(*node).other(
            named_descendant_number(node_view(*node), row, column),
        ),
{
    let point = tree_sitter::Point::new(row as usize, column as usize);
    node.named_descendant_for_point_range(point, point)
}

/// A language that the parser is compatible with.
pub struct Grammar {
    language: Language,
}

impl View for Grammar {
    type V = Language;

    closed spec fn view(&self) -> Language {
        self.language
    }
}

impl Grammar {
    #[verifier::type_invariant]
    spec fn supported(self) -> bool {
        language_supported(self.language)
    }

    /// Returns a grammar for `language`, or nothing if the parser is not compatible with it.
    pub fn new(language: Language) -> (grammar: Option<Grammar>)
        ensures
            grammar is Some <==> language_supported(language),
            grammar matches Some(grammar) ==> grammar@ == language,
    {
        if accepts_language(language) {
            Some(Grammar { language })
        } else {
            None
        }
    }
}

/// The syntax tree of a text.
#[derive(Debug)]
pub struct Tree {
    tree: SyntaxTree,
}

/// A node of a syntax tree.
#[derive(Debug)]
pub struct Node<'tree> {
    node: SyntaxNode<'tree>,
}

impl View for Tree {
    type V = TreeView;

    closed spec fn view(&self) -> TreeView {
        tree_view(self.tree)
    }
}

impl<'tree> View for Node<'tree> {
    type V = NodeView;

    closed spec fn view(&self) -> NodeView {
        node_view(self.node)
    }
}

/// The root of a tree.
pub open spec fn root_view(tree: TreeView) -> NodeView {
    NodeView { language: tree.language, text: tree.text, number: 0 }
}

/// The smallest node at a position.
pub open spec fn node_at(tree: TreeView, position: Position) -> NodeView {
    root_view(tree).other(
        descendant_number(root_view(tree), position.line, position.character),
    )
}

/// The smallest named node at a position.
pub open spec fn named_node_at(tree: TreeView, position: Position) -> NodeView {
    root_view(tree).other(
        named_descendant_number(root_view(tree), position.line, position.character),
    )
}

/// A node, its parent, and so on up to the root.
pub open spec fn lineage(node: NodeView) -> Seq<NodeView>
    decreases node.number,
{
    let parent = parent_number(node);
    if parent < node.number {
        seq![node] + lineage(node.other(parent))
    } else {
        seq![node]
    }
}

impl Tree {
    /// The parser's own tree.
    pub closed spec fn syntax(&self) -> SyntaxTree {
        self.tree
    }

    /// Parses a text.
    pub fn new(grammar: &Grammar, text: &str) -> (tree: Option<Tree>)
        ensures
            tree matches Some(tree) && tree@ == (TreeView { language: grammar@, text: text@ }),
    {
        proof {
            use_type_invariant(grammar);
        }
        match parse_text(grammar.language, text) {
            Some(tree) => Some(Tree { tree }),
            None => None,
        }
    }

    /// Returns the root of this tree.
    pub fn root_node(&self) -> (node: Node<'_>)
        ensures
            node@ == root_view(self@),
    {
        Node { node: root_of(&self.tree) }
    }

    /// Returns the smallest node at a position.
    pub fn descendant_for_position(&self, position: &Position) -> (node: Option<Node<'_>>)
        ensures
            node matches Some(node) && node@ == node_at(self@, *position),
    {
        match descendant_at(&root_of(&self.tree), position.line, position.character) {
            Some(node) => Some(Node { node }),
            None => None,
        }
    }

    /// Returns the smallest named node at a position.
    pub fn named_descendant_for_position(&self, position: &Position) -> (node: Option<Node<'_>>)
        ensures
            node matches Some(node) && node@ == named_node_at(self@, *position),
    {
        match named_descendant_at(&root_of(&self.tree), position.line, position.character) {
            Some(node) => Some(Node { node }),
            None => None,
        }
    }
}

impl<'tree> Node<'tree> {
    /// The parser's own node.
    pub closed spec fn syntax(&self) -> SyntaxNode<'tree> {
        self.node
    }

    /// Returns the kind of this node, as its grammar calls it.
    pub fn kind(&self) -> (kind: String)
        ensures
            kind@ == node_kind(self@),
    {
        kind_of(&self.node)
    }

    /// Returns the part of the text that this node covers.
    pub fn range(&self) -> (range: NodeRange)
        ensures
            range == node_range(self@),
    {
        range_of_node(&self.node)
    }

    /// Returns this node and those below it as an S-expression.
    pub fn to_sexp(&self) -> (sexp: String)
        ensures
            sexp@ == node_sexp(self@),
    {
        sexp_of(&self.node)
    }

    /// Returns the parent of this node, which all nodes but the root have.
    pub fn parent(&self) -> (parent: Option<Node<'tree>>)
        ensures
            parent is None <==> self@.number == 0,
            parent matches Some(parent) ==> {
                &&& parent@ == self@.other(parent_number(self@))
                &&& parent@.number < self@.number
            },
    {
        match parent_of(&self.node) {
            Some(node) => Some(Node { node }),
            None => None,
        }
    }

    /// Returns this node, its parent, and so on up to the root.
    pub fn ancestors(self) -> (nodes: Vec<Node<'tree>>)
        ensures
            nodes@.map_values(|node: Node<'tree>| node@) == lineage(self@),
            nodes@.len() > 0,
            nodes@[0]@ == self@,
            forall|i: int, j: int|
                0 <= i && j == i + 1 && j < nodes@.len() ==> (#[trigger] nodes@[j])@ == (
                #[trigger] nodes@[i])@.other(parent_number(nodes@[i]@)),
            nodes@.last()@.number == 0,
    {
        let ghost start = self@;
        let mut nodes: Vec<Node<'tree>> = Vec::new();
        let mut node = self;
        loop
            invariant_except_break
                nodes@.map_values(|node: Node<'tree>| node@) + lineage(node@) == lineage(start),
            ensures
                nodes@.map_values(|node: Node<'tree>| node@) == lineage(start),
                nodes@.len() > 0,
                nodes@.last()@.number == 0,
            decreases node@.number,
        {
            let ghost above = nodes@.map_values(|node: Node<'tree>| node@);
            let parent = node.parent();
            let ghost current = node@;
            nodes.push(node);
            assert(nodes@.map_values(|node: Node<'tree>| node@) =~= above.push(current));
            match parent {
                Some(parent) => {
                    assert(above + lineage(current) =~= above.push(current) + lineage(parent@));
                    node = parent;
                },
                None => {
                    assert(above + lineage(current) =~= above.push(current));
                    break;
                },
            }
        }
        proof {
            let views = nodes@.map_values(|node: Node<'tree>| node@);
            law_lineage_follows_parents(start);
            assert(views[0] == nodes@[0]@);
            assert forall|i: int, j: int|
                0 <= i && j == i + 1 && j < nodes@.len() implies (#[trigger] nodes@[j])@ == (
            #[trigger] nodes@[i])@.other(parent_number(nodes@[i]@)) by {
                assert(views[i] == nodes@[i]@ && views[j] == nodes@[j]@);
            }
        }
        nodes
    }
}

impl Clone for Tree {
    fn clone(&self) -> (copy: Self)
        ensures
            copy@ == self@,
            copy != *self,
            copy.syntax() != self.syntax(),
    {
        Tree { tree: copy_of(&self.tree) }
    }
}

impl PartialEq for Tree {
    fn eq(&self, other: &Self) -> (same: bool) {
        same_root(&self.tree, &other.tree)
    }
}

impl vstd::std_specs::cmp::PartialEqSpecImpl for Tree {
    open spec fn obeys_eq_spec() -> bool {
        true
    }

    open spec fn eq_spec(&self, other: &Self) -> bool {
        self.syntax() == other.syntax()
    }
}

/// Trees are equal exactly if they wrap the same tree of the parser, and that is so exactly if they
/// are one and the same. Trees of the same text are not equal for that alone.
pub proof fn law_equal_trees_wrap_the_same_tree(one: Tree, other: Tree)
    ensures
        one.eq_spec(&other) <==> one.syntax() == other.syntax(),
        one.eq_spec(&other) <==> one == other,
        one.eq_spec(&other) ==> one@ == other@,
{
}

/// Equality of trees is an equivalence.
pub proof fn law_tree_equality_is_an_equivalence(a: Tree, b: Tree, c: Tree)
    ensures
        a.eq_spec(&a),
        a.eq_spec(&b) ==> b.eq_spec(&a),
        a.eq_spec(&b) && b.eq_spec(&c) ==> a.eq_spec(&c),
{
}

/// The line of a node begins with the node itself, and each node in it but the last is followed by
/// its own parent, so that no node is left out and none occurs twice. The last has no parent that
/// comes before it.
pub proof fn law_lineage_follows_parents(node: NodeView)
    ensures
        lineage(node).len() > 0,
        lineage(node)[0] == node,
        forall|i: int, j: int|
            0 <= i && j == i + 1 && j < lineage(node).len() ==> #[trigger] lineage(node)[j] == (
            #[trigger] lineage(node)[i]).other(parent_number(lineage(node)[i])),
        forall|i: int, j: int|
            0 <= i < j < lineage(node).len() ==> (#[trigger] lineage(node)[j]).number < (
            #[trigger] lineage(node)[i]).number,
        parent_number(lineage(node).last()) >= lineage(node).last().number,
    decreases node.number,
{
    let line = lineage(node);
    let parent = parent_number(node);
    if parent < node.number {
        let rest = lineage(node.other(parent));
        law_lineage_follows_parents(node.other(parent));
        assert(line == seq![node] + rest);
        assert forall|i: int, j: int| 0 <= i && j == i + 1 && j < line.len() implies
            #[trigger] line[j] == (#[trigger] line[i]).other(parent_number(line[i])) by {
            assert(line[j] == rest[j - 1]);
            if i > 0 {
                assert(line[i] == rest[i - 1]);
            }
        }
        assert forall|i: int, j: int| 0 <= i < j < line.len() implies (
        #[trigger] line[j]).number < (#[trigger] line[i]).number by {
            assert(line[j] == rest[j - 1]);
            if i > 0 {
                assert(line[i] == rest[i - 1]);
            } else if j > 1 {
                assert(rest[j - 1].number < rest[0].number);
            }
        }
        assert(line.last() == rest.last());
    }
}

/// Where every node but the root has a parent that comes before it, the line of a node ends with
/// the root.
pub proof fn law_lineage_ends_with_root(node: NodeView)
    requires
        forall|number: nat| 0 < number ==> #[trigger] parent_number(node.other(number)) < number,
    ensures
        lineage(node).last() == node.other(0),
    decreases node.number,
{
    assert(node.other(node.number) == node);
    if node.number > 0 {
        let parent = node.other(parent_number(node));
        assert forall|number: nat| 0 < number implies #[trigger] parent_number(parent.other(number))
            < number by {
            assert(parent.other(number) == node.other(number));
        }
        law_lineage_ends_with_root(parent);
        assert(lineage(node) == seq![node] + lineage(parent));
        assert(lineage(node).last() == lineage(parent).last());
    }
}

/// However far one goes from a node to its parent, to the parent of that, and so on, the nodes on
/// the way are the beginning of the node's line.
pub proof fn law_climbing_stays_in_lineage(climb: Seq<NodeView>)
    requires
        climb.len() > 0,
        forall|i: int, j: int|
            0 <= i && j == i + 1 && j < climb.len() ==> #[trigger] climb[j] == (
            #[trigger] climb[i]).other(parent_number(climb[i])) && climb[j].number
                < climb[i].number,
    ensures
        climb.is_prefix_of(lineage(climb[0])),
    decreases climb.len(),
{
    let node = climb[0];
    let line = lineage(node);
    law_lineage_follows_parents(node);
    if climb.len() > 1 {
        let rest = climb.drop_first();
        assert(climb[1] == climb[0].other(parent_number(climb[0])));
        assert forall|i: int, j: int| 0 <= i && j == i + 1 && j < rest.len() implies
            #[trigger] rest[j] == (#[trigger] rest[i]).other(parent_number(rest[i]))
            && rest[j].number < rest[i].number by {
            assert(rest[i] == climb[i + 1] && rest[j] == climb[j + 1]);
        }
        law_climbing_stays_in_lineage(rest);
        assert(line == seq![node] + lineage(rest[0]));
        assert forall|i: int| 0 <= i < climb.len() implies climb[i] == line[i] by {
            if i > 0 {
                assert(climb[i] == rest[i - 1]);
            }
        }
    }
    assert(climb =~= line.take(climb.len() as int));
}

/// The nodes at a position are found from the root of the same tree, by the line as the row and the
/// character as the column.
pub proof fn law_nodes_are_found_from_the_root(tree: TreeView, position: Position)
    ensures
        root_view(tree).language == tree.language,
        root_view(tree).text == tree.text,
        root_view(tree).number == 0,
        node_at(tree, position).language == tree.language,
        node_at(tree, position).text == tree.text,
        node_at(tree, position).number == descendant_number(
            NodeView { language: tree.language, text: tree.text, number: 0 },
            position.line,
            position.character,
        ),
        named_node_at(tree, position).language == tree.language,
        named_node_at(tree, position).text == tree.text,
        named_node_at(tree, position).number == named_descendant_number(
            NodeView { language: tree.language, text: tree.text, number: 0 },
            position.line,
            position.character,
        ),
{
}

/// The nodes above a node are among those above every node below it.
pub proof fn law_lineages_are_nested(node: NodeView, above: NodeView, other: NodeView)
    requires
        lineage(node).contains(above),
        lineage(above).contains(other),
    ensures
        lineage(node).contains(other),
    decreases node.number,
{
    let parent = parent_number(node);
    if above != node {
        assert(parent < node.number);
        let rest = lineage(node.other(parent));
        assert(lineage(node) == seq![node] + rest);
        let i = lineage(node).index_of(above);
        assert(rest[i - 1] == above);
        law_lineages_are_nested(node.other(parent), above, other);
        let j = rest.index_of(other);
        assert(lineage(node)[j + 1] == other);
    }
}

impl Eq for Tree {

}

impl std::ops::Deref for Tree {
    type Target = SyntaxTree;

    fn deref(&self) -> (tree: &SyntaxTree)
        ensures
            *tree == self.syntax(),
            tree_view(*tree) == self@,
    {
        &self.tree
    }
}

impl<'tree> std::ops::Deref for Node<'tree> {
    type Target = SyntaxNode<'tree>;

    fn deref(&self) -> (node: &SyntaxNode<'tree>)
        ensures
            *node == self.syntax(),
            node_view(*node) == self@,
    {
        &self.node
    }
}

/// Texts that can be parsed by the name of their file.
pub trait Parse {
    /// The text of a file, if it is known.
    spec fn text_of(&self, file: Seq<char>) -> Option<Seq<char>>;

    /// Returns the syntax tree of a file.
    fn parse(&self, grammar: &Grammar, file: &str) -> (tree: Option<Tree>)
        requires
            self.text_of(file@) is Some,
        ensures
            tree matches Some(tree) && tree@ == (TreeView {
                language: grammar@,
                text: self.text_of(file@)->0,
            }),
    ;
}

} // verus!
