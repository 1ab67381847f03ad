//! Documents together with their syntax trees, and what a client is told about a place in one.

use crate::completion::completion_node;
use crate::hover::{hover, hovered_node, Hover, HoveredNode, InternalError};
use crate::lsp::Database;
use crate::parse::{Grammar, Node, Parse, Tree, TreeView};
use crate::position::Position;
use crate::query::Decl;
use crate::text::text_between_offsets;
use vstd::prelude::*;

verus! {

/// The text of a document and its syntax tree.
#[derive(Debug)]
pub struct ParsedFile {
    source: String,
    tree: Option<Tree>,
}

impl View for ParsedFile {
    type V = TreeView;

    closed spec fn view(&self) -> TreeView {
        self.tree->0@
    }
}

/// The text of the named node at a position of a document, if the node's part of the document is
/// text by itself.
pub open spec fn named_text_at(file: TreeView, position: Position) -> Option<Seq<char>> {
    let range = crate::parse::node_range(crate::parse::named_node_at(file, position));
    crate::text::text_between(file.text, range.start_byte as int, range.end_byte as int)
}

/// Whether the named node at a position of a document covers a part of the document.
pub open spec fn named_node_in_text(file: TreeView, position: Position) -> bool {
    crate::hover::covers_part_of(
        crate::parse::node_range(crate::parse::named_node_at(file, position)),
        file.text,
    )
}

impl ParsedFile {
    /// The tree is that of the text.
    #[verifier::type_invariant]
    spec fn matching(self) -> bool {
        self.tree matches Some(tree) && tree@.text == self.source@
    }

    /// Returns the text of the document.
    pub fn source(&self) -> (source: &String)
        ensures
            source@ == self@.text,
    {
        proof {
            use_type_invariant(self);
        }
        &self.source
    }

    /// Returns the node that a client points at.
    pub fn hovered_node(&self, position: &Position) -> (node: Option<Node<'_>>)
        ensures
            node matches Some(node) && node@ == crate::parse::named_node_at(self@, *position),
    {
        proof {
            use_type_invariant(self);
        }
        hovered_node(&self.tree, position)
    }

    /// Returns what is known of the node that a client points at. In debug mode the syntax tree
    /// below it is to be shown.
    pub fn hovered(&self, position: &Position, debug: bool) -> (hovered: Option<HoveredNode>)
        ensures
            hovered matches Some(hovered) && hovered@ == crate::hover::hovered_of(
                crate::parse::named_node_at(self@, *position),
                debug,
            ),
    {
        match self.hovered_node(position) {
            Some(node) => Some(HoveredNode::new(&node, debug)),
            None => None,
        }
    }

    /// Returns whether the part that a node covers lies within the document.
    fn covers(&self, hovered: &HoveredNode) -> (covered: bool)
        ensures
            covered == crate::hover::covers_part_of(hovered.range, self@.text),
    {
        let length: usize = self.source().as_str().as_bytes().len();
        hovered.range.start_byte <= hovered.range.end_byte && hovered.range.end_byte <= length
    }

    /// Returns the identifier that a client points at, for which there can be a declaration, or
    /// nothing if the client points at something else.
    pub fn identifier_at(&self, position: &Position) -> (identifier: Option<String>)
        ensures
            crate::text::optional_text(identifier) == (if crate::parse::node_kind(
                crate::parse::named_node_at(self@, *position),
            ) == "id"@ && named_node_in_text(self@, *position) {
                named_text_at(self@, *position)
            } else {
                None
            }),
    {
        match self.hovered(position, false) {
            Some(hovered) => {
                if hovered.is_identifier() && self.covers(&hovered) {
                    text_between_offsets(
                        self.source().as_str(),
                        hovered.range.start_byte,
                        hovered.range.end_byte,
                    )
                } else {
                    None
                }
            },
            None => None,
        }
    }

    /// Returns what a client is shown about the place that it points at, given the declaration of
    /// the identifier there if there is one. In debug mode that includes the syntax tree. Returns
    /// nothing if the node at that place does not lie within the document.
    pub fn hover(&self, position: &Position, decl: Option<&Decl>, debug: bool) -> (shown: Option<
        Result<Hover, InternalError>,
    >)
        ensures
            shown is Some <==> named_node_in_text(self@, *position),
            shown matches Some(shown) ==> match named_text_at(self@, *position) {
                Some(text) => shown matches Ok(shown) && shown@ == crate::hover::hover_of(
                    crate::hover::hovered_of(
                        crate::parse::named_node_at(self@, *position),
                        debug,
                    ),
                    text,
                    crate::hover::optional_decl(decl),
                ),
                None => shown == Err::<Hover, _>(InternalError),
            },
    {
        match self.hovered(position, debug) {
            Some(hovered) => {
                if self.covers(&hovered) {
                    Some(hover(&hovered, self.source().as_str(), decl))
                } else {
                    None
                }
            },
            None => None,
        }
    }

    /// Returns the nodes whose declarations are visible at a position: the smallest node there, its
    /// parent, and so on up to the root.
    pub fn completion_line(&self, position: &Position) -> (nodes: Option<Vec<Node<'_>>>)
        ensures
            nodes matches Some(nodes) && nodes@.map_values(|node: Node<'_>| node@)
                == crate::parse::lineage(crate::parse::node_at(self@, *position)),
            nodes matches Some(nodes) && {
                &&& nodes@.len() > 0
                &&& nodes@[0]@ == crate::parse::node_at(self@, *position)
                &&& forall|i: int, j: int|
                    0 <= i && j == i + 1 && j < nodes@.len() ==> (#[trigger] nodes@[j])@ == (
                    #[trigger] nodes@[i])@.other(crate::parse::parent_number(nodes@[i]@))
                &&& nodes@.last()@.number == 0
            },
    {
        proof {
            use_type_invariant(self);
        }
        match completion_node(&self.tree, position) {
            Some(node) => Some(node.ancestors()),
            None => None,
        }
    }
}

impl Database {
    /// Returns a document with its syntax tree.
    pub fn parsed(&self, grammar: &Grammar, uri: &str) -> (file: ParsedFile)
        requires
            self@.contents.contains_key(uri@),
        ensures
            file@ == (TreeView { language: grammar@, text: self@.contents[uri@].source }),
    {
        let tree = self.parse(grammar, uri);
        let source = self.file(uri).source.clone();
        ParsedFile { source, tree }
    }

    /// Returns what is known of the node that a client points at in a document. In debug mode the
    /// syntax tree below it is to be shown.
    pub fn hovered(
        &self,
        grammar: &Grammar,
        uri: &str,
        position: &Position,
        debug: bool,
    ) -> (hovered: Option<HoveredNode>)
        requires
            self@.contents.contains_key(uri@),
        ensures
            hovered matches Some(hovered) && hovered@ == crate::hover::hovered_of(
                crate::parse::named_node_at(
                    TreeView { language: grammar@, text: self@.contents[uri@].source },
                    *position,
                ),
                debug,
            ),
    {
        self.parsed(grammar, uri).hovered(position, debug)
    }
}

/// The node at a position lies in a document exactly if it does not end before it begins or after
/// the document.
pub proof fn law_node_in_text(file: TreeView, position: Position)
    ensures
        ({
            let range = crate::parse::node_range(crate::parse::named_node_at(file, position));
            named_node_in_text(file, position) <==> range.start_byte <= range.end_byte
                && range.end_byte <= vstd::utf8::encode_utf8(file.text).len()
        }),
{
}

/// The text that is shown of a node in a document has just the bytes that the node covers there.
pub proof fn law_shown_text_is_that_of_the_node(
    file: TreeView,
    position: Position,
    text: Seq<char>,
)
    requires
        named_node_in_text(file, position),
    ensures
        ({
            let range = crate::parse::node_range(crate::parse::named_node_at(file, position));
            named_text_at(file, position) == Some(text) <==> vstd::utf8::encode_utf8(text)
                == vstd::utf8::encode_utf8(file.text).subrange(
                range.start_byte as int,
                range.end_byte as int,
            )
        }),
{
    let range = crate::parse::node_range(crate::parse::named_node_at(file, position));
    crate::text::law_text_between_has_the_bytes(
        file.text,
        range.start_byte as int,
        range.end_byte as int,
        text,
    );
}

} // verus!
