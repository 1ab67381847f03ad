//! What a client is shown about the place that it points at.

use crate::parse::{Node, NodeView, Tree};
use crate::position::{to_range, NodeRange, Position, Range};
use crate::query::{Decl, DeclView};
use crate::text::text_between_offsets;
use vstd::prelude::*;

verus! {

/// A piece of text that is shown.
#[derive(Debug)]
pub enum MarkedString {
    /// Code in some language.
    Code { language: String, value: String },
    /// Text that is shown as it is.
    Plain(String),
}

/// A piece of shown text in mathematical terms.
pub ghost enum MarkedView {
    Code { language: Seq<char>, value: Seq<char> },
    Plain(Seq<char>),
}

/// What is shown.
#[derive(Debug)]
pub struct Hover {
    pub contents: Vec<MarkedString>,
    pub range: Option<Range>,
}

/// What is shown, in mathematical terms.
#[verifier::ext_equal]
pub ghost struct HoverView {
    pub contents: Seq<MarkedView>,
    pub range: Option<Range>,
}

/// The server cannot answer a request.
#[derive(Clone, Copy, Debug, PartialEq, Eq, Structural)]
pub struct InternalError;

/// What is known of a node that a client points at.
#[derive(Debug)]
pub struct HoveredNode {
    pub kind: String,
    pub range: NodeRange,
    /// The syntax tree below the node as an S-expression, if it is to be shown.
    pub sexp: Option<String>,
}

/// What is known of a node, in mathematical terms.
pub ghost struct HoveredView {
    pub kind: Seq<char>,
    pub range: NodeRange,
    pub sexp: Option<Seq<char>>,
}

impl View for MarkedString {
    type V = MarkedView;

    open spec fn view(&self) -> MarkedView {
        match self {
            MarkedString::Code { language, value } => MarkedView::Code {
                language: language@,
                value: value@,
            },
            MarkedString::Plain(text) => MarkedView::Plain(text@),
        }
    }
}

impl View for Hover {
    type V = HoverView;

    open spec fn view(&self) -> HoverView {
        HoverView {
            contents: self.contents@.map_values(|content: MarkedString| content@),
            range: self.range,
        }
    }
}

impl View for HoveredNode {
    type V = HoveredView;

    open spec fn view(&self) -> HoveredView {
        HoveredView {
            kind: self.kind@,
            range: self.range,
            sexp: crate::text::optional_text(self.sexp),
        }
    }
}

/// What is known of a node. In debug mode the syntax tree below it is to be shown.
pub open spec fn hovered_of(node: NodeView, debug: bool) -> HoveredView {
    HoveredView {
        kind: crate::parse::node_kind(node),
        range: crate::parse::node_range(node),
        sexp: if debug {
            Some(crate::parse::node_sexp(node))
        } else {
            None
        },
    }
}

/// Whether the part that a node covers lies within a text.
pub open spec fn covers_part_of(range: NodeRange, source: Seq<char>) -> bool {
    range.start_byte <= range.end_byte <= vstd::utf8::encode_utf8(source).len()
}

/// Whether a node is an identifier, so that there can be a declaration for it.
pub open spec fn is_identifier(node: HoveredView) -> bool {
    node.kind == "id"@
}

/// What is shown about a node with the text `text`: the text itself, the syntax tree below the
/// node if it is to be shown, and for an identifier with a declaration the documentation of that.
pub open spec fn hover_of(
    node: HoveredView,
    text: Seq<char>,
    decl: Option<DeclView>,
) -> HoverView {
    let code = seq![MarkedView::Code { language: "zeek"@, value: text }];
    let syntax = match node.sexp {
        Some(sexp) => seq![MarkedView::Code { language: "lisp"@, value: sexp }],
        None => seq![],
    };
    let documentation = match decl {
        Some(decl) => if is_identifier(node) {
            seq![MarkedView::Plain(decl.documentation)]
        } else {
            seq![]
        },
        None => seq![],
    };
    HoverView {
        contents: code + syntax + documentation,
        range: crate::position::range_of(node.range),
    }
}

/// An optional declaration in mathematical terms.
pub open spec fn optional_decl(decl: Option<&Decl>) -> Option<DeclView> {
    match decl {
        Some(decl) => Some(decl@),
        None => None,
    }
}

/// Returns the node that a client points at, or nothing if the document has no syntax tree.
pub fn hovered_node<'tree>(tree: &'tree Option<Tree>, position: &Position) -> (node: Option<
    Node<'tree>,
>)
    ensures
        match tree {
            Some(tree) => node matches Some(node) && node@ == crate::parse::named_node_at(
                tree@,
                *position,
            ),
            None => node is None,
        },
{
    match tree {
        Some(tree) => tree.named_descendant_for_position(position),
        None => None,
    }
}

impl HoveredNode {
    /// Returns what is known of a node. In debug mode the syntax tree below it is to be shown.
    pub fn new(node: &Node<'_>, debug: bool) -> (hovered: HoveredNode)
        ensures
            hovered@ == hovered_of(node@, debug),
    {
        let sexp = if debug {
            Some(node.to_sexp())
        } else {
            None
        };
        HoveredNode { kind: node.kind(), range: node.range(), sexp }
    }

    /// Returns whether this node is an identifier, so that there can be a declaration for it.
    pub fn is_identifier(&self) -> (identifier: bool)
        ensures
            identifier == is_identifier(self@),
    {
        self.kind == "id".to_owned()
    }
}

/// Returns what is shown about a node of a document, given the declaration for it if there is one.
///
/// # Errors
///
/// Returns `Err` if the node's part of the document is no text by itself.
pub fn hover(node: &HoveredNode, source: &str, decl: Option<&Decl>) -> (hover: Result<
    Hover,
    InternalError,
>)
    requires
        covers_part_of(node.range, source@),
    ensures
        match crate::text::text_between(
            source@,
            node.range.start_byte as int,
            node.range.end_byte as int,
        ) {
            Some(text) => hover matches Ok(hover) && hover@ == hover_of(
                node@,
                text,
                optional_decl(decl),
            ),
            None => hover == Err::<Hover, _>(InternalError),
        },
{
    let text = match text_between_offsets(source, node.range.start_byte, node.range.end_byte) {
        Some(text) => text,
        None => return Err(InternalError),
    };
    let ghost shown = text@;
    let mut contents: Vec<MarkedString> = Vec::new();
    contents.push(MarkedString::Code { language: "zeek".to_owned(), value: text });
    if let Some(sexp) = &node.sexp {
        contents.push(MarkedString::Code { language: "lisp".to_owned(), value: sexp.clone() });
    }
    if node.is_identifier() {
        if let Some(decl) = decl {
            contents.push(MarkedString::Plain(decl.documentation.clone()));
        }
    }
    let hover = Hover { contents, range: to_range(node.range) };
    assert(hover@ =~= hover_of(node@, shown, optional_decl(decl)));
    Ok(hover)
}

/// What is shown always begins with the node's own text as Zeek code, and a documentation is shown
/// for identifiers only.
pub proof fn law_hover_contents(
    node: HoveredView,
    text: Seq<char>,
    decl: Option<DeclView>,
    i: int,
)
    requires
        0 <= i < hover_of(node, text, decl).contents.len(),
    ensures
        hover_of(node, text, decl).contents[0] == (MarkedView::Code {
            language: "zeek"@,
            value: text,
        }),
        hover_of(node, text, decl).contents[i] is Plain ==> {
            &&& is_identifier(node)
            &&& decl is Some
            &&& hover_of(node, text, decl).contents[i] == MarkedView::Plain(
                decl->0.documentation,
            )
        },
{
}

/// Identifiers are the nodes of the kind `id` and no others.
pub proof fn law_identifiers_are_of_one_kind(node: HoveredView)
    ensures
        is_identifier(node) <==> node.kind == seq!['i', 'd'],
{
    reveal_strlit("id");
    assert("id"@ =~= seq!['i', 'd']);
}

/// All that is known of a node is its own: its kind, its range, and in debug mode, and only then,
/// its syntax tree.
pub proof fn law_hovered_node_is_the_node(node: NodeView, debug: bool)
    ensures
        hovered_of(node, debug).kind == crate::parse::node_kind(node),
        hovered_of(node, debug).range == crate::parse::node_range(node),
        hovered_of(node, debug).sexp is Some <==> debug,
        debug ==> hovered_of(node, debug).sexp == Some(crate::parse::node_sexp(node)),
{
}

/// A node covers a part of a text exactly if it does not end before it begins or after the text.
pub proof fn law_part_ends_within_the_text(range: NodeRange, source: Seq<char>)
    ensures
        covers_part_of(range, source) <==> {
            &&& range.start_byte <= range.end_byte
            &&& range.end_byte <= vstd::utf8::encode_utf8(source).len()
        },
{
}

/// What is shown is the text as Zeek code, then the syntax tree if there is one to show, then the
/// documentation if the node is an identifier with a declaration, and nothing else. Whether one of
/// the two is shown does not depend on the other.
pub proof fn law_hover_shows_text_syntax_and_documentation(
    node: HoveredView,
    text: Seq<char>,
    decl: Option<DeclView>,
)
    ensures
        ({
            let contents = hover_of(node, text, decl).contents;
            let documented = node.kind == "id"@ && decl is Some;
            &&& contents.len() == 1 + (if node.sexp is Some {
                1int
            } else {
                0
            }) + (if documented {
                1int
            } else {
                0
            })
            &&& contents[0] == MarkedView::Code { language: "zeek"@, value: text }
            &&& node.sexp matches Some(sexp) ==> contents[1] == (MarkedView::Code {
                language: "lisp"@,
                value: sexp,
            })
            &&& documented ==> contents.last() == MarkedView::Plain(decl->0.documentation)
        }),
{
}

/// The documentation of an identifier's declaration comes last in what is shown, with or without a
/// syntax tree.
pub proof fn law_documentation_is_shown(
    node: HoveredView,
    text: Seq<char>,
    decl: DeclView,
)
    requires
        is_identifier(node),
    ensures
        hover_of(node, text, Some(decl)).contents.len() > 0,
        hover_of(node, text, Some(decl)).contents.last() == MarkedView::Plain(decl.documentation),
        hover_of(node, text, Some(decl)).contents.drop_last() == hover_of(
            node,
            text,
            None,
        ).contents,
{
    assert(hover_of(node, text, Some(decl)).contents.drop_last() =~= hover_of(
        node,
        text,
        None,
    ).contents);
}

/// Debug mode adds the syntax tree right behind the text and changes nothing else.
pub proof fn law_debug_mode_adds_the_syntax_tree(
    node: NodeView,
    text: Seq<char>,
    decl: Option<DeclView>,
)
    ensures
        hover_of(hovered_of(node, true), text, decl).contents == hover_of(
            hovered_of(node, false),
            text,
            decl,
        ).contents.insert(
            1,
            MarkedView::Code { language: "lisp"@, value: crate::parse::node_sexp(node) },
        ),
        hover_of(hovered_of(node, true), text, decl).range == hover_of(
            hovered_of(node, false),
            text,
            decl,
        ).range,
{
    assert(hover_of(hovered_of(node, true), text, decl).contents =~= hover_of(
        hovered_of(node, false),
        text,
        decl,
    ).contents.insert(
        1,
        MarkedView::Code { language: "lisp"@, value: crate::parse::node_sexp(node) },
    ));
}

/// The range that is shown begins and ends with the node, and is left out exactly if the protocol
/// cannot count that far.
pub proof fn law_hover_range_is_that_of_the_node(
    node: HoveredView,
    text: Seq<char>,
    decl: Option<DeclView>,
)
    ensures
        ({
            let start = node.range.start_point;
            let end = node.range.end_point;
            let shown = hover_of(node, text, decl).range;
            &&& shown is Some <==> start.row <= 0xffff_ffff && start.column <= 0xffff_ffff
                && end.row <= 0xffff_ffff && end.column <= 0xffff_ffff
            &&& shown matches Some(range) ==> {
                &&& range.start.line == start.row
                &&& range.start.character == start.column
                &&& range.end.line == end.row
                &&& range.end.character == end.column
            }
        }),
{
    crate::position::law_range_keeps_both_ends(node.range);
}

/// What is shown is seen whole: every piece in its place with its language and its text, and the
/// range.
pub proof fn law_hover_is_seen_whole(hover: Hover, i: int)
    requires
        0 <= i < hover.contents@.len(),
    ensures
        hover@.contents.len() == hover.contents@.len(),
        hover@.range == hover.range,
        hover.contents@[i] matches MarkedString::Code { language, value } ==> hover@.contents[i]
            == (MarkedView::Code { language: language@, value: value@ }),
        hover.contents@[i] matches MarkedString::Plain(text) ==> hover@.contents[i]
            == MarkedView::Plain(text@),
{
}

/// What is known of a node is seen whole, and so is a declaration, exactly if it is there.
pub proof fn law_hovered_node_is_seen_whole(node: HoveredNode, decl: Option<&Decl>)
    ensures
        node@.kind == node.kind@,
        node@.range == node.range,
        node@.sexp is Some <==> node.sexp is Some,
        node.sexp matches Some(sexp) ==> node@.sexp == Some(sexp@),
        optional_decl(decl) is Some <==> decl is Some,
        decl matches Some(decl) ==> optional_decl(Some(decl)) == Some(decl@),
{
}

} // verus!
