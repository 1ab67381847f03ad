use zeek_language_server::completion::completion_node;
use zeek_language_server::created::CreatedFile;
use zeek_language_server::hover::{hover, hovered_node, HoveredNode, MarkedString};
use zeek_language_server::lsp::{Database, File};
use zeek_language_server::parse::{Grammar, Parse, Tree};
use zeek_language_server::position::{NodeRange, Point, Position};

const SOURCE: &str = "event zeek_init() {}";

const JSON: &str = "{\"a\": [1, 23]}";

/// Any grammar shows that the text of a document reaches the parser; that of JSON comes as a crate.
fn grammar() -> Grammar {
    Grammar::new(tree_sitter_json::language()).unwrap()
}

#[test]
fn can_parse() {
    let mut db = Database::default();
    let uri = CreatedFile::new("/foo/bar.zeek").uri.unwrap();

    db.set_file(uri.clone(), File { uri: uri.clone(), source: SOURCE.to_string() });

    let tree = db.parse(&grammar(), &uri);
    let sexp = tree.map(|t| t.root_node().to_sexp());
    assert_eq!(sexp, Some("(document (ERROR (UNEXPECTED 'e')) (object))".to_string()));
}

#[test]
fn the_root_covers_the_text() {
    let tree = Tree::new(&grammar(), JSON).unwrap();
    let root = tree.root_node();
    assert_eq!(root.kind(), "document");
    assert_eq!(
        root.range(),
        NodeRange {
            start_byte: 0,
            end_byte: 14,
            start_point: Point { row: 0, column: 0 },
            end_point: Point { row: 0, column: 14 },
        }
    );
    assert_eq!(
        root.to_sexp(),
        "(document (object (pair key: (string (string_content)) value: (array (number) (number)))))"
    );
    assert!(root.parent().is_none());
}

#[test]
fn nodes_are_found_by_position() {
    let tree = Tree::new(&grammar(), JSON).unwrap();
    let number = tree.named_descendant_for_position(&Position::new(0, 10)).unwrap();
    assert_eq!(number.kind(), "number");
    assert_eq!(number.range().start_byte, 10);
    assert_eq!(number.range().end_byte, 12);
    let bracket = tree.descendant_for_position(&Position::new(0, 6)).unwrap();
    assert_eq!(bracket.kind(), "[");
    let array = tree.named_descendant_for_position(&Position::new(0, 6)).unwrap();
    assert_eq!(array.kind(), "array");
    let outside = tree.named_descendant_for_position(&Position::new(7, 0)).unwrap();
    assert_eq!(outside.kind(), "document");
}

#[test]
fn the_ancestors_of_a_node_lead_to_the_root() {
    let tree = Some(Tree::new(&grammar(), JSON).unwrap());
    let node = completion_node(&tree, &Position::new(0, 10)).unwrap();
    let kinds: Vec<String> = node.ancestors().iter().map(|node| node.kind()).collect();
    assert_eq!(kinds, vec!["number", "array", "pair", "object", "document"]);
}

#[test]
fn the_root_is_reached_from_everywhere() {
    for text in ["", "{\"a\": }", "[1, {\"b\": [", "[,,]", "nul", "\n\n[1,\n2"] {
        let tree = Tree::new(&grammar(), text).unwrap();
        for line in 0..4 {
            for character in 0..12 {
                let node = tree.descendant_for_position(&Position::new(line, character)).unwrap();
                let nodes = node.ancestors();
                assert!(nodes.last().unwrap().parent().is_none());
            }
        }
    }
}

#[test]
fn without_a_tree_there_is_no_node() {
    assert!(completion_node(&None, &Position::new(0, 0)).is_none());
    assert!(hovered_node(&None, &Position::new(0, 0)).is_none());
}

#[test]
fn a_tree_is_equal_to_itself_only() {
    let one = Tree::new(&grammar(), JSON).unwrap();
    let other = Tree::new(&grammar(), JSON).unwrap();
    assert!(one == one);
    assert!(one != other);
}

#[test]
fn a_tree_gives_access_to_the_parser_s_own() {
    let tree = Tree::new(&grammar(), JSON).unwrap();
    assert_eq!((*tree).root_node().kind(), "document");
    assert_eq!((*tree.root_node()).child_count(), 1);
}

#[test]
fn the_same_text_is_parsed_the_same() {
    let one = Tree::new(&grammar(), JSON).unwrap();
    let other = Tree::new(&grammar(), JSON).unwrap();
    assert_eq!(one.root_node().to_sexp(), other.root_node().to_sexp());
}

#[test]
fn a_document_is_parsed_with_its_last_text() {
    let mut db = Database::default();
    db.initialize(Some(vec![]));
    let uri = "file:///a.json";
    db.did_open(uri.to_string(), "[]".to_string());
    assert_eq!(db.parse(&grammar(), uri).unwrap().root_node().to_sexp(), "(document (array))");
    db.did_open(uri.to_string(), "{}".to_string());
    assert_eq!(db.parse(&grammar(), uri).unwrap().root_node().to_sexp(), "(document (object))");
}

#[test]
fn a_node_is_shown_from_its_document() {
    let tree = Some(Tree::new(&grammar(), JSON).unwrap());
    let node = hovered_node(&tree, &Position::new(0, 10)).unwrap();
    let hovered = HoveredNode::new(&node, true);
    assert_eq!(hovered.kind, "number");
    assert_eq!(hovered.sexp, Some("(number)".to_string()));
    assert_eq!(HoveredNode::new(&node, false).sexp, None);
    let shown = hover(&hovered, JSON, None).unwrap();
    assert_eq!(shown.contents.len(), 2);
    assert!(matches!(&shown.contents[0], MarkedString::Code { language, value }
        if language == "zeek" && value == "23"));
    assert!(matches!(&shown.contents[1], MarkedString::Code { language, value }
        if language == "lisp" && value == "(number)"));
}

#[test]
fn a_copied_tree_is_another_tree_of_the_same_text() {
    let tree = Tree::new(&grammar(), JSON).unwrap();
    let copy = tree.clone();
    assert!(copy != tree);
    assert!(copy == copy);
    assert_eq!(copy.root_node().to_sexp(), tree.root_node().to_sexp());
    assert_eq!(copy.root_node().range(), tree.root_node().range());
}

#[test]
fn the_parser_s_own_tree_is_the_wrapped_one() {
    let tree = Tree::new(&grammar(), JSON).unwrap();
    let other = Tree::new(&grammar(), JSON).unwrap();
    assert!((*tree).root_node() == *tree.root_node());
    assert!((*tree).root_node() != *other.root_node());
}

#[test]
fn trees_and_nodes_can_be_printed() {
    let tree = Tree::new(&grammar(), JSON).unwrap();
    assert!(format!("{:?}", tree).starts_with("Tree"));
    assert!(format!("{:?}", tree.root_node()).starts_with("Node"));
}

fn served(text: &str) -> Database {
    let mut db = Database::default();
    db.initialize(Some(vec![]));
    db.did_open("file:///a.json".to_string(), text.to_string());
    db
}

#[test]
fn a_place_in_a_document_is_shown() {
    let db = served(JSON);
    let file = db.parsed(&grammar(), "file:///a.json");
    assert_eq!(file.source(), JSON);
    let position = Position::new(0, 10);
    let hovered = db.hovered(&grammar(), "file:///a.json", &position, true).unwrap();
    assert_eq!(hovered.kind, "number");
    assert_eq!(hovered.sexp, Some("(number)".to_string()));
    assert_eq!(file.hovered(&position, false).unwrap().sexp, None);
    assert_eq!(file.hovered_node(&position).unwrap().kind(), "number");
    let shown = file.hover(&position, None, false).unwrap().unwrap();
    assert_eq!(shown.contents.len(), 1);
    assert!(matches!(&shown.contents[0], MarkedString::Code { language, value }
        if language == "zeek" && value == "23"));
    assert_eq!(shown.range.unwrap().start, position);
}

#[test]
fn only_identifiers_can_be_declared() {
    let file = served(JSON).parsed(&grammar(), "file:///a.json");
    for character in 0..14 {
        assert_eq!(file.identifier_at(&Position::new(0, character)), None);
    }
}

#[test]
fn declarations_are_looked_for_up_to_the_root() {
    let file = served(JSON).parsed(&grammar(), "file:///a.json");
    let kinds = |character: u32| -> Vec<String> {
        let nodes = file.completion_line(&Position::new(0, character)).unwrap();
        nodes.iter().map(|node| node.kind()).collect()
    };
    assert_eq!(kinds(10), vec!["number", "array", "pair", "object", "document"]);
    assert_eq!(kinds(6), vec!["[", "array", "pair", "object", "document"]);
    assert!(kinds(10).ends_with(&kinds(6)[1..]));
}
