use zeek_language_server::completion::{
    completion, to_completion_item, to_completion_item_kind, CompletionItemKind,
};
use zeek_language_server::hover::{hover, HoveredNode, InternalError, MarkedString};
use zeek_language_server::position::{to_position, to_range, NodeRange, Point, Position, Range};
use zeek_language_server::query::{Decl, DeclKind};
use zeek_language_server::symbols::{document_symbol, symbol, to_symbol_kind, SymbolKind};

fn range(line: u32) -> Range {
    Range::new(Position::new(line, 0), Position::new(line, 10))
}

fn decl(module: &str, id: &str, kind: DeclKind, line: u32) -> Decl {
    Decl {
        module: module.to_string(),
        id: id.to_string(),
        kind,
        range: range(line),
        selection_range: Range::new(Position::new(line, 2), Position::new(line, 4)),
        documentation: format!("documents {}", id),
    }
}

const KINDS: [(DeclKind, SymbolKind, CompletionItemKind); 11] = [
    (DeclKind::Global, SymbolKind::Variable, CompletionItemKind::Variable),
    (DeclKind::Variable, SymbolKind::Variable, CompletionItemKind::Variable),
    (DeclKind::Redef, SymbolKind::Variable, CompletionItemKind::Variable),
    (DeclKind::Option, SymbolKind::Property, CompletionItemKind::Property),
    (DeclKind::Const, SymbolKind::Constant, CompletionItemKind::Constant),
    (DeclKind::RedefEnum, SymbolKind::Enum, CompletionItemKind::Enum),
    (DeclKind::RedefRecord, SymbolKind::Interface, CompletionItemKind::Interface),
    (DeclKind::Type, SymbolKind::Class, CompletionItemKind::Class),
    (DeclKind::Func, SymbolKind::Function, CompletionItemKind::Function),
    (DeclKind::Hook, SymbolKind::Operator, CompletionItemKind::Operator),
    (DeclKind::Event, SymbolKind::Event, CompletionItemKind::Event),
];

#[test]
fn declarations_have_kinds() {
    for (kind, symbol, item) in KINDS {
        assert_eq!(to_symbol_kind(kind), symbol);
        assert_eq!(to_completion_item_kind(kind), item);
    }
}

#[test]
fn a_document_without_declarations_has_no_symbols() {
    assert!(document_symbol(&vec![]).is_empty());
}

#[test]
fn symbols_are_grouped_by_runs_of_a_module() {
    let symbols = document_symbol(&vec![
        decl("A", "x", DeclKind::Global, 1),
        decl("A", "y", DeclKind::Func, 2),
        decl("B", "z", DeclKind::Type, 3),
        decl("A", "w", DeclKind::Event, 4),
    ]);
    let names: Vec<&str> = symbols.iter().map(|module| module.symbol.name.as_str()).collect();
    assert_eq!(names, vec!["A", "B", "A"]);
    let children: Vec<Vec<&str>> = symbols
        .iter()
        .map(|module| module.children.iter().map(|child| child.name.as_str()).collect())
        .collect();
    assert_eq!(children, vec![vec!["x", "y"], vec!["z"], vec!["w"]]);
}

#[test]
fn symbols_of_a_document_are_filled_in() {
    let symbols = document_symbol(&vec![decl("A", "y", DeclKind::Func, 2)]);
    let start = Range::new(Position::new(0, 0), Position::new(0, 0));
    assert_eq!(symbols[0].symbol.kind, SymbolKind::Module);
    assert_eq!(symbols[0].symbol.range, start);
    assert_eq!(symbols[0].symbol.selection_range, start);
    let child = &symbols[0].children[0];
    assert_eq!(child.kind, SymbolKind::Function);
    assert_eq!(child.range, range(2));
    assert_eq!(child.selection_range, Range::new(Position::new(2, 2), Position::new(2, 4)));
}

#[test]
fn symbols_of_all_documents_are_listed() {
    let symbols = symbol(
        &vec![
            "file:///a.zeek".to_string(),
            "file:///b.zeek".to_string(),
            "file:///c.zeek".to_string(),
        ],
        &vec![
            vec![decl("A", "x", DeclKind::Const, 1), decl("B", "y", DeclKind::Hook, 2)],
            vec![],
            vec![decl("C", "z", DeclKind::Option, 3)],
        ],
    );
    let listed: Vec<(&str, SymbolKind, &str, Range, &str)> = symbols
        .iter()
        .map(|s| (s.name.as_str(), s.kind, s.uri.as_str(), s.range, s.container_name.as_str()))
        .collect();
    assert_eq!(
        listed,
        vec![
            ("A::x", SymbolKind::Constant, "file:///a.zeek", range(1), "A"),
            ("B::y", SymbolKind::Operator, "file:///a.zeek", range(2), "B"),
            ("C::z", SymbolKind::Property, "file:///c.zeek", range(3), "C"),
        ]
    );
}

#[test]
fn document_and_workspace_symbols_agree() {
    let decls = vec![
        decl("A", "x", DeclKind::Global, 1),
        decl("A", "y", DeclKind::Func, 2),
        decl("B", "z", DeclKind::Type, 3),
    ];
    let mut children = Vec::new();
    for module in document_symbol(&decls) {
        for child in module.children {
            let name = format!("{}::{}", module.symbol.name, child.name);
            children.push((name, child.kind, child.range, module.symbol.name.clone()));
        }
    }
    let listed: Vec<(String, SymbolKind, Range, String)> =
        symbol(&vec!["file:///a.zeek".to_string()], &vec![decls])
            .into_iter()
            .map(|s| (s.name, s.kind, s.range, s.container_name))
            .collect();
    assert_eq!(listed, children);
}

#[test]
fn a_change_leaves_the_symbols_of_other_documents() {
    let files = vec!["file:///a.zeek".to_string(), "file:///b.zeek".to_string()];
    let elsewhere = |decls: Vec<Decl>| -> Vec<String> {
        symbol(&files, &vec![decls, vec![decl("B", "y", DeclKind::Hook, 2)]])
            .into_iter()
            .filter(|s| s.uri != "file:///a.zeek")
            .map(|s| s.name)
            .collect()
    };
    assert_eq!(elsewhere(vec![]), vec!["B::y"]);
    assert_eq!(elsewhere(vec![decl("A", "x", DeclKind::Const, 1)]), vec!["B::y"]);
}

#[test]
fn a_change_sets_the_symbols_of_its_document() {
    let files = vec!["file:///a.zeek".to_string(), "file:///b.zeek".to_string()];
    let own = |decls: Vec<Decl>| -> Vec<String> {
        symbol(&files, &vec![decls, vec![decl("B", "y", DeclKind::Hook, 2)]])
            .into_iter()
            .filter(|s| s.uri == "file:///a.zeek")
            .map(|s| s.name)
            .collect()
    };
    assert!(own(vec![]).is_empty());
    assert_eq!(own(vec![decl("A", "x", DeclKind::Const, 1)]), vec!["A::x"]);
}

#[test]
fn what_is_visible_above_is_completed_below() {
    let above = vec![vec![decl("A", "x", DeclKind::Const, 1)], vec![]];
    let mut below = vec![vec![decl("A", "y", DeclKind::Const, 2)]];
    below.extend(above.clone());
    let offered: Vec<String> = completion(&below).into_iter().map(|item| item.label).collect();
    for item in completion(&above) {
        assert!(offered.contains(&item.label));
    }
}

#[test]
fn a_declaration_completes_to_its_qualified_name() {
    let item = to_completion_item(&decl("Log", "ID", DeclKind::Type, 1));
    assert_eq!(item.label, "Log::ID");
    assert_eq!(item.kind, CompletionItemKind::Class);
    assert_eq!(item.documentation, "documents ID");
}

#[test]
fn every_visible_declaration_is_completed_once() {
    let x = decl("A", "x", DeclKind::Global, 1);
    let y = decl("A", "y", DeclKind::Func, 2);
    let items = completion(&vec![
        vec![x.clone()],
        vec![],
        vec![y.clone(), x.clone()],
        vec![y, x],
    ]);
    let labels: Vec<&str> = items.iter().map(|item| item.label.as_str()).collect();
    assert_eq!(labels, vec!["A::x", "A::y"]);
}

#[test]
fn declarations_of_the_same_name_are_completed_separately() {
    let x = decl("A", "x", DeclKind::Global, 1);
    for other in [
        Decl { module: "B".to_string(), ..x.clone() },
        Decl { id: "y".to_string(), ..x.clone() },
        Decl { kind: DeclKind::Redef, ..x.clone() },
        Decl { range: range(2), ..x.clone() },
        Decl { selection_range: range(2), ..x.clone() },
        Decl { documentation: String::new(), ..x.clone() },
    ] {
        assert_eq!(completion(&vec![vec![x.clone(), other]]).len(), 2);
    }
    assert!(completion(&vec![]).is_empty());
}

fn hovered(kind: &str, start: usize, end: usize) -> HoveredNode {
    HoveredNode {
        kind: kind.to_string(),
        range: NodeRange {
            start_byte: start,
            end_byte: end,
            start_point: Point { row: 0, column: start },
            end_point: Point { row: 0, column: end },
        },
        sexp: None,
    }
}

fn shown(contents: &[MarkedString]) -> Vec<(&str, &str)> {
    contents
        .iter()
        .map(|content| match content {
            MarkedString::Code { language, value } => (language.as_str(), value.as_str()),
            MarkedString::Plain(text) => ("", text.as_str()),
        })
        .collect()
}

#[test]
fn an_identifier_is_shown_with_its_documentation() {
    let x = decl("A", "x", DeclKind::Global, 1);
    let mut node = hovered("id", 7, 8);
    node.sexp = Some("(id)".to_string());
    let shown_at = hover(&node, "global x;", Some(&x)).unwrap();
    assert_eq!(
        shown(&shown_at.contents),
        vec![("zeek", "x"), ("lisp", "(id)"), ("", "documents x")]
    );
    assert_eq!(
        shown_at.range,
        Some(Range::new(Position::new(0, 7), Position::new(0, 8)))
    );
}

#[test]
fn the_syntax_tree_is_shown_only_if_it_is_known() {
    let shown_at = hover(&hovered("id", 7, 8), "global x;", None).unwrap();
    assert_eq!(shown(&shown_at.contents), vec![("zeek", "x")]);
}

#[test]
fn only_identifiers_are_documented() {
    let x = decl("A", "x", DeclKind::Global, 1);
    assert!(hovered("id", 7, 8).is_identifier());
    assert!(!hovered("type", 7, 8).is_identifier());
    let shown_at = hover(&hovered("type", 0, 9), "global x;", Some(&x)).unwrap();
    assert_eq!(shown(&shown_at.contents), vec![("zeek", "global x;")]);
}

#[test]
fn a_node_that_is_no_text_cannot_be_shown() {
    assert_eq!(hover(&hovered("id", 0, 1), "ä", None).unwrap_err(), InternalError);
}

#[test]
fn ranges_that_are_too_large_are_dropped() {
    let mut node = hovered("id", 0, 1);
    node.range.end_point.row = u32::MAX as usize + 1;
    assert_eq!(to_range(node.range), None);
    assert_eq!(hover(&node, "x", None).unwrap().range, None);
    assert_eq!(
        to_position(Point { row: u32::MAX as usize, column: 3 }),
        Some(Position::new(u32::MAX, 3))
    );
    assert_eq!(to_position(Point { row: 0, column: u32::MAX as usize + 1 }), None);
}
