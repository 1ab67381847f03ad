//! The symbols of a document and of all documents.

use crate::lsp::{DatabaseView, FileView};
use crate::position::{Position, Range};
use crate::query::{Decl, DeclKind, DeclView};
use crate::text::qualify;
use itertools::Itertools;
use vstd::prelude::*;

verus! {

/// What a symbol is to a client.
#[derive(Clone, Copy, Debug, PartialEq, Eq, Structural)]
pub enum SymbolKind {
    Module,
    Class,
    Property,
    Enum,
    Interface,
    Function,
    Variable,
    Constant,
    Event,
    Operator,
}

/// The kind of symbol that a declaration is.
pub open spec fn symbol_kind(kind: DeclKind) -> SymbolKind {
    match kind {
        DeclKind::Global | DeclKind::Variable | DeclKind::Redef => SymbolKind::Variable,
        DeclKind::Option => SymbolKind::Property,
        DeclKind::Const => SymbolKind::Constant,
        DeclKind::RedefEnum => SymbolKind::Enum,
        DeclKind::RedefRecord => SymbolKind::Interface,
        DeclKind::Type => SymbolKind::Class,
        DeclKind::Func => SymbolKind::Function,
        DeclKind::Hook => SymbolKind::Operator,
        DeclKind::Event => SymbolKind::Event,
    }
}

/// Returns the kind of symbol that a declaration is.
pub fn to_symbol_kind(kind: DeclKind) -> (symbol: SymbolKind)
    ensures
        symbol == symbol_kind(kind),
{
    match kind {
        DeclKind::Global | DeclKind::Variable | DeclKind::Redef => SymbolKind::Variable,
        DeclKind::Option => SymbolKind::Property,
        DeclKind::Const => SymbolKind::Constant,
        DeclKind::RedefEnum => SymbolKind::Enum,
        DeclKind::RedefRecord => SymbolKind::Interface,
        DeclKind::Type => SymbolKind::Class,
        DeclKind::Func => SymbolKind::Function,
        DeclKind::Hook => SymbolKind::Operator,
        DeclKind::Event => SymbolKind::Event,
    }
}

/// The symbol of one declaration in a document.
#[derive(Debug)]
pub struct DocumentSymbol {
    pub name: String,
    pub kind: SymbolKind,
    pub range: Range,
    pub selection_range: Range,
}

/// A symbol in mathematical terms.
pub ghost struct DocumentSymbolView {
    pub name: Seq<char>,
    pub kind: SymbolKind,
    pub range: Range,
    pub selection_range: Range,
}

/// The symbol of a module in a document, with those of its declarations below it.
#[derive(Debug)]
pub struct ModuleSymbol {
    pub symbol: DocumentSymbol,
    pub children: Vec<DocumentSymbol>,
}

/// The symbol of a module in mathematical terms.
#[verifier::ext_equal]
pub ghost struct ModuleSymbolView {
    pub symbol: DocumentSymbolView,
    pub children: Seq<DocumentSymbolView>,
}

impl View for DocumentSymbol {
    type V = DocumentSymbolView;

    open spec fn view(&self) -> DocumentSymbolView {
        DocumentSymbolView {
            name: self.name@,
            kind: self.kind,
            range: self.range,
            selection_range: self.selection_range,
        }
    }
}

impl View for ModuleSymbol {
    type V = ModuleSymbolView;

    open spec fn view(&self) -> ModuleSymbolView {
        ModuleSymbolView {
            symbol: self.symbol@,
            children: self.children@.map_values(|child: DocumentSymbol| child@),
        }
    }
}

/// The range at the very beginning of a document.
pub open spec fn document_start() -> Range {
    Range {
        start: Position { line: 0, character: 0 },
        end: Position { line: 0, character: 0 },
    }
}

/// The symbol of a declaration.
pub open spec fn document_symbol_of(decl: DeclView) -> DocumentSymbolView {
    DocumentSymbolView {
        name: decl.id,
        kind: symbol_kind(decl.kind),
        range: decl.range,
        selection_range: decl.selection_range,
    }
}

/// The symbol of a run of declarations of one module.
pub open spec fn module_symbol_of(run: Seq<DeclView>) -> ModuleSymbolView {
    ModuleSymbolView {
        symbol: DocumentSymbolView {
            name: run[0].module,
            kind: SymbolKind::Module,
            range: document_start(),
            selection_range: document_start(),
        },
        children: run.map_values(|decl: DeclView| document_symbol_of(decl)),
    }
}

/// The runs of declarations of one module: a declaration belongs to the run of the one before it
/// if both are of the same module, and begins a new run otherwise.
pub open spec fn module_runs(decls: Seq<DeclView>) -> Seq<Seq<DeclView>>
    decreases decls.len(),
{
    if decls.len() == 0 {
        Seq::empty()
    } else {
        let before = module_runs(decls.drop_last());
        let last = decls.last();
        if before.len() > 0 && before.last()[0].module == last.module {
            before.drop_last().push(before.last().push(last))
        } else {
            before.push(seq![last])
        }
    }
}

/// Whether `runs` are declarations cut into the longest runs of one module each: all of them in
/// order, none in an empty run, and no two neighbouring runs of the same module.
pub open spec fn are_module_runs(decls: Seq<DeclView>, runs: Seq<Seq<DeclView>>) -> bool {
    &&& runs.flatten() == decls
    &&& forall|i: int| 0 <= i < runs.len() ==> (#[trigger] runs[i]).len() > 0
    &&& forall|i: int, j: int|
        0 <= i < runs.len() && 0 <= j < runs[i].len() ==> (#[trigger] runs[i][j]).module
            == runs[i][0].module
    &&& forall|i: int, j: int|
        0 <= i && j == i + 1 && j < runs.len() ==> (#[trigger] runs[i])[0].module != (
        #[trigger] runs[j])[0].module
}

/// Runs of borrowed declarations in mathematical terms.
pub open spec fn run_views(runs: Seq<Vec<&Decl>>) -> Seq<Seq<DeclView>> {
    runs.map_values(|run: Vec<&Decl>| crate::query::ref_views(run@))
}

/// Groups declarations by their module with `itertools::Itertools::group_by`, which puts
/// consecutive items with the same key into one group, in order, and begins a new group where the
/// key changes.
#[verifier::external_body]
fn group_by_module<'a>(decls: &'a Vec<Decl>) -> (runs: Vec<Vec<&'a Decl>>)
    ensures
        are_module_runs(crate::query::decl_views(decls@), run_views(runs@)),
{
    let groups = decls.iter().group_by(|decl| &decl.module);
    groups.into_iter().map(|(_, run)| run.collect()).collect()
}

/// There is only one way to cut declarations into the longest runs of one module each.
proof fn lemma_module_runs_unique(decls: Seq<DeclView>, runs: Seq<Seq<DeclView>>)
    requires
        are_module_runs(decls, runs),
    ensures
        runs == module_runs(decls),
    decreases decls.len(),
{
    runs.lemma_flatten_and_flatten_alt_are_equivalent();
    if runs.len() == 0 {
        assert(decls.len() == 0);
    } else {
        let front = runs.drop_last();
        let run = runs.last();
        front.lemma_flatten_and_flatten_alt_are_equivalent();
        assert(run == runs[runs.len() - 1]);
        assert(decls == front.flatten() + run);
        let rest = decls.drop_last();
        let last = decls.last();
        assert(last == run.last());
        assert(run[run.len() - 1].module == run[0].module);
        if run.len() == 1 {
            assert(rest =~= front.flatten());
            assert(are_module_runs(rest, front)) by {
                assert forall|i: int| 0 <= i < front.len() implies (#[trigger] front[i]).len()
                    > 0 by {
                    assert(front[i] == runs[i]);
                }
                assert forall|i: int, j: int|
                    0 <= i < front.len() && 0 <= j < front[i].len() implies (
                #[trigger] front[i][j]).module == front[i][0].module by {
                    assert(front[i] == runs[i]);
                    assert(runs[i][j].module == runs[i][0].module);
                }
                assert forall|i: int, j: int|
                    0 <= i && j == i + 1 && j < front.len() implies (#[trigger] front[i])[0].module
                    != (#[trigger] front[j])[0].module by {
                    assert(front[i] == runs[i] && front[j] == runs[j]);
                }
            }
            lemma_module_runs_unique(rest, front);
            if front.len() > 0 {
                assert(front.last() == runs[runs.len() - 2]);
                assert(runs[runs.len() - 2][0].module != runs[runs.len() - 1][0].module);
            }
            assert(run =~= seq![last]);
            assert(runs =~= front.push(run));
        } else {
            let shorter = front.push(run.drop_last());
            front.lemma_flatten_push(run.drop_last());
            assert(rest =~= shorter.flatten());
            assert(are_module_runs(rest, shorter)) by {
                assert forall|i: int| 0 <= i < shorter.len() implies (#[trigger] shorter[i]).len()
                    > 0 by {
                    if i < front.len() {
                        assert(shorter[i] == runs[i]);
                    }
                }
                assert forall|i: int, j: int|
                    0 <= i < shorter.len() && 0 <= j < shorter[i].len() implies (
                #[trigger] shorter[i][j]).module == shorter[i][0].module by {
                    assert(shorter[i][j] == runs[i][j]);
                    assert(shorter[i][0] == runs[i][0]);
                    assert(runs[i][j].module == runs[i][0].module);
                }
                assert forall|i: int, j: int|
                    0 <= i && j == i + 1 && j < shorter.len() implies (
                #[trigger] shorter[i])[0].module != (#[trigger] shorter[j])[0].module by {
                    assert(shorter[i][0] == runs[i][0] && shorter[j][0] == runs[j][0]);
                    assert(runs[i][0].module != runs[j][0].module);
                }
            }
            lemma_module_runs_unique(rest, shorter);
            assert(shorter.last()[0] == run[0]);
            assert(shorter.drop_last() =~= front);
            assert(run.drop_last().push(last) =~= run);
            assert(runs =~= front.push(run));
        }
    }
}

/// Returns the symbol of a declaration.
fn to_document_symbol(decl: &Decl) -> (symbol: DocumentSymbol)
    ensures
        symbol@ == document_symbol_of(decl@),
{
    DocumentSymbol {
        name: decl.id.clone(),
        kind: to_symbol_kind(decl.kind),
        range: decl.range,
        selection_range: decl.selection_range,
    }
}

/// Returns the symbol of a run of declarations of one module.
fn to_module_symbol(run: &Vec<&Decl>) -> (symbol: ModuleSymbol)
    requires
        run@.len() > 0,
    ensures
        symbol@ == module_symbol_of(crate::query::ref_views(run@)),
{
    let start = Range::new(Position::new(0, 0), Position::new(0, 0));
    let mut children: Vec<DocumentSymbol> = Vec::new();
    for i in 0..run.len()
        invariant
            children@.len() == i,
            forall|j: int|
                0 <= j < i ==> (#[trigger] children@[j])@ == document_symbol_of(run@[j]@),
    {
        children.push(to_document_symbol(run[i]));
    }
    let symbol = DocumentSymbol {
        name: run[0].module.clone(),
        kind: SymbolKind::Module,
        range: start,
        selection_range: start,
    };
    let symbol = ModuleSymbol { symbol, children };
    assert(symbol@ =~= module_symbol_of(crate::query::ref_views(run@)));
    symbol
}

/// The symbols of a document with these declarations.
pub open spec fn document_symbols_of(decls: Seq<DeclView>) -> Seq<ModuleSymbolView> {
    module_runs(decls).map_values(|run: Seq<DeclView>| module_symbol_of(run))
}

/// Returns the symbols of a document with these declarations: one for each run of declarations of
/// the same module, with those of the declarations below it.
pub fn document_symbol(decls: &Vec<Decl>) -> (symbols: Vec<ModuleSymbol>)
    ensures
        symbols@.map_values(|symbol: ModuleSymbol| symbol@) == document_symbols_of(
            crate::query::decl_views(decls@),
        ),
{
    let runs = group_by_module(decls);
    let ghost views = run_views(runs@);
    proof {
        lemma_module_runs_unique(crate::query::decl_views(decls@), views);
    }
    let mut symbols: Vec<ModuleSymbol> = Vec::new();
    for i in 0..runs.len()
        invariant
            views == run_views(runs@),
            forall|j: int| 0 <= j < views.len() ==> (#[trigger] views[j]).len() > 0,
            symbols@.len() == i,
            forall|j: int| 0 <= j < i ==> (#[trigger] symbols@[j])@ == module_symbol_of(views[j]),
    {
        assert(views[i as int].len() > 0);
        symbols.push(to_module_symbol(&runs[i]));
    }
    symbols
}

/// Declarations can be cut into the longest runs of one module each: `module_runs` loses none of
/// them, keeps their order, makes no empty run and no two neighbouring runs of the same module.
pub proof fn law_module_runs(decls: Seq<DeclView>)
    ensures
        are_module_runs(decls, module_runs(decls)),
    decreases decls.len(),
{
    let runs = module_runs(decls);
    if decls.len() == 0 {
        assert(runs.flatten() =~= decls);
    } else {
        let rest = decls.drop_last();
        let last = decls.last();
        let before = module_runs(rest);
        law_module_runs(rest);
        before.lemma_flatten_and_flatten_alt_are_equivalent();
        if before.len() > 0 && before.last()[0].module == last.module {
            let front = before.drop_last();
            let run = before.last();
            assert(run == before[before.len() - 1]);
            front.lemma_flatten_and_flatten_alt_are_equivalent();
            front.lemma_flatten_push(run.push(last));
            assert(rest == front.flatten() + run);
            assert(runs.flatten() == front.flatten() + run.push(last));
            assert(front.flatten() + run.push(last) =~= rest.push(last));
            assert(rest.push(last) =~= decls);
            assert forall|i: int| 0 <= i < runs.len() implies (#[trigger] runs[i]).len() > 0 by {
                if i < front.len() {
                    assert(runs[i] == before[i]);
                }
            }
            assert forall|i: int, j: int|
                0 <= i < runs.len() && 0 <= j < runs[i].len() implies (#[trigger] runs[i][j]).module
                == runs[i][0].module by {
                assert(runs[i][0] == before[i][0]);
                if j < before[i].len() {
                    assert(runs[i][j] == before[i][j]);
                    assert(before[i][j].module == before[i][0].module);
                }
            }
            assert forall|i: int, j: int|
                0 <= i && j == i + 1 && j < runs.len() implies (#[trigger] runs[i])[0].module != (
            #[trigger] runs[j])[0].module by {
                assert(runs[i][0] == before[i][0] && runs[j][0] == before[j][0]);
                assert(before[i][0].module != before[j][0].module);
            }
        } else {
            before.lemma_flatten_push(seq![last]);
            assert(rest + seq![last] =~= decls);
            assert forall|i: int| 0 <= i < runs.len() implies (#[trigger] runs[i]).len() > 0 by {
                if i < before.len() {
                    assert(runs[i] == before[i]);
                }
            }
            assert forall|i: int, j: int|
                0 <= i < runs.len() && 0 <= j < runs[i].len() implies (#[trigger] runs[i][j]).module
                == runs[i][0].module by {
                if i < before.len() {
                    assert(before[i][j].module == before[i][0].module);
                }
            }
            assert forall|i: int, j: int|
                0 <= i && j == i + 1 && j < runs.len() implies (#[trigger] runs[i])[0].module != (
            #[trigger] runs[j])[0].module by {
                if j < before.len() {
                    assert(before[i][0].module != before[j][0].module);
                } else {
                    assert(before.last() == before[i]);
                }
            }
        }
    }
}

/// The children of all symbols of a document are the symbols of all its declarations, in order.
pub proof fn law_every_declaration_has_a_symbol(decls: Seq<DeclView>)
    ensures
        document_symbols_of(decls).map_values(|symbol: ModuleSymbolView| symbol.children).flatten()
            == decls.map_values(|decl: DeclView| document_symbol_of(decl)),
{
    law_module_runs(decls);
    lemma_children(module_runs(decls));
}

/// The children of the symbols of some runs are the symbols of the declarations in those runs.
proof fn lemma_children(runs: Seq<Seq<DeclView>>)
    ensures
        runs.map_values(|run: Seq<DeclView>| module_symbol_of(run)).map_values(
            |symbol: ModuleSymbolView| symbol.children,
        ).flatten() == runs.flatten().map_values(|decl: DeclView| document_symbol_of(decl)),
    decreases runs.len(),
{
    let symbols = runs.map_values(|run: Seq<DeclView>| module_symbol_of(run));
    let children = symbols.map_values(|symbol: ModuleSymbolView| symbol.children);
    let mapped = runs.flatten().map_values(|decl: DeclView| document_symbol_of(decl));
    if runs.len() == 0 {
        assert(children.flatten() =~= mapped);
    } else {
        let rest = runs.drop_first();
        let rest_symbols = rest.map_values(|run: Seq<DeclView>| module_symbol_of(run));
        let rest_children = rest_symbols.map_values(|symbol: ModuleSymbolView| symbol.children);
        lemma_children(rest);
        assert(children.drop_first() =~= rest_children);
        assert(children.flatten() =~= mapped);
    }
}

/// Neighbouring symbols of a document are of different modules, and none is without children.
pub proof fn law_neighbouring_modules_differ(decls: Seq<DeclView>, i: int)
    requires
        0 <= i < document_symbols_of(decls).len(),
    ensures
        document_symbols_of(decls)[i].children.len() > 0,
        i + 1 < document_symbols_of(decls).len() ==> document_symbols_of(decls)[i].symbol.name
            != document_symbols_of(decls)[i + 1].symbol.name,
{
    law_module_runs(decls);
    let runs = module_runs(decls);
    assert(runs[i].len() > 0);
    if i + 1 < runs.len() {
        assert(runs[i][0].module != runs[i + 1][0].module);
    }
}

/// A symbol of some document.
#[derive(Debug)]
pub struct SymbolInformation {
    pub name: String,
    pub kind: SymbolKind,
    /// The document that the symbol is in.
    pub uri: String,
    pub range: Range,
    /// The module that the symbol belongs to.
    pub container_name: String,
}

/// A symbol of some document in mathematical terms.
pub ghost struct SymbolInformationView {
    pub name: Seq<char>,
    pub kind: SymbolKind,
    pub uri: Seq<char>,
    pub range: Range,
    pub container_name: Seq<char>,
}

impl View for SymbolInformation {
    type V = SymbolInformationView;

    open spec fn view(&self) -> SymbolInformationView {
        SymbolInformationView {
            name: self.name@,
            kind: self.kind,
            uri: self.uri@,
            range: self.range,
            container_name: self.container_name@,
        }
    }
}

/// Symbols of documents in mathematical terms.
pub open spec fn information_views(symbols: Seq<SymbolInformation>) -> Seq<SymbolInformationView> {
    symbols.map_values(|symbol: SymbolInformation| symbol@)
}

/// The symbol of a declaration in the document `uri`.
pub open spec fn symbol_information_of(uri: Seq<char>, decl: DeclView) -> SymbolInformationView {
    SymbolInformationView {
        name: crate::text::qualified_name(decl.module, decl.id),
        kind: symbol_kind(decl.kind),
        uri,
        range: decl.range,
        container_name: decl.module,
    }
}

/// The symbols of the document `uri`.
pub open spec fn file_symbols(uri: Seq<char>, decls: Seq<DeclView>) -> Seq<SymbolInformationView> {
    decls.map_values(|decl: DeclView| symbol_information_of(uri, decl))
}

/// The symbols of all documents, where `decls[i]` are the declarations of `uris[i]`.
pub open spec fn workspace_symbols(
    uris: Seq<Seq<char>>,
    decls: Seq<Seq<DeclView>>,
) -> Seq<SymbolInformationView> {
    Seq::new(uris.len(), |i: int| file_symbols(uris[i], decls[i])).flatten()
}

/// Returns the symbol of a declaration in the document `uri`.
fn to_symbol_information(uri: &String, decl: &Decl) -> (symbol: SymbolInformation)
    ensures
        symbol@ == symbol_information_of(uri@, decl@),
{
    SymbolInformation {
        name: qualify(&decl.module, &decl.id),
        kind: to_symbol_kind(decl.kind),
        uri: uri.clone(),
        range: decl.range,
        container_name: decl.module.clone(),
    }
}

/// Returns the symbols of all documents, where `decls[i]` are the declarations of `files[i]`.
pub fn symbol(files: &Vec<String>, decls: &Vec<Vec<Decl>>) -> (symbols: Vec<SymbolInformation>)
    requires
        files@.len() == decls@.len(),
    ensures
        information_views(symbols@) == workspace_symbols(
            crate::text::text_views(files@),
            crate::query::decl_list_views(decls@),
        ),
{
    let ghost uris = crate::text::text_views(files@);
    let ghost lists = crate::query::decl_list_views(decls@);
    let ghost parts = Seq::new(uris.len(), |i: int| file_symbols(uris[i], lists[i]));
    let mut symbols: Vec<SymbolInformation> = Vec::new();
    assert(parts.take(0) =~= Seq::empty());
    for i in 0..files.len()
        invariant
            files@.len() == decls@.len(),
            uris == crate::text::text_views(files@),
            lists == crate::query::decl_list_views(decls@),
            parts == Seq::new(uris.len(), |i: int| file_symbols(uris[i], lists[i])),
            information_views(symbols@) == parts.take(i as int).flatten(),
    {
        let list = &decls[i];
        let ghost before = parts.take(i as int).flatten();
        let ghost part = parts[i as int];
        assert(before + part.take(0) =~= before);
        for j in 0..list.len()
            invariant
                i < files@.len(),
                part == file_symbols(files@[i as int]@, crate::query::decl_views(list@)),
                information_views(symbols@) == before + part.take(j as int),
        {
            let ghost done = information_views(symbols@);
            let symbol = to_symbol_information(&files[i], &list[j]);
            symbols.push(symbol);
            assert(information_views(symbols@) =~= done.push(part[j as int]));
            assert(before + part.take(j + 1) =~= done.push(part[j as int]));
        }
        assert(part.take(part.len() as int) =~= part);
        proof {
            crate::seqs::lemma_flatten_take(parts, i as int);
        }
    }
    assert(parts.take(parts.len() as int) =~= parts);
    symbols
}

/// Every declaration of every document has its symbol among those of all documents.
pub proof fn law_every_document_is_searched(
    uris: Seq<Seq<char>>,
    decls: Seq<Seq<DeclView>>,
    i: int,
    j: int,
)
    requires
        uris.len() == decls.len(),
        0 <= i < uris.len(),
        0 <= j < decls[i].len(),
    ensures
        workspace_symbols(uris, decls).contains(symbol_information_of(uris[i], decls[i][j])),
{
    let parts = Seq::new(uris.len(), |i: int| file_symbols(uris[i], decls[i]));
    let symbol = symbol_information_of(uris[i], decls[i][j]);
    assert(parts[i][j] == symbol);
    assert(parts[i].contains(symbol));
    crate::seqs::lemma_flatten_contains(parts, symbol);
}

/// The symbol in the document `uri` that stands for a child of the symbol of a module.
pub open spec fn child_information(
    uri: Seq<char>,
    module: ModuleSymbolView,
    child: DocumentSymbolView,
) -> SymbolInformationView {
    SymbolInformationView {
        name: crate::text::qualified_name(module.symbol.name, child.name),
        kind: child.kind,
        uri,
        range: child.range,
        container_name: module.symbol.name,
    }
}

/// The symbols in the document `uri` that stand for the children of the symbol of a module.
pub open spec fn module_information(
    uri: Seq<char>,
    module: ModuleSymbolView,
) -> Seq<SymbolInformationView> {
    module.children.map_values(|child: DocumentSymbolView| child_information(uri, module, child))
}

/// The symbols in the document `uri` that stand for the children of the symbols of its modules.
pub open spec fn children_information(
    uri: Seq<char>,
    modules: Seq<ModuleSymbolView>,
) -> Seq<SymbolInformationView> {
    modules.map_values(|module: ModuleSymbolView| module_information(uri, module)).flatten()
}

/// The symbols of some runs of one module each are the children of the symbols of those runs.
proof fn lemma_run_information(uri: Seq<char>, runs: Seq<Seq<DeclView>>)
    requires
        forall|i: int, j: int|
            0 <= i < runs.len() && 0 <= j < runs[i].len() ==> (#[trigger] runs[i][j]).module
                == runs[i][0].module,
    ensures
        file_symbols(uri, runs.flatten()) == children_information(
            uri,
            runs.map_values(|run: Seq<DeclView>| module_symbol_of(run)),
        ),
    decreases runs.len(),
{
    let modules = runs.map_values(|run: Seq<DeclView>| module_symbol_of(run));
    let parts = modules.map_values(|module: ModuleSymbolView| module_information(uri, module));
    if runs.len() == 0 {
        assert(file_symbols(uri, runs.flatten()) =~= parts.flatten());
    } else {
        let run = runs[0];
        let rest = runs.drop_first();
        let rest_modules = rest.map_values(|run: Seq<DeclView>| module_symbol_of(run));
        let rest_parts = rest_modules.map_values(
            |module: ModuleSymbolView| module_information(uri, module),
        );
        assert forall|i: int, j: int|
            0 <= i < rest.len() && 0 <= j < rest[i].len() implies (#[trigger] rest[i][j]).module
            == rest[i][0].module by {
            assert(runs[i + 1][j].module == runs[i + 1][0].module);
        }
        lemma_run_information(uri, rest);
        assert(parts.drop_first() =~= rest_parts);
        assert(file_symbols(uri, run) =~= parts[0]) by {
            assert forall|j: int| 0 <= j < run.len() implies #[trigger] file_symbols(uri, run)[j]
                == parts[0][j] by {
                assert(runs[0][j].module == runs[0][0].module);
            }
        }
        assert(file_symbols(uri, runs.flatten()) =~= file_symbols(uri, run) + file_symbols(
            uri,
            rest.flatten(),
        ));
    }
}

/// The symbols of a document among those of all documents are the children of the symbols of its
/// modules, in order and with the name of the module in front.
pub proof fn law_document_and_workspace_symbols_agree(uri: Seq<char>, decls: Seq<DeclView>)
    ensures
        file_symbols(uri, decls) == children_information(uri, document_symbols_of(decls)),
{
    law_module_runs(decls);
    lemma_run_information(uri, module_runs(decls));
}

/// The symbols of all documents that a server serves, where `decls_of` finds the declarations of a
/// document.
pub open spec fn served_symbols(
    database: DatabaseView,
    decls_of: spec_fn(FileView) -> Seq<DeclView>,
) -> Seq<SymbolInformationView> {
    let uris = database.files->0;
    workspace_symbols(uris, uris.map_values(|uri: Seq<char>| decls_of(database.contents[uri])))
}

/// Symbols without those of one document.
pub open spec fn symbols_elsewhere(
    symbols: Seq<SymbolInformationView>,
    uri: Seq<char>,
) -> Seq<SymbolInformationView> {
    symbols.filter(|symbol: SymbolInformationView| symbol.uri != uri)
}

/// Of the symbols of one document either all are of the document `uri`, or none is.
proof fn lemma_file_symbols_elsewhere(
    file: Seq<char>,
    decls: Seq<DeclView>,
    uri: Seq<char>,
)
    ensures
        symbols_elsewhere(file_symbols(file, decls), uri) == (if file == uri {
            Seq::empty()
        } else {
            file_symbols(file, decls)
        }),
    decreases decls.len(),
{
    reveal(Seq::filter);
    let symbols = file_symbols(file, decls);
    if decls.len() > 0 {
        lemma_file_symbols_elsewhere(file, decls.drop_last(), uri);
        assert(symbols.drop_last() =~= file_symbols(file, decls.drop_last()));
        assert(symbols.drop_last().push(symbols.last()) =~= symbols);
    } else {
        assert(symbols =~= Seq::empty());
    }
}

/// The symbols of all documents but `uri` do not depend on the declarations of that one.
proof fn lemma_symbols_elsewhere(
    uris: Seq<Seq<char>>,
    decls: Seq<Seq<DeclView>>,
    changed: Seq<Seq<DeclView>>,
    uri: Seq<char>,
)
    requires
        uris.len() == decls.len(),
        uris.len() == changed.len(),
        forall|i: int| 0 <= i < uris.len() && uris[i] != uri ==> #[trigger] decls[i] == changed[i],
    ensures
        symbols_elsewhere(workspace_symbols(uris, decls), uri) == symbols_elsewhere(
            workspace_symbols(uris, changed),
            uri,
        ),
    decreases uris.len(),
{
    let parts = Seq::new(uris.len(), |i: int| file_symbols(uris[i], decls[i]));
    let changed_parts = Seq::new(uris.len(), |i: int| file_symbols(uris[i], changed[i]));
    if uris.len() == 0 {
        assert(parts =~= changed_parts);
    } else {
        let n = uris.len() - 1;
        lemma_symbols_elsewhere(uris.drop_last(), decls.drop_last(), changed.drop_last(), uri);
        lemma_workspace_symbols_push(uris, decls);
        lemma_workspace_symbols_push(uris, changed);
        let other = |symbol: SymbolInformationView| symbol.uri != uri;
        Seq::filter_distributes_over_add(
            workspace_symbols(uris.drop_last(), decls.drop_last()),
            file_symbols(uris[n], decls[n]),
            other,
        );
        Seq::filter_distributes_over_add(
            workspace_symbols(uris.drop_last(), changed.drop_last()),
            file_symbols(uris[n], changed[n]),
            other,
        );
        lemma_file_symbols_elsewhere(uris[n], decls[n], uri);
        lemma_file_symbols_elsewhere(uris[n], changed[n], uri);
    }
}

/// The symbols of the last document come last.
proof fn lemma_workspace_symbols_push(uris: Seq<Seq<char>>, decls: Seq<Seq<DeclView>>)
    requires
        uris.len() == decls.len(),
        uris.len() > 0,
    ensures
        workspace_symbols(uris, decls) == workspace_symbols(uris.drop_last(), decls.drop_last())
            + file_symbols(uris.last(), decls.last()),
{
    let parts = Seq::new(uris.len(), |i: int| file_symbols(uris[i], decls[i]));
    let rest_uris = uris.drop_last();
    let rest_decls = decls.drop_last();
    let rest = Seq::new(rest_uris.len(), |i: int| file_symbols(rest_uris[i], rest_decls[i]));
    assert(parts =~= rest.push(file_symbols(uris.last(), decls.last())));
    rest.lemma_flatten_push(file_symbols(uris.last(), decls.last()));
}

/// Serving a document leaves the symbols of all other documents as they were, whatever finds the
/// declarations of a document.
pub proof fn law_change_leaves_other_symbols(
    database: DatabaseView,
    decls_of: spec_fn(FileView) -> Seq<DeclView>,
    uri: Seq<char>,
    source: Seq<char>,
)
    requires
        database.files is Some,
    ensures
        symbols_elsewhere(served_symbols(database.serving(uri, source), decls_of), uri)
            == symbols_elsewhere(served_symbols(database, decls_of), uri),
{
    let after = database.serving(uri, source);
    let before_uris = database.files->0;
    let after_uris = after.files->0;
    let before_decls = before_uris.map_values(|uri: Seq<char>| decls_of(database.contents[uri]));
    let after_decls = after_uris.map_values(|uri: Seq<char>| decls_of(after.contents[uri]));
    if before_uris.contains(uri) {
        lemma_symbols_elsewhere(before_uris, before_decls, after_decls, uri);
    } else {
        let kept = after_decls.drop_last();
        assert(after_uris.drop_last() =~= before_uris);
        lemma_symbols_elsewhere(before_uris, before_decls, kept, uri);
        lemma_workspace_symbols_push(after_uris, after_decls);
        lemma_file_symbols_elsewhere(uri, after_decls.last(), uri);
        Seq::filter_distributes_over_add(
            workspace_symbols(before_uris, kept),
            file_symbols(uri, after_decls.last()),
            |symbol: SymbolInformationView| symbol.uri != uri,
        );
        assert(symbols_elsewhere(workspace_symbols(after_uris, after_decls), uri)
            =~= symbols_elsewhere(workspace_symbols(before_uris, kept), uri));
    }
}

/// Symbols of one document alone.
pub open spec fn symbols_in(
    symbols: Seq<SymbolInformationView>,
    uri: Seq<char>,
) -> Seq<SymbolInformationView> {
    symbols.filter(|symbol: SymbolInformationView| symbol.uri == uri)
}

/// Of the symbols of one document either all are of the document `uri`, or none is.
proof fn lemma_file_symbols_in(file: Seq<char>, decls: Seq<DeclView>, uri: Seq<char>)
    ensures
        symbols_in(file_symbols(file, decls), uri) == (if file == uri {
            file_symbols(file, decls)
        } else {
            Seq::empty()
        }),
    decreases decls.len(),
{
    reveal(Seq::filter);
    let symbols = file_symbols(file, decls);
    if decls.len() > 0 {
        lemma_file_symbols_in(file, decls.drop_last(), uri);
        assert(symbols.drop_last() =~= file_symbols(file, decls.drop_last()));
        assert(symbols.drop_last().push(symbols.last()) =~= symbols);
    } else {
        assert(symbols =~= Seq::empty());
    }
}

/// Among the symbols of all documents, those of one document are its own, if it is listed once.
proof fn lemma_workspace_symbols_in(
    uris: Seq<Seq<char>>,
    decls: Seq<Seq<DeclView>>,
    uri: Seq<char>,
)
    requires
        uris.len() == decls.len(),
        uris.no_duplicates(),
    ensures
        forall|i: int|
            0 <= i < uris.len() && #[trigger] uris[i] == uri ==> symbols_in(
                workspace_symbols(uris, decls),
                uri,
            ) == file_symbols(uri, decls[i]),
        !uris.contains(uri) ==> symbols_in(workspace_symbols(uris, decls), uri) == Seq::<
            SymbolInformationView,
        >::empty(),
    decreases uris.len(),
{
    let parts = Seq::new(uris.len(), |i: int| file_symbols(uris[i], decls[i]));
    if uris.len() == 0 {
        reveal(Seq::filter);
        assert(parts.flatten() =~= Seq::empty());
    } else {
        let n = uris.len() - 1;
        let rest = uris.drop_last();
        let own = |symbol: SymbolInformationView| symbol.uri == uri;
        lemma_workspace_symbols_in(rest, decls.drop_last(), uri);
        lemma_workspace_symbols_push(uris, decls);
        Seq::filter_distributes_over_add(
            workspace_symbols(rest, decls.drop_last()),
            file_symbols(uris[n], decls[n]),
            own,
        );
        lemma_file_symbols_in(uris[n], decls[n], uri);
        let all = symbols_in(workspace_symbols(uris, decls), uri);
        if uris[n] == uri {
            assert(!rest.contains(uri)) by {
                if rest.contains(uri) {
                    let k = rest.index_of(uri);
                    assert(uris[k] == uris[n]);
                }
            }
            assert(all =~= file_symbols(uri, decls[n]));
        } else {
            assert(all =~= symbols_in(workspace_symbols(rest, decls.drop_last()), uri));
            assert forall|i: int| 0 <= i < uris.len() && #[trigger] uris[i] == uri implies all
                == file_symbols(uri, decls[i]) by {
                assert(rest[i] == uri);
            }
            if !uris.contains(uri) {
                assert(!rest.contains(uri)) by {
                    if rest.contains(uri) {
                        assert(uris[rest.index_of(uri)] == uri);
                    }
                }
            }
        }
    }
}

/// Once a document is served with a text, its symbols are those of that text and no others,
/// whatever finds the declarations of a document.
pub proof fn law_change_sets_own_symbols(
    database: DatabaseView,
    decls_of: spec_fn(FileView) -> Seq<DeclView>,
    uri: Seq<char>,
    source: Seq<char>,
)
    requires
        database.files is Some,
        database.consistent(),
    ensures
        symbols_in(served_symbols(database.serving(uri, source), decls_of), uri) == file_symbols(
            uri,
            decls_of(FileView { uri, source }),
        ),
{
    let after = database.serving(uri, source);
    let uris = after.files->0;
    let decls = uris.map_values(|uri: Seq<char>| decls_of(after.contents[uri]));
    crate::lsp::law_serving_keeps_consistent(database, uri, source);
    crate::lsp::law_text_is_read_back(database, uri, source);
    lemma_workspace_symbols_in(uris, decls, uri);
    let i = uris.index_of(uri);
    assert(uris[i] == uri);
    assert(decls[i] == decls_of(FileView { uri, source }));
}

/// Every symbol lies in a document that is served, and stands for a declaration of it.
pub proof fn law_symbols_lie_in_served_documents(
    database: DatabaseView,
    decls_of: spec_fn(FileView) -> Seq<DeclView>,
    symbol: SymbolInformationView,
)
    requires
        database.files is Some,
        served_symbols(database, decls_of).contains(symbol),
    ensures
        database.files->0.contains(symbol.uri),
        exists|decl: DeclView| #[trigger]
            decls_of(database.contents[symbol.uri]).contains(decl) && symbol
                == symbol_information_of(symbol.uri, decl),
{
    let uris = database.files->0;
    let decls = uris.map_values(|uri: Seq<char>| decls_of(database.contents[uri]));
    let parts = Seq::new(uris.len(), |i: int| file_symbols(uris[i], decls[i]));
    crate::seqs::lemma_flatten_contains(parts, symbol);
    let i = choose|i: int| 0 <= i < parts.len() && #[trigger] parts[i].contains(symbol);
    let j = parts[i].index_of(symbol);
    assert(symbol == symbol_information_of(uris[i], decls[i][j]));
    assert(uris.contains(uris[i]));
    assert(decls_of(database.contents[symbol.uri]).contains(decls[i][j]));
}

/// Which declarations are listed as which kind of symbol, for all kinds there are. No declaration
/// is listed as a module.
pub proof fn law_kinds_of_symbols(kind: DeclKind)
    ensures
        symbol_kind(kind) == SymbolKind::Variable <==> (kind == DeclKind::Global || kind
            == DeclKind::Variable || kind == DeclKind::Redef),
        symbol_kind(kind) == SymbolKind::Property <==> kind == DeclKind::Option,
        symbol_kind(kind) == SymbolKind::Constant <==> kind == DeclKind::Const,
        symbol_kind(kind) == SymbolKind::Enum <==> kind == DeclKind::RedefEnum,
        symbol_kind(kind) == SymbolKind::Interface <==> kind == DeclKind::RedefRecord,
        symbol_kind(kind) == SymbolKind::Class <==> kind == DeclKind::Type,
        symbol_kind(kind) == SymbolKind::Function <==> kind == DeclKind::Func,
        symbol_kind(kind) == SymbolKind::Operator <==> kind == DeclKind::Hook,
        symbol_kind(kind) == SymbolKind::Event <==> kind == DeclKind::Event,
        symbol_kind(kind) != SymbolKind::Module,
{
}

/// The children of all symbols of a document are as many as its declarations, and each has the
/// name, the kind and both ranges of the declaration in its place.
pub proof fn law_children_are_the_declarations(decls: Seq<DeclView>, i: int)
    requires
        0 <= i < decls.len(),
    ensures
        ({
            let children = document_symbols_of(decls).map_values(
                |symbol: ModuleSymbolView| symbol.children,
            ).flatten();
            &&& children.len() == decls.len()
            &&& children[i].name == decls[i].id
            &&& children[i].kind == symbol_kind(decls[i].kind)
            &&& children[i].range == decls[i].range
            &&& children[i].selection_range == decls[i].selection_range
        }),
{
    law_every_declaration_has_a_symbol(decls);
}

/// A child of the symbol of a module is a declaration of that module: counted through all children
/// of a document, the declaration in its place has the module that the symbol is named after, and
/// the child has the name, the kind and both ranges of the declaration.
pub proof fn law_children_belong_to_their_module(decls: Seq<DeclView>, i: int, j: int)
    requires
        0 <= i < document_symbols_of(decls).len(),
        0 <= j < document_symbols_of(decls)[i].children.len(),
    ensures
        ({
            let symbols = document_symbols_of(decls);
            let place = symbols.take(i).map_values(
                |symbol: ModuleSymbolView| symbol.children,
            ).flatten().len() + j;
            &&& place < decls.len()
            &&& symbols[i].symbol.name == decls[place].module
            &&& symbols[i].children[j].name == decls[place].id
            &&& symbols[i].children[j].kind == symbol_kind(decls[place].kind)
            &&& symbols[i].children[j].range == decls[place].range
            &&& symbols[i].children[j].selection_range == decls[place].selection_range
        }),
{
    let symbols = document_symbols_of(decls);
    let runs = module_runs(decls);
    law_module_runs(decls);
    lemma_children(runs.take(i));
    assert(symbols.take(i) =~= runs.take(i).map_values(
        |run: Seq<DeclView>| module_symbol_of(run),
    ));
    crate::seqs::lemma_flatten_index(runs, i, j);
    assert(runs[i][j].module == runs[i][0].module);
}

/// The symbol of a module is a module, and its ranges are at the very beginning of the document.
pub proof fn law_modules_are_at_the_beginning(decls: Seq<DeclView>, i: int)
    requires
        0 <= i < document_symbols_of(decls).len(),
    ensures
        ({
            let symbol = document_symbols_of(decls)[i].symbol;
            let start = Position { line: 0, character: 0 };
            &&& symbol.kind == SymbolKind::Module
            &&& symbol.range == Range { start, end: start }
            &&& symbol.selection_range == Range { start, end: start }
        }),
{
}

/// The symbols of all documents are as many as their declarations. Counted through all documents,
/// the symbol in the place of a declaration has its range and kind, lies in its document, belongs
/// to its module, and is named by the module, two colons and the name that is declared.
pub proof fn law_workspace_symbols_are_the_declarations(
    uris: Seq<Seq<char>>,
    decls: Seq<Seq<DeclView>>,
    i: int,
    j: int,
)
    requires
        uris.len() == decls.len(),
        0 <= i < uris.len(),
        0 <= j < decls[i].len(),
    ensures
        workspace_symbols(uris, decls).len() == decls.flatten().len(),
        decls.take(i).flatten().len() + j < decls.flatten().len(),
        ({
            let symbol = workspace_symbols(uris, decls)[decls.take(i).flatten().len() + j];
            let module = decls[i][j].module;
            &&& symbol.uri == uris[i]
            &&& symbol.range == decls[i][j].range
            &&& symbol.kind == symbol_kind(decls[i][j].kind)
            &&& symbol.container_name == module
            &&& symbol.name.len() == module.len() + 2 + decls[i][j].id.len()
            &&& symbol.name.take(module.len() as int) == module
            &&& symbol.name.subrange(module.len() as int, module.len() as int + 2) == seq![':', ':']
            &&& symbol.name.skip(module.len() as int + 2) == decls[i][j].id
        }),
{
    let parts = Seq::new(uris.len(), |i: int| file_symbols(uris[i], decls[i]));
    crate::seqs::lemma_flatten_same_length(parts, decls);
    crate::seqs::lemma_flatten_same_length(parts.take(i), decls.take(i));
    crate::seqs::lemma_flatten_index(parts, i, j);
    crate::text::law_qualified_name_parts(decls[i][j].module, decls[i][j].id);
    assert(parts[i][j] == symbol_information_of(uris[i], decls[i][j]));
}

/// There are as many symbols in all documents as there are declarations.
pub proof fn law_as_many_symbols_as_declarations(uris: Seq<Seq<char>>, decls: Seq<Seq<DeclView>>)
    requires
        uris.len() == decls.len(),
    ensures
        workspace_symbols(uris, decls).len() == decls.flatten().len(),
{
    let parts = Seq::new(uris.len(), |i: int| file_symbols(uris[i], decls[i]));
    crate::seqs::lemma_flatten_same_length(parts, decls);
}

/// The symbols of all documents that a server serves are those of the declarations in their texts,
/// one document after the other.
pub proof fn law_served_symbols_are_of_the_texts(
    database: DatabaseView,
    decls_of: spec_fn(FileView) -> Seq<DeclView>,
    i: int,
    j: int,
)
    requires
        database.files is Some,
        0 <= i < database.files->0.len(),
        0 <= j < decls_of(database.contents[database.files->0[i]]).len(),
    ensures
        ({
            let uris = database.files->0;
            let decls = uris.map_values(|uri: Seq<char>| decls_of(database.contents[uri]));
            let place = decls.take(i).flatten().len() + j;
            let symbol = served_symbols(database, decls_of)[place];
            &&& served_symbols(database, decls_of).len() == decls.flatten().len()
            &&& place < decls.flatten().len()
            &&& symbol.uri == uris[i]
            &&& symbol.range == decls[i][j].range
            &&& symbol.kind == symbol_kind(decls[i][j].kind)
            &&& symbol.container_name == decls[i][j].module
            &&& symbol.name.take(decls[i][j].module.len() as int) == decls[i][j].module
            &&& symbol.name.skip(decls[i][j].module.len() as int + 2) == decls[i][j].id
        }),
{
    let uris = database.files->0;
    let decls = uris.map_values(|uri: Seq<char>| decls_of(database.contents[uri]));
    law_workspace_symbols_are_the_declarations(uris, decls, i, j);
}

/// The symbol of a module is seen whole, with all its children in their places.
pub proof fn law_module_symbol_is_seen_whole(module: ModuleSymbol, i: int)
    requires
        0 <= i < module.children@.len(),
    ensures
        module@.symbol.name == module.symbol.name@,
        module@.symbol.kind == module.symbol.kind,
        module@.symbol.range == module.symbol.range,
        module@.symbol.selection_range == module.symbol.selection_range,
        module@.children.len() == module.children@.len(),
        module@.children[i].name == module.children@[i].name@,
        module@.children[i].kind == module.children@[i].kind,
        module@.children[i].range == module.children@[i].range,
        module@.children[i].selection_range == module.children@[i].selection_range,
{
}

/// The symbols of documents are seen all, each in its place, and each with all that it holds.
pub proof fn law_symbols_are_seen_whole(symbols: Seq<SymbolInformation>, i: int)
    requires
        0 <= i < symbols.len(),
    ensures
        information_views(symbols).len() == symbols.len(),
        information_views(symbols)[i].name == symbols[i].name@,
        information_views(symbols)[i].kind == symbols[i].kind,
        information_views(symbols)[i].uri == symbols[i].uri@,
        information_views(symbols)[i].range == symbols[i].range,
        information_views(symbols)[i].container_name == symbols[i].container_name@,
{
}

} // verus!
