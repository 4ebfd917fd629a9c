//! The first pass: finds out whether the module uses `__dirname` or
//! `__filename`, and which `path`/`url` imports it already has.
use crate::constants::{
    DIRNAME_FUNC, DIRNAME_TOKEN, FILENAME_TOKEN, NODE_PATH_PKG, NODE_URL_PKG, PATH_PKG, URL_PKG,
    URL_TO_FILE_PATH_FUNC,
};
use crate::import_data_parser::{
    DiagnosticView, ImportDataParser, ImportDiagnostic, ParserView, diagnostics_view, parse_decl,
};
use crate::model::{
    DeclView, EventView, Expr, ExprView, ImportDeclInfo, ItemView, ModuleItemInfo, ScanEvent,
    events_view, items_view,
};
use vstd::prelude::*;

verus! {

/// What the scan has found so far.
pub struct ScanResults<'a> {
    pub uses_dirname: bool,
    pub uses_filename: bool,
    /// Looks for `dirname` in imports of `path`.
    pub path_import_dirname: ImportDataParser<'a>,
    /// Looks for `fileURLToPath` in imports of `url`.
    pub url_import_url_to_file_path: ImportDataParser<'a>,
    /// The problems the parsers found, in the order the scan met them.
    pub diagnostics: Vec<ImportDiagnostic>,
}

pub struct ScanState {
    pub uses_dirname: bool,
    pub uses_filename: bool,
    pub path: ParserView,
    pub url: ParserView,
    pub diagnostics: Seq<DiagnosticView>,
}

impl<'a> View for ScanResults<'a> {
    type V = ScanState;

    open spec fn view(&self) -> ScanState {
        ScanState {
            uses_dirname: self.uses_dirname,
            uses_filename: self.uses_filename,
            path: self.path_import_dirname@,
            url: self.url_import_url_to_file_path@,
            diagnostics: diagnostics_view(self.diagnostics@),
        }
    }
}

/// The state before anything has been scanned.
pub open spec fn initial_scan() -> ScanState {
    ScanState {
        uses_dirname: false,
        uses_filename: false,
        path: ParserView {
            var_name: DIRNAME_FUNC@,
            pkg_names: seq![PATH_PKG@, NODE_PATH_PKG@],
            parsed: None,
            diagnostics: Seq::empty(),
        },
        url: ParserView {
            var_name: URL_TO_FILE_PATH_FUNC@,
            pkg_names: seq![URL_PKG@, NODE_URL_PKG@],
            parsed: None,
            diagnostics: Seq::empty(),
        },
        diagnostics: Seq::empty(),
    }
}

/// Meeting the identifier `sym`.
pub open spec fn scan_ident(s: ScanState, sym: Seq<char>) -> ScanState {
    if sym == DIRNAME_TOKEN@ {
        ScanState { uses_dirname: true, ..s }
    } else if sym == FILENAME_TOKEN@ {
        ScanState { uses_filename: true, ..s }
    } else {
        s
    }
}

/// A parser whose problems have been handed out.
pub open spec fn cleared(p: ParserView) -> ParserView {
    ParserView { diagnostics: Seq::empty(), ..p }
}

/// Meeting an `import` declaration: type-only ones are skipped; others are
/// read by the `path` parser, and by the `url` parser when they do not import
/// `path`; the problems the reading parser holds join the scan's list.
pub open spec fn scan_import(s: ScanState, d: DeclView) -> ScanState {
    if d.type_only {
        s
    } else if s.path.pkg_names.contains(d.src) {
        let p = parse_decl(s.path, d);
        ScanState { path: cleared(p), diagnostics: s.diagnostics + p.diagnostics, ..s }
    } else {
        let p = parse_decl(s.url, d);
        ScanState { url: cleared(p), diagnostics: s.diagnostics + p.diagnostics, ..s }
    }
}

pub open spec fn scan_event(s: ScanState, e: EventView) -> ScanState {
    match e {
        EventView::Ident(sym) => scan_ident(s, sym),
        EventView::Import(d) => scan_import(s, d),
    }
}

pub open spec fn scan_events(s: ScanState, es: Seq<EventView>) -> ScanState
    decreases es.len(),
{
    if es.len() == 0 {
        s
    } else {
        scan_event(scan_events(s, es.drop_last()), es.last())
    }
}

pub open spec fn scan_idents(s: ScanState, syms: Seq<Seq<char>>) -> ScanState
    decreases syms.len(),
{
    if syms.len() == 0 {
        s
    } else {
        scan_ident(scan_idents(s, syms.drop_last()), syms.last())
    }
}

/// The identifiers met in an expression, in order (a member's property is a
/// name, not an identifier).
pub open spec fn expr_idents(e: ExprView) -> Seq<Seq<char>>
    decreases e,
{
    match e {
        ExprView::Ident(name) => seq![name],
        ExprView::ImportMeta => Seq::empty(),
        ExprView::Member(obj, _) => expr_idents(*obj),
        ExprView::Call(callee, arg) => expr_idents(*callee) + expr_idents(*arg),
    }
}

pub open spec fn scan_item(s: ScanState, item: ItemView) -> ScanState {
    match item {
        ItemView::Import(d) => scan_import(s, d),
        ItemView::ConstDecl(c) => scan_idents(scan_ident(s, c.name), expr_idents(c.init)),
        ItemView::Other(es) => scan_events(s, es),
    }
}

pub open spec fn scan_items(s: ScanState, items: Seq<ItemView>) -> ScanState
    decreases items.len(),
{
    if items.len() == 0 {
        s
    } else {
        scan_item(scan_items(s, items.drop_last()), items.last())
    }
}

/// The scan of a whole module.
pub open spec fn scan_module(items: Seq<ItemView>) -> ScanState {
    scan_items(initial_scan(), items)
}

pub proof fn lemma_scan_idents_append(s: ScanState, a: Seq<Seq<char>>, b: Seq<Seq<char>>)
    ensures
        scan_idents(s, a + b) == scan_idents(scan_idents(s, a), b),
    decreases b.len(),
{
    if b.len() == 0 {
        assert(a + b =~= a);
    } else {
        assert((a + b).drop_last() =~= a + b.drop_last());
        lemma_scan_idents_append(s, a, b.drop_last());
    }
}

impl<'a> ScanResults<'a> {
    pub fn new() -> (res: Self)
        ensures
            res@ == initial_scan(),
    {
        let res = Self {
            uses_dirname: false,
            uses_filename: false,
            path_import_dirname: ImportDataParser::new(vec![PATH_PKG, NODE_PATH_PKG], DIRNAME_FUNC),
            url_import_url_to_file_path: ImportDataParser::new(
                vec![URL_PKG, NODE_URL_PKG],
                URL_TO_FILE_PATH_FUNC,
            ),
            diagnostics: Vec::new(),
        };
        assert(res@.diagnostics =~= Seq::empty());
        assert(res@.path.pkg_names =~= initial_scan().path.pkg_names);
        assert(res@.url.pkg_names =~= initial_scan().url.pkg_names);
        res
    }
}

/// Runs the scan over a module.
pub struct ScanVisitor<'b> {
    pub scan_results: ScanResults<'b>,
}

impl<'b> ScanVisitor<'b> {
    /// Notes a use of `__dirname` or `__filename`.
    pub fn visit_mut_ident(&mut self, sym: &String)
        ensures
            final(self).scan_results@ == scan_ident(old(self).scan_results@, sym@),
    {
        if *sym == DIRNAME_TOKEN.to_owned() {
            self.scan_results.uses_dirname = true;
        } else if *sym == FILENAME_TOKEN.to_owned() {
            self.scan_results.uses_filename = true;
        }
    }

    /// Reads an import declaration that is not type-only: with the `path`
    /// parser, and with the `url` parser if it does not import `path`. What
    /// the reading parser reports is added to the scan's problems.
    pub fn visit_mut_import_decl(&mut self, node: &ImportDeclInfo)
        ensures
            final(self).scan_results@ == scan_import(old(self).scan_results@, node@),
    {
        if node.type_only {
            return;
        }
        let ghost before = diagnostics_view(self.scan_results.diagnostics@);
        if self.scan_results.path_import_dirname.parse_import_decl(node) {
            let mut found = self.scan_results.path_import_dirname.take_diagnostics();
            let ghost found_view = diagnostics_view(found@);
            self.scan_results.diagnostics.append(&mut found);
            assert(diagnostics_view(self.scan_results.diagnostics@) =~= before + found_view);
            return;
        }
        self.scan_results.url_import_url_to_file_path.parse_import_decl(node);
        let mut found = self.scan_results.url_import_url_to_file_path.take_diagnostics();
        let ghost found_view = diagnostics_view(found@);
        self.scan_results.diagnostics.append(&mut found);
        assert(diagnostics_view(self.scan_results.diagnostics@) =~= before + found_view);
    }

    pub fn visit_expr(&mut self, e: &Expr)
        ensures
            final(self).scan_results@ == scan_idents(old(self).scan_results@, expr_idents(e@)),
        decreases e,
    {
        let ghost s0 = self.scan_results@;
        match e {
            Expr::Ident(name) => {
                self.visit_mut_ident(name);
                assert(e@ == ExprView::Ident(name@));
                let ghost syms = expr_idents(e@);
                assert(syms == seq![name@]);
                assert(syms.drop_last() =~= Seq::<Seq<char>>::empty());
                assert(scan_idents(s0, syms.drop_last()) == s0);
            },
            Expr::ImportMeta => {},
            Expr::Member { obj, prop: _ } => {
                self.visit_expr(obj);
            },
            Expr::Call { callee, arg } => {
                self.visit_expr(callee);
                self.visit_expr(arg);
                proof {
                    lemma_scan_idents_append(s0, expr_idents((**callee)@), expr_idents((**arg)@));
                }
            },
        }
    }

    pub fn visit_events(&mut self, events: &Vec<ScanEvent>)
        ensures
            final(self).scan_results@ == scan_events(old(self).scan_results@, events_view(events@)),
    {
        let ghost s0 = self.scan_results@;
        let ghost es = events_view(events@);
        let mut i: usize = 0;
        while i < events.len()
            invariant
                i <= events.len(),
                es == events_view(events@),
                es.len() == events.len(),
                self.scan_results@ == scan_events(s0, es.take(i as int)),
            decreases events.len() - i,
        {
            assert(es.take(i + 1).drop_last() =~= es.take(i as int));
            assert(es.take(i + 1).last() == events[i as int]@);
            match &events[i] {
                ScanEvent::Ident(sym) => self.visit_mut_ident(sym),
                ScanEvent::Import(decl) => self.visit_mut_import_decl(decl),
            }
            i = i + 1;
        }
        assert(es.take(i as int) =~= es);
    }

    pub fn visit_mut_module_item(&mut self, item: &ModuleItemInfo)
        ensures
            final(self).scan_results@ == scan_item(old(self).scan_results@, item@),
    {
        match item {
            ModuleItemInfo::Import(decl) => self.visit_mut_import_decl(decl),
            ModuleItemInfo::ConstDecl(c) => {
                self.visit_mut_ident(&c.name);
                self.visit_expr(&c.init);
            },
            ModuleItemInfo::Other(events) => self.visit_events(events),
        }
    }

    /// Scans the items of a module, in order.
    pub fn visit_mut_module_items(&mut self, items: &Vec<ModuleItemInfo>)
        ensures
            final(self).scan_results@ == scan_items(old(self).scan_results@, items_view(items@)),
    {
        let ghost s0 = self.scan_results@;
        let ghost its = items_view(items@);
        let mut i: usize = 0;
        while i < items.len()
            invariant
                i <= items.len(),
                its == items_view(items@),
                its.len() == items.len(),
                self.scan_results@ == scan_items(s0, its.take(i as int)),
            decreases items.len() - i,
        {
            assert(its.take(i + 1).drop_last() =~= its.take(i as int));
            assert(its.take(i + 1).last() == items[i as int]@);
            self.visit_mut_module_item(&items[i]);
            i = i + 1;
        }
        assert(its.take(i as int) =~= its);
    }
}

} // verus!
