use node_globals_inject::config::{default_alias, Config};
use node_globals_inject::import_data_parser::{
    DiagnosticKind, ImportAs, ImportDataParser, ImportDiagnostic, ParseResult,
};
use node_globals_inject::model::{
    ConstDeclInfo, Expr, ImportDeclInfo, ImportSpecifierInfo, ModuleItemInfo, ScanEvent,
};
use node_globals_inject::post_scan_write_visitor::PostScanWriteVisitor;
use node_globals_inject::scan_visitor::{ScanResults, ScanVisitor};
use node_globals_inject::specifier_factory::{count_matching_items, SpecifierFactory};
use node_globals_inject::NodeGlobalsInjector;

fn s(x: &str) -> String {
    x.to_string()
}

fn named(local: &str) -> ImportSpecifierInfo {
    ImportSpecifierInfo::Named { local: s(local), imported: None }
}

fn decl_at(src: &str, specifiers: Vec<ImportSpecifierInfo>, lo: u32) -> ImportDeclInfo {
    ImportDeclInfo {
        src: s(src),
        src_raw: Some(format!("'{}'", src)),
        specifiers,
        type_only: false,
        span_lo: lo,
        span_hi: lo + 10,
    }
}

fn decl(src: &str, specifiers: Vec<ImportSpecifierInfo>) -> ImportDeclInfo {
    decl_at(src, specifiers, 0)
}

fn parse_result(pkg: &str, import_as: ImportAs, var: &str) -> ParseResult {
    ParseResult { pkg_name: s(pkg), import_as, var_name: s(var) }
}

fn factory(prefix: &str) -> SpecifierFactory {
    SpecifierFactory { insert_alias_prefix: s(prefix) }
}

fn injector() -> NodeGlobalsInjector {
    NodeGlobalsInjector { config: Config { func_alias_prefix: default_alias() } }
}

#[test]
fn default_alias_is_the_shim_prefix() {
    assert_eq!(default_alias(), "__swc_shim_");
}

#[test]
fn parser_ignores_other_packages() {
    let mut p = ImportDataParser::new(vec!["path", "node:path"], "dirname");
    assert!(!p.parse_import_decl(&decl("fs", vec![named("dirname")])));
    assert!(p.parsed().is_none());
    assert!(p.diagnostics().is_empty());
}

#[test]
fn parser_finds_named_function() {
    let mut p = ImportDataParser::new(vec!["path", "node:path"], "dirname");
    assert!(p.parse_import_decl(&decl("node:path", vec![named("join"), named("dirname")])));
    assert_eq!(
        p.parsed(),
        &Some(parse_result("node:path", ImportAs::Destructured(s("dirname")), "dirname"))
    );
}

#[test]
fn parser_finds_aliased_function() {
    let mut p = ImportDataParser::new(vec!["path"], "dirname");
    let spec = ImportSpecifierInfo::Named { local: s("d"), imported: Some(s("dirname")) };
    assert!(p.parse_import_decl(&decl("path", vec![spec])));
    assert_eq!(p.parsed(), &Some(parse_result("path", ImportAs::Destructured(s("d")), "dirname")));
}

#[test]
fn parser_alias_of_other_name_is_not_the_function() {
    // `import { join as dirname } from 'path'` does not import dirname
    let mut p = ImportDataParser::new(vec!["path"], "dirname");
    let spec = ImportSpecifierInfo::Named { local: s("dirname"), imported: Some(s("join")) };
    assert!(p.parse_import_decl(&decl("path", vec![spec])));
    assert_eq!(p.parsed(), &Some(parse_result("path", ImportAs::DestructuredNone(), "dirname")));
}

#[test]
fn parser_finds_namespace() {
    let mut p = ImportDataParser::new(vec!["path"], "dirname");
    let spec = ImportSpecifierInfo::Namespace { local: s("p") };
    assert!(p.parse_import_decl(&decl("path", vec![spec])));
    assert_eq!(p.parsed(), &Some(parse_result("path", ImportAs::Named(s("p")), "dirname")));
}

#[test]
fn parser_reports_default_specifier() {
    let mut p = ImportDataParser::new(vec!["path"], "dirname");
    let spec = ImportSpecifierInfo::Default { local: s("path") };
    assert!(p.parse_import_decl(&decl_at("path", vec![spec, named("dirname")], 40)));
    assert_eq!(p.parsed(), &Some(parse_result("path", ImportAs::Destructured(s("dirname")), "dirname")));
    assert_eq!(
        *p.diagnostics(),
        vec![ImportDiagnostic {
            kind: DiagnosticKind::UnsupportedSpecifier,
            pkg: s("path"),
            span_lo: 40,
            span_hi: 50,
        }]
    );
}

#[test]
fn parser_reports_second_import_and_keeps_last() {
    let mut p = ImportDataParser::new(vec!["path", "node:path"], "dirname");
    assert!(p.parse_import_decl(&decl_at("path", vec![named("dirname")], 0)));
    assert!(p.parse_import_decl(&decl_at("node:path", vec![named("join")], 20)));
    assert_eq!(p.parsed(), &Some(parse_result("node:path", ImportAs::DestructuredNone(), "dirname")));
    assert_eq!(
        *p.diagnostics(),
        vec![ImportDiagnostic {
            kind: DiagnosticKind::MultipleImports,
            pkg: s("node:path"),
            span_lo: 20,
            span_hi: 30,
        }]
    );
}

#[test]
fn scan_results_start_empty() {
    let r = ScanResults::new();
    assert!(!r.uses_dirname && !r.uses_filename);
    assert!(r.path_import_dirname.parsed().is_none());
    assert!(r.url_import_url_to_file_path.parsed().is_none());
}

#[test]
fn scan_notes_globals_and_imports() {
    let mut v = ScanVisitor { scan_results: ScanResults::new() };
    v.visit_mut_ident(&s("__filename"));
    assert!(v.scan_results.uses_filename && !v.scan_results.uses_dirname);
    v.visit_mut_ident(&s("__dirname"));
    assert!(v.scan_results.uses_dirname);
    v.visit_mut_import_decl(&decl("node:url", vec![named("fileURLToPath")]));
    assert_eq!(
        v.scan_results.url_import_url_to_file_path.parsed(),
        &Some(parse_result("node:url", ImportAs::Destructured(s("fileURLToPath")), "fileURLToPath"))
    );
    assert!(v.scan_results.path_import_dirname.parsed().is_none());
}

#[test]
fn scan_skips_type_only_imports() {
    let mut v = ScanVisitor { scan_results: ScanResults::new() };
    let mut d = decl("path", vec![named("dirname")]);
    d.type_only = true;
    v.visit_mut_import_decl(&d);
    assert!(v.scan_results.path_import_dirname.parsed().is_none());
}

#[test]
fn scan_reads_identifiers_of_injected_declarations() {
    let mut v = ScanVisitor { scan_results: ScanResults::new() };
    let item = ModuleItemInfo::ConstDecl(ConstDeclInfo {
        name: s("x"),
        init: Expr::Call {
            callee: Box::new(Expr::Ident(s("__dirname"))),
            arg: Box::new(Expr::Member { obj: Box::new(Expr::ImportMeta), prop: s("__filename") }),
        },
    });
    v.visit_mut_module_item(&item);
    // a member's property is a name, not an identifier
    assert!(v.scan_results.uses_dirname && !v.scan_results.uses_filename);
}

#[test]
fn create_new_import_builds_aliased_import() {
    let mut f = factory("__x_");
    let d = f.create_new_import("path", "dirname");
    assert_eq!(d.alias, "__x_dirname");
    assert_eq!(d.decl.src, "path");
    assert_eq!(d.decl.src_raw, Some(s("\"path\"")));
    assert_eq!(
        d.decl.specifiers,
        vec![ImportSpecifierInfo::Named { local: s("__x_dirname"), imported: Some(s("dirname")) }]
    );
    assert!(!d.decl.type_only);
}

#[test]
fn apply_parse_result_variants() {
    let mut f = factory("__x_");
    let mut d = decl("url", vec![named("huh")]);
    let other = parse_result("path", ImportAs::DestructuredNone(), "dirname");
    assert_eq!(f.apply_parse_result(&mut d, &other), None);
    assert_eq!(d.specifiers.len(), 1);

    let none = parse_result("url", ImportAs::DestructuredNone(), "fileURLToPath");
    assert_eq!(f.apply_parse_result(&mut d, &none), Some(s("__x_fileURLToPath")));
    assert_eq!(
        d.specifiers[1],
        ImportSpecifierInfo::Named {
            local: s("__x_fileURLToPath"),
            imported: Some(s("fileURLToPath"))
        }
    );

    let star = parse_result("url", ImportAs::Named(s("u")), "fileURLToPath");
    assert_eq!(f.apply_parse_result(&mut d, &star), Some(s("u.fileURLToPath")));
    let local = parse_result("url", ImportAs::Destructured(s("f")), "fileURLToPath");
    assert_eq!(f.apply_parse_result(&mut d, &local), Some(s("f")));
    assert_eq!(d.specifiers.len(), 2);
}

#[test]
fn get_modified_aliases_stops_at_last_answer() {
    let mut f = factory("__x_");
    let mut items = vec![
        ModuleItemInfo::Import(decl("modA", vec![named("a")])),
        ModuleItemInfo::Import(decl("url", vec![named("fileURLToPath")])),
        ModuleItemInfo::Other(vec![ScanEvent::Ident(s("x"))]),
        ModuleItemInfo::Import(decl("path", vec![named("join")])),
        ModuleItemInfo::Import(decl("path", vec![named("join")])),
    ];
    let url = parse_result("url", ImportAs::Destructured(s("fileURLToPath")), "fileURLToPath");
    let path = parse_result("path", ImportAs::DestructuredNone(), "dirname");
    let imps = vec![&url, &path];
    assert_eq!(count_matching_items(&items, &imps), 3);
    let (last, aliases) = f.get_modified_aliases(&mut items, &imps);
    assert_eq!(last, 3);
    assert_eq!(aliases, vec![s("fileURLToPath"), s("__x_dirname")]);
    // only the first path import, met before the stop, is completed
    assert_eq!(items[3], ModuleItemInfo::Import(decl("path", vec![
        named("join"),
        ImportSpecifierInfo::Named { local: s("__x_dirname"), imported: Some(s("dirname")) },
    ])));
    assert_eq!(items[4], ModuleItemInfo::Import(decl("path", vec![named("join")])));
}

#[test]
fn get_modified_aliases_without_results() {
    let mut f = factory("__x_");
    let mut items = vec![ModuleItemInfo::Import(decl("url", vec![]))];
    let (last, aliases) = f.get_modified_aliases(&mut items, &vec![]);
    assert_eq!(last, usize::MAX);
    assert!(aliases.is_empty());
}

#[test]
fn get_modified_aliases_duplicate_package_leaves_empty_alias() {
    // two imports of path answer twice to the same result before url is met
    let mut f = factory("__x_");
    let mut items = vec![
        ModuleItemInfo::Import(decl("path", vec![named("dirname")])),
        ModuleItemInfo::Import(decl("path", vec![named("dirname")])),
        ModuleItemInfo::Import(decl("url", vec![named("fileURLToPath")])),
    ];
    let url = parse_result("url", ImportAs::Destructured(s("fileURLToPath")), "fileURLToPath");
    let path = parse_result("path", ImportAs::Destructured(s("dirname")), "dirname");
    let (last, aliases) = f.get_modified_aliases(&mut items, &vec![&url, &path]);
    assert_eq!(last, 1);
    assert_eq!(aliases, vec![s(""), s("dirname")]);
}

#[test]
fn declaration_builders() {
    let mut w = PostScanWriteVisitor { scan_results: ScanResults::new(), specifier_factory: factory("") };
    assert_eq!(
        w.create_import_meta_expr(),
        Expr::Member { obj: Box::new(Expr::ImportMeta), prop: s("url") }
    );
    let f = w.create_file_name_var_statement(s("toPath"));
    assert_eq!(f.name, "__filename");
    assert_eq!(f.init, w.create_resolve_url_call(s("toPath")));
    let d = w.create_dirname_var_statement(s("toPath"), s("dir"));
    assert_eq!(d.name, "__dirname");
    assert_eq!(
        d.init,
        Expr::Call {
            callee: Box::new(Expr::Ident(s("dir"))),
            arg: Box::new(w.create_resolve_url_call(s("toPath"))),
        }
    );
}

#[test]
fn module_without_globals_is_unchanged() {
    let mut items = vec![
        ModuleItemInfo::Import(decl("path", vec![named("dirname")])),
        ModuleItemInfo::Other(vec![ScanEvent::Ident(s("dirname"))]),
    ];
    let mut inj = injector();
    let out = inj.process(&mut items);
    assert_eq!((out.inserted_at, out.inserted), (0, 0));
    assert_eq!(items.len(), 2);
    assert_eq!(items[0], ModuleItemInfo::Import(decl("path", vec![named("dirname")])));
}

#[test]
fn process_reports_where_items_went() {
    let mut items = vec![
        ModuleItemInfo::Import(decl("modA", vec![named("a")])),
        ModuleItemInfo::Import(decl("url", vec![named("fileURLToPath")])),
        ModuleItemInfo::Other(vec![ScanEvent::Ident(s("__dirname"))]),
    ];
    let mut inj = injector();
    assert!(inj.can_process(&items));
    let out = inj.process(&mut items);
    // after the url import: a path import and the __dirname declaration
    assert_eq!((out.inserted_at, out.inserted), (2, 2));
    assert_eq!(items.len(), 5);
    assert!(out.diagnostics.is_empty());
}

#[test]
fn process_hands_out_diagnostics() {
    let mut items = vec![
        ModuleItemInfo::Import(decl_at("url", vec![named("fileURLToPath")], 0)),
        ModuleItemInfo::Import(decl_at(
            "path",
            vec![ImportSpecifierInfo::Default { local: s("p") }],
            20,
        )),
        ModuleItemInfo::Import(decl_at("node:url", vec![named("fileURLToPath")], 40)),
        ModuleItemInfo::Other(vec![ScanEvent::Ident(s("__filename"))]),
    ];
    let mut inj = injector();
    assert!(inj.can_process(&items));
    let out = inj.process(&mut items);
    let kinds: Vec<(DiagnosticKind, u32)> =
        out.diagnostics.iter().map(|d| (d.kind.clone(), d.span_lo)).collect();
    assert_eq!(
        kinds,
        vec![(DiagnosticKind::UnsupportedSpecifier, 20), (DiagnosticKind::MultipleImports, 40)]
    );
}

#[test]
fn nested_import_cannot_be_processed() {
    // an import of path inside a block is read by the scan, but is not a
    // top-level item the declarations can follow
    let items = vec![ModuleItemInfo::Other(vec![
        ScanEvent::Import(decl("path", vec![named("dirname")])),
        ScanEvent::Ident(s("__dirname")),
    ])];
    assert!(!injector().can_process(&items));
}

#[test]
fn type_only_import_is_not_reused() {
    let mut d = decl("url", vec![named("fileURLToPath")]);
    d.type_only = true;
    let mut items = vec![
        ModuleItemInfo::Import(d),
        ModuleItemInfo::Other(vec![ScanEvent::Ident(s("__filename"))]),
    ];
    let mut inj = injector();
    let out = inj.process(&mut items);
    assert_eq!((out.inserted_at, out.inserted), (0, 2));
    assert!(matches!(&items[0], ModuleItemInfo::Import(i) if i.src == "url" && !i.type_only));
}

#[test]
fn names_inside_imports_are_not_uses() {
    // `import { __dirname } from 'x'` does not count as a use of __dirname
    let mut items = vec![ModuleItemInfo::Import(decl("x", vec![named("__dirname")]))];
    let out = injector().process(&mut items);
    assert_eq!((out.inserted_at, out.inserted), (0, 0));
    assert_eq!(items.len(), 1);
}

#[test]
fn use_inside_nested_block_counts() {
    let mut items = vec![ModuleItemInfo::Other(vec![
        ScanEvent::Ident(s("f")),
        ScanEvent::Ident(s("__filename")),
    ])];
    let out = injector().process(&mut items);
    assert_eq!((out.inserted_at, out.inserted), (0, 2));
    assert!(matches!(&items[1], ModuleItemInfo::ConstDecl(c) if c.name == "__filename"));
}

#[test]
fn diagnostics_come_in_scan_order() {
    // a problem in the url imports met before one in the path imports
    let mut items = vec![
        ModuleItemInfo::Import(decl_at("url", vec![named("fileURLToPath")], 0)),
        ModuleItemInfo::Import(decl_at("node:url", vec![named("fileURLToPath")], 20)),
        ModuleItemInfo::Import(decl_at(
            "path",
            vec![ImportSpecifierInfo::Default { local: s("p") }],
            40,
        )),
        ModuleItemInfo::Other(vec![ScanEvent::Ident(s("__filename"))]),
    ];
    let out = injector().process(&mut items);
    let kinds: Vec<(DiagnosticKind, u32)> =
        out.diagnostics.iter().map(|d| (d.kind.clone(), d.span_lo)).collect();
    assert_eq!(
        kinds,
        vec![(DiagnosticKind::MultipleImports, 20), (DiagnosticKind::UnsupportedSpecifier, 40)]
    );
}

#[test]
fn scan_collects_parser_diagnostics() {
    let mut v = ScanVisitor { scan_results: ScanResults::new() };
    v.visit_mut_import_decl(&decl_at("path", vec![ImportSpecifierInfo::Default { local: s("p") }], 5));
    assert_eq!(v.scan_results.diagnostics.len(), 1);
    assert!(v.scan_results.path_import_dirname.diagnostics().is_empty());
    assert_eq!(v.scan_results.diagnostics[0].kind, DiagnosticKind::UnsupportedSpecifier);
}

#[test]
fn flags_stay_set_over_later_visits() {
    let mut v = ScanVisitor { scan_results: ScanResults::new() };
    v.visit_mut_ident(&s("__dirname"));
    v.visit_mut_ident(&s("other"));
    v.visit_mut_import_decl(&decl("url", vec![named("fileURLToPath")]));
    v.visit_mut_ident(&s("__filename"));
    v.visit_mut_ident(&s("x"));
    assert!(v.scan_results.uses_dirname && v.scan_results.uses_filename);
}
