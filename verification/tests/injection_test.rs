use node_globals_inject::config::Config;
use node_globals_inject::model::{
    ConstDeclInfo, Expr, ImportDeclInfo, ImportSpecifierInfo, ModuleItemInfo, ScanEvent,
};
use node_globals_inject::NodeGlobalsInjector;

const P: &str = "__swc_shim_";

fn s(x: &str) -> String {
    x.to_string()
}

fn named(local: &str) -> ImportSpecifierInfo {
    ImportSpecifierInfo::Named { local: s(local), imported: None }
}

fn aliased(imported: &str, local: &str) -> ImportSpecifierInfo {
    ImportSpecifierInfo::Named { local: s(local), imported: Some(s(imported)) }
}

fn namespace(local: &str) -> ImportSpecifierInfo {
    ImportSpecifierInfo::Namespace { local: s(local) }
}

fn import(src: &str, specifiers: Vec<ImportSpecifierInfo>) -> ModuleItemInfo {
    ModuleItemInfo::Import(ImportDeclInfo {
        src: s(src),
        src_raw: Some(format!("'{}'", src)),
        specifiers,
        type_only: false,
        span_lo: 0,
        span_hi: 0,
    })
}

/// `import { var as prefix+var } from "src"`, as the transform writes it.
fn new_import(src: &str, var: &str, prefix: &str) -> ModuleItemInfo {
    ModuleItemInfo::Import(ImportDeclInfo {
        src: s(src),
        src_raw: Some(format!("\"{}\"", src)),
        specifiers: vec![aliased(var, &format!("{}{}", prefix, var))],
        type_only: false,
        span_lo: 0,
        span_hi: 0,
    })
}

fn other(idents: &[&str]) -> ModuleItemInfo {
    ModuleItemInfo::Other(idents.iter().map(|i| ScanEvent::Ident(s(i))).collect())
}

fn resolve_url(url_fn: &str) -> Expr {
    Expr::Call {
        callee: Box::new(Expr::Ident(s(url_fn))),
        arg: Box::new(Expr::Member { obj: Box::new(Expr::ImportMeta), prop: s("url") }),
    }
}

fn filename_decl(url_fn: &str) -> ModuleItemInfo {
    ModuleItemInfo::ConstDecl(ConstDeclInfo { name: s("__filename"), init: resolve_url(url_fn) })
}

fn dirname_decl(url_fn: &str, dirname_fn: &str) -> ModuleItemInfo {
    ModuleItemInfo::ConstDecl(ConstDeclInfo {
        name: s("__dirname"),
        init: Expr::Call {
            callee: Box::new(Expr::Ident(s(dirname_fn))),
            arg: Box::new(resolve_url(url_fn)),
        },
    })
}

fn mod_a() -> ModuleItemInfo {
    import("modA", vec![named("something")])
}

fn mod_b() -> ModuleItemInfo {
    import("modB", vec![namespace("somethingElse")])
}

/// console.log(`${global} and ${JSON.stringify(something)}`);
fn log_line(global: &str) -> ModuleItemInfo {
    other(&["console", global, "JSON", "something"])
}

/// const v = __filename;
fn v_line() -> ModuleItemInfo {
    other(&["v", "__filename"])
}

fn pref(var: &str) -> String {
    format!("{}{}", P, var)
}

fn run_with(mut items: Vec<ModuleItemInfo>, prefix: &str) -> Vec<ModuleItemInfo> {
    let mut injector = NodeGlobalsInjector { config: Config { func_alias_prefix: s(prefix) } };
    assert!(injector.can_process(&items));
    injector.process(&mut items);
    items
}

fn run(items: Vec<ModuleItemInfo>) -> Vec<ModuleItemInfo> {
    run_with(items, P)
}

#[test]
fn no_shared_imports_both() {
    let out = run(vec![mod_a(), mod_b(), log_line("__dirname"), v_line()]);
    assert_eq!(
        out,
        vec![
            new_import("path", "dirname", P),
            new_import("url", "fileURLToPath", P),
            filename_decl(&pref("fileURLToPath")),
            dirname_decl(&pref("fileURLToPath"), &pref("dirname")),
            mod_a(),
            mod_b(),
            log_line("__dirname"),
            v_line(),
        ]
    );
}

#[test]
fn no_shared_imports_dirname_only() {
    let out = run(vec![mod_a(), mod_b(), log_line("__dirname")]);
    assert_eq!(
        out,
        vec![
            new_import("path", "dirname", P),
            new_import("url", "fileURLToPath", P),
            dirname_decl(&pref("fileURLToPath"), &pref("dirname")),
            mod_a(),
            mod_b(),
            log_line("__dirname"),
        ]
    );
}

#[test]
fn no_shared_imports_filename_only() {
    let out = run(vec![mod_a(), mod_b(), log_line("__filename")]);
    assert_eq!(
        out,
        vec![
            new_import("url", "fileURLToPath", P),
            filename_decl(&pref("fileURLToPath")),
            mod_a(),
            mod_b(),
            log_line("__filename"),
        ]
    );
}

fn path_join_dirname() -> ModuleItemInfo {
    import("path", vec![named("join"), named("dirname")])
}

#[test]
fn existing_path_dirname_import_both() {
    let out = run(vec![mod_a(), path_join_dirname(), mod_b(), log_line("__dirname"), v_line()]);
    assert_eq!(
        out,
        vec![
            mod_a(),
            path_join_dirname(),
            new_import("url", "fileURLToPath", P),
            filename_decl(&pref("fileURLToPath")),
            dirname_decl(&pref("fileURLToPath"), "dirname"),
            mod_b(),
            log_line("__dirname"),
            v_line(),
        ]
    );
}

#[test]
fn existing_path_dirname_import_dirname_only() {
    let out = run(vec![mod_a(), path_join_dirname(), mod_b(), log_line("__dirname")]);
    assert_eq!(
        out,
        vec![
            mod_a(),
            path_join_dirname(),
            new_import("url", "fileURLToPath", P),
            dirname_decl(&pref("fileURLToPath"), "dirname"),
            mod_b(),
            log_line("__dirname"),
        ]
    );
}

#[test]
fn existing_path_dirname_import_filename_only() {
    let out = run(vec![mod_a(), path_join_dirname(), mod_b(), log_line("__filename")]);
    assert_eq!(
        out,
        vec![
            new_import("url", "fileURLToPath", P),
            filename_decl(&pref("fileURLToPath")),
            mod_a(),
            path_join_dirname(),
            mod_b(),
            log_line("__filename"),
        ]
    );
}

fn path_join() -> ModuleItemInfo {
    import("path", vec![named("join")])
}

fn path_join_shim() -> ModuleItemInfo {
    import("path", vec![named("join"), aliased("dirname", &pref("dirname"))])
}

#[test]
fn existing_path_no_dirname_import_both() {
    let out = run(vec![mod_a(), path_join(), mod_b(), log_line("__dirname"), v_line()]);
    assert_eq!(
        out,
        vec![
            mod_a(),
            path_join_shim(),
            new_import("url", "fileURLToPath", P),
            filename_decl(&pref("fileURLToPath")),
            dirname_decl(&pref("fileURLToPath"), &pref("dirname")),
            mod_b(),
            log_line("__dirname"),
            v_line(),
        ]
    );
}

#[test]
fn existing_path_no_dirname_import_dirname_only() {
    let out = run(vec![mod_a(), path_join(), mod_b(), log_line("__dirname")]);
    assert_eq!(
        out,
        vec![
            mod_a(),
            path_join_shim(),
            new_import("url", "fileURLToPath", P),
            dirname_decl(&pref("fileURLToPath"), &pref("dirname")),
            mod_b(),
            log_line("__dirname"),
        ]
    );
}

#[test]
fn existing_path_no_dirname_import_filename_only() {
    let out = run(vec![mod_a(), path_join(), mod_b(), log_line("__filename")]);
    assert_eq!(
        out,
        vec![
            new_import("url", "fileURLToPath", P),
            filename_decl(&pref("fileURLToPath")),
            mod_a(),
            path_join(),
            mod_b(),
            log_line("__filename"),
        ]
    );
}

fn path_star() -> ModuleItemInfo {
    import("path", vec![namespace("p")])
}

#[test]
fn existing_path_star_import_both() {
    let out = run(vec![mod_a(), path_star(), mod_b(), log_line("__dirname"), v_line()]);
    assert_eq!(
        out,
        vec![
            mod_a(),
            path_star(),
            new_import("url", "fileURLToPath", P),
            filename_decl(&pref("fileURLToPath")),
            dirname_decl(&pref("fileURLToPath"), "p.dirname"),
            mod_b(),
            log_line("__dirname"),
            v_line(),
        ]
    );
}

#[test]
fn existing_path_star_import_dirname_only() {
    let out = run(vec![mod_a(), path_star(), mod_b(), log_line("__dirname")]);
    assert_eq!(
        out,
        vec![
            mod_a(),
            path_star(),
            new_import("url", "fileURLToPath", P),
            dirname_decl(&pref("fileURLToPath"), "p.dirname"),
            mod_b(),
            log_line("__dirname"),
        ]
    );
}

#[test]
fn existing_path_star_import_filename_only() {
    let out = run(vec![mod_a(), path_star(), mod_b(), log_line("__filename")]);
    assert_eq!(
        out,
        vec![
            new_import("url", "fileURLToPath", P),
            filename_decl(&pref("fileURLToPath")),
            mod_a(),
            path_star(),
            mod_b(),
            log_line("__filename"),
        ]
    );
}

fn url_huh_f() -> ModuleItemInfo {
    import("url", vec![named("huh"), named("fileURLToPath")])
}

#[test]
fn existing_url_url_to_filename_import_both() {
    let out = run(vec![mod_a(), url_huh_f(), mod_b(), log_line("__dirname"), v_line()]);
    assert_eq!(
        out,
        vec![
            mod_a(),
            url_huh_f(),
            new_import("path", "dirname", P),
            filename_decl("fileURLToPath"),
            dirname_decl("fileURLToPath", &pref("dirname")),
            mod_b(),
            log_line("__dirname"),
            v_line(),
        ]
    );
}

#[test]
fn existing_url_url_to_filename_import_dirname_only() {
    let out = run(vec![mod_a(), url_huh_f(), mod_b(), log_line("__dirname")]);
    assert_eq!(
        out,
        vec![
            mod_a(),
            url_huh_f(),
            new_import("path", "dirname", P),
            dirname_decl("fileURLToPath", &pref("dirname")),
            mod_b(),
            log_line("__dirname"),
        ]
    );
}

#[test]
fn existing_url_url_to_filename_import_filename_only() {
    let out = run(vec![mod_a(), url_huh_f(), mod_b(), log_line("__filename")]);
    assert_eq!(
        out,
        vec![mod_a(), url_huh_f(), filename_decl("fileURLToPath"), mod_b(), log_line("__filename")]
    );
}

fn url_huh() -> ModuleItemInfo {
    import("url", vec![named("huh")])
}

fn url_huh_shim() -> ModuleItemInfo {
    import("url", vec![named("huh"), aliased("fileURLToPath", &pref("fileURLToPath"))])
}

#[test]
fn existing_url_no_dirname_import_both() {
    let out = run(vec![mod_a(), url_huh(), mod_b(), log_line("__dirname"), v_line()]);
    assert_eq!(
        out,
        vec![
            mod_a(),
            url_huh_shim(),
            new_import("path", "dirname", P),
            filename_decl(&pref("fileURLToPath")),
            dirname_decl(&pref("fileURLToPath"), &pref("dirname")),
            mod_b(),
            log_line("__dirname"),
            v_line(),
        ]
    );
}

#[test]
fn existing_url_no_dirname_import_dirname_only() {
    let out = run(vec![mod_a(), url_huh(), mod_b(), log_line("__dirname")]);
    assert_eq!(
        out,
        vec![
            mod_a(),
            url_huh_shim(),
            new_import("path", "dirname", P),
            dirname_decl(&pref("fileURLToPath"), &pref("dirname")),
            mod_b(),
            log_line("__dirname"),
        ]
    );
}

#[test]
fn existing_url_no_dirname_import_filename_only() {
    let out = run(vec![mod_a(), url_huh(), mod_b(), log_line("__filename")]);
    assert_eq!(
        out,
        vec![
            mod_a(),
            url_huh_shim(),
            filename_decl(&pref("fileURLToPath")),
            mod_b(),
            log_line("__filename"),
        ]
    );
}

fn url_star() -> ModuleItemInfo {
    import("url", vec![namespace("u")])
}

#[test]
fn existing_url_star_import_both() {
    let out = run(vec![mod_a(), url_star(), mod_b(), log_line("__dirname"), v_line()]);
    assert_eq!(
        out,
        vec![
            mod_a(),
            url_star(),
            new_import("path", "dirname", P),
            filename_decl("u.fileURLToPath"),
            dirname_decl("u.fileURLToPath", &pref("dirname")),
            mod_b(),
            log_line("__dirname"),
            v_line(),
        ]
    );
}

#[test]
fn existing_url_star_import_dirname_only() {
    let out = run(vec![mod_a(), url_star(), mod_b(), log_line("__dirname")]);
    assert_eq!(
        out,
        vec![
            mod_a(),
            url_star(),
            new_import("path", "dirname", P),
            dirname_decl("u.fileURLToPath", &pref("dirname")),
            mod_b(),
            log_line("__dirname"),
        ]
    );
}

#[test]
fn existing_url_star_import_filename_only() {
    let out = run(vec![mod_a(), url_star(), mod_b(), log_line("__filename")]);
    assert_eq!(
        out,
        vec![mod_a(), url_star(), filename_decl("u.fileURLToPath"), mod_b(), log_line("__filename")]
    );
}

fn path_dirname_join() -> ModuleItemInfo {
    import("path", vec![named("dirname"), named("join")])
}

#[test]
fn mixed_star_and_import_both() {
    let out = run(vec![
        mod_a(),
        url_star(),
        mod_b(),
        path_dirname_join(),
        log_line("__dirname"),
        v_line(),
    ]);
    assert_eq!(
        out,
        vec![
            mod_a(),
            url_star(),
            mod_b(),
            path_dirname_join(),
            filename_decl("u.fileURLToPath"),
            dirname_decl("u.fileURLToPath", "dirname"),
            log_line("__dirname"),
            v_line(),
        ]
    );
}

#[test]
fn mixed_star_and_import_dirname_only() {
    let out = run(vec![mod_a(), url_star(), mod_b(), path_dirname_join(), log_line("__dirname")]);
    assert_eq!(
        out,
        vec![
            mod_a(),
            url_star(),
            mod_b(),
            path_dirname_join(),
            dirname_decl("u.fileURLToPath", "dirname"),
            log_line("__dirname"),
        ]
    );
}

#[test]
fn mixed_star_and_import_filename_only() {
    let out = run(vec![mod_a(), url_star(), mod_b(), path_dirname_join(), log_line("__filename")]);
    assert_eq!(
        out,
        vec![
            mod_a(),
            url_star(),
            filename_decl("u.fileURLToPath"),
            mod_b(),
            path_dirname_join(),
            log_line("__filename"),
        ]
    );
}

fn path_funky() -> ModuleItemInfo {
    import("path", vec![named("join"), aliased("dirname", "funkyDirname")])
}

fn url_utfp() -> ModuleItemInfo {
    import("url", vec![aliased("fileURLToPath", "utfp")])
}

#[test]
fn both_aliased_imports_both() {
    let out = run(vec![mod_a(), path_funky(), mod_b(), url_utfp(), log_line("__dirname"), v_line()]);
    assert_eq!(
        out,
        vec![
            mod_a(),
            path_funky(),
            mod_b(),
            url_utfp(),
            filename_decl("utfp"),
            dirname_decl("utfp", "funkyDirname"),
            log_line("__dirname"),
            v_line(),
        ]
    );
}

#[test]
fn both_aliased_imports_dirname_only() {
    let out = run(vec![mod_a(), path_funky(), mod_b(), url_utfp(), log_line("__dirname")]);
    assert_eq!(
        out,
        vec![
            mod_a(),
            path_funky(),
            mod_b(),
            url_utfp(),
            dirname_decl("utfp", "funkyDirname"),
            log_line("__dirname"),
        ]
    );
}

#[test]
fn both_aliased_imports_filename_only() {
    let out = run(vec![mod_a(), path_funky(), mod_b(), url_utfp(), log_line("__filename")]);
    assert_eq!(
        out,
        vec![
            mod_a(),
            path_funky(),
            mod_b(),
            url_utfp(),
            filename_decl("utfp"),
            log_line("__filename"),
        ]
    );
}

#[test]
fn uses_custom_prefix() {
    let prefix = "__custom_";
    let out = run_with(vec![mod_a(), mod_b(), log_line("__dirname"), v_line()], prefix);
    assert_eq!(
        out,
        vec![
            new_import("path", "dirname", prefix),
            new_import("url", "fileURLToPath", prefix),
            filename_decl("__custom_fileURLToPath"),
            dirname_decl("__custom_fileURLToPath", "__custom_dirname"),
            mod_a(),
            mod_b(),
            log_line("__dirname"),
            v_line(),
        ]
    );
}
