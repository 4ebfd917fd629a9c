//! Properties of the transform as a whole, proved over the specifications
//! that its functions meet.
use crate::constants::{
    DIRNAME_FUNC, DIRNAME_TOKEN, FILENAME_TOKEN, NODE_PATH_PKG, NODE_URL_PKG, PATH_PKG, URL_PKG,
    URL_TO_FILE_PATH_FUNC,
};
use crate::import_data_parser::{
    DiagnosticKind, DiagnosticView, ImportAsView, ParseResultView, ParserView, import_as_of,
    parse_decl, unsupported_diagnostics,
};
use crate::model::{ConstDeclView, DeclView, EventView, ExprView, ItemView, SpecifierView};
use crate::post_scan_write_visitor::{
    dirname_decl_view, dirname_function_name, existing_imports_for, filename_decl_view,
    injected_items, injection, injection_resolvable, insert_index, opt_item, url_function_name,
};
use crate::scan_visitor::{
    ScanState, expr_idents, initial_scan, scan_events, scan_ident, scan_idents, scan_import,
    scan_item, scan_items, scan_module,
};
use crate::specifier_factory::{
    alias_of, applied_decl, first_match, item_match, lemma_first_match_bounds, lemma_match_count_mono,
    lemma_match_count_step, match_count, matched_before, modified_items, modified_prefix_len, new_import_view, stop_index, stops_at,
    updated_item,
};
use vstd::prelude::*;

verus! {

/// The names under which `path` is recognised.
pub open spec fn path_names() -> Seq<Seq<char>> {
    seq![PATH_PKG@, NODE_PATH_PKG@]
}

/// The names under which `url` is recognised.
pub open spec fn url_names() -> Seq<Seq<char>> {
    seq![URL_PKG@, NODE_URL_PKG@]
}

/// An item that holds an `import` declaration inside it (such as one in a
/// TypeScript `declare module` block).
pub open spec fn has_nested_import(item: ItemView) -> bool {
    match item {
        ItemView::Other(es) => exists|k: int| 0 <= k < es.len() && #[trigger] es[k] is Import,
        _ => false,
    }
}

/// Every `import` declaration of the module stands at its top level.
pub open spec fn no_nested_imports(items: Seq<ItemView>) -> bool {
    forall|i: int| 0 <= i < items.len() ==> !has_nested_import(#[trigger] items[i])
}

/// A top-level declaration, not type-only, that imports one of `names`.
pub open spec fn reads_import(item: ItemView, names: Seq<Seq<char>>) -> bool {
    item matches ItemView::Import(d) && !d.type_only && names.contains(d.src)
}

/// A top-level import declaration of `pkg`.
pub open spec fn imports_pkg(item: ItemView, pkg: Seq<char>) -> bool {
    item matches ItemView::Import(d) && d.src == pkg
}

/// What the scan learns about the imports of one package.
pub open spec fn parser_facts(
    items: Seq<ItemView>,
    parsed: Option<ParseResultView>,
    names: Seq<Seq<char>>,
) -> bool {
    &&& parsed is Some <==> exists|i: int|
        0 <= i < items.len() && #[trigger] reads_import(items[i], names)
    &&& parsed matches Some(r) ==> names.contains(r.pkg_name) && exists|i: int|
        0 <= i < items.len() && #[trigger] imports_pkg(items[i], r.pkg_name)
}

proof fn lemma_names_disjoint()
    ensures
        forall|s: Seq<char>| path_names().contains(s) ==> !url_names().contains(s),
{
    reveal_strlit("path");
    reveal_strlit("node:path");
    reveal_strlit("url");
    reveal_strlit("node:url");
    assert forall|s: Seq<char>| path_names().contains(s) implies !url_names().contains(s) by {
        let k = choose|k: int| 0 <= k < 2 && path_names()[k] == s;
        if url_names().contains(s) {
            let m = choose|m: int| 0 <= m < 2 && url_names()[m] == s;
            assert(path_names()[k][0] != url_names()[m][0] || path_names()[k].len()
                != url_names()[m].len() || path_names()[k][1] != url_names()[m][1]);
        }
    }
}

proof fn lemma_scan_idents_keeps_parsers(s: ScanState, syms: Seq<Seq<char>>)
    ensures
        scan_idents(s, syms).path == s.path,
        scan_idents(s, syms).url == s.url,
    decreases syms.len(),
{
    if syms.len() > 0 {
        lemma_scan_idents_keeps_parsers(s, syms.drop_last());
    }
}

proof fn lemma_scan_events_keeps_parsers(s: ScanState, es: Seq<EventView>)
    requires
        forall|k: int| 0 <= k < es.len() ==> !(#[trigger] es[k] is Import),
    ensures
        scan_events(s, es).path == s.path,
        scan_events(s, es).url == s.url,
    decreases es.len(),
{
    if es.len() > 0 {
        let rest = es.drop_last();
        assert forall|k: int| 0 <= k < rest.len() implies !(#[trigger] rest[k] is Import) by {
            assert(rest[k] == es[k]);
        }
        lemma_scan_events_keeps_parsers(s, rest);
        assert(!(es[es.len() - 1] is Import));
    }
}

/// The scan keeps the package names it looks for, and, when every import
/// stands at the top level, has a result for a package exactly when the
/// module imports it (not type-only), the result naming one such import.
#[verifier::spinoff_prover]
pub proof fn law_scan_finds_imports(items: Seq<ItemView>)
    requires
        no_nested_imports(items),
    ensures
        scan_module(items).path.pkg_names == path_names(),
        scan_module(items).url.pkg_names == url_names(),
        parser_facts(items, scan_module(items).path.parsed, path_names()),
        parser_facts(items, scan_module(items).url.parsed, url_names()),
    decreases items.len(),
{
    lemma_names_disjoint();
    if items.len() == 0 {
        assert(initial_scan().path.pkg_names == path_names());
    } else {
        let rest = items.drop_last();
        let last = items.last();
        assert forall|i: int| 0 <= i < rest.len() implies !has_nested_import(#[trigger] rest[i]) by {
            assert(rest[i] == items[i]);
        }
        law_scan_finds_imports(rest);
        let s = scan_items(initial_scan(), rest);
        assert(scan_module(items) == scan_item(s, last));
        let n = (items.len() - 1) as int;
        assert(items[n] == last);
        assert forall|i: int| 0 <= i < rest.len() implies #[trigger] items[i] == rest[i] by {}
        match last {
            ItemView::Import(d) => {
                assert(scan_item(s, last) == scan_import(s, d));
                if !d.type_only && path_names().contains(d.src) {
                    assert(reads_import(items[n], path_names()));
                    assert(imports_pkg(items[n], d.src));
                    assert(!url_names().contains(d.src));
                    assert(!reads_import(items[n], url_names()));
                } else if !d.type_only && url_names().contains(d.src) {
                    assert(reads_import(items[n], url_names()));
                    assert(imports_pkg(items[n], d.src));
                    assert(!path_names().contains(d.src));
                } else {
                    assert(!reads_import(items[n], path_names()));
                    assert(!reads_import(items[n], url_names()));
                }
            },
            ItemView::ConstDecl(c) => {
                lemma_scan_idents_keeps_parsers(scan_ident(s, c.name), expr_idents(c.init));
            },
            ItemView::Other(es) => {
                assert(!has_nested_import(items[n]));
                lemma_scan_events_keeps_parsers(s, es);
            },
        }
        let s2 = scan_module(items);
        assert forall|i: int| 0 <= i < rest.len() && reads_import(rest[i], path_names())
            implies reads_import(items[i], path_names()) by {}
        assert forall|i: int| 0 <= i < rest.len() && reads_import(rest[i], url_names())
            implies reads_import(items[i], url_names()) by {}
        if exists|i: int| 0 <= i < items.len() && #[trigger] reads_import(items[i], path_names()) {
            let i = choose|i: int| 0 <= i < items.len() && #[trigger] reads_import(items[i], path_names());
            if i < n {
                assert(reads_import(rest[i], path_names()));
            }
        }
        if exists|i: int| 0 <= i < items.len() && #[trigger] reads_import(items[i], url_names()) {
            let i = choose|i: int| 0 <= i < items.len() && #[trigger] reads_import(items[i], url_names());
            if i < n {
                assert(reads_import(rest[i], url_names()));
            }
        }
        if let Some(r) = s.path.parsed {
            let i = choose|i: int| 0 <= i < rest.len() && #[trigger] imports_pkg(rest[i], r.pkg_name);
            assert(imports_pkg(items[i], r.pkg_name));
        }
        if let Some(r) = s.url.parsed {
            let i = choose|i: int| 0 <= i < rest.len() && #[trigger] imports_pkg(rest[i], r.pkg_name);
            assert(imports_pkg(items[i], r.pkg_name));
        }
        assert(parser_facts(items, s2.path.parsed, path_names())) by {
            assert(s2.path.parsed is Some ==> exists|i: int|
                0 <= i < items.len() && #[trigger] reads_import(items[i], path_names()));
            assert((exists|i: int| 0 <= i < items.len() && #[trigger] reads_import(items[i], path_names()))
                ==> s2.path.parsed is Some);
        }
        assert(parser_facts(items, s2.url.parsed, url_names())) by {
            assert(s2.url.parsed is Some ==> exists|i: int|
                0 <= i < items.len() && #[trigger] reads_import(items[i], url_names()));
            assert((exists|i: int| 0 <= i < items.len() && #[trigger] reads_import(items[i], url_names()))
                ==> s2.url.parsed is Some);
        }
    }
}

proof fn lemma_first_match_some(src: Seq<char>, imps: Seq<ParseResultView>, j: int)
    requires
        0 <= j < imps.len(),
        imps[j].pkg_name == src,
    ensures
        first_match(src, imps) is Some,
    decreases j,
{
    if j > 0 && imps[0].pkg_name != src {
        lemma_first_match_some(src, imps.drop_first(), j - 1);
    }
}

proof fn lemma_count_one(items: Seq<ItemView>, imps: Seq<ParseResultView>, a: int)
    requires
        0 <= a < items.len(),
        item_match(items[a], imps) is Some,
    ensures
        match_count(items, imps) >= 1,
{
    lemma_match_count_step(items, imps, a + 1);
    lemma_match_count_mono(items, imps, a + 1, items.len() as int);
    assert(items.take(items.len() as int) =~= items);
}

proof fn lemma_count_two(items: Seq<ItemView>, imps: Seq<ParseResultView>, a: int, b: int)
    requires
        0 <= a < b < items.len(),
        item_match(items[a], imps) is Some,
        item_match(items[b], imps) is Some,
    ensures
        match_count(items, imps) >= 2,
{
    lemma_match_count_step(items, imps, a + 1);
    lemma_match_count_mono(items, imps, a + 1, b);
    lemma_match_count_step(items, imps, b + 1);
    lemma_match_count_mono(items, imps, b + 1, items.len() as int);
    assert(items.take(items.len() as int) =~= items);
}

/// With every import at the top level, each existing import the injection
/// relies on is found again among the top-level items, and the packages they
/// import differ.
proof fn lemma_existing_imports_found(items: Seq<ItemView>)
    requires
        no_nested_imports(items),
    ensures
        match_count(items, existing_imports_for(scan_module(items))) >= existing_imports_for(
            scan_module(items),
        ).len(),
        existing_imports_for(scan_module(items)).len() == 2 ==> existing_imports_for(
            scan_module(items),
        )[0].pkg_name != existing_imports_for(scan_module(items))[1].pkg_name,
{
    law_scan_finds_imports(items);
    lemma_names_disjoint();
    let s = scan_module(items);
    let imps = existing_imports_for(s);
    match (s.path.parsed, s.url.parsed) {
        (None, None) => {},
        (Some(dp), None) => {
            if s.uses_dirname {
                let i = choose|i: int| 0 <= i < items.len() && #[trigger] imports_pkg(items[i], dp.pkg_name);
                lemma_first_match_some(dp.pkg_name, imps, 0);
                lemma_count_one(items, imps, i);
            } else {
                assert(imps.len() == 0);
            }
        },
        (None, Some(up)) => {
            let i = choose|i: int| 0 <= i < items.len() && #[trigger] imports_pkg(items[i], up.pkg_name);
            lemma_first_match_some(up.pkg_name, imps, 0);
            lemma_count_one(items, imps, i);
        },
        (Some(dp), Some(up)) => {
            let iu = choose|i: int| 0 <= i < items.len() && #[trigger] imports_pkg(items[i], up.pkg_name);
            lemma_first_match_some(up.pkg_name, imps, 0);
            if s.uses_dirname {
                let id = choose|i: int| 0 <= i < items.len() && #[trigger] imports_pkg(items[i], dp.pkg_name);
                lemma_first_match_some(dp.pkg_name, imps, 1);
                assert(up.pkg_name != dp.pkg_name);
                if iu < id {
                    lemma_count_two(items, imps, iu, id);
                } else {
                    lemma_count_two(items, imps, id, iu);
                }
            } else {
                lemma_count_one(items, imps, iu);
            }
        },
    }
}

/// Whenever every `import` declaration of a module stands at its top level,
/// the injection can be done: each existing import it relies on is found
/// again among the top-level items.
pub proof fn law_process_defined_for_top_level_imports(items: Seq<ItemView>)
    requires
        no_nested_imports(items),
    ensures
        injection_resolvable(scan_module(items), items),
{
    lemma_existing_imports_found(items);
}

/// An item in which the scan meets the identifier `sym`.
pub open spec fn item_mentions(item: ItemView, sym: Seq<char>) -> bool {
    match item {
        ItemView::Import(_) => false,
        ItemView::ConstDecl(c) => c.name == sym || expr_idents(c.init).contains(sym),
        ItemView::Other(es) => exists|k: int| 0 <= k < es.len() && #[trigger] es[k] == EventView::Ident(sym),
    }
}

/// The module uses the identifier `sym` outside its import declarations.
pub open spec fn module_mentions(items: Seq<ItemView>, sym: Seq<char>) -> bool {
    exists|i: int| 0 <= i < items.len() && #[trigger] item_mentions(items[i], sym)
}

spec fn global_token(dirname: bool) -> Seq<char> {
    if dirname {
        DIRNAME_TOKEN@
    } else {
        FILENAME_TOKEN@
    }
}

spec fn global_flag(s: ScanState, dirname: bool) -> bool {
    if dirname {
        s.uses_dirname
    } else {
        s.uses_filename
    }
}

proof fn lemma_tokens_differ()
    ensures
        DIRNAME_TOKEN@ != FILENAME_TOKEN@,
{
    reveal_strlit("__dirname");
    reveal_strlit("__filename");
    assert(DIRNAME_TOKEN@.len() != FILENAME_TOKEN@.len());
}

proof fn lemma_scan_ident_flag(s: ScanState, sym: Seq<char>, dirname: bool)
    ensures
        global_flag(scan_ident(s, sym), dirname) == (global_flag(s, dirname) || sym == global_token(
            dirname,
        )),
{
    lemma_tokens_differ();
}

proof fn lemma_scan_idents_flag(s: ScanState, syms: Seq<Seq<char>>, dirname: bool)
    ensures
        global_flag(scan_idents(s, syms), dirname) == (global_flag(s, dirname) || syms.contains(
            global_token(dirname),
        )),
    decreases syms.len(),
{
    if syms.len() > 0 {
        let rest = syms.drop_last();
        lemma_scan_idents_flag(s, rest, dirname);
        lemma_scan_ident_flag(scan_idents(s, rest), syms.last(), dirname);
        if syms.contains(global_token(dirname)) {
            let k = choose|k: int| 0 <= k < syms.len() && syms[k] == global_token(dirname);
            if k < rest.len() {
                assert(rest[k] == syms[k]);
            }
        }
        if rest.contains(global_token(dirname)) {
            let k = choose|k: int| 0 <= k < rest.len() && rest[k] == global_token(dirname);
            assert(syms[k] == rest[k]);
        }
    }
}

proof fn lemma_scan_events_flag(s: ScanState, es: Seq<EventView>, dirname: bool)
    ensures
        global_flag(scan_events(s, es), dirname) == (global_flag(s, dirname) || exists|k: int|
            0 <= k < es.len() && #[trigger] es[k] == EventView::Ident(global_token(dirname))),
    decreases es.len(),
{
    if es.len() > 0 {
        let rest = es.drop_last();
        let t = global_token(dirname);
        lemma_scan_events_flag(s, rest, dirname);
        let s1 = scan_events(s, rest);
        match es.last() {
            EventView::Ident(sym) => lemma_scan_ident_flag(s1, sym, dirname),
            EventView::Import(d) => {},
        }
        if exists|k: int| 0 <= k < es.len() && #[trigger] es[k] == EventView::Ident(t) {
            let k = choose|k: int| 0 <= k < es.len() && #[trigger] es[k] == EventView::Ident(t);
            if k < rest.len() {
                assert(rest[k] == es[k]);
            }
        }
        if exists|k: int| 0 <= k < rest.len() && #[trigger] rest[k] == EventView::Ident(t) {
            let k = choose|k: int| 0 <= k < rest.len() && #[trigger] rest[k] == EventView::Ident(t);
            assert(es[k] == rest[k]);
        }
    }
}

proof fn lemma_scan_items_flag(s: ScanState, items: Seq<ItemView>, dirname: bool)
    ensures
        global_flag(scan_items(s, items), dirname) == (global_flag(s, dirname) || module_mentions(
            items,
            global_token(dirname),
        )),
    decreases items.len(),
{
    if items.len() > 0 {
        let rest = items.drop_last();
        let t = global_token(dirname);
        lemma_scan_items_flag(s, rest, dirname);
        let s1 = scan_items(s, rest);
        match items.last() {
            ItemView::Import(d) => {},
            ItemView::ConstDecl(c) => {
                lemma_scan_ident_flag(s1, c.name, dirname);
                lemma_scan_idents_flag(scan_ident(s1, c.name), expr_idents(c.init), dirname);
            },
            ItemView::Other(es) => lemma_scan_events_flag(s1, es, dirname),
        }
        let n = items.len() - 1;
        assert(items[n] == items.last());
        if item_mentions(items.last(), t) {
            assert(item_mentions(items[n], t));
        }
        if module_mentions(items, t) {
            let k = choose|k: int| 0 <= k < items.len() && #[trigger] item_mentions(items[k], t);
            if k < rest.len() {
                assert(rest[k] == items[k]);
            }
        }
        if module_mentions(rest, t) {
            let k = choose|k: int| 0 <= k < rest.len() && #[trigger] item_mentions(rest[k], t);
            assert(items[k] == rest[k]);
        }
    }
}

/// The scan finds `__dirname` (or `__filename`) used exactly when the module
/// uses that identifier outside its import declarations.
pub proof fn law_scan_detects_globals(items: Seq<ItemView>)
    ensures
        scan_module(items).uses_dirname == module_mentions(items, DIRNAME_TOKEN@),
        scan_module(items).uses_filename == module_mentions(items, FILENAME_TOKEN@),
{
    lemma_scan_items_flag(initial_scan(), items, true);
    lemma_scan_items_flag(initial_scan(), items, false);
}

/// Below `x`, some item answers to a result when the count there is not 0.
proof fn lemma_some_match_below(items: Seq<ItemView>, imps: Seq<ParseResultView>, x: int)
    requires
        0 <= x <= items.len(),
        match_count(items.take(x), imps) >= 1,
    ensures
        exists|a: int| 0 <= a < x && #[trigger] item_match(items[a], imps) is Some,
    decreases x,
{
    lemma_match_count_step(items, imps, x);
    if item_match(items[x - 1], imps) is Some {
        assert(item_match(items[x - 1], imps) is Some);
    } else {
        lemma_some_match_below(items, imps, x - 1);
        let a = choose|a: int| 0 <= a < x - 1 && #[trigger] item_match(items[a], imps) is Some;
        assert(item_match(items[a], imps) is Some);
    }
}

/// Where enough items answer, the count reaches the number of results at
/// some item.
proof fn lemma_stop_exists(items: Seq<ItemView>, imps: Seq<ParseResultView>, x: int)
    requires
        0 <= x <= items.len(),
        imps.len() > 0,
        match_count(items.take(x), imps) >= imps.len(),
    ensures
        exists|idx: int| idx < x && #[trigger] stops_at(items, imps, idx),
    decreases x,
{
    lemma_match_count_step(items, imps, x);
    if match_count(items.take(x - 1), imps) >= imps.len() {
        lemma_stop_exists(items, imps, x - 1);
        let idx = choose|idx: int| idx < x - 1 && #[trigger] stops_at(items, imps, idx);
        assert(stops_at(items, imps, idx));
    } else {
        assert(stops_at(items, imps, x - 1));
    }
}

/// Where the injection can be done and relies on existing imports, it stops
/// at an item, which is then where `stop_index` points.
proof fn lemma_stop_index_exists(items: Seq<ItemView>, imps: Seq<ParseResultView>)
    requires
        imps.len() > 0,
        match_count(items, imps) >= imps.len(),
    ensures
        stops_at(items, imps, stop_index(items, imps)),
{
    assert(items.take(items.len() as int) =~= items);
    lemma_stop_exists(items, imps, items.len() as int);
}

/// `after` is `before`, or the same import declaration with one specifier
/// added at its end.
pub open spec fn extends_item(before: ItemView, after: ItemView) -> bool {
    ||| before == after
    ||| before matches ItemView::Import(d) && after matches ItemView::Import(e) && {
        &&& e.src == d.src
        &&& e.src_raw == d.src_raw
        &&& e.type_only == d.type_only
        &&& e.span_lo == d.span_lo
        &&& e.span_hi == d.span_hi
        &&& e.specifiers.len() == d.specifiers.len() + 1
        &&& e.specifiers.take(d.specifiers.len() as int) == d.specifiers
    }
}

/// A module that uses neither global is left as it is.
pub proof fn law_unused_globals_leave_module_unchanged(
    scan: ScanState,
    prefix: Seq<char>,
    items: Seq<ItemView>,
)
    requires
        !scan.uses_dirname,
        !scan.uses_filename,
    ensures
        injection(scan, prefix, items) == items,
{
}

/// The injection only adds: the new items form one block at
/// `insert_index`, the items after it are the old ones, and each item before
/// it is the old one or the same import declaration with a specifier added.
pub proof fn law_injection_keeps_items(scan: ScanState, prefix: Seq<char>, items: Seq<ItemView>)
    requires
        scan.uses_dirname || scan.uses_filename,
        injection_resolvable(scan, items),
    ensures
        ({
            let r = injection(scan, prefix, items);
            let at = insert_index(scan, items);
            let ins = injected_items(scan, prefix, items);
            &&& 0 <= at <= items.len()
            &&& r.len() == items.len() + ins.len()
            &&& r.subrange(at, at + ins.len()) == ins
            &&& forall|i: int| at <= i < items.len() ==> r[i + ins.len()] == items[i]
            &&& forall|i: int| 0 <= i < at ==> extends_item(items[i], #[trigger] r[i])
        }),
{
    let imps = existing_imports_for(scan);
    let at = insert_index(scan, items);
    let ins = injected_items(scan, prefix, items);
    let updated = modified_items(items, imps, prefix);
    let r = injection(scan, prefix, items);
    if imps.len() > 0 {
        lemma_stop_index_exists(items, imps);
    }
    assert(r == updated.take(at) + ins + updated.skip(at));
    assert(r.subrange(at, at + ins.len()) =~= ins);
    assert forall|i: int| at <= i < items.len() implies r[i + ins.len()] == items[i] by {
        assert(r[i + ins.len()] == updated.skip(at)[i - at]);
    }
    assert forall|i: int| 0 <= i < at implies extends_item(items[i], #[trigger] r[i]) by {
        assert(r[i] == updated[i]);
        assert(updated[i] == updated_item(items[i], imps, prefix));
        if let ItemView::Import(d) = items[i] {
            if let Some(j) = first_match(d.src, imps) {
                lemma_first_match_bounds(d.src, imps);
                let e = applied_decl(d, imps[j], prefix);
                if imps[j].import_as is DestructuredNone {
                    assert(e.specifiers.take(d.specifiers.len() as int) =~= d.specifiers);
                }
            }
        }
    }
}

/// A module that imports neither `path` nor `url` gets its new imports, with
/// names made of the prefix, and its declarations at the top.
pub proof fn law_no_imports_inject_at_top(scan: ScanState, prefix: Seq<char>, items: Seq<ItemView>)
    requires
        scan.uses_dirname || scan.uses_filename,
        scan.path.parsed is None,
        scan.url.parsed is None,
    ensures
        insert_index(scan, items) == 0,
        injection(scan, prefix, items) == injected_items(scan, prefix, items) + items,
        url_function_name(scan, prefix, items) == prefix + URL_TO_FILE_PATH_FUNC@,
        dirname_function_name(scan, prefix, items) == prefix + DIRNAME_FUNC@,
        injected_items(scan, prefix, items) == opt_item(
            scan.uses_dirname,
            ItemView::Import(new_import_view(prefix, PATH_PKG@, DIRNAME_FUNC@)),
        ) + seq![ItemView::Import(new_import_view(prefix, URL_PKG@, URL_TO_FILE_PATH_FUNC@))]
            + opt_item(
            scan.uses_filename,
            ItemView::ConstDecl(filename_decl_view(prefix + URL_TO_FILE_PATH_FUNC@)),
        ) + opt_item(
            scan.uses_dirname,
            ItemView::ConstDecl(
                dirname_decl_view(prefix + URL_TO_FILE_PATH_FUNC@, prefix + DIRNAME_FUNC@),
            ),
        ),
{
    let imps = existing_imports_for(scan);
    let updated = modified_items(items, imps, prefix);
    assert(updated =~= items);
    assert(updated.take(0) + injected_items(scan, prefix, items) + updated.skip(0)
        =~= injected_items(scan, prefix, items) + items);
}

/// The package an item imports, if it is an import declaration.
pub open spec fn import_src(item: ItemView) -> Option<Seq<char>> {
    match item {
        ItemView::Import(d) => Some(d.src),
        _ => None,
    }
}

/// No two top-level import declarations import the same package.
pub open spec fn distinct_import_sources(items: Seq<ItemView>) -> bool {
    forall|i: int, k: int|
        0 <= i < items.len() && 0 <= k < items.len() && i != k && #[trigger] import_src(items[i])
            is Some ==> import_src(items[i]) != #[trigger] import_src(items[k])
}

/// When each package is imported once, every existing import the injection
/// relies on is met before it stops.
proof fn lemma_all_results_met(items: Seq<ItemView>, imps: Seq<ParseResultView>)
    requires
        1 <= imps.len() <= 2,
        imps.len() == 2 ==> imps[0].pkg_name != imps[1].pkg_name,
        distinct_import_sources(items),
        match_count(items, imps) >= imps.len(),
    ensures
        forall|j: int|
            0 <= j < imps.len() ==> matched_before(items, imps, modified_prefix_len(items, imps), j),
{
    lemma_stop_index_exists(items, imps);
    let b = stop_index(items, imps);
    let stop = b + 1;
    let jb = item_match(items[b], imps)->0;
    lemma_first_match_bounds(import_src(items[b])->0, imps);
    assert(item_match(items[b], imps) == Some(jb));
    if imps.len() == 1 {
        assert(matched_before(items, imps, stop, 0));
    } else {
        lemma_match_count_step(items, imps, b + 1);
        lemma_some_match_below(items, imps, b);
        let a = choose|a: int| 0 <= a < b && #[trigger] item_match(items[a], imps) is Some;
        let ja = item_match(items[a], imps)->0;
        lemma_first_match_bounds(import_src(items[a])->0, imps);
        assert(import_src(items[a]) != import_src(items[b]));
        assert(ja != jb);
        assert(item_match(items[a], imps) == Some(ja));
        assert(matched_before(items, imps, stop, ja));
        assert(matched_before(items, imps, stop, jb));
    }
}

/// When every import stands at the top level and each package is imported
/// once, the functions are called by the names under which the module already
/// has them (`ns.fn` for a namespace import, the local name for a named one),
/// or under the prefixed name of the import that is added.
pub proof fn law_call_names(items: Seq<ItemView>, prefix: Seq<char>)
    requires
        no_nested_imports(items),
        distinct_import_sources(items),
    ensures
        url_function_name(scan_module(items), prefix, items) == match scan_module(items).url.parsed {
            Some(up) => alias_of(up, prefix),
            None => prefix + URL_TO_FILE_PATH_FUNC@,
        },
        scan_module(items).uses_dirname ==> dirname_function_name(scan_module(items), prefix, items)
            == match scan_module(items).path.parsed {
            Some(dp) => alias_of(dp, prefix),
            None => prefix + DIRNAME_FUNC@,
        },
{
    lemma_existing_imports_found(items);
    let s = scan_module(items);
    let imps = existing_imports_for(s);
    if imps.len() > 0 {
        lemma_all_results_met(items, imps);
    }
}

/// When the module already imports both functions (each package once, at
/// the top level), no import is added, and the declarations go right after
/// the last of the imports they use.
pub proof fn law_reuse_existing_imports(items: Seq<ItemView>, prefix: Seq<char>)
    requires
        no_nested_imports(items),
        distinct_import_sources(items),
        scan_module(items).uses_dirname || scan_module(items).uses_filename,
        scan_module(items).path.parsed is Some,
        scan_module(items).url.parsed is Some,
    ensures
        ({
            let s = scan_module(items);
            let at = insert_index(s, items);
            let ins = injected_items(s, prefix, items);
            let up = s.url.parsed->0;
            let dp = s.path.parsed->0;
            &&& forall|k: int| 0 <= k < ins.len() ==> #[trigger] ins[k] is ConstDecl
            &&& 1 <= at <= items.len()
            &&& imports_pkg(items[at - 1], up.pkg_name) || (s.uses_dirname && imports_pkg(
                items[at - 1],
                dp.pkg_name,
            ))
            &&& forall|i: int|
                0 <= i < items.len() && #[trigger] imports_pkg(items[i], up.pkg_name) ==> i < at
            &&& s.uses_dirname ==> forall|i: int|
                0 <= i < items.len() && #[trigger] imports_pkg(items[i], dp.pkg_name) ==> i < at
        }),
{
    lemma_existing_imports_found(items);
    let s = scan_module(items);
    let imps = existing_imports_for(s);
    let at = insert_index(s, items);
    let ins = injected_items(s, prefix, items);
    lemma_all_results_met(items, imps);
    lemma_stop_index_exists(items, imps);
    let b = stop_index(items, imps);
    lemma_first_match_bounds(import_src(items[b])->0, imps);
    assert forall|k: int| 0 <= k < ins.len() implies #[trigger] ins[k] is ConstDecl by {
        assert(ins == opt_item(s.uses_filename, ItemView::ConstDecl(
            filename_decl_view(url_function_name(s, prefix, items)),
        )) + opt_item(s.uses_dirname, ItemView::ConstDecl(
            dirname_decl_view(url_function_name(s, prefix, items), dirname_function_name(s, prefix, items)),
        )));
    }
    assert forall|j: int, i: int|
        0 <= j < imps.len() && 0 <= i < items.len() && #[trigger] imports_pkg(items[i], imps[j].pkg_name)
        implies i < at by {
        let k = choose|k: int| 0 <= k < at && #[trigger] item_match(items[k], imps) == Some(j);
        lemma_first_match_bounds(import_src(items[k])->0, imps);
        if i != k {
            assert(import_src(items[i]) != import_src(items[k]));
        }
    }
    assert(imps[0] == s.url.parsed->0);
    if s.uses_dirname {
        assert(imps[1] == s.path.parsed->0);
    }
}

/// The name an item declares, if it is a `const` declaration.
pub open spec fn declared_name(item: ItemView) -> Option<Seq<char>> {
    match item {
        ItemView::ConstDecl(c) => Some(c.name),
        _ => None,
    }
}

/// A block of new items that declares `name`.
pub open spec fn declares(ins: Seq<ItemView>, name: Seq<char>) -> bool {
    exists|k: int| 0 <= k < ins.len() && #[trigger] declared_name(ins[k]) == Some(name)
}

/// The new items declare `__filename` exactly when it is used, and
/// `__dirname` exactly when it is used.
pub proof fn law_declares_used_globals(scan: ScanState, prefix: Seq<char>, items: Seq<ItemView>)
    ensures
        declares(injected_items(scan, prefix, items), FILENAME_TOKEN@) == scan.uses_filename,
        declares(injected_items(scan, prefix, items), DIRNAME_TOKEN@) == scan.uses_dirname,
{
    lemma_tokens_differ();
    let url_name = url_function_name(scan, prefix, items);
    let imports = opt_item(
        scan.uses_dirname && scan.path.parsed is None,
        ItemView::Import(new_import_view(prefix, PATH_PKG@, DIRNAME_FUNC@)),
    ) + opt_item(
        scan.url.parsed is None,
        ItemView::Import(new_import_view(prefix, URL_PKG@, URL_TO_FILE_PATH_FUNC@)),
    );
    let f = opt_item(scan.uses_filename, ItemView::ConstDecl(filename_decl_view(url_name)));
    let d = opt_item(
        scan.uses_dirname,
        ItemView::ConstDecl(dirname_decl_view(url_name, dirname_function_name(scan, prefix, items))),
    );
    let ins = injected_items(scan, prefix, items);
    assert(ins == imports + f + d);
    assert forall|k: int| 0 <= k < imports.len() implies #[trigger] imports[k] is Import by {}
    assert forall|k: int| 0 <= k < ins.len() implies (#[trigger] declared_name(ins[k]) == Some(
        FILENAME_TOKEN@,
    ) ==> scan.uses_filename) && (declared_name(ins[k]) == Some(DIRNAME_TOKEN@)
        ==> scan.uses_dirname) by {
        if k < imports.len() {
            assert(ins[k] == imports[k]);
        } else if k < imports.len() + f.len() {
            assert(ins[k] == f[k - imports.len()]);
        } else {
            assert(ins[k] == d[k - imports.len() - f.len()]);
        }
    }
    if scan.uses_filename {
        assert(ins[imports.len() as int] == f[0]);
        assert(declared_name(ins[imports.len() as int]) == Some(FILENAME_TOKEN@));
    }
    if scan.uses_dirname {
        assert(ins[(imports.len() + f.len()) as int] == d[0]);
        assert(declared_name(ins[(imports.len() + f.len()) as int]) == Some(DIRNAME_TOKEN@));
    }
}

/// A run of identifier visits, from any state, never clears a flag and sets
/// it exactly when one of the identifiers is the global it stands for.
pub proof fn law_ident_visits_set_flags(s: ScanState, syms: Seq<Seq<char>>)
    ensures
        scan_idents(s, syms).uses_dirname == (s.uses_dirname || syms.contains(DIRNAME_TOKEN@)),
        scan_idents(s, syms).uses_filename == (s.uses_filename || syms.contains(FILENAME_TOKEN@)),
{
    lemma_scan_idents_flag(s, syms, true);
    lemma_scan_idents_flag(s, syms, false);
}

/// Reading an import declaration leaves both flags as they are.
pub proof fn law_import_visits_keep_flags(s: ScanState, d: DeclView)
    ensures
        scan_import(s, d).uses_dirname == s.uses_dirname,
        scan_import(s, d).uses_filename == s.uses_filename,
{
}

/// A run of visits of identifiers and import declarations, from any state,
/// never clears a flag and sets it exactly when one of the identifiers is the
/// global it stands for.
pub proof fn law_event_visits_set_flags(s: ScanState, es: Seq<EventView>)
    ensures
        scan_events(s, es).uses_dirname == (s.uses_dirname || exists|k: int|
            0 <= k < es.len() && #[trigger] es[k] == EventView::Ident(DIRNAME_TOKEN@)),
        scan_events(s, es).uses_filename == (s.uses_filename || exists|k: int|
            0 <= k < es.len() && #[trigger] es[k] == EventView::Ident(FILENAME_TOKEN@)),
{
    lemma_scan_events_flag(s, es, true);
    lemma_scan_events_flag(s, es, false);
}

/// The result a parser that looks for `var` gets from the import declaration
/// `item`.
pub open spec fn parse_of(item: ItemView, var: Seq<char>) -> ParseResultView {
    let d = item->Import_0;
    ParseResultView {
        pkg_name: d.src,
        import_as: import_as_of(d.specifiers, var),
        var_name: var,
    }
}

/// What a parser holds comes from one of the declarations it reads.
pub open spec fn parse_comes_from(
    items: Seq<ItemView>,
    parsed: Option<ParseResultView>,
    names: Seq<Seq<char>>,
    var: Seq<char>,
) -> bool {
    parsed matches Some(r) ==> exists|i: int|
        0 <= i < items.len() && #[trigger] reads_import(items[i], names) && r == parse_of(
            items[i],
            var,
        )
}

/// With every import at the top level, the scan looks for `dirname` and
/// `fileURLToPath`, and each result it holds is what a top-level, not
/// type-only declaration of the package gives.
pub proof fn law_scan_results_come_from_imports(items: Seq<ItemView>)
    requires
        no_nested_imports(items),
    ensures
        scan_module(items).path.var_name == DIRNAME_FUNC@,
        scan_module(items).url.var_name == URL_TO_FILE_PATH_FUNC@,
        parse_comes_from(items, scan_module(items).path.parsed, path_names(), DIRNAME_FUNC@),
        parse_comes_from(items, scan_module(items).url.parsed, url_names(), URL_TO_FILE_PATH_FUNC@),
    decreases items.len(),
{
    law_scan_finds_imports(items);
    lemma_names_disjoint();
    if items.len() > 0 {
        let rest = items.drop_last();
        let last = items.last();
        let n = (items.len() - 1) as int;
        assert forall|i: int| 0 <= i < rest.len() implies !has_nested_import(#[trigger] rest[i]) by {
            assert(rest[i] == items[i]);
        }
        law_scan_results_come_from_imports(rest);
        law_scan_finds_imports(rest);
        let s = scan_items(initial_scan(), rest);
        let s2 = scan_module(items);
        assert(s2 == scan_item(s, last));
        assert(items[n] == last);
        match last {
            ItemView::Import(d) => {},
            ItemView::ConstDecl(c) => {
                lemma_scan_idents_keeps_parsers(scan_ident(s, c.name), expr_idents(c.init));
            },
            ItemView::Other(es) => {
                assert(!has_nested_import(items[n]));
                lemma_scan_events_keeps_parsers(s, es);
            },
        }
        if let Some(r) = s2.path.parsed {
            if s2.path.parsed == s.path.parsed {
                let i = choose|i: int|
                    0 <= i < rest.len() && #[trigger] reads_import(rest[i], path_names()) && r
                        == parse_of(rest[i], DIRNAME_FUNC@);
                assert(rest[i] == items[i]);
                assert(reads_import(items[i], path_names()));
            } else {
                assert(reads_import(items[n], path_names()));
            }
        }
        if let Some(r) = s2.url.parsed {
            if s2.url.parsed == s.url.parsed {
                let i = choose|i: int|
                    0 <= i < rest.len() && #[trigger] reads_import(rest[i], url_names()) && r
                        == parse_of(rest[i], URL_TO_FILE_PATH_FUNC@);
                assert(rest[i] == items[i]);
                assert(reads_import(items[i], url_names()));
            } else {
                assert(reads_import(items[n], url_names()));
            }
        }
    }
}

/// The specifier makes `name` refer to the export `func` of the package: a
/// named specifier whose local name is `name` and which imports `func`, or a
/// namespace `ns` with `name` the member access `ns.func`.
pub open spec fn specifier_binds(s: SpecifierView, func: Seq<char>, name: Seq<char>) -> bool {
    match s {
        SpecifierView::Named { local, imported } => local == name && match imported {
            Some(i) => i == func,
            None => local == func,
        },
        SpecifierView::Namespace { local } => name == local + seq!['.'] + func,
        SpecifierView::Default { .. } => false,
    }
}

/// Some specifier of the declaration makes `name` refer to `func`.
pub open spec fn decl_binds(d: DeclView, func: Seq<char>, name: Seq<char>) -> bool {
    exists|k: int| 0 <= k < d.specifiers.len() && #[trigger] specifier_binds(d.specifiers[k], func, name)
}

/// The item is a declaration, not type-only, of one of `names` that makes
/// `name` refer to `func`.
pub open spec fn binds_at(
    item: ItemView,
    names: Seq<Seq<char>>,
    func: Seq<char>,
    name: Seq<char>,
) -> bool {
    item matches ItemView::Import(d) && !d.type_only && names.contains(d.src) && decl_binds(
        d,
        func,
        name,
    )
}

/// In the module, `name` refers to the export `func` of a package known
/// under one of `names`.
pub open spec fn module_binds(
    items: Seq<ItemView>,
    names: Seq<Seq<char>>,
    func: Seq<char>,
    name: Seq<char>,
) -> bool {
    exists|i: int| 0 <= i < items.len() && #[trigger] binds_at(items[i], names, func, name)
}

/// A specifier that imports `func` (as `func` or as `func as x`).
pub open spec fn imports_function(s: SpecifierView, func: Seq<char>) -> bool {
    match s {
        SpecifierView::Named { local, imported } => match imported {
            Some(i) => i == func,
            None => local == func,
        },
        _ => false,
    }
}

proof fn lemma_parse_binds(specs: Seq<SpecifierView>, var: Seq<char>)
    ensures
        import_as_of(specs, var) matches ImportAsView::Destructured(l) ==> exists|k: int|
            0 <= k < specs.len() && #[trigger] specifier_binds(specs[k], var, l),
        import_as_of(specs, var) matches ImportAsView::Named(ns) ==> exists|k: int|
            0 <= k < specs.len() && #[trigger] specifier_binds(specs[k], var, ns + seq!['.'] + var),
    decreases specs.len(),
{
    if specs.len() > 0 {
        let rest = specs.drop_last();
        let n = specs.len() - 1;
        lemma_parse_binds(rest, var);
        assert(specs[n] == specs.last());
        let acc = import_as_of(rest, var);
        if import_as_of(specs, var) != acc {
            assert(specifier_binds(specs[n], var, match import_as_of(specs, var) {
                ImportAsView::Destructured(l) => l,
                ImportAsView::Named(ns) => ns + seq!['.'] + var,
                ImportAsView::DestructuredNone => Seq::empty(),
            }));
        } else {
            if let ImportAsView::Destructured(l) = acc {
                let k = choose|k: int| 0 <= k < rest.len() && #[trigger] specifier_binds(rest[k], var, l);
                assert(specs[k] == rest[k]);
            }
            if let ImportAsView::Named(ns) = acc {
                let k = choose|k: int|
                    0 <= k < rest.len() && #[trigger] specifier_binds(rest[k], var, ns + seq!['.'] + var);
                assert(specs[k] == rest[k]);
            }
        }
    }
}

/// Completing the declaration a parse result came from makes the name
/// `apply_parse_result` returns refer to the function: the local name of a
/// specifier that imports it, `ns.fn` for a namespace import, or the added
/// `{ fn as prefix + fn }`.
pub proof fn law_applied_alias_is_bound(d: DeclView, imp: ParseResultView, prefix: Seq<char>)
    requires
        imp.pkg_name == d.src,
        imp.import_as == import_as_of(d.specifiers, imp.var_name),
    ensures
        decl_binds(applied_decl(d, imp, prefix), imp.var_name, alias_of(imp, prefix)),
        applied_decl(d, imp, prefix).src == d.src,
        applied_decl(d, imp, prefix).type_only == d.type_only,
{
    lemma_parse_binds(d.specifiers, imp.var_name);
    let e = applied_decl(d, imp, prefix);
    if imp.import_as is DestructuredNone {
        let n = d.specifiers.len() as int;
        assert(specifier_binds(e.specifiers[n], imp.var_name, alias_of(imp, prefix)));
    }
}

proof fn lemma_single_import(specs: Seq<SpecifierView>, var: Seq<char>, i: int)
    requires
        0 <= i < specs.len(),
        imports_function(specs[i], var),
        forall|k: int|
            0 <= k < specs.len() && k != i ==> !imports_function(#[trigger] specs[k], var)
                && !(specs[k] is Namespace),
    ensures
        import_as_of(specs, var) == ImportAsView::Destructured(specs[i]->Named_local),
    decreases specs.len(),
{
    let n = specs.len() - 1;
    assert(specs[n] == specs.last());
    if i < n {
        let rest = specs.drop_last();
        assert forall|k: int|
            0 <= k < rest.len() && k != i implies !imports_function(#[trigger] rest[k], var)
                && !(rest[k] is Namespace) by {
            assert(rest[k] == specs[k]);
        }
        assert(rest[i] == specs[i]);
        lemma_single_import(rest, var, i);
        assert(!imports_function(specs[n], var) && !(specs[n] is Namespace));
    }
}

/// A declaration of the package in which exactly one specifier imports the
/// function, and no namespace specifier stands, is parsed as reaching the
/// function under that specifier's local name: specifiers of other exports
/// change nothing.
pub proof fn law_parse_single_import(p: ParserView, d: DeclView, i: int)
    requires
        p.pkg_names.contains(d.src),
        0 <= i < d.specifiers.len(),
        imports_function(d.specifiers[i], p.var_name),
        forall|k: int|
            0 <= k < d.specifiers.len() && k != i ==> !imports_function(
                #[trigger] d.specifiers[k],
                p.var_name,
            ) && !(d.specifiers[k] is Namespace),
    ensures
        parse_decl(p, d).parsed == Some(
            ParseResultView {
                pkg_name: d.src,
                import_as: ImportAsView::Destructured(d.specifiers[i]->Named_local),
                var_name: p.var_name,
            },
        ),
{
    lemma_single_import(d.specifiers, p.var_name, i);
}

/// A declaration of the package with no specifier that imports the function
/// and no namespace specifier is parsed as not reaching it.
pub proof fn law_parse_without_function(p: ParserView, d: DeclView)
    requires
        p.pkg_names.contains(d.src),
        forall|k: int|
            0 <= k < d.specifiers.len() ==> !imports_function(#[trigger] d.specifiers[k], p.var_name)
                && !(d.specifiers[k] is Namespace),
    ensures
        parse_decl(p, d).parsed == Some(
            ParseResultView {
                pkg_name: d.src,
                import_as: ImportAsView::DestructuredNone,
                var_name: p.var_name,
            },
        ),
{
    lemma_no_import(d.specifiers, p.var_name);
}

proof fn lemma_no_import(specs: Seq<SpecifierView>, var: Seq<char>)
    requires
        forall|k: int|
            0 <= k < specs.len() ==> !imports_function(#[trigger] specs[k], var) && !(
            specs[k] is Namespace),
    ensures
        import_as_of(specs, var) == ImportAsView::DestructuredNone,
    decreases specs.len(),
{
    if specs.len() > 0 {
        let rest = specs.drop_last();
        assert forall|k: int| 0 <= k < rest.len() implies !imports_function(#[trigger] rest[k], var)
            && !(rest[k] is Namespace) by {
            assert(rest[k] == specs[k]);
        }
        lemma_no_import(rest, var);
        assert(specs[specs.len() - 1] == specs.last());
    }
}

proof fn lemma_unsupported_reports(specs: Seq<SpecifierView>, d: DeclView)
    ensures
        forall|k: int|
            0 <= k < unsupported_diagnostics(specs, d).len() ==> #[trigger] unsupported_diagnostics(
                specs,
                d,
            )[k] == (DiagnosticView {
                kind: DiagnosticKind::UnsupportedSpecifier,
                pkg: d.src,
                span_lo: d.span_lo,
                span_hi: d.span_hi,
            }),
        unsupported_diagnostics(specs, d).len() > 0 <==> exists|k: int|
            0 <= k < specs.len() && #[trigger] specs[k] is Default,
    decreases specs.len(),
{
    if specs.len() > 0 {
        let rest = specs.drop_last();
        lemma_unsupported_reports(rest, d);
        assert(specs[specs.len() - 1] == specs.last());
        if exists|k: int| 0 <= k < rest.len() && #[trigger] rest[k] is Default {
            let k = choose|k: int| 0 <= k < rest.len() && #[trigger] rest[k] is Default;
            assert(specs[k] == rest[k]);
        }
        if exists|k: int| 0 <= k < specs.len() && #[trigger] specs[k] is Default {
            let k = choose|k: int| 0 <= k < specs.len() && #[trigger] specs[k] is Default;
            if k < rest.len() {
                assert(rest[k] == specs[k]);
            }
        }
    }
}

/// Reading a declaration of the package keeps the reports made so far and
/// adds, for that declaration: a `MultipleImports` report exactly when a
/// result was already held (whatever name of the package either declaration
/// used), put first; and `UnsupportedSpecifier` reports exactly when it has a
/// default specifier. No other report is added.
pub proof fn law_parse_reports(p: ParserView, d: DeclView)
    requires
        p.pkg_names.contains(d.src),
    ensures
        ({
            let q = parse_decl(p, d).diagnostics;
            let n = p.diagnostics.len() as int;
            let here = |kind: DiagnosticKind|
                DiagnosticView { kind, pkg: d.src, span_lo: d.span_lo, span_hi: d.span_hi };
            &&& n <= q.len()
            &&& q.take(n) == p.diagnostics
            &&& forall|k: int|
                n <= k < q.len() ==> #[trigger] q[k] == here(DiagnosticKind::MultipleImports)
                    || q[k] == here(DiagnosticKind::UnsupportedSpecifier)
            &&& p.parsed is Some ==> n < q.len() && q[n] == here(DiagnosticKind::MultipleImports)
            &&& (exists|k: int| n <= k < q.len() && #[trigger] q[k].kind is MultipleImports)
                <==> p.parsed is Some
            &&& (exists|k: int| n <= k < q.len() && #[trigger] q[k].kind is UnsupportedSpecifier)
                <==> exists|k: int| 0 <= k < d.specifiers.len() && #[trigger] d.specifiers[k] is Default
        }),
{
    lemma_unsupported_reports(d.specifiers, d);
    let q = parse_decl(p, d).diagnostics;
    let n = p.diagnostics.len() as int;
    let m: int = if p.parsed is Some { 1 } else { 0 };
    let u = unsupported_diagnostics(d.specifiers, d);
    assert(q.take(n) =~= p.diagnostics);
    assert forall|k: int| n + m <= k < q.len() implies #[trigger] q[k] == u[k - n - m] by {}
    if u.len() > 0 {
        assert(q[n + m].kind is UnsupportedSpecifier);
    }
    if p.parsed is Some {
        assert(q[n].kind is MultipleImports);
    }
}

/// The name a call `name(...)` calls, if the expression is such a call.
pub open spec fn called_name(e: ExprView) -> Option<Seq<char>> {
    match e {
        ExprView::Call(callee, _) => match *callee {
            ExprView::Ident(n) => Some(n),
            _ => None,
        },
        _ => None,
    }
}

/// The argument of a call.
pub open spec fn call_arg(e: ExprView) -> Option<ExprView> {
    match e {
        ExprView::Call(_, arg) => Some(*arg),
        _ => None,
    }
}

/// In the module `r`, the declaration of `__filename` calls a name bound to
/// `fileURLToPath` of `url`, and that of `__dirname` calls a name bound to
/// `dirname` of `path` on a call of such a name.
pub open spec fn declaration_calls_bound(r: Seq<ItemView>, c: ConstDeclView) -> bool {
    &&& c.name == FILENAME_TOKEN@ ==> called_name(c.init) is Some && module_binds(
        r,
        url_names(),
        URL_TO_FILE_PATH_FUNC@,
        called_name(c.init)->0,
    )
    &&& c.name == DIRNAME_TOKEN@ ==> called_name(c.init) is Some && module_binds(
        r,
        path_names(),
        DIRNAME_FUNC@,
        called_name(c.init)->0,
    ) && call_arg(c.init) is Some && called_name(call_arg(c.init)->0) is Some && module_binds(
        r,
        url_names(),
        URL_TO_FILE_PATH_FUNC@,
        called_name(call_arg(c.init)->0)->0,
    )
}

pub open spec fn item_calls_bound(r: Seq<ItemView>, item: ItemView) -> bool {
    match item {
        ItemView::ConstDecl(c) => declaration_calls_bound(r, c),
        _ => true,
    }
}

/// An existing import the injection relies on ends up binding the name it is
/// called by.
proof fn lemma_reused_import_binds(
    items: Seq<ItemView>,
    prefix: Seq<char>,
    names: Seq<Seq<char>>,
    var: Seq<char>,
    j: int,
)
    requires
        no_nested_imports(items),
        distinct_import_sources(items),
        scan_module(items).uses_dirname || scan_module(items).uses_filename,
        0 <= j < existing_imports_for(scan_module(items)).len(),
        exists|i: int|
            0 <= i < items.len() && #[trigger] reads_import(items[i], names)
                && existing_imports_for(scan_module(items))[j] == parse_of(items[i], var),
    ensures
        module_binds(
            injection(scan_module(items), prefix, items),
            names,
            var,
            alias_of(existing_imports_for(scan_module(items))[j], prefix),
        ),
{
    let s = scan_module(items);
    let imps = existing_imports_for(s);
    let pr = imps[j];
    lemma_existing_imports_found(items);
    lemma_all_results_met(items, imps);
    lemma_stop_index_exists(items, imps);
    let at = insert_index(s, items);
    assert(at == modified_prefix_len(items, imps));
    assert(matched_before(items, imps, at, j));
    assert(at <= items.len());
    let k = choose|k: int| 0 <= k < at && #[trigger] item_match(items[k], imps) == Some(j);
    lemma_first_match_bounds(import_src(items[k])->0, imps);
    let i = choose|i: int|
        0 <= i < items.len() && #[trigger] reads_import(items[i], names) && pr == parse_of(items[i], var);
    assert(import_src(items[k]) == Some(pr.pkg_name));
    assert(import_src(items[i]) == Some(pr.pkg_name));
    if i != k {
        assert(import_src(items[i]) != import_src(items[k]));
    }
    let d = items[i]->Import_0;
    law_applied_alias_is_bound(d, pr, prefix);
    let updated = modified_items(items, imps, prefix);
    let r = injection(s, prefix, items);
    let ins = injected_items(s, prefix, items);
    assert(r == updated.take(at) + ins + updated.skip(at));
    assert(r[i] == updated[i]);
    assert(updated[i] == ItemView::Import(applied_decl(d, pr, prefix)));
    assert(binds_at(r[i], names, var, alias_of(pr, prefix)));
}

/// The items the injection adds, in their parts.
spec fn new_path_import(s: ScanState, prefix: Seq<char>) -> Seq<ItemView> {
    opt_item(
        s.uses_dirname && s.path.parsed is None,
        ItemView::Import(new_import_view(prefix, PATH_PKG@, DIRNAME_FUNC@)),
    )
}

spec fn new_url_import(s: ScanState, prefix: Seq<char>) -> Seq<ItemView> {
    opt_item(
        s.url.parsed is None,
        ItemView::Import(new_import_view(prefix, URL_PKG@, URL_TO_FILE_PATH_FUNC@)),
    )
}

proof fn lemma_injection_parts(items: Seq<ItemView>, prefix: Seq<char>)
    requires
        no_nested_imports(items),
        scan_module(items).uses_dirname || scan_module(items).uses_filename,
    ensures
        ({
            let s = scan_module(items);
            let imps = existing_imports_for(s);
            let at = insert_index(s, items);
            let ins = injected_items(s, prefix, items);
            let url_name = url_function_name(s, prefix, items);
            let dn = dirname_function_name(s, prefix, items);
            let r = injection(s, prefix, items);
            &&& 0 <= at <= items.len()
            &&& r.len() == items.len() + ins.len()
            &&& forall|k: int| 0 <= k < at ==> #[trigger] r[k] == updated_item(items[k], imps, prefix)
            &&& forall|k: int| at <= k < at + ins.len() ==> #[trigger] r[k] == ins[k - at]
            &&& forall|k: int| at + ins.len() <= k < r.len() ==> #[trigger] r[k] == items[k - ins.len()]
            &&& ins == new_path_import(s, prefix) + new_url_import(s, prefix) + opt_item(
                s.uses_filename,
                ItemView::ConstDecl(filename_decl_view(url_name)),
            ) + opt_item(s.uses_dirname, ItemView::ConstDecl(dirname_decl_view(url_name, dn)))
        }),
{
    let s = scan_module(items);
    let imps = existing_imports_for(s);
    lemma_existing_imports_found(items);
    law_injection_keeps_items(s, prefix, items);
    if imps.len() > 0 {
        lemma_stop_index_exists(items, imps);
    }
    let at = insert_index(s, items);
    let ins = injected_items(s, prefix, items);
    let updated = modified_items(items, imps, prefix);
    let r = injection(s, prefix, items);
    assert(r == updated.take(at) + ins + updated.skip(at));
    assert forall|k: int| 0 <= k < at implies #[trigger] r[k] == updated_item(items[k], imps, prefix) by {
        assert(r[k] == updated[k]);
    }
    assert forall|k: int| at <= k < at + ins.len() implies #[trigger] r[k] == ins[k - at] by {}
}

/// The name `fileURLToPath` is called by is bound in the resulting module.
proof fn lemma_url_name_bound(items: Seq<ItemView>, prefix: Seq<char>)
    requires
        no_nested_imports(items),
        distinct_import_sources(items),
        scan_module(items).uses_dirname || scan_module(items).uses_filename,
    ensures
        module_binds(
            injection(scan_module(items), prefix, items),
            url_names(),
            URL_TO_FILE_PATH_FUNC@,
            url_function_name(scan_module(items), prefix, items),
        ),
{
    let s = scan_module(items);
    let imps = existing_imports_for(s);
    law_scan_results_come_from_imports(items);
    law_call_names(items, prefix);
    lemma_injection_parts(items, prefix);
    let r = injection(s, prefix, items);
    let url_name = url_function_name(s, prefix, items);
    if let Some(up) = s.url.parsed {
        assert(imps[0] == up);
        lemma_reused_import_binds(items, prefix, url_names(), URL_TO_FILE_PATH_FUNC@, 0);
    } else {
        let at = insert_index(s, items);
        let pn = new_path_import(s, prefix);
        let un = new_url_import(s, prefix);
        let pos = at + pn.len();
        let ins = injected_items(s, prefix, items);
        assert(ins[pn.len() as int] == un[0]);
        assert(r[pos] == un[0]);
        let e = new_import_view(prefix, URL_PKG@, URL_TO_FILE_PATH_FUNC@);
        assert(specifier_binds(e.specifiers[0], URL_TO_FILE_PATH_FUNC@, url_name));
        assert(url_names()[0] == URL_PKG@);
        assert(binds_at(r[pos], url_names(), URL_TO_FILE_PATH_FUNC@, url_name));
    }
}

/// The name `dirname` is called by is bound in the resulting module.
proof fn lemma_dirname_name_bound(items: Seq<ItemView>, prefix: Seq<char>)
    requires
        no_nested_imports(items),
        distinct_import_sources(items),
        scan_module(items).uses_dirname,
    ensures
        module_binds(
            injection(scan_module(items), prefix, items),
            path_names(),
            DIRNAME_FUNC@,
            dirname_function_name(scan_module(items), prefix, items),
        ),
{
    let s = scan_module(items);
    let imps = existing_imports_for(s);
    law_scan_results_come_from_imports(items);
    law_call_names(items, prefix);
    lemma_injection_parts(items, prefix);
    let r = injection(s, prefix, items);
    let dn = dirname_function_name(s, prefix, items);
    if let Some(dp) = s.path.parsed {
        let j: int = if s.url.parsed is Some { 1 } else { 0 };
        assert(imps[j] == dp);
        lemma_reused_import_binds(items, prefix, path_names(), DIRNAME_FUNC@, j);
    } else {
        let at = insert_index(s, items);
        let pn = new_path_import(s, prefix);
        let ins = injected_items(s, prefix, items);
        assert(ins[0] == pn[0]);
        assert(r[at] == pn[0]);
        let e = new_import_view(prefix, PATH_PKG@, DIRNAME_FUNC@);
        assert(specifier_binds(e.specifiers[0], DIRNAME_FUNC@, dn));
        assert(path_names()[0] == PATH_PKG@);
        assert(binds_at(r[at], path_names(), DIRNAME_FUNC@, dn));
    }
}

/// With every import at the top level, each package imported once and no
/// `const` declaration of the transform already there, every name the
/// injected declarations call is bound in the resulting module to the
/// function it stands for: `fileURLToPath` of `url` and `dirname` of `path`,
/// through an existing import (completed where it lacked the function) or
/// through an import the injection adds with the configured prefix.
#[verifier::spinoff_prover]
pub proof fn law_injected_calls_are_bound(items: Seq<ItemView>, prefix: Seq<char>)
    requires
        no_nested_imports(items),
        distinct_import_sources(items),
        forall|i: int| 0 <= i < items.len() ==> !(#[trigger] items[i] is ConstDecl),
    ensures
        forall|k: int|
            0 <= k < injection(scan_module(items), prefix, items).len() ==> item_calls_bound(
                injection(scan_module(items), prefix, items),
                #[trigger] injection(scan_module(items), prefix, items)[k],
            ),
{
    let s = scan_module(items);
    let r = injection(s, prefix, items);
    if !s.uses_dirname && !s.uses_filename {
        assert forall|k: int| 0 <= k < r.len() implies item_calls_bound(r, #[trigger] r[k]) by {
            assert(r[k] == items[k]);
        }
        return;
    }
    let imps = existing_imports_for(s);
    lemma_injection_parts(items, prefix);
    lemma_url_name_bound(items, prefix);
    if s.uses_dirname {
        lemma_dirname_name_bound(items, prefix);
    }
    lemma_tokens_differ();
    let at = insert_index(s, items);
    let ins = injected_items(s, prefix, items);
    let url_name = url_function_name(s, prefix, items);
    let dn = dirname_function_name(s, prefix, items);
    let pre = new_path_import(s, prefix) + new_url_import(s, prefix);
    let fdecl = opt_item(s.uses_filename, ItemView::ConstDecl(filename_decl_view(url_name)));
    let ddecl = opt_item(s.uses_dirname, ItemView::ConstDecl(dirname_decl_view(url_name, dn)));
    assert(ins == pre + fdecl + ddecl);
    assert forall|k: int| 0 <= k < r.len() implies item_calls_bound(r, #[trigger] r[k]) by {
        if k < at {
            assert(!(items[k] is ConstDecl));
        } else if k >= at + ins.len() {
            assert(!(items[k - ins.len()] is ConstDecl));
        } else {
            let m = k - at;
            if m < pre.len() {
                assert(ins[m] == pre[m]);
            } else if m < pre.len() + fdecl.len() {
                assert(ins[m] == fdecl[m - pre.len()]);
            } else {
                assert(ins[m] == ddecl[m - pre.len() - fdecl.len()]);
            }
        }
    }
}

} // verus!
