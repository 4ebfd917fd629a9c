//! The second pass: adds the imports and the `const` declarations of
//! `__dirname` and `__filename` that the scan found to be needed.
use crate::constants::{
    DIRNAME_FUNC, DIRNAME_TOKEN, FILENAME_TOKEN, PATH_PKG, URL_PKG, URL_TO_FILE_PATH_FUNC,
};
use crate::import_data_parser::{ParseResult, ParseResultView};
use crate::model::{ConstDeclInfo, ConstDeclView, Expr, ExprView, ItemView, ModuleItemInfo, items_view};
use crate::scan_visitor::{ScanResults, ScanState};
use crate::specifier_factory::{
    SpecifierFactory, count_matching_items, match_count, modified_alias, modified_items, modified_prefix_len,
    new_import_view, parse_results_view, stops_at,
};
use vstd::prelude::*;

verus! {

pub struct PostScanWriteVisitor<'a> {
    pub scan_results: ScanResults<'a>,
    pub specifier_factory: SpecifierFactory,
}

/// `import.meta.url`
pub open spec fn import_meta_url() -> ExprView {
    ExprView::Member(Box::new(ExprView::ImportMeta), seq!['u', 'r', 'l'])
}

/// `url_to_filename(import.meta.url)`
pub open spec fn resolve_url_view(url_to_filename: Seq<char>) -> ExprView {
    ExprView::Call(Box::new(ExprView::Ident(url_to_filename)), Box::new(import_meta_url()))
}

/// `const __filename = url_to_filename(import.meta.url);`
pub open spec fn filename_decl_view(url_to_filename: Seq<char>) -> ConstDeclView {
    ConstDeclView { name: FILENAME_TOKEN@, init: resolve_url_view(url_to_filename) }
}

/// `const __dirname = dirname(url_to_filename(import.meta.url));`
pub open spec fn dirname_decl_view(url_to_filename: Seq<char>, dirname: Seq<char>) -> ConstDeclView {
    ConstDeclView {
        name: DIRNAME_TOKEN@,
        init: ExprView::Call(
            Box::new(ExprView::Ident(dirname)),
            Box::new(resolve_url_view(url_to_filename)),
        ),
    }
}

pub open spec fn opt_item(present: bool, item: ItemView) -> Seq<ItemView> {
    if present {
        seq![item]
    } else {
        Seq::empty()
    }
}

/// The parse results of the existing imports that the module already has and
/// that are needed: `fileURLToPath` first, then `dirname` if `__dirname` is
/// used.
pub open spec fn existing_imports_for(scan: ScanState) -> Seq<ParseResultView> {
    match (scan.path.parsed, scan.url.parsed) {
        (None, None) => Seq::empty(),
        (Some(dp), None) => if scan.uses_dirname {
            seq![dp]
        } else {
            Seq::empty()
        },
        (None, Some(up)) => seq![up],
        (Some(dp), Some(up)) => if scan.uses_dirname {
            seq![up, dp]
        } else {
            seq![up]
        },
    }
}

/// The injection can be done: every existing import it relies on is found
/// among the top-level items.
pub open spec fn injection_resolvable(scan: ScanState, items: Seq<ItemView>) -> bool {
    (scan.uses_dirname || scan.uses_filename) ==> match_count(items, existing_imports_for(scan))
        >= existing_imports_for(scan).len()
}

/// The name under which `fileURLToPath` is called.
pub open spec fn url_function_name(
    scan: ScanState,
    prefix: Seq<char>,
    items: Seq<ItemView>,
) -> Seq<char> {
    if scan.url.parsed is Some {
        modified_alias(items, existing_imports_for(scan), prefix, 0)
    } else {
        prefix + URL_TO_FILE_PATH_FUNC@
    }
}

/// The name under which `dirname` is called.
pub open spec fn dirname_function_name(scan: ScanState, prefix: Seq<char>, items: Seq<ItemView>) -> Seq<
    char,
> {
    if scan.path.parsed is None {
        prefix + DIRNAME_FUNC@
    } else if scan.url.parsed is Some {
        modified_alias(items, existing_imports_for(scan), prefix, 1)
    } else {
        modified_alias(items, existing_imports_for(scan), prefix, 0)
    }
}

/// The items put in: the missing imports (`path` only if `__dirname` is used),
/// then the declaration of `__filename` if it is used, then that of
/// `__dirname` if it is used.
pub open spec fn injected_items(scan: ScanState, prefix: Seq<char>, items: Seq<ItemView>) -> Seq<
    ItemView,
> {
    let url_name = url_function_name(scan, prefix, items);
    opt_item(
        scan.uses_dirname && scan.path.parsed is None,
        ItemView::Import(new_import_view(prefix, PATH_PKG@, DIRNAME_FUNC@)),
    ) + opt_item(
        scan.url.parsed is None,
        ItemView::Import(new_import_view(prefix, URL_PKG@, URL_TO_FILE_PATH_FUNC@)),
    ) + opt_item(scan.uses_filename, ItemView::ConstDecl(filename_decl_view(url_name))) + opt_item(
        scan.uses_dirname,
        ItemView::ConstDecl(dirname_decl_view(url_name, dirname_function_name(scan, prefix, items))),
    )
}

/// Where the new items go: right after the last existing import the
/// injection relies on, or at the top when it relies on none.
pub open spec fn insert_index(scan: ScanState, items: Seq<ItemView>) -> int {
    modified_prefix_len(items, existing_imports_for(scan))
}

/// The module after the injection: nothing changes when neither global is
/// used; otherwise the existing imports relied on are completed and the new
/// items are put in at `insert_index`.
pub open spec fn injection(scan: ScanState, prefix: Seq<char>, items: Seq<ItemView>) -> Seq<
    ItemView,
> {
    if !scan.uses_dirname && !scan.uses_filename {
        items
    } else {
        let updated = modified_items(items, existing_imports_for(scan), prefix);
        let at = insert_index(scan, items);
        updated.take(at) + injected_items(scan, prefix, items) + updated.skip(at)
    }
}

impl<'a> PostScanWriteVisitor<'a> {
    /// `import.meta.url`
    pub fn create_import_meta_expr(&mut self) -> (res: Expr)
        ensures
            res@ == import_meta_url(),
            *final(self) == *old(self),
    {
        let prop = String::from_str("url");
        proof {
            reveal_strlit("url");
        }
        assert(prop@ =~= seq!['u', 'r', 'l']);
        let obj = Expr::ImportMeta;
        assert(obj@ == ExprView::ImportMeta);
        Expr::Member { obj: Box::new(obj), prop }
    }

    /// `url_to_filename_name(import.meta.url)`
    pub fn create_resolve_url_call(&mut self, url_to_filename_name: String) -> (res: Expr)
        ensures
            res@ == resolve_url_view(url_to_filename_name@),
            *final(self) == *old(self),
    {
        let import_meta_expr = self.create_import_meta_expr();
        let callee = Expr::Ident(url_to_filename_name);
        assert(callee@ == ExprView::Ident(url_to_filename_name@));
        Expr::Call { callee: Box::new(callee), arg: Box::new(import_meta_expr) }
    }

    /// `const __filename = url_to_filename_name(import.meta.url);`
    pub fn create_file_name_var_statement(&mut self, url_to_filename_name: String) -> (res:
        ConstDeclInfo)
        ensures
            res@ == filename_decl_view(url_to_filename_name@),
            *final(self) == *old(self),
    {
        let resolve_url_call = self.create_resolve_url_call(url_to_filename_name);
        ConstDeclInfo { name: FILENAME_TOKEN.to_owned(), init: resolve_url_call }
    }

    /// `const __dirname = dirname_name(url_to_filename_name(import.meta.url));`
    pub fn create_dirname_var_statement(
        &mut self,
        url_to_filename_name: String,
        dirname_name: String,
    ) -> (res: ConstDeclInfo)
        ensures
            res@ == dirname_decl_view(url_to_filename_name@, dirname_name@),
            *final(self) == *old(self),
    {
        let resolve_url_call = self.create_resolve_url_call(url_to_filename_name);
        let callee = Expr::Ident(dirname_name);
        assert(callee@ == ExprView::Ident(dirname_name@));
        let dirname_call = Expr::Call { callee: Box::new(callee), arg: Box::new(resolve_url_call) };
        ConstDeclInfo { name: DIRNAME_TOKEN.to_owned(), init: dirname_call }
    }

    /// Adds what the scan found to be needed to the items of the module;
    /// returns where the new items were put and how many there are.
    #[verifier::spinoff_prover]
    #[verifier::rlimit(60)]
    pub fn visit_mut_module_items(&mut self, n: &mut Vec<ModuleItemInfo>) -> (res: (usize, usize))
        requires
            injection_resolvable(old(self).scan_results@, items_view(old(n)@)),
        ensures
            *final(self) == *old(self),
            items_view(final(n)@) == injection(
                old(self).scan_results@,
                old(self).specifier_factory.insert_alias_prefix@,
                items_view(old(n)@),
            ),
            !old(self).scan_results@.uses_dirname && !old(self).scan_results@.uses_filename ==> res
                == (0usize, 0usize),
            old(self).scan_results@.uses_dirname || old(self).scan_results@.uses_filename ==> {
                &&& res.0 == insert_index(old(self).scan_results@, items_view(old(n)@))
                &&& res.1 == injected_items(
                    old(self).scan_results@,
                    old(self).specifier_factory.insert_alias_prefix@,
                    items_view(old(n)@),
                ).len()
            },
    {
        let ghost scan = self.scan_results@;
        let ghost prefix = self.specifier_factory.insert_alias_prefix@;
        let ghost items = items_view(n@);
        let ghost imps = existing_imports_for(scan);
        let item_count = n.len();
        assert(items.len() == item_count);
        let uses_dirname = self.scan_results.uses_dirname;
        let uses_filename = self.scan_results.uses_filename;
        if !uses_dirname && !uses_filename {
            return (0, 0);
        }
        let (path_import, url_import, url_to_filename_name, dirname_name, insert_idx): (
            Option<ModuleItemInfo>,
            Option<ModuleItemInfo>,
            String,
            Option<String>,
            usize,
        ) = match (
            self.scan_results.path_import_dirname.parsed(),
            self.scan_results.url_import_url_to_file_path.parsed(),
        ) {
            (None, None) => {
                // Everything is added at the top of the module
                let mut path_import = None;
                let mut dirname_name = None;
                if uses_dirname {
                    let path_decl = self.specifier_factory.create_new_import(PATH_PKG, DIRNAME_FUNC);
                    path_import = Some(ModuleItemInfo::Import(path_decl.decl));
                    dirname_name = Some(path_decl.alias);
                }
                let url_decl = self.specifier_factory.create_new_import(
                    URL_PKG,
                    URL_TO_FILE_PATH_FUNC,
                );
                assert(items_view(n@) =~= modified_items(items, imps, prefix));
                (
                    path_import,
                    Some(ModuleItemInfo::Import(url_decl.decl)),
                    url_decl.alias,
                    dirname_name,
                    0,
                )
            },
            (Some(dirname_parsed), None) => {
                let url_decl = self.specifier_factory.create_new_import(
                    URL_PKG,
                    URL_TO_FILE_PATH_FUNC,
                );
                let mut dirname_name = None;
                let mut insert_idx: usize = 0;
                if uses_dirname {
                    let existing: Vec<&ParseResult> = vec![dirname_parsed];
                    assert(parse_results_view(existing@) =~= imps);
                    let (last_idx, var_names) = self.specifier_factory.get_modified_aliases(
                        n,
                        &existing,
                    );
                    assert(stops_at(items, imps, last_idx as int));
                    dirname_name = Some(var_names[0].clone());
                    insert_idx = last_idx + 1;
                } else {
                    assert(items_view(n@) =~= modified_items(items, imps, prefix));
                }
                (None, Some(ModuleItemInfo::Import(url_decl.decl)), url_decl.alias, dirname_name, insert_idx)
            },
            (None, Some(url_to_filename_as)) => {
                let mut path_import = None;
                let mut dirname_name = None;
                if uses_dirname {
                    let path_decl = self.specifier_factory.create_new_import(PATH_PKG, DIRNAME_FUNC);
                    path_import = Some(ModuleItemInfo::Import(path_decl.decl));
                    dirname_name = Some(path_decl.alias);
                }
                let existing: Vec<&ParseResult> = vec![url_to_filename_as];
                assert(parse_results_view(existing@) =~= imps);
                let (last_idx, var_names) = self.specifier_factory.get_modified_aliases(
                    n,
                    &existing,
                );
                assert(stops_at(items, imps, last_idx as int));
                (path_import, None, var_names[0].clone(), dirname_name, last_idx + 1)
            },
            (Some(dirname_as), Some(url_to_filename_as)) => {
                let existing: Vec<&ParseResult> = if uses_dirname {
                    vec![url_to_filename_as, dirname_as]
                } else {
                    vec![url_to_filename_as]
                };
                assert(parse_results_view(existing@) =~= imps);
                let (last_idx, var_names) = self.specifier_factory.get_modified_aliases(
                    n,
                    &existing,
                );
                assert(stops_at(items, imps, last_idx as int));
                let dirname_name = if uses_dirname {
                    Some(var_names[1].clone())
                } else {
                    None
                };
                (None, None, var_names[0].clone(), dirname_name, last_idx + 1)
            },
        };
        assert(items_view(n@) == modified_items(items, imps, prefix));
        assert(url_to_filename_name@ == url_function_name(scan, prefix, items));
        assert(uses_dirname ==> (dirname_name matches Some(d) && d@ == dirname_function_name(
            scan,
            prefix,
            items,
        )));
        let mut new_inserts: Vec<ModuleItemInfo> = Vec::new();
        // The path import is only needed for __dirname
        if uses_dirname {
            if let Some(p_import) = path_import {
                new_inserts.push(p_import);
            }
        }
        if let Some(u_import) = url_import {
            new_inserts.push(u_import);
        }
        if uses_filename {
            let filename_decl = self.create_file_name_var_statement(url_to_filename_name.clone());
            new_inserts.push(ModuleItemInfo::ConstDecl(filename_decl));
        }
        if uses_dirname {
            let dirname_decl = self.create_dirname_var_statement(
                url_to_filename_name,
                dirname_name.unwrap(),
            );
            new_inserts.push(ModuleItemInfo::ConstDecl(dirname_decl));
        }
        assert(items_view(new_inserts@) =~= injected_items(scan, prefix, items));
        let count = new_inserts.len();
        let ghost updated = n@;
        let mut tail = n.split_off(insert_idx);
        n.append(&mut new_inserts);
        n.append(&mut tail);
        assert(items_view(n@) =~= items_view(updated).take(insert_idx as int) + injected_items(
            scan,
            prefix,
            items,
        ) + items_view(updated).skip(insert_idx as int));
        (insert_idx, count)
    }

    /// Whether every existing import the injection relies on is found among
    /// the items `n` (when it is not, the injection cannot be done).
    pub fn can_inject(&self, n: &Vec<ModuleItemInfo>) -> (res: bool)
        ensures
            res == injection_resolvable(self.scan_results@, items_view(n@)),
    {
        let uses_dirname = self.scan_results.uses_dirname;
        if !uses_dirname && !self.scan_results.uses_filename {
            return true;
        }
        let existing: Vec<&ParseResult> = match (
            self.scan_results.path_import_dirname.parsed(),
            self.scan_results.url_import_url_to_file_path.parsed(),
        ) {
            (None, None) => Vec::new(),
            (Some(dirname_as), None) => if uses_dirname {
                vec![dirname_as]
            } else {
                Vec::new()
            },
            (None, Some(url_to_filename_as)) => vec![url_to_filename_as],
            (Some(dirname_as), Some(url_to_filename_as)) => if uses_dirname {
                vec![url_to_filename_as, dirname_as]
            } else {
                vec![url_to_filename_as]
            },
        };
        assert(parse_results_view(existing@) =~= existing_imports_for(self.scan_results@));
        count_matching_items(n, &existing) >= existing.len()
    }
}

} // verus!
