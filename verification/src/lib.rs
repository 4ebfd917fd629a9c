//! Injects ES-module definitions of the CommonJS globals `__dirname` and
//! `__filename` into a module, reusing `path`/`url` imports that already exist.
//!
//! The module is handled through a plain model of its top-level items
//! (`model`): the library scans it, decides which imports and declarations are
//! needed, and rewrites the item list. Parsing and printing JavaScript are left
//! to the host compiler.
pub mod config;
pub mod constants;
pub mod import_data_parser;
pub mod laws;
pub mod model;
pub mod post_scan_write_visitor;
pub mod scan_visitor;
pub mod specifier_factory;

use config::Config;
use import_data_parser::{ImportDiagnostic, diagnostics_view};
use model::{ModuleItemInfo, items_view};
use post_scan_write_visitor::{
    PostScanWriteVisitor, injected_items, injection, injection_resolvable, insert_index,
};
use scan_visitor::{ScanResults, ScanVisitor, scan_module};
use specifier_factory::SpecifierFactory;
use vstd::prelude::*;

verus! {

/// The whole transform: a scan of the module followed by the injection.
pub struct NodeGlobalsInjector {
    pub config: Config,
}

/// What `process` did: the new items stand at `inserted_at ..
/// inserted_at + inserted`; `diagnostics` are the problems found in the
/// imports, in the order the scan met them.
#[derive(Debug, Clone, PartialEq, Eq)]
pub struct InjectionOutcome {
    pub inserted_at: usize,
    pub inserted: usize,
    pub diagnostics: Vec<ImportDiagnostic>,
}

impl NodeGlobalsInjector {
    /// Scans the module.
    pub fn scan(items: &Vec<ModuleItemInfo>) -> (res: ScanResults<'static>)
        ensures
            res@ == scan_module(items_view(items@)),
    {
        let mut scan_visitor = ScanVisitor { scan_results: ScanResults::new() };
        scan_visitor.visit_mut_module_items(items);
        scan_visitor.scan_results
    }

    /// Whether the module can be processed: every existing import the
    /// injection relies on must stand among its top-level items.
    pub fn can_process(&self, items: &Vec<ModuleItemInfo>) -> (res: bool)
        ensures
            res == injection_resolvable(scan_module(items_view(items@)), items_view(items@)),
    {
        let writer = PostScanWriteVisitor {
            scan_results: Self::scan(items),
            specifier_factory: SpecifierFactory {
                insert_alias_prefix: self.config.func_alias_prefix.clone(),
            },
        };
        writer.can_inject(items)
    }

    /// Scans the module, then adds the imports and declarations of
    /// `__dirname` and `__filename` that it needs.
    pub fn process(&mut self, items: &mut Vec<ModuleItemInfo>) -> (res: InjectionOutcome)
        requires
            injection_resolvable(scan_module(items_view(old(items)@)), items_view(old(items)@)),
        ensures
            final(self).config.func_alias_prefix == old(self).config.func_alias_prefix,
            items_view(final(items)@) == injection(
                scan_module(items_view(old(items)@)),
                old(self).config.func_alias_prefix@,
                items_view(old(items)@),
            ),
            ({
                let scan = scan_module(items_view(old(items)@));
                &&& !scan.uses_dirname && !scan.uses_filename ==> res.inserted_at == 0
                    && res.inserted == 0
                &&& scan.uses_dirname || scan.uses_filename ==> {
                    &&& res.inserted_at == insert_index(scan, items_view(old(items)@))
                    &&& res.inserted == injected_items(
                        scan,
                        old(self).config.func_alias_prefix@,
                        items_view(old(items)@),
                    ).len()
                }
                &&& diagnostics_view(res.diagnostics@) == scan.diagnostics
            }),
    {
        let scan_results = Self::scan(items);
        let mut writer = PostScanWriteVisitor {
            scan_results,
            specifier_factory: SpecifierFactory {
                insert_alias_prefix: self.config.func_alias_prefix.clone(),
            },
        };
        let (inserted_at, inserted) = writer.visit_mut_module_items(items);
        InjectionOutcome { inserted_at, inserted, diagnostics: writer.scan_results.diagnostics }
    }
}

} // verus!
