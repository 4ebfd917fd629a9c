//! Reads an `import` declaration of one of a set of packages and records how
//! one exported function of that package can be reached through it.
use crate::model::{DeclView, ImportDeclInfo, ImportSpecifierInfo, SpecifierView};
use vstd::prelude::*;

verus! {

/// How the function looked for is reachable through an `import` declaration.
#[derive(Debug, Clone, PartialEq, Eq)]
pub enum ImportAs {
    /// The whole package is imported as `* as name`.
    Named(String),
    /// The package is imported in parts (`{ ... }`) and the function is among
    /// them, under the given local name.
    Destructured(String),
    /// The package is imported in parts, but the function is not among them.
    DestructuredNone(),
}

pub enum ImportAsView {
    Named(Seq<char>),
    Destructured(Seq<char>),
    DestructuredNone,
}

impl View for ImportAs {
    type V = ImportAsView;

    open spec fn view(&self) -> ImportAsView {
        match self {
            ImportAs::Named(name) => ImportAsView::Named(name@),
            ImportAs::Destructured(name) => ImportAsView::Destructured(name@),
            ImportAs::DestructuredNone() => ImportAsView::DestructuredNone,
        }
    }
}

/// What a parser found in an `import` declaration.
#[derive(Debug, Clone, PartialEq, Eq)]
pub struct ParseResult {
    /// The package name as the declaration writes it.
    pub pkg_name: String,
    pub import_as: ImportAs,
    /// The exported function that was looked for.
    pub var_name: String,
}

pub struct ParseResultView {
    pub pkg_name: Seq<char>,
    pub import_as: ImportAsView,
    pub var_name: Seq<char>,
}

impl View for ParseResult {
    type V = ParseResultView;

    open spec fn view(&self) -> ParseResultView {
        ParseResultView {
            pkg_name: self.pkg_name@,
            import_as: self.import_as@,
            var_name: self.var_name@,
        }
    }
}

/// The problems a parser reports about the declarations it reads.
#[derive(Debug, Clone, PartialEq, Eq)]
pub enum DiagnosticKind {
    /// A second declaration imports the same package.
    MultipleImports,
    /// A declaration of the package has a default specifier, which the
    /// transform cannot use.
    UnsupportedSpecifier,
}

/// A problem found in the declaration at the given place, importing `pkg`.
#[derive(Debug, Clone, PartialEq, Eq)]
pub struct ImportDiagnostic {
    pub kind: DiagnosticKind,
    pub pkg: String,
    pub span_lo: u32,
    pub span_hi: u32,
}

pub struct DiagnosticView {
    pub kind: DiagnosticKind,
    pub pkg: Seq<char>,
    pub span_lo: u32,
    pub span_hi: u32,
}

impl View for ImportDiagnostic {
    type V = DiagnosticView;

    open spec fn view(&self) -> DiagnosticView {
        DiagnosticView {
            kind: self.kind,
            pkg: self.pkg@,
            span_lo: self.span_lo,
            span_hi: self.span_hi,
        }
    }
}

pub open spec fn diagnostics_view(d: Seq<ImportDiagnostic>) -> Seq<DiagnosticView> {
    d.map_values(|x: ImportDiagnostic| x@)
}

/// Looks, in `import` declarations, for one exported function (`var_name`) of
/// a package that may be written under several names (`pkg_names`).
pub struct ImportDataParser<'a> {
    /// The function looked for.
    var_name: &'a str,
    /// The names under which the package may be imported.
    pkg_names: Vec<&'a str>,
    /// The result of the last declaration of the package that was read.
    parsed: Option<ParseResult>,
    /// The problems found so far, in the order they were found.
    diagnostics: Vec<ImportDiagnostic>,
}

pub struct ParserView {
    pub var_name: Seq<char>,
    pub pkg_names: Seq<Seq<char>>,
    pub parsed: Option<ParseResultView>,
    pub diagnostics: Seq<DiagnosticView>,
}

pub open spec fn option_parse_view(p: Option<ParseResult>) -> Option<ParseResultView> {
    match p {
        Some(r) => Some(r@),
        None => None,
    }
}

impl<'a> View for ImportDataParser<'a> {
    type V = ParserView;

    closed spec fn view(&self) -> ParserView {
        ParserView {
            var_name: self.var_name@,
            pkg_names: self.pkg_names@.map_values(|s: &'a str| s@),
            parsed: option_parse_view(self.parsed),
            diagnostics: diagnostics_view(self.diagnostics@),
        }
    }
}

/// The effect of one specifier on what is known about the function `var_name`:
/// a specifier that names it, under its own name or with `as`, gives its local
/// name; a namespace specifier gives the namespace; others change nothing.
pub open spec fn specifier_step(
    acc: ImportAsView,
    s: SpecifierView,
    var_name: Seq<char>,
) -> ImportAsView {
    match s {
        SpecifierView::Named { local, imported } => match imported {
            Some(name) => if name == var_name {
                ImportAsView::Destructured(local)
            } else {
                acc
            },
            None => if local == var_name {
                ImportAsView::Destructured(local)
            } else {
                acc
            },
        },
        SpecifierView::Namespace { local } => ImportAsView::Named(local),
        SpecifierView::Default { .. } => acc,
    }
}

/// How `var_name` is reachable through a declaration with these specifiers:
/// the last specifier that decides it wins.
pub open spec fn import_as_of(specs: Seq<SpecifierView>, var_name: Seq<char>) -> ImportAsView
    decreases specs.len(),
{
    if specs.len() == 0 {
        ImportAsView::DestructuredNone
    } else {
        specifier_step(import_as_of(specs.drop_last(), var_name), specs.last(), var_name)
    }
}

pub open spec fn unsupported_diagnostic(decl: DeclView) -> DiagnosticView {
    DiagnosticView {
        kind: DiagnosticKind::UnsupportedSpecifier,
        pkg: decl.src,
        span_lo: decl.span_lo,
        span_hi: decl.span_hi,
    }
}

pub open spec fn multiple_diagnostic(decl: DeclView) -> DiagnosticView {
    DiagnosticView {
        kind: DiagnosticKind::MultipleImports,
        pkg: decl.src,
        span_lo: decl.span_lo,
        span_hi: decl.span_hi,
    }
}

/// One `UnsupportedSpecifier` report for each default specifier, in order.
pub open spec fn unsupported_diagnostics(specs: Seq<SpecifierView>, decl: DeclView) -> Seq<
    DiagnosticView,
>
    decreases specs.len(),
{
    if specs.len() == 0 {
        Seq::empty()
    } else {
        let rest = unsupported_diagnostics(specs.drop_last(), decl);
        if specs.last() is Default {
            rest.push(unsupported_diagnostic(decl))
        } else {
            rest
        }
    }
}

/// The parser after it has read `decl`: a declaration of another package
/// changes nothing; one of the package replaces the result, and is reported if
/// a result was already there.
pub open spec fn parse_decl(p: ParserView, decl: DeclView) -> ParserView {
    if p.pkg_names.contains(decl.src) {
        ParserView {
            var_name: p.var_name,
            pkg_names: p.pkg_names,
            parsed: Some(
                ParseResultView {
                    pkg_name: decl.src,
                    import_as: import_as_of(decl.specifiers, p.var_name),
                    var_name: p.var_name,
                },
            ),
            diagnostics: p.diagnostics + (if p.parsed is Some {
                seq![multiple_diagnostic(decl)]
            } else {
                Seq::empty()
            }) + unsupported_diagnostics(decl.specifiers, decl),
        }
    } else {
        p
    }
}

impl<'a> ImportDataParser<'a> {
    /// The result of the last declaration of the package that was read.
    pub fn parsed(&self) -> (res: &Option<ParseResult>)
        ensures
            option_parse_view(*res) == self@.parsed,
    {
        &self.parsed
    }

    /// The problems found so far and not yet handed out.
    pub fn diagnostics(&self) -> (res: &Vec<ImportDiagnostic>)
        ensures
            diagnostics_view(res@) == self@.diagnostics,
    {
        &self.diagnostics
    }

    pub fn new(pkg_names: Vec<&'a str>, var_name: &'a str) -> (res: Self)
        ensures
            res@ == (ParserView {
                var_name: var_name@,
                pkg_names: pkg_names@.map_values(|s: &'a str| s@),
                parsed: None,
                diagnostics: Seq::empty(),
            }),
    {
        let res = Self { pkg_names, var_name, parsed: None, diagnostics: Vec::new() };
        assert(diagnostics_view(res.diagnostics@) =~= Seq::empty());
        res
    }

    /// Hands out the problems found so far, leaving none.
    pub fn take_diagnostics(&mut self) -> (res: Vec<ImportDiagnostic>)
        ensures
            diagnostics_view(res@) == old(self)@.diagnostics,
            final(self)@ == (ParserView { diagnostics: Seq::empty(), ..old(self)@ }),
    {
        let mut res: Vec<ImportDiagnostic> = Vec::new();
        std::mem::swap(&mut res, &mut self.diagnostics);
        assert(diagnostics_view(self.diagnostics@) =~= Seq::empty());
        res
    }

    /// Reads `decl`; returns whether it imports the package.
    pub fn parse_import_decl(&mut self, decl: &ImportDeclInfo) -> (matched: bool)
        ensures
            matched == old(self)@.pkg_names.contains(decl@.src),
            final(self)@ == parse_decl(old(self)@, decl@),
    {
        let import_pkg: &String = &decl.src;
        let ghost names = self@.pkg_names;
        let mut matched = false;
        let mut i: usize = 0;
        while i < self.pkg_names.len() && !matched
            invariant
                i <= self.pkg_names.len(),
                names == self@.pkg_names,
                names.len() == self.pkg_names.len(),
                matched ==> names.contains(import_pkg@),
                !matched ==> forall|k: int| 0 <= k < i ==> names[k] != import_pkg@,
            decreases self.pkg_names.len() - i,
        {
            let candidate: String = self.pkg_names[i].to_owned();
            if candidate == *import_pkg {
                assert(names[i as int] == import_pkg@);
                matched = true;
            }
            i = i + 1;
        }
        if !matched {
            return false;
        }
        let ghost old_view = self@;
        if self.parsed.is_some() {
            self.diagnostics.push(
                ImportDiagnostic {
                    kind: DiagnosticKind::MultipleImports,
                    pkg: import_pkg.clone(),
                    span_lo: decl.span_lo,
                    span_hi: decl.span_hi,
                },
            );
        }
        let ghost base = diagnostics_view(self.diagnostics@);
        assert(base =~= old_view.diagnostics + (if old_view.parsed is Some {
            seq![multiple_diagnostic(decl@)]
        } else {
            Seq::empty()
        }));
        let var: String = self.var_name.to_owned();
        let mut import_as = ImportAs::DestructuredNone();
        let ghost specs = decl@.specifiers;
        let mut j: usize = 0;
        while j < decl.specifiers.len()
            invariant
                j <= decl.specifiers.len(),
                specs == decl@.specifiers,
                specs.len() == decl.specifiers.len(),
                var@ == old_view.var_name,
                self@.var_name == old_view.var_name,
                self@.pkg_names == old_view.pkg_names,
                import_pkg@ == decl@.src,
                import_as@ == import_as_of(specs.take(j as int), var@),
                diagnostics_view(self.diagnostics@) == base + unsupported_diagnostics(
                    specs.take(j as int),
                    decl@,
                ),
            decreases decl.specifiers.len() - j,
        {
            assert(specs.take(j + 1).drop_last() =~= specs.take(j as int));
            assert(specs[j as int] == decl.specifiers[j as int]@);
            assert(specs.take(j + 1).last() == specs[j as int]);
            let ghost prev = diagnostics_view(self.diagnostics@);
            match &decl.specifiers[j] {
                ImportSpecifierInfo::Named { local, imported } => {
                    match imported {
                        Some(alias_for) => {
                            if *alias_for == var {
                                import_as = ImportAs::Destructured(local.clone());
                            }
                        },
                        None => {
                            if *local == var {
                                import_as = ImportAs::Destructured(local.clone());
                            }
                        },
                    }
                },
                ImportSpecifierInfo::Namespace { local } => {
                    import_as = ImportAs::Named(local.clone());
                },
                ImportSpecifierInfo::Default { .. } => {
                    let report = ImportDiagnostic {
                        kind: DiagnosticKind::UnsupportedSpecifier,
                        pkg: import_pkg.clone(),
                        span_lo: decl.span_lo,
                        span_hi: decl.span_hi,
                    };
                    assert(report@ == unsupported_diagnostic(decl@));
                    self.diagnostics.push(report);
                    assert(diagnostics_view(self.diagnostics@) =~= prev.push(
                        unsupported_diagnostic(decl@),
                    ));
                },
            }
            assert(diagnostics_view(self.diagnostics@) =~= base + unsupported_diagnostics(
                specs.take(j + 1),
                decl@,
            ));
            j = j + 1;
        }
        assert(specs.take(j as int) =~= specs);
        self.parsed = Some(ParseResult { pkg_name: import_pkg.clone(), import_as, var_name: var });
        assert(self@.diagnostics =~= parse_decl(old_view, decl@).diagnostics);
        assert(self@.pkg_names == old_view.pkg_names);
        assert(self@.var_name == old_view.var_name);
        assert(self@.parsed == parse_decl(old_view, decl@).parsed);
        true
    }
}

} // verus!
