//! A plain model of the parts of an ECMAScript module that the transform
//! reads or writes, with a mathematical view of each type.
use vstd::prelude::*;

verus! {

/// One specifier of an `import` declaration.
#[derive(Debug, Clone, PartialEq, Eq)]
pub enum ImportSpecifierInfo {
    /// `{ imported as local }`, or `{ local }` when `imported` is `None`.
    Named { local: String, imported: Option<String> },
    /// `* as local`
    Namespace { local: String },
    /// `local`, the default export.
    Default { local: String },
}

pub enum SpecifierView {
    Named { local: Seq<char>, imported: Option<Seq<char>> },
    Namespace { local: Seq<char> },
    Default { local: Seq<char> },
}

impl View for ImportSpecifierInfo {
    type V = SpecifierView;

    open spec fn view(&self) -> SpecifierView {
        match self {
            ImportSpecifierInfo::Named { local, imported } => SpecifierView::Named {
                local: local@,
                imported: imported.deep_view(),
            },
            ImportSpecifierInfo::Namespace { local } => SpecifierView::Namespace { local: local@ },
            ImportSpecifierInfo::Default { local } => SpecifierView::Default { local: local@ },
        }
    }
}

/// An `import` declaration.
#[derive(Debug, Clone, PartialEq, Eq)]
pub struct ImportDeclInfo {
    /// The module the declaration imports from, as a string value.
    pub src: String,
    /// How the source string is written in the code, quotes included.
    pub src_raw: Option<String>,
    pub specifiers: Vec<ImportSpecifierInfo>,
    /// `import type ...`
    pub type_only: bool,
    /// Where the declaration stands in the source file.
    pub span_lo: u32,
    pub span_hi: u32,
}

pub struct DeclView {
    pub src: Seq<char>,
    pub src_raw: Option<Seq<char>>,
    pub specifiers: Seq<SpecifierView>,
    pub type_only: bool,
    pub span_lo: u32,
    pub span_hi: u32,
}

pub open spec fn specifiers_view(specs: Seq<ImportSpecifierInfo>) -> Seq<SpecifierView> {
    specs.map_values(|s: ImportSpecifierInfo| s@)
}

impl View for ImportDeclInfo {
    type V = DeclView;

    open spec fn view(&self) -> DeclView {
        DeclView {
            src: self.src@,
            src_raw: self.src_raw.deep_view(),
            specifiers: specifiers_view(self.specifiers@),
            type_only: self.type_only,
            span_lo: self.span_lo,
            span_hi: self.span_hi,
        }
    }
}

/// The expressions the transform writes.
#[derive(Debug, PartialEq, Eq)]
pub enum Expr {
    /// An identifier (it may be a dotted name such as `url.fileURLToPath`).
    Ident(String),
    /// `import.meta`
    ImportMeta,
    /// `obj.prop`
    Member { obj: Box<Expr>, prop: String },
    /// `callee(arg)`
    Call { callee: Box<Expr>, arg: Box<Expr> },
}

pub enum ExprView {
    Ident(Seq<char>),
    ImportMeta,
    Member(Box<ExprView>, Seq<char>),
    Call(Box<ExprView>, Box<ExprView>),
}

impl View for Expr {
    type V = ExprView;

    open spec fn view(&self) -> ExprView
        decreases self,
    {
        match self {
            Expr::Ident(name) => ExprView::Ident(name@),
            Expr::ImportMeta => ExprView::ImportMeta,
            Expr::Member { obj, prop } => ExprView::Member(Box::new((**obj).view()), prop@),
            Expr::Call { callee, arg } => ExprView::Call(
                Box::new((**callee).view()),
                Box::new((**arg).view()),
            ),
        }
    }
}

/// A declaration `const name = init;`.
#[derive(Debug, PartialEq, Eq)]
pub struct ConstDeclInfo {
    pub name: String,
    pub init: Expr,
}

pub struct ConstDeclView {
    pub name: Seq<char>,
    pub init: ExprView,
}

impl View for ConstDeclInfo {
    type V = ConstDeclView;

    open spec fn view(&self) -> ConstDeclView {
        ConstDeclView { name: self.name@, init: self.init@ }
    }
}

/// What a scan of the module meets: an identifier, or an `import` declaration
/// (whose own identifiers are not visited).
#[derive(Debug, Clone, PartialEq, Eq)]
pub enum ScanEvent {
    Ident(String),
    Import(ImportDeclInfo),
}

pub enum EventView {
    Ident(Seq<char>),
    Import(DeclView),
}

impl View for ScanEvent {
    type V = EventView;

    open spec fn view(&self) -> EventView {
        match self {
            ScanEvent::Ident(sym) => EventView::Ident(sym@),
            ScanEvent::Import(decl) => EventView::Import(decl@),
        }
    }
}

pub open spec fn events_view(events: Seq<ScanEvent>) -> Seq<EventView> {
    events.map_values(|e: ScanEvent| e@)
}

/// A top-level item of a module.
#[derive(Debug, PartialEq, Eq)]
pub enum ModuleItemInfo {
    /// An `import` declaration.
    Import(ImportDeclInfo),
    /// A `const` declaration written by the transform.
    ConstDecl(ConstDeclInfo),
    /// Any other item, given by what a scan meets inside it, in order.
    Other(Vec<ScanEvent>),
}

pub enum ItemView {
    Import(DeclView),
    ConstDecl(ConstDeclView),
    Other(Seq<EventView>),
}

impl View for ModuleItemInfo {
    type V = ItemView;

    open spec fn view(&self) -> ItemView {
        match self {
            ModuleItemInfo::Import(decl) => ItemView::Import(decl@),
            ModuleItemInfo::ConstDecl(decl) => ItemView::ConstDecl(decl@),
            ModuleItemInfo::Other(events) => ItemView::Other(events_view(events@)),
        }
    }
}

pub open spec fn items_view(items: Seq<ModuleItemInfo>) -> Seq<ItemView> {
    items.map_values(|i: ModuleItemInfo| i@)
}

} // verus!
