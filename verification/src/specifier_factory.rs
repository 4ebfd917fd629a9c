//! Builds the import specifiers and declarations that the transform adds, and
//! finds the names under which already imported functions can be called.
use crate::import_data_parser::{ImportAs, ImportAsView, ParseResult, ParseResultView};
use crate::model::{
    DeclView, ImportDeclInfo, ImportSpecifierInfo, ItemView, ModuleItemInfo, SpecifierView,
    items_view,
};
use vstd::prelude::*;

verus! {

/// A specifier `{ var_name as alias }` and its alias.
#[derive(Debug, Clone, PartialEq, Eq)]
pub struct NewSpecifierInfo {
    pub alias: String,
    pub specifier: ImportSpecifierInfo,
}

/// A new declaration `import { var_name as alias } from "pkg"` and its alias.
#[derive(Debug, Clone, PartialEq, Eq)]
pub struct NewDeclInfo {
    pub alias: String,
    pub decl: ImportDeclInfo,
}

pub struct SpecifierFactory {
    /// The prefix given to the name of every function imported by the
    /// transform (used to avoid name clashes).
    pub insert_alias_prefix: String,
}

/// `{ var_name as alias }`
pub open spec fn new_specifier_view(alias: Seq<char>, var_name: Seq<char>) -> SpecifierView {
    SpecifierView::Named { local: alias, imported: Some(var_name) }
}

/// `"s"`, with double quotes.
pub open spec fn quoted(s: Seq<char>) -> Seq<char> {
    seq!['"'] + s + seq!['"']
}

/// `import { var_name as prefix + var_name } from "pkg"`
pub open spec fn new_import_view(prefix: Seq<char>, pkg: Seq<char>, var_name: Seq<char>) -> DeclView {
    DeclView {
        src: pkg,
        src_raw: Some(quoted(pkg)),
        specifiers: seq![new_specifier_view(prefix + var_name, var_name)],
        type_only: false,
        span_lo: 0,
        span_hi: 0,
    }
}

/// The name under which the function of `imp` can be called once the
/// declaration it was parsed from has been completed.
pub open spec fn alias_of(imp: ParseResultView, prefix: Seq<char>) -> Seq<char> {
    match imp.import_as {
        ImportAsView::DestructuredNone => prefix + imp.var_name,
        ImportAsView::Named(n) => n + seq!['.'] + imp.var_name,
        ImportAsView::Destructured(n) => n,
    }
}

/// A declaration of the package of `imp` completed so that it imports the
/// function: a specifier is added where the function was not among them.
pub open spec fn applied_decl(d: DeclView, imp: ParseResultView, prefix: Seq<char>) -> DeclView {
    if imp.import_as is DestructuredNone {
        DeclView {
            src: d.src,
            src_raw: d.src_raw,
            specifiers: d.specifiers.push(new_specifier_view(prefix + imp.var_name, imp.var_name)),
            type_only: d.type_only,
            span_lo: d.span_lo,
            span_hi: d.span_hi,
        }
    } else {
        d
    }
}

/// The index of the first parse result whose package is `src`.
pub open spec fn first_match(src: Seq<char>, imps: Seq<ParseResultView>) -> Option<int>
    decreases imps.len(),
{
    if imps.len() == 0 {
        None
    } else if imps[0].pkg_name == src {
        Some(0)
    } else {
        match first_match(src, imps.drop_first()) {
            Some(j) => Some(j + 1),
            None => None,
        }
    }
}

/// The parse result that an item answers to: an import declaration answers
/// to the first result of its package.
pub open spec fn item_match(item: ItemView, imps: Seq<ParseResultView>) -> Option<int> {
    match item {
        ItemView::Import(d) => first_match(d.src, imps),
        _ => None,
    }
}

/// The number of items that answer to some parse result.
pub open spec fn match_count(items: Seq<ItemView>, imps: Seq<ParseResultView>) -> nat
    decreases items.len(),
{
    if items.len() == 0 {
        0
    } else {
        match_count(items.drop_last(), imps) + if item_match(items.last(), imps) is Some {
            1nat
        } else {
            0nat
        }
    }
}

/// An item after it has been completed for the result it answers to.
pub open spec fn updated_item(
    item: ItemView,
    imps: Seq<ParseResultView>,
    prefix: Seq<char>,
) -> ItemView {
    match item {
        ItemView::Import(d) => match first_match(d.src, imps) {
            Some(j) => ItemView::Import(applied_decl(d, imps[j], prefix)),
            None => item,
        },
        _ => item,
    }
}

/// `idx` is the item at which the `imps.len()`-th answering item is met.
pub open spec fn stops_at(items: Seq<ItemView>, imps: Seq<ParseResultView>, idx: int) -> bool {
    &&& 0 <= idx < items.len()
    &&& item_match(items[idx], imps) is Some
    &&& match_count(items.take(idx + 1), imps) == imps.len()
}

/// Some item before `stop` answers to the result `j`.
pub open spec fn matched_before(
    items: Seq<ItemView>,
    imps: Seq<ParseResultView>,
    stop: int,
    j: int,
) -> bool {
    exists|k: int| 0 <= k < stop && #[trigger] item_match(items[k], imps) == Some(j)
}

pub open spec fn parse_results_view(imps: Seq<&ParseResult>) -> Seq<ParseResultView> {
    imps.map_values(|r: &ParseResult| r@)
}

pub proof fn lemma_first_match(src: Seq<char>, imps: Seq<ParseResultView>, j: int)
    requires
        0 <= j <= imps.len(),
        forall|k: int| 0 <= k < j ==> imps[k].pkg_name != src,
    ensures
        j < imps.len() && imps[j].pkg_name == src ==> first_match(src, imps) == Some(j),
        j == imps.len() ==> first_match(src, imps) is None,
    decreases j,
{
    if j > 0 {
        let rest = imps.drop_first();
        lemma_first_match(src, rest, j - 1);
    } else if imps.len() > 0 {
    }
}

pub proof fn lemma_first_match_bounds(src: Seq<char>, imps: Seq<ParseResultView>)
    ensures
        first_match(src, imps) matches Some(j) ==> 0 <= j < imps.len() && imps[j].pkg_name
            == src,
    decreases imps.len(),
{
    if imps.len() > 0 {
        lemma_first_match_bounds(src, imps.drop_first());
    }
}


/// The item at which `get_modified_aliases` stops (when there are results).
pub open spec fn stop_index(items: Seq<ItemView>, imps: Seq<ParseResultView>) -> int {
    choose|idx: int| stops_at(items, imps, idx)
}

/// The number of items `get_modified_aliases` looks at.
pub open spec fn modified_prefix_len(items: Seq<ItemView>, imps: Seq<ParseResultView>) -> int {
    if imps.len() == 0 {
        0
    } else {
        stop_index(items, imps) + 1
    }
}

/// The items after `get_modified_aliases`.
pub open spec fn modified_items(
    items: Seq<ItemView>,
    imps: Seq<ParseResultView>,
    prefix: Seq<char>,
) -> Seq<ItemView> {
    Seq::new(
        items.len(),
        |i: int|
            if i < modified_prefix_len(items, imps) {
                updated_item(items[i], imps, prefix)
            } else {
                items[i]
            },
    )
}

/// The name `get_modified_aliases` gives for the result `j`.
pub open spec fn modified_alias(
    items: Seq<ItemView>,
    imps: Seq<ParseResultView>,
    prefix: Seq<char>,
    j: int,
) -> Seq<char> {
    if matched_before(items, imps, modified_prefix_len(items, imps), j) {
        alias_of(imps[j], prefix)
    } else {
        Seq::empty()
    }
}

pub proof fn lemma_match_count_step(items: Seq<ItemView>, imps: Seq<ParseResultView>, y: int)
    requires
        0 < y <= items.len(),
    ensures
        match_count(items.take(y), imps) == match_count(items.take(y - 1), imps) + if item_match(
            items[y - 1],
            imps,
        ) is Some {
            1nat
        } else {
            0nat
        },
{
    assert(items.take(y).drop_last() =~= items.take(y - 1));
}

pub proof fn lemma_match_count_mono(items: Seq<ItemView>, imps: Seq<ParseResultView>, x: int, y: int)
    requires
        0 <= x <= y <= items.len(),
    ensures
        match_count(items.take(x), imps) <= match_count(items.take(y), imps),
    decreases y - x,
{
    if x < y {
        lemma_match_count_step(items, imps, y);
        lemma_match_count_mono(items, imps, x, y - 1);
    }
}

/// At most one item is where the count of answering items reaches the
/// number of results.
pub proof fn lemma_stops_at_unique(items: Seq<ItemView>, imps: Seq<ParseResultView>, a: int, b: int)
    requires
        stops_at(items, imps, a),
        stops_at(items, imps, b),
    ensures
        a == b,
{
    if a < b {
        lemma_match_count_step(items, imps, b + 1);
        lemma_match_count_mono(items, imps, a + 1, b);
    } else if b < a {
        lemma_match_count_step(items, imps, a + 1);
        lemma_match_count_mono(items, imps, b + 1, a);
    }
}

pub proof fn lemma_stop_index(items: Seq<ItemView>, imps: Seq<ParseResultView>, idx: int)
    requires
        stops_at(items, imps, idx),
    ensures
        stop_index(items, imps) == idx,
{
    lemma_stops_at_unique(items, imps, idx, stop_index(items, imps));
}


/// The index of the first parse result whose package is `src`.
fn find_first_match(src: &String, imps: &Vec<&ParseResult>) -> (res: Option<usize>)
    ensures
        match res {
            Some(j) => first_match(src@, parse_results_view(imps@)) == Some(j as int),
            None => first_match(src@, parse_results_view(imps@)) is None,
        },
{
    let ghost v = parse_results_view(imps@);
    let mut j: usize = 0;
    while j < imps.len()
        invariant
            j <= imps.len(),
            v == parse_results_view(imps@),
            v.len() == imps.len(),
            forall|k: int| 0 <= k < j ==> v[k].pkg_name != src@,
        decreases imps.len() - j,
    {
        assert(v[j as int] == imps@[j as int]@);
        if *src == imps[j].pkg_name {
            proof {
                lemma_first_match(src@, v, j as int);
            }
            return Some(j);
        }
        j = j + 1;
    }
    proof {
        lemma_first_match(src@, v, j as int);
    }
    None
}

/// The number of items of `items` that answer to one of `imps`.
pub fn count_matching_items(items: &Vec<ModuleItemInfo>, imps: &Vec<&ParseResult>) -> (res: usize)
    ensures
        res == match_count(items_view(items@), parse_results_view(imps@)),
{
    let ghost its = items_view(items@);
    let ghost v = parse_results_view(imps@);
    let mut count: usize = 0;
    let mut i: usize = 0;
    while i < items.len()
        invariant
            i <= items.len(),
            its == items_view(items@),
            its.len() == items.len(),
            v == parse_results_view(imps@),
            count == match_count(its.take(i as int), v),
            count <= i,
        decreases items.len() - i,
    {
        proof {
            lemma_match_count_step(its, v, i + 1);
        }
        assert(its.take(i + 1).drop_last() =~= its.take(i as int));
        assert(its[i as int] == items@[i as int]@);
        match &items[i] {
            ModuleItemInfo::Import(decl) => {
                if find_first_match(&decl.src, imps).is_some() {
                    count = count + 1;
                }
            },
            _ => {},
        }
        i = i + 1;
    }
    assert(its.take(i as int) =~= its);
    count
}

impl SpecifierFactory {
    /// `{ var_name as prefix + var_name }`
    pub(crate) fn create_new_specifier(&mut self, var_name: &str) -> (res: NewSpecifierInfo)
        ensures
            *final(self) == *old(self),
            res.alias@ == old(self).insert_alias_prefix@ + var_name@,
            res.specifier@ == new_specifier_view(res.alias@, var_name@),
    {
        let mut alias = self.insert_alias_prefix.clone();
        alias.append(var_name);
        let specifier = ImportSpecifierInfo::Named {
            local: alias.clone(),
            imported: Some(var_name.to_owned()),
        };
        NewSpecifierInfo { alias, specifier }
    }

    /// `import { var_name as prefix + var_name } from "pkg"`
    pub fn create_new_import(&mut self, pkg: &str, var_name: &str) -> (res: NewDeclInfo)
        ensures
            *final(self) == *old(self),
            res.alias@ == old(self).insert_alias_prefix@ + var_name@,
            res.decl@ == new_import_view(old(self).insert_alias_prefix@, pkg@, var_name@),
    {
        let mut raw = String::from_str("\"");
        raw.append(pkg);
        raw.append("\"");
        proof {
            reveal_strlit("\"");
        }
        let spec = self.create_new_specifier(var_name);
        let mut specifiers: Vec<ImportSpecifierInfo> = Vec::new();
        specifiers.push(spec.specifier);
        let decl = ImportDeclInfo {
            src: pkg.to_owned(),
            src_raw: Some(raw),
            specifiers,
            type_only: false,
            span_lo: 0,
            span_hi: 0,
        };
        assert(decl@.specifiers =~= seq![new_specifier_view(spec.alias@, var_name@)]);
        assert(decl@.src_raw == Some(quoted(pkg@)));
        NewDeclInfo { alias: spec.alias, decl }
    }

    /// Completes `decl` for `parse_result` when it imports its package, and
    /// returns the name under which the function can then be called.
    pub fn apply_parse_result(&mut self, decl: &mut ImportDeclInfo, parse_result: &ParseResult) -> (res:
        Option<String>)
        ensures
            *final(self) == *old(self),
            old(decl)@.src != parse_result@.pkg_name ==> res is None && final(decl)@ == old(decl)@,
            old(decl)@.src == parse_result@.pkg_name ==> {
                &&& res matches Some(alias) && alias@ == alias_of(
                    parse_result@,
                    old(self).insert_alias_prefix@,
                )
                &&& final(decl)@ == applied_decl(
                    old(decl)@,
                    parse_result@,
                    old(self).insert_alias_prefix@,
                )
            },
    {
        if decl.src != parse_result.pkg_name {
            return None;
        }
        let var_name = parse_result.var_name.as_str();
        match &parse_result.import_as {
            ImportAs::DestructuredNone() => {
                let ghost before = decl@;
                let spec = self.create_new_specifier(var_name);
                decl.specifiers.push(spec.specifier);
                assert(decl@.specifiers =~= before.specifiers.push(
                    new_specifier_view(spec.alias@, var_name@),
                ));
                Some(spec.alias)
            },
            ImportAs::Named(n) => {
                let mut name = n.clone();
                name.append(".");
                name.append(var_name);
                proof {
                    reveal_strlit(".");
                }
                Some(name)
            },
            ImportAs::Destructured(n) => Some(n.clone()),
        }
    }

    /// Completes the import declarations among `n` for the parse results in
    /// `existing_imports`, in order, until each result has been answered once
    /// (an import declaration answers to the first result of its package).
    /// Returns the index of the last item looked at, and for each result the
    /// name under which its function can be called (empty if no declaration
    /// answered to it).
    pub fn get_modified_aliases(
        &mut self,
        n: &mut Vec<ModuleItemInfo>,
        existing_imports: &Vec<&ParseResult>,
    ) -> (res: (usize, Vec<String>))
        requires
            match_count(items_view(old(n)@), parse_results_view(existing_imports@))
                >= existing_imports@.len(),
        ensures
            *final(self) == *old(self),
            ({
                let imps = parse_results_view(existing_imports@);
                let items = items_view(old(n)@);
                let prefix = old(self).insert_alias_prefix@;
                let stop = if imps.len() == 0 {
                    0
                } else {
                    res.0 + 1
                };
                &&& imps.len() == 0 ==> res.0 == usize::MAX
                &&& imps.len() > 0 ==> stops_at(items, imps, res.0 as int)
                &&& imps.len() > 0 ==> res.0 == stop_index(items, imps)
                &&& items_view(final(n)@) == modified_items(items, imps, prefix)
                &&& forall|j: int|
                    0 <= j < imps.len() ==> #[trigger] res.1@[j]@ == modified_alias(
                        items,
                        imps,
                        prefix,
                        j,
                    )
                &&& final(n)@.len() == old(n)@.len()
                &&& forall|i: int|
                    0 <= i < items.len() ==> #[trigger] items_view(final(n)@)[i] == (if i < stop {
                        updated_item(items[i], imps, prefix)
                    } else {
                        items[i]
                    })
                &&& res.1@.len() == imps.len()
                &&& forall|j: int|
                    0 <= j < imps.len() ==> #[trigger] res.1@[j]@ == (if matched_before(
                        items,
                        imps,
                        stop,
                        j,
                    ) {
                        alias_of(imps[j], prefix)
                    } else {
                        Seq::empty()
                    })
            }),
    {
        let ghost imps = parse_results_view(existing_imports@);
        let ghost items = items_view(n@);
        let ghost prefix = self.insert_alias_prefix@;
        let size = existing_imports.len();
        let mut aliases: Vec<String> = Vec::new();
        let mut j: usize = 0;
        while j < size
            invariant
                j <= size,
                size == imps.len(),
                aliases@.len() == j,
                forall|k: int| 0 <= k < j ==> #[trigger] aliases@[k]@ == Seq::<char>::empty(),
            decreases size - j,
        {
            aliases.push(String::new());
            j = j + 1;
        }
        let mut num_modified: usize = 0;
        let mut i: usize = 0;
        while i < n.len() && num_modified < size
            invariant
                i <= n@.len(),
                n@.len() == items.len(),
                imps == parse_results_view(existing_imports@),
                size == imps.len(),
                items == items_view(old(n)@),
                self.insert_alias_prefix@ == prefix,
                *self == *old(self),
                num_modified == match_count(items.take(i as int), imps),
                num_modified <= size,
                num_modified == size && size > 0 ==> i > 0 && item_match(items[i - 1], imps) is Some,
                forall|k: int|
                    0 <= k < i ==> #[trigger] items_view(n@)[k] == updated_item(items[k], imps, prefix),
                forall|k: int| i <= k < items.len() ==> #[trigger] items_view(n@)[k] == items[k],
                aliases@.len() == size,
                forall|jj: int|
                    0 <= jj < size ==> #[trigger] aliases@[jj]@ == (if matched_before(
                        items,
                        imps,
                        i as int,
                        jj,
                    ) {
                        alias_of(imps[jj], prefix)
                    } else {
                        Seq::empty()
                    }),
            decreases n@.len() - i,
        {
            assert(items.take(i + 1).drop_last() =~= items.take(i as int));
            assert(items.take(i + 1).last() == items[i as int]);
            assert(items_view(n@)[i as int] == items[i as int]);
            let mut found: Option<usize> = None;
            match &n[i] {
                ModuleItemInfo::Import(h) => {
                    let mut jj: usize = 0;
                    while jj < size && found.is_none()
                        invariant
                            jj <= size,
                            size == imps.len(),
                            imps == parse_results_view(existing_imports@),
                            match found {
                                Some(f) => f < size && imps[f as int].pkg_name == h@.src && (forall|
                                    k: int,
                                | 0 <= k < f ==> imps[k].pkg_name != h@.src),
                                None => forall|k: int| 0 <= k < jj ==> imps[k].pkg_name != h@.src,
                            },
                        decreases size - jj,
                    {
                        assert(imps[jj as int] == existing_imports@[jj as int]@);
                        if h.src == existing_imports[jj].pkg_name {
                            found = Some(jj);
                        }
                        jj = jj + 1;
                    }
                    proof {
                        match found {
                            Some(f) => lemma_first_match(h@.src, imps, f as int),
                            None => lemma_first_match(h@.src, imps, imps.len() as int),
                        }
                    }
                },
                _ => {},
            }
            assert(match found {
                Some(f) => item_match(items[i as int], imps) == Some(f as int),
                None => item_match(items[i as int], imps) is None,
            });
            let ghost aliases_before = aliases@;
            let ghost n_before = n@;
            if let Some(f) = found {
                let alias = match &mut n[i] {
                    ModuleItemInfo::Import(h) => self.apply_parse_result(h, existing_imports[f]),
                    _ => None,
                };
                if let Some(alias) = alias {
                    aliases.set(f, alias);
                }
                num_modified = num_modified + 1;
            }
            assert forall|k: int| 0 <= k < i + 1 implies #[trigger] items_view(n@)[k]
                == updated_item(items[k], imps, prefix) by {
                if k < i {
                    assert(items_view(n@)[k] == items_view(n_before)[k]);
                }
            }
            assert forall|k: int| i + 1 <= k < items.len() implies #[trigger] items_view(n@)[k]
                == items[k] by {
                assert(items_view(n@)[k] == items_view(n_before)[k]);
            }
            assert forall|jj: int| 0 <= jj < size implies #[trigger] aliases@[jj]@ == (if matched_before(
                items,
                imps,
                i + 1,
                jj,
            ) {
                alias_of(imps[jj], prefix)
            } else {
                Seq::empty()
            }) by {
                if found == Some(jj as usize) {
                    assert(item_match(items[i as int], imps) == Some(jj));
                } else {
                    assert(aliases@[jj] == aliases_before[jj]);
                    if matched_before(items, imps, i + 1, jj) {
                        let k = choose|k: int|
                            0 <= k < i + 1 && #[trigger] item_match(items[k], imps) == Some(jj);
                        assert(k < i);
                        assert(matched_before(items, imps, i as int, jj));
                    }
                }
            }
            i = i + 1;
        }
        proof {
            if i == n@.len() {
                assert(items.take(i as int) =~= items);
            }
        }
        let last_idx: usize = if size == 0 {
            usize::MAX
        } else {
            i - 1
        };
        proof {
            if size > 0 {
                lemma_stop_index(items, imps, last_idx as int);
            }
            assert(items_view(n@) =~= modified_items(items, imps, prefix));
        }
        (last_idx, aliases)
    }
}

} // verus!
