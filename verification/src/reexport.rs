//! Re-exports of lib-pack and source libraries: exported symbols that link
//! items already present in the registry.
use vstd::prelude::*;

use crate::symbol::{Symbol, SymbolView};

verus! {

/// Kind of registry item a lib-pack or source-lib re-export links.
#[derive(Clone, Copy, Debug, PartialEq, Eq, Structural)]
pub enum ReexportKind {
    /// Class re-export.
    Class,
    /// Function re-export.
    Function,
    /// Macro re-export.
    Macro,
    /// Shape re-export.
    Shape,
    /// Codec re-export.
    Codec,
    /// Number-domain re-export.
    NumberDomain,
    /// Runtime value re-export.
    Value,
}

/// One re-export entry mapping an exported symbol to a target already
/// present in the registry, tagged by the kind of item it links.
#[derive(Clone, Debug, PartialEq, Eq)]
pub struct ReexportSpec {
    kind: ReexportKind,
    export: Symbol,
    target: Symbol,
}

impl ReexportSpec {
    /// The kind of item linked.
    pub closed spec fn kind_view(&self) -> ReexportKind {
        self.kind
    }

    /// The exported symbol.
    pub closed spec fn export_view(&self) -> SymbolView {
        self.export.view()
    }

    /// The linked registry symbol.
    pub closed spec fn target_view(&self) -> SymbolView {
        self.target.view()
    }

    /// Creates a re-export specification from its kind, exported symbol,
    /// and target symbol.
    pub fn new(kind: ReexportKind, export: Symbol, target: Symbol) -> (r: Self)
        ensures
            r.kind_view() == kind,
            r.export_view() == export.view(),
            r.target_view() == target.view(),
    {
        ReexportSpec { kind, export, target }
    }

    /// Returns the kind of registry item this spec links.
    pub fn kind(&self) -> (r: ReexportKind)
        ensures
            r == self.kind_view(),
    {
        self.kind
    }

    /// Returns the symbol exposed by the loaded lib.
    pub fn export(&self) -> (r: &Symbol)
        ensures
            r.view() == self.export_view(),
    {
        &self.export
    }

    /// Returns the registry symbol linked to the exported symbol.
    pub fn target(&self) -> (r: &Symbol)
        ensures
            r.view() == self.target_view(),
    {
        &self.target
    }
}

/// Whether a source library defines the macro that a re-export names as
/// itself, so the re-export need not be linked.
pub open spec fn defined_here(e: ReexportSpec, macros: Seq<Symbol>) -> bool {
    e.kind_view() == ReexportKind::Macro && e.export_view() == e.target_view() && exists|j: int|
        0 <= j < macros.len() && #[trigger] macros[j].view() == e.export_view()
}

/// The re-exports of a source library to link, in order: every one but a
/// macro that re-exports itself and that the library defines.
pub fn exports_to_link(exports: &Vec<ReexportSpec>, macros: &Vec<Symbol>) -> (r: Vec<usize>)
    ensures
        forall|k: int| 0 <= k < r@.len() ==> #[trigger] r@[k] < exports@.len(),
        forall|k: int, m: int| 0 <= k < m < r@.len() ==> r@[k] < r@[m],
        forall|i: int|
            0 <= i < exports@.len() ==> (r@.contains(i as usize) <==> !defined_here(
                #[trigger] exports@[i],
                macros@,
            )),
{
    let mut r: Vec<usize> = Vec::new();
    let mut i: usize = 0;
    while i < exports.len()
        invariant
            i <= exports@.len(),
            forall|k: int| 0 <= k < r@.len() ==> #[trigger] r@[k] < i,
            forall|k: int, m: int| 0 <= k < m < r@.len() ==> r@[k] < r@[m],
            forall|j: int|
                0 <= j < i ==> (r@.contains(j as usize) <==> !defined_here(
                    #[trigger] exports@[j],
                    macros@,
                )),
        decreases exports@.len() - i,
    {
        let e = &exports[i];
        let mut skip = false;
        if e.kind == ReexportKind::Macro && e.export.same(&e.target) {
            let mut j: usize = 0;
            while j < macros.len()
                invariant
                    j <= macros@.len(),
                    !skip ==> forall|m: int| 0 <= m < j ==> #[trigger] macros@[m].view() != e.export_view(),
                    skip ==> exists|m: int| 0 <= m < macros@.len() && #[trigger] macros@[m].view() == e.export_view(),
                decreases macros@.len() - j,
            {
                if macros[j].same(&e.export) {
                    skip = true;
                }
                j = j + 1;
            }
        }
        proof {
            assert(skip == defined_here(*e, macros@));
        }
        let ghost before = r@;
        if !skip {
            r.push(i);
            proof {
                assert forall|j: int| 0 <= j < i + 1 implies (r@.contains(j as usize) <==> !defined_here(
                    #[trigger] exports@[j],
                    macros@,
                )) by {
                    if j < i {
                        if before.contains(j as usize) {
                            let k = choose|k: int| 0 <= k < before.len() && before[k] == j as usize;
                            assert(r@[k] == j as usize);
                        }
                        if r@.contains(j as usize) {
                            let k = choose|k: int| 0 <= k < r@.len() && r@[k] == j as usize;
                            if k < before.len() {
                                assert(before[k] == j as usize);
                            }
                        }
                    } else {
                        assert(r@[r@.len() - 1] == i);
                    }
                }
            }
        } else {
            proof {
                assert forall|j: int| 0 <= j < i + 1 implies (r@.contains(j as usize) <==> !defined_here(
                    #[trigger] exports@[j],
                    macros@,
                )) by {
                    if j == i {
                        if r@.contains(j as usize) {
                            let k = choose|k: int| 0 <= k < r@.len() && r@[k] == j as usize;
                            assert(r@[k] < i);
                        }
                    }
                }
            }
        }
        i = i + 1;
    }
    r
}

// ---------------------------------------------------------------------------
// Linking a re-export
// ---------------------------------------------------------------------------

/// The symbols the registry holds an item under, by kind of item.
#[derive(Clone, Debug, PartialEq, Eq)]
pub struct RegistrySymbols {
    pub classes: Vec<Symbol>,
    pub functions: Vec<Symbol>,
    pub macros: Vec<Symbol>,
    pub shapes: Vec<Symbol>,
    pub codecs: Vec<Symbol>,
    pub number_domains: Vec<Symbol>,
    pub values: Vec<Symbol>,
}

/// The registry's symbols of one kind.
pub open spec fn symbols_of_kind(reg: RegistrySymbols, kind: ReexportKind) -> Seq<Symbol> {
    match kind {
        ReexportKind::Class => reg.classes@,
        ReexportKind::Function => reg.functions@,
        ReexportKind::Macro => reg.macros@,
        ReexportKind::Shape => reg.shapes@,
        ReexportKind::Codec => reg.codecs@,
        ReexportKind::NumberDomain => reg.number_domains@,
        ReexportKind::Value => reg.values@,
    }
}

/// Whether the registry holds an item of a kind under a symbol.
pub open spec fn registry_has(reg: RegistrySymbols, kind: ReexportKind, s: SymbolView) -> bool {
    exists|j: int| 0 <= j < symbols_of_kind(reg, kind).len() && (#[trigger] symbols_of_kind(reg, kind)[j]).view() == s
}

/// Why a re-export cannot be linked: its target is not in the registry, as
/// an unknown class, an unknown function, or (for the other kinds) an
/// unknown symbol.
#[derive(Clone, Debug, PartialEq, Eq)]
pub enum ReexportLinkError {
    UnknownClass(Symbol),
    UnknownFunction(Symbol),
    UnknownSymbol(Symbol),
}

/// The error for a re-export whose target is missing, by kind.
pub open spec fn missing_target_error(kind: ReexportKind, target: SymbolView, e: ReexportLinkError) -> bool {
    match kind {
        ReexportKind::Class => e matches ReexportLinkError::UnknownClass(s) && s.view() == target,
        ReexportKind::Function => e matches ReexportLinkError::UnknownFunction(s) && s.view() == target,
        _ => e matches ReexportLinkError::UnknownSymbol(s) && s.view() == target,
    }
}

fn contains_symbol(symbols: &Vec<Symbol>, s: &Symbol) -> (r: bool)
    ensures
        r == exists|j: int| 0 <= j < symbols@.len() && (#[trigger] symbols@[j]).view() == s.view(),
{
    let mut i: usize = 0;
    while i < symbols.len()
        invariant
            i <= symbols@.len(),
            forall|j: int| 0 <= j < i ==> (#[trigger] symbols@[j]).view() != s.view(),
        decreases symbols@.len() - i,
    {
        if symbols[i].same(s) {
            return true;
        }
        i = i + 1;
    }
    false
}

/// Links a re-export: it binds its exported symbol to the registry's item
/// of its kind under its target, which must be there. Returns the exported
/// symbol and the target it now stands for.
pub fn link_reexport(reg: &RegistrySymbols, export: &ReexportSpec) -> (r: Result<
    (Symbol, Symbol),
    ReexportLinkError,
>)
    ensures
        registry_has(*reg, export.kind_view(), export.target_view()) ==> (r matches Ok((e, t))
            && e.view() == export.export_view() && t.view() == export.target_view()),
        !registry_has(*reg, export.kind_view(), export.target_view()) ==> (r matches Err(err)
            && missing_target_error(export.kind_view(), export.target_view(), err)),
{
    let symbols = match export.kind() {
        ReexportKind::Class => &reg.classes,
        ReexportKind::Function => &reg.functions,
        ReexportKind::Macro => &reg.macros,
        ReexportKind::Shape => &reg.shapes,
        ReexportKind::Codec => &reg.codecs,
        ReexportKind::NumberDomain => &reg.number_domains,
        ReexportKind::Value => &reg.values,
    };
    let target = export.target();
    if contains_symbol(symbols, target) {
        Ok((export.export().copy(), target.copy()))
    } else {
        match export.kind() {
            ReexportKind::Class => Err(ReexportLinkError::UnknownClass(target.copy())),
            ReexportKind::Function => Err(ReexportLinkError::UnknownFunction(target.copy())),
            _ => Err(ReexportLinkError::UnknownSymbol(target.copy())),
        }
    }
}

} // verus!
