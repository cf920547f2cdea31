//! Where runtime configuration is read from.
use vstd::prelude::*;

use crate::symbol::{Symbol, SymbolView};

verus! {

/// Central and working configuration roots.
#[derive(Clone, Debug, PartialEq, Eq)]
pub struct ConfigRoots {
    /// Explicit central user config root, when supplied by the host.
    pub home: Option<String>,
    /// Working config root.
    pub work: String,
}

/// Source-selection options for runtime configuration discovery.
#[derive(Clone, Debug, PartialEq, Eq)]
pub struct ConfigLoadOptions {
    /// Home and working config roots.
    pub roots: ConfigRoots,
    /// Whether filesystem config roots should be read.
    pub read_files: bool,
    /// Explicit shared config file to read after root files.
    pub single_file: Option<String>,
    /// Site exports that produce config Dir expressions.
    pub site_sources: Vec<Symbol>,
}

/// Mathematical form of configuration options.
pub struct ConfigView {
    pub home: Option<Seq<char>>,
    pub work: Seq<char>,
    pub read_files: bool,
    pub single_file: Option<Seq<char>>,
    pub site_sources: Seq<SymbolView>,
}

/// View of an optional string.
pub open spec fn opt_view(o: Option<String>) -> Option<Seq<char>> {
    match o {
        Some(s) => Some(s@),
        None => None,
    }
}

/// Views of symbols.
pub open spec fn symbol_views(v: Seq<Symbol>) -> Seq<SymbolView> {
    v.map_values(|s: Symbol| s.view())
}

impl ConfigRoots {
    /// Creates roots from explicit values.
    pub fn new(home: Option<String>, work: String) -> (r: Self)
        ensures
            r.home == home,
            r.work == work,
    {
        ConfigRoots { home, work }
    }
}

impl ConfigLoadOptions {
    pub open spec fn view(&self) -> ConfigView {
        ConfigView {
            home: opt_view(self.roots.home),
            work: self.roots.work@,
            read_files: self.read_files,
            single_file: opt_view(self.single_file),
            site_sources: symbol_views(self.site_sources@),
        }
    }

    /// Options that read both roots and nothing else.
    pub fn with_roots(roots: ConfigRoots) -> (r: Self)
        ensures
            r.view() == (ConfigView {
                home: opt_view(roots.home),
                work: roots.work@,
                read_files: true,
                single_file: None,
                site_sources: Seq::empty(),
            }),
    {
        let r = ConfigLoadOptions { roots, read_files: true, single_file: None, site_sources: Vec::new() };
        assert(symbol_views(r.site_sources@) =~= Seq::<SymbolView>::empty());
        r
    }
}

} // verus!
