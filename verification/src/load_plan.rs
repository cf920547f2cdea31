//! What a boot session loads before handing off: the default sources of a
//! verb, and the libraries whose configuration is discovered.
use vstd::prelude::*;
use vstd::string::*;

use crate::boot::{boot_codec_name, codec_lib_symbol, codec_symbol_text, boot_codec_spec, source_views, CliBoot};
use crate::config::{symbol_views, ConfigLoadOptions};
use crate::error::CliError;
use crate::crates_io::{
    fallback_package, fallback_spec_for_symbol, CratesIoSpec, ReqKindSpec, DEFAULT_FALLBACK_REQ,
};
use crate::source::{source_text, LibSourceSpec, SourceView};
use crate::symbol::{qualified_symbol, symbol_from_text, symbol_of_text, Symbol, SymbolView};
use crate::text::{concat2, owned, str_eq};

verus! {

broadcast use vstd::string::group_string_axioms;

/// Libraries whose configuration a verb needs.
#[derive(Clone, Debug, PartialEq, Eq)]
pub struct VerbConfigLibs {
    pub verb: String,
    pub libs: Vec<Symbol>,
}

/// Sources a verb loads when no `--load` is given.
#[derive(Clone, Debug, PartialEq, Eq)]
pub struct VerbSources {
    pub verb: String,
    pub sources: Vec<LibSourceSpec>,
}

/// Which config report a boot renders.
#[derive(Clone, Debug, PartialEq, Eq)]
pub enum ConfigReportKind {
    /// Loaded libraries, sources, probes, and diagnostics.
    Status,
    /// Effective config table for one library.
    Effective { lib: Symbol },
    /// Source provenance and diagnostics only.
    Sources,
}

/// Index of the first entry for a verb.
pub open spec fn verb_index(verbs: Seq<Seq<char>>, verb: Seq<char>, from: int) -> Option<int>
    decreases verbs.len() - from,
{
    if from < 0 || from >= verbs.len() {
        None
    } else if verbs[from] == verb {
        Some(from)
    } else {
        verb_index(verbs, verb, from + 1)
    }
}

/// Verbs of config-lib entries.
pub open spec fn config_verbs(t: Seq<VerbConfigLibs>) -> Seq<Seq<char>> {
    t.map_values(|e: VerbConfigLibs| e.verb@)
}

/// Verbs of source entries.
pub open spec fn source_verbs(t: Seq<VerbSources>) -> Seq<Seq<char>> {
    t.map_values(|e: VerbSources| e.verb@)
}

/// The libraries a verb's table entry lists, if any.
pub open spec fn verb_config_libs(t: Seq<VerbConfigLibs>, verb: Seq<char>) -> Option<Seq<SymbolView>> {
    match verb_index(config_verbs(t), verb, 0) {
        Some(i) => Some(symbol_views(t[i].libs@)),
        None => None,
    }
}

/// The sources a verb's table entry lists, if any.
pub open spec fn verb_sources(t: Seq<VerbSources>, verb: Seq<char>) -> Option<Seq<SourceView>> {
    match verb_index(source_verbs(t), verb, 0) {
        Some(i) => Some(source_views(t[i].sources@)),
        None => None,
    }
}

/// Finds the first entry for a verb.
fn find_verb_config(t: &Vec<VerbConfigLibs>, verb: &str) -> (r: Option<usize>)
    ensures
        r matches Some(i) ==> i < t@.len() && verb_index(config_verbs(t@), verb@, 0) == Some(i as int),
        r is None ==> verb_index(config_verbs(t@), verb@, 0) is None,
{
    let mut i: usize = 0;
    while i < t.len()
        invariant
            i <= t@.len(),
            verb_index(config_verbs(t@), verb@, 0) == verb_index(config_verbs(t@), verb@, i as int),
        decreases t@.len() - i,
    {
        if str_eq(t[i].verb.as_str(), verb) {
            return Some(i);
        }
        i = i + 1;
    }
    None
}

/// Finds the first entry for a verb.
fn find_verb_sources(t: &Vec<VerbSources>, verb: &str) -> (r: Option<usize>)
    ensures
        r matches Some(i) ==> i < t@.len() && verb_index(source_verbs(t@), verb@, 0) == Some(i as int),
        r is None ==> verb_index(source_verbs(t@), verb@, 0) is None,
{
    let mut i: usize = 0;
    while i < t.len()
        invariant
            i <= t@.len(),
            verb_index(source_verbs(t@), verb@, 0) == verb_index(source_verbs(t@), verb@, i as int),
        decreases t@.len() - i,
    {
        if str_eq(t[i].verb.as_str(), verb) {
            return Some(i);
        }
        i = i + 1;
    }
    None
}

/// Sets a verb's config libraries, replacing an earlier entry for it.
pub fn set_verb_config_libs(t: &mut Vec<VerbConfigLibs>, verb: String, libs: Vec<Symbol>)
    ensures
        verb_config_libs(final(t)@, verb@) == Some(symbol_views(libs@)),
        forall|v: Seq<char>| v != verb@ ==> #[trigger] verb_config_libs(final(t)@, v) == verb_config_libs(
            old(t)@,
            v,
        ),
{
    let ghost vb = verb@;
    let ghost lv = symbol_views(libs@);
    match find_verb_config(t, verb.as_str()) {
        Some(i) => {
            let ghost before = t@;
            proof {
                lemma_verb_index_found(config_verbs(before), vb, 0);
            }
            t.set(i, VerbConfigLibs { verb, libs });
            proof {
                assert(config_verbs(t@) =~= config_verbs(before));
                lemma_verb_index_prefix(config_verbs(t@), vb, i as int);
                assert forall|v: Seq<char>| v != vb implies #[trigger] verb_config_libs(t@, v)
                    == verb_config_libs(before, v) by {
                    match verb_index(config_verbs(t@), v, 0) {
                        Some(j) => {
                            lemma_verb_index_found(config_verbs(t@), v, 0);
                            assert(j != i);
                        },
                        None => {},
                    }
                }
            }
        },
        None => {
            let ghost before = t@;
            t.push(VerbConfigLibs { verb, libs });
            proof {
                assert(config_verbs(t@) =~= config_verbs(before).push(vb));
                lemma_verb_index_push(config_verbs(before), vb, vb);
                assert forall|v: Seq<char>| v != vb implies #[trigger] verb_config_libs(t@, v)
                    == verb_config_libs(before, v) by {
                    lemma_verb_index_push(config_verbs(before), vb, v);
                    match verb_index(config_verbs(before), v, 0) {
                        Some(j) => {
                            lemma_verb_index_found(config_verbs(before), v, 0);
                        },
                        None => {},
                    }
                }
            }
        },
    }
}

/// `verb_index` finds an index in range whose verb matches.
proof fn lemma_verb_index_found(verbs: Seq<Seq<char>>, verb: Seq<char>, from: int)
    requires
        0 <= from,
    ensures
        verb_index(verbs, verb, from) matches Some(i) ==> from <= i < verbs.len() && verbs[i] == verb,
    decreases verbs.len() - from,
{
    if from < verbs.len() && verbs[from] != verb {
        lemma_verb_index_found(verbs, verb, from + 1);
    }
}

/// The first match of a verb found at `i` stays found when entry `i` is
/// rewritten with the same verb.
proof fn lemma_verb_index_prefix(verbs: Seq<Seq<char>>, verb: Seq<char>, i: int)
    requires
        verb_index(verbs, verb, 0) == Some(i),
    ensures
        verb_index(verbs, verb, 0) == Some(i),
{
}

/// Pushing a verb keeps earlier matches and makes a new verb findable.
proof fn lemma_verb_index_push(verbs: Seq<Seq<char>>, pushed: Seq<char>, verb: Seq<char>)
    ensures
        verb_index(verbs, verb, 0) is Some ==> verb_index(verbs.push(pushed), verb, 0) == verb_index(
            verbs,
            verb,
            0,
        ),
        verb_index(verbs, verb, 0) is None ==> verb_index(verbs.push(pushed), verb, 0) == (if verb
            == pushed {
            Some(verbs.len() as int)
        } else {
            None::<int>
        }),
{
    lemma_verb_index_push_from(verbs, pushed, verb, 0);
}

proof fn lemma_verb_index_push_from(verbs: Seq<Seq<char>>, pushed: Seq<char>, verb: Seq<char>, from: int)
    requires
        0 <= from <= verbs.len(),
    ensures
        verb_index(verbs, verb, from) is Some ==> verb_index(verbs.push(pushed), verb, from)
            == verb_index(verbs, verb, from),
        verb_index(verbs, verb, from) is None ==> verb_index(verbs.push(pushed), verb, from) == (if verb
            == pushed {
            Some(verbs.len() as int)
        } else {
            None::<int>
        }),
    decreases verbs.len() - from,
{
    if from < verbs.len() {
        assert(verbs.push(pushed)[from] == verbs[from]);
        lemma_verb_index_push_from(verbs, pushed, verb, from + 1);
    } else {
        assert(verbs.push(pushed)[from] == pushed);
        assert(verb_index(verbs.push(pushed), verb, from + 1) is None);
    }
}

/// The boot controls with a verb's default sources when there is no
/// `--load`.
pub open spec fn with_default_sources_loads(b: CliBoot, t: Seq<VerbSources>) -> Seq<SourceView> {
    if b.loads@.len() > 0 || b.payload.args@.len() == 0 {
        source_views(b.loads@)
    } else {
        match verb_sources(t, b.payload.args@[0]@) {
            Some(s) => s,
            None => source_views(b.loads@),
        }
    }
}

/// Copies a list of sources.
fn copy_sources(s: &Vec<LibSourceSpec>) -> (r: Vec<LibSourceSpec>)
    ensures
        source_views(r@) == source_views(s@),
{
    let mut r: Vec<LibSourceSpec> = Vec::new();
    let mut i: usize = 0;
    while i < s.len()
        invariant
            i <= s@.len(),
            r@.len() == i,
            forall|j: int| 0 <= j < i ==> #[trigger] r@[j].view() == s@[j].view(),
        decreases s@.len() - i,
    {
        r.push(s[i].copy());
        i = i + 1;
    }
    assert(source_views(r@) =~= source_views(s@));
    r
}

/// Uses a verb's default sources when the boot names no `--load`; every
/// other control is kept.
pub fn boot_with_default_verb_sources(boot: CliBoot, defaults: &Vec<VerbSources>) -> (r: CliBoot)
    ensures
        source_views(r.loads@) == with_default_sources_loads(boot, defaults@),
        r.codec == boot.codec,
        r.native_audio_provider == boot.native_audio_provider,
        r.config == boot.config,
        r.list == boot.list,
        r.inspect == boot.inspect,
        r.payload == boot.payload,
{
    if boot.loads.len() > 0 || boot.payload.args.len() == 0 {
        return boot;
    }
    match find_verb_sources(defaults, boot.payload.args[0].as_str()) {
        Some(i) => {
            let mut boot = boot;
            boot.loads = copy_sources(&defaults[i].sources);
            boot
        },
        None => boot,
    }
}

/// The library whose configuration a source implies: symbol and host
/// sources name one.
pub open spec fn source_config_lib(s: SourceView) -> Option<SymbolView> {
    match s {
        SourceView::Symbol(t) => Some(symbol_of_text(t)),
        SourceView::Host(t) => Some(symbol_of_text(t)),
        _ => None,
    }
}

/// The library whose configuration a source implies.
pub fn config_lib_for_source(source: &LibSourceSpec) -> (r: Option<Symbol>)
    ensures
        match source_config_lib(source.view()) {
            Some(s) => r matches Some(x) && x.view() == s,
            None => r is None,
        },
{
    match source {
        LibSourceSpec::Symbol(t) => Some(symbol_from_text(t.as_str())),
        LibSourceSpec::Host(t) => Some(symbol_from_text(t.as_str())),
        _ => None,
    }
}

/// Appends a symbol unless it is already listed.
pub open spec fn push_unique(l: Seq<SymbolView>, s: SymbolView) -> Seq<SymbolView> {
    if l.contains(s) {
        l
    } else {
        l.push(s)
    }
}

/// Appends each symbol unless it is already listed.
pub open spec fn push_all_unique(l: Seq<SymbolView>, xs: Seq<SymbolView>) -> Seq<SymbolView>
    decreases xs.len(),
{
    if xs.len() == 0 {
        l
    } else {
        push_unique(push_all_unique(l, xs.drop_last()), xs.last())
    }
}

/// Appends a symbol unless it is already listed.
pub fn push_unique_symbol(symbols: &mut Vec<Symbol>, symbol: Symbol)
    ensures
        symbol_views(final(symbols)@) == push_unique(symbol_views(old(symbols)@), symbol.view()),
{
    let mut i: usize = 0;
    while i < symbols.len()
        invariant
            i <= symbols@.len(),
            forall|j: int| 0 <= j < i ==> #[trigger] symbols@[j].view() != symbol.view(),
        decreases symbols@.len() - i,
    {
        if symbols[i].same(&symbol) {
            proof {
                assert(symbol_views(symbols@)[i as int] == symbol.view());
            }
            return;
        }
        i = i + 1;
    }
    let ghost before = symbols@;
    proof {
        assert(!symbol_views(before).contains(symbol.view())) by {
            if symbol_views(before).contains(symbol.view()) {
                let j = choose|j: int|
                    0 <= j < symbol_views(before).len() && symbol_views(before)[j] == symbol.view();
                assert(before[j].view() == symbol.view());
            }
        }
    }
    symbols.push(symbol);
    assert(symbol_views(symbols@) =~= symbol_views(before).push(symbols@.last().view()));
}

/// Libraries named by a boot's load sources, in order.
pub open spec fn load_config_libs(loads: Seq<SourceView>) -> Seq<SymbolView>
    decreases loads.len(),
{
    if loads.len() == 0 {
        Seq::empty()
    } else {
        load_config_libs(loads.drop_last()) + match source_config_lib(loads.last()) {
            Some(s) => seq![s],
            None => Seq::empty(),
        }
    }
}

/// Libraries a config report needs: the effective report's library, or
/// the representative libraries of the other reports.
pub open spec fn report_config_libs(report: Option<ConfigReportKind>) -> Seq<SymbolView> {
    match report {
        None => Seq::empty(),
        Some(ConfigReportKind::Effective { lib }) => seq![lib.view()],
        Some(_) => seq![
            qualified_symbol("sim"@, "cookbook"@),
            qualified_symbol("stream"@, "host"@),
            qualified_symbol("model"@, "defaults"@),
        ],
    }
}

/// Libraries of a boot's verb in a config-lib table.
pub open spec fn verb_libs_of(boot: CliBoot, t: Seq<VerbConfigLibs>) -> Seq<SymbolView> {
    if boot.payload.args@.len() == 0 {
        Seq::empty()
    } else {
        match verb_config_libs(t, boot.payload.args@[0]@) {
            Some(l) => l,
            None => Seq::empty(),
        }
    }
}

/// The candidate config libraries of a boot, in order: the boot codec,
/// the libraries of symbol and host loads, the native audio provider's,
/// the verb's, and the config report's.
pub open spec fn config_lib_candidates(
    boot: CliBoot,
    t: Seq<VerbConfigLibs>,
    report: Option<ConfigReportKind>,
) -> Seq<SymbolView> {
    seq![symbol_of_text(codec_symbol_text(boot_codec_spec(boot.view())))] + load_config_libs(
        source_views(boot.loads@),
    ) + match boot.native_audio_provider {
        Some(s) => match source_config_lib(s.view()) {
            Some(x) => seq![x],
            None => Seq::empty(),
        },
        None => Seq::empty(),
    } + verb_libs_of(boot, t) + report_config_libs(report)
}

/// Appends symbols unless already listed.
fn push_all(symbols: &mut Vec<Symbol>, xs: &Vec<Symbol>)
    ensures
        symbol_views(final(symbols)@) == push_all_unique(symbol_views(old(symbols)@), symbol_views(xs@)),
{
    let ghost start = symbol_views(symbols@);
    let mut i: usize = 0;
    while i < xs.len()
        invariant
            i <= xs@.len(),
            symbol_views(symbols@) == push_all_unique(start, symbol_views(xs@).take(i as int)),
        decreases xs@.len() - i,
    {
        push_unique_symbol(symbols, xs[i].copy());
        proof {
            let t = symbol_views(xs@).take(i + 1);
            assert(t.drop_last() =~= symbol_views(xs@).take(i as int));
        }
        i = i + 1;
    }
    assert(symbol_views(xs@).take(xs@.len() as int) =~= symbol_views(xs@));
}

/// `push_all_unique` over a concatenation.
proof fn lemma_push_all_concat(l: Seq<SymbolView>, a: Seq<SymbolView>, b: Seq<SymbolView>)
    ensures
        push_all_unique(l, a + b) == push_all_unique(push_all_unique(l, a), b),
    decreases b.len(),
{
    if b.len() == 0 {
        assert(a + b =~= a);
    } else {
        assert((a + b).drop_last() =~= a + b.drop_last());
        lemma_push_all_concat(l, a, b.drop_last());
    }
}

/// Each library once, at its first position.
pub fn unique_libs(libs: &Vec<Symbol>) -> (r: Vec<Symbol>)
    ensures
        symbol_views(r@) == push_all_unique(Seq::empty(), symbol_views(libs@)),
{
    let mut out: Vec<Symbol> = Vec::new();
    assert(symbol_views(out@) =~= Seq::<SymbolView>::empty());
    push_all(&mut out, libs);
    out
}

/// The libraries whose configuration a boot discovers: each candidate once,
/// at its first position.
pub fn config_libs_for_boot(
    boot: &CliBoot,
    default_verb_config_libs: &Vec<VerbConfigLibs>,
    report: Option<&ConfigReportKind>,
) -> (r: Vec<Symbol>)
    ensures
        symbol_views(r@) == push_all_unique(
            Seq::empty(),
            config_lib_candidates(
                *boot,
                default_verb_config_libs@,
                match report {
                    Some(k) => Some(*k),
                    None => None,
                },
            ),
        ),
{
    let ghost rk = match report {
        Some(k) => Some(*k),
        None => None,
    };
    let mut cands: Vec<Symbol> = Vec::new();
    cands.push(symbol_from_text(codec_lib_symbol(boot_codec_name(boot)).as_str()));
    let ghost c0 = symbol_views(cands@);
    assert(c0 =~= seq![symbol_of_text(codec_symbol_text(boot_codec_spec(boot.view())))]);
    let mut i: usize = 0;
    proof {
        assert(source_views(boot.loads@).take(0) =~= Seq::<SourceView>::empty());
        assert(c0 + load_config_libs(Seq::<SourceView>::empty()) =~= c0);
    }
    while i < boot.loads.len()
        invariant
            i <= boot.loads@.len(),
            symbol_views(cands@) == c0 + load_config_libs(source_views(boot.loads@).take(i as int)),
        decreases boot.loads@.len() - i,
    {
        let ghost before = symbol_views(cands@);
        let ghost t = source_views(boot.loads@).take(i + 1);
        proof {
            assert(t.drop_last() =~= source_views(boot.loads@).take(i as int));
            assert(t.last() == boot.loads@[i as int].view());
        }
        match config_lib_for_source(&boot.loads[i]) {
            Some(s) => {
                cands.push(s);
                proof {
                    assert(symbol_views(cands@) =~= before.push(s.view()));
                    assert(load_config_libs(t) =~= load_config_libs(t.drop_last()) + seq![s.view()]);
                    assert(symbol_views(cands@) =~= c0 + load_config_libs(t));
                }
            },
            None => {
                proof {
                    assert(load_config_libs(t) =~= load_config_libs(t.drop_last()));
                }
            },
        }
        i = i + 1;
    }
    assert(source_views(boot.loads@).take(boot.loads@.len() as int) =~= source_views(boot.loads@));
    let ghost c1 = symbol_views(cands@);
    let ghost native_part = match boot.view().native_audio_provider {
        Some(sv) => match source_config_lib(sv) {
            Some(x) => seq![x],
            None => Seq::<SymbolView>::empty(),
        },
        None => Seq::<SymbolView>::empty(),
    };
    match &boot.native_audio_provider {
        Some(s) => match config_lib_for_source(s) {
            Some(x) => {
                cands.push(x);
            },
            None => {},
        },
        None => {},
    }
    assert(symbol_views(cands@) =~= c1 + native_part);
    let ghost c2 = symbol_views(cands@);
    if boot.payload.args.len() > 0 {
        match find_verb_config(default_verb_config_libs, boot.payload.args[0].as_str()) {
            Some(k) => {
                let libs = &default_verb_config_libs[k].libs;
                let mut j: usize = 0;
                assert(c2 + symbol_views(libs@).take(0) =~= c2);
                while j < libs.len()
                    invariant
                        j <= libs@.len(),
                        symbol_views(cands@) == c2 + symbol_views(libs@).take(j as int),
                    decreases libs@.len() - j,
                {
                    let ghost before = symbol_views(cands@);
                    cands.push(libs[j].copy());
                    proof {
                        assert(symbol_views(libs@).take(j + 1) =~= symbol_views(libs@).take(j as int).push(
                            libs@[j as int].view(),
                        ));
                        assert(symbol_views(cands@) =~= before.push(libs@[j as int].view()));
                        assert(symbol_views(cands@) =~= c2 + symbol_views(libs@).take(j + 1));
                    }
                    j = j + 1;
                }
                assert(symbol_views(libs@).take(libs@.len() as int) =~= symbol_views(libs@));
            },
            None => {
                assert(c2 + verb_libs_of(*boot, default_verb_config_libs@) =~= c2);
            },
        }
    } else {
        assert(c2 + verb_libs_of(*boot, default_verb_config_libs@) =~= c2);
    }
    assert(symbol_views(cands@) == c2 + verb_libs_of(*boot, default_verb_config_libs@));
    let ghost c3 = symbol_views(cands@);
    match report {
        Some(ConfigReportKind::Effective { lib }) => {
            cands.push(lib.copy());
        },
        Some(_) => {
            cands.push(Symbol::qualified(owned("sim"), owned("cookbook")));
            cands.push(Symbol::qualified(owned("stream"), owned("host")));
            cands.push(Symbol::qualified(owned("model"), owned("defaults")));
        },
        None => {},
    }
    assert(symbol_views(cands@) =~= c3 + report_config_libs(rk));
    assert(symbol_views(cands@) =~= config_lib_candidates(*boot, default_verb_config_libs@, rk));
    let mut libs: Vec<Symbol> = Vec::new();
    assert(symbol_views(libs@) =~= Seq::<SymbolView>::empty());
    push_all(&mut libs, &cands);
    libs
}

/// Config libraries are listed once each: pushing candidates one by one
/// keeps what was listed, never repeats a library, and lists every
/// candidate.
pub proof fn law_config_libs_unique(l: Seq<SymbolView>, xs: Seq<SymbolView>)
    requires
        forall|i: int, j: int| 0 <= i < j < l.len() ==> l[i] != l[j],
    ensures
        push_all_unique(l, xs).len() >= l.len(),
        forall|i: int, j: int|
            0 <= i < j < push_all_unique(l, xs).len() ==> push_all_unique(l, xs)[i] != push_all_unique(
                l,
                xs,
            )[j],
        forall|k: int| 0 <= k < xs.len() ==> push_all_unique(l, xs).contains(#[trigger] xs[k]),
        forall|k: int| 0 <= k < l.len() ==> push_all_unique(l, xs)[k] == l[k],
    decreases xs.len(),
{
    if xs.len() > 0 {
        law_config_libs_unique(l, xs.drop_last());
        let p = push_all_unique(l, xs.drop_last());
        let x = xs.last();
        let q = push_all_unique(l, xs);
        assert(q == push_unique(p, x));
        if !p.contains(x) {
            assert forall|i: int, j: int| 0 <= i < j < q.len() implies q[i] != q[j] by {
                if j == p.len() {
                    assert(q[j] == x);
                    assert(q[i] == p[i]);
                    if p[i] == x {
                        assert(p.contains(x));
                    }
                } else {
                    assert(q[i] == p[i] && q[j] == p[j]);
                }
            }
        }
        assert forall|k: int| 0 <= k < l.len() implies q[k] == l[k] by {
            assert(q[k] == p[k]);
        }
        assert forall|k: int| 0 <= k < xs.len() implies q.contains(#[trigger] xs[k]) by {
            if k < xs.len() - 1 {
                assert(xs.drop_last()[k] == xs[k]);
                assert(p.contains(xs[k]));
                let m = choose|m: int| 0 <= m < p.len() && p[m] == xs[k];
                assert(q[m] == xs[k]);
            } else {
                if !p.contains(x) {
                    assert(q[p.len() as int] == x);
                } else {
                    assert(q == p);
                }
            }
        }
    }
}

/// The message when no codec can be booted.
pub fn no_codec_error(codec_name: &str, err: &CliError) -> (r: CliError)
    ensures
        r.message@ == "no codec '"@ + codec_name@ + "' available; provide one with --load ("@
            + err.message@ + ")"@,
{
    let mut m = concat2("no codec '", codec_name);
    m.append("' available; provide one with --load (");
    m.append(err.message.as_str());
    m.append(")");
    CliError::new(m)
}

/// Config options before site exports are loaded: the same, without site
/// sources.
pub fn pre_site_config(boot: &CliBoot) -> (r: ConfigLoadOptions)
    ensures
        r.roots == boot.config.roots,
        r.read_files == boot.config.read_files,
        r.single_file == boot.config.single_file,
        r.site_sources@.len() == 0,
{
    let home = match &boot.config.roots.home {
        Some(h) => Some(h.clone()),
        None => None,
    };
    let single_file = match &boot.config.single_file {
        Some(f) => Some(f.clone()),
        None => None,
    };
    ConfigLoadOptions {
        roots: crate::config::ConfigRoots { home, work: boot.config.roots.work.clone() },
        read_files: boot.config.read_files,
        single_file,
        site_sources: Vec::new(),
    }
}


/// What a session does after loading a boot failed.
#[derive(Clone, Copy, Debug, PartialEq, Eq, Structural)]
pub enum BootRecovery {
    /// Go on with what is loaded.
    Proceed,
    /// Load the `--load` sources on their own, then go on.
    LoadSourcesAlone,
    /// Fail with the boot's error.
    Fail,
}

/// After a failed boot, `--list` and `--inspect` still introspect the
/// `--load` sources when the boot codec was what failed: nothing was loaded
/// and there are sources to load.
pub fn introspection_recovery(nothing_loaded: bool, no_loads: bool) -> (r: BootRecovery)
    ensures
        r == (if nothing_loaded && !no_loads {
            BootRecovery::LoadSourcesAlone
        } else {
            BootRecovery::Fail
        }),
{
    if nothing_loaded && !no_loads {
        BootRecovery::LoadSourcesAlone
    } else {
        BootRecovery::Fail
    }
}

/// After a failed boot, a config report still renders: with nothing
/// loaded it loads the `--load` sources alone (or goes on when there are
/// none); with something loaded it goes on only past a missing codec.
pub fn config_report_recovery(err: &CliError, nothing_loaded: bool, no_loads: bool) -> (r: BootRecovery)
    ensures
        r == (if nothing_loaded {
            if no_loads {
                BootRecovery::Proceed
            } else {
                BootRecovery::LoadSourcesAlone
            }
        } else if crate::text::has_prefix(err.message@, "no codec '"@) {
            BootRecovery::Proceed
        } else {
            BootRecovery::Fail
        }),
{
    if nothing_loaded {
        if no_loads {
            BootRecovery::Proceed
        } else {
            BootRecovery::LoadSourcesAlone
        }
    } else if crate::status_report::is_no_codec_error(err) {
        BootRecovery::Proceed
    } else {
        BootRecovery::Fail
    }
}

/// The error when the loaded entrypoint fails.
pub fn handoff_error(symbol: &Symbol, lib: &Symbol, error: &str) -> (r: CliError)
    ensures
        r.message@ == "cli handoff failed for "@ + crate::symbol::qualified_text(symbol.view())
            + " from "@ + crate::symbol::qualified_text(lib.view()) + ": "@ + error@,
{
    let mut m = concat2("cli handoff failed for ", symbol.as_qualified_str().as_str());
    m.append(" from ");
    m.append(lib.as_qualified_str().as_str());
    m.append(": ");
    m.append(error);
    CliError::new(m)
}


// ---------------------------------------------------------------------------
// The order of a boot's loads
// ---------------------------------------------------------------------------

/// One load of a boot.
#[derive(Clone, Copy, Debug, PartialEq, Eq, Structural)]
pub enum BootLoadStep {
    /// Load the `--load` source at an index as the boot codec.
    CodecSource(usize),
    /// Load the codec by its library symbol as the boot codec.
    CodecSymbol,
    /// Load the `--load` source at an index as a library.
    Source(usize),
}

/// Whether the source at `i` exports a requested config site.
pub open spec fn site_flag(flags: Seq<bool>, i: int) -> bool {
    0 <= i < flags.len() && flags[i]
}

/// The loads of the sources below `n` that export a requested config site,
/// in order; the codec's source among them is loaded as the codec.
pub open spec fn site_steps(n: int, codec: Option<usize>, flags: Seq<bool>) -> Seq<BootLoadStep>
    decreases n,
{
    if n <= 0 {
        Seq::empty()
    } else {
        site_steps(n - 1, codec, flags) + if site_flag(flags, n - 1) {
            seq![
                if codec == Some((n - 1) as usize) {
                    BootLoadStep::CodecSource((n - 1) as usize)
                } else {
                    BootLoadStep::Source((n - 1) as usize)
                },
            ]
        } else {
            Seq::empty()
        }
    }
}

/// The loads of the other sources below `n`, in order.
pub open spec fn rest_steps(n: int, codec: Option<usize>, flags: Seq<bool>) -> Seq<BootLoadStep>
    decreases n,
{
    if n <= 0 {
        Seq::empty()
    } else {
        rest_steps(n - 1, codec, flags) + if !site_flag(flags, n - 1) && codec != Some((n - 1) as usize) {
            seq![BootLoadStep::Source((n - 1) as usize)]
        } else {
            Seq::empty()
        }
    }
}

/// The boot codec's load, unless its source was loaded for a config site.
pub open spec fn codec_steps(codec: Option<usize>, flags: Seq<bool>) -> Seq<BootLoadStep> {
    match codec {
        Some(i) => if site_flag(flags, i as int) {
            Seq::empty()
        } else {
            seq![BootLoadStep::CodecSource(i)]
        },
        None => seq![BootLoadStep::CodecSymbol],
    }
}

/// The loads of a boot with `n` sources: those exporting a requested
/// config site, then the boot codec (from its source, or by its symbol when
/// no source provides it), then every other source in order.
pub open spec fn boot_load_plan_spec(n: nat, codec: Option<usize>, flags: Seq<bool>) -> Seq<BootLoadStep> {
    site_steps(n as int, codec, flags) + codec_steps(codec, flags) + rest_steps(n as int, codec, flags)
}

/// The loads of a boot with `n` sources, given which source provides the
/// codec and which export a requested config site.
pub fn boot_load_plan(n: usize, codec: Option<usize>, exports_site: &Vec<bool>) -> (r: Vec<BootLoadStep>)
    requires
        codec matches Some(i) ==> i < n,
    ensures
        r@ == boot_load_plan_spec(n as nat, codec, exports_site@),
{
    let mut sites: Vec<BootLoadStep> = Vec::new();
    let mut rest: Vec<BootLoadStep> = Vec::new();
    let mut i: usize = 0;
    while i < n
        invariant
            i <= n,
            sites@ == site_steps(i as int, codec, exports_site@),
            rest@ == rest_steps(i as int, codec, exports_site@),
        decreases n - i,
    {
        let flagged = i < exports_site.len() && exports_site[i];
        let is_codec = match codec {
            Some(c) => c == i,
            None => false,
        };
        if flagged {
            if is_codec {
                sites.push(BootLoadStep::CodecSource(i));
            } else {
                sites.push(BootLoadStep::Source(i));
            }
        } else if !is_codec {
            rest.push(BootLoadStep::Source(i));
        }
        proof {
            assert(site_steps(i + 1, codec, exports_site@) =~= sites@);
            assert(rest_steps(i + 1, codec, exports_site@) =~= rest@);
        }
        i = i + 1;
    }
    let mut plan = sites;
    match codec {
        Some(c) => {
            if !(c < exports_site.len() && exports_site[c]) {
                plan.push(BootLoadStep::CodecSource(c));
            }
        },
        None => plan.push(BootLoadStep::CodecSymbol),
    }
    let ghost head = plan@;
    assert(head == site_steps(n as int, codec, exports_site@) + codec_steps(codec, exports_site@));
    let mut k: usize = 0;
    while k < rest.len()
        invariant
            k <= rest@.len(),
            plan@ == head + rest@.take(k as int),
        decreases rest@.len() - k,
    {
        plan.push(rest[k]);
        k = k + 1;
        assert(plan@ =~= head + rest@.take(k as int));
    }
    assert(rest@.take(rest@.len() as int) =~= rest@);
    plan
}

/// The source that provides the boot codec: the one named for it
/// explicitly, else the first source whose manifest exports the codec.
pub fn boot_codec_source_index(explicit: Option<usize>, exports_codec: &Vec<bool>) -> (r: Option<usize>)
    ensures
        explicit is Some ==> r == explicit,
        explicit is None ==> match r {
            Some(i) => i < exports_codec@.len() && exports_codec@[i as int] && forall|j: int|
                0 <= j < i ==> !#[trigger] exports_codec@[j],
            None => forall|j: int| 0 <= j < exports_codec@.len() ==> !#[trigger] exports_codec@[j],
        },
{
    if explicit.is_some() {
        return explicit;
    }
    let mut i: usize = 0;
    while i < exports_codec.len()
        invariant
            explicit is None,
            i <= exports_codec@.len(),
            forall|j: int| 0 <= j < i ==> !#[trigger] exports_codec@[j],
        decreases exports_codec@.len() - i,
    {
        if exports_codec[i] {
            return Some(i);
        }
        i = i + 1;
    }
    None
}

/// The source index a load names.
pub open spec fn step_source(s: BootLoadStep) -> Option<usize> {
    match s {
        BootLoadStep::CodecSource(i) => Some(i),
        BootLoadStep::CodecSymbol => None,
        BootLoadStep::Source(i) => Some(i),
    }
}

/// Whether a load is the boot codec's.
pub open spec fn is_codec_step(s: BootLoadStep) -> bool {
    !(s is Source)
}

/// Whether some load of `plan` names the source at index `i`.
pub open spec fn loads_source(plan: Seq<BootLoadStep>, i: int) -> bool {
    exists|k: int| 0 <= k < plan.len() && step_source(#[trigger] plan[k]) == Some(i as usize)
}

proof fn lemma_site_steps(n: int, codec: Option<usize>, flags: Seq<bool>)
    requires
        0 <= n <= usize::MAX,
    ensures
        forall|k: int|
            0 <= k < site_steps(n, codec, flags).len() ==> {
                let s = #[trigger] site_steps(n, codec, flags)[k];
                &&& step_source(s) matches Some(i) && i < n && site_flag(flags, i as int)
                &&& (is_codec_step(s) <==> codec == step_source(s))
            },
        forall|k1: int, k2: int|
            0 <= k1 < k2 < site_steps(n, codec, flags).len() ==> step_source(
                #[trigger] site_steps(n, codec, flags)[k1],
            )->0 < step_source(#[trigger] site_steps(n, codec, flags)[k2])->0,
        forall|i: int|
            0 <= i < n && site_flag(flags, i) ==> #[trigger] loads_source(site_steps(n, codec, flags), i),
    decreases n,
{
    if n > 0 {
        lemma_site_steps(n - 1, codec, flags);
        let prev = site_steps(n - 1, codec, flags);
        let cur = site_steps(n, codec, flags);
        assert forall|k: int| 0 <= k < prev.len() implies cur[k] == prev[k] by {}
        if site_flag(flags, n - 1) {
            assert(cur.len() == prev.len() + 1);
            assert(step_source(cur[prev.len() as int]) == Some((n - 1) as usize));
        } else {
            assert(cur =~= prev);
        }
        assert forall|i: int| 0 <= i < n && site_flag(flags, i) implies #[trigger] loads_source(cur, i) by {
            if i < n - 1 {
                assert(loads_source(prev, i));
                let k = choose|k: int| 0 <= k < prev.len() && step_source(#[trigger] prev[k]) == Some(i as usize);
                assert(cur[k] == prev[k]);
            } else {
                assert(step_source(cur[prev.len() as int]) == Some(i as usize));
            }
        }
    }
}

proof fn lemma_rest_steps(n: int, codec: Option<usize>, flags: Seq<bool>)
    requires
        0 <= n <= usize::MAX,
    ensures
        forall|k: int|
            0 <= k < rest_steps(n, codec, flags).len() ==> {
                let s = #[trigger] rest_steps(n, codec, flags)[k];
                &&& s matches BootLoadStep::Source(i) && i < n && !site_flag(flags, i as int)
                    && codec != Some(i)
            },
        forall|k1: int, k2: int|
            0 <= k1 < k2 < rest_steps(n, codec, flags).len() ==> step_source(
                #[trigger] rest_steps(n, codec, flags)[k1],
            )->0 < step_source(#[trigger] rest_steps(n, codec, flags)[k2])->0,
        forall|i: int|
            0 <= i < n && !site_flag(flags, i) && codec != Some(i as usize) ==> #[trigger] loads_source(
                rest_steps(n, codec, flags),
                i,
            ),
    decreases n,
{
    if n > 0 {
        lemma_rest_steps(n - 1, codec, flags);
        let prev = rest_steps(n - 1, codec, flags);
        let cur = rest_steps(n, codec, flags);
        assert forall|k: int| 0 <= k < prev.len() implies cur[k] == prev[k] by {}
        if !site_flag(flags, n - 1) && codec != Some((n - 1) as usize) {
            assert(cur.len() == prev.len() + 1);
            assert(cur[prev.len() as int] == BootLoadStep::Source((n - 1) as usize));
        } else {
            assert(cur =~= prev);
        }
        assert forall|i: int| 0 <= i < n && !site_flag(flags, i) && codec != Some(i as usize) implies #[trigger] loads_source(cur, i) by {
            if i < n - 1 {
                assert(loads_source(prev, i));
                let k = choose|k: int| 0 <= k < prev.len() && step_source(#[trigger] prev[k]) == Some(i as usize);
                assert(cur[k] == prev[k]);
            } else {
                assert(step_source(cur[prev.len() as int]) == Some(i as usize));
            }
        }
    }
}

/// A boot loads every `--load` source exactly once, and loads the boot
/// codec exactly once: from its source when one provides it, else by its
/// symbol.
pub proof fn law_boot_loads_each_source_once(n: usize, codec: Option<usize>, flags: Seq<bool>)
    requires
        codec matches Some(i) ==> i < n,
    ensures
        forall|i: int| 0 <= i < n ==> #[trigger] loads_source(boot_load_plan_spec(n as nat, codec, flags), i),
        forall|k1: int, k2: int|
            0 <= k1 < k2 < boot_load_plan_spec(n as nat, codec, flags).len() && step_source(
                #[trigger] boot_load_plan_spec(n as nat, codec, flags)[k1],
            ) is Some ==> step_source(boot_load_plan_spec(n as nat, codec, flags)[k1]) != step_source(
                #[trigger] boot_load_plan_spec(n as nat, codec, flags)[k2],
            ),
        forall|k1: int, k2: int|
            0 <= k1 < boot_load_plan_spec(n as nat, codec, flags).len() && 0 <= k2 < boot_load_plan_spec(n as nat, codec, flags).len() && is_codec_step(#[trigger] boot_load_plan_spec(n as nat, codec, flags)[k1])
                && is_codec_step(#[trigger] boot_load_plan_spec(n as nat, codec, flags)[k2]) ==> k1 == k2,
        exists|k: int|
            0 <= k < boot_load_plan_spec(n as nat, codec, flags).len() && is_codec_step(
                #[trigger] boot_load_plan_spec(n as nat, codec, flags)[k],
            ),
        forall|k: int|
            0 <= k < boot_load_plan_spec(n as nat, codec, flags).len() && is_codec_step(
                #[trigger] boot_load_plan_spec(n as nat, codec, flags)[k],
            ) ==> step_source(boot_load_plan_spec(n as nat, codec, flags)[k]) == codec,
{
    let a = site_steps(n as int, codec, flags);
    let b = codec_steps(codec, flags);
    let c = rest_steps(n as int, codec, flags);
    let p = boot_load_plan_spec(n as nat, codec, flags);
    lemma_site_steps(n as int, codec, flags);
    lemma_rest_steps(n as int, codec, flags);
    assert(p == a + b + c);
    assert forall|k: int| 0 <= k < p.len() implies (k < a.len() ==> p[k] == a[k]) && (a.len() <= k
        < a.len() + b.len() ==> p[k] == b[k - a.len()]) && (a.len() + b.len() <= k ==> p[k] == c[k
        - a.len() - b.len()]) by {}
    assert forall|i: int| 0 <= i < n implies #[trigger] loads_source(p, i) by {
        if site_flag(flags, i) {
            assert(loads_source(a, i));
            let k = choose|k: int| 0 <= k < a.len() && step_source(#[trigger] a[k]) == Some(i as usize);
            assert(p[k] == a[k]);
        } else if codec == Some(i as usize) {
            assert(p[a.len() as int] == b[0]);
        } else {
            assert(loads_source(c, i));
            let k = choose|k: int| 0 <= k < c.len() && step_source(#[trigger] c[k]) == Some(i as usize);
            assert(p[a.len() + b.len() + k] == c[k]);
        }
    }
    assert forall|k1: int, k2: int|
        0 <= k1 < k2 < p.len() && step_source(#[trigger] p[k1]) is Some implies step_source(p[k1])
        != step_source(#[trigger] p[k2]) by {
        if k1 < a.len() && k2 < a.len() {
            assert(p[k1] == a[k1] && p[k2] == a[k2]);
        } else if k1 >= a.len() + b.len() && k2 >= a.len() + b.len() {
            assert(p[k1] == c[k1 - a.len() - b.len()] && p[k2] == c[k2 - a.len() - b.len()]);
        } else if k1 < a.len() && k2 >= a.len() + b.len() {
            assert(p[k1] == a[k1] && p[k2] == c[k2 - a.len() - b.len()]);
        } else if k1 < a.len() {
            assert(p[k1] == a[k1] && p[k2] == b[k2 - a.len()]);
        } else {
            assert(p[k1] == b[k1 - a.len()] && p[k2] == c[k2 - a.len() - b.len()]);
        }
    }
    assert forall|k: int| 0 <= k < p.len() && is_codec_step(#[trigger] p[k]) implies step_source(p[k])
        == codec by {
        if k < a.len() {
            assert(p[k] == a[k]);
        } else if k >= a.len() + b.len() {
            assert(p[k] == c[k - a.len() - b.len()]);
        }
    }
    assert forall|k1: int, k2: int|
        0 <= k1 < p.len() && 0 <= k2 < p.len() && is_codec_step(#[trigger] p[k1]) && is_codec_step(
            #[trigger] p[k2],
        ) implies k1 == k2 by {
        if k1 >= a.len() + b.len() {
            assert(p[k1] == c[k1 - a.len() - b.len()]);
        }
        if k2 >= a.len() + b.len() {
            assert(p[k2] == c[k2 - a.len() - b.len()]);
        }
        if k1 < a.len() && k2 < a.len() && k1 != k2 {
            assert(p[k1] == a[k1] && p[k2] == a[k2]);
            if k1 < k2 {
                assert(step_source(a[k1])->0 < step_source(a[k2])->0);
            } else {
                assert(step_source(a[k2])->0 < step_source(a[k1])->0);
            }
        }
        if k1 < a.len() && a.len() <= k2 < a.len() + b.len() {
            assert(p[k1] == a[k1]);
            assert(p[k2] == b[k2 - a.len()]);
        }
        if k2 < a.len() && a.len() <= k1 < a.len() + b.len() {
            assert(p[k2] == a[k2]);
            assert(p[k1] == b[k1 - a.len()]);
        }
    }
    match codec {
        Some(i) => {
            if site_flag(flags, i as int) {
                assert(loads_source(a, i as int));
                let k = choose|k: int| 0 <= k < a.len() && step_source(#[trigger] a[k]) == Some(i);
                assert(p[k] == a[k]);
            } else {
                assert(p[a.len() as int] == b[0]);
            }
        },
        None => {
            assert(p[a.len() as int] == b[0]);
        },
    }
}

// ---------------------------------------------------------------------------
// Loading one source
// ---------------------------------------------------------------------------

/// How a source is loaded: a host library by name, a crates.io spec
/// through the resolver, or a data source through the loaders, which a
/// library symbol may fall back from to its crates.io spec.
pub enum LoadRoute {
    Host(String),
    CratesIo(CratesIoSpec),
    Data { fallback: Option<CratesIoSpec> },
}

/// The route of a source.
pub fn load_route(source: &LibSourceSpec) -> (r: LoadRoute)
    ensures
        match source.view() {
            SourceView::Host(n) => r matches LoadRoute::Host(x) && x@ == n,
            SourceView::CratesIo(p, raw, kind) => r matches LoadRoute::CratesIo(s) && s.package@ == p
                && s.requirement.view().raw == raw && s.requirement.view().kind == kind,
            SourceView::Symbol(t) => r matches LoadRoute::Data { fallback } && match fallback_package(t) {
                Some(p) => fallback matches Some(s) && s.package@ == p && s.requirement.view().raw
                    == DEFAULT_FALLBACK_REQ@ && s.requirement.view().kind == ReqKindSpec::Caret("0.1"@),
                None => fallback is None,
            },
            _ => r matches LoadRoute::Data { fallback: None },
        },
{
    match source {
        LibSourceSpec::Host(n) => LoadRoute::Host(n.clone()),
        LibSourceSpec::CratesIo(s) => LoadRoute::CratesIo(s.copy()),
        LibSourceSpec::Symbol(t) => LoadRoute::Data { fallback: fallback_spec_for_symbol(t.as_str()) },
        _ => LoadRoute::Data { fallback: None },
    }
}

/// The message when a path source's file does not exist.
pub open spec fn missing_path_msg(source: SourceView, path: Seq<char>) -> Seq<char> {
    "path source not found for "@ + source_text(source) + ": "@ + path
}

/// Checks that a path source names an existing file before it is loaded;
/// other sources pass.
pub fn check_loadable_path(source: &LibSourceSpec, path_exists: bool) -> (r: Result<(), CliError>)
    ensures
        (source.view() matches SourceView::Path(p) && !path_exists) ==> (r matches Err(e)
            && e.message@ == missing_path_msg(source.view(), source.view()->Path_0)),
        !(source.view() matches SourceView::Path(p) && !path_exists) ==> r is Ok,
{
    match source {
        LibSourceSpec::Path(p) => {
            if path_exists {
                Ok(())
            } else {
                let mut m = concat2("path source not found for ", source.to_string().as_str());
                m.append(": ");
                m.append(p.as_str());
                Err(CliError::new(m))
            }
        },
        _ => Ok(()),
    }
}

/// What follows a failed data load: the fallback crates.io spec is loaded
/// when there is one, else the load fails with its error.
pub fn after_data_load_failure(fallback: Option<CratesIoSpec>, err: CliError) -> (r: Result<
    CratesIoSpec,
    CliError,
>)
    ensures
        fallback matches Some(s) ==> (r matches Ok(t) && t.package@ == s.package@
            && t.requirement.view() == s.requirement.view()),
        fallback is None ==> (r matches Err(e) && e.message@ == err.message@),
{
    match fallback {
        Some(s) => Ok(s),
        None => Err(err),
    }
}

/// What follows a failed load of the boot codec: the host library of the
/// codec's symbol is loaded when the session has one, else the boot fails
/// with the no-codec error.
pub fn after_codec_load_failure(
    host_has_codec: bool,
    codec_name: &str,
    codec_symbol: &str,
    err: &CliError,
) -> (r: Result<LibSourceSpec, CliError>)
    ensures
        host_has_codec ==> (r matches Ok(s) && s.view() == SourceView::Host(codec_symbol@)),
        !host_has_codec ==> (r matches Err(e) && e.message@ == "no codec '"@ + codec_name@
            + "' available; provide one with --load ("@ + err.message@ + ")"@),
{
    if host_has_codec {
        Ok(LibSourceSpec::Host(owned(codec_symbol)))
    } else {
        Err(no_codec_error(codec_name, err))
    }
}

// ---------------------------------------------------------------------------
// The boot session: loads in plan order, the codec's fallback, receipts
// ---------------------------------------------------------------------------

/// What the boot session asks its caller to do next.
#[derive(Clone, Debug, PartialEq, Eq)]
pub enum SessionAction {
    /// Load the `--load` source at an index; as the boot codec when `codec`.
    LoadSource { index: usize, codec: bool },
    /// Load the boot codec by its library symbol.
    LoadCodecSymbol,
    /// Load the host library of the codec's symbol as the boot codec.
    LoadHostCodec,
    /// Every load is done.
    Done,
    /// The boot fails with this message.
    Fail(String),
}

/// The action that carries out a planned load.
pub open spec fn step_action(s: BootLoadStep) -> SessionAction {
    match s {
        BootLoadStep::CodecSource(i) => SessionAction::LoadSource { index: i, codec: true },
        BootLoadStep::CodecSymbol => SessionAction::LoadCodecSymbol,
        BootLoadStep::Source(i) => SessionAction::LoadSource { index: i, codec: false },
    }
}

/// The action for the load at position `k` of a plan, or done past its end.
pub open spec fn plan_action(plan: Seq<BootLoadStep>, k: int) -> SessionAction {
    if 0 <= k < plan.len() {
        step_action(plan[k])
    } else {
        SessionAction::Done
    }
}

/// Each recorded receipt marks the boot codec exactly when its planned load
/// is the codec's.
pub open spec fn receipts_follow_plan(plan: Seq<BootLoadStep>, receipts: Seq<bool>) -> bool {
    &&& receipts.len() <= plan.len()
    &&& forall|k: int| 0 <= k < receipts.len() ==> #[trigger] receipts[k] == is_codec_step(plan[k])
}

/// A boot session: it walks the boot's load plan, records for each library
/// loaded whether its receipt marks it as the boot codec, and falls back to
/// the host codec when the codec's own load fails.
pub struct BootSession {
    plan: Vec<BootLoadStep>,
    next: usize,
    host_has_codec: bool,
    codec_name: String,
    retrying_codec: bool,
    stopped: bool,
    receipts: Vec<bool>,
}

impl BootSession {
    /// The loads the session walks.
    pub closed spec fn plan_view(&self) -> Seq<BootLoadStep> {
        self.plan@
    }

    /// How many planned loads are done.
    pub closed spec fn done_view(&self) -> int {
        self.next as int
    }

    /// For each library loaded so far, in order, whether its receipt marks
    /// it as the boot codec.
    pub closed spec fn receipts_view(&self) -> Seq<bool> {
        self.receipts@
    }

    /// Whether the codec is being loaded from the host after its own load
    /// failed.
    pub closed spec fn retrying_view(&self) -> bool {
        self.retrying_codec
    }

    /// Whether the session is over (done or failed).
    pub closed spec fn stopped_view(&self) -> bool {
        self.stopped
    }

    /// Whether the session holds a host library of the codec's symbol.
    pub closed spec fn host_view(&self) -> bool {
        self.host_has_codec
    }

    /// The codec's name.
    pub closed spec fn codec_name_view(&self) -> Seq<char> {
        self.codec_name@
    }

    /// The loads done so far were loaded, in plan order.
    pub closed spec fn wf(&self) -> bool {
        &&& self.next <= self.plan@.len()
        &&& self.receipts@.len() == self.next
        &&& self.plan@.len() < usize::MAX
        &&& !self.stopped ==> self.next < self.plan@.len()
        &&& receipts_follow_plan(self.plan@, self.receipts@)
    }

    /// Starts a session over a plan; its first action is the plan's first
    /// load.
    pub fn start(plan: Vec<BootLoadStep>, host_has_codec: bool, codec_name: String) -> (r: (
        BootSession,
        SessionAction,
    ))
        requires
            plan@.len() < usize::MAX,
        ensures
            r.0.wf(),
            r.0.plan_view() == plan@,
            r.0.done_view() == 0,
            r.0.receipts_view() == Seq::<bool>::empty(),
            !r.0.retrying_view(),
            r.0.host_view() == host_has_codec,
            r.0.codec_name_view() == codec_name@,
            r.0.stopped_view() == (plan@.len() == 0),
            r.1 == plan_action(plan@, 0),
            receipts_follow_plan(r.0.plan_view(), r.0.receipts_view()),
    {
        let action = if plan.len() == 0 {
            SessionAction::Done
        } else {
            action_of(plan[0])
        };
        let stopped = plan.len() == 0;
        (
            BootSession {
                plan,
                next: 0,
                host_has_codec,
                codec_name,
                retrying_codec: false,
                stopped,
                receipts: Vec::new(),
            },
            action,
        )
    }

    /// Takes the outcome of the last action and gives the next one. A load
    /// that succeeded is recorded with its role and the plan goes on; a
    /// failed load of the codec falls back to the host codec once when the
    /// session has one, else fails with the no-codec error; any other
    /// failure fails the boot with its own error.
    pub fn on_outcome(&mut self, outcome: Result<(), CliError>) -> (r: SessionAction)
        requires
            old(self).wf(),
            !old(self).stopped_view(),
        ensures
            final(self).wf(),
            final(self).plan_view() == old(self).plan_view(),
            final(self).host_view() == old(self).host_view(),
            final(self).codec_name_view() == old(self).codec_name_view(),
            receipts_follow_plan(final(self).plan_view(), final(self).receipts_view()),
            !final(self).stopped_view() ==> final(self).done_view() < final(self).plan_view().len(),
            outcome is Ok ==> {
                &&& final(self).done_view() == old(self).done_view() + 1
                &&& final(self).receipts_view() == old(self).receipts_view().push(
                    is_codec_step(old(self).plan_view()[old(self).done_view()]),
                )
                &&& !final(self).retrying_view()
                &&& r == plan_action(old(self).plan_view(), old(self).done_view() + 1)
                &&& final(self).stopped_view() == (r == SessionAction::Done)
            },
            outcome matches Err(e) ==> {
                &&& final(self).done_view() == old(self).done_view()
                &&& final(self).receipts_view() == old(self).receipts_view()
                &&& if is_codec_step(old(self).plan_view()[old(self).done_view()])
                    && !old(self).retrying_view() && old(self).host_view() {
                    &&& r == SessionAction::LoadHostCodec
                    &&& final(self).retrying_view()
                    &&& !final(self).stopped_view()
                } else if is_codec_step(old(self).plan_view()[old(self).done_view()])
                    && !old(self).retrying_view() {
                    &&& r matches SessionAction::Fail(m) && m@ == "no codec '"@
                        + old(self).codec_name_view() + "' available; provide one with --load ("@
                        + e.message@ + ")"@
                    &&& final(self).stopped_view()
                } else {
                    &&& r matches SessionAction::Fail(m) && m@ == e.message@
                    &&& final(self).stopped_view()
                }
            },
    {
        let current = self.plan[self.next];
        match outcome {
            Ok(()) => {
                let ghost before = self.receipts@;
                self.receipts.push(is_codec_step_exec(current));
                assert(forall|k: int| 0 <= k < before.len() ==> self.receipts@[k] == before[k]);
                self.next = self.next + 1;
                self.retrying_codec = false;
                if self.next < self.plan.len() {
                    self.stopped = false;
                    action_of(self.plan[self.next])
                } else {
                    self.stopped = true;
                    SessionAction::Done
                }
            },
            Err(e) => {
                if is_codec_step_exec(current) && !self.retrying_codec {
                    if self.host_has_codec {
                        self.retrying_codec = true;
                        SessionAction::LoadHostCodec
                    } else {
                        self.stopped = true;
                        SessionAction::Fail(no_codec_error(self.codec_name.as_str(), &e).message)
                    }
                } else {
                    self.stopped = true;
                    SessionAction::Fail(e.message)
                }
            },
        }
    }

    /// For each library loaded so far, whether its receipt marks it as the
    /// boot codec.
    pub fn receipt_roles(&self) -> (r: &Vec<bool>)
        ensures
            r@ == self.receipts_view(),
    {
        &self.receipts
    }
}

fn is_codec_step_exec(s: BootLoadStep) -> (r: bool)
    ensures
        r == is_codec_step(s),
{
    match s {
        BootLoadStep::Source(_) => false,
        _ => true,
    }
}

fn action_of(s: BootLoadStep) -> (r: SessionAction)
    ensures
        r == step_action(s),
{
    match s {
        BootLoadStep::CodecSource(i) => SessionAction::LoadSource { index: i, codec: true },
        BootLoadStep::CodecSymbol => SessionAction::LoadCodecSymbol,
        BootLoadStep::Source(i) => SessionAction::LoadSource { index: i, codec: false },
    }
}

/// Without requested config sites, the boot codec is loaded before any
/// other library: the first load of the plan is the codec's.
pub proof fn law_codec_loads_first_without_site_requests(n: usize, codec: Option<usize>, flags: Seq<bool>)
    requires
        codec matches Some(i) ==> i < n,
        forall|i: int| 0 <= i < n ==> !#[trigger] site_flag(flags, i),
    ensures
        boot_load_plan_spec(n as nat, codec, flags).len() > 0,
        is_codec_step(boot_load_plan_spec(n as nat, codec, flags)[0]),
        plan_action(boot_load_plan_spec(n as nat, codec, flags), 0) != SessionAction::Done,
{
    lemma_no_site_steps(n as int, codec, flags);
    let p = boot_load_plan_spec(n as nat, codec, flags);
    let b = codec_steps(codec, flags);
    assert(p =~= Seq::<BootLoadStep>::empty() + b + rest_steps(n as int, codec, flags));
    assert(b.len() == 1);
    assert(p[0] == b[0]);
}

proof fn lemma_no_site_steps(n: int, codec: Option<usize>, flags: Seq<bool>)
    requires
        forall|i: int| 0 <= i < n ==> !#[trigger] site_flag(flags, i),
    ensures
        site_steps(n, codec, flags) == Seq::<BootLoadStep>::empty(),
    decreases n,
{
    if n > 0 {
        lemma_no_site_steps(n - 1, codec, flags);
        assert(!site_flag(flags, n - 1));
        assert(site_steps(n, codec, flags) =~= Seq::<BootLoadStep>::empty());
    }
}

/// When every load of a boot succeeds, exactly one receipt marks its
/// library as the boot codec.
pub proof fn law_one_codec_receipt(n: usize, codec: Option<usize>, flags: Seq<bool>, receipts: Seq<bool>)
    requires
        codec matches Some(i) ==> i < n,
        receipts_follow_plan(boot_load_plan_spec(n as nat, codec, flags), receipts),
        receipts.len() == boot_load_plan_spec(n as nat, codec, flags).len(),
    ensures
        exists|k: int| 0 <= k < receipts.len() && receipts[k],
        forall|k1: int, k2: int|
            0 <= k1 < receipts.len() && 0 <= k2 < receipts.len() && #[trigger] receipts[k1]
                && #[trigger] receipts[k2] ==> k1 == k2,
{
    let p = boot_load_plan_spec(n as nat, codec, flags);
    law_boot_loads_each_source_once(n, codec, flags);
    let k = choose|k: int| 0 <= k < p.len() && is_codec_step(#[trigger] p[k]);
    assert(receipts[k] == is_codec_step(p[k]));
    assert forall|k1: int, k2: int|
        0 <= k1 < receipts.len() && 0 <= k2 < receipts.len() && #[trigger] receipts[k1]
            && #[trigger] receipts[k2] implies k1 == k2 by {
        assert(receipts[k1] == is_codec_step(p[k1]));
        assert(receipts[k2] == is_codec_step(p[k2]));
    }
}

} // verus!
