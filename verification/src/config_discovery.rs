//! Runtime config discovery: the order in which probes, root files, an
//! explicit config file and config sites are read, and what each read's
//! outcome adds to the discovered state (layers, source reports, probe
//! reports and non-fatal diagnostics).
use vstd::prelude::*;
use vstd::string::*;

use crate::config::{symbol_views, ConfigLoadOptions, ConfigView};
use crate::crates_io::{join_path, path_join};
use crate::load_plan::{push_all_unique, unique_libs};
use crate::status_report::{
    ConfigProbeReport, ConfigSource, ConfigSourceReport, ConfigSourceView, SourceStatus,
};
use crate::report::ConfigSecretField;
use crate::symbol::{qualified_text, Symbol, SymbolView};
use crate::native_loader::last_index_before;
use crate::text::{concat2, has_char, owned, split_seq};

verus! {

broadcast use vstd::string::group_string_axioms;

/// Which config root a library's file is under.
#[derive(Clone, Copy, Debug, PartialEq, Eq, Structural)]
pub enum RootKind {
    Home,
    Work,
}

/// One read of config discovery.
#[derive(Clone, Debug, PartialEq, Eq)]
pub enum ConfigRead {
    /// Run the probe at an index for a library.
    Probe { lib: Symbol, probe: usize },
    /// A library's own file under a root.
    LibFile { kind: RootKind, root: String, lib: Symbol },
    /// A shared config Dir file; explicit when named by `--config-file`.
    SingleFile { path: String, explicit: bool },
    /// A config Dir exported by a loaded site.
    Site { site: Symbol },
}

/// Mathematical form of a read.
pub enum ReadView {
    Probe(SymbolView, nat),
    LibFile(RootKind, Seq<char>, SymbolView),
    SingleFile(Seq<char>, bool),
    Site(SymbolView),
}

impl ConfigRead {
    pub open spec fn view(&self) -> ReadView {
        match self {
            ConfigRead::Probe { lib, probe } => ReadView::Probe(lib.view(), *probe as nat),
            ConfigRead::LibFile { kind, root, lib } => ReadView::LibFile(*kind, root@, lib.view()),
            ConfigRead::SingleFile { path, explicit } => ReadView::SingleFile(path@, *explicit),
            ConfigRead::Site { site } => ReadView::Site(site.view()),
        }
    }
}

pub open spec fn read_views(v: Seq<ConfigRead>) -> Seq<ReadView> {
    v.map_values(|r: ConfigRead| r.view())
}

/// Every probe for each library in turn.
pub open spec fn probe_reads(libs: Seq<SymbolView>, probes: nat) -> Seq<ReadView>
    decreases libs.len(),
{
    if libs.len() == 0 {
        Seq::empty()
    } else {
        probe_reads(libs.drop_last(), probes) + Seq::new(probes, |p: int| ReadView::Probe(libs.last(), p as nat))
    }
}

/// The reads of one root: each library's file, then the root's `sim.toml`.
pub open spec fn root_reads(kind: RootKind, root: Option<Seq<char>>, libs: Seq<SymbolView>) -> Seq<ReadView> {
    match root {
        Some(r) => libs.map_values(|l: SymbolView| ReadView::LibFile(kind, r, l)).push(
            ReadView::SingleFile(path_join(r, "sim.toml"@), false),
        ),
        None => Seq::empty(),
    }
}

/// The reads of config discovery, in order: every probe for each library
/// (each library once, at its first position), then, when files are read,
/// the home root's, the working root's and an explicit config file, then
/// every config site.
pub open spec fn config_reads_spec(opts: ConfigView, libs: Seq<SymbolView>, probes: nat) -> Seq<ReadView> {
    let u = push_all_unique(Seq::empty(), libs);
    probe_reads(u, probes) + (if opts.read_files {
        root_reads(RootKind::Home, opts.home, u) + root_reads(RootKind::Work, Some(opts.work), u)
            + match opts.single_file {
            Some(p) => seq![ReadView::SingleFile(p, true)],
            None => Seq::empty(),
        }
    } else {
        Seq::empty()
    }) + opts.site_sources.map_values(|s: SymbolView| ReadView::Site(s))
}

fn push_root_reads(out: &mut Vec<ConfigRead>, kind: RootKind, root: &str, libs: &Vec<Symbol>)
    ensures
        read_views(final(out)@) == read_views(old(out)@) + root_reads(kind, Some(root@), symbol_views(libs@)),
{
    let ghost start = read_views(out@);
    let ghost lv = symbol_views(libs@);
    let mut i: usize = 0;
    while i < libs.len()
        invariant
            lv == symbol_views(libs@),
            i <= libs@.len(),
            read_views(out@) == start + lv.take(i as int).map_values(|l: SymbolView| ReadView::LibFile(kind, root@, l)),
        decreases libs@.len() - i,
    {
        let ghost prev = out@;
        out.push(ConfigRead::LibFile { kind, root: owned(root), lib: libs[i].copy() });
        assert(out@.drop_last() =~= prev);
        assert(out@.last().view() == ReadView::LibFile(kind, root@, lv[i as int]));
        assert(read_views(out@) =~= read_views(prev).push(out@.last().view()));
        assert(lv.take(i + 1).map_values(|l: SymbolView| ReadView::LibFile(kind, root@, l)) =~= lv.take(
            i as int,
        ).map_values(|l: SymbolView| ReadView::LibFile(kind, root@, l)).push(
            ReadView::LibFile(kind, root@, lv[i as int]),
        ));
        i = i + 1;
        assert(read_views(out@) =~= start + lv.take(i as int).map_values(|l: SymbolView| ReadView::LibFile(kind, root@, l)));
    }
    assert(lv.take(libs@.len() as int) =~= lv);
    let ghost prev = out@;
    out.push(ConfigRead::SingleFile { path: join_path(root, "sim.toml"), explicit: false });
    assert(out@.drop_last() =~= prev);
    assert(read_views(out@) =~= read_views(prev).push(ReadView::SingleFile(path_join(root@, "sim.toml"@), false)));
}

/// The reads of config discovery for the given options, libraries and
/// number of probes.
pub fn config_reads(opts: &ConfigLoadOptions, libs: &Vec<Symbol>, probes: usize) -> (r: Vec<ConfigRead>)
    ensures
        read_views(r@) == config_reads_spec(opts.view(), symbol_views(libs@), probes as nat),
{
    let ulibs = unique_libs(libs);
    let ghost u = symbol_views(ulibs@);
    let mut out: Vec<ConfigRead> = Vec::new();
    let mut i: usize = 0;
    assert(read_views(out@) =~= Seq::<ReadView>::empty());
    assert(u.take(0) =~= Seq::<SymbolView>::empty());
    while i < ulibs.len()
        invariant
            u == symbol_views(ulibs@),
            i <= ulibs@.len(),
            read_views(out@) == probe_reads(u.take(i as int), probes as nat),
        decreases ulibs@.len() - i,
    {
        let mut p: usize = 0;
        let ghost before = read_views(out@);
        while p < probes
            invariant
                u == symbol_views(ulibs@),
                i < ulibs@.len(),
                p <= probes,
                read_views(out@) == before + Seq::new(p as nat, |q: int| ReadView::Probe(u[i as int], q as nat)),
            decreases probes - p,
        {
            let ghost prev = out@;
            out.push(ConfigRead::Probe { lib: ulibs[i].copy(), probe: p });
            assert(out@.drop_last() =~= prev);
            assert(out@.last().view() == ReadView::Probe(u[i as int], p as nat));
            assert(read_views(out@) =~= read_views(prev).push(out@.last().view()));
            p = p + 1;
            assert(read_views(out@) =~= before + Seq::new(p as nat, |q: int| ReadView::Probe(u[i as int], q as nat)));
        }
        proof {
            assert(u.take(i + 1).drop_last() =~= u.take(i as int));
            assert(u.take(i + 1).last() == u[i as int]);
            assert(probe_reads(u.take(i + 1), probes as nat) =~= before + Seq::new(
                probes as nat,
                |q: int| ReadView::Probe(u[i as int], q as nat),
            ));
        }
        i = i + 1;
    }
    assert(u.take(ulibs@.len() as int) =~= u);
    let ghost after_probes = read_views(out@);
    assert(after_probes == probe_reads(u, probes as nat));
    if opts.read_files {
        match &opts.roots.home {
            Some(home) => push_root_reads(&mut out, RootKind::Home, home.as_str(), &ulibs),
            None => {
                assert(read_views(out@) =~= after_probes + root_reads(RootKind::Home, None, u));
            },
        }
        assert(read_views(out@) == after_probes + root_reads(RootKind::Home, opts.view().home, u));
        let ghost after_home = read_views(out@);
        push_root_reads(&mut out, RootKind::Work, opts.roots.work.as_str(), &ulibs);
        assert(read_views(out@) == after_home + root_reads(RootKind::Work, Some(opts.view().work), u));
        let ghost after_work = read_views(out@);
        match &opts.single_file {
            Some(path) => {
                out.push(ConfigRead::SingleFile { path: path.clone(), explicit: true });
                assert(read_views(out@) =~= after_work + seq![ReadView::SingleFile(path@, true)]);
            },
            None => {
                assert(read_views(out@) =~= after_work + Seq::<ReadView>::empty());
            },
        }
        assert(read_views(out@) =~= after_probes + (root_reads(RootKind::Home, opts.view().home, u)
            + root_reads(RootKind::Work, Some(opts.view().work), u) + match opts.view().single_file {
            Some(p) => seq![ReadView::SingleFile(p, true)],
            None => Seq::empty(),
        }));
    } else {
        assert(read_views(out@) =~= after_probes + Seq::<ReadView>::empty());
    }
    let ghost after_files = read_views(out@);
    let sites = &opts.site_sources;
    let ghost sv = symbol_views(sites@);
    let mut k: usize = 0;
    while k < sites.len()
        invariant
            sv == symbol_views(sites@),
            k <= sites@.len(),
            read_views(out@) == after_files + sv.take(k as int).map_values(|s: SymbolView| ReadView::Site(s)),
        decreases sites@.len() - k,
    {
        let ghost prev = out@;
        out.push(ConfigRead::Site { site: sites[k].copy() });
        assert(out@.drop_last() =~= prev);
        assert(out@.last().view() == ReadView::Site(sv[k as int]));
        assert(read_views(out@) =~= read_views(prev).push(out@.last().view()));
        assert(sv.take(k + 1).map_values(|s: SymbolView| ReadView::Site(s)) =~= sv.take(k as int).map_values(
            |s: SymbolView| ReadView::Site(s),
        ).push(ReadView::Site(sv[k as int])));
        k = k + 1;
        assert(read_views(out@) =~= after_files + sv.take(k as int).map_values(|s: SymbolView| ReadView::Site(s)));
    }
    assert(sv.take(sites@.len() as int) =~= sv);
    assert(read_views(out@) =~= config_reads_spec(opts.view(), symbol_views(libs@), probes as nat));
    out
}


// ---------------------------------------------------------------------------
// What each read adds
// ---------------------------------------------------------------------------

/// The state config discovery builds: the sources of the layers read, in
/// merge order; a status for every source checked; the probe reports; and
/// non-fatal diagnostics.
#[derive(Clone, Debug, PartialEq, Eq)]
pub struct ConfigDiscovery {
    pub layers: Vec<ConfigSource>,
    pub source_reports: Vec<ConfigSourceReport>,
    pub probe_reports: Vec<ConfigProbeReport>,
    pub diagnostics: Vec<String>,
    pub secret_fields: Vec<ConfigSecretField>,
}

/// Mathematical form of the discovery state.
pub struct DiscoveryView {
    pub layers: Seq<ConfigSourceView>,
    pub reports: Seq<(ConfigSourceView, SourceStatus)>,
    pub probes: Seq<ConfigProbeReport>,
    pub diagnostics: Seq<Seq<char>>,
    /// Secret fields, by library and key, without repeats.
    pub secrets: Seq<(SymbolView, Seq<char>)>,
}

pub open spec fn source_views(v: Seq<ConfigSource>) -> Seq<ConfigSourceView> {
    v.map_values(|s: ConfigSource| s.view())
}

pub open spec fn report_views(v: Seq<ConfigSourceReport>) -> Seq<(ConfigSourceView, SourceStatus)> {
    v.map_values(|r: ConfigSourceReport| (r.source.view(), r.status))
}

pub open spec fn text_views(v: Seq<String>) -> Seq<Seq<char>> {
    v.map_values(|s: String| s@)
}

pub open spec fn secret_views(v: Seq<ConfigSecretField>) -> Seq<(SymbolView, Seq<char>)> {
    v.map_values(|f: ConfigSecretField| (f.lib.view(), f.key@))
}

impl ConfigDiscovery {
    pub open spec fn view(&self) -> DiscoveryView {
        DiscoveryView {
            layers: source_views(self.layers@),
            reports: report_views(self.source_reports@),
            probes: self.probe_reports@,
            diagnostics: text_views(self.diagnostics@),
            secrets: secret_views(self.secret_fields@),
        }
    }
}

/// The state after a layer from a source is added: the source is found.
pub open spec fn with_layer(v: DiscoveryView, s: ConfigSourceView) -> DiscoveryView {
    DiscoveryView { layers: v.layers.push(s), reports: v.reports.push((s, SourceStatus::Found)), ..v }
}

/// The state after a source status is recorded.
pub open spec fn with_report(v: DiscoveryView, s: ConfigSourceView, status: SourceStatus) -> DiscoveryView {
    DiscoveryView { reports: v.reports.push((s, status)), ..v }
}

/// The state after a diagnostic is recorded.
pub open spec fn with_diagnostic(v: DiscoveryView, d: Seq<char>) -> DiscoveryView {
    DiscoveryView { diagnostics: v.diagnostics.push(d), ..v }
}

/// Secret fields after adding `new` one by one, each unless already there.
pub open spec fn with_secrets(
    kept: Seq<(SymbolView, Seq<char>)>,
    new: Seq<(SymbolView, Seq<char>)>,
) -> Seq<(SymbolView, Seq<char>)>
    decreases new.len(),
{
    if new.len() == 0 {
        kept
    } else {
        let before = with_secrets(kept, new.drop_last());
        if before.contains(new.last()) {
            before
        } else {
            before.push(new.last())
        }
    }
}

/// Adding secret field declarations keeps every field recorded once: the
/// result holds no repeats, keeps what was there, and holds exactly the
/// fields that were there or were added.
pub proof fn law_secret_fields_recorded_once(
    kept: Seq<(SymbolView, Seq<char>)>,
    new: Seq<(SymbolView, Seq<char>)>,
)
    requires
        kept.no_duplicates(),
    ensures
        with_secrets(kept, new).no_duplicates(),
        kept.is_prefix_of(with_secrets(kept, new)),
        forall|x: (SymbolView, Seq<char>)|
            #[trigger] with_secrets(kept, new).contains(x) <==> (kept.contains(x) || new.contains(x)),
    decreases new.len(),
{
    if new.len() > 0 {
        let rest = new.drop_last();
        law_secret_fields_recorded_once(kept, rest);
        let before = with_secrets(kept, rest);
        let x = new.last();
        assert forall|y: (SymbolView, Seq<char>)| new.contains(y) <==> (rest.contains(y) || y == x) by {
            if new.contains(y) {
                let j = choose|j: int| 0 <= j < new.len() && new[j] == y;
                if j < new.len() - 1 {
                    assert(rest[j] == y);
                }
            }
            if rest.contains(y) {
                let j = choose|j: int| 0 <= j < rest.len() && rest[j] == y;
                assert(new[j] == y);
            }
            if y == x {
                assert(new[new.len() - 1] == y);
            }
        }
        if !before.contains(x) {
            let after = before.push(x);
            assert forall|i: int, j: int| 0 <= i < j < after.len() implies after[i] != after[j] by {
                if j == after.len() - 1 {
                    assert(after[i] == before[i]);
                }
            }
            assert forall|y: (SymbolView, Seq<char>)| after.contains(y) <==> (before.contains(y) || y == x) by {
                if after.contains(y) {
                    let j = choose|j: int| 0 <= j < after.len() && after[j] == y;
                    if j < before.len() {
                        assert(before[j] == y);
                    }
                }
                if before.contains(y) {
                    let j = choose|j: int| 0 <= j < before.len() && before[j] == y;
                    assert(after[j] == y);
                }
                if y == x {
                    assert(after[before.len() as int] == y);
                }
            }
        }
    }
}

/// What reading a library's file under a root gave.
#[derive(Clone, Debug, PartialEq, Eq)]
pub enum LibFileOutcome {
    /// The library has no config path; the error's text.
    NoPath { error: String },
    /// No file at the path.
    Missing { path: String },
    /// The file could not be read; the error's text.
    Unreadable { path: String, error: String },
    /// The file did not decode as a config table; the decoder's error text.
    Undecodable { path: String, error: String },
    /// The table is not a valid config table of the library; the error text.
    Invalid { path: String, error: String },
    /// The file gave a layer.
    Loaded { path: String },
}

/// What reading a shared config Dir file gave.
#[derive(Clone, Debug, PartialEq, Eq)]
pub enum FileOutcome {
    Missing,
    /// The file could not be read; the error's text.
    Unreadable { error: String },
    /// The file did not decode as a normalized config Dir; the error text.
    Undecodable { error: String },
    Loaded,
}

/// What reading a config site gave.
#[derive(Clone, Debug, PartialEq, Eq)]
pub enum SiteOutcome {
    /// No site is registered under the symbol.
    Missing,
    /// The site's value did not read as a config Dir; the error text.
    Unreadable { error: String },
    Loaded,
}

/// The config source of a library's file under a root.
pub open spec fn lib_file_source(kind: RootKind, path: Seq<char>) -> ConfigSourceView {
    match kind {
        RootKind::Home => ConfigSourceView::HomeFile(path),
        RootKind::Work => ConfigSourceView::WorkFile(path),
    }
}

/// What a library file's outcome adds.
pub open spec fn after_lib_file(v: DiscoveryView, kind: RootKind, lib: SymbolView, o: LibFileOutcome) -> DiscoveryView {
    match o {
        LibFileOutcome::NoPath { error } => with_diagnostic(
            v,
            "skip config path for "@ + qualified_text(lib) + ": "@ + error@,
        ),
        LibFileOutcome::Missing { path } => with_report(v, lib_file_source(kind, path@), SourceStatus::Missing),
        LibFileOutcome::Unreadable { path, error } => with_diagnostic(
            with_report(v, lib_file_source(kind, path@), SourceStatus::Rejected),
            "read config "@ + path@ + ": "@ + error@,
        ),
        LibFileOutcome::Undecodable { path, error } => with_diagnostic(
            with_report(v, lib_file_source(kind, path@), SourceStatus::Rejected),
            "decode config table "@ + path@ + ": "@ + error@,
        ),
        LibFileOutcome::Invalid { path, error } => with_diagnostic(
            with_report(v, lib_file_source(kind, path@), SourceStatus::Rejected),
            "read config "@ + path@ + ": "@ + error@,
        ),
        LibFileOutcome::Loaded { path } => with_layer(v, lib_file_source(kind, path@)),
    }
}

/// What a shared config file's outcome adds; only an explicit file's
/// absence is a diagnostic.
pub open spec fn after_single_file(v: DiscoveryView, path: Seq<char>, explicit: bool, o: FileOutcome) -> DiscoveryView {
    let s = ConfigSourceView::SingleFile(path);
    match o {
        FileOutcome::Missing => if explicit {
            with_diagnostic(with_report(v, s, SourceStatus::Missing), "config file not found: "@ + path)
        } else {
            with_report(v, s, SourceStatus::Missing)
        },
        FileOutcome::Unreadable { error } => with_diagnostic(
            with_report(v, s, SourceStatus::Rejected),
            "read config "@ + path + ": "@ + error@,
        ),
        FileOutcome::Undecodable { error } => with_diagnostic(
            with_report(v, s, SourceStatus::Rejected),
            "decode config dir "@ + path + ": "@ + error@,
        ),
        FileOutcome::Loaded => with_layer(v, s),
    }
}

/// What a config site's outcome adds.
pub open spec fn after_site(v: DiscoveryView, site: SymbolView, o: SiteOutcome) -> DiscoveryView {
    let s = ConfigSourceView::Site(site);
    match o {
        SiteOutcome::Missing => with_diagnostic(
            with_report(v, s, SourceStatus::Missing),
            "config site not found: "@ + qualified_text(site),
        ),
        SiteOutcome::Unreadable { error } => with_diagnostic(
            with_report(v, s, SourceStatus::Rejected),
            "read config site "@ + qualified_text(site) + ": "@ + error@,
        ),
        SiteOutcome::Loaded => with_layer(v, s),
    }
}

/// One read that discovery records, with what it gave.
pub enum DiscoveryEvent {
    LibFile { kind: RootKind, lib: SymbolView, outcome: LibFileOutcome },
    SingleFile { path: Seq<char>, explicit: bool, outcome: FileOutcome },
    Site { site: SymbolView, outcome: SiteOutcome },
}

/// What recording one read adds.
pub open spec fn after_event(v: DiscoveryView, e: DiscoveryEvent) -> DiscoveryView {
    match e {
        DiscoveryEvent::LibFile { kind, lib, outcome } => after_lib_file(v, kind, lib, outcome),
        DiscoveryEvent::SingleFile { path, explicit, outcome } => after_single_file(v, path, explicit, outcome),
        DiscoveryEvent::Site { site, outcome } => after_site(v, site, outcome),
    }
}

/// The state after recording reads in order.
pub open spec fn after_events(v: DiscoveryView, es: Seq<DiscoveryEvent>) -> DiscoveryView
    decreases es.len(),
{
    if es.len() == 0 {
        v
    } else {
        after_event(after_events(v, es.drop_last()), es.last())
    }
}

/// The source of the layer a read gave, if it gave one.
pub open spec fn loaded_source(e: DiscoveryEvent) -> Seq<ConfigSourceView> {
    match e {
        DiscoveryEvent::LibFile { kind, outcome: LibFileOutcome::Loaded { path }, .. } => seq![
            lib_file_source(kind, path@),
        ],
        DiscoveryEvent::SingleFile { path, outcome: FileOutcome::Loaded, .. } => seq![
            ConfigSourceView::SingleFile(path),
        ],
        DiscoveryEvent::Site { site, outcome: SiteOutcome::Loaded } => seq![ConfigSourceView::Site(site)],
        _ => Seq::empty(),
    }
}

/// The sources of the layers reads gave, in order.
pub open spec fn loaded_sources(es: Seq<DiscoveryEvent>) -> Seq<ConfigSourceView>
    decreases es.len(),
{
    if es.len() == 0 {
        Seq::empty()
    } else {
        loaded_sources(es.drop_last()) + loaded_source(es.last())
    }
}

/// Discovery's layers come in the order of the reads that gave them: after
/// recording reads, the layers are the earlier ones followed by the source
/// of every read that gave a layer, in read order, and nothing else.
pub proof fn law_layers_follow_read_order(v: DiscoveryView, es: Seq<DiscoveryEvent>)
    ensures
        after_events(v, es).layers == v.layers + loaded_sources(es),
    decreases es.len(),
{
    if es.len() == 0 {
        assert(v.layers + Seq::<ConfigSourceView>::empty() =~= v.layers);
    } else {
        law_layers_follow_read_order(v, es.drop_last());
        let prev = after_events(v, es.drop_last());
        let e = es.last();
        assert(after_event(prev, e).layers =~= prev.layers + loaded_source(e));
        assert(v.layers + loaded_sources(es.drop_last()) + loaded_source(e) =~= v.layers + (
        loaded_sources(es.drop_last()) + loaded_source(e)));
    }
}

impl ConfigDiscovery {
    /// Nothing discovered yet.
    pub fn new() -> (r: Self)
        ensures
            r.view() == (DiscoveryView {
                layers: Seq::empty(),
                reports: Seq::empty(),
                probes: Seq::empty(),
                diagnostics: Seq::empty(),
                secrets: Seq::empty(),
            }),
    {
        let r = ConfigDiscovery {
            layers: Vec::new(),
            source_reports: Vec::new(),
            probe_reports: Vec::new(),
            diagnostics: Vec::new(),
            secret_fields: Vec::new(),
        };
        assert(secret_views(r.secret_fields@) =~= Seq::<(SymbolView, Seq<char>)>::empty());
        assert(source_views(r.layers@) =~= Seq::<ConfigSourceView>::empty());
        assert(report_views(r.source_reports@) =~= Seq::<(ConfigSourceView, SourceStatus)>::empty());
        assert(text_views(r.diagnostics@) =~= Seq::<Seq<char>>::empty());
        r
    }

    /// Records a source's status.
    pub fn push_source_report(&mut self, source: ConfigSource, status: SourceStatus)
        ensures
            final(self).view() == with_report(old(self).view(), source.view(), status),
    {
        let ghost v = source.view();
        let ghost prev = self.source_reports@;
        self.source_reports.push(ConfigSourceReport { source, status });
        assert(self.source_reports@.drop_last() =~= prev);
        assert(report_views(self.source_reports@) =~= report_views(prev).push((v, status)));
    }

    /// Adds a layer read from a source, which is then found.
    pub fn push_layer(&mut self, source: ConfigSource)
        ensures
            final(self).view() == with_layer(old(self).view(), source.view()),
    {
        let ghost v = source.view();
        let copy = copy_source(&source);
        self.push_source_report(source, SourceStatus::Found);
        let ghost prev = self.layers@;
        self.layers.push(copy);
        assert(self.layers@.drop_last() =~= prev);
        assert(source_views(self.layers@) =~= source_views(prev).push(v));
    }

    /// Records a probe report.
    pub fn push_probe_report(&mut self, report: ConfigProbeReport)
        ensures
            final(self).view() == (DiscoveryView { probes: old(self).view().probes.push(report), ..old(self).view() }),
    {
        self.probe_reports.push(report);
    }

    fn push_diagnostic(&mut self, diagnostic: String)
        ensures
            final(self).view() == with_diagnostic(old(self).view(), diagnostic@),
    {
        let ghost prev = self.diagnostics@;
        let ghost d = diagnostic@;
        self.diagnostics.push(diagnostic);
        assert(self.diagnostics@.drop_last() =~= prev);
        assert(text_views(self.diagnostics@) =~= text_views(prev).push(d));
    }

    /// Adds secret field declarations, skipping any already recorded.
    pub fn extend_secret_fields(&mut self, fields: Vec<ConfigSecretField>)
        ensures
            final(self).view() == (DiscoveryView {
                secrets: with_secrets(old(self).view().secrets, secret_views(fields@)),
                ..old(self).view()
            }),
    {
        let mut i: usize = 0;
        while i < fields.len()
            invariant
                i <= fields.len(),
                self.view() == (DiscoveryView {
                    secrets: with_secrets(old(self).view().secrets, secret_views(fields@).take(i as int)),
                    ..old(self).view()
                }),
            decreases fields.len() - i,
        {
            let f = &fields[i];
            let ghost item = (f.lib.view(), f.key@);
            let mut seen = false;
            let mut k: usize = 0;
            while k < self.secret_fields.len() && !seen
                invariant
                    k <= self.secret_fields.len(),
                    item == (f.lib.view(), f.key@),
                    seen ==> secret_views(self.secret_fields@).contains(item),
                    !seen ==> forall|j: int| 0 <= j < k ==> secret_views(self.secret_fields@)[j] != item,
                decreases self.secret_fields.len() - k,
            {
                let g = &self.secret_fields[k];
                if g.lib.same(&f.lib) && g.key == f.key {
                    seen = true;
                    assert(secret_views(self.secret_fields@)[k as int] == item);
                }
                k = k + 1;
            }
            proof {
                let t = secret_views(fields@).take(i as int);
                assert(secret_views(fields@).take(i as int + 1) =~= t.push(item));
                assert(t.push(item).drop_last() =~= t);
                assert(t.push(item).last() == item);
                if !seen {
                    assert(!secret_views(self.secret_fields@).contains(item));
                }
            }
            if !seen {
                let ghost prev = self.secret_fields@;
                self.secret_fields.push(ConfigSecretField { lib: f.lib.copy(), key: f.key.clone() });
                assert(secret_views(self.secret_fields@) =~= secret_views(prev).push((f.lib.view(), f.key@)));
            }
            i = i + 1;
        }
        assert(secret_views(fields@).take(fields.len() as int) =~= secret_views(fields@));
    }

    /// Records a probe's run: the layer it emitted, if any, then its report.
    pub fn record_probe(&mut self, layer: Option<ConfigSource>, report: ConfigProbeReport)
        ensures
            final(self).view() == (DiscoveryView {
                probes: match layer {
                    Some(s) => with_layer(old(self).view(), s.view()),
                    None => old(self).view(),
                }.probes.push(report),
                ..match layer {
                    Some(s) => with_layer(old(self).view(), s.view()),
                    None => old(self).view(),
                }
            }),
    {
        match layer {
            Some(s) => self.push_layer(s),
            None => {},
        }
        self.push_probe_report(report);
    }

    /// Records what reading a library's file under a root gave.
    pub fn record_lib_file(&mut self, kind: RootKind, lib: &Symbol, outcome: LibFileOutcome)
        ensures
            final(self).view() == after_lib_file(old(self).view(), kind, lib.view(), outcome),
    {
        let ghost o = outcome;
        match outcome {
            LibFileOutcome::NoPath { error } => {
                let mut d = concat2("skip config path for ", lib.as_qualified_str().as_str());
                d.append(": ");
                d.append(error.as_str());
                self.push_diagnostic(d);
            },
            LibFileOutcome::Missing { path } => {
                self.push_source_report(file_source(kind, path), SourceStatus::Missing);
            },
            LibFileOutcome::Unreadable { path, error } => {
                let d = read_message("read config ", path.as_str(), error.as_str());
                self.push_source_report(file_source(kind, path), SourceStatus::Rejected);
                self.push_diagnostic(d);
            },
            LibFileOutcome::Undecodable { path, error } => {
                let d = read_message("decode config table ", path.as_str(), error.as_str());
                self.push_source_report(file_source(kind, path), SourceStatus::Rejected);
                self.push_diagnostic(d);
            },
            LibFileOutcome::Invalid { path, error } => {
                let d = read_message("read config ", path.as_str(), error.as_str());
                self.push_source_report(file_source(kind, path), SourceStatus::Rejected);
                self.push_diagnostic(d);
            },
            LibFileOutcome::Loaded { path } => {
                self.push_layer(file_source(kind, path));
            },
        }
    }

    /// Records what reading a shared config Dir file gave.
    pub fn record_single_file(&mut self, path: &str, explicit: bool, outcome: FileOutcome)
        ensures
            final(self).view() == after_single_file(old(self).view(), path@, explicit, outcome),
    {
        let source = ConfigSource::SingleFile { path: owned(path) };
        match outcome {
            FileOutcome::Missing => {
                self.push_source_report(source, SourceStatus::Missing);
                if explicit {
                    self.push_diagnostic(concat2("config file not found: ", path));
                }
            },
            FileOutcome::Unreadable { error } => {
                self.push_source_report(source, SourceStatus::Rejected);
                self.push_diagnostic(read_message("read config ", path, error.as_str()));
            },
            FileOutcome::Undecodable { error } => {
                self.push_source_report(source, SourceStatus::Rejected);
                self.push_diagnostic(read_message("decode config dir ", path, error.as_str()));
            },
            FileOutcome::Loaded => {
                self.push_layer(source);
            },
        }
    }

    /// Records what reading a config site gave.
    pub fn record_site(&mut self, site: &Symbol, outcome: SiteOutcome)
        ensures
            final(self).view() == after_site(old(self).view(), site.view(), outcome),
    {
        let source = ConfigSource::Site { site: site.copy() };
        let name = site.as_qualified_str();
        match outcome {
            SiteOutcome::Missing => {
                self.push_source_report(source, SourceStatus::Missing);
                self.push_diagnostic(concat2("config site not found: ", name.as_str()));
            },
            SiteOutcome::Unreadable { error } => {
                self.push_source_report(source, SourceStatus::Rejected);
                self.push_diagnostic(read_message("read config site ", name.as_str(), error.as_str()));
            },
            SiteOutcome::Loaded => {
                self.push_layer(source);
            },
        }
    }
}

/// `lead`, a path or name, `": "` and an error.
fn read_message(lead: &str, what: &str, error: &str) -> (r: String)
    ensures
        r@ == lead@ + what@ + ": "@ + error@,
{
    let mut r = concat2(lead, what);
    r.append(": ");
    r.append(error);
    r
}

fn file_source(kind: RootKind, path: String) -> (r: ConfigSource)
    ensures
        r.view() == lib_file_source(kind, path@),
{
    match kind {
        RootKind::Home => ConfigSource::HomeFile { path },
        RootKind::Work => ConfigSource::WorkFile { path },
    }
}

fn copy_source(s: &ConfigSource) -> (r: ConfigSource)
    ensures
        r.view() == s.view(),
{
    match s {
        ConfigSource::BuiltIn { lib } => ConfigSource::BuiltIn { lib: lib.copy() },
        ConfigSource::Probe { probe, mode } => ConfigSource::Probe { probe: probe.copy(), mode: *mode },
        ConfigSource::HomeFile { path } => ConfigSource::HomeFile { path: path.clone() },
        ConfigSource::WorkFile { path } => ConfigSource::WorkFile { path: path.clone() },
        ConfigSource::SingleFile { path } => ConfigSource::SingleFile { path: path.clone() },
        ConfigSource::Site { site } => ConfigSource::Site { site: site.copy() },
        ConfigSource::Explicit { label } => ConfigSource::Explicit { label: label.clone() },
    }
}


// ---------------------------------------------------------------------------
// Where a library's file is
// ---------------------------------------------------------------------------

/// A character allowed in a config path segment: an ASCII letter or
/// digit, `_`, `-` or `.`.
pub open spec fn is_config_path_char(c: char) -> bool {
    ('a' <= c && c <= 'z') || ('A' <= c && c <= 'Z') || ('0' <= c && c <= '9') || c == '_' || c
        == '-' || c == '.'
}

/// Whether a segment may stand in a config path: a legal table segment
/// (nonempty, not `.` or `..`, no `/` or `\\`) of allowed characters only.
pub open spec fn is_safe_config_segment(seg: Seq<char>) -> bool {
    &&& seg.len() > 0
    &&& seg != "."@
    &&& seg != ".."@
    &&& !has_char(seg, '/')
    &&& !has_char(seg, '\\')
    &&& forall|i: int| 0 <= i < seg.len() ==> is_config_path_char(#[trigger] seg[i])
}

/// The first segment that may not stand in a config path.
pub open spec fn first_unsafe_segment(segs: Seq<Seq<char>>) -> Option<Seq<char>>
    decreases segs.len(),
{
    if segs.len() == 0 {
        None
    } else if !is_safe_config_segment(segs[0]) {
        Some(segs[0])
    } else {
        first_unsafe_segment(segs.drop_first())
    }
}

/// `libs`, then each segment after a `/`.
pub open spec fn libs_dir(segs: Seq<Seq<char>>) -> Seq<char>
    decreases segs.len(),
{
    if segs.len() == 0 {
        "libs"@
    } else {
        libs_dir(segs.drop_last()) + "/"@ + segs.last()
    }
}

/// A file name with its extension set to `toml`: what follows its last
/// `.` (when that `.` does not begin it) is replaced, else `.toml` is added.
pub open spec fn with_toml_extension(name: Seq<char>) -> Seq<char> {
    match last_index_before(name, '.', name.len() as int) {
        Some(i) => if i > 0 {
            name.take(i) + ".toml"@
        } else {
            name + ".toml"@
        },
        None => name + ".toml"@,
    }
}

/// The path of a library's config file relative to a root: the segments of
/// its qualified text, split at `/`, under `libs`, the last with the
/// extension `toml`; or the error naming the first segment that may not
/// stand in a path.
pub open spec fn lib_config_path_of(lib: SymbolView) -> Result<Seq<char>, Seq<char>> {
    let segs = split_seq(qualified_text(lib), '/');
    match first_unsafe_segment(segs) {
        Some(bad) => Err("invalid config path segment `"@ + bad + "`"@),
        None => Ok(libs_dir(segs.drop_last()) + "/"@ + with_toml_extension(segs.last())),
    }
}

/// Calls `sim_config::lib_config_path` on the library's kernel symbol: the
/// relative path as text, or the error's text. That function splits the
/// symbol's qualified text at `/`, refuses the first segment that is not a
/// legal table segment of ASCII letters, digits, `_`, `-` and `.`, pushes
/// the segments under `libs` and sets the extension `toml`.
#[verifier::external_body]
fn config_path_of(lib: &Symbol) -> (r: Result<String, String>)
    ensures
        match lib_config_path_of(lib.view()) {
            Ok(p) => r matches Ok(x) && x@ == p,
            Err(e) => r matches Err(x) && x@ == e,
        },
{
    let symbol = match &lib.namespace {
        Some(namespace) => sim_kernel::Symbol::qualified(namespace.as_str(), lib.name.as_str()),
        None => sim_kernel::Symbol::new(lib.name.as_str()),
    };
    match sim_config::lib_config_path(&symbol) {
        Ok(path) => Ok(path.to_string_lossy().into_owned()),
        Err(err) => Err(err.to_string()),
    }
}

/// A library's file under a root, from its relative config path (or the
/// error that it has none).
pub fn join_lib_path(root: &str, relative: Result<String, String>) -> (r: Result<String, String>)
    ensures
        match relative {
            Ok(p) => r matches Ok(x) && x@ == path_join(root@, p@),
            Err(e) => r matches Err(x) && x@ == e@,
        },
{
    match relative {
        Ok(p) => Ok(join_path(root, p.as_str())),
        Err(e) => Err(e),
    }
}

/// A library's file under a root, or the text of the error when the
/// library has no config path.
pub fn lib_file_path(root: &str, lib: &Symbol) -> (r: Result<String, String>)
    ensures
        match lib_config_path_of(lib.view()) {
            Ok(p) => r matches Ok(x) && x@ == path_join(root@, p),
            Err(e) => r matches Err(x) && x@ == e,
        },
{
    join_lib_path(root, config_path_of(lib))
}

} // verus!
