use sim_run_core::config_discovery::{
    config_reads, join_lib_path, lib_file_path, ConfigDiscovery, ConfigRead, FileOutcome,
    LibFileOutcome, RootKind, SiteOutcome,
};
use sim_run_core::report::ConfigSecretField;
use sim_run_core::status_report::{
    format_config_sources, LoadedStateReport, ConfigProbeReport, ConfigProbeStatus, ConfigSource, ConfigSourceReport, ProbeMode,
};
use sim_run_core::{
    ConfigLoadOptions, ConfigRoots, LibSourceSpec, LoadReceipt, LoadReceiptRole, SourceStatus, Symbol,
};

fn sym(ns: &str, name: &str) -> Symbol {
    Symbol::qualified(ns.to_owned(), name.to_owned())
}

fn options() -> ConfigLoadOptions {
    let mut opts =
        ConfigLoadOptions::with_roots(ConfigRoots::new(Some("/h".to_owned()), "/w".to_owned()));
    opts.single_file = Some("/etc/sim.toml".to_owned());
    opts.site_sources = vec![sym("config", "runtime")];
    opts
}

fn lib_file(kind: RootKind, root: &str, lib: Symbol) -> ConfigRead {
    ConfigRead::LibFile { kind, root: root.to_owned(), lib }
}

#[test]
fn discovery_reads_probes_then_home_work_explicit_and_sites() {
    let libs = vec![sym("sim", "cookbook"), sym("stream", "host"), sym("sim", "cookbook")];
    let reads = config_reads(&options(), &libs, 1);
    assert_eq!(
        reads,
        vec![
            ConfigRead::Probe { lib: sym("sim", "cookbook"), probe: 0 },
            ConfigRead::Probe { lib: sym("stream", "host"), probe: 0 },
            lib_file(RootKind::Home, "/h", sym("sim", "cookbook")),
            lib_file(RootKind::Home, "/h", sym("stream", "host")),
            ConfigRead::SingleFile { path: "/h/sim.toml".to_owned(), explicit: false },
            lib_file(RootKind::Work, "/w", sym("sim", "cookbook")),
            lib_file(RootKind::Work, "/w", sym("stream", "host")),
            ConfigRead::SingleFile { path: "/w/sim.toml".to_owned(), explicit: false },
            ConfigRead::SingleFile { path: "/etc/sim.toml".to_owned(), explicit: true },
            ConfigRead::Site { site: sym("config", "runtime") },
        ]
    );
    let mut no_files = options();
    no_files.read_files = false;
    no_files.roots.home = None;
    assert_eq!(
        config_reads(&no_files, &libs, 0),
        vec![ConfigRead::Site { site: sym("config", "runtime") }]
    );
}

#[test]
fn library_files_live_under_libs_in_each_root() {
    assert_eq!(
        lib_file_path("/h", &sym("sim", "cookbook")).unwrap(),
        "/h/libs/sim/cookbook.toml"
    );
    assert!(lib_file_path("/h", &sym("..", "x")).is_err());
    assert_eq!(join_lib_path("/w/", Ok("libs/a.toml".to_owned())).unwrap(), "/w/libs/a.toml");
    assert_eq!(join_lib_path("/w", Err("bad".to_owned())).unwrap_err(), "bad");
}

#[test]
fn outcomes_become_reports_layers_and_diagnostics() {
    let mut state = ConfigDiscovery::new();
    state.record_lib_file(
        RootKind::Home,
        &sym("sim", "cookbook"),
        LibFileOutcome::Loaded { path: "/h/libs/sim/cookbook.toml".to_owned() },
    );
    state.record_single_file("/h/sim.toml", false, FileOutcome::Missing);
    state.record_lib_file(
        RootKind::Work,
        &sym("sim", "cookbook"),
        LibFileOutcome::Loaded { path: "/w/libs/sim/cookbook.toml".to_owned() },
    );
    state.record_single_file("/etc/sim.toml", true, FileOutcome::Missing);
    state.record_site(&sym("config", "runtime"), SiteOutcome::Missing);
    state.record_lib_file(
        RootKind::Work,
        &sym("bad", "lib"),
        LibFileOutcome::NoPath { error: "invalid segment".to_owned() },
    );
    state.record_lib_file(
        RootKind::Home,
        &sym("x", "y"),
        LibFileOutcome::Undecodable { path: "/h/libs/x/y.toml".to_owned(), error: "line 1".to_owned() },
    );
    state.record_single_file("/w/sim.toml", false, FileOutcome::Unreadable { error: "denied".to_owned() });
    state.record_site(&sym("a", "b"), SiteOutcome::Unreadable { error: "not a dir".to_owned() });
    let report = ConfigProbeReport {
        probe: sym("config", "fake"),
        lib: sym("stream", "host"),
        mode: ProbeMode::Modeled,
        status: ConfigProbeStatus::Applied,
        emitted_keys: vec!["backend".to_owned()],
    };
    state.record_probe(
        Some(ConfigSource::Probe { probe: sym("config", "fake"), mode: ProbeMode::Modeled }),
        report.clone(),
    );

    assert_eq!(
        state.layers,
        vec![
            ConfigSource::HomeFile { path: "/h/libs/sim/cookbook.toml".to_owned() },
            ConfigSource::WorkFile { path: "/w/libs/sim/cookbook.toml".to_owned() },
            ConfigSource::Probe { probe: sym("config", "fake"), mode: ProbeMode::Modeled },
        ]
    );
    let statuses: Vec<SourceStatus> = state.source_reports.iter().map(|r: &ConfigSourceReport| r.status).collect();
    assert_eq!(
        statuses,
        vec![
            SourceStatus::Found,
            SourceStatus::Missing,
            SourceStatus::Found,
            SourceStatus::Missing,
            SourceStatus::Missing,
            SourceStatus::Rejected,
            SourceStatus::Rejected,
            SourceStatus::Rejected,
            SourceStatus::Found,
        ]
    );
    assert_eq!(
        state.diagnostics,
        vec![
            "config file not found: /etc/sim.toml".to_owned(),
            "config site not found: config/runtime".to_owned(),
            "skip config path for bad/lib: invalid segment".to_owned(),
            "decode config table /h/libs/x/y.toml: line 1".to_owned(),
            "read config /w/sim.toml: denied".to_owned(),
            "read config site a/b: not a dir".to_owned(),
        ]
    );
    assert_eq!(state.probe_reports, vec![report]);
}

#[test]
fn report_snapshots_carry_receipts_and_discovered_state() {
    let mut state = ConfigDiscovery::new();
    state.record_single_file("/etc/sim.toml", true, FileOutcome::Missing);
    let receipt = LoadReceipt {
        lib: Symbol::new("codec-lisp".to_owned()),
        version: "0.1.0".to_owned(),
        target: "Native".to_owned(),
        role: LoadReceiptRole::Library,
        requested_source: LibSourceSpec::Host("codec/lisp".to_owned()),
        resolved_source: LibSourceSpec::Host("codec/lisp".to_owned()),
        dependencies: vec![],
        exports: vec![],
    };
    let report = LoadedStateReport::from_state(&vec![receipt], state.clone(), vec![], vec![]);
    assert_eq!(report.libs.len(), 1);
    assert_eq!(report.libs[0].lib, Symbol::new("codec-lisp".to_owned()));
    assert_eq!(report.libs[0].requested, "host:codec/lisp");
    assert_eq!(report.config_sources, state.source_reports);
    assert_eq!(
        format_config_sources(&report),
        "config sources:\n- source=single-file:/etc/sim.toml status=missing\ndiagnostics:\n- config file not found: /etc/sim.toml\n"
    );
}

#[test]
fn secret_fields_are_recorded_once_in_first_seen_order() {
    let field = |lib: Symbol, key: &str| ConfigSecretField { lib, key: key.to_owned() };
    let mut state = ConfigDiscovery::new();
    state.extend_secret_fields(vec![
        field(sym("sim", "demo"), "token"),
        field(sym("sim", "demo"), "password"),
        field(sym("sim", "demo"), "token"),
    ]);
    state.extend_secret_fields(vec![
        field(sym("stream", "host"), "token"),
        field(sym("sim", "demo"), "password"),
    ]);
    assert_eq!(
        state.secret_fields,
        vec![
            field(sym("sim", "demo"), "token"),
            field(sym("sim", "demo"), "password"),
            field(sym("stream", "host"), "token"),
        ]
    );
}

#[test]
fn library_config_paths_follow_the_config_crate() {
    assert_eq!(lib_file_path("/w", &Symbol::new("demo".to_owned())), Ok("/w/libs/demo.toml".to_owned()));
    assert_eq!(
        lib_file_path("/w", &sym("sim", "cook.book")),
        Ok("/w/libs/sim/cook.toml".to_owned())
    );
    assert_eq!(
        lib_file_path("/w", &Symbol::new("..".to_owned())),
        Err("invalid config path segment `..`".to_owned())
    );
    assert_eq!(
        lib_file_path("/w", &sym("sim", "a b")),
        Err("invalid config path segment `a b`".to_owned())
    );
}
