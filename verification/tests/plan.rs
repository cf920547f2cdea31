use sim_run_core::load_plan::{
    boot_codec_source_index, boot_load_plan, config_report_recovery, handoff_error, BootLoadStep, introspection_recovery, BootRecovery,
    boot_with_default_verb_sources, config_lib_for_source, config_libs_for_boot,
    no_codec_error, pre_site_config, push_unique_symbol, set_verb_config_libs, ConfigReportKind,
    VerbConfigLibs, VerbSources,
};
use sim_run_core::reexport::{exports_to_link, ReexportKind, ReexportSpec};
use sim_run_core::{
    parse_args, CliBoot, CliCommand, CliError, ConfigLoadOptions, ConfigRoots, LibSourceSpec,
    Symbol,
};

fn sym(ns: &str, name: &str) -> Symbol {
    Symbol::qualified(ns.to_owned(), name.to_owned())
}

fn boot(items: &[&str]) -> CliBoot {
    let defaults = ConfigLoadOptions::with_roots(ConfigRoots::new(
        Some("/h".to_owned()),
        "./.sim/config".to_owned(),
    ));
    let args = items.iter().map(|s| s.to_string()).collect();
    match parse_args(args, defaults).unwrap() {
        CliCommand::Boot(b) => *b,
        other => panic!("expected boot, got {other:?}"),
    }
}

#[test]
fn default_verb_sources_load_when_verb_has_no_explicit_loads() {
    let defaults = vec![VerbSources {
        verb: "repl".to_owned(),
        sources: vec![LibSourceSpec::Host("app/repl".to_owned())],
    }];
    let b = boot_with_default_verb_sources(boot(&["sim", "--codec", "test", "repl"]), &defaults);
    assert_eq!(b.loads, vec![LibSourceSpec::Host("app/repl".to_owned())]);
    assert_eq!(b.codec, Some("test".to_owned()));
    assert_eq!(b.payload.args, vec!["repl".to_owned()]);
}

#[test]
fn explicit_loads_override_default_verb_sources() {
    let defaults = vec![VerbSources {
        verb: "repl".to_owned(),
        sources: vec![LibSourceSpec::Host("app/default".to_owned())],
    }];
    let b = boot_with_default_verb_sources(
        boot(&["sim", "--codec", "test", "--load", "host:app/explicit", "repl"]),
        &defaults,
    );
    assert_eq!(b.loads, vec![LibSourceSpec::Host("app/explicit".to_owned())]);
    let other = boot_with_default_verb_sources(boot(&["sim", "serve"]), &defaults);
    assert!(other.loads.is_empty());
    let mut bare = boot(&["sim", "repl"]);
    bare.payload.args.clear();
    let none = boot_with_default_verb_sources(bare, &defaults);
    assert!(none.loads.is_empty());
}

#[test]
fn load_boot_discovers_codec_and_explicit_host_lib_configs() {
    let b = boot(&["sim", "--load", "host:test/demo"]);
    let libs = config_libs_for_boot(&b, &Vec::new(), None);
    assert_eq!(libs, vec![sym("codec", "lisp"), sym("test", "demo")]);
}

#[test]
fn config_libs_are_listed_once_in_discovery_order() {
    let b = boot(&[
        "sim",
        "--codec",
        "json",
        "--load",
        "symbol:codec/json",
        "--load",
        "path:./x.wasm",
        "--load",
        "host:app/demo",
        "--native-audio-provider",
        "symbol:audio/jack",
        "serve",
    ]);
    let mut table = Vec::new();
    set_verb_config_libs(&mut table, "serve".to_owned(), vec![sym("app", "demo"), sym("net", "http")]);
    let libs = config_libs_for_boot(&b, &table, Some(&ConfigReportKind::Status));
    assert_eq!(
        libs,
        vec![
            sym("codec", "json"),
            sym("app", "demo"),
            sym("audio", "jack"),
            sym("net", "http"),
            sym("sim", "cookbook"),
            sym("stream", "host"),
            sym("model", "defaults"),
        ]
    );
    let effective = config_libs_for_boot(
        &b,
        &table,
        Some(&ConfigReportKind::Effective { lib: sym("codec", "json") }),
    );
    assert_eq!(
        effective,
        vec![sym("codec", "json"), sym("app", "demo"), sym("audio", "jack"), sym("net", "http")]
    );
}

#[test]
fn setting_a_verb_replaces_its_libs_only() {
    let mut table: Vec<VerbConfigLibs> = Vec::new();
    set_verb_config_libs(&mut table, "a".to_owned(), vec![sym("x", "1")]);
    set_verb_config_libs(&mut table, "b".to_owned(), vec![sym("y", "2")]);
    set_verb_config_libs(&mut table, "a".to_owned(), vec![sym("z", "3")]);
    let entry = |verb: &str| table.iter().find(|e| e.verb == verb).map(|e| e.libs.clone());
    assert_eq!(entry("a"), Some(vec![sym("z", "3")]));
    assert_eq!(entry("b"), Some(vec![sym("y", "2")]));
    assert_eq!(entry("c"), None);
}

#[test]
fn config_lib_of_a_source_and_unique_push() {
    assert_eq!(
        config_lib_for_source(&LibSourceSpec::Symbol("codec/lisp".to_owned())),
        Some(sym("codec", "lisp"))
    );
    assert_eq!(
        config_lib_for_source(&LibSourceSpec::Host("demo".to_owned())),
        Some(Symbol::new("demo".to_owned()))
    );
    assert_eq!(config_lib_for_source(&LibSourceSpec::Path("./x".to_owned())), None);
    let mut v = vec![sym("a", "b")];
    push_unique_symbol(&mut v, sym("a", "b"));
    push_unique_symbol(&mut v, sym("a", "c"));
    assert_eq!(v, vec![sym("a", "b"), sym("a", "c")]);
}

#[test]
fn no_codec_error_and_pre_site_config() {
    let err = no_codec_error("lisp", &CliError::msg("not cached"));
    assert_eq!(
        err.to_string(),
        "no codec 'lisp' available; provide one with --load (not cached)"
    );
    let b = boot(&["sim", "--config-site", "config/runtime", "--config-file", "/c.toml"]);
    let pre = pre_site_config(&b);
    assert!(pre.site_sources.is_empty());
    assert_eq!(pre.roots, b.config.roots);
    assert_eq!(pre.single_file, Some("/c.toml".to_owned()));
    assert_eq!(pre.read_files, b.config.read_files);
}

#[test]
fn self_macro_reexports_defined_by_the_library_are_not_linked() {
    let exports = vec![
        ReexportSpec::new(ReexportKind::Macro, sym("m", "when"), sym("m", "when")),
        ReexportSpec::new(ReexportKind::Macro, sym("m", "unless"), sym("m", "unless")),
        ReexportSpec::new(ReexportKind::Macro, sym("m", "alias"), sym("m", "when")),
        ReexportSpec::new(ReexportKind::Function, sym("f", "g"), sym("f", "g")),
    ];
    let macros = vec![sym("m", "when")];
    assert_eq!(exports_to_link(&exports, &macros), vec![1, 2, 3]);
    assert_eq!(exports_to_link(&exports, &Vec::new()), vec![0, 1, 2, 3]);
}

#[test]
fn failed_boots_recover_as_documented() {
    assert_eq!(introspection_recovery(true, false), BootRecovery::LoadSourcesAlone);
    assert_eq!(introspection_recovery(true, true), BootRecovery::Fail);
    assert_eq!(introspection_recovery(false, false), BootRecovery::Fail);
    let no_codec = CliError::msg("no codec 'lisp' available; provide one with --load (x)");
    let other = CliError::msg("load failed for bytes:3 bytes: bad");
    assert_eq!(config_report_recovery(&other, true, true), BootRecovery::Proceed);
    assert_eq!(config_report_recovery(&other, true, false), BootRecovery::LoadSourcesAlone);
    assert_eq!(config_report_recovery(&no_codec, false, false), BootRecovery::Proceed);
    assert_eq!(config_report_recovery(&other, false, false), BootRecovery::Fail);
    assert_eq!(
        handoff_error(&sym("cli", "main/demo"), &Symbol::new("demo".to_owned()), "boom").to_string(),
        "cli handoff failed for cli/main/demo from demo: boom"
    );
}

#[test]
fn boot_loads_site_sources_then_codec_then_the_rest() {
    let plan = boot_load_plan(3, Some(1), &vec![false, false, true]);
    assert_eq!(
        plan,
        vec![BootLoadStep::Source(2), BootLoadStep::CodecSource(1), BootLoadStep::Source(0)]
    );
    let plan = boot_load_plan(2, None, &vec![]);
    assert_eq!(
        plan,
        vec![BootLoadStep::CodecSymbol, BootLoadStep::Source(0), BootLoadStep::Source(1)]
    );
    let plan = boot_load_plan(2, Some(0), &vec![true, false]);
    assert_eq!(plan, vec![BootLoadStep::CodecSource(0), BootLoadStep::Source(1)]);
}

#[test]
fn boot_codec_source_is_explicit_else_first_exporting_source() {
    assert_eq!(boot_codec_source_index(Some(2), &vec![true, false, false]), Some(2));
    assert_eq!(boot_codec_source_index(None, &vec![false, true, true]), Some(1));
    assert_eq!(boot_codec_source_index(None, &vec![false, false]), None);
    assert_eq!(boot_codec_source_index(None, &vec![]), None);
}
