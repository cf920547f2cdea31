use sim_run_core::{
    parse_args, CliCommand, ConfigLoadOptions, ConfigRoots, LibSourceSpec, Payload, Symbol,
};

fn defaults() -> ConfigLoadOptions {
    ConfigLoadOptions::with_roots(ConfigRoots::new(None, "./.sim/config".to_string()))
}

fn args(items: &[&str]) -> Vec<String> {
    items.iter().map(|s| s.to_string()).collect()
}

#[test]
fn parses_boot_flags_and_repeated_loads() {
    let parsed = parse_args(
        args(&[
            "sim",
            "--codec",
            "json",
            "--load",
            "symbol:codec/json",
            "--load=path:./lib.wasm",
            "--native-audio-provider=symbol:audio/provider/jack",
            "--config-home",
            "/tmp/sim-home",
            "--config-work=/tmp/sim-work",
            "--config-file",
            "/tmp/sim.toml",
            "--config-site=config/runtime",
            "--list",
            "--inspect",
            "codec/json",
            "--eval",
            "(+ 1 2)",
            "--script=demo.sim",
            "--stdin",
            "input",
        ]),
        defaults(),
    )
    .unwrap();

    let CliCommand::Boot(boot) = parsed else {
        panic!("expected boot command");
    };
    assert_eq!(boot.codec, Some("json".to_owned()));
    assert_eq!(
        boot.loads,
        vec![
            LibSourceSpec::Symbol("codec/json".to_owned()),
            LibSourceSpec::Path("./lib.wasm".to_owned()),
        ]
    );
    assert_eq!(
        boot.native_audio_provider.as_deref(),
        Some(&LibSourceSpec::Symbol("audio/provider/jack".to_owned()))
    );
    assert_eq!(boot.config.roots.home, Some("/tmp/sim-home".to_owned()));
    assert_eq!(boot.config.roots.work, "/tmp/sim-work".to_owned());
    assert_eq!(boot.config.single_file, Some("/tmp/sim.toml".to_owned()));
    assert_eq!(
        boot.config.site_sources,
        vec![Symbol::qualified("config".to_owned(), "runtime".to_owned())]
    );
    assert!(boot.list);
    assert_eq!(boot.inspect, Some("codec/json".to_owned()));
    assert_eq!(
        boot.payload,
        Payload {
            args: Vec::new(),
            eval: Some("(+ 1 2)".to_owned()),
            script: Some("demo.sim".to_owned()),
            stdin: Some("input".to_owned()),
        }
    );
}

#[test]
fn payload_after_double_dash_is_preserved_and_not_rejected() {
    let parsed =
        parse_args(args(&["sim", "--codec=lisp", "--", "run", "--flag", "value"]), defaults())
            .unwrap();
    let CliCommand::Boot(boot) = parsed else {
        panic!("expected boot command");
    };
    assert_eq!(
        boot.payload.args,
        vec!["run".to_owned(), "--flag".to_owned(), "value".to_owned()]
    );
    assert_eq!(boot.envelope().verb, Some("run".to_owned()));
}

#[test]
fn parses_native_audio_provider_opt_in() {
    let parsed = parse_args(
        args(&["sim", "--native-audio-provider=path:./jack-provider.so"]),
        defaults(),
    )
    .unwrap();
    let CliCommand::Boot(boot) = parsed else {
        panic!("expected boot command");
    };
    assert_eq!(
        boot.native_audio_provider.as_deref(),
        Some(&LibSourceSpec::Path("./jack-provider.so".to_owned()))
    );
}

#[test]
fn first_payload_token_starts_loaded_lib_handoff() {
    let parsed = parse_args(args(&["sim", "--load=host:demo", "run", "--flag"]), defaults()).unwrap();
    let CliCommand::Boot(boot) = parsed else {
        panic!("expected boot command");
    };
    assert_eq!(boot.payload.args, vec!["run".to_owned(), "--flag".to_owned()]);
    assert_eq!(boot.envelope().verb, Some("run".to_owned()));
}

#[test]
fn rejects_missing_duplicate_and_unknown_flags() {
    assert_eq!(
        parse_args(args(&["sim", "--codec"]), defaults()).unwrap_err().to_string(),
        "--codec requires a value"
    );
    assert_eq!(
        parse_args(args(&["sim", "--codec=lisp", "--codec=json"]), defaults())
            .unwrap_err()
            .to_string(),
        "--codec was provided more than once"
    );
    assert_eq!(
        parse_args(args(&["sim", "--unknown"]), defaults()).unwrap_err().to_string(),
        "unsupported argument: --unknown"
    );
    assert_eq!(
        parse_args(args(&["sim", "--config-file"]), defaults())
            .unwrap_err()
            .to_string(),
        "--config-file requires a value"
    );
    assert_eq!(
        parse_args(args(&["sim", "--config-work=a", "--config-work=b"]), defaults())
            .unwrap_err()
            .to_string(),
        "--config-work was provided more than once"
    );
}

#[test]
fn help_and_version_commands() {
    assert_eq!(parse_args(Vec::new(), defaults()).unwrap(), CliCommand::Help);
    assert_eq!(parse_args(args(&["sim"]), defaults()).unwrap(), CliCommand::Help);
    assert_eq!(parse_args(args(&["sim", "--version"]), defaults()).unwrap(), CliCommand::Version);
    assert_eq!(parse_args(args(&["sim", "-V"]), defaults()).unwrap(), CliCommand::Version);
    assert_eq!(parse_args(args(&["sim", "--list", "help"]), defaults()).unwrap(), CliCommand::Help);
    let CliCommand::Boot(boot) = parse_args(args(&["sim", "--codec", "json"]), defaults()).unwrap()
    else {
        panic!("expected a boot command");
    };
    assert_eq!(boot.codec.as_deref(), Some("json"));
}

#[test]
fn once_only_config_flags_and_inline_forms() {
    assert_eq!(
        parse_args(args(&["sim", "--no-config-files", "--no-config-files"]), defaults())
            .unwrap_err()
            .to_string(),
        "--no-config-files was provided more than once"
    );
    assert_eq!(
        parse_args(args(&["sim", "--config-home=a", "--config-home"]), defaults())
            .unwrap_err()
            .to_string(),
        "--config-home was provided more than once"
    );
    assert_eq!(
        parse_args(args(&["sim", "--eval="]), defaults()).unwrap_err().to_string(),
        "--eval requires a value"
    );
    assert_eq!(
        parse_args(args(&["sim", "--load", "nosyntax"]), defaults()).unwrap_err().to_string(),
        "library source must use kind:value syntax"
    );
    assert_eq!(
        parse_args(args(&["sim", "-x"]), defaults()).unwrap_err().to_string(),
        "unsupported argument: -x"
    );
    let CliCommand::Boot(boot) = parse_args(args(&["sim", "--no-config-files"]), defaults()).unwrap()
    else {
        panic!("expected a boot command");
    };
    assert!(!boot.config.read_files);
    assert_eq!(boot.config.roots.work, "./.sim/config");
}

#[test]
fn envelope_names_the_codec_library() {
    let CliCommand::Boot(boot) = parse_args(args(&["sim", "--eval", "x", "run"]), defaults()).unwrap()
    else {
        panic!("expected a boot command");
    };
    let envelope = boot.envelope();
    assert_eq!(envelope.codec, "codec/lisp");
    assert_eq!(envelope.eval, Some("x".to_owned()));
    assert_eq!(envelope.args, vec!["run".to_owned()]);
    assert_eq!(sim_run_core::boot_codec_name(&boot), "lisp");
    assert_eq!(sim_run_core::codec_lib_symbol("json"), "codec/json");
}

#[test]
fn payload_after_flags_is_handed_over_verbatim() {
    let with_flags = parse_args(
        args(&["sim", "--codec", "lisp", "--load", "symbol:demo", "run", "--payload-for-loaded-libs"]),
        defaults(),
    )
    .unwrap();
    let CliCommand::Boot(boot) = with_flags else {
        panic!("expected boot command");
    };
    assert_eq!(boot.codec.as_deref(), Some("lisp"));
    assert_eq!(boot.payload.args, args(&["run", "--payload-for-loaded-libs"]));

    let with_dashes = parse_args(
        args(&["sim", "--codec", "lisp", "--load", "symbol:demo", "--", "run", "--payload-for-loaded-libs"]),
        defaults(),
    )
    .unwrap();
    let CliCommand::Boot(boot) = with_dashes else {
        panic!("expected boot command");
    };
    assert_eq!(boot.loads.len(), 1);
    assert_eq!(boot.payload.args, args(&["run", "--payload-for-loaded-libs"]));
}
