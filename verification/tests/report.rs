use sim_run_core::report::{
    copy_expr, hex_bytes, is_json_number, key_suggests_secret, push_expr_json, push_json_string,
    push_strings_json, redact_table_expr, Annotation, ConfigExpr, ConfigSecretField, MapEntry,
};
use sim_run_core::status_report::{
    emitted_keys_label, format_config_sources, format_config_sources_json, format_config_status,
    format_config_status_json, format_effective_config, format_effective_config_json,
    is_no_codec_error, ConfigProbeReport, ConfigProbeStatus, ConfigSource, ConfigSourceReport,
    EffectiveTable, LoadedLibReport, LoadedStateReport, ProbeMode,
};
use sim_run_core::{CliError, LibSourceSpec, LoadReceipt, LoadReceiptRole, SourceStatus, Symbol};

fn sym(ns: &str, name: &str) -> Symbol {
    Symbol::qualified(ns.to_owned(), name.to_owned())
}

fn num(canonical: &str) -> ConfigExpr {
    ConfigExpr::Number { domain: sym("numbers", "i64"), canonical: canonical.to_owned() }
}

fn json(e: &ConfigExpr) -> String {
    let mut s = String::new();
    push_expr_json(&mut s, e);
    s
}

fn entry(key: &str, value: ConfigExpr) -> MapEntry {
    MapEntry { key: ConfigExpr::Str(key.to_owned()), key_debug: String::new(), value }
}

#[test]
fn json_strings_escape_quotes_and_controls() {
    let mut s = String::new();
    push_json_string(&mut s, "a\"b\\c\nd\re\tf\u{1}g\u{7f}é");
    assert_eq!(s, "\"a\\\"b\\\\c\\nd\\re\\tf\\u0001g\\u007fé\"");
    let mut t = String::new();
    push_strings_json(&mut t, &vec!["x".to_owned(), "y".to_owned()]);
    assert_eq!(t, "[\"x\",\"y\"]");
}

#[test]
fn numbers_render_bare_only_when_json_shaped() {
    assert!(is_json_number("-1.5e3"));
    assert!(!is_json_number("1/2"));
    assert!(!is_json_number(""));
    assert!(!is_json_number("+1"));
    assert_eq!(json(&num("12")), "12");
    assert_eq!(json(&num("1/2")), "\"1/2\"");
}

#[test]
fn expressions_render_as_stable_json() {
    let e = ConfigExpr::MapOf(vec![
        entry("name", ConfigExpr::Str("demo".to_owned())),
        entry("on", ConfigExpr::Bool(true)),
        entry("items", ConfigExpr::List(vec![ConfigExpr::Nil, ConfigExpr::Bytes(vec![0xab])])),
        MapEntry {
            key: ConfigExpr::Symbol(sym("k", "s")),
            key_debug: String::new(),
            value: ConfigExpr::Call {
                operator: Box::new(ConfigExpr::Symbol(sym("core", "f"))),
                args: vec![num("1")],
            },
        },
    ]);
    assert_eq!(
        json(&e),
        "{\"name\":\"demo\",\"on\":true,\"items\":[null,\"ab\"],\"k/s\":{\"$expr\":\"call\",\
         \"operator\":\"core/f\",\"args\":[1]}}"
    );
    let q = ConfigExpr::Annotated {
        expr: Box::new(ConfigExpr::Quote {
            mode: "Quote".to_owned(),
            expr: Box::new(ConfigExpr::Local(Symbol::new("x".to_owned()))),
        }),
        annotations: vec![Annotation { key: sym("doc", "note"), value: ConfigExpr::Str("n".to_owned()) }],
    };
    assert_eq!(
        json(&q),
        "{\"$expr\":\"annotated\",\"expr\":{\"$expr\":\"quote\",\"mode\":\"Quote\",\"expr\":\"x\"},\
         \"annotations\":{\"doc/note\":\"n\"}}"
    );
    assert_eq!(hex_bytes(&[0, 15, 255]), "000fff");
}

#[test]
fn secret_values_are_redacted() {
    assert!(key_suggests_secret("API_KEY"));
    assert!(key_suggests_secret("db_Password"));
    assert!(!key_suggests_secret("passwords"));
    let table = ConfigExpr::MapOf(vec![
        entry("token", ConfigExpr::Str("t0p".to_owned())),
        entry("region", ConfigExpr::Str("eu".to_owned())),
        entry("pin", num("1234")),
    ]);
    let secrets = vec![ConfigSecretField { lib: sym("app", "demo"), key: "pin".to_owned() }];
    let redacted = redact_table_expr(&sym("app", "demo"), &table, &secrets);
    assert_eq!(
        json(&redacted),
        "{\"token\":\"[redacted]\",\"region\":\"eu\",\"pin\":\"[redacted]\"}"
    );
    let other = redact_table_expr(&sym("app", "other"), &table, &secrets);
    assert_eq!(json(&other), "{\"token\":\"[redacted]\",\"region\":\"eu\",\"pin\":1234}");
}

fn report() -> LoadedStateReport {
    let receipt = LoadReceipt {
        lib: Symbol::new("codec-lisp".to_owned()),
        version: "0.1.0".to_owned(),
        role: LoadReceiptRole::boot_codec("lisp".to_owned(), "codec/lisp".to_owned()),
        requested_source: LibSourceSpec::Symbol("codec/lisp".to_owned()),
        resolved_source: LibSourceSpec::Path("/c/a.simlib".to_owned()),
        target: "Native".to_owned(),
        dependencies: vec![],
        exports: vec![],
    };
    LoadedStateReport {
        libs: vec![LoadedLibReport::from_receipt(&receipt)],
        config_sources: vec![
            ConfigSourceReport {
                source: ConfigSource::HomeFile { path: "/h/config.sim".to_owned() },
                status: SourceStatus::Missing,
            },
            ConfigSourceReport {
                source: ConfigSource::Probe { probe: sym("probe", "env"), mode: ProbeMode::Modeled },
                status: SourceStatus::Found,
            },
        ],
        effective: vec![EffectiveTable {
            lib: sym("app", "demo"),
            table: ConfigExpr::MapOf(vec![entry("secret", ConfigExpr::Str("s".to_owned()))]),
        }],
        secret_fields: vec![],
        probe_reports: vec![ConfigProbeReport {
            probe: sym("probe", "env"),
            lib: sym("app", "demo"),
            mode: ProbeMode::Real,
            status: ConfigProbeStatus::Denied { capability: "env".to_owned() },
            emitted_keys: vec!["a".to_owned(), "b".to_owned()],
        }],
        diagnostics: vec!["missing file".to_owned()],
    }
}

#[test]
fn status_report_renders_text_sections() {
    assert_eq!(
        format_config_status(&report()),
        "loaded libs:\n\
         - role=boot-codec lib=codec-lisp version=0.1.0 requested=symbol:codec/lisp resolved=path:/c/a.simlib exports=0\n\
         config sources:\n\
         - source=home-file:/h/config.sim status=missing\n\
         - source=probe:probe/env:modeled status=found\n\
         probes:\n\
         - probe=probe/env lib=app/demo mode=real status=denied capability=env emitted=a,b\n\
         diagnostics:\n\
         - missing file\n"
    );
    assert_eq!(
        format_config_sources(&report()),
        "config sources:\n\
         - source=home-file:/h/config.sim status=missing\n\
         - source=probe:probe/env:modeled status=found\n\
         diagnostics:\n\
         - missing file\n"
    );
}

#[test]
fn status_report_renders_stable_json() {
    assert_eq!(
        format_config_status_json(&report()),
        "{\"libs\":[{\"role\":\"boot-codec\",\"lib\":\"codec-lisp\",\"version\":\"0.1.0\",\
         \"requested\":\"symbol:codec/lisp\",\"resolved\":\"path:/c/a.simlib\",\"exports\":0}],\
         \"config_sources\":[{\"source\":\"home-file:/h/config.sim\",\"status\":\"missing\"},\
         {\"source\":\"probe:probe/env:modeled\",\"status\":\"found\"}],\
         \"effective\":{\"app/demo\":{\"secret\":\"[redacted]\"}},\
         \"probes\":[{\"probe\":\"probe/env\",\"lib\":\"app/demo\",\"mode\":\"real\",\
         \"status\":\"denied\",\"capability\":\"env\",\"emitted_keys\":[\"a\",\"b\"]}],\
         \"diagnostics\":[\"missing file\"]}\n"
    );
    assert_eq!(
        format_config_sources_json(&report()),
        "{\"config_sources\":[{\"source\":\"home-file:/h/config.sim\",\"status\":\"missing\"},\
         {\"source\":\"probe:probe/env:modeled\",\"status\":\"found\"}],\
         \"diagnostics\":[\"missing file\"]}\n"
    );
}

#[test]
fn effective_config_reports() {
    assert_eq!(
        format_effective_config_json(&report(), &sym("app", "demo")),
        "{\"lib\":\"app/demo\",\"table\":{\"secret\":\"[redacted]\"}}\n"
    );
    assert_eq!(
        format_effective_config_json(&report(), &sym("app", "none")),
        "{\"lib\":\"app/none\",\"table\":null}\n"
    );
    assert_eq!(format_effective_config(&sym("a", "b"), None), "lib a/b\n- no effective config\n");
    assert_eq!(format_effective_config(&sym("a", "b"), Some(Ok(String::new()))), "lib a/b\n- empty\n");
    assert_eq!(
        format_effective_config(&sym("a", "b"), Some(Err("bad".to_owned()))),
        "lib a/b\n- unencodable config: bad\n"
    );
}

#[test]
fn labels_and_error_kinds() {
    assert_eq!(emitted_keys_label(&vec![]), "-");
    assert!(is_no_codec_error(&CliError::msg("no codec 'lisp' available")));
    assert!(!is_no_codec_error(&CliError::msg("other")));
}

#[test]
fn text_and_json_renderers_redact_secret_fields() {
    let model = sym("model", "defaults");
    let table = ConfigExpr::MapOf(vec![
        MapEntry {
            key: ConfigExpr::Symbol(Symbol::new("provider".to_owned())),
            key_debug: String::new(),
            value: ConfigExpr::Str("openai".to_owned()),
        },
        MapEntry {
            key: ConfigExpr::Symbol(Symbol::new("api_key".to_owned())),
            key_debug: String::new(),
            value: ConfigExpr::Str("raw-secret-key".to_owned()),
        },
    ]);
    let secret_fields =
        vec![ConfigSecretField { lib: model.clone(), key: "api_key".to_owned() }];
    let report = LoadedStateReport {
        libs: vec![],
        config_sources: vec![],
        effective: vec![EffectiveTable { lib: model.clone(), table: copy_expr(&table) }],
        secret_fields: secret_fields.clone(),
        probe_reports: vec![],
        diagnostics: vec![],
    };
    let encoded = json(&redact_table_expr(&model, &table, &secret_fields));
    let text = format_effective_config(&model, Some(Ok(encoded)));
    let json = format_effective_config_json(&report, &model);
    let status_json = format_config_status_json(&report);

    for rendered in [&text, &json, &status_json] {
        assert!(!rendered.contains("raw-secret-key"), "{rendered}");
        assert!(rendered.contains("[redacted]"), "{rendered}");
    }
}

#[test]
fn config_status_renders_typed_probe_report_records() {
    let lib = sym("stream", "host");
    let report = LoadedStateReport {
        libs: vec![],
        config_sources: vec![],
        effective: vec![],
        secret_fields: vec![],
        probe_reports: vec![
            ConfigProbeReport {
                probe: sym("config", "fake"),
                lib: lib.clone(),
                mode: ProbeMode::Modeled,
                status: ConfigProbeStatus::Applied,
                emitted_keys: vec!["backend".to_owned()],
            },
            ConfigProbeReport {
                probe: sym("config", "real"),
                lib,
                mode: ProbeMode::Real,
                status: ConfigProbeStatus::Denied { capability: "hardware_inventory".to_owned() },
                emitted_keys: Vec::new(),
            },
        ],
        diagnostics: vec![],
    };

    let text = format_config_status(&report);
    let json = format_config_status_json(&report);

    assert!(
        text.contains(
            "probe=config/fake lib=stream/host mode=modeled status=applied emitted=backend"
        ),
        "{text}"
    );
    assert!(
        text.contains(
            "probe=config/real lib=stream/host mode=real status=denied capability=hardware_inventory emitted=-"
        ),
        "{text}"
    );
    assert!(
        json.contains(
            "\"probe\":\"config/fake\",\"lib\":\"stream/host\",\"mode\":\"modeled\",\"status\":\"applied\",\"emitted_keys\":[\"backend\"]"
        ),
        "{json}"
    );
    assert!(
        json.contains(
            "\"probe\":\"config/real\",\"lib\":\"stream/host\",\"mode\":\"real\",\"status\":\"denied\",\"capability\":\"hardware_inventory\",\"emitted_keys\":[]"
        ),
        "{json}"
    );
}
