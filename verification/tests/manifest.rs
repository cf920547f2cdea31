use sim_run_core::manifest::{
    manifest_exports_codec, manifest_exports_requested_site, expr_to_manifest, manifest_to_expr, parse_u16, ExportDeclKind, LibManifest,
    ManifestDependency, ManifestExport,
};
use sim_run_core::report::{push_expr_json, ConfigExpr, MapEntry};
use sim_run_core::Symbol;

fn sym(ns: &str, name: &str) -> Symbol {
    Symbol::qualified(ns.to_owned(), name.to_owned())
}

fn manifest() -> LibManifest {
    LibManifest {
        id: sym("codec", "lisp"),
        version: "0.4.1".to_owned(),
        abi_major: 1,
        abi_minor: 65535,
        target: sym("target", "native"),
        dependencies: vec![
            ManifestDependency { id: sym("sim", "core"), minimum_version: Some("0.4.0".to_owned()) },
            ManifestDependency { id: Symbol::new("plain".to_owned()), minimum_version: None },
        ],
        capabilities: vec!["fs.read".to_owned(), "net".to_owned()],
        exports: vec![
            ManifestExport { kind: ExportDeclKind::Codec, symbol: sym("codec", "lisp") },
            ManifestExport { kind: ExportDeclKind::NumberDomain, symbol: sym("numbers", "i64") },
            ManifestExport { kind: ExportDeclKind::Function, symbol: sym("cli", "main") },
        ],
    }
}

fn json(e: &ConfigExpr) -> String {
    let mut s = String::new();
    push_expr_json(&mut s, e);
    s
}

fn field(key: &str, value: ConfigExpr) -> MapEntry {
    MapEntry { key: ConfigExpr::Symbol(Symbol::new(key.to_owned())), key_debug: String::new(), value }
}

#[test]
fn manifest_expression_reads_back_to_the_same_manifest() {
    let m = manifest();
    let e = manifest_to_expr(&m);
    assert_eq!(expr_to_manifest(&e).unwrap(), m);
}

#[test]
fn manifest_expression_has_the_documented_shape() {
    let e = manifest_to_expr(&manifest());
    assert_eq!(
        json(&e),
        "{\"id\":\"codec/lisp\",\"version\":\"0.4.1\",\"abi-major\":1,\"abi-minor\":65535,\
         \"target\":\"target/native\",\
         \"requires\":[{\"id\":\"sim/core\",\"minimum-version\":\"0.4.0\"},{\"id\":\"plain\",\"minimum-version\":null}],\
         \"capabilities\":[\"fs.read\",\"net\"],\
         \"exports\":[{\"kind\":\"codec\",\"symbol\":\"codec/lisp\"},{\"kind\":\"number-domain\",\"symbol\":\"numbers/i64\"},\
         {\"kind\":\"function\",\"symbol\":\"cli/main\"}]}"
    );
    let ConfigExpr::MapOf(entries) = &e else { panic!("manifest is a map") };
    assert_eq!(
        entries[2].value,
        ConfigExpr::Number { domain: sym("numbers", "f64"), canonical: "1".to_owned() }
    );
}

#[test]
fn open_export_kinds_are_written_by_their_symbol() {
    let mut m = manifest();
    m.exports = vec![ManifestExport {
        kind: ExportDeclKind::Open(sym("ext", "widget")),
        symbol: sym("app", "w"),
    }];
    let e = manifest_to_expr(&m);
    assert_eq!(
        expr_to_manifest(&e).unwrap_err().to_string(),
        "unknown manifest export kind ext/widget"
    );
}

#[test]
fn manifest_field_errors_name_the_field() {
    assert_eq!(
        expr_to_manifest(&ConfigExpr::Nil).unwrap_err().to_string(),
        "expected map expr for field lookup, found Nil"
    );
    assert_eq!(
        expr_to_manifest(&ConfigExpr::MapOf(vec![])).unwrap_err().to_string(),
        "missing field id"
    );
    let with = |entries: Vec<MapEntry>| expr_to_manifest(&ConfigExpr::MapOf(entries));
    assert_eq!(
        with(vec![field("id", ConfigExpr::Nil)]).unwrap_err().to_string(),
        "expected symbol field id, found Nil"
    );
    assert_eq!(
        with(vec![
            field("id", ConfigExpr::Str("a/b".to_owned())),
            field("version", ConfigExpr::Bool(true)),
        ])
        .unwrap_err()
        .to_string(),
        "expected string field version, found Bool"
    );
    let num = |t: &str| ConfigExpr::Number { domain: sym("numbers", "f64"), canonical: t.to_owned() };
    let base = |major: ConfigExpr| {
        vec![
            field("id", ConfigExpr::Str("a/b".to_owned())),
            field("version", ConfigExpr::Str("1".to_owned())),
            field("abi-major", major),
        ]
    };
    assert_eq!(
        with(base(num("70000"))).unwrap_err().to_string(),
        "invalid abi-major number: number too large to fit in target type"
    );
    assert_eq!(
        with(base(num("-1"))).unwrap_err().to_string(),
        "invalid abi-major number: invalid digit found in string"
    );
    assert_eq!(
        with(base(num(""))).unwrap_err().to_string(),
        "invalid abi-major number: cannot parse integer from empty string"
    );
    assert_eq!(
        with(base(ConfigExpr::Str("1".to_owned()))).unwrap_err().to_string(),
        "expected numeric field abi-major, found String"
    );
    assert_eq!(with(base(num("+7"))).unwrap_err().to_string(), "missing field abi-minor");
}

#[test]
fn manifest_list_entries_are_checked_in_order() {
    let m = manifest();
    let ConfigExpr::MapOf(mut entries) = manifest_to_expr(&m) else { panic!("map") };
    entries[6].value = ConfigExpr::List(vec![ConfigExpr::Str("ok".to_owned()), ConfigExpr::Nil]);
    entries[7].value = ConfigExpr::Nil;
    assert_eq!(
        expr_to_manifest(&ConfigExpr::MapOf(entries)).unwrap_err().to_string(),
        "expected capability string, found Nil"
    );
}

#[test]
fn u16_text_reads_like_str_parse() {
    for (text, expected) in [
        ("0", Ok(0u16)),
        ("65535", Ok(65535)),
        ("+12", Ok(12)),
        ("0007", Ok(7)),
        ("65536", Err("number too large to fit in target type")),
        ("99999x", Err("number too large to fit in target type")),
        ("12x", Err("invalid digit found in string")),
        ("+", Err("invalid digit found in string")),
        ("-", Err("invalid digit found in string")),
        ("-0", Err("invalid digit found in string")),
        ("", Err("cannot parse integer from empty string")),
    ] {
        let ours = parse_u16(text).map_err(|e| e);
        assert_eq!(ours, expected.map_err(|e: &str| e.to_owned()), "{text}");
        assert_eq!(text.parse::<u16>().map_err(|e| e.to_string()), ours, "{text}");
    }
}

#[test]
fn manifests_offer_codecs_and_requested_sites() {
    let mut m = manifest();
    assert!(manifest_exports_codec(&m, &sym("codec", "lisp")));
    assert!(!manifest_exports_codec(&m, &sym("codec", "json")));
    assert!(!manifest_exports_codec(&m, &sym("cli", "main")));
    assert!(!manifest_exports_requested_site(&m, &vec![sym("config", "runtime")]));
    m.exports.push(ManifestExport { kind: ExportDeclKind::Site, symbol: sym("config", "runtime") });
    assert!(manifest_exports_requested_site(&m, &vec![sym("a", "b"), sym("config", "runtime")]));
    assert!(!manifest_exports_requested_site(&m, &vec![]));
}
