use sim_run_core::introspect::{
    format_dependencies, format_exports, format_manifest_source, inspect_fallback, inspect_loaded,
    state_label, InspectOutcome,
    crates_listing_source_label, format_crates_listing, format_list, join_sections,
    parse_inspect_source, role_detail, select_delegate, CLI_INSPECT_ENTRYPOINT,
    CLI_LIST_ENTRYPOINT,
};
use sim_run_core::listing::{
    listing_order_exec, path_order_exec, sort_listings, text_order_exec, CratesIoListing,
    CratesIoListingSource,
};
use sim_run_core::manifest::{ExportDeclKind, LibManifest, ManifestExport};
use sim_run_core::receipt::{ExportState, ReceiptDependency, ReceiptExport};
use sim_run_core::version::VersionOrder;
use sim_run_core::{CliError, CratesIoResolver, LibSourceSpec, LoadReceipt, LoadReceiptRole, Symbol};
use std::cmp::Ordering;
use std::path::Path;

fn order_of(o: Ordering) -> VersionOrder {
    match o {
        Ordering::Less => VersionOrder::Less,
        Ordering::Equal => VersionOrder::Equal,
        Ordering::Greater => VersionOrder::Greater,
    }
}

fn listing(package: &str, version: &str, artifact: &str, source: CratesIoListingSource) -> CratesIoListing {
    CratesIoListing {
        package: package.to_owned(),
        version: version.to_owned(),
        artifact: artifact.to_owned(),
        source,
    }
}

#[test]
fn path_order_matches_std_paths() {
    let paths = [
        "", "/", "//", "a", "a/", "a//b", "a/b", "a/./b", "./a", ".", "./", "..", "../a", "/a",
        "/a/b", "/a/b/", "/./a", "a/..", "a/../b", "ab", "a b", "a-b", "a.b", "é", "z", "./.",
        "/.", "a/b/c", "a/bc", "a/b.c", "A", "..a", ".a",
    ];
    for p in paths {
        for q in paths {
            assert_eq!(
                path_order_exec(p, q),
                order_of(Path::new(p).cmp(Path::new(q))),
                "{p:?} vs {q:?}"
            );
        }
    }
}

#[test]
fn text_order_matches_str_order() {
    let texts = ["", "a", "ab", "b", "A", "é", "e", "ea", "a\u{0}"];
    for a in texts {
        for b in texts {
            let av: Vec<char> = a.chars().collect();
            let bv: Vec<char> = b.chars().collect();
            assert_eq!(text_order_exec(&av, &bv), order_of(a.cmp(b)), "{a:?} vs {b:?}");
        }
    }
}

#[test]
fn available_artifacts_sort_by_package_then_newest_version() {
    let resolver = CratesIoResolver::new("/cache".to_owned())
        .with_registry_artifact("sim-b".to_owned(), "0.1.0".to_owned(), "/r/b1".to_owned())
        .with_registry_artifact("sim-a".to_owned(), "0.2.0".to_owned(), "/r/a2".to_owned())
        .with_registry_artifact("sim-a".to_owned(), "0.10.0".to_owned(), "/r/a10".to_owned());
    let cached = vec![
        listing("sim-a", "0.2.0", "/r/a2", CratesIoListingSource::Cache),
        listing("sim-a", "0.2.0", "/c/a2", CratesIoListingSource::Cache),
    ];
    let listed = resolver.available_artifacts(&cached);
    let keys: Vec<(String, String, String, CratesIoListingSource)> = listed
        .iter()
        .map(|l| (l.package.clone(), l.version.clone(), l.artifact.clone(), l.source))
        .collect();
    assert_eq!(
        keys,
        vec![
            ("sim-a".into(), "0.10.0".into(), "/r/a10".into(), CratesIoListingSource::Registry),
            ("sim-a".into(), "0.2.0".into(), "/c/a2".into(), CratesIoListingSource::Cache),
            ("sim-a".into(), "0.2.0".into(), "/r/a2".into(), CratesIoListingSource::Cache),
            ("sim-a".into(), "0.2.0".into(), "/r/a2".into(), CratesIoListingSource::Registry),
            ("sim-b".into(), "0.1.0".into(), "/r/b1".into(), CratesIoListingSource::Registry),
        ]
    );
    assert!(CratesIoResolver::new("/c".to_owned()).available_artifacts(&vec![]).is_empty());
}

#[test]
fn sorting_is_stable_for_ties() {
    let items = vec![
        listing("p", "1.0", "/x", CratesIoListingSource::Cache),
        listing("p", "1.0.0", "/x", CratesIoListingSource::Cache),
        listing("p", "0.9", "/x", CratesIoListingSource::Cache),
        listing("p", "1", "x//", CratesIoListingSource::Cache),
    ];
    let sorted = sort_listings(&items);
    let versions: Vec<&str> = sorted.iter().map(|l| l.version.as_str()).collect();
    assert_eq!(versions, vec!["1.0", "1.0.0", "1", "0.9"]);
    assert_eq!(listing_order_exec(&items[0], &items[1]), VersionOrder::Equal);
    assert_eq!(listing_order_exec(&items[0], &items[2]), VersionOrder::Less);
}

fn receipt(id: &str, role: LoadReceiptRole, source: LibSourceSpec, exports: Vec<ReceiptExport>) -> LoadReceipt {
    LoadReceipt {
        lib: Symbol::new(id.to_owned()),
        version: "0.1.0".to_owned(),
        role,
        requested_source: source.clone(),
        resolved_source: source,
        target: "Native".to_owned(),
        dependencies: vec![],
        exports,
    }
}

fn export(text: &str, is_function: bool, resolved: bool) -> ReceiptExport {
    let (ns, name) = text.split_once('/').unwrap();
    ReceiptExport {
        kind: Symbol::new(if is_function { "function" } else { "value" }.to_owned()),
        symbol: Symbol::qualified(ns.to_owned(), name.to_owned()),
        state: if resolved {
            ExportState::Resolved { id: "FunctionId(7)".to_owned() }
        } else {
            ExportState::Declared
        },
    }
}

#[test]
fn list_output_includes_catalog_loaded_receipts_and_crates_artifacts() {
    let catalog = vec![(
        Symbol::qualified("catalog".to_owned(), "demo".to_owned()),
        LibSourceSpec::Bytes(b"catalog-lib".to_vec()),
    )];
    let resolver = CratesIoResolver::new("/cache".to_owned()).with_registry_artifact(
        "sim-lib-crate".to_owned(),
        "0.1.0".to_owned(),
        "/tmp/list-crate".to_owned(),
    );
    let listings = Ok(resolver.available_artifacts(&vec![]));
    let receipts = vec![
        receipt(
            "codec-test",
            LoadReceiptRole::boot_codec("test".to_owned(), "codec/test".to_owned()),
            LibSourceSpec::Host("codec/test".to_owned()),
            vec![],
        ),
        receipt("host-demo", LoadReceiptRole::Library, LibSourceSpec::Host("host/demo".to_owned()), vec![
            export("host/value", false, true),
        ]),
    ];
    let output = format_list(&catalog, &listings, &receipts);
    assert!(output.contains("catalog sources:\n- symbol:catalog/demo -> bytes:11 bytes"));
    assert!(output.contains("crates.io:sim-lib-crate@0.1.0 source=registry"));
    assert!(output.contains("loaded libs:"));
    for id in ["codec-test", "host-demo"] {
        assert!(output.contains(&format!("lib={id}")), "{output}");
    }
    assert_eq!(
        output,
        "catalog sources:\n\
         - symbol:catalog/demo -> bytes:11 bytes\n\
         crates.io artifacts:\n\
         - crates.io:sim-lib-crate@0.1.0 source=registry artifact=/tmp/list-crate\n\
         loaded libs:\n\
         - role=boot-codec:test:codec/test lib=codec-test version=0.1.0 requested=host:codec/test resolved=host:codec/test exports=0\n\
         - role=library lib=host-demo version=0.1.0 requested=host:host/demo resolved=host:host/demo exports=1\n"
    );
    let empty = format_list(&vec![], &Err(CliError::msg("read failed")), &vec![]);
    assert_eq!(
        empty,
        "catalog sources:\n- none\ncrates.io artifacts:\n- unavailable: read failed\nloaded libs:\n- none\n"
    );
    assert_eq!(
        format_list(&vec![], &Ok(vec![]), &vec![]),
        "catalog sources:\n- none\ncrates.io artifacts:\n- none\nloaded libs:\n- none\n"
    );
}

#[test]
fn listing_lines_and_labels() {
    let l = listing("sim-x", "1.2.3", "/c/sim-x/1.2.3/a.simlib", CratesIoListingSource::Cache);
    assert_eq!(
        format_crates_listing(&l),
        "- crates.io:sim-x@1.2.3 source=cache artifact=/c/sim-x/1.2.3/a.simlib\n"
    );
    assert_eq!(crates_listing_source_label(CratesIoListingSource::Registry), "registry");
    assert_eq!(role_detail(&LoadReceiptRole::Library), "library");
}

#[test]
fn delegates_prefer_loaded_libraries_over_the_codec() {
    let codec = receipt(
        "codec-test",
        LoadReceiptRole::boot_codec("test".to_owned(), "codec/test".to_owned()),
        LibSourceSpec::Host("codec/test".to_owned()),
        vec![export("cli/list", true, true), export("cli/inspect", true, true)],
    );
    let app = receipt("app", LoadReceiptRole::Library, LibSourceSpec::Host("app".to_owned()), vec![
        export("cli/list", true, false),
        export("cli/inspect", true, true),
    ]);
    let receipts = vec![codec, app];
    let list = select_delegate(&receipts, CLI_LIST_ENTRYPOINT).unwrap();
    assert_eq!(list.lib, Symbol::new("codec-test".to_owned()));
    let inspect = select_delegate(&receipts, CLI_INSPECT_ENTRYPOINT).unwrap();
    assert_eq!(inspect.lib, Symbol::new("app".to_owned()));
    assert_eq!(inspect.symbol.as_qualified_str(), "cli/inspect");
    assert!(select_delegate(&receipts, "cli/other").is_none());
}

#[test]
fn sections_are_newline_terminated_and_blank_line_separated() {
    assert_eq!(join_sections(vec![]), "\n");
    assert_eq!(join_sections(vec!["a".to_owned()]), "a\n");
    assert_eq!(join_sections(vec!["a\n".to_owned(), "b".to_owned()]), "a\n\nb\n");
    assert_eq!(join_sections(vec![String::new(), "b\n".to_owned()]), "\n\nb\n");
}

#[test]
fn inspect_targets_fall_back_to_symbols() {
    assert_eq!(parse_inspect_source("path:./x"), LibSourceSpec::Path("./x".to_owned()));
    assert_eq!(parse_inspect_source("codec/lisp"), LibSourceSpec::Symbol("codec/lisp".to_owned()));
    assert_eq!(parse_inspect_source("symbol:"), LibSourceSpec::Symbol("symbol:".to_owned()));
}

#[test]
fn inspect_loaded_lib_and_export_uses_open_export_records() {
    let value = ReceiptExport {
        kind: Symbol::new("value".to_owned()),
        symbol: Symbol::new("host-value".to_owned()),
        state: ExportState::Resolved { id: "ValueId(3)".to_owned() },
    };
    let mut lib = receipt(
        "host-demo",
        LoadReceiptRole::Library,
        LibSourceSpec::Host("host/demo".to_owned()),
        vec![value],
    );
    lib.dependencies = vec![ReceiptDependency { lib_id: 4, symbol: Symbol::new("dep".to_owned()) }];
    let receipts = vec![lib];

    let InspectOutcome::Rendered(lib_output) = inspect_loaded(&receipts, "host-demo") else {
        panic!("expected rendered output");
    };
    assert!(lib_output.contains("lib host-demo"));
    assert!(lib_output.contains("requested host:host/demo"));
    assert!(lib_output.contains("kind=value symbol=host-value state=resolved"));
    assert_eq!(
        lib_output,
        "lib host-demo\nversion 0.1.0\ntarget Native\nrole library\nrequested host:host/demo\n\
         resolved host:host/demo\ndependencies:\n- lib_id=4 symbol=dep\nexports:\n\
         - kind=value symbol=host-value state=resolved:ValueId(3)\n"
    );

    let InspectOutcome::Rendered(export_output) = inspect_loaded(&receipts, "host-value") else {
        panic!("expected rendered output");
    };
    assert!(export_output.contains("export host-value"));
    assert!(export_output.contains("lib=host-demo kind=value symbol=host-value state=resolved"));
    assert_eq!(
        export_output,
        "export host-value\n- lib=host-demo kind=value symbol=host-value state=resolved:ValueId(3)\n"
    );

    assert_eq!(
        inspect_loaded(&receipts, "path:./x.simlib"),
        InspectOutcome::Source(LibSourceSpec::Path("./x.simlib".to_owned()))
    );
    assert_eq!(
        inspect_loaded(&receipts, "codec/lisp"),
        InspectOutcome::Source(LibSourceSpec::Symbol("codec/lisp".to_owned()))
    );
}

#[test]
fn export_states_and_empty_sections_render() {
    assert_eq!(state_label(&ExportState::Declared), "declared");
    assert_eq!(state_label(&ExportState::Unsupported { reason: "no wasm".to_owned() }), "unsupported:no wasm");
    assert_eq!(state_label(&ExportState::Invalid { error: "bad".to_owned() }), "invalid:bad");
    assert_eq!(format_exports(&vec![]), "exports:\n- none\n");
    let r = receipt("x", LoadReceiptRole::Library, LibSourceSpec::Host("x".to_owned()), vec![]);
    assert_eq!(format_dependencies(&r), "dependencies:\n- none\n");
}

#[test]
fn manifest_sources_render_declared_exports() {
    let m = LibManifest {
        id: Symbol::qualified("codec".to_owned(), "json".to_owned()),
        version: "0.2.0".to_owned(),
        abi_major: 1,
        abi_minor: 0,
        target: Symbol::qualified("target".to_owned(), "native".to_owned()),
        dependencies: vec![],
        capabilities: vec![],
        exports: vec![
            ManifestExport { kind: ExportDeclKind::Codec, symbol: Symbol::qualified("codec".to_owned(), "json".to_owned()) },
            ManifestExport {
                kind: ExportDeclKind::Open(Symbol::qualified("ext".to_owned(), "gadget".to_owned())),
                symbol: Symbol::new("g".to_owned()),
            },
        ],
    };
    let requested = LibSourceSpec::Symbol("codec/json".to_owned());
    let resolved = LibSourceSpec::Path("/c/json.simlib".to_owned());
    assert_eq!(
        format_manifest_source(&requested, &resolved, &m, "Native"),
        "source symbol:codec/json\nresolved path:/c/json.simlib\nlib codec/json\nversion 0.2.0\n\
         target Native\nexports:\n- kind=codec symbol=codec/json state=declared\n\
         - kind=ext/gadget symbol=g state=declared\n"
    );
    let mut bare = m.clone();
    bare.exports.clear();
    assert!(format_manifest_source(&requested, &resolved, &bare, "Native").ends_with("exports:\n- none\n"));
}

#[test]
fn failed_symbol_inspection_falls_back_to_crates_io() {
    assert_eq!(
        inspect_fallback(&LibSourceSpec::Symbol("codec/lisp".to_owned())),
        Some(LibSourceSpec::CratesIo("sim-codec-lisp@^0.1".parse().unwrap()))
    );
    assert_eq!(
        inspect_fallback(&LibSourceSpec::Symbol("demo".to_owned())),
        Some(LibSourceSpec::CratesIo("sim-lib-demo@^0.1".parse().unwrap()))
    );
    assert_eq!(inspect_fallback(&LibSourceSpec::Symbol("a/b".to_owned())), None);
    assert_eq!(inspect_fallback(&LibSourceSpec::Host("codec/lisp".to_owned())), None);
}

#[test]
fn loaded_delegate_can_own_list_and_inspect_output() {
    let list = receipt(
        "delegate-list",
        LoadReceiptRole::Library,
        LibSourceSpec::Host("delegate/list".to_owned()),
        vec![export("cli/list", true, true)],
    );
    let inspect = receipt(
        "delegate-inspect",
        LoadReceiptRole::Library,
        LibSourceSpec::Host("delegate/inspect".to_owned()),
        vec![export("cli/inspect", true, true)],
    );
    let receipts = vec![list, inspect];
    let list_delegate = select_delegate(&receipts, CLI_LIST_ENTRYPOINT).unwrap();
    let inspect_delegate = select_delegate(&receipts, CLI_INSPECT_ENTRYPOINT).unwrap();
    assert_eq!(list_delegate.lib, Symbol::new("delegate-list".to_owned()));
    assert_eq!(inspect_delegate.lib, Symbol::new("delegate-inspect".to_owned()));
    // Each delegate's result stands in for the built-in section.
    let output = join_sections(vec!["delegated list".to_owned(), "delegated inspect".to_owned()]);
    assert!(output.contains("delegated list"));
    assert!(output.contains("delegated inspect"));
    assert!(!output.contains("catalog sources:"));
}
