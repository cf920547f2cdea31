use sim_run_core::exit::{exit_code_from_number, exit_code_from_truth, EXIT_FAILURE, EXIT_SUCCESS};
use sim_run_core::receipt::{ExportState, ReceiptExport};
use sim_run_core::{
    boot_load_requests, cli_main_entrypoint_symbol, select_cli_entrypoint, LibSourceSpec,
    LoadReceipt, LoadReceiptRole, Symbol,
};
use sim_run_core::platform_bundle::{BundleContent, LibraryLoadPlan};
use sim_run_core::BootLoadRequest;

fn receipt(id: &str, role: LoadReceiptRole, exports: Vec<ReceiptExport>) -> LoadReceipt {
    LoadReceipt {
        lib: Symbol::new(id.to_owned()),
        version: "0.1.0".to_owned(),
        role,
        requested_source: LibSourceSpec::Host(id.to_owned()),
        resolved_source: LibSourceSpec::Host(id.to_owned()),
        target: "Native".to_owned(),
        dependencies: vec![],
        exports,
    }
}

fn main_export(name: &str) -> ReceiptExport {
    ReceiptExport {
        kind: Symbol::new("function".to_owned()),
        symbol: cli_main_entrypoint_symbol(name),
        state: ExportState::Resolved { id: "FunctionId(1)".to_owned() },
    }
}

fn codec_role() -> LoadReceiptRole {
    LoadReceiptRole::boot_codec("test".to_owned(), "codec/test".to_owned())
}

#[test]
fn explicit_loaded_lib_entrypoint_wins_over_codec_entrypoint() {
    let receipts = vec![
        receipt("codec-test", codec_role(), vec![main_export("codec-test")]),
        receipt("app-success", LoadReceiptRole::Library, vec![main_export("app-success")]),
    ];
    let entry = select_cli_entrypoint(&receipts).unwrap();
    assert_eq!(entry.lib, Symbol::new("app-success".to_owned()));
    assert_eq!(entry.symbol.as_qualified_str(), "cli/main/app-success");
    assert_eq!(exit_code_from_truth(true), 0);
}

#[test]
fn boot_codec_entrypoint_is_fallback() {
    let receipts = vec![
        receipt("codec-test", codec_role(), vec![main_export("codec-test")]),
        receipt("app-plain", LoadReceiptRole::Library, vec![]),
    ];
    let entry = select_cli_entrypoint(&receipts).unwrap();
    assert_eq!(entry.lib, Symbol::new("codec-test".to_owned()));
    assert_eq!(exit_code_from_truth(true), 0);
}

#[test]
fn false_result_maps_to_failure_exit_code() {
    let receipts = vec![
        receipt("codec-test", codec_role(), vec![]),
        receipt("app-fail", LoadReceiptRole::Library, vec![main_export("app-fail")]),
    ];
    let entry = select_cli_entrypoint(&receipts).unwrap();
    assert_eq!(entry.lib, Symbol::new("app-fail".to_owned()));
    assert_eq!(exit_code_from_truth(false), 1);
}

#[test]
fn explicit_exit_code_domain_preserves_product_outcome() {
    assert_eq!(exit_code_from_number("30").unwrap(), 30);
}

#[test]
fn exit_code_numbers_outside_a_byte_are_rejected() {
    assert_eq!(exit_code_from_number("0").unwrap(), 0);
    assert_eq!(exit_code_from_number("255").unwrap(), 255);
    assert_eq!(exit_code_from_number("+7").unwrap(), 7);
    assert_eq!(exit_code_from_number("-0").unwrap(), 0);
    assert_eq!(exit_code_from_number("007").unwrap(), 7);
    for bad in ["256", "-1", "x", "", "+", "1.5", " 3", "99999999999"] {
        assert_eq!(
            exit_code_from_number(bad).unwrap_err().to_string(),
            "CLI exit-code number must be an integer in 0..=255",
            "{bad}"
        );
    }
    assert_eq!(EXIT_SUCCESS, 0);
    assert_eq!(EXIT_FAILURE, 1);
}

#[test]
fn unresolved_or_non_function_exports_do_not_claim() {
    let mut unresolved = main_export("a");
    unresolved.state = ExportState::Declared;
    let mut value = main_export("b");
    value.kind = Symbol::new("value".to_owned());
    let other = ReceiptExport {
        kind: Symbol::new("function".to_owned()),
        symbol: Symbol::qualified("cli".to_owned(), "mainly".to_owned()),
        state: ExportState::Resolved { id: "FunctionId(2)".to_owned() },
    };
    let receipts = vec![receipt("a", LoadReceiptRole::Library, vec![unresolved, value, other])];
    assert!(select_cli_entrypoint(&receipts).is_err());
}

#[test]
fn missing_entrypoint_lists_loaded_libs_and_load_hint() {
    let receipts = vec![
        receipt("codec-test", codec_role(), vec![]),
        receipt("app-plain", LoadReceiptRole::Library, vec![]),
    ];
    let err = select_cli_entrypoint(&receipts).unwrap_err().to_string();
    assert!(err.contains("no loaded lib claims cli/main"));
    assert!(err.contains("codec-test"));
    assert!(err.contains("app-plain"));
    assert!(err.contains("load one with --load"));
    assert_eq!(
        err,
        "no loaded lib claims cli/main; loaded libs: codec-test, app-plain; load one with --load"
    );
    assert_eq!(
        select_cli_entrypoint(&Vec::new()).unwrap_err().to_string(),
        "no loaded lib claims cli/main; loaded libs: none; load one with --load"
    );
}

#[test]
fn bootloader_consumes_only_the_shared_envelope_load_plan() {
    let plan = LibraryLoadPlan {
        application: BundleContent {
            id: "application/portable".into(),
            content_digest: "sha256:app".into(),
        },
        libraries: vec![BundleContent { id: "library/core".into(), content_digest: "sha256:core".into() }],
    };
    assert_eq!(
        boot_load_requests(&plan),
        vec![
            BootLoadRequest { id: "application/portable".into(), content_digest: "sha256:app".into() },
            BootLoadRequest { id: "library/core".into(), content_digest: "sha256:core".into() },
        ]
    );
}
