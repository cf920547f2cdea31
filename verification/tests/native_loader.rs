use sim_run_core::manifest::{ExportDeclKind, LibManifest, ManifestExport};
use sim_run_core::native_loader::{
    check_abi_struct_size, check_op_name, decode_proxy_input, encode_proxy_output,
    guest_error_message, native_codec_shapes, native_export_bindings, EncodeReply, NativeAbiEntry, ProxyInput, native_manifest, NativeExportBinding, owned_bytes_shape, validate_native_abi_header,
    NativeDylibLoader,
};
use sim_run_core::Symbol;
use std::path::Path;

fn manifest_with_target(target: Symbol) -> LibManifest {
    LibManifest {
        id: Symbol::new("demo".to_owned()),
        version: "0.1.0".to_owned(),
        abi_major: 1,
        abi_minor: 0,
        target,
        dependencies: Vec::new(),
        capabilities: Vec::new(),
        exports: Vec::new(),
    }
}

fn empty_bytes_check() {
    assert_eq!(owned_bytes_shape("test", true, 0, 0).unwrap(), true);
}

fn null_pointer_check() {
    let err = owned_bytes_shape("test", true, 8, 8).expect_err("null ptr with len must be rejected");
    assert!(err.to_string().contains("invalid native byte buffer"));
    assert_eq!(
        err.to_string(),
        "test returned an invalid native byte buffer (null: true, len 8, cap 8)"
    );
}

fn beyond_capacity_check() {
    let err = owned_bytes_shape("test", false, 64, 1).expect_err("len past cap must be rejected");
    assert!(err.to_string().contains("invalid native byte buffer"));
    assert_eq!(
        err.to_string(),
        "test returned an invalid native byte buffer (null: false, len 64, cap 1)"
    );
    assert_eq!(owned_bytes_shape("test", false, 4, 8).unwrap(), false);
}

fn forces_native_check() {
    let manifest =
        native_manifest(manifest_with_target(Symbol::new("host-registered".to_owned()))).unwrap();
    assert_eq!(manifest.target, Symbol::new("native".to_owned()));
}

fn accepts_native_check() {
    let manifest = native_manifest(manifest_with_target(Symbol::new("native".to_owned()))).unwrap();
    assert_eq!(manifest.target, Symbol::new("native".to_owned()));
}

#[test]
fn native_empty_owned_bytes_do_not_build_null_slice() {
    empty_bytes_check();
}

#[test]
fn native_null_pointer_with_positive_length_is_rejected() {
    null_pointer_check();
}

#[test]
fn native_length_beyond_capacity_is_rejected() {
    beyond_capacity_check();
}

#[test]
fn native_native_manifest_forces_native_target_over_guest_host_registered() {
    forces_native_check();
}

#[test]
fn native_native_manifest_accepts_native_target() {
    accepts_native_check();
}

#[test]
fn abi_guard_tests_empty_owned_bytes_do_not_build_null_slice() {
    empty_bytes_check();
}

#[test]
fn abi_guard_tests_null_pointer_with_positive_length_is_rejected() {
    null_pointer_check();
}

#[test]
fn abi_guard_tests_length_beyond_capacity_is_rejected() {
    beyond_capacity_check();
}

#[test]
fn abi_guard_tests_native_manifest_forces_native_target_over_guest_host_registered() {
    forces_native_check();
}

#[test]
fn abi_guard_tests_native_manifest_accepts_native_target() {
    accepts_native_check();
}

#[test]
fn native_libraries_are_recognized_by_extension_like_std_paths() {
    let paths = [
        "lib.so", "/usr/lib/libdemo.so", "demo.dylib", "demo.dll", "demo.so.1", ".so", "a/.so",
        "demo", "demo.", "demo.wasm", "x/y.so/", "x/y.so/.", "x/..", "/", "", ".", "a.b.dll",
        "a..so", "./z.dylib", "DLL.DLL",
    ];
    for p in paths {
        let expected = matches!(
            Path::new(p).extension().and_then(|e| e.to_str()),
            Some("so" | "dylib" | "dll")
        );
        assert_eq!(NativeDylibLoader::can_load(p), expected, "{p:?}");
    }
}

#[test]
fn abi_headers_are_checked_against_the_host() {
    assert!(validate_native_abi_header(24, 1, 3, "/l/a.so", 16, 1).is_ok());
    assert_eq!(
        validate_native_abi_header(8, 1, 0, "/l/a.so", 16, 1).unwrap_err().to_string(),
        "native dylib /l/a.so reported ABI struct size 8 smaller than host header 16"
    );
    assert_eq!(
        validate_native_abi_header(24, 2, 5, "/l/a.so", 16, 1).unwrap_err().to_string(),
        "native dylib /l/a.so reported unsupported native ABI 2.5"
    );
    assert!(check_abi_struct_size(64, "/l/a.so", 64).is_ok());
    assert_eq!(
        check_abi_struct_size(16, "/l/a.so", 64).unwrap_err().to_string(),
        "native dylib /l/a.so reported ABI struct size 16 smaller than host minimum 64"
    );
}

fn export(kind: ExportDeclKind, ns: &str, name: &str) -> ManifestExport {
    ManifestExport { kind, symbol: Symbol::qualified(ns.to_owned(), name.to_owned()) }
}

#[test]
fn native_exports_bind_by_kind_with_codec_operations() {
    let exports = vec![
        export(ExportDeclKind::Function, "demo", "run"),
        export(ExportDeclKind::Codec, "codec", "demo"),
        export(ExportDeclKind::Site, "demo", "site"),
    ];
    let (bindings, error) = native_export_bindings(&exports);
    assert_eq!(error, None);
    assert_eq!(bindings.len(), 3);
    assert_eq!(bindings[0], NativeExportBinding::Function(Symbol::qualified("demo".to_owned(), "run".to_owned())));
    assert_eq!(
        bindings[1],
        NativeExportBinding::Codec {
            symbol: Symbol::qualified("codec".to_owned(), "demo".to_owned()),
            decode_op: "codec/demo/decode".to_owned(),
            encode_op: "codec/demo/encode".to_owned(),
        }
    );
    assert_eq!(bindings[2], NativeExportBinding::Site(Symbol::qualified("demo".to_owned(), "site".to_owned())));
}

#[test]
fn native_exports_stop_at_the_first_unsupported_kind() {
    let exports = vec![
        export(ExportDeclKind::Macro, "demo", "m"),
        export(ExportDeclKind::Value, "demo", "v"),
        export(ExportDeclKind::Function, "demo", "f"),
    ];
    let (bindings, error) = native_export_bindings(&exports);
    assert_eq!(bindings, vec![NativeExportBinding::Macro(Symbol::qualified("demo".to_owned(), "m".to_owned()))]);
    assert_eq!(
        error.as_deref(),
        Some("native dylib export value demo/v is not yet supported by the stable native ABI")
    );
    let open = vec![export(ExportDeclKind::Open(Symbol::qualified("ext".to_owned(), "widget".to_owned())), "demo", "w")];
    let (bindings, error) = native_export_bindings(&open);
    assert!(bindings.is_empty());
    assert_eq!(
        error.as_deref(),
        Some("native dylib export export demo/w is not yet supported by the stable native ABI")
    );
}

#[test]
fn native_abi_calls_reject_nul_names_and_report_guest_errors() {
    assert_eq!(check_op_name("codec/mock/decode"), Ok(()));
    assert_eq!(
        check_op_name("bad\0op"),
        Err("native ABI op bad\0op contains an interior NUL byte".to_owned())
    );
    assert_eq!(guest_error_message(NativeAbiEntry::Call, Some("boom".to_owned())), "boom");
    assert_eq!(
        guest_error_message(NativeAbiEntry::Call, None),
        "native ABI call failed without an error message"
    );
    assert_eq!(
        guest_error_message(NativeAbiEntry::Manifest, None),
        "native ABI manifest call failed without an error message"
    );
}

#[test]
fn native_codec_proxies_pass_text_only() {
    assert_eq!(decode_proxy_input(ProxyInput::Text("(hello)".to_owned())), Ok("(hello)".to_owned()));
    assert_eq!(
        decode_proxy_input(ProxyInput::Bytes(vec![1, 2])),
        Err("native codec proxy decode: bytes input is not yet supported".to_owned())
    );
    assert_eq!(encode_proxy_output(EncodeReply::Text("rendered".to_owned())), Ok("rendered".to_owned()));
    assert_eq!(
        encode_proxy_output(EncodeReply::Other("Nil".to_owned())),
        Err("native codec proxy encode: expected text output, got Nil".to_owned())
    );
}

#[test]
fn native_codec_shapes_fall_back_to_any_then_nil() {
    let q = |ns: &str, n: &str| Symbol::qualified(ns.to_owned(), n.to_owned());
    let all = vec![q("core", "Expr"), q("core", "EncodeOptions"), q("core", "Any")];
    assert_eq!(native_codec_shapes(&all), (Some(q("core", "Expr")), Some(q("core", "EncodeOptions"))));
    let any_only = vec![q("core", "Any")];
    assert_eq!(native_codec_shapes(&any_only), (Some(q("core", "Any")), Some(q("core", "Any"))));
    assert_eq!(native_codec_shapes(&vec![q("core", "Expr")]), (Some(q("core", "Expr")), None));
    assert_eq!(native_codec_shapes(&vec![]), (None, None));
}
