use sim_run_core::loader_source::{bytes_source, path_source, url_source, LoaderSource, SourceDatum};
use sim_run_core::wasm_loader::{wasm_load_capability, WasmArtifact, WasmLoadError, WasmLoader};
use sim_run_core::Symbol;

const WASM_SITE_BYTES: &[u8] = b"\0asmloader-wasm-site";

#[test]
fn wasm_loader_takes_wasm_files_and_magic_bytes() {
    assert!(WasmLoader::can_load(&path_source("./lib.wasm")));
    assert!(WasmLoader::can_load(&path_source("/opt/libs/demo.component.wasm")));
    assert!(!WasmLoader::can_load(&path_source("./lib.so")));
    assert!(!WasmLoader::can_load(&path_source("./.wasm")));
    assert!(!WasmLoader::can_load(&path_source("./wasm")));
    assert!(WasmLoader::can_load(&bytes_source(WASM_SITE_BYTES.to_vec())));
    assert!(!WasmLoader::can_load(&bytes_source(b"\0as".to_vec())));
    assert!(!WasmLoader::can_load(&bytes_source(b"ELF\x7f....".to_vec())));
    assert!(!WasmLoader::can_load(&url_source("https://example.test/lib.wasm".to_owned())));
    assert!(!WasmLoader::can_load(&LoaderSource::Symbol(Symbol::new("demo".to_owned()))));
    assert_eq!(wasm_load_capability(), "loader.wasm");
}

#[test]
fn wasm_loader_loads_files_and_bytes_and_refuses_urls() {
    assert_eq!(
        WasmLoader::load_artifact(&path_source("./lib.wasm")),
        Ok(WasmArtifact::File(b"./lib.wasm".to_vec()))
    );
    assert_eq!(
        WasmLoader::load_artifact(&bytes_source(WASM_SITE_BYTES.to_vec())),
        Ok(WasmArtifact::Bytes(WASM_SITE_BYTES.to_vec()))
    );
    assert_eq!(
        WasmLoader::load_artifact(&url_source("https://example.test/lib.wasm".to_owned())),
        Err(WasmLoadError::Unsupported(
            "url loading is not implemented for wasm source https://example.test/lib.wasm".to_owned()
        ))
    );
    assert_eq!(
        WasmLoader::load_artifact(&LoaderSource::Host),
        Err(WasmLoadError::Unsupported("wasm loader received unsupported source".to_owned()))
    );
    let bad = LoaderSource::Open { kind: Symbol::new("bytes".to_owned()), payload: SourceDatum::Nil };
    assert!(matches!(WasmLoader::load_artifact(&bad), Err(WasmLoadError::Payload(_))));
}
