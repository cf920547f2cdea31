use sim_run_core::loader_source::{
    bytes_from_source, bytes_source, catalog_path_source, check_realized_manifest,
    clone_data_source, content_address_payload, content_address_source, is_bytes_source,
    is_path_source, is_static_source, is_url_source, path_from_payload, path_from_source,
    path_payload, path_source, path_source_kind, port_can_load, static_artifact, static_source,
    url_from_source, url_source, LoaderKind, LoaderSource, PayloadMismatch, SourceDatum,
    StaticRegistry,
};
use sim_run_core::manifest::LibManifest;
use sim_run_core::Symbol;

fn sym(ns: &str, name: &str) -> Symbol {
    Symbol::qualified(ns.to_owned(), name.to_owned())
}

fn static_manifest() -> LibManifest {
    LibManifest {
        id: sym("test", "static"),
        version: "1.0.0".to_owned(),
        abi_major: 0,
        abi_minor: 1,
        target: Symbol::new("host-registered".to_owned()),
        dependencies: vec![],
        capabilities: vec![],
        exports: vec![],
    }
}

#[test]
fn static_registry_is_exact_and_uses_the_library_manifest() {
    let mut registry: StaticRegistry<fn() -> LibManifest> = StaticRegistry::new();
    let artifact = sym("artifact", "static-test");
    registry.register(artifact.clone(), static_manifest);
    let source = static_source(artifact.clone());
    assert!(is_static_source(&source));
    assert_eq!(static_artifact(&source).unwrap(), Some(artifact.clone()));
    let factory = registry.realize(&artifact).unwrap();
    let manifest = factory();
    assert_eq!(manifest, static_manifest());
    assert_eq!(check_realized_manifest(&manifest, &static_manifest()), Ok(()));
    assert_eq!(
        registry.realize(&sym("artifact", "missing")).err(),
        Some("no static library artifact registered as artifact/missing".to_owned())
    );
}

#[test]
fn malformed_static_source_fails_closed() {
    let source = LoaderSource::Open {
        kind: sym("loader", "static-artifact"),
        payload: SourceDatum::Bytes(vec![]),
    };
    assert!(!is_static_source(&source));
    assert!(static_artifact(&source).is_err());
    assert_eq!(
        static_artifact(&source),
        Err("static artifact source requires a symbol payload".to_owned())
    );
    assert_eq!(static_artifact(&url_source("https://x".to_owned())), Ok(None));
}

#[test]
fn static_registry_replaces_an_artifacts_factory() {
    fn first() -> u32 {
        1
    }
    fn second() -> u32 {
        2
    }
    let mut registry: StaticRegistry<fn() -> u32> = StaticRegistry::new();
    registry.register(sym("artifact", "a"), first);
    registry.register(sym("artifact", "b"), first);
    registry.register(sym("artifact", "a"), second);
    assert_eq!((registry.realize(&sym("artifact", "a")).unwrap())(), 2);
    assert_eq!((registry.realize(&sym("artifact", "b")).unwrap())(), 1);
}

#[test]
fn loader_ports_check_kind_and_realized_manifest() {
    let kinds = vec![LoaderKind::new(sym("loader", "native")), LoaderKind::new(sym("loader", "wasm"))];
    assert!(port_can_load(&kinds, &LoaderKind::new(sym("loader", "wasm")), true));
    assert!(!port_can_load(&kinds, &LoaderKind::new(sym("loader", "wasm")), false));
    assert!(!port_can_load(&kinds, &LoaderKind::new(sym("loader", "aot")), true));
    assert_eq!(LoaderKind::new(sym("loader", "aot")).symbol(), &sym("loader", "aot"));
    let mut other = static_manifest();
    other.version = "1.0.1".to_owned();
    assert_eq!(
        check_realized_manifest(&other, &static_manifest()),
        Err("loader outcome manifest does not match realized library".to_owned())
    );
    assert_eq!(
        clone_data_source(&LoaderSource::Host),
        Err("host library sources cannot cross LoaderPort".to_owned())
    );
    let source = path_source("/tmp/lib.so");
    assert_eq!(clone_data_source(&source), Ok(source.clone()));
}

#[test]
fn loader_source_kinds_carry_their_payload_grammar() {
    assert_eq!(path_source_kind(), Symbol::new("path".to_owned()));
    let path = path_source("/tmp/lib.so");
    assert_eq!(path, catalog_path_source("/tmp/lib.so"));
    assert_eq!(path_payload("/tmp/lib.so"), SourceDatum::Bytes(b"/tmp/lib.so".to_vec()));
    assert!(is_path_source(&path));
    assert!(!is_url_source(&path));
    assert_eq!(path_from_source(&path), Ok(Some(b"/tmp/lib.so".to_vec())));
    assert_eq!(
        path_from_payload(&SourceDatum::Str("./x.wasm".to_owned())),
        Ok(b"./x.wasm".to_vec())
    );
    assert_eq!(
        path_from_payload(&SourceDatum::Nil),
        Err(PayloadMismatch {
            expected: "path source string or bytes".to_owned(),
            found: "datum nil".to_owned()
        })
    );
    let url = url_source("https://example.test/lib.wasm".to_owned());
    assert_eq!(url_from_source(&url), Ok(Some("https://example.test/lib.wasm".to_owned())));
    assert_eq!(url_from_source(&path), Ok(None));
    let bad_url = LoaderSource::Open { kind: Symbol::new("url".to_owned()), payload: SourceDatum::Bool(true) };
    assert_eq!(
        url_from_source(&bad_url),
        Err(PayloadMismatch { expected: "source string".to_owned(), found: "datum bool".to_owned() })
    );
    let bytes = bytes_source(vec![0, 97, 115, 109]);
    assert!(is_bytes_source(&bytes));
    assert_eq!(bytes_from_source(&bytes), Ok(Some(vec![0, 97, 115, 109])));
    let addressed = content_address_source(SourceDatum::Str("sha256:abc".to_owned()));
    assert_eq!(content_address_payload(&addressed), Some(&SourceDatum::Str("sha256:abc".to_owned())));
    assert_eq!(content_address_payload(&bytes), None);
    assert_eq!(path_from_source(&LoaderSource::Symbol(sym("sim", "demo"))), Ok(None));
}
