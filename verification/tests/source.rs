use sim_run_core::symbol::symbol_from_text;
use sim_run_core::{CratesIoSpec, LibSourceSpec, Symbol};

#[test]
fn parses_supported_source_specs() {
    assert_eq!(
        "symbol:codec/lisp".parse::<LibSourceSpec>().unwrap(),
        LibSourceSpec::Symbol("codec/lisp".to_owned())
    );
    assert_eq!(
        "path:./libs/demo.wasm".parse::<LibSourceSpec>().unwrap(),
        LibSourceSpec::Path("./libs/demo.wasm".to_owned())
    );
    assert_eq!(
        "url:https://example.invalid/demo.wasm"
            .parse::<LibSourceSpec>()
            .unwrap(),
        LibSourceSpec::Url("https://example.invalid/demo.wasm".to_owned())
    );
    assert_eq!(
        "bytes:abc".parse::<LibSourceSpec>().unwrap(),
        LibSourceSpec::Bytes(b"abc".to_vec())
    );
    assert_eq!(
        "host:test/demo".parse::<LibSourceSpec>().unwrap(),
        LibSourceSpec::Host("test/demo".to_owned())
    );
    assert_eq!(
        "crates.io:sim-codec-lisp@0.1.0"
            .parse::<LibSourceSpec>()
            .unwrap(),
        LibSourceSpec::CratesIo("sim-codec-lisp@0.1.0".parse::<CratesIoSpec>().unwrap())
    );
}

#[test]
fn source_parse_errors_are_typed() {
    assert_eq!(
        "codec/lisp"
            .parse::<LibSourceSpec>()
            .unwrap_err()
            .to_string(),
        "library source must use kind:value syntax"
    );
    assert_eq!(
        "symbol:".parse::<LibSourceSpec>().unwrap_err().to_string(),
        "symbol: source value is empty"
    );
    assert_eq!(
        "crate:sim"
            .parse::<LibSourceSpec>()
            .unwrap_err()
            .to_string(),
        "unsupported library source kind: crate"
    );
}

#[test]
fn sources_render_as_kind_and_value() {
    for text in ["symbol:a/b", "path:./x", "url:http://h/x", "host:demo", "crates.io:p@^0.1"] {
        assert_eq!(text.parse::<LibSourceSpec>().unwrap().to_string(), text);
    }
    assert_eq!(LibSourceSpec::Bytes(vec![1, 2, 3]).to_string(), "bytes:3 bytes");
}

#[test]
fn symbols_split_at_the_first_slash() {
    assert_eq!(
        symbol_from_text("config/runtime"),
        Symbol::qualified("config".to_owned(), "runtime".to_owned())
    );
    assert_eq!(
        symbol_from_text("a/b/c"),
        Symbol::qualified("a".to_owned(), "b/c".to_owned())
    );
    assert_eq!(symbol_from_text("/x"), Symbol::new("/x".to_owned()));
    assert_eq!(symbol_from_text("x/"), Symbol::new("x/".to_owned()));
    assert_eq!(symbol_from_text("plain"), Symbol::new("plain".to_owned()));
    assert_eq!(symbol_from_text("a/b/c").as_qualified_str(), "a/b/c");
}

#[test]
fn unknown_source_kind_is_rejected_before_loading() {
    let err = "crate:demo".parse::<LibSourceSpec>().unwrap_err();
    assert_eq!(err.to_string(), "unsupported library source kind: crate");
}
