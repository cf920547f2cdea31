use sim_run_core::load_plan::{
    after_codec_load_failure, after_data_load_failure, boot_load_plan, check_loadable_path,
    load_route, BootSession, LoadRoute, SessionAction,
};
use sim_run_core::{CliError, LibSourceSpec};

#[test]
fn sources_route_by_kind_and_symbols_fall_back_to_crates_io() {
    assert!(matches!(load_route(&LibSourceSpec::Host("stream/host".to_owned())), LoadRoute::Host(n) if n == "stream/host"));
    let LoadRoute::Data { fallback: Some(spec) } = load_route(&LibSourceSpec::Symbol("codec/lisp".to_owned())) else {
        panic!("a codec symbol falls back to its crates.io package");
    };
    assert_eq!(spec.to_string(), "sim-codec-lisp@^0.1");
    let LoadRoute::Data { fallback: Some(spec) } = load_route(&LibSourceSpec::Symbol("demo".to_owned())) else {
        panic!("a bare symbol falls back to its crates.io package");
    };
    assert_eq!(spec.to_string(), "sim-lib-demo@^0.1");
    assert!(matches!(load_route(&LibSourceSpec::Path("./x.wasm".to_owned())), LoadRoute::Data { fallback: None }));
    let source: LibSourceSpec = "crates.io:sim-lib-demo@=0.1.0".parse().unwrap();
    assert!(matches!(load_route(&source), LoadRoute::CratesIo(s) if s.to_string() == "sim-lib-demo@=0.1.0"));
}

#[test]
fn missing_paths_and_failed_codecs_report_their_errors() {
    let path = LibSourceSpec::Path("./missing.wasm".to_owned());
    assert_eq!(
        check_loadable_path(&path, false).unwrap_err().to_string(),
        "path source not found for path:./missing.wasm: ./missing.wasm"
    );
    assert!(check_loadable_path(&path, true).is_ok());
    assert!(check_loadable_path(&LibSourceSpec::Url("https://x".to_owned()), false).is_ok());

    let err = CliError::new("load failed".to_owned());
    assert!(after_data_load_failure(None, err.clone()).is_err());
    assert_eq!(
        after_codec_load_failure(true, "lisp", "codec/lisp", &err),
        Ok(LibSourceSpec::Host("codec/lisp".to_owned()))
    );
    assert_eq!(
        after_codec_load_failure(false, "lisp", "codec/lisp", &err).unwrap_err().to_string(),
        "no codec 'lisp' available; provide one with --load (load failed)"
    );
}

#[test]
fn boot_session_loads_codec_first_and_marks_its_receipt() {
    let plan = boot_load_plan(2, None, &vec![]);
    let (mut session, first) = BootSession::start(plan, false, "lisp".to_owned());
    assert_eq!(first, SessionAction::LoadCodecSymbol);
    assert_eq!(session.on_outcome(Ok(())), SessionAction::LoadSource { index: 0, codec: false });
    assert_eq!(session.on_outcome(Ok(())), SessionAction::LoadSource { index: 1, codec: false });
    assert_eq!(session.on_outcome(Ok(())), SessionAction::Done);
    assert_eq!(session.receipt_roles(), &vec![true, false, false]);
}

#[test]
fn failed_codec_falls_back_to_host_once() {
    let plan = boot_load_plan(1, Some(0), &vec![false]);
    let (mut session, first) = BootSession::start(plan.clone(), true, "lisp".to_owned());
    assert_eq!(first, SessionAction::LoadSource { index: 0, codec: true });
    let err = CliError::new("not found".to_owned());
    assert_eq!(session.on_outcome(Err(err.clone())), SessionAction::LoadHostCodec);
    assert_eq!(
        session.on_outcome(Err(CliError::new("host failed".to_owned()))),
        SessionAction::Fail("host failed".to_owned())
    );
    assert!(session.receipt_roles().is_empty());

    let (mut session, _) = BootSession::start(plan, false, "lisp".to_owned());
    assert_eq!(
        session.on_outcome(Err(err)),
        SessionAction::Fail("no codec 'lisp' available; provide one with --load (not found)".to_owned())
    );
}
