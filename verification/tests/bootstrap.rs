use sim_run_core::bootstrap::{bootstrap_stdin, supplied_boot, supplied_bootstrap_boot, SuppliedEnvelope};
use sim_run_core::{ConfigRoots, Payload};

fn envelope(argv: &[&str], stdin: &[u8]) -> SuppliedEnvelope {
    SuppliedEnvelope {
        argv: argv.iter().map(|s| s.to_string()).collect(),
        stdin: stdin.to_vec(),
        config_home: Some("/home/u/.sim".to_owned()),
        config_work: "/w/.sim/config".to_owned(),
    }
}

#[test]
fn supplied_envelope_boots_without_discovery() {
    let boot = supplied_bootstrap_boot(envelope(&["sim", "run", "demo"], b"input")).unwrap();
    assert_eq!(
        boot.payload,
        Payload {
            args: vec!["run".to_owned(), "demo".to_owned()],
            eval: None,
            script: None,
            stdin: Some("input".to_owned()),
        }
    );
    assert_eq!(boot.codec, None);
    assert!(boot.loads.is_empty());
    assert!(boot.native_audio_provider.is_none());
    assert!(!boot.config.read_files);
    assert_eq!(boot.config.single_file, None);
    assert!(boot.config.site_sources.is_empty());
    assert_eq!(
        boot.config.roots,
        ConfigRoots::new(Some("/home/u/.sim".to_owned()), "/w/.sim/config".to_owned())
    );
    assert!(!boot.list);
    assert_eq!(boot.inspect, None);
}

#[test]
fn supplied_stdin_must_be_utf8_when_present() {
    let boot = supplied_bootstrap_boot(envelope(&["sim"], b"")).unwrap();
    assert_eq!(boot.payload.stdin, None);
    assert!(boot.payload.args.is_empty());
    let err = supplied_bootstrap_boot(envelope(&["sim"], &[0xff, 0xfe])).unwrap_err();
    assert_eq!(err.to_string(), "bootstrap stdin is not valid UTF-8");
    assert_eq!(bootstrap_stdin("é".as_bytes().to_vec()).unwrap(), Some("é".to_owned()));
    assert_eq!(bootstrap_stdin(Vec::new()).unwrap(), None);
}

#[test]
fn empty_argv_has_no_payload_args() {
    let boot = supplied_boot(Vec::new(), None, None, "w".to_owned());
    assert!(boot.payload.args.is_empty());
    assert_eq!(boot.config.roots.home, None);
}
