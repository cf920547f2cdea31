use sha2::Digest;
use sim_run_core::git_registry::{
    check_cached_size, content_addressed_file_name, index_artifact, normalize_endpoint,
    parse_index, parse_sha256_hex, safe_artifact_file_name, sha256_hex, url_path_component,
    verify_artifact_bytes,
};
use sim_run_core::{CratesIoSpec, GitRegistryResolver};

fn digest_hex(bytes: &[u8]) -> String {
    sha256_hex(&sha2::Sha256::digest(bytes).to_vec())
}

#[test]
fn rejects_implicit_or_https_endpoint() {
    assert_eq!(
        GitRegistryResolver::new("", String::new())
            .unwrap_err()
            .to_string(),
        "git registry endpoint is empty"
    );
    assert_eq!(
        GitRegistryResolver::new("https://example.invalid/sim", String::new())
            .unwrap_err()
            .to_string(),
        "git registry endpoint must use http:// in this build"
    );
}

#[test]
fn rejects_non_loopback_insecure_endpoint() {
    let err = GitRegistryResolver::new("http://forge.example/sim", String::new())
        .unwrap_err()
        .to_string();
    assert!(err.contains("is not loopback"), "unexpected error: {err}");
}

#[test]
fn rejects_unsafe_artifact_file_names() {
    assert_eq!(
        index_artifact(&format!("0.1.0 ../artifact.simlib {}", digest_hex(b"artifact")))
            .unwrap_err()
            .to_string(),
        "git registry artifact file name is not a safe path component: ../artifact.simlib"
    );
}

#[test]
fn rejects_index_rows_without_a_hash() {
    assert_eq!(
        index_artifact("0.1.0 artifact.simlib")
            .unwrap_err()
            .to_string(),
        "git registry index row must use: <version> <file-name> <sha256-hex>"
    );
}

#[test]
fn remote_message_names_host_and_override() {
    let err = GitRegistryResolver::new("http://forge.example/sim", String::new())
        .unwrap_err()
        .to_string();
    assert_eq!(
        err,
        "git registry endpoint host forge.example is not loopback; refusing an unauthenticated \
         http:// fetch to a remote host (set SIM_GIT_REGISTRY_ALLOW_INSECURE to override)"
    );
}

#[test]
fn loopback_endpoints_are_trimmed_and_accepted() {
    let r = GitRegistryResolver::new("  http://localhost:9000/sim//  ", "cache".to_string()).unwrap();
    assert_eq!(r.endpoint(), "http://localhost:9000/sim");
    assert_eq!(r.cache_dir(), "cache");
    assert!(GitRegistryResolver::new("http://127.0.0.1/sim", String::new()).is_ok());
    assert!(GitRegistryResolver::new("http://127.10.0.1/sim", String::new()).is_ok());
    assert!(GitRegistryResolver::with_policy("http://forge.example/sim", String::new(), true).is_ok());
    assert_eq!(
        normalize_endpoint("http://forge.example", true).unwrap(),
        "http://forge.example"
    );
}

#[test]
fn unparsable_endpoint_reports_the_url_error() {
    let err = normalize_endpoint("http://user@localhost/sim", false).unwrap_err();
    assert!(err.to_string().starts_with("git registry URL: "), "{}", err.to_string());
}

#[test]
fn index_rows_parse_skip_comments_and_reject_extra_fields() {
    let hex = digest_hex(b"artifact");
    let row = index_artifact(&format!("  0.1.0 artifact.simlib {hex}  ")).unwrap().unwrap();
    assert_eq!(row.version, "0.1.0");
    assert_eq!(row.file_name, "artifact.simlib");
    assert_eq!(row.sha256, sha2::Sha256::digest(b"artifact").to_vec());
    assert!(index_artifact("# comment").unwrap().is_none());
    assert!(index_artifact("   ").unwrap().is_none());
    assert_eq!(
        index_artifact(&format!("0.1.0 a {hex} extra")).unwrap_err().to_string(),
        "git registry index row has too many fields; expected: <version> <file-name> <sha256-hex>"
    );
}

#[test]
fn digest_text_errors_name_length_and_byte() {
    assert_eq!(
        parse_sha256_hex("abc").unwrap_err().to_string(),
        "git registry artifact sha256 must be 64 hex characters, got 3"
    );
    let mut bad = "0".repeat(63);
    bad.push('z');
    assert_eq!(
        parse_sha256_hex(&bad).unwrap_err().to_string(),
        "git registry artifact sha256 contains non-hex byte 0x7a"
    );
    let upper = "AB".repeat(32);
    assert_eq!(parse_sha256_hex(&upper).unwrap(), vec![0xab; 32]);
}

#[test]
fn digest_hex_round_trips() {
    let digest = sha2::Sha256::digest(b"sim").to_vec();
    assert_eq!(parse_sha256_hex(&sha256_hex(&digest)).unwrap(), digest);
}

#[test]
fn selects_newest_matching_row() {
    let a = digest_hex(b"a");
    let b = digest_hex(b"b");
    let c = digest_hex(b"c");
    let index = format!("0.1.0 a.simlib {a}\n# note\n0.1.4 b.simlib {b}\r\n0.2.0 c.simlib {c}\n");
    let resolver = GitRegistryResolver::new("http://localhost/sim", "cache".to_string()).unwrap();
    let spec: CratesIoSpec = "sim-lib-demo@^0.1".parse().unwrap();
    let row = resolver.select_version(&spec, &index).unwrap();
    assert_eq!(row.version, "0.1.4");
    assert_eq!(row.file_name, "b.simlib");
    assert_eq!(parse_index(&index).unwrap().len(), 3);
    let none: CratesIoSpec = "sim-lib-demo@^0.3".parse().unwrap();
    assert_eq!(
        resolver.select_version(&none, &index).unwrap_err().to_string(),
        "git registry has no version matching ^0.3 for sim-lib-demo"
    );
    let path = resolver.artifact_path(&spec, &row);
    assert_eq!(
        path,
        format!("cache/crates.io/sim-lib-demo/0.1.4/sha256-{b}-b.simlib")
    );
}

#[test]
fn urls_percent_encode_components() {
    let resolver = GitRegistryResolver::new("http://localhost/sim", String::new()).unwrap();
    assert_eq!(
        resolver.index_url("sim-lib-demo").unwrap(),
        "http://localhost/sim/packages/sim-lib-demo/index.txt"
    );
    assert_eq!(
        resolver.artifact_url("a b", "0.1.0+x", "f/é").unwrap(),
        "http://localhost/sim/packages/a%20b/0.1.0%2Bx/f%2F%C3%A9"
    );
    assert_eq!(
        url_path_component("").unwrap_err().to_string(),
        "git registry URL component is empty"
    );
}

#[test]
fn tampered_artifact_is_rejected_with_both_digests() {
    let hex = digest_hex(b"artifact");
    let row = index_artifact(&format!("0.1.0 artifact.simlib {hex}")).unwrap().unwrap();
    let spec: CratesIoSpec = "sim-lib-demo@0.1.0".parse().unwrap();
    assert!(verify_artifact_bytes(b"artifact", &spec, &row).is_ok());
    let err = verify_artifact_bytes(b"tampered", &spec, &row).unwrap_err().to_string();
    assert_eq!(
        err,
        format!(
            "git registry artifact sim-lib-demo@0.1.0 hash mismatch (expected {hex}, got {})",
            digest_hex(b"tampered")
        )
    );
}

#[test]
fn cached_artifacts_are_size_capped() {
    assert!(check_cached_size("/c/a", 64 << 20).is_ok());
    assert_eq!(
        check_cached_size("/c/a", (64 << 20) + 1).unwrap_err().to_string(),
        "cached git registry artifact /c/a exceeds 67108864 bytes"
    );
}

#[test]
fn file_names_must_be_one_component() {
    assert!(safe_artifact_file_name("a.simlib").is_ok());
    for bad in ["", ".", "..", "a/b", "a\\b"] {
        assert!(safe_artifact_file_name(bad).is_err(), "{bad}");
    }
    assert_eq!(
        content_addressed_file_name("f", &vec![0u8, 255]),
        "sha256-00ff-f"
    );
}
