use sim_run_core::crates_io::{cache_artifact_path, fallback_spec_for_symbol, join_path};
use sim_run_core::version::compare_versions;
use sim_run_core::version::VersionOrder;
use sim_run_core::crates_io::pick_artifact_file;
use sim_run_core::{CachedVersion, CratesIoResolver, CratesIoSpec, ResolveStep, VersionReq};

#[test]
fn parses_crates_io_specs_and_requirements() {
    let exact = "sim-codec-lisp@0.1.0".parse::<CratesIoSpec>().unwrap();
    assert_eq!(exact.package, "sim-codec-lisp");
    assert_eq!(exact.requirement.as_str(), "0.1.0");
    assert!(exact.requirement.matches("0.1.0"));
    assert!(!exact.requirement.matches("0.1.1"));

    let caret = "sim-lib-demo@^0.1".parse::<CratesIoSpec>().unwrap();
    assert!(caret.requirement.matches("0.1.0"));
    assert!(caret.requirement.matches("0.1.9"));
    assert!(!caret.requirement.matches("0.2.0"));
}

#[test]
fn fallback_mapping_names_codec_and_lib_packages() {
    assert_eq!(
        fallback_spec_for_symbol("codec/lisp").unwrap().to_string(),
        "sim-codec-lisp@^0.1"
    );
    assert_eq!(
        fallback_spec_for_symbol("demo").unwrap().to_string(),
        "sim-lib-demo@^0.1"
    );
    assert!(fallback_spec_for_symbol("domain/demo").is_none());
}

#[test]
fn cache_miss_is_a_clear_cache_only_failure() {
    let resolver = CratesIoResolver::new("/tmp/sim-cache".to_string());
    let err = resolver
        .resolve(&"sim-lib-demo@0.1.0".parse().unwrap(), &Vec::new())
        .unwrap_err();
    assert_eq!(
        err.to_string(),
        "crates.io network fetch is not implemented (cache-only resolver); \
         seed the cache for sim-lib-demo@0.1.0"
    );
}

#[test]
fn cache_hit_resolves_without_registry() {
    let resolver = CratesIoResolver::new("/tmp/sim-cache".to_string());
    let cached = vec![CachedVersion {
        version: "0.1.0".to_string(),
        files: vec![
            "/tmp/sim-cache/crates.io/sim-lib-demo/0.1.0/a-first.bin".to_string(),
            "/tmp/sim-cache/crates.io/sim-lib-demo/0.1.0/artifact.simlib".to_string(),
        ],
    }];
    let step = resolver
        .resolve(&"sim-lib-demo@0.1.0".parse().unwrap(), &cached)
        .unwrap();
    let ResolveStep::Cached(resolved) = step else {
        panic!("expected a cached artifact");
    };
    assert_eq!(resolved.version, "0.1.0");
    assert_eq!(
        resolved.artifact,
        "/tmp/sim-cache/crates.io/sim-lib-demo/0.1.0/artifact.simlib"
    );
}

#[test]
fn fake_registry_resolve_caches_artifact() {
    let resolver = CratesIoResolver::new("/tmp/sim-cache".to_string()).with_registry_artifact(
        "sim-lib-demo".to_string(),
        "0.1.2".to_string(),
        "/tmp/source/artifact.simlib".to_string(),
    );
    let step = resolver
        .resolve(&"sim-lib-demo@^0.1".parse().unwrap(), &Vec::new())
        .unwrap();
    let ResolveStep::CopyRegistry { from, resolved } = step else {
        panic!("expected a registry copy");
    };
    assert_eq!(from, "/tmp/source/artifact.simlib");
    assert_eq!(resolved.version, "0.1.2");
    assert_eq!(
        resolved.artifact,
        "/tmp/sim-cache/crates.io/sim-lib-demo/0.1.2/artifact.simlib"
    );
}

#[test]
fn cache_pick_prefers_newest_matching_version() {
    let resolver = CratesIoResolver::new("/c".to_string()).with_registry_artifact(
        "sim-lib-demo".to_string(),
        "0.1.9".to_string(),
        "/r/a".to_string(),
    );
    let cached = vec![
        CachedVersion { version: "0.1.2".to_string(), files: vec!["/c/a".to_string()] },
        CachedVersion { version: "0.2.0".to_string(), files: vec!["/c/b".to_string()] },
        CachedVersion { version: "0.1.10".to_string(), files: vec!["/c/c".to_string()] },
        CachedVersion { version: "0.1.3".to_string(), files: vec!["/c/d".to_string()] },
    ];
    let step = resolver
        .resolve(&"sim-lib-demo@^0.1".parse().unwrap(), &cached)
        .unwrap();
    let ResolveStep::Cached(resolved) = step else {
        panic!("the cache wins over the registry");
    };
    assert_eq!(resolved.version, "0.1.10");
    assert_eq!(resolved.artifact, "/c/c");
    assert_eq!(resolved.package, "sim-lib-demo");
}

#[test]
fn registry_pick_ignores_other_packages() {
    let resolver = CratesIoResolver::new("cache".to_string())
        .with_registry_artifact("other".to_string(), "0.1.5".to_string(), "/o".to_string())
        .with_registry_artifact("sim-lib-demo".to_string(), "0.1.1".to_string(), "/d".to_string());
    let step = resolver
        .resolve(&"sim-lib-demo@*".parse().unwrap(), &Vec::new())
        .unwrap();
    let ResolveStep::CopyRegistry { from, resolved } = step else {
        panic!("expected a registry copy");
    };
    assert_eq!(from, "/d");
    assert_eq!(resolved.artifact, "cache/crates.io/sim-lib-demo/0.1.1/artifact.simlib");
}

#[test]
fn git_resolver_takes_over_after_misses() {
    let git = sim_run_core::GitRegistryResolver::new("http://127.0.0.1:8080/sim/", "cache".to_string())
        .unwrap();
    let resolver = CratesIoResolver::new("cache".to_string()).with_git_registry_resolver(git);
    let step = resolver
        .resolve(&"sim-lib-demo@^0.1".parse().unwrap(), &Vec::new())
        .unwrap();
    let ResolveStep::FetchGitRegistry(g) = step else {
        panic!("expected a git registry fetch");
    };
    assert_eq!(g.endpoint(), "http://127.0.0.1:8080/sim");
}

#[test]
fn requirement_errors_name_the_empty_part() {
    assert_eq!(
        "".parse::<VersionReq>().unwrap_err().to_string(),
        "crates.io version requirement is empty"
    );
    assert_eq!(
        "^".parse::<VersionReq>().unwrap_err().to_string(),
        "crates.io caret requirement is empty"
    );
    assert_eq!(
        "=".parse::<VersionReq>().unwrap_err().to_string(),
        "crates.io exact requirement is empty"
    );
    assert_eq!(
        "demo".parse::<CratesIoSpec>().unwrap_err().to_string(),
        "crates.io source must use NAME@REQ syntax"
    );
    assert_eq!(
        "@1.0".parse::<CratesIoSpec>().unwrap_err().to_string(),
        "crates.io package name is empty"
    );
}

#[test]
fn caret_ranges_follow_the_leading_nonzero_component() {
    let major: VersionReq = "^1.2".parse().unwrap();
    assert!(major.matches("1.9.0"));
    assert!(!major.matches("1.1.9"));
    assert!(!major.matches("2.0.0"));
    let patch: VersionReq = "^0.0.3".parse().unwrap();
    assert!(patch.matches("0.0.3"));
    assert!(!patch.matches("0.0.4"));
    let exact: VersionReq = "=0.3.0".parse().unwrap();
    assert!(exact.matches("0.3.0"));
    assert!(!exact.matches("0.3"));
    let any: VersionReq = "*".parse().unwrap();
    assert!(any.matches("anything"));
}

#[test]
fn versions_compare_by_numeric_components() {
    assert_eq!(compare_versions("0.1.10", "0.1.9"), VersionOrder::Greater);
    assert_eq!(compare_versions("1.0", "1.0.0"), VersionOrder::Equal);
    assert_eq!(compare_versions("1.0.0-beta", "1.0.1"), VersionOrder::Less);
    assert_eq!(compare_versions("x", "0"), VersionOrder::Equal);
}

#[test]
fn cache_paths_join_like_paths() {
    assert_eq!(join_path("a/", "b"), "a/b");
    assert_eq!(join_path("a", "/b"), "/b");
    assert_eq!(join_path("", "b"), "b");
    assert_eq!(
        cache_artifact_path("/c", "p", "1.0"),
        "/c/crates.io/p/1.0/artifact.simlib"
    );
}

#[test]
fn default_cache_dir_prefers_explicit_then_xdg_then_home_then_temp() {
    let s = |v: &str| Some(v.to_owned());
    assert_eq!(CratesIoResolver::default_cache_dir(s("/c"), s("/x"), s("/h"), "/tmp"), "/c");
    assert_eq!(CratesIoResolver::default_cache_dir(None, s("/x"), s("/h"), "/tmp"), "/x/sim/libs");
    assert_eq!(CratesIoResolver::default_cache_dir(None, None, s("/h/"), "/tmp"), "/h/.cache/sim/libs");
    assert_eq!(CratesIoResolver::default_cache_dir(None, None, None, "/tmp"), "/tmp/sim/libs");
}

#[test]
fn cached_artifact_prefers_artifact_simlib_else_least_path() {
    let files = |v: &[&str]| v.iter().map(|s| s.to_string()).collect::<Vec<String>>();
    assert_eq!(pick_artifact_file(&files(&[])), None);
    assert_eq!(pick_artifact_file(&files(&["/c/0.1.0/z.bin", "/c/0.1.0/artifact.simlib"])), Some(1));
    assert_eq!(pick_artifact_file(&files(&["/c/0.1.0/z.bin", "/c/0.1.0/b.bin", "/c/0.1.0/c"])), Some(1));
    assert_eq!(pick_artifact_file(&files(&["/c/0.1.0/xartifact.simlib", "/c/0.1.0/a"])), Some(1));
    let empty = CachedVersion { version: "0.3.0".to_string(), files: vec![] };
    assert_eq!(empty.artifact(), None);
    let resolver = CratesIoResolver::new("/c".to_string());
    let cached = vec![
        empty,
        CachedVersion { version: "0.1.0".to_string(), files: files(&["/c/0.1.0/z", "/c/0.1.0/m"]) },
    ];
    let step = resolver.resolve(&"sim-lib-demo@*".parse().unwrap(), &cached).unwrap();
    let ResolveStep::Cached(resolved) = step else {
        panic!("a version directory without files is skipped");
    };
    assert_eq!(resolved.version, "0.1.0");
    assert_eq!(resolved.artifact, "/c/0.1.0/m");
}

#[test]
fn spec_text_parses_back_to_the_spec() {
    let spec = CratesIoSpec::new("sim-codec-lisp".to_string(), "^0.1".parse().unwrap()).unwrap();
    let text = spec.to_string();
    assert_eq!(text, "sim-codec-lisp@^0.1");
    assert_eq!(text.parse::<CratesIoSpec>().unwrap(), spec);
    let req: VersionReq = "=0.2.0".parse().unwrap();
    assert_eq!(req.to_string(), "=0.2.0");
    assert_eq!(
        "no-at-sign".parse::<CratesIoSpec>().unwrap_err().to_string(),
        "crates.io source must use NAME@REQ syntax"
    );
}
