use sim_run_core::loopback::host_is_loopback;

#[test]
fn names_of_the_local_machine() {
    for host in [
        "localhost",
        "LocalHost",
        "127.0.0.1",
        "127.255.3.4",
        "::1",
        "0:0:0:0:0:0:0:1",
        "0000::0001",
        "::0.0.0.1",
        "0:0::0:1",
    ] {
        assert!(host_is_loopback(host), "{host}");
    }
}

#[test]
fn remote_or_malformed_hosts() {
    for host in [
        "forge.example",
        "localhost.",
        "128.0.0.1",
        "127.0.0",
        "127.0.0.01",
        "127.0.0.256",
        "::2",
        "::ffff:127.0.0.1",
        "1::1",
        ":::1",
        "0:0:0:0:0:0:0:0:1",
        "00000::1",
        "",
    ] {
        assert!(!host_is_loopback(host), "{host}");
    }
}
