use sim_run_core::{version_line, version_line_for};

#[test]
fn version_line_uses_package_version() {
    assert_eq!(version_line(), "sim 0.1.0\n");
}

#[test]
fn version_line_accepts_product_binary_version() {
    assert_eq!(version_line_for("7.8.9"), "sim 7.8.9\n");
}
