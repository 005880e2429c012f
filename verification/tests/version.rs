use invoicemd_cli::version::{LONG_VERSION, VERSION};

#[test]
fn version_is_semver_like() {
    let parts: Vec<_> = VERSION.split('.').collect();
    assert_eq!(parts.len(), 3, "VERSION should be major.minor.patch");
    for part in parts {
        assert!(
            part.parse::<u32>().is_ok(),
            "version parts should be numeric"
        );
    }
}

#[test]
fn long_version_includes_crate_version() {
    assert!(LONG_VERSION.starts_with(VERSION));
}
