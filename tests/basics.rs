use cargo_msrv::config::{Action, Config};
use cargo_msrv::errors::CargoMSRVError;
use cargo_msrv::filter::filter_releases;
use cargo_msrv::find::min_max_releases;
use cargo_msrv::toolchain::OwnedToolchainSpec;
use cargo_msrv::version::{BareVersion, Version};

fn v(major: u64, minor: u64, patch: u64) -> Version {
    Version::new(major, minor, patch)
}

#[test]
fn version_text_is_decimal() {
    assert_eq!(v(1, 60, 0).to_text(), "1.60.0");
    assert_eq!(v(0, 9, 10).to_text(), "0.9.10");
    assert_eq!(v(18446744073709551615, 0, 7).to_text(), "18446744073709551615.0.7");
}

#[test]
fn toolchain_spec_text() {
    let t = OwnedToolchainSpec::new(&v(1, 58, 0), "x86_64-unknown-linux-gnu");
    assert_eq!(t.spec(), "1.58.0-x86_64-unknown-linux-gnu");
    assert_eq!(t.version(), &v(1, 58, 0));
    assert_eq!(t.target(), "x86_64-unknown-linux-gnu");
}

#[test]
fn version_order() {
    assert!(v(1, 58, 0).le(&v(1, 58, 0)));
    assert!(v(1, 58, 0).le(&v(1, 58, 1)));
    assert!(v(1, 9, 9).le(&v(1, 10, 0)));
    assert!(!v(2, 0, 0).le(&v(1, 99, 99)));
}

#[test]
fn bare_bounds() {
    let lower = BareVersion::TwoComponents(1, 58);
    assert!(lower.admits_from_below(&v(1, 58, 0)));
    assert!(!lower.admits_from_below(&v(1, 57, 9)));
    let upper = BareVersion::TwoComponents(1, 60);
    assert!(upper.admits_from_above(&v(1, 60, 99)));
    assert!(!upper.admits_from_above(&v(1, 61, 0)));
    let exact = BareVersion::ThreeComponents(1, 60, 1);
    assert!(exact.admits_from_above(&v(1, 60, 1)));
    assert!(!exact.admits_from_above(&v(1, 60, 2)));
    assert_eq!(BareVersion::from(v(1, 2, 3)), BareVersion::ThreeComponents(1, 2, 3));
}

#[test]
fn check_command_line() {
    let mut config = Config::new(Action::Find, "t".to_string());
    assert_eq!(config.check_command_string(), "cargo check");
    config.check_command = vec!["cargo".to_string(), "test".to_string(), "--all".to_string()];
    assert_eq!(config.check_command_string(), "cargo test --all");
    config.check_command = vec![];
    assert_eq!(config.check_command_string(), "");
}

#[test]
fn filter_correctness() {
    let releases = vec![v(1, 60, 1), v(1, 60, 0), v(1, 59, 0), v(1, 58, 3), v(1, 58, 0)];
    let mut config = Config::new(Action::Find, "t".to_string());
    config.include_all_patch_releases = false;
    config.minimum_version = Some(BareVersion::TwoComponents(1, 58));
    config.maximum_version = Some(BareVersion::TwoComponents(1, 60));
    assert_eq!(
        filter_releases(&config, &releases),
        vec![v(1, 60, 1), v(1, 59, 0), v(1, 58, 3)]
    );
}

#[test]
fn filter_all_patches_and_bounds() {
    let releases = vec![v(1, 60, 1), v(1, 60, 0), v(1, 59, 0), v(1, 58, 3), v(1, 58, 0)];
    let mut config = Config::new(Action::Find, "t".to_string());
    config.include_all_patch_releases = true;
    config.minimum_version = Some(BareVersion::ThreeComponents(1, 58, 1));
    config.maximum_version = Some(BareVersion::ThreeComponents(1, 60, 0));
    assert_eq!(
        filter_releases(&config, &releases),
        vec![v(1, 60, 0), v(1, 59, 0), v(1, 58, 3)]
    );
}

#[test]
fn filter_is_idempotent() {
    let releases = vec![
        v(1, 62, 0), v(1, 61, 2), v(1, 61, 1), v(1, 60, 0), v(1, 59, 3), v(1, 59, 0), v(1, 50, 0),
    ];
    let mut config = Config::new(Action::Find, "t".to_string());
    config.minimum_version = Some(BareVersion::TwoComponents(1, 55));
    config.maximum_version = Some(BareVersion::ThreeComponents(1, 61, 1));
    let once = filter_releases(&config, &releases);
    let twice = filter_releases(&config, &once);
    assert_eq!(once, twice);
    config.include_all_patch_releases = true;
    let once = filter_releases(&config, &releases);
    assert_eq!(filter_releases(&config, &once), once);
}

#[test]
fn filter_to_nothing() {
    let releases = vec![v(1, 40, 0), v(1, 39, 0)];
    let mut config = Config::new(Action::Find, "t".to_string());
    config.minimum_version = Some(BareVersion::TwoComponents(1, 41));
    assert!(filter_releases(&config, &releases).is_empty());
}

#[test]
fn min_max_of_releases() {
    assert_eq!(
        min_max_releases(&vec![v(1, 60, 0), v(1, 59, 0), v(1, 56, 2)]),
        Ok((BareVersion::ThreeComponents(1, 56, 2), BareVersion::ThreeComponents(1, 60, 0)))
    );
    assert_eq!(min_max_releases(&vec![]), Err(CargoMSRVError::RustReleasesEmptyReleaseSet));
}

#[test]
fn parse_versions() {
    assert_eq!(Version::parse("1.58.0"), Some(v(1, 58, 0)));
    assert_eq!(Version::parse("1.58"), None);
    assert_eq!(Version::parse("1..0"), None);
    assert_eq!(Version::parse("1.58.0."), None);
    assert_eq!(Version::parse("1.5x.0"), None);
    assert_eq!(Version::parse(""), None);
    assert_eq!(Version::parse("18446744073709551615.0.1"), Some(v(u64::MAX, 0, 1)));
    assert_eq!(Version::parse("18446744073709551616.0.1"), None);
    assert_eq!(BareVersion::parse("1.58"), Some(BareVersion::TwoComponents(1, 58)));
    assert_eq!(BareVersion::parse("1.58.2"), Some(BareVersion::ThreeComponents(1, 58, 2)));
    assert_eq!(BareVersion::parse("1"), None);
    assert_eq!(BareVersion::parse("1.2.3.4"), None);
    assert_eq!(
        cargo_msrv::version::parse_numbers("007.10"),
        Some(vec![7, 10])
    );
}
