use gbt::version::Version;

#[test]
pub fn test_version_new() {
    let version = Version::new(0, 0, 0);

    assert_eq!(version.to_string(), "0.0.0");
    assert_eq!(version.to_string(), "0.0.0".to_string());
    assert_eq!(Some(version), Version::from_str("0.0.0"));
    assert_eq!(version.to_plain_string(), "000".to_string());
}

#[test]
pub fn test_version_from_str() {
    let version = Version::from_str("0.0.0");

    assert!(version.is_some());

    let version = version.unwrap();

    assert_eq!(version.to_string(), "0.0.0");
    assert_eq!(version.to_string(), "0.0.0".to_string());
    assert_eq!(version, Version::new(0, 0, 0));
    assert_eq!(version.to_plain_string(), "000".to_string());
}

#[test]
pub fn test_version_long() {
    let version = Version::from_str("100.0.0");

    assert!(version.is_some());

    let version = version.unwrap();

    assert_eq!(version.to_string(), "100.0.0");
    assert_eq!(version.to_string(), "100.0.0".to_string());
    assert_eq!(version, Version::new(100, 0, 0));
    assert_eq!(version.to_plain_string(), "10000".to_string());
}

#[test]
pub fn test_incorrect_versions() {
    assert_eq!(Version::from_str(""), None);
    assert_eq!(Version::from_str(".0"), None);
    assert_eq!(Version::from_str("0."), None);
    assert_eq!(Version::from_str(".0.0"), None);
    assert_eq!(Version::from_str("0.0."), None);
}

#[test]
fn version_parts_follow_byte_parsing() {
    assert_eq!(Version::from_str("1.22.255"), Some(Version::new(1, 22, 255)));
    assert_eq!(Version::from_str("+1.007.3"), Some(Version::new(1, 7, 3)));
    assert_eq!(Version::from_str("256.0.0"), None);
    assert_eq!(Version::from_str("1.2.3.4"), None);
    assert_eq!(Version::from_str("1.-2.3"), None);
    assert_eq!(Version::from_str("1.+.3"), None);
    assert_eq!(Version::from_str("1.a.3"), None);
    assert_eq!(Version::new(12, 3, 255).to_string(), "12.3.255");
    assert_eq!(Version::new(12, 3, 255).to_plain_string(), "123255");
}
