use mcdl::version::{PreReleaseVersion, ReleaseVersion, SnapshotVersion, VersionNumber};

#[test]
fn release_version_to_string() {
    let v = ReleaseVersion::new(1, 16, 4);
    assert_eq!(v.to_string(), "1.16.4");
}

#[test]
fn release_version_deserialize() {
    let v = VersionNumber::parse("1.16.4").unwrap();
    assert_eq!(v, VersionNumber::Release(ReleaseVersion::new(1, 16, 4)));
}

#[test]
fn release_version_deserialize_invalid() {
    // "1.16.4-pre1" is not a release version: it classifies as a
    // pre-release instead.
    let v = VersionNumber::parse("1.16.4-pre1").unwrap();
    assert!(!v.is_release());
}

#[test]
fn release_version_compare() {
    let v1 = ReleaseVersion::new(1, 16, 4);
    let v2 = ReleaseVersion::new(1, 19, 2);
    assert!(v1 < v2);
}

#[test]
fn release_version_equal() {
    let v1 = ReleaseVersion::new(1, 16, 4);
    let v2 = ReleaseVersion::new(1, 16, 4);
    assert!(v1 == v2);
}

#[test]
fn prerelease_version_to_string() {
    let v = PreReleaseVersion::new(1, 16, 4, "pre1".to_string());
    assert_eq!(v.to_string(), "1.16.4-pre1");
}

#[test]
fn prerelease_version_deserialize() {
    let v = VersionNumber::parse("1.16.4-pre1").unwrap();
    assert_eq!(
        v,
        VersionNumber::PreRelease(PreReleaseVersion::new(1, 16, 4, "pre1".to_string()))
    );
}

#[test]
fn deserialze_version_number_enum() {
    let v = VersionNumber::parse("1.16.4").unwrap();
    assert_eq!(v, VersionNumber::Release(ReleaseVersion::new(1, 16, 4)));

    let v = VersionNumber::parse("1.16.4-pre1").unwrap();
    assert_eq!(
        v,
        VersionNumber::PreRelease(PreReleaseVersion::new(1, 16, 4, "pre1".to_string()))
    );

    let v = VersionNumber::parse("1.16.4-rc1").unwrap();
    assert_eq!(
        v,
        VersionNumber::PreRelease(PreReleaseVersion::new(1, 16, 4, "rc1".to_string()))
    );

    let v = VersionNumber::parse("20w45a").unwrap();
    assert_eq!(v, VersionNumber::Snapshot(SnapshotVersion::new(20, 45, 'a')));

    let v = VersionNumber::parse("3D Shareware v1.34").unwrap();
    assert_eq!(v, VersionNumber::NonStandard("3D Shareware v1.34".to_string()));
}

#[test]
fn parse_release_forms() {
    assert_eq!(
        VersionNumber::parse("1.2.3").unwrap(),
        VersionNumber::Release(ReleaseVersion::new(1, 2, 3))
    );
    assert_eq!(
        VersionNumber::parse("1.2").unwrap(),
        VersionNumber::Release(ReleaseVersion::new(1, 2, 0))
    );
    assert_eq!(
        VersionNumber::parse("0.01.2").unwrap(),
        VersionNumber::Release(ReleaseVersion::new(0, 1, 2))
    );
    assert_eq!(
        VersionNumber::parse("10.12.24").unwrap(),
        VersionNumber::Release(ReleaseVersion::new(10, 12, 24))
    );
}

#[test]
fn parse_release_rejects() {
    // Too short for the fallback, and no structured grammar fits.
    assert!(VersionNumber::parse("1").is_err());
    // These fit no structured grammar but are long enough to fall back.
    assert!(VersionNumber::parse("1.2.").unwrap().is_non_standard());
    assert!(VersionNumber::parse("1.2.3.").unwrap().is_non_standard());
    // A field over 255 is rejected by the release grammar.
    assert!(VersionNumber::parse("1.0.256").unwrap().is_non_standard());
}

#[test]
fn parse_snapshot_forms() {
    assert_eq!(
        VersionNumber::parse("13w24a").unwrap(),
        VersionNumber::Snapshot(SnapshotVersion::new(13, 24, 'a'))
    );
    // Wrong shapes fall back to non-standard (or fail when too short).
    assert!(VersionNumber::parse("24w11").unwrap().is_non_standard());
    assert!(VersionNumber::parse("22w43a1").unwrap().is_non_standard());
    assert!(VersionNumber::parse("1w05a").unwrap().is_non_standard());
    assert!(VersionNumber::parse("12w4a").unwrap().is_non_standard());
    assert!(VersionNumber::parse("15w081").unwrap().is_non_standard());
    assert!(VersionNumber::parse("17a22b").unwrap().is_non_standard());
    assert!(VersionNumber::parse("14w38.").unwrap().is_non_standard());
    assert!(VersionNumber::parse("16w19ab").unwrap().is_non_standard());
}

#[test]
fn parse_precedence() {
    // A pre-release string never classifies as a release or the fallback.
    let v = VersionNumber::parse("1.20.1-pre1").unwrap();
    assert!(v.is_pre_release());
    // A snapshot string classifies as a snapshot.
    let v = VersionNumber::parse("23w13a").unwrap();
    assert!(v.is_snapshot());
}

#[test]
fn parse_fallback() {
    let v = VersionNumber::parse("3D Shareware v1.34").unwrap();
    assert_eq!(v, VersionNumber::NonStandard("3D Shareware v1.34".to_string()));
    assert!(VersionNumber::parse("").is_err());
    assert!(VersionNumber::parse("abc").is_err());
    assert!(VersionNumber::parse("24w14potato").unwrap().is_non_standard());
    assert!(VersionNumber::parse("1.14.2 Pre-Release 4").unwrap().is_non_standard());
}

#[test]
fn parse_error_carries_fragment() {
    let e = VersionNumber::parse("abc").unwrap_err();
    assert_eq!(e.fragment, "abc");
    assert!(!e.expected.is_empty());
}

#[test]
fn version_round_trip() {
    // Canonical manifest strings reproduce themselves exactly.
    for s in [
        "1.20.1-pre1",
        "1.20.1-rc2",
        "1.2-pre99",
        "1.20.1",
        "1.20",
        "1.0",
        "23w13a",
        "05w07c",
        "foobar",
        "3D Shareware v1.34",
        "1.14_combat-212796",
    ] {
        let v = VersionNumber::parse(s).unwrap();
        assert_eq!(v.to_string(), s);
    }
}

// The ordered-variant parsing below mirrors the enum parser the version
// grammar uses: each variant is tried in order and the first success
// wins, so a `String` variant blocks everything after it.

#[derive(Debug, PartialEq)]
enum MyEnum {
    A(u8),
    B(u64),
    C(String),
    D(u64),
}

impl std::str::FromStr for MyEnum {
    type Err = String;

    #[allow(irrefutable_let_patterns)]
    fn from_str(s: &str) -> Result<Self, Self::Err> {
        if let Ok(v) = s.parse::<u8>() {
            return Ok(MyEnum::A(v));
        }
        if let Ok(v) = s.parse::<u16>() {
            return Ok(MyEnum::B(v.into()));
        }
        if let Ok(v) = s.parse::<String>() {
            return Ok(MyEnum::C(v));
        }
        if let Ok(v) = s.parse::<u64>() {
            return Ok(MyEnum::D(v));
        }
        Err(format!("Failed to parse input string: {s}"))
    }
}

#[test]
fn parse_variants() {
    assert_eq!("123".parse::<MyEnum>().unwrap(), MyEnum::A(123));
    assert_eq!("12345".parse::<MyEnum>().unwrap(), MyEnum::B(12345)); // larger than u8
    assert_eq!(
        "hello".parse::<MyEnum>().unwrap(),
        MyEnum::C("hello".to_string())
    );
    // D is never parsed because C is a String
    assert_eq!(
        "1234567".parse::<MyEnum>().unwrap(),
        MyEnum::C("1234567".to_string())
    )
}
