use mcdl::command::{
    filter_versions, InfoCmd, InstallCmd, ListCmd, ListFilter, UninstallCmd, VersionTypeFilter,
};
use mcdl::metadata::{ServerKind, ServerSpec, ServerSpecError};
use mcdl::minecraft::{
    api_path, fabric_api_path, version_exists, LatestVersions, MinecraftVersion, VersionId,
    VersionIdParseError, VersionManifest, VersionType,
};
use mcdl::version::VersionNumber;

fn entry(id: &str, kind: VersionType, release_time: i64) -> MinecraftVersion {
    MinecraftVersion {
        id: VersionId::new(id.to_string()),
        kind,
        url: format!("https://piston-meta.mojang.com/v1/packages/{id}.json"),
        time: release_time,
        release_time,
    }
}

fn manifest() -> VersionManifest {
    VersionManifest {
        latest: LatestVersions {
            release: VersionId::new("1.20.1".to_string()),
            snapshot: VersionId::new("23w13a".to_string()),
        },
        versions: vec![
            entry("23w13a", VersionType::Snapshot, 400),
            entry("1.20.1", VersionType::Release, 300),
            entry("1.20.1-pre1", VersionType::Snapshot, 250),
            entry("1.19.4", VersionType::Release, 200),
            entry("3D Shareware v1.34", VersionType::Snapshot, 100),
        ],
    }
}

#[test]
fn parse_simple() {
    let m = manifest();
    let latest = m.latest_release_id();

    let spec = ServerSpec::parse("1.20.1", &m).unwrap();
    assert_eq!(spec.version.as_str(), "1.20.1");
    assert_eq!(spec.server_type, ServerKind::Vanilla);

    let spec = ServerSpec::parse("::forge", &m).unwrap();
    assert_eq!(&spec.version, latest);
    assert!(spec.id.to_string().starts_with("unnamed ("));
}

#[test]
fn parse_spec_fields() {
    let m = manifest();
    let spec = ServerSpec::parse("1.19.4:my-server:fabric", &m).unwrap();
    assert_eq!(spec.version.as_str(), "1.19.4");
    assert_eq!(spec.id.name, "my-server");
    assert_eq!(spec.server_type, ServerKind::Fabric);

    // An empty specification takes every default.
    let spec = ServerSpec::parse("", &m).unwrap();
    assert_eq!(spec.version.as_str(), "1.20.1");
    assert_eq!(spec.server_type, ServerKind::Vanilla);
}

#[test]
fn parse_spec_errors() {
    let m = manifest();
    match ServerSpec::parse("9.9.9", &m) {
        Err(ServerSpecError::UnknownVersion { fragment }) => assert_eq!(fragment, "9.9.9"),
        other => panic!("expected an unknown version, got {other:?}"),
    }
    match ServerSpec::parse("1.19.4:bad name:forge", &m) {
        Err(ServerSpecError::BadName { fragment }) => assert_eq!(fragment, "bad name"),
        other => panic!("expected a bad name, got {other:?}"),
    }
    match ServerSpec::parse("1.19.4:ok:weird", &m) {
        Err(ServerSpecError::UnknownKind { fragment }) => assert_eq!(fragment, "weird"),
        other => panic!("expected an unknown kind, got {other:?}"),
    }
}

#[test]
fn server_kind_names() {
    assert_eq!(ServerKind::parse("vanilla").unwrap(), ServerKind::Vanilla);
    assert_eq!(ServerKind::parse("FABRIC").unwrap(), ServerKind::Fabric);
    assert_eq!(ServerKind::parse("Forge").unwrap(), ServerKind::Forge);
    assert_eq!(ServerKind::parse("neoforge").unwrap(), ServerKind::Neoforge);
    assert_eq!(ServerKind::parse("pApEr").unwrap(), ServerKind::Paper);
    let e = ServerKind::parse("quilt").unwrap_err();
    assert_eq!(e.value, "quilt");
    assert_eq!(ServerKind::default(), ServerKind::Vanilla);
}

#[test]
fn manifest_lookups() {
    let m = manifest();
    assert_eq!(m.latest_release().id.as_str(), "1.20.1");
    assert_eq!(m.latest_snapshot().id.as_str(), "23w13a");
    assert_eq!(m.latest_release_id().as_str(), "1.20.1");
    assert_eq!(m.latest_snapshot_id().as_str(), "23w13a");
    let v = m.find_version(&VersionId::new("1.19.4".to_string())).unwrap();
    assert_eq!(v.kind, VersionType::Release);
    assert!(m.find_version(&VersionId::new("1.8".to_string())).is_none());
    assert!(version_exists(&m, &VersionId::new("23w13a".to_string())));
    assert!(!version_exists(&m, &VersionId::new("24w01a".to_string())));
    assert!(m.versions[1].released_before(&m.versions[0]));
}

#[test]
fn version_id_validation() {
    let m = manifest();
    let id = VersionId::parse_in("1.20.1", &m).unwrap();
    assert_eq!(id.as_str(), "1.20.1");
    assert_eq!(
        VersionId::parse_in("9.9.9", &m).unwrap_err(),
        VersionIdParseError::Invalid
    );
}

#[test]
fn api_paths() {
    assert_eq!(
        api_path("mc/game/version_manifest_v2.json"),
        "https://piston-meta.mojang.com/mc/game/version_manifest_v2.json"
    );
    assert_eq!(
        fabric_api_path("v2/versions"),
        "https://meta.fabricmc.net/v2/versions"
    );
}

#[test]
fn list_filtering() {
    let m = manifest();
    // Only release versions by default.
    let filter = ListFilter {
        installed: false,
        included_types: (true, false, false, false),
    };
    let ids: Vec<String> = filter_versions(&m, &filter)
        .iter()
        .map(|id| id.as_str().to_string())
        .collect();
    assert_eq!(ids, vec!["1.20.1", "1.19.4"]);

    let filter = ListFilter {
        installed: false,
        included_types: (false, true, true, true),
    };
    let ids: Vec<String> = filter_versions(&m, &filter)
        .iter()
        .map(|id| id.as_str().to_string())
        .collect();
    assert_eq!(ids, vec!["23w13a", "1.20.1-pre1", "3D Shareware v1.34"]);
}

#[test]
fn filter_includes_by_shape() {
    let filter = ListFilter {
        installed: false,
        included_types: (true, false, true, false),
    };
    assert!(filter.includes(&VersionNumber::parse("1.20.1").unwrap()));
    assert!(!filter.includes(&VersionNumber::parse("1.20.1-pre1").unwrap()));
    assert!(filter.includes(&VersionNumber::parse("23w13a").unwrap()));
    assert!(!filter.includes(&VersionNumber::parse("3D Shareware v1.34").unwrap()));
}

#[test]
fn command_payloads() {
    let m = manifest();
    let info = InfoCmd {
        version: VersionId::new("1.20.1".to_string()),
    };
    assert!(version_exists(&m, &info.version));
    let install = InstallCmd {
        specs: Some(vec![ServerSpec::parse("1.19.4", &m).unwrap()]),
    };
    assert_eq!(install.specs.unwrap()[0].version.as_str(), "1.19.4");
    let uninstall = UninstallCmd {
        specifier: "my-server".to_string(),
    };
    assert_eq!(uninstall.specifier, "my-server");
    let list = ListCmd {
        show_installed: false,
        filter: VersionTypeFilter::default(),
    };
    assert!(list.filter.show_release);
}

#[test]
fn type_filter_default_shows_releases() {
    let d = VersionTypeFilter::default();
    assert!(d.show_release);
    assert!(!d.show_pre_release);
    assert!(!d.show_snapshot);
    assert!(!d.show_non_standard);
}
