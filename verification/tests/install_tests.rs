use mcdl::install::{
    classify_jre_status, eula_contents, instance_rel_dir, java_rel_path, jre_download_url,
    jre_rel_dir, parse_locate_target, plan_install_batch, plan_runtime_install,
    plan_server_install, settings_rel_path, strip_first_component, AppMeta, InstanceMeta,
    InstanceSettings, JreStatus, LocateTarget, RuntimePlan, ServerPlan,
};
use mcdl::minecraft::{Download, GamePackage, JavaVersion, VersionId};

fn package(id: &str, jre: u8, with_server: bool) -> GamePackage {
    let mut downloads = vec![(
        "client".to_string(),
        Download {
            size: 10,
            url: format!("https://example.com/{id}/client.jar"),
        },
    )];
    if with_server {
        downloads.push((
            "server".to_string(),
            Download {
                size: 20,
                url: format!("https://example.com/{id}/server.jar"),
            },
        ));
    }
    GamePackage {
        downloads,
        id: VersionId::new(id.to_string()),
        java_version: JavaVersion {
            component: String::new(),
            major_version: jre,
        },
        release_time: 0,
        time: 0,
        kind: "release".to_string(),
    }
}

fn instance_of(pkg: &GamePackage) -> InstanceMeta {
    InstanceMeta::new(
        VersionId::new(pkg.id.as_str().to_string()),
        instance_rel_dir(&pkg.id),
        settings_rel_path(&pkg.id),
        pkg.java_version.major_version,
    )
}

#[test]
fn runtime_dedup() {
    // Two versions that both need runtime major 17: exactly one runtime
    // install is queued, and both server installs proceed.
    let meta = AppMeta::new();
    let pkgs = vec![package("1.20.1", 17, true), package("1.20", 17, true)];
    let plan = plan_install_batch(&meta, &pkgs);
    assert_eq!(plan.runtimes, vec![17]);
    assert_eq!(plan.servers.len(), 2);
    assert!(plan
        .servers
        .iter()
        .all(|p| matches!(p, ServerPlan::Download { .. })));
}

#[test]
fn runtime_dedup_mixed_majors() {
    let mut meta = AppMeta::new();
    meta.add_jre(8);
    let pkgs = vec![
        package("1.20.1", 17, true),
        package("1.12.2", 8, true),
        package("1.20", 17, true),
        package("1.19.4", 21, true),
    ];
    let plan = plan_install_batch(&meta, &pkgs);
    // 8 is already installed; 17 occurs twice but is queued once.
    assert_eq!(plan.runtimes, vec![17, 21]);
}

#[test]
fn idempotent_install() {
    // The first plan downloads; once the instance is committed, a
    // second install of the same version is a no-op success.
    let mut meta = AppMeta::new();
    let pkg = package("1.20.1", 17, true);
    let first = plan_server_install(&meta, &pkg);
    let url = match first {
        ServerPlan::Download { url } => url,
        _ => panic!("expected a download"),
    };
    assert_eq!(url, "https://example.com/1.20.1/server.jar");
    meta.add_instance(instance_of(&pkg));
    let second = plan_server_install(&meta, &pkg);
    assert!(matches!(second, ServerPlan::AlreadyInstalled));
}

#[test]
fn no_server_jar_is_skipped() {
    // A manifest entry without a "server" download key is skipped —
    // not an error — and nothing is downloaded or created for it.
    let meta = AppMeta::new();
    let pkg = package("1.19.4", 17, false);
    let plan = plan_server_install(&meta, &pkg);
    assert!(matches!(plan, ServerPlan::NoServerJar));
    // The batch still queues the runtime, as the dispatch loop does.
    let plan = plan_install_batch(&meta, &vec![package("1.19.4", 17, false)]);
    assert!(matches!(plan.servers[0], ServerPlan::NoServerJar));
}

#[test]
fn runtime_install_rechecks_store() {
    let mut meta = AppMeta::new();
    let plan = plan_runtime_install(&meta, 17, "linux", "x64");
    match plan {
        RuntimePlan::Download { url } => assert_eq!(
            url,
            "https://api.adoptium.net/v3/binary/latest/17/ga/linux/x64/jre/hotspot/normal/eclipse"
        ),
        RuntimePlan::AlreadyInstalled => panic!("expected a download"),
    }
    meta.add_jre(17);
    assert!(matches!(
        plan_runtime_install(&meta, 17, "linux", "x64"),
        RuntimePlan::AlreadyInstalled
    ));
}

#[test]
fn store_records() {
    let mut meta = AppMeta::new();
    assert!(!meta.jre_installed(8));
    meta.add_jre(8);
    meta.add_jre(8);
    assert!(meta.jre_installed(8));
    assert!(!meta.jre_installed(17));
    assert!(meta.remove_jre(8));
    assert!(!meta.jre_installed(8));
    assert!(!meta.remove_jre(8));

    let pkg = package("1.20.1", 17, true);
    let id = VersionId::new("1.20.1".to_string());
    assert!(!meta.instance_installed(&id));
    meta.add_instance(instance_of(&pkg));
    assert!(meta.instance_installed(&id));
    assert!(!meta.instance_installed(&VersionId::new("1.20".to_string())));
}

#[test]
fn jre_url_parameters() {
    assert_eq!(
        jre_download_url(8, "windows", "x86"),
        "https://api.adoptium.net/v3/binary/latest/8/ga/windows/x86/jre/hotspot/normal/eclipse"
    );
}

#[test]
fn jre_status_classification() {
    assert_eq!(classify_jre_status(200), JreStatus::Success);
    assert_eq!(classify_jre_status(307), JreStatus::Success);
    assert_eq!(classify_jre_status(400), JreStatus::BadRequest);
    assert_eq!(classify_jre_status(404), JreStatus::NotFound);
    assert_eq!(classify_jre_status(500), JreStatus::Unexpected);
}

#[test]
fn install_paths() {
    let id = VersionId::new("1.20.1".to_string());
    assert_eq!(instance_rel_dir(&id), "instance/1.20.1");
    assert_eq!(settings_rel_path(&id), "instance/1.20.1.toml");
    assert_eq!(jre_rel_dir(17), "jre/17");
    assert_eq!(java_rel_path(17, ""), "jre/17/bin/java");
    assert_eq!(java_rel_path(8, ".exe"), "jre/8/bin/java.exe");
}

#[test]
fn archive_paths_strip_first_component() {
    assert_eq!(strip_first_component("jdk-17.0.1+12-jre/bin/java"), "bin/java");
    assert_eq!(strip_first_component("root/a/b"), "a/b");
    assert_eq!(strip_first_component("flat"), "");
}

#[test]
fn instance_defaults() {
    assert_eq!(eula_contents(), "eula=true");
    let settings = InstanceSettings::new(17);
    assert_eq!(settings.java_version, 17);
    assert_eq!(settings.server_jar, "server.jar");
    assert!(settings.java_args.is_empty());
    assert!(settings.server_args.is_empty());
}

#[test]
fn locate_targets() {
    assert_eq!(parse_locate_target("java"), Some(LocateTarget::Java));
    assert_eq!(parse_locate_target("instance"), Some(LocateTarget::Instance));
    assert_eq!(parse_locate_target("config"), Some(LocateTarget::Config));
    assert_eq!(parse_locate_target("cache"), None);
}
