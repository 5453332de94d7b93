use chroma::entries::{DirEntry, EntryKind};
use chroma::overlay::{build_plan, shadow_dir_path, CleanupAction, ShadowEntry, ShadowSource};
use chroma::structure::get_electron_dir;

fn entry(name: &str, kind: EntryKind) -> DirEntry {
    DirEntry {
        name: name.to_string(),
        kind,
    }
}

fn runtime_listing() -> Vec<DirEntry> {
    vec![
        entry("locales", EntryKind::Dir),
        entry("electron", EntryKind::File),
        entry("LICENSE", EntryKind::File),
    ]
}

fn app_listing() -> Vec<DirEntry> {
    vec![
        entry("app.exe", EntryKind::File),
        entry("resources", EntryKind::Dir),
    ]
}

#[test]
fn build_links_runtime_and_resources() {
    let target = "app.exe".to_string();
    let plan = build_plan(&runtime_listing(), &app_listing(), &target).unwrap();

    assert_eq!(
        plan.shadow_entries,
        vec![
            ShadowEntry {
                name: "locales".to_string(),
                source: ShadowSource::RuntimeDirLink {
                    runtime_name: "locales".to_string()
                },
            },
            ShadowEntry {
                name: "app.exe".to_string(),
                source: ShadowSource::RuntimeFileLink {
                    runtime_name: "electron".to_string()
                },
            },
            ShadowEntry {
                name: "LICENSE".to_string(),
                source: ShadowSource::RuntimeFileLink {
                    runtime_name: "LICENSE".to_string()
                },
            },
            ShadowEntry {
                name: "resources".to_string(),
                source: ShadowSource::ResourceLink,
            },
        ]
    );
    assert_eq!(
        plan.cleanup_actions,
        vec![CleanupAction::RemoveFile {
            name: "app.exe".to_string()
        }]
    );
    assert_eq!(
        plan.resource_survivors,
        vec![entry("resources", EntryKind::Dir)]
    );
    assert_eq!(plan.target_link_name, "app.exe");
}

#[test]
fn rebuilding_from_identical_inputs_is_identical() {
    let target = "app.exe".to_string();
    let first = build_plan(&runtime_listing(), &app_listing(), &target).unwrap();
    let second = build_plan(&runtime_listing(), &app_listing(), &target).unwrap();
    assert_eq!(first, second);
}

#[test]
fn runtime_resources_directory_is_skipped() {
    let target = "app.exe".to_string();
    let runtime = vec![entry("resources", EntryKind::Dir)];
    let plan = build_plan(&runtime, &app_listing(), &target).unwrap();
    assert_eq!(
        plan.shadow_entries,
        vec![ShadowEntry {
            name: "resources".to_string(),
            source: ShadowSource::ResourceLink,
        }]
    );
}

#[test]
fn first_unexpected_runtime_entry_fails_the_build() {
    let target = "app.exe".to_string();
    let runtime = vec![
        entry("electron", EntryKind::File),
        entry("weird-socket", EntryKind::Other),
        entry("other-socket", EntryKind::Other),
    ];
    let err = build_plan(&runtime, &app_listing(), &target).unwrap_err();
    assert_eq!(err, "weird-socket");
}

#[test]
fn cleanup_removes_everything_but_the_resources_directory() {
    let target = "app.exe".to_string();
    let app_dir = vec![
        entry("app.exe", EntryKind::File),
        entry("swiftshader", EntryKind::Dir),
        entry("resources", EntryKind::Dir),
        entry("v8_context_snapshot.bin", EntryKind::File),
    ];
    let plan = build_plan(&runtime_listing(), &app_dir, &target).unwrap();
    assert_eq!(
        plan.cleanup_actions,
        vec![
            CleanupAction::RemoveFile {
                name: "app.exe".to_string()
            },
            CleanupAction::RemoveTree {
                name: "swiftshader".to_string()
            },
            CleanupAction::RemoveFile {
                name: "v8_context_snapshot.bin".to_string()
            },
        ]
    );
    assert_eq!(
        plan.resource_survivors,
        vec![entry("resources", EntryKind::Dir)]
    );
}

#[test]
fn a_file_named_resources_is_not_kept() {
    let target = "app.exe".to_string();
    let app_dir = vec![entry("resources", EntryKind::File)];
    let plan = build_plan(&runtime_listing(), &app_dir, &target).unwrap();
    assert_eq!(
        plan.cleanup_actions,
        vec![CleanupAction::RemoveFile {
            name: "resources".to_string()
        }]
    );
    assert!(plan.resource_survivors.is_empty());
}

#[test]
fn target_named_like_the_runtime_executable_stays_one_entry() {
    let target = "electron".to_string();
    let plan = build_plan(&runtime_listing(), &app_listing(), &target).unwrap();
    let named: Vec<&ShadowEntry> = plan
        .shadow_entries
        .iter()
        .filter(|e| e.name == "electron")
        .collect();
    assert_eq!(named.len(), 1);
    assert_eq!(
        named[0].source,
        ShadowSource::RuntimeFileLink {
            runtime_name: "electron".to_string()
        }
    );
}

#[test]
fn shadow_directory_is_named_by_the_key() {
    assert_eq!(
        shadow_dir_path("/var/lib/chroma/apps", "0a1b2c"),
        "/var/lib/chroma/apps/0a1b2c"
    );
}

#[test]
fn runtime_found_under_store_root() {
    let store = vec![entry("apps", EntryKind::Dir), entry("electron", EntryKind::Dir)];
    assert_eq!(
        get_electron_dir("/var/lib/chroma/", &store),
        Some("/var/lib/chroma/electron".to_string())
    );
}

#[test]
fn missing_runtime_is_reported() {
    let store = vec![entry("apps", EntryKind::Dir)];
    assert_eq!(get_electron_dir("/var/lib/chroma/", &store), None);
}
