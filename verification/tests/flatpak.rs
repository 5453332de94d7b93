use chroma::entries::EntryKind;
use chroma::flatpak::{
    find_chrome_pak, flatpak_files_root, get_flatpak_dir, manifest_command, wrapper_replaced_path,
    FsNode,
};

fn file(name: &str) -> FsNode {
    FsNode {
        name: name.to_string(),
        kind: EntryKind::File,
        children: Vec::new(),
    }
}

fn dir(name: &str, children: Vec<FsNode>) -> FsNode {
    FsNode {
        name: name.to_string(),
        kind: EntryKind::Dir,
        children,
    }
}

#[test]
fn pak_found_at_top_level() {
    let root = dir(
        "files",
        vec![file("readme.md"), file("chrome_100_percent.pak")],
    );
    assert_eq!(
        find_chrome_pak(&root),
        Some(vec!["chrome_100_percent.pak".to_string()])
    );
}

#[test]
fn pak_found_in_subdirectory() {
    let root = dir(
        "files",
        vec![
            file("readme.md"),
            dir("lib", vec![dir("app", vec![file("chrome_100_percent.pak")])]),
        ],
    );
    assert_eq!(
        find_chrome_pak(&root),
        Some(vec![
            "lib".to_string(),
            "app".to_string(),
            "chrome_100_percent.pak".to_string()
        ])
    );
}

#[test]
fn earlier_subdirectory_wins_over_later_file() {
    let root = dir(
        "files",
        vec![
            dir("sub", vec![file("chrome_100_percent.pak")]),
            file("chrome_100_percent.pak"),
        ],
    );
    assert_eq!(
        find_chrome_pak(&root),
        Some(vec![
            "sub".to_string(),
            "chrome_100_percent.pak".to_string()
        ])
    );
}

#[test]
fn a_directory_named_like_the_pak_is_not_the_pak() {
    let root = dir("files", vec![dir("chrome_100_percent.pak", vec![])]);
    assert_eq!(find_chrome_pak(&root), None);
}

#[test]
fn absent_pak_yields_nothing() {
    let root = dir("files", vec![file("readme.md"), dir("bin", vec![])]);
    assert_eq!(find_chrome_pak(&root), None);
}

#[test]
fn flatpak_dir_is_the_pak_files_parent() {
    let root = dir(
        "files",
        vec![dir("lib", vec![dir("app", vec![file("chrome_100_percent.pak")])])],
    );
    assert_eq!(
        get_flatpak_dir(Some(&root)),
        Some(vec!["lib".to_string(), "app".to_string()])
    );
}

#[test]
fn missing_installation_yields_nothing() {
    assert_eq!(get_flatpak_dir(None), None);
}

#[test]
fn files_root_is_formed_from_the_identifier() {
    assert_eq!(
        flatpak_files_root("org.example.App"),
        "/var/lib/flatpak/app/org.example.App/current/active/files/"
    );
}

#[test]
fn manifest_command_is_read_from_json() {
    assert_eq!(
        manifest_command("{\"id\":\"org.example.App\",\"command\":\"run.sh\"}"),
        Some("run.sh".to_string())
    );
}

#[test]
fn manifest_without_command_yields_nothing() {
    assert_eq!(manifest_command("{\"id\":\"org.example.App\"}"), None);
}

#[test]
fn manifest_with_non_string_command_yields_nothing() {
    assert_eq!(manifest_command("{\"command\":3}"), None);
}

#[test]
fn unparsable_manifest_yields_nothing() {
    assert_eq!(manifest_command("not json at all"), None);
}

#[test]
fn replaced_path_follows_the_marker() {
    assert_eq!(
        wrapper_replaced_path("exec zypak-wrapper /app/bin/electron \"$@\""),
        Some("bin/electron".to_string())
    );
}

#[test]
fn only_the_first_marker_counts() {
    assert_eq!(
        wrapper_replaced_path("zypak-wrapper /app/first zypak-wrapper /app/second"),
        Some("first".to_string())
    );
}

#[test]
fn wrapper_without_marker_yields_nothing() {
    assert_eq!(wrapper_replaced_path("exec electron \"$@\""), None);
}

#[test]
fn marker_without_following_token_yields_nothing() {
    assert_eq!(wrapper_replaced_path("exec zypak-wrapper"), None);
}

#[test]
fn path_outside_the_sandbox_prefix_yields_nothing() {
    assert_eq!(wrapper_replaced_path("exec zypak-wrapper /usr/bin/electron"), None);
}

#[test]
fn doubled_space_after_marker_hides_the_path() {
    // Splitting at every single space makes the token after the marker
    // empty, which no prefix check can accept.
    assert_eq!(wrapper_replaced_path("zypak-wrapper  /app/bin/electron"), None);
}
