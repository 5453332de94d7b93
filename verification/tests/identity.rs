use chroma::structure::{get_flatpak_hash, get_path_hash};

#[test]
fn path_hash_matches_known_digest() {
    // SHA3-256("abc"), a published test vector, in lowercase hex.
    assert_eq!(
        get_path_hash("abc"),
        "3a985da74fe225b2045c172d6bd390bd855f086e3e9d525b46bfe24511431532"
    );
}

#[test]
fn path_hash_of_empty_string() {
    // SHA3-256(""), a published test vector, in lowercase hex.
    assert_eq!(
        get_path_hash(""),
        "a7ffc6f8bf1ed76651c14756a061d662f580ff4de43b49fa82d80a4b80f8434a"
    );
}

#[test]
fn equal_inputs_give_equal_keys() {
    let a = get_path_hash("/usr/lib/app/app.exe");
    let b = get_path_hash("/usr/lib/app/app.exe");
    assert_eq!(a, b);
    let c = get_flatpak_hash("org.example.App");
    let d = get_flatpak_hash("org.example.App");
    assert_eq!(c, d);
}

#[test]
fn unequal_inputs_give_unequal_keys() {
    assert_ne!(get_path_hash("/a"), get_path_hash("/b"));
    assert_ne!(get_flatpak_hash("org.a"), get_flatpak_hash("org.b"));
}

#[test]
fn flatpak_hash_is_path_hash_of_prefixed_identifier() {
    assert_eq!(
        get_flatpak_hash("org.example.App"),
        get_path_hash("flatpak:org.example.App")
    );
}

#[test]
fn key_is_lowercase_hex_of_fixed_length() {
    let key = get_path_hash("/var/lib/something");
    assert_eq!(key.len(), 64);
    assert!(key
        .chars()
        .all(|c| c.is_ascii_digit() || ('a'..='f').contains(&c)));
    // The key is a digest, not an echo of the input.
    assert_ne!(get_path_hash("aa"), "aa");
}
