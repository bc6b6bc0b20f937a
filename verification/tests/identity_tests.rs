use distant::identity::file_name;
use distant::identity::fingerprint;
use distant::identity::name_workspace;
use distant::identity::project_path;
use distant::identity::to_hex;
use distant::identity::workspace_id;
use std::collections::hash_map::DefaultHasher;
use std::hash::Hasher;

fn reference_hash(bytes: &[u8]) -> u64 {
    let mut hasher = DefaultHasher::new();
    hasher.write(bytes);
    hasher.finish()
}

#[test]
fn hex_is_lower_case_without_leading_zeros() {
    assert_eq!(to_hex(0), "0");
    assert_eq!(to_hex(9), "9");
    assert_eq!(to_hex(10), "a");
    assert_eq!(to_hex(15), "f");
    assert_eq!(to_hex(16), "10");
    assert_eq!(to_hex(255), "ff");
    assert_eq!(to_hex(4096), "1000");
    assert_eq!(to_hex(0xdead_beef), "deadbeef");
    assert_eq!(to_hex(u64::MAX), "ffffffffffffffff");
    assert_eq!(to_hex(0x0123_4567_89ab_cdef), format!("{:x}", 0x0123_4567_89ab_cdefu64));
}

#[test]
fn base_name_is_the_last_component() {
    assert_eq!(file_name(b"/home/user/myproj"), Some(b"myproj".to_vec()));
    assert_eq!(file_name(b"myproj"), Some(b"myproj".to_vec()));
    assert_eq!(file_name(b"/home/user/myproj/"), Some(b"myproj".to_vec()));
    assert_eq!(file_name(b"/home/user/myproj///"), Some(b"myproj".to_vec()));
    assert_eq!(file_name(b"a/b.c"), Some(b"b.c".to_vec()));
    assert_eq!(file_name(b"/..."), Some(b"...".to_vec()));
    assert_eq!(file_name(b"/home/user/."), Some(b"user".to_vec()));
    assert_eq!(file_name(b"/home/user/./"), Some(b"user".to_vec()));
    assert_eq!(file_name(b"user/.//./"), Some(b"user".to_vec()));
    assert_eq!(file_name(b"./user"), Some(b"user".to_vec()));
    assert_eq!(file_name(b"/home/.hidden"), Some(b".hidden".to_vec()));
    assert_eq!(file_name(b"/home/user."), Some(b"user.".to_vec()));
}

#[test]
fn base_name_agrees_with_std() {
    let paths: [&str; 14] = [
        "", "/", ".", "..", "a", "a/", "a/.", "a/..", "/a/b", "/a/b/./", "./", "./a", "a//b//",
        "/.",
    ];
    for p in paths {
        let expected = std::path::Path::new(p).file_name().map(|n| n.as_encoded_bytes().to_vec());
        assert_eq!(file_name(p.as_bytes()), expected);
    }
}

#[test]
fn some_paths_have_no_base_name() {
    assert_eq!(file_name(b""), None);
    assert_eq!(file_name(b"/"), None);
    assert_eq!(file_name(b"///"), None);
    assert_eq!(file_name(b"."), None);
    assert_eq!(file_name(b".."), None);
    assert_eq!(file_name(b"/home/user/.."), None);
    assert_eq!(file_name(b"/."), None);
    assert_eq!(file_name(b"./."), None);
    assert_eq!(file_name(b"/home/../."), None);
}

#[test]
fn fingerprint_is_over_all_bytes() {
    assert_eq!(fingerprint(b"/home/user/myproj"), reference_hash(b"/home/user/myproj"));
    assert_eq!(fingerprint(b""), reference_hash(b""));
    assert_ne!(fingerprint(b"/a/myproj"), fingerprint(b"/b/myproj"));
    assert_ne!(fingerprint(b"/a/myproj"), fingerprint(b"/a/myproj/"));
}

#[test]
fn fingerprint_is_repeatable() {
    assert_eq!(fingerprint(b"/srv/x"), fingerprint(b"/srv/x"));
    assert_eq!(workspace_id(b"/srv/x"), workspace_id(b"/srv/x"));
    assert_eq!(project_path(b"/srv/x"), project_path(b"/srv/x"));
}

#[test]
fn workspace_name_has_name_and_fingerprint() {
    assert_eq!(name_workspace(Some("myproj"), 0x1f), "myproj-1f");
    assert_eq!(name_workspace(None, 0), "xxx-0");
    assert_eq!(name_workspace(Some(""), 255), "-ff");
}

#[test]
fn workspace_id_of_a_path() {
    let path = b"/home/user/myproj";
    assert_eq!(workspace_id(path), format!("myproj-{:x}", reference_hash(path)));
    assert_eq!(
        project_path(path),
        format!("$HOME/.distant/myproj-{:x}", reference_hash(path))
    );
}

#[test]
fn missing_name_degrades_to_placeholder() {
    assert_eq!(workspace_id(b"/"), format!("xxx-{:x}", reference_hash(b"/")));
    assert_eq!(workspace_id(b""), format!("xxx-{:x}", reference_hash(b"")));
    assert_eq!(
        project_path(b"/home/.."),
        format!("$HOME/.distant/xxx-{:x}", reference_hash(b"/home/.."))
    );
}

#[test]
fn different_paths_give_different_workspaces() {
    assert_ne!(workspace_id(b"/a/myproj"), workspace_id(b"/b/myproj"));
    assert_ne!(workspace_id(b"/a/one"), workspace_id(b"/a/two"));
}

#[test]
fn name_that_is_no_utf8_is_decoded_lossily() {
    let path: &[u8] = &[0x2f, 0xff, 0x61];
    assert_eq!(workspace_id(path), format!("\u{fffd}a-{:x}", reference_hash(path)));
    let other: &[u8] = &[0x2f, 0xfe, 0x61];
    assert_ne!(workspace_id(path), workspace_id(other));
}

#[test]
fn name_in_utf8_is_kept() {
    let path = "/home/zoé/projet-été".as_bytes();
    assert_eq!(workspace_id(path), format!("projet-été-{:x}", reference_hash(path)));
}

#[test]
fn fingerprint_is_the_same_in_every_process() {
    assert_eq!(fingerprint(b""), 0xd1fb_a762_150c_532c);
    assert_eq!(fingerprint(b"/home/user/myproj"), 0xc6a8_32f8_fe2e_e40b);
    assert_eq!(fingerprint(b"/srv/x"), 0x5067_9569_69d8_d79a);
    assert_eq!(workspace_id(b"/home/user/myproj"), "myproj-c6a832f8fe2ee40b");
    assert_eq!(project_path(b"/srv/x"), "$HOME/.distant/x-5067956969d8d79a");
}
