use synology_filestation_fuse::{canonicalize, InodeRegistry};

#[test]
fn canonicalize_collapses_separators() {
    assert_eq!(canonicalize("//shareA///docs//a.txt"), "/shareA/docs/a.txt");
}

#[test]
fn canonicalize_strips_one_trailing_separator() {
    assert_eq!(canonicalize("/shareA/docs/"), "/shareA/docs");
    assert_eq!(canonicalize("/shareA/docs//"), "/shareA/docs");
}

#[test]
fn canonicalize_keeps_root() {
    assert_eq!(canonicalize("/"), "/");
    assert_eq!(canonicalize("//"), "/");
    assert_eq!(canonicalize(""), "");
}

#[test]
fn assign_twice_gives_same_ino() {
    let mut reg = InodeRegistry::new();
    let a = reg.assign("/shareA/docs");
    let b = reg.assign("/shareA/docs");
    assert_eq!(a, b);
    assert_eq!(a, 1);
    assert_eq!(reg.len(), 1);
}

#[test]
fn assign_canonicalizes_before_lookup() {
    let mut reg = InodeRegistry::new();
    let a = reg.assign("/shareA/docs");
    let b = reg.assign("//shareA/docs/");
    assert_eq!(a, b);
    assert_eq!(reg.path_for(a), Some("/shareA/docs".to_string()));
}

#[test]
fn assign_hands_out_increasing_inos() {
    let mut reg = InodeRegistry::new();
    assert_eq!(reg.assign("/"), 1);
    assert_eq!(reg.assign("/a"), 2);
    assert_eq!(reg.assign("/b"), 3);
    assert_eq!(reg.assign("/a"), 2);
    assert_eq!(reg.path_for(3), Some("/b".to_string()));
}

#[test]
fn path_for_unknown_ino_is_none() {
    let mut reg = InodeRegistry::new();
    reg.assign("/a");
    assert_eq!(reg.path_for(0), None);
    assert_eq!(reg.path_for(2), None);
}
