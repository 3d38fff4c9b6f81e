use sendit::{resolve_trunk, SenditError};

#[test]
fn override_wins() {
    let t = resolve_trunk(Some("develop"), Some("main"), Some("master"), true, true).unwrap();
    assert_eq!(t, "develop");
}

#[test]
fn gh_default_used() {
    let t = resolve_trunk(None, Some("main"), Some("master"), false, false).unwrap();
    assert_eq!(t, "main");
}

#[test]
fn origin_head_fallback() {
    let t = resolve_trunk(None, None, Some("master"), false, false).unwrap();
    assert_eq!(t, "master");
}

#[test]
fn local_main_fallback() {
    let t = resolve_trunk(None, None, None, true, false).unwrap();
    assert_eq!(t, "main");
}

#[test]
fn local_master_fallback() {
    let t = resolve_trunk(None, None, None, false, true).unwrap();
    assert_eq!(t, "master");
}

#[test]
fn no_trunk_errors() {
    let err = resolve_trunk(None, None, None, false, false);
    assert!(matches!(err, Err(SenditError::NoTrunk)));
}
