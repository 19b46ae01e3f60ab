use ensh::parser::{
    condense_canonical, condense_path, expand_path, norm_abs_path, verify_path, PathError,
};

// A home directory that exists and is already in canonical form.
const HOME: &str = "/usr";

#[test]
fn test_norm_abs_path_valid_path() {
    let path = "~";
    let abs_path = norm_abs_path(path, Some(HOME)).unwrap();
    assert_eq!(HOME, abs_path);
}

#[test]
fn test_norm_abs_path_invalid_path() {
    let path = "invalid";
    let abs_path = norm_abs_path(path, Some(HOME));
    match abs_path {
        Ok(_) => panic!("Test failed"),
        Err(e) => println!("{:?}", e),
    }
}

#[test]
fn test_norm_abs_path_with_abs_path() {
    let path = "/";
    let abs_path = norm_abs_path(path, Some(HOME));
    assert_eq!(path, abs_path.unwrap());
}

#[test]
fn test_condense_path_valid_path() {
    let path = HOME;
    let correct_condensed_path = "~";
    let condensed_path = condense_path(path, Some(HOME));
    assert_eq!(correct_condensed_path, condensed_path.unwrap());
}

#[test]
fn test_condense_path_invalid_path() {
    let path = "nonexistent";
    let condensed_path = condense_path(path, Some(HOME));
    match condensed_path {
        Ok(_) => panic!("Test failed"),
        Err(e) => println!("{:?}", e),
    }
}

#[test]
fn test_condense_path_already_condensed() {
    let path = "~";
    let condensed_path = condense_path(path, Some(HOME)).unwrap();
    assert_eq!(path, condensed_path);
}

#[test]
fn expand_replaces_leading_tilde_only() {
    assert_eq!(expand_path("~/bin", Some("/home/u")).unwrap(), "/home/u/bin");
    assert_eq!(expand_path("~", Some("/home/u")).unwrap(), "/home/u");
    assert_eq!(expand_path("a/~/b", Some("/home/u")).unwrap(), "a/~/b");
    assert_eq!(expand_path("/etc", None).unwrap(), "/etc");
    assert_eq!(expand_path("", None).unwrap(), "");
}

#[test]
fn expand_without_home_is_unresolvable() {
    assert_eq!(expand_path("~/bin", None), Err(PathError::HomeUnresolvable));
    assert_eq!(norm_abs_path("~", None), Err(PathError::HomeUnresolvable));
    assert_eq!(condense_path("/", None), Err(PathError::HomeUnresolvable));
}

#[test]
fn missing_path_is_not_found() {
    assert_eq!(
        norm_abs_path("/no/such/directory/here", Some(HOME)),
        Err(PathError::NotFound)
    );
    assert_eq!(
        condense_path("~/no/such/directory/here", Some(HOME)),
        Err(PathError::NotFound)
    );
}

#[test]
fn condense_writes_home_as_tilde() {
    assert_eq!(condense_canonical("/home/u", "/home/u"), "~");
    assert_eq!(condense_canonical("/home/u/src/x", "/home/u"), "~/src/x");
    assert_eq!(condense_canonical("/home/user2", "/home/u"), "/home/user2");
    assert_eq!(condense_canonical("/etc", "/home/u"), "/etc");
    assert_eq!(condense_canonical("/home", "/home/u"), "/home");
}

#[test]
fn norm_abs_path_resolves_dot_dot() {
    assert_eq!(norm_abs_path("/usr/../usr/./bin/..", Some(HOME)).unwrap(), "/usr");
    assert_eq!(norm_abs_path("~/..", Some(HOME)).unwrap(), "/");
}

#[test]
fn condense_then_normalize_round_trip() {
    for p in ["/usr/bin", "/", "/usr", "~/bin", "/etc"] {
        let condensed = condense_path(p, Some(HOME)).unwrap();
        assert_eq!(
            norm_abs_path(&condensed, Some(HOME)).unwrap(),
            norm_abs_path(p, Some(HOME)).unwrap()
        );
    }
    assert_eq!(condense_path("/usr/bin", Some(HOME)).unwrap(), "~/bin");
}

#[test]
fn normalize_home_and_root() {
    assert_eq!(norm_abs_path("~", Some(HOME)).unwrap(), HOME);
    assert_eq!(norm_abs_path("/", None).unwrap(), "/");
}

#[test]
fn verify_path_checks_existence() {
    assert!(verify_path("/usr", None));
    assert!(verify_path("~/bin", Some(HOME)));
    assert!(!verify_path("/no/such/directory/here", None));
    assert!(!verify_path("~/bin", None));
}
