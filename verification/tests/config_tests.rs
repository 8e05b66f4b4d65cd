use xcbridge::config::Config;
use xcbridge::config::PathResolution;

fn base_config() -> Config {
    Config {
        port: 9090,
        host: "127.0.0.1".to_string(),
        api_key: None,
        log_level: "info".to_string(),
        allowed_paths: None,
    }
}

#[test]
fn test_socket_addr() {
    let config = Config {
        port: 9090,
        host: "127.0.0.1".to_string(),
        api_key: None,
        log_level: "info".to_string(),
        allowed_paths: None,
    };
    assert_eq!(config.socket_addr(), "127.0.0.1:9090");
}

#[test]
fn socket_addr_one_digit_port() {
    let mut config = base_config();
    config.port = 7;
    config.host = "0.0.0.0".to_string();
    assert_eq!(config.socket_addr(), "0.0.0.0:7");
}

#[test]
fn socket_addr_max_port() {
    let mut config = base_config();
    config.port = 65535;
    assert_eq!(config.socket_addr(), "127.0.0.1:65535");
}

fn allowlisted(roots: &[&str]) -> Config {
    let mut config = base_config();
    config.allowed_paths = Some(roots.iter().map(|r| r.to_string()).collect());
    config
}

fn resolution(canonical: Option<&str>, roots: &[Option<&str>]) -> PathResolution {
    PathResolution {
        canonical: canonical.map(|c| c.to_string()),
        canonical_roots: roots.iter().map(|r| r.map(|s| s.to_string())).collect(),
    }
}

#[test]
fn path_inside_allowed_root_is_accepted() {
    let config = allowlisted(&["/allowed"]);
    let r = resolution(Some("/allowed/App.xcodeproj"), &[Some("/allowed")]);
    assert!(config.is_path_allowed(&r));
}

#[test]
fn path_equal_to_allowed_root_is_accepted() {
    let config = allowlisted(&["/allowed"]);
    let r = resolution(Some("/allowed"), &[Some("/allowed")]);
    assert!(config.is_path_allowed(&r));
}

#[test]
fn path_outside_all_roots_is_rejected() {
    let config = allowlisted(&["/allowed"]);
    let r = resolution(Some("/elsewhere/App.xcodeproj"), &[Some("/allowed")]);
    assert!(!config.is_path_allowed(&r));
}

#[test]
fn sibling_with_matching_prefix_is_rejected() {
    // "/allowedx" textually starts with "/allowed" but is a different
    // directory.
    let config = allowlisted(&["/allowed"]);
    let r = resolution(Some("/allowedx/App.xcodeproj"), &[Some("/allowed")]);
    assert!(!config.is_path_allowed(&r));
}

#[test]
fn textual_match_that_canonicalizes_elsewhere_is_rejected() {
    // The request named "/allowed/../other/App.xcodeproj"; its canonical
    // form leaves the allowed root.
    let config = allowlisted(&["/allowed"]);
    let r = resolution(Some("/other/App.xcodeproj"), &[Some("/allowed")]);
    assert!(!config.is_path_allowed(&r));
}

#[test]
fn unresolvable_path_is_rejected_under_allowlist() {
    let config = allowlisted(&["/allowed"]);
    let r = resolution(None, &[Some("/allowed")]);
    assert!(!config.is_path_allowed(&r));
}

#[test]
fn unresolvable_root_admits_nothing() {
    let config = allowlisted(&["/gone"]);
    let r = resolution(Some("/gone/App.xcodeproj"), &[None]);
    assert!(!config.is_path_allowed(&r));
}

#[test]
fn second_root_can_admit() {
    let config = allowlisted(&["/a", "/b"]);
    let r = resolution(Some("/b/proj"), &[Some("/a"), Some("/b")]);
    assert!(config.is_path_allowed(&r));
}

#[test]
fn root_slash_admits_absolute_paths() {
    let config = allowlisted(&["/"]);
    let r = resolution(Some("/anything/at/all"), &[Some("/")]);
    assert!(config.is_path_allowed(&r));
}

#[test]
fn no_allowlist_accepts_every_path() {
    let config = base_config();
    let r = resolution(Some("/anywhere"), &[]);
    assert!(config.is_path_allowed(&r));
    let unresolved = resolution(None, &[]);
    assert!(config.is_path_allowed(&unresolved));
}

#[test]
fn empty_allowlist_rejects_every_path() {
    let config = allowlisted(&[]);
    let r = resolution(Some("/anywhere"), &[]);
    assert!(!config.is_path_allowed(&r));
}

#[test]
fn api_key_not_configured_accepts_any_request() {
    let config = base_config();
    assert!(config.api_key_matches(&None));
    assert!(config.api_key_matches(&Some("whatever".to_string())));
}

#[test]
fn api_key_configured_requires_exact_match() {
    let mut config = base_config();
    config.api_key = Some("secret-key".to_string());
    assert!(config.api_key_matches(&Some("secret-key".to_string())));
    assert!(!config.api_key_matches(&Some("wrong".to_string())));
    assert!(!config.api_key_matches(&None));
}
