use agent_control::discovery::extract_version;

#[test]
fn extract_version_from_output() {
    assert_eq!(extract_version("agent 2.1.0"), Some("2.1.0".to_string()));
    assert_eq!(extract_version("2.1.0"), Some("2.1.0".to_string()));
    assert_eq!(extract_version("agent-cli v2.1.33"), Some("2.1.33".to_string()));
    assert_eq!(extract_version("no version here"), None);
}

#[test]
fn extract_version_takes_first_and_strips_every_v() {
    assert_eq!(extract_version("  vv1.0.0\t2.0.0\n"), Some("1.0.0".to_string()));
    assert_eq!(extract_version(""), None);
    assert_eq!(extract_version("1.0 v2.0.0-beta.1"), Some("2.0.0-beta.1".to_string()));
}
