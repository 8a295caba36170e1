use artemis::config_paths::{
    choose_base_path, choose_config_path, config_legacy_path, legacy_base_path,
};

#[test]
fn test_base_path_uses_artemis_config_env_var() {
    let actual = choose_base_path(
        Some("/custom/artemis/dir".to_string()),
        None,
        Some("/home/user".to_string()),
        false,
    );
    let expected = "/custom/artemis/dir";
    assert_eq!(actual, expected);
}

#[test]
fn test_base_path_forge_config_fallback() {
    let actual = choose_base_path(
        None,
        Some("/custom/forge/dir".to_string()),
        Some("/home/user".to_string()),
        false,
    );
    let expected = "/custom/forge/dir";
    assert_eq!(actual, expected);
}

#[test]
fn test_base_path_artemis_takes_priority_over_forge() {
    let actual = choose_base_path(
        Some("/artemis/path".to_string()),
        Some("/forge/path".to_string()),
        Some("/home/user".to_string()),
        true,
    );
    let expected = "/artemis/path";
    assert_eq!(actual, expected);
}

#[test]
fn test_base_path_falls_back_to_home_dir_when_env_var_absent() {
    for legacy_exists in [false, true] {
        let actual = choose_base_path(None, None, Some("/home/user".to_string()), legacy_exists);
        let name = std::path::Path::new(&actual).file_name().unwrap();
        assert!(
            name == "artemis" || name == ".artemis",
            "Expected base_path to end with 'artemis' or '.artemis', got: {:?}",
            name
        );
    }
}

#[test]
fn base_path_prefers_existing_legacy_directory() {
    assert_eq!(choose_base_path(None, None, Some("/home/u".to_string()), true), "/home/u/artemis");
    assert_eq!(choose_base_path(None, None, Some("/home/u/".to_string()), false), "/home/u/.artemis");
    assert_eq!(choose_base_path(None, None, None, false), "./.artemis");
    assert_eq!(legacy_base_path(Some("/home/u".to_string())), "/home/u/artemis");
}

#[test]
fn config_files_live_in_the_base_directory() {
    assert_eq!(config_legacy_path("/home/u/.artemis"), "/home/u/.artemis/.config.json");
    assert_eq!(choose_config_path("/b", true, true), "/b/.artemis.toml");
    assert_eq!(choose_config_path("/b", false, true), "/b/.forge.toml");
    assert_eq!(choose_config_path("/b", false, false), "/b/.artemis.toml");
}
