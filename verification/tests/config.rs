use ravel_lite::config::{agent_config_files, config_location_in, select_config_dir, shared_config_files, token_files};

#[test]
fn nonexistent_explicit_errors_with_candidate_path() {
    let missing = "/definitely/not/a/real/path/for/ravel-lite/test".to_string();
    let err = select_config_dir(Some(missing.clone()), None, None).unwrap_err();
    assert!(err.contains(&missing));
    assert!(err.contains("--config flag"));
    assert!(err.contains("ravel-lite init"));
}

#[test]
fn nonexistent_env_errors_with_env_var_name() {
    let missing = "/definitely/not/a/real/path/for/ravel-lite/test".to_string();
    let err = select_config_dir(None, Some(missing), None).unwrap_err();
    assert!(err.contains("RAVEL_LITE_CONFIG"));
}

#[test]
fn all_sources_missing_errors_with_init_guidance() {
    let err = select_config_dir(None, None, None).unwrap_err();
    assert!(err.contains("ravel-lite init"));
    assert!(err.contains("RAVEL_LITE_CONFIG"));
}

#[test]
fn explicit_flag_takes_precedence_over_env_and_default() {
    let resolved = select_config_dir(Some("/tmp".into()), Some("/".into()), Some("/.".into())).unwrap();
    assert_eq!(resolved, "/tmp");
}

#[test]
fn env_takes_precedence_over_default_when_no_explicit() {
    let resolved = select_config_dir(None, Some("/tmp".into()), Some("/".into())).unwrap();
    assert_eq!(resolved, "/tmp");
}

#[test]
fn default_used_when_no_explicit_and_no_env() {
    let resolved = select_config_dir(None, None, Some("/tmp".into())).unwrap();
    assert_eq!(resolved, "/tmp");
}

#[test]
fn config_files_pair_base_and_local_overlay() {
    let (base, overlay) = shared_config_files("/cfg");
    assert_eq!(base, "/cfg/config.yaml");
    assert_eq!(overlay, "/cfg/config.local.yaml");
    let (base, overlay) = agent_config_files("/cfg", "pi");
    assert_eq!(base, "/cfg/agents/pi/config.yaml");
    assert_eq!(overlay, "/cfg/agents/pi/config.local.yaml");
    let (base, overlay) = token_files("/cfg", "pi");
    assert_eq!(base, "/cfg/agents/pi/tokens.yaml");
    assert_eq!(overlay, "/cfg/agents/pi/tokens.local.yaml");
}

#[test]
fn default_location_is_under_the_user_config_dir() {
    assert_eq!(config_location_in(Some("/home/u/.config".to_string())), Some("/home/u/.config/ravel-lite".to_string()));
    assert_eq!(config_location_in(None), None);
}
