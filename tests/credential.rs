use slatus::{check_token, load_token, statuses_path, token_path, SlatusError};

#[test]
fn absent_credential_is_not_configured() {
    assert_eq!(load_token(None), Err(SlatusError::NotConfigured));
}

#[test]
fn credential_is_trimmed() {
    assert_eq!(load_token(Some("  xoxp-123\n")), Ok("xoxp-123".to_string()));
    assert_eq!(load_token(Some("\u{3000}a b\t")), Ok("a b".to_string()));
    assert_eq!(load_token(Some(" \n ")), Ok(String::new()));
}

#[test]
fn token_prefix_is_checked() {
    assert_eq!(check_token("xoxp-abc"), Ok(()));
    assert_eq!(check_token("xoxb-abc"), Err(SlatusError::InvalidInput));
    assert_eq!(check_token("xoxp"), Err(SlatusError::InvalidInput));
    assert_eq!(check_token(""), Err(SlatusError::InvalidInput));
}

#[test]
fn paths_inside_config_dir() {
    let dir = std::path::Path::new("cfg");
    assert_eq!(token_path("cfg"), dir.join("token").to_string_lossy());
    assert_eq!(statuses_path("cfg"), dir.join("statuses.json").to_string_lossy());
    assert_ne!(token_path("cfg"), "cfg");
}
