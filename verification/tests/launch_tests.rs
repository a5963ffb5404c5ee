use verdaccio_control::{
    default_config_text, default_port, get_config_path, get_htpasswd_path, get_settings_path,
    get_storage_path, get_verdaccio_dir, i32_to_string, listen_address, reset_config_text,
    resolve_existing, resolve_home, resource_candidates, str_eq, u64_to_string, AppSettings,
    VerdaccioError, DEFAULT_CONFIG_TEXT, RESET_CONFIG_TEXT,
};

#[test]
fn listen_addresses() {
    assert_eq!(listen_address(4873, false), "127.0.0.1:4873");
    assert_eq!(listen_address(4873, true), "0.0.0.0:4873");
    assert_eq!(listen_address(80, false), "127.0.0.1:80");
    assert_eq!(listen_address(65535, true), "0.0.0.0:65535");
}

#[test]
fn per_user_paths() {
    assert_eq!(get_verdaccio_dir("/home/u"), "/home/u/.verdaccio");
    assert_eq!(get_config_path("/home/u"), "/home/u/.verdaccio/config.yaml");
    assert_eq!(get_storage_path("/home/u"), "/home/u/.verdaccio/storage");
    assert_eq!(get_htpasswd_path("/home/u"), "/home/u/.verdaccio/htpasswd");
    assert_eq!(
        get_settings_path("/home/u"),
        "/home/u/.mint-verdaccio/settings.json"
    );
}

#[test]
fn the_home_fallback_is_never_empty() {
    assert!(!resolve_home().is_empty());
}

#[test]
fn candidates_follow_the_three_install_layouts() {
    let c = resource_candidates(
        Some("/res"),
        Some("/cwd"),
        Some("/root_dir"),
        "node_modules/verdaccio/bin/verdaccio",
    );
    assert_eq!(
        c,
        vec![
            "/res/node_modules/verdaccio/bin/verdaccio".to_string(),
            "/cwd/resources/node_modules/verdaccio/bin/verdaccio".to_string(),
            "/root_dir/src-tauri/resources/node_modules/verdaccio/bin/verdaccio".to_string(),
        ]
    );
    let c = resource_candidates(None, Some("/cwd"), None, "node_modules/verdaccio/package.json");
    assert_eq!(
        c,
        vec!["/cwd/resources/node_modules/verdaccio/package.json".to_string()]
    );
}

#[test]
fn the_first_existing_candidate_wins() {
    let candidates = vec!["a".to_string(), "b".to_string(), "c".to_string()];
    let r = resolve_existing(&candidates, &vec![false, true, true]);
    assert_eq!(r.unwrap(), "b");
    let r = resolve_existing(&candidates, &vec![false, false, false]);
    match r {
        Err(e @ VerdaccioError::EntryNotFound) => {
            assert_eq!(e.message(), "Could not find Verdaccio; run pnpm prepare:runtime");
        }
        _ => panic!("no candidate exists, so the probe must fail"),
    }
}

#[test]
fn the_default_configuration_document() {
    let text = default_config_text();
    assert_eq!(text, DEFAULT_CONFIG_TEXT);
    assert!(text.contains("storage: ./storage"));
    assert!(text.contains("file: ./htpasswd"));
    assert!(text.contains("max_users: -1"));
    assert!(text.contains("url: https://registry.npmjs.org/"));
    assert!(text.contains("'@*/*':"));
    assert!(text.contains("'**':"));
    assert!(text.contains("proxy: npmjs"));
    assert!(text.contains("keepAliveTimeout: 60"));
    assert!(text.contains("audit:"));
    assert!(text.contains("level: http"));
}

#[test]
fn the_reset_configuration_document() {
    let text = reset_config_text();
    assert_eq!(text, RESET_CONFIG_TEXT);
    assert!(text.contains("max_users: 10"));
    assert!(text.contains("'local-*':"));
}

#[test]
fn default_settings() {
    let s = AppSettings::default();
    assert!(!s.auto_start);
    assert!(s.minimize_to_tray);
    assert!(!s.auto_start_verdaccio);
    assert_eq!(s.default_port, 4873);
    assert!(!s.allow_lan);
    assert_eq!(default_port(), 4873);
}

#[test]
fn number_rendering() {
    assert_eq!(u64_to_string(0), "0");
    assert_eq!(u64_to_string(4873), "4873");
    assert_eq!(u64_to_string(u64::MAX), "18446744073709551615");
    assert_eq!(i32_to_string(0), "0");
    assert_eq!(i32_to_string(-9), "-9");
    assert_eq!(i32_to_string(i32::MIN), "-2147483648");
}

#[test]
fn character_equality() {
    assert!(str_eq("abc", "abc"));
    assert!(!str_eq("abc", "abd"));
    assert!(!str_eq("abc", "ab"));
    assert!(str_eq("", ""));
}
