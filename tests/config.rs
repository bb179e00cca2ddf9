use seaplane::config::{ConfigError, RawConfig};

#[test]
fn deser_empty_config() {
    let cfg_str = r#"
        "#;

    let cfg: RawConfig = RawConfig::from_toml(cfg_str).unwrap();
    assert_eq!(cfg, RawConfig::default())
}

#[test]
fn load_reports_first_bad_file() {
    let files = vec!["a = 1".to_string(), "[table".to_string(), "= =".to_string()];
    assert_eq!(RawConfig::load(&files), Err(ConfigError { file_index: 1 }));
    let good = vec!["a = 1".to_string(), "[t]\nb = 'x'".to_string()];
    assert_eq!(RawConfig::load(&good), Ok(RawConfig::default()));
    assert_eq!(RawConfig::load(&vec![]), Ok(RawConfig::default()));
}

#[test]
fn deeply_nested_config_is_refused() {
    let deep = format!("a = {}", "[".repeat(100_000));
    assert_eq!(RawConfig::load(&vec![deep]), Err(ConfigError { file_index: 0 }));
    let nested_ok = "a = [[[1]]]\n[b.c]\nd = { e = 1.5 }".to_string();
    assert_eq!(RawConfig::from_toml(&nested_ok), Some(RawConfig::default()));
    let many_dots = format!("a = \"{}\"", ".".repeat(129));
    assert_eq!(RawConfig::from_toml(&many_dots), None);
}
