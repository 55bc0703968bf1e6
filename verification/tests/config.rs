use alloy::config::{
    CURRENT_CONFIG_VERSION, Config, ExtensionConfig, FallbackStyle, HighlightingConfig,
    ImageProtocol, ImagesConfig, StoredConfig, config_file_in, config_file_path,
};
use alloy::errors::CoreError;

#[test]
fn default_config_version_is_current() {
    assert_eq!(Config::default().config_version, CURRENT_CONFIG_VERSION);
}

#[test]
fn default_extensions_gfm_on_others_off() {
    let ext = ExtensionConfig::default();
    assert!(ext.gfm);
    assert!(!ext.wiki_links);
    assert!(!ext.frontmatter);
    assert!(!ext.math);
}

#[test]
fn default_split_ratio_is_50() {
    assert_eq!(Config::default().ui.split_ratio, 50);
}

#[test]
fn default_images_config_enabled_auto_no_remote() {
    let cfg = ImagesConfig::default();

    assert!(cfg.enabled);
    assert_eq!(cfg.protocol, ImageProtocol::Auto);
    assert!(!cfg.fetch_remote);
}

#[test]
fn default_highlighting_config_is_enabled_with_ocean_theme() {
    let cfg = HighlightingConfig::default();

    assert!(cfg.enabled);
    assert_eq!(cfg.theme, "base16-ocean.dark");
    assert_eq!(cfg.fallback_style, FallbackStyle::Dimmed);
}

#[test]
fn load_missing_file_writes_defaults_and_returns_them() {
    let loaded = Config::load_from("/tmp/alloy/config.toml", StoredConfig::Missing)
        .expect("load failed");

    assert_eq!(loaded.config, Config::default());
    assert!(loaded.write, "defaults should have been written to disk");
}

#[test]
fn load_valid_file_returns_parsed_config() {
    let mut stored = Config::default();
    stored.editor.preview_debounce_ms = 300;
    stored.ui.split_ratio = 60;

    let loaded = Config::load_from("config.toml", StoredConfig::Parsed(stored))
        .expect("load failed");

    assert_eq!(loaded.config.editor.preview_debounce_ms, 300);
    assert_eq!(loaded.config.ui.split_ratio, 60);
    assert!(!loaded.write);
}

#[test]
fn load_malformed_toml_returns_config_parse_error() {
    let stored = StoredConfig::Malformed("expected `]]`".to_string());
    let err = match Config::load_from("/tmp/config.toml", stored) {
        Err(err) => err,
        Ok(_) => panic!("should fail"),
    };
    assert!(
        matches!(err, CoreError::ConfigParse { .. }),
        "unexpected error variant: {err:?}"
    );

    let msg = err.message();
    assert!(msg.contains("config.toml"), "expected path in error: {msg}");
}

#[test]
fn load_unreadable_file_returns_config_io_error() {
    let stored = StoredConfig::Unreadable("denied".to_string());
    match Config::load_from("/tmp/config.toml", stored) {
        Err(err) => assert!(matches!(err, CoreError::ConfigIo { .. })),
        Ok(_) => panic!("should fail"),
    }
}

#[test]
fn load_version_mismatch_returns_defaults() {
    let mut cfg = Config { config_version: 999, ..Default::default() };
    cfg.editor.tab_width = 2;

    let loaded = Config::load_from("config.toml", StoredConfig::Parsed(cfg))
        .expect("load should succeed");

    assert_eq!(loaded.config, Config::default());
    assert!(!loaded.write);
}

#[test]
fn the_config_lies_in_the_config_directory() {
    let path = config_file_path(Some("/home/me/.config".to_string())).unwrap();
    assert_eq!(path, "/home/me/.config/alloy/config.toml");
    assert!(matches!(config_file_path(None), Err(CoreError::ConfigDirUnresolvable)));
}

#[test]
fn configurations_can_be_copied() {
    let mut config = Config::default();
    config.ui.split_ratio = 30;
    let copy = config.clone();
    assert!(copy == config);
    assert!(copy.theme.clone() == config.theme);
    assert!(copy.keymap.clone() == config.keymap);
    assert_eq!(copy.ui.split_ratio, 30);
}

#[test]
fn the_separator_of_the_platform_is_used() {
    assert_eq!(config_file_in("C:\\me", '\\'), "C:\\me\\alloy\\config.toml");
    assert_eq!(config_file_in("C:\\me\\", '\\'), "C:\\me\\alloy\\config.toml");
    assert_eq!(config_file_in("/me/", '/'), "/me/alloy/config.toml");
}
