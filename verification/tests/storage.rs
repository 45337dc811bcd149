use webapps::storage::{
    config_dir_in, config_file, has_toml_extension, join_path, space_file, webview_data_dir_in,
    ConfigError,
};

#[test]
fn paths_join_like_pathbuf() {
    assert_eq!(join_path("/home/u/.config", "webapps"), "/home/u/.config/webapps");
    assert_eq!(join_path("/home/u/.config/", "webapps"), "/home/u/.config/webapps");
    assert_eq!(join_path("", "webapps"), "webapps");
    assert_eq!(join_path("/a", "/b"), "/b");
}

#[test]
fn config_paths() {
    assert_eq!(config_dir_in(Some("/cfg")), Ok("/cfg/webapps".to_string()));
    assert_eq!(config_dir_in(None), Err(ConfigError::NoConfigDir));
    assert_eq!(config_file("/cfg/webapps"), "/cfg/webapps/config.toml");
    assert_eq!(space_file("/cfg/webapps", "work"), "/cfg/webapps/spaces/work.toml");
    assert_eq!(
        webview_data_dir_in("/cfg/webapps", "work", None),
        "/cfg/webapps/webview-data/space-work"
    );
    assert_eq!(
        webview_data_dir_in("/cfg/webapps", "work", Some("app1")),
        "/cfg/webapps/webview-data/space-work/app1"
    );
}

#[test]
fn toml_files_by_extension() {
    assert!(has_toml_extension("work.toml"));
    assert!(has_toml_extension("a.b.toml"));
    assert!(!has_toml_extension(".toml"));
    assert!(!has_toml_extension("work.tomlx"));
    assert!(!has_toml_extension("toml"));
}

#[test]
fn error_messages() {
    assert_eq!(ConfigError::NoConfigDir.message(), "Config directory not found");
    assert_eq!(ConfigError::Io("denied".to_string()).message(), "IO error: denied");
    assert_eq!(
        ConfigError::TomlDe("bad".to_string()).message(),
        "TOML deserialization error: bad"
    );
    assert_eq!(
        ConfigError::TomlSer("nan".to_string()).message(),
        "TOML serialization error: nan"
    );
}

#[test]
fn data_dirs_nest_and_differ() {
    let shared = webview_data_dir_in("/cfg/webapps", "s", None);
    let own = webview_data_dir_in("/cfg/webapps", "s", Some("a"));
    assert_eq!(own, format!("{shared}/a"));
    // "s"/"a" against "s-a"/none and "s"/"b": all different.
    assert_ne!(own, webview_data_dir_in("/cfg/webapps", "s-a", None));
    assert_ne!(own, webview_data_dir_in("/cfg/webapps", "s", Some("b")));
    assert_ne!(shared, webview_data_dir_in("/cfg/webapps", "t", None));
}
