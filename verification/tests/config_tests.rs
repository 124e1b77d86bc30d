use terminal_velocity::config::{Config, ConfigOverrides};
use terminal_velocity::errors::Error;

#[test]
fn test_default_config() {
    let config = Config::default();
    assert_eq!(config.base_url, "http://localhost");
    assert_eq!(config.title, "My Terminal Velocity Blog");
    assert_eq!(config.description, "A blazingly fast tech blog");
    assert_eq!(config.author.name, "Anonymous");
    assert_eq!(config.author.email, "author@example.com");
    assert_eq!(config.server.port, 8080);
    assert_eq!(config.build.output_dir, "dist");
    assert_eq!(config.build.posts_dir, "posts");
    assert_eq!(config.build.templates_dir, "templates");
    assert_eq!(config.build.static_dir, "static");
    assert_eq!(config.build.post_assets_dir, "assets");
    assert!(config.server.hot_reload);
    assert!(!config.build.verbose);
}

#[test]
fn test_load_empty_directory() {
    let config = Config::load_from_str("/site", None).unwrap();
    assert_eq!(config.base_url, "http://localhost");
    assert_eq!(config.server.port, 8080);
    assert_eq!(config.site_dir, "/site");
}

#[test]
fn test_load_partial_config() {
    let config_content = r#"
            title = "Custom Blog"
            base_url = "https://example.com"

            [author]
            name = "Test Author"

            [server]
            port = 9000
        "#;

    let config = Config::load_from_str("/site", Some(config_content)).unwrap();

    assert_eq!(config.title, "Custom Blog");
    assert_eq!(config.base_url, "https://example.com");
    assert_eq!(config.author.name, "Test Author");
    assert_eq!(config.server.port, 9000);

    assert_eq!(config.author.email, "author@example.com");
    assert_eq!(config.build.output_dir, "dist");
    assert!(!config.build.verbose);
}

#[test]
fn test_cli_overrides() {
    let config_content = r#"
            title = "Base Blog"

            [build]
            port = 8080
            verbose = false
            hot_reload = true
        "#;

    let config = Config::load_from_str("/site", Some(config_content)).unwrap().with_overrides(
        ConfigOverrides {
            port: Some(9000),
            verbose: Some(true),
            hot_reload: Some(false),
            author: Some("CLI Author".into()),
            output_dir: Some("/custom/output".into()),
            auto_build: Some(true),
        },
    );

    assert_eq!(config.server.port, 9000);
    assert!(config.build.verbose);
    assert!(!config.server.hot_reload);
    assert_eq!(config.author.name, "CLI Author");
    assert_eq!(config.build.output_dir, "/custom/output");

    assert_eq!(config.title, "Base Blog");
}

#[test]
fn test_partial_cli_overrides() {
    let config_content = r#"
            title = "Base Blog"

            [build]
            port = 8080
            verbose = false
        "#;

    let config = Config::load_from_str("/site", Some(config_content)).unwrap().with_overrides(
        ConfigOverrides { port: Some(9000), ..Default::default() },
    );

    assert_eq!(config.server.port, 9000);
    assert!(!config.build.verbose);
    assert!(config.server.hot_reload);
    assert_eq!(config.title, "Base Blog");
}

#[test]
fn test_output_dir_handling() {
    let config = Config::load_from_str("/site", None).unwrap().with_overrides(ConfigOverrides {
        output_dir: Some("relative/output".into()),
        ..Default::default()
    });
    assert_eq!(config.output_dir(), "/site/relative/output");

    let config = Config::load_from_str("/site", None).unwrap().with_overrides(ConfigOverrides {
        output_dir: Some("/absolute/output".into()),
        ..Default::default()
    });
    assert_eq!(config.output_dir(), "/absolute/output");
}

#[test]
fn test_path_helper_methods() {
    let config = Config::load_from_str("/site", None).unwrap();

    assert_eq!(config.posts_dir(), "/site/posts");
    assert_eq!(config.templates_dir(), "/site/templates");
    assert_eq!(config.static_dir(), "/site/static");
    assert_eq!(config.output_dir(), "/site/dist");
}

#[test]
fn test_invalid_toml() {
    let config_content = r#"
            title = "Unclosed String
            invalid toml content
        "#;

    let result = Config::from_toml_str("/site", config_content);
    assert!(matches!(result, Err(Error::ConfigParse(_))));
}

#[test]
fn test_deserialize_from_str() {
    let config_str = r#"
            title = "From String"
            base_url = "http://example.com"

            [server]
            port = 3000
        "#;

    let config = Config::from_toml_str("", config_str).unwrap();
    assert_eq!(config.title, "From String");
    assert_eq!(config.base_url, "http://example.com");
    assert_eq!(config.server.port, 3000);
}

#[test]
fn test_base_url_trailing_slash_stripped() {
    let config = Config::from_toml_str("", "base_url = \"http://example.com/\"").unwrap();
    assert_eq!(config.base_url, "http://example.com");
}

#[test]
fn test_unknown_keys_ignored() {
    let config_content = r#"
            title = "Blog"
            something_else = 42

            [extras]
            key = "value"
        "#;
    let config = Config::from_toml_str("", config_content).unwrap();
    assert_eq!(config.title, "Blog");
}

#[test]
fn test_port_overflow_rejected() {
    let result = Config::from_toml_str("", "[server]\nport = 70000");
    assert!(matches!(result, Err(Error::ConfigParse(_))));
}

#[test]
fn test_auto_build_override_applied() {
    let config = Config::default().with_overrides(ConfigOverrides {
        auto_build: Some(false),
        ..Default::default()
    });
    assert!(!config.server.auto_build);

    let config = Config::from_toml_str("", "[server]\nauto_build = false")
        .unwrap()
        .with_overrides(ConfigOverrides {
            auto_build: Some(true),
            ..Default::default()
        });
    assert!(config.server.auto_build);
}

#[test]
fn test_comment_after_value_accepted() {
    let config_content = r#"
            title = "Blog" # the site name

            [server] # server settings
            port = 8080 # the default port
            hot_reload = true # watch for changes
        "#;
    let config = Config::from_toml_str("", config_content).unwrap();
    assert_eq!(config.title, "Blog");
    assert_eq!(config.server.port, 8080);
    assert!(config.server.hot_reload);
}

#[test]
fn test_hash_inside_quoted_value_kept() {
    let config = Config::from_toml_str("", "title = \"a#b\"").unwrap();
    assert_eq!(config.title, "a#b");
}

#[test]
fn test_config_parse_error_message() {
    let err = Config::from_toml_str("", "no equals sign here").unwrap_err();
    assert_eq!(err.describe(), "Configuration parse error: invalid configuration line");
}
