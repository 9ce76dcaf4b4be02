use cahlter::config::{Config, Link};

#[test]
fn it_should_update_a_config() {
    let mut config = Config::default();
    let mut other = Config::default();

    other.general.title = "New Title".to_string();

    config.update(other);

    assert_eq!(config.general.title, "New Title");
}

#[test]
fn it_should_start_with_the_default_options() {
    let config = Config::default();

    assert_eq!(config.general.title, "");
    assert_eq!(config.general.authors, vec![String::new()]);
    assert_eq!(config.general.desc, "");
    assert!(!config.general.enumerate);
    assert!(config.general.ignore.is_empty());
    assert!(!config.general.multiple_language);
    assert!(config.general.use_default);
    assert_eq!(config.general.src_dir, "src");
    assert_eq!(config.general.build_dir, "build");
    assert!(config.appearance.custom.is_empty());
    assert_eq!(config.appearance.default_theme, "gruvbox");
    assert_eq!(config.appearance.themes, vec!["gruvbox".to_string(), "catppuccin".to_string()]);
    assert!(config.links.is_empty());
    assert!(config.languages.is_empty());
}

#[test]
fn it_should_take_over_every_option_on_update() {
    let mut config = Config::default();
    let mut other = Config::default();

    other.general.enumerate = true;
    other.appearance.custom = vec!["./custom.css".to_string()];
    other.links = vec![Link {
        name: "Home".to_string(),
        url: "https://example.org".to_string(),
        icon: None,
    }];
    let expected = other.clone();

    config.update(other);

    assert_eq!(config, expected);
}

#[test]
fn it_should_copy_a_config() {
    let mut config = Config::default();
    config.general.title = "Vault".to_string();
    config.links = vec![Link {
        name: "Source".to_string(),
        url: "https://example.org/source".to_string(),
        icon: Some("code".to_string()),
    }];

    assert_eq!(config.clone(), config);
}
