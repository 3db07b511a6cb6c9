use spotlight::config::{PluginConfig, WindowConfig};

fn window(label: &str, shortcut: &str) -> WindowConfig {
    WindowConfig {
        label: String::from(label),
        shortcut: String::from(shortcut),
        window_level: None,
    }
}

#[test]
fn merge_and_override_default_value() {
    let a = PluginConfig::default();
    let b = PluginConfig {
        windows: Some(vec![window("main", "Ctrl+I")]),
        close_shortcut: Some(String::from("Escape")),
        hide_when_inactive: Some(true),
    };
    let c = PluginConfig::merge(&a, &b);
    assert_eq!(c, b);
}

#[test]
fn merge_windows() {
    let a = PluginConfig {
        windows: Some(vec![window("main", "Ctrl+I")]),
        close_shortcut: None,
        hide_when_inactive: None,
    };
    let b = PluginConfig {
        windows: Some(vec![window("foo", "bar")]),
        close_shortcut: None,
        hide_when_inactive: None,
    };
    let c = PluginConfig::merge(&a, &b);
    assert_eq!(
        c,
        PluginConfig {
            windows: Some(vec![window("main", "Ctrl+I"), window("foo", "bar")]),
            close_shortcut: None,
            hide_when_inactive: None,
        }
    );
}

#[test]
fn a_takes_precedence_over_b() {
    let a = PluginConfig {
        windows: None,
        close_shortcut: Some(String::from("Escape")),
        hide_when_inactive: Some(true),
    };
    let b = PluginConfig {
        windows: None,
        close_shortcut: Some(String::from("baz")),
        hide_when_inactive: Some(false),
    };
    let c = PluginConfig::merge(&a, &b);
    assert_eq!(c, a);
}

#[test]
fn merge_appends_new_labels_and_overrides_missing_scalars() {
    let default_config = PluginConfig {
        windows: Some(vec![window("main", "Ctrl+I")]),
        close_shortcut: None,
        hide_when_inactive: None,
    };
    let override_config = PluginConfig {
        windows: Some(vec![window("foo", "bar")]),
        close_shortcut: Some(String::from("Escape")),
        hide_when_inactive: None,
    };
    let merged = PluginConfig::merge(&default_config, &override_config);
    assert_eq!(
        merged,
        PluginConfig {
            windows: Some(vec![window("main", "Ctrl+I"), window("foo", "bar")]),
            close_shortcut: Some(String::from("Escape")),
            hide_when_inactive: None,
        }
    );
}

#[test]
fn merge_base_wins_on_label_collision() {
    let a = PluginConfig {
        windows: Some(vec![window("main", "Ctrl+I")]),
        close_shortcut: None,
        hide_when_inactive: None,
    };
    let b = PluginConfig {
        windows: Some(vec![window("main", "Ctrl+K"), window("side", "Ctrl+L")]),
        close_shortcut: None,
        hide_when_inactive: None,
    };
    let c = PluginConfig::merge(&a, &b);
    assert_eq!(
        c.windows,
        Some(vec![window("main", "Ctrl+I"), window("side", "Ctrl+L")])
    );
}

#[test]
fn merge_empty_lists_yield_no_list() {
    let a = PluginConfig {
        windows: Some(vec![]),
        close_shortcut: None,
        hide_when_inactive: None,
    };
    let b = PluginConfig::default();
    let c = PluginConfig::merge(&a, &b);
    assert_eq!(c.windows, None);
}

#[test]
fn get_window_config_finds_first_match() {
    let config = PluginConfig {
        windows: Some(vec![window("main", "Ctrl+I"), window("side", "Ctrl+L")]),
        close_shortcut: None,
        hide_when_inactive: None,
    };
    let found = config.get_window_config(&String::from("side"));
    assert_eq!(found, Some(window("side", "Ctrl+L")));
    let missing = config.get_window_config(&String::from("ghost"));
    assert_eq!(missing, None);
    let no_list = PluginConfig::default();
    assert_eq!(no_list.get_window_config(&String::from("main")), None);
}
