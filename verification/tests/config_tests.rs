use cliphist_ui::config::{
    cache_dir_from, config_path_from, css, load, parse_config, style_path_from, AppConfig,
    BehaviorConfig, ClickToCopy, ImageConfig, ListConfig, SearchConfig, WindowConfig,
    WindowPosition,
};
use cliphist_ui::placement::{single_click_copies, window_anchors, Anchors};

#[test]
fn missing_json5_config_uses_defaults() {
    assert_eq!(load(None), AppConfig::default());
}

#[test]
fn parses_json5_comments_and_trailing_commas() {
    let config = parse_config(
        r##"
        {
          // JSON5 comments and trailing commas are allowed.
          window: {
            width: 900,
            position: "top-right",
          },
          search: {
            placeholder: "Find a clip",
          },
          image: {
            width: 320,
            show_details: false,
            rounded_corners: false,
          },
          behavior: {
            close_on_copy: false,
            show_keybinds: false,
            click_to_copy: "double",
          },
        }
        "##,
    );

    assert_eq!(config.window.width, 900);
    assert_eq!(config.window.position, WindowPosition::TopRight);
    assert_eq!(config.search.placeholder, "Find a clip");
    assert_eq!(config.image.width, 320);
    assert!(!config.image.show_details);
    assert!(!config.image.rounded_corners);
    assert!(!config.behavior.close_on_copy);
    assert!(!config.behavior.show_keybinds);
    assert_eq!(config.behavior.click_to_copy, ClickToCopy::Double);
}

#[test]
fn missing_sections_fall_back_to_defaults() {
    let config = parse_config(
        r#"
        {
          list: {
            max_text_chars: 90,
          },
        }
        "#,
    );

    assert_eq!(config.list.max_text_chars, 90);
    assert_eq!(config.window, WindowConfig::default());
    assert_eq!(config.image, ImageConfig::default());
    assert_eq!(config.behavior, BehaviorConfig::default());
}

#[test]
fn invalid_section_falls_back_to_default_section() {
    let config = parse_config(
        r#"
        {
          window: "not a window table",
          list: {
            max_text_chars: 72,
          },
        }
        "#,
    );

    assert_eq!(config.window, WindowConfig::default());
    assert_eq!(config.list.max_text_chars, 72);
}

#[test]
fn invalid_json5_root_uses_defaults() {
    assert_eq!(parse_config("{ window: "), AppConfig::default());
}

#[test]
fn parses_offset_window_position() {
    let config = parse_config(
        r#"
        {
          window: {
            position: "offset",
            offset_x: 24,
            offset_y: 48,
          },
        }
        "#,
    );

    assert_eq!(config.window.position, WindowPosition::Offset);
    assert_eq!(config.window.offset_x, 24);
    assert_eq!(config.window.offset_y, 48);
}

#[test]
fn defaults_are_the_documented_ones() {
    let config = AppConfig::default();
    assert_eq!(
        config.window,
        WindowConfig { width: 760, height: 620, position: WindowPosition::Center, offset_x: 0, offset_y: 0 }
    );
    assert_eq!(config.search, SearchConfig { placeholder: "Search clipboard...".to_string() });
    assert_eq!(config.list, ListConfig { max_text_chars: 180 });
    assert_eq!(
        config.image,
        ImageConfig {
            width: 260,
            height: 140,
            show_details: true,
            preserve_aspect_ratio: true,
            rounded_corners: true,
            concurrent_jobs: 3,
        }
    );
    assert_eq!(
        config.behavior,
        BehaviorConfig {
            close_on_copy: true,
            reload_on_open: true,
            start_in_insert: false,
            show_keybinds: true,
            show_vim_mode: true,
            click_to_copy: ClickToCopy::Single,
        }
    );
}

#[test]
fn a_wrong_field_type_resets_only_its_section() {
    let config = parse_config(
        r#"{ image: { width: "wide", height: 50 }, list: { max_text_chars: 12 } }"#,
    );
    assert_eq!(config.image, ImageConfig::default());
    assert_eq!(config.list.max_text_chars, 12);
}

#[test]
fn an_unknown_position_resets_the_window_section() {
    let config = parse_config(r#"{ window: { width: 500, position: "middle" } }"#);
    assert_eq!(config.window, WindowConfig::default());
}

#[test]
fn out_of_range_numbers_reset_their_section() {
    let config = parse_config(r#"{ window: { width: 3000000000 }, image: { height: -1 } }"#);
    assert_eq!(config.window, WindowConfig::default());
    assert_eq!(config.image, ImageConfig::default());
}

#[test]
fn negative_offsets_are_kept_as_written() {
    let config = parse_config(r#"{ window: { position: "offset", offset_x: -5, offset_y: 7 } }"#);
    assert_eq!(config.window.offset_x, -5);
    assert_eq!(config.window.offset_y, 7);
}

#[test]
fn unknown_fields_and_sections_are_ignored() {
    let config = parse_config(r#"{ theme: "dark", list: { max_text_chars: 33, colour: 1 } }"#);
    assert_eq!(config.list.max_text_chars, 33);
    assert_eq!(config.window, WindowConfig::default());
}

#[test]
fn a_root_that_is_not_an_object_gives_defaults() {
    assert_eq!(parse_config("[1, 2, 3]"), AppConfig::default());
    assert_eq!(parse_config("42"), AppConfig::default());
    assert_eq!(parse_config(""), AppConfig::default());
}

#[test]
fn load_parses_what_was_read() {
    let config = load(Some("{ behavior: { start_in_insert: true } }"));
    assert!(config.behavior.start_in_insert);
    assert_eq!(config.window, WindowConfig::default());
}

#[test]
fn settings_paths_follow_the_xdg_variables() {
    assert_eq!(
        config_path_from(Some("/xdg"), Some("/home/u")),
        Some("/xdg/cliphist-ui/config.json5".to_string())
    );
    assert_eq!(
        config_path_from(None, Some("/home/u")),
        Some("/home/u/.config/cliphist-ui/config.json5".to_string())
    );
    assert_eq!(config_path_from(None, None), None);
    assert_eq!(
        style_path_from(Some("/xdg/"), None),
        Some("/xdg/cliphist-ui/style.css".to_string())
    );
    assert_eq!(
        style_path_from(None, Some("/home/u")),
        Some("/home/u/.config/cliphist-ui/style.css".to_string())
    );
    assert_eq!(style_path_from(None, None), None);
    assert_eq!(cache_dir_from(Some("/c"), Some("/home/u")), "/c/cliphist-ui/thumbnails");
    assert_eq!(cache_dir_from(None, Some("/home/u")), "/home/u/.cache/cliphist-ui/thumbnails");
    assert_eq!(cache_dir_from(None, None), "./.cache/cliphist-ui/thumbnails");
    assert_eq!(config_path_from(Some(""), None), Some("cliphist-ui/config.json5".to_string()));
}

#[test]
fn builtin_css_styles_the_documented_selectors() {
    let sheet = css();
    for selector in [
        "window.cliphist-ui-window",
        ".cliphist-root",
        ".cliphist-header",
        ".cliphist-search",
        ".cliphist-list",
        ".cliphist-status",
        ".cliphist-keyhint-key",
        ".cliphist-mode-normal",
        ".cliphist-mode-insert",
        ".cliphist-thumb-placeholder",
    ] {
        assert!(sheet.contains(selector), "{selector}");
    }
}

#[test]
fn anchors_follow_the_position() {
    let mut window = WindowConfig::default();
    assert_eq!(window_anchors(&window), Anchors { top: None, bottom: None, left: None, right: None });
    window.position = WindowPosition::Offset;
    window.offset_x = 24;
    window.offset_y = -3;
    assert_eq!(window_anchors(&window), Anchors { top: Some(0), bottom: None, left: Some(24), right: None });
    window.offset_y = 48;
    assert_eq!(window_anchors(&window), Anchors { top: Some(48), bottom: None, left: Some(24), right: None });
    window.position = WindowPosition::BottomRight;
    assert_eq!(window_anchors(&window), Anchors { top: None, bottom: Some(0), left: None, right: Some(0) });
    window.position = WindowPosition::Top;
    assert_eq!(window_anchors(&window), Anchors { top: Some(0), bottom: None, left: None, right: None });
    window.position = WindowPosition::TopLeft;
    assert_eq!(window_anchors(&window), Anchors { top: Some(0), bottom: None, left: Some(0), right: None });
}

#[test]
fn single_click_copies_only_when_configured() {
    let mut behavior = BehaviorConfig::default();
    assert!(single_click_copies(&behavior));
    behavior.click_to_copy = ClickToCopy::Double;
    assert!(!single_click_copies(&behavior));
}
