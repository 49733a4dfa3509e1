use twatch::config::Config;
use twatch::theme::{Color, Theme};

#[test]
fn theme_all_is_non_empty() {
    assert!(!Theme::all().is_empty());
}

#[test]
fn theme_default_is_tokyonight_dark() {
    let default = Theme::default();
    assert_eq!(default.name, "TokyoNight Dark");
    assert_eq!(default, Theme::all()[0]);
}

#[test]
fn theme_cycle_wraps_around() {
    let all = Theme::all();
    let last = all[all.len() - 1];
    assert_eq!(last.next(), all[0]);
}

#[test]
fn theme_cycle_sequential() {
    let all = Theme::all();
    for i in 0..all.len() - 1 {
        assert_eq!(all[i].next(), all[i + 1]);
    }
}

#[test]
fn theme_from_name_valid_kebab() {
    assert!(Theme::from_name("tokyonight-dark").is_some());
    assert!(Theme::from_name("tokyonight-light").is_some());
    assert!(Theme::from_name("kanagawa-dark").is_some());
    assert!(Theme::from_name("nord-light").is_some());
    assert!(Theme::from_name("gruvbox-dark").is_some());
    assert!(Theme::from_name("catppuccin-mocha").is_some());
    assert!(Theme::from_name("catppuccin-latte").is_some());
}

#[test]
fn theme_from_name_valid_display() {
    assert!(Theme::from_name("TokyoNight Dark").is_some());
    assert!(Theme::from_name("Kanagawa Light").is_some());
    assert!(Theme::from_name("Nord Light").is_some());
}

#[test]
fn theme_from_name_invalid() {
    assert!(Theme::from_name("nonsense").is_none());
    assert!(Theme::from_name("").is_none());
    assert!(Theme::from_name("cyan").is_none());
}

#[test]
fn theme_to_config_name() {
    assert_eq!(Theme::to_config_name("TokyoNight Dark"), "tokyonight-dark");
    assert_eq!(Theme::to_config_name("Catppuccin Latte"), "catppuccin-latte");
    assert_eq!(Theme::to_config_name("Nord Light"), "nord-light");
}

#[test]
fn palette_accent_is_not_default_black() {
    for theme in &Theme::all() {
        assert_ne!(theme.palette.accent, Color::Rgb(0, 0, 0), "{} has black accent", theme.name);
    }
}

#[test]
fn palette_fields_are_distinct() {
    for theme in &Theme::all() {
        assert_ne!(theme.palette.accent, theme.palette.text_dimmed);
        assert_ne!(theme.palette.accent, theme.palette.text_primary);
        assert_ne!(theme.palette.success, theme.palette.warning);
    }
}

#[test]
fn all_themes_have_unique_names() {
    let names: Vec<&str> = Theme::all().iter().map(|t| t.name).collect();
    let mut deduped = names.clone();
    deduped.sort_unstable();
    deduped.dedup();
    assert_eq!(names.len(), deduped.len(), "theme names must be unique");
}

#[test]
fn config_default_theme_is_tokyonight() {
    let config = Config::default();
    assert_eq!(config.theme, "tokyonight-dark");
}

#[test]
fn every_theme_found_by_its_config_key_and_name() {
    for t in Theme::all() {
        assert_eq!(Theme::from_name(&Theme::to_config_name(t.name)), Some(t));
        assert_eq!(Theme::from_name(t.name), Some(t));
    }
}

#[test]
fn theme_position_and_next_agree() {
    let all = Theme::all();
    for (i, t) in all.iter().enumerate() {
        assert_eq!(t.position(), i);
        assert_eq!(t.next(), all[(i + 1) % all.len()]);
    }
}

#[test]
fn theme_styles_use_the_palette() {
    let t = Theme::default();
    let s = t.accent_style();
    assert_eq!(s.fg, Some(t.palette.accent));
    assert_eq!(s.bg, Some(t.palette.bg));
    assert_eq!(t.hover_style().fg, None);
    assert_eq!(t.hover_style().bg, Some(t.palette.hover));
}
