//! Tests of the small glue types: assets, themes, tabs.

use uicolors::assets::Assets;
use uicolors::color::ColorFormat;
use uicolors::states::{Event, MainTab};
use uicolors::theme::{Appearance, MdTheme, MdVariant, ThemeManager};

#[test]
fn icon_paths() {
    assert_eq!(Assets::icon("home"), "icons/home.svg");
    assert_eq!(Assets::icon("book-star"), "icons/book-star.svg");
}

#[test]
fn appearance_lightness() {
    assert!(Appearance::Light.is_light());
    assert!(!Appearance::Dark.is_light());
}

#[test]
fn theme_manager_starts_dark() {
    let m = ThemeManager::new();
    assert_eq!(m.appearance, Appearance::Dark);
}

#[test]
fn md_theme_defaults() {
    let _t = MdTheme::new();
    assert_eq!(MdVariant::default(), MdVariant::Default);
}

#[test]
fn state_tags_carry_their_payload() {
    let _tab = MainTab::Home;
    let ev = Event::InputColor(ColorFormat::Rgb(1, 2, 3));
    match ev {
        Event::InputColor(c) => assert_eq!(c, ColorFormat::Rgb(1, 2, 3)),
    }
}
