use lucide_browser::catalog::build_catalog;
use lucide_browser::style::{
    resolve_style, rotation_presets, truncate_name, Icon, IconNamed, IconSize,
};
use lucide_browser::theme;

#[derive(Clone, Copy)]
enum TestIcon {
    Sample,
}

impl IconNamed for TestIcon {
    fn path(&self) -> String {
        match self {
            Self::Sample => "icons/sample.svg".to_string(),
        }
    }
}

#[test]
fn test_icon_size_to_rems() {
    assert_eq!(IconSize::XSmall.to_rem_thousandths() as f64 / 1000.0, 0.75);
    assert_eq!(IconSize::Small.to_rem_thousandths() as f64 / 1000.0, 0.875);
    assert_eq!(IconSize::Medium.to_rem_thousandths() as f64 / 1000.0, 1.0);
    assert_eq!(IconSize::Large.to_rem_thousandths() as f64 / 1000.0, 1.5);
    assert_eq!(IconSize::XLarge.to_rem_thousandths() as f64 / 1000.0, 2.0);
}

#[test]
fn test_new_uses_icon_named_path() {
    let icon = Icon::new(TestIcon::Sample);
    assert_eq!(icon.path.as_str(), "icons/sample.svg");
}

#[test]
fn test_from_path_sets_custom_path() {
    let icon = Icon::from_path("custom-icons/logo.svg".to_string());
    assert_eq!(icon.path.as_str(), "custom-icons/logo.svg");
}

#[test]
fn test_with_size_sets_size() {
    let icon = Icon::default().with_size(IconSize::Large);
    assert_eq!(icon.size, Some(IconSize::Large));
}

#[test]
fn test_color_sets_color() {
    let icon = Icon::default().color(0xff0000);
    assert!(icon.color.is_some());
}

#[test]
fn test_from_icon_name_uses_generated_path() {
    let catalog = build_catalog(&vec!["heart.svg".to_string()]).expect("catalog should build");
    let ids = catalog.all();
    let icon = Icon::from_path(catalog.lookup_path(ids[0]));
    assert_eq!(icon.path.as_str(), "icons/heart.svg");
}

#[test]
fn test_clone_keeps_configuration() {
    let icon = Icon::from_path("icons/sample.svg".to_string())
        .color(0xff0000)
        .with_size(IconSize::Small)
        .rotate(90);

    let cloned = icon.clone();

    assert_eq!(cloned.path.as_str(), "icons/sample.svg");
    assert!(cloned.color.is_some());
    assert_eq!(cloned.size, Some(IconSize::Small));
}

#[test]
fn test_size_tiers_increase() {
    let presets = IconSize::all_presets();
    assert_eq!(presets.len(), 5);
    for pair in presets.windows(2) {
        assert!(pair[0].to_rem_thousandths() < pair[1].to_rem_thousandths());
    }
}

#[test]
fn test_resolve_style_explicit_pixels_win() {
    let style = resolve_style(None, Some(40), Some(IconSize::Large), 0x111111, 14, 16);
    assert_eq!(style.size_px, 40);
    assert_eq!(style.color, 0x111111);
}

#[test]
fn test_resolve_style_preset_scales_base_unit() {
    let style = resolve_style(Some(0xe94560), None, Some(IconSize::Large), 0x111111, 14, 16);
    assert_eq!(style.size_px, 24);
    assert_eq!(style.color, 0xe94560);

    let xsmall = resolve_style(None, None, Some(IconSize::XSmall), 0x111111, 14, 16);
    assert_eq!(xsmall.size_px, 12);
}

#[test]
fn test_resolve_style_falls_back_to_text_size() {
    let style = resolve_style(None, None, None, 0x111111, 14, 16);
    assert_eq!(style.size_px, 14);
}

#[test]
fn test_truncate_name() {
    assert_eq!(truncate_name("alarm-clock-check"), "alarm-cl...");
    assert_eq!(truncate_name("heart"), "heart");
    assert_eq!(truncate_name("0123456789"), "0123456789");
}

#[test]
fn test_rotation_presets() {
    assert_eq!(rotation_presets(), vec![0, 45, 90, 180, 270]);
}

#[test]
fn test_theme_colors() {
    assert_eq!(theme::bg(true), 0x000000);
    assert_eq!(theme::bg(false), 0xffffff);
    assert_eq!(theme::bg_secondary(true), 0x0b0b0b);
    assert_eq!(theme::bg_hover(false), 0xe9e9e9);
    assert_eq!(theme::border(true), 0x202020);
    assert_eq!(theme::text(false), 0x111111);
    assert_eq!(theme::text_muted(true), 0x8b8b8b);
    assert_eq!(theme::accent(true), 0xe94560);
    assert_eq!(theme::accent(false), 0xe94560);
    assert_eq!(theme::color_presets().len(), 8);
}
