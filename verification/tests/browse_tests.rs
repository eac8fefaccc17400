use lucide_browser::catalog::{build_catalog, IconCatalog, IconId};
use lucide_browser::filter::filter_icons;
use lucide_browser::layout::{compute_layout, grid_width};
use lucide_browser::state::BrowserState;
use lucide_browser::style::IconSize;
use lucide_browser::window::produce_rows;

fn catalog_of(names: &[&str]) -> IconCatalog {
    let listing: Vec<String> = names.iter().map(|n| n.to_string()).collect();
    build_catalog(&listing).expect("catalog should build")
}

fn id_of(catalog: &IconCatalog, name: &str) -> IconId {
    for id in catalog.all() {
        if catalog.canonical_name(id) == name {
            return id;
        }
    }
    panic!("{} not in catalog", name);
}

#[test]
fn test_filter_icons_matches_query() {
    let catalog = catalog_of(&["heart.svg", "home.svg", "search.svg"]);
    let icons = filter_icons("heart", &catalog);
    assert!(icons.contains(&id_of(&catalog, "heart")));
}

#[test]
fn test_filter_icons_is_case_insensitive() {
    let catalog = catalog_of(&["heart.svg", "home.svg", "search.svg"]);
    let lower = filter_icons("heart", &catalog);
    let upper = filter_icons("HEART", &catalog);
    assert_eq!(lower, upper);
}

#[test]
fn test_filter_empty_query_keeps_catalog_order() {
    let catalog = catalog_of(&["search.svg", "heart.svg", "home.svg"]);
    let icons = filter_icons("", &catalog);
    assert_eq!(icons, catalog.all());
}

#[test]
fn test_filter_preserves_relative_order() {
    let catalog = catalog_of(&["heart.svg", "heater.svg", "home.svg", "hearing.svg"]);
    let icons = filter_icons("hea", &catalog);
    let names: Vec<String> = icons
        .iter()
        .map(|id| catalog.canonical_name(*id))
        .collect();
    assert_eq!(names, vec!["hearing", "heart", "heater"]);
}

#[test]
fn test_items_per_row_scenario() {
    let layout = compute_layout(300, 72, 8, 16, 10);
    assert_eq!(layout.items_per_row, 3);
}

#[test]
fn test_items_per_row_never_zero() {
    for width in [0, 1, 10, 72, 100] {
        let layout = compute_layout(width, 72, 8, 16, 5);
        assert!(layout.items_per_row >= 1);
    }
}

#[test]
fn test_row_count_is_exact_ceiling() {
    assert_eq!(compute_layout(300, 72, 8, 16, 0).row_count, 0);
    assert_eq!(compute_layout(300, 72, 8, 16, 1).row_count, 1);
    assert_eq!(compute_layout(300, 72, 8, 16, 3).row_count, 1);
    assert_eq!(compute_layout(300, 72, 8, 16, 4).row_count, 2);
    assert_eq!(compute_layout(300, 72, 8, 16, 3001).row_count, 1001);
}

#[test]
fn test_grid_width_clamps_to_minimum() {
    assert_eq!(grid_width(1200, 300, 200), 900);
    assert_eq!(grid_width(450, 300, 200), 200);
    assert_eq!(grid_width(0, 300, 200), 200);
}

#[test]
fn test_produce_rows_scenario() {
    let filtered: Vec<IconId> = (0..10).map(|index| IconId { index }).collect();
    let layout = compute_layout(300, 72, 8, 16, filtered.len());
    assert_eq!(layout.items_per_row, 3);
    assert_eq!(layout.row_count, 4);

    let rows = produce_rows(0, 4, &filtered, layout.items_per_row);
    assert_eq!(rows.len(), 4);
    let sizes: Vec<usize> = rows.iter().map(|r| r.items.len()).collect();
    assert_eq!(sizes, vec![3, 3, 3, 1]);
}

#[test]
fn test_produce_rows_reconstructs_filtered_list() {
    let filtered: Vec<IconId> = (0..10).map(|index| IconId { index }).collect();
    let rows = produce_rows(0, 4, &filtered, 3);
    let mut rebuilt: Vec<IconId> = Vec::new();
    for row in rows {
        rebuilt.extend(row.items);
    }
    assert_eq!(rebuilt, filtered);
}

#[test]
fn test_produce_rows_clips_overlarge_range() {
    let filtered: Vec<IconId> = (0..10).map(|index| IconId { index }).collect();
    let beyond = produce_rows(4, 100, &filtered, 3);
    assert!(beyond.is_empty());
    let partly = produce_rows(3, 100, &filtered, 3);
    assert_eq!(partly.len(), 1);
    assert_eq!(partly[0].row_index, 3);
    assert_eq!(partly[0].items.len(), 1);
    let empty = produce_rows(5, 2, &filtered, 3);
    assert!(empty.is_empty());
}

#[test]
fn test_produce_rows_is_idempotent() {
    let filtered: Vec<IconId> = (0..7).map(|index| IconId { index }).collect();
    let first = produce_rows(1, 3, &filtered, 2);
    let second = produce_rows(1, 3, &filtered, 2);
    assert_eq!(first.len(), second.len());
    for (a, b) in first.iter().zip(second.iter()) {
        assert_eq!(a.row_index, b.row_index);
        assert_eq!(a.items, b.items);
    }
}

#[test]
fn test_new_session_defaults() {
    let catalog = catalog_of(&["heart.svg", "home.svg", "search.svg"]);
    let state = BrowserState::new(&catalog);
    assert_eq!(state.query, "");
    assert_eq!(state.filtered, catalog.all());
    assert!(state.hovered.is_none());
    assert!(state.is_dark);
    assert_eq!(state.selected_color, 0xffffff);
    assert_eq!(state.selected_size, IconSize::Large);
    assert_eq!(state.rotation_degrees, 0);
}

#[test]
fn test_set_query_scenario() {
    let catalog = catalog_of(&["heart.svg", "home.svg", "search.svg"]);
    let mut state = BrowserState::new(&catalog);

    state.set_query("he".to_string(), &catalog);
    assert_eq!(state.filtered.len(), 1);
    assert!(state.filtered.contains(&id_of(&catalog, "heart")));

    state.set_query("".to_string(), &catalog);
    state.set_hovered(Some(id_of(&catalog, "home")));
    state.set_query("he".to_string(), &catalog);
    assert!(state.hovered.is_none());
}

#[test]
fn test_set_query_keeps_surviving_hover() {
    let catalog = catalog_of(&["heart.svg", "home.svg", "search.svg"]);
    let mut state = BrowserState::new(&catalog);
    let heart = id_of(&catalog, "heart");

    state.set_hovered(Some(heart));
    state.set_query("he".to_string(), &catalog);
    assert_eq!(state.hovered, Some(heart));
}

#[test]
fn test_style_mutators() {
    let catalog = catalog_of(&["heart.svg"]);
    let mut state = BrowserState::new(&catalog);
    let before = state.notify_count;

    state.set_color(0x54a0ff);
    state.set_size(IconSize::XLarge);
    state.set_rotation(180);
    state.toggle_theme();

    assert_eq!(state.selected_color, 0x54a0ff);
    assert_eq!(state.selected_size, IconSize::XLarge);
    assert_eq!(state.rotation_degrees, 180);
    assert!(!state.is_dark);
    assert_eq!(state.notify_count, before + 4);
}

#[test]
fn test_icon_render_color_depends_on_theme() {
    let catalog = catalog_of(&["heart.svg"]);
    let mut state = BrowserState::new(&catalog);
    state.set_color(0xe94560);
    assert_eq!(state.icon_render_color(), 0xe94560);
    state.toggle_theme();
    assert_eq!(state.icon_render_color(), 0x000000);
}

#[test]
fn test_preview_icon_uses_hover_or_fallback() {
    let catalog = catalog_of(&["heart.svg", "home.svg"]);
    let mut state = BrowserState::new(&catalog);
    let heart = id_of(&catalog, "heart");
    let home = id_of(&catalog, "home");

    assert_eq!(state.preview_icon(heart), heart);
    state.set_hovered(Some(home));
    assert_eq!(state.preview_icon(heart), home);
}
