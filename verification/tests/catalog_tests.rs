use std::collections::HashSet;

use lucide_browser::catalog::{build_catalog, CatalogError, IconCatalog};

fn listing(names: &[&str]) -> Vec<String> {
    names.iter().map(|n| n.to_string()).collect()
}

fn catalog_of(names: &[&str]) -> IconCatalog {
    build_catalog(&listing(names)).expect("catalog should build")
}

#[test]
fn test_icon_name_path() {
    let catalog = catalog_of(&["heart.svg"]);
    let ids = catalog.all();
    let path = catalog.lookup_path(ids[0]);
    assert!(path.starts_with("icons/"));
    assert!(path.ends_with(".svg"));
}

#[test]
fn test_icon_name_display() {
    let catalog = catalog_of(&["heart.svg"]);
    let ids = catalog.all();
    assert_eq!(catalog.canonical_name(ids[0]), "heart");
}

#[test]
fn test_icon_count() {
    let mut names: Vec<String> = Vec::new();
    for i in 0..1203 {
        names.push(format!("icon-{:04}.svg", i));
    }
    let catalog = build_catalog(&names).expect("catalog should build");
    assert!(catalog.count() > 1000);
}

#[test]
fn test_all_icons_iterator() {
    let catalog = catalog_of(&["heart.svg", "home.svg", "search.svg"]);
    let count = catalog.all().len();
    assert_eq!(count, catalog.count());
}

#[test]
fn test_all_icon_name_path_mappings() {
    let catalog = catalog_of(&["heart.svg", "home.svg", "search.svg", "arrow-up.svg"]);
    for icon in catalog.all() {
        let expected = format!("icons/{}.svg", catalog.canonical_name(icon));
        assert_eq!(catalog.lookup_path(icon), expected.as_str());
    }
}

#[test]
fn test_names_and_paths_are_unique() {
    let catalog = catalog_of(&["heart.svg", "home.svg", "search.svg", "arrow-up.svg"]);
    let mut names = HashSet::new();
    let mut paths = HashSet::new();

    for icon in catalog.all() {
        assert!(
            names.insert(catalog.canonical_name(icon)),
            "duplicate icon name: {}",
            catalog.canonical_name(icon)
        );
        assert!(
            paths.insert(catalog.lookup_path(icon)),
            "duplicate icon path: {}",
            catalog.lookup_path(icon)
        );
    }
}

#[test]
fn test_count_matches_asset_files() {
    let catalog = catalog_of(&["heart.svg", "readme.txt", "home.svg", "banner.png", "notes"]);
    assert_eq!(catalog.count(), 2);
}

#[test]
fn test_entries_sorted_by_filename() {
    let catalog = catalog_of(&["search.svg", "heart.svg", "home.svg"]);
    let ids = catalog.all();
    assert_eq!(catalog.canonical_name(ids[0]), "heart");
    assert_eq!(catalog.canonical_name(ids[1]), "home");
    assert_eq!(catalog.canonical_name(ids[2]), "search");
}

#[test]
fn test_canonical_name_is_case_folded() {
    let catalog = catalog_of(&["Heart.svg"]);
    let ids = catalog.all();
    assert_eq!(catalog.canonical_name(ids[0]), "heart");
    assert_eq!(catalog.lookup_path(ids[0]), "icons/heart.svg");
}

#[test]
fn test_identifier_tokens() {
    let catalog = catalog_of(&["arrow-up.svg", "3d-box.svg", "heart.svg"]);
    let ids = catalog.all();
    assert_eq!(catalog.identifier_token(ids[0]), "N3dBox");
    assert_eq!(catalog.identifier_token(ids[1]), "ArrowUp");
    assert_eq!(catalog.identifier_token(ids[2]), "Heart");
}

#[test]
fn test_duplicate_canonical_name_halts_generation() {
    let result = build_catalog(&listing(&["HEART.svg", "home.svg", "heart.svg"]));
    match result {
        Ok(_) => panic!("a duplicate canonical name must halt generation"),
        Err(CatalogError::DuplicateName { name }) => assert_eq!(name, "heart"),
    }
}

#[test]
fn test_empty_listing_builds_empty_catalog() {
    let catalog = catalog_of(&[]);
    assert_eq!(catalog.count(), 0);
    assert!(catalog.all().is_empty());
}
