use powerusd::kinds::AssetViewMode;
use powerusd::library::{
    config_lines, display_name, first_existing, is_listed, library_config_path, sort_entries, text_contains,
    root_display_name, thumbnail_candidates, AssetEntry, AssetLibrary,
};

fn entry(name: &str, is_dir: bool) -> AssetEntry {
    AssetEntry {
        path: format!("/lib/{}", name),
        name: name.to_string(),
        is_dir,
        thumbnail_grid: None,
        thumbnail_cover: None,
    }
}

fn entry_names(v: &Vec<AssetEntry>) -> Vec<String> {
    v.iter().map(|e| e.name.clone()).collect()
}

fn strings(v: &[&str]) -> Vec<String> {
    v.iter().map(|s| s.to_string()).collect()
}

#[test]
fn new_library_defaults() {
    let lib = AssetLibrary::new();
    assert!(!lib.visible);
    assert!(lib.library_paths.is_empty());
    assert!(lib.current_dir.is_none());
    assert_eq!(lib.view_mode, AssetViewMode::Grid);
    assert!(lib.hide_extensions);
    assert!(lib.hide_texture_folders);
    assert!(!lib.show_add_path);
}

#[test]
fn toggle_flips_visibility() {
    let mut lib = AssetLibrary::new();
    lib.toggle();
    assert!(lib.visible);
    lib.toggle();
    assert!(!lib.visible);
}

#[test]
fn text_search() {
    assert!(text_contains("wooden_chair", "chair"));
    assert!(text_contains("chair", "chair"));
    assert!(text_contains("chair", ""));
    assert!(!text_contains("chai", "chair"));
    assert!(!text_contains("", "a"));
    assert!(text_contains("aaab", "aab"));
}

#[test]
fn filter_hides_texture_folders_and_searches() {
    let mut lib = AssetLibrary::new();
    let entries = vec![
        entry("tex", true),
        entry("Props", true),
        entry("chair.usd", false),
        entry("Table.USDA", false),
        entry("Textures", true),
    ];
    lib.receive_entries(entries);
    assert_eq!(entry_names(&lib.filtered), strings(&["Props", "chair.usd", "Table.USDA"]));

    lib.search_query = "TA".to_string();
    lib.apply_filter();
    assert_eq!(entry_names(&lib.filtered), strings(&["Table.USDA"]));

    lib.search_query = "tex".to_string();
    lib.hide_texture_folders = false;
    lib.apply_filter();
    assert_eq!(entry_names(&lib.filtered), strings(&["tex", "Textures"]));

    lib.search_query = String::new();
    lib.apply_filter();
    assert_eq!(lib.filtered.len(), 5);
    assert_eq!(lib.entries.len(), 5);
}

#[test]
fn library_paths_are_kept_once() {
    let mut lib = AssetLibrary::new();
    assert!(lib.add_library_path("/assets".to_string(), true));
    assert!(!lib.add_library_path("/assets/".to_string(), true));
    assert!(!lib.add_library_path("/missing".to_string(), false));
    assert!(lib.add_library_path("/props".to_string(), true));
    assert_eq!(lib.library_paths, strings(&["/assets", "/props"]));
    assert_eq!(lib.config_text(), "/assets\n/props\n");
    assert!(!lib.remove_library_path(2));
    assert!(lib.remove_library_path(0));
    assert_eq!(lib.library_paths, strings(&["/props"]));
}

#[test]
fn config_paths_are_trimmed_lines() {
    assert_eq!(config_lines("  /a/b \n\n\t/c\r\n"), strings(&["/a/b", "/c"]));
    assert_eq!(config_lines(""), Vec::<String>::new());
    assert_eq!(config_lines("/only"), strings(&["/only"]));
    assert_eq!(config_lines("\n \n"), Vec::<String>::new());
}

#[test]
fn loading_config_keeps_existing_directories_once() {
    let mut lib = AssetLibrary::new();
    let candidates = strings(&["/a", "/b", "/a", "/c"]);
    lib.load_config_paths(&candidates, &vec![true, false, true, true]);
    assert_eq!(lib.library_paths, strings(&["/a", "/c"]));
    assert_eq!(lib.config_text(), "/a\n/c\n");
}

#[test]
fn config_file_location() {
    assert_eq!(
        library_config_path(Some("/home/user"), false),
        Some("/home/user/.config/powerusd/library_paths.txt".to_string())
    );
    assert_eq!(
        library_config_path(Some("/appdata"), true),
        Some("/appdata/powerusd/library_paths.txt".to_string())
    );
    assert_eq!(library_config_path(None, false), None);
}

#[test]
fn listed_items() {
    assert!(!is_listed(".hidden", "/p/.hidden", true));
    assert!(!is_listed(".scene.usd", "/p/.scene.usd", false));
    assert!(is_listed("Props", "/p/Props", true));
    assert!(is_listed("a.USD", "/p/a.USD", false));
    assert!(is_listed("a.usda", "/p/a.usda", false));
    assert!(is_listed("a.usdc", "/p/a.usdc", false));
    assert!(is_listed("a.usdz", "/p/a.usdz", false));
    assert!(!is_listed("a.txt", "/p/a.txt", false));
    assert!(!is_listed("noext", "/p/noext", false));
}

#[test]
fn thumbnails_of_a_file() {
    let (grid, cover) = thumbnail_candidates("/lib/MyModel.usd", false);
    assert_eq!(
        grid,
        strings(&[
            "/lib/MyModel.jpg",
            "/lib/MyModel.jpeg",
            "/lib/MyModel.png",
            "/lib/MyModel.webp",
            "/lib/MyModel_thumb.jpg",
            "/lib/MyModel_thumb.jpeg",
            "/lib/MyModel_thumb.png",
            "/lib/MyModel_thumb.webp",
        ])
    );
    assert_eq!(
        cover,
        strings(&[
            "/lib/MyModel_cover2.jpg",
            "/lib/MyModel_cover2.jpeg",
            "/lib/MyModel_cover2.png",
            "/lib/MyModel_cover2.webp",
        ])
    );
}

#[test]
fn thumbnails_of_a_folder() {
    let (grid, cover) = thumbnail_candidates("/lib/KitbashPack", true);
    assert_eq!(grid[0], "/lib/KitbashPack/cover.jpg");
    assert_eq!(grid[2], "/lib/KitbashPack/cover.png");
    assert_eq!(grid[4], "/lib/KitbashPack.jpg");
    assert_eq!(grid[6], "/lib/KitbashPack.png");
    assert_eq!(grid.len(), 8);
    assert_eq!(cover[0], "/lib/KitbashPack/cover2.jpg");
    assert_eq!(cover.len(), 4);
}

#[test]
fn thumbnails_of_a_dotted_stem_replace_its_last_part() {
    let (grid, _) = thumbnail_candidates("/lib/My.Model.usd", false);
    assert_eq!(grid[0], "/lib/My.jpg");
    assert_eq!(grid[4], "/lib/My.jpg");
}

#[test]
fn first_existing_candidate() {
    let c = strings(&["a.jpg", "a.png", "a.webp"]);
    assert_eq!(first_existing(&c, &vec![false, true, true]), Some("a.png".to_string()));
    assert_eq!(first_existing(&c, &vec![false, false, false]), None);
    assert_eq!(first_existing(&Vec::new(), &Vec::new()), None);
}

#[test]
fn listing_order_directories_first_then_names() {
    let entries = vec![
        entry("b.usd", false),
        entry("Zeta", true),
        entry("A.usd", false),
        entry("alpha", true),
        entry("a.usd", false),
    ];
    let sorted = sort_entries(entries);
    assert_eq!(entry_names(&sorted), strings(&["alpha", "Zeta", "A.usd", "a.usd", "b.usd"]));
    assert!(sort_entries(Vec::new()).is_empty());
}

#[test]
fn entry_duplicate_is_equal() {
    let mut e = entry("x.usd", false);
    e.thumbnail_grid = Some("/lib/x.jpg".to_string());
    let d = e.duplicate();
    assert_eq!(d.path, e.path);
    assert_eq!(d.name, e.name);
    assert_eq!(d.thumbnail_grid, e.thumbnail_grid);
    assert_eq!(d.thumbnail_cover, None);
}

#[test]
fn scan_state() {
    let mut lib = AssetLibrary::new();
    lib.begin_scan("/lib".to_string());
    assert_eq!(lib.current_dir.as_deref(), Some("/lib"));
}

#[test]
fn back_from_a_subdirectory_and_from_a_root() {
    let mut lib = AssetLibrary::new();
    lib.library_paths = strings(&["/lib"]);
    lib.open_directory("/lib/sub".to_string());
    assert_eq!(lib.current_dir.as_deref(), Some("/lib/sub"));
    assert_eq!(lib.go_back().as_deref(), Some("/lib"));
    assert_eq!(lib.current_dir.as_deref(), Some("/lib/sub"));
    lib.current_dir = Some("/lib".to_string());
    lib.receive_entries(vec![entry("a.usd", false)]);
    assert_eq!(lib.go_back(), None);
    assert!(lib.current_dir.is_none());
    assert!(lib.entries.is_empty());
    assert!(lib.filtered.is_empty());
    assert_eq!(lib.go_back(), None);
}

#[test]
fn opening_a_directory_clears_the_search() {
    let mut lib = AssetLibrary::new();
    lib.search_query = "chair".to_string();
    lib.open_directory("/lib/props".to_string());
    assert_eq!(lib.search_query, "");
    assert_eq!(lib.current_dir.as_deref(), Some("/lib/props"));
}

#[test]
fn display_names_hide_extensions_of_files() {
    assert_eq!(display_name("chair.usd", "/lib/chair.usd", false, true), "chair");
    assert_eq!(display_name("chair.usd", "/lib/chair.usd", false, false), "chair.usd");
    assert_eq!(display_name("props.v2", "/lib/props.v2", true, true), "props.v2");
    assert_eq!(root_display_name("/lib/Kits", true, true), "Kits");
    assert_eq!(root_display_name("/lib/one.usda", false, true), "one");
    assert_eq!(root_display_name("/", true, true), "/");
}

#[test]
fn unicode_white_space_is_trimmed_from_config_lines() {
    assert_eq!(config_lines("\u{3000}/lib/a\u{2003}\n\u{85}\n"), strings(&["/lib/a"]));
}
