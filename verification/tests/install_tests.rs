use alterware_launcher::catalog::Game;
use alterware_launcher::install::{
    auto_install, confirm_desktop_shortcut, desktop_link_specs, find_installed_in_cwd,
    interpret_install_selection, manual_selection, path_starts_with, InstallSelection,
    InstalledGame,
};
use alterware_launcher::version::{parse_version, should_notify_update, Version};

fn game(engine: &str, clients: &[&str], app_id: u32) -> Game {
    Game {
        engine: engine.to_string(),
        client: clients.iter().map(|c| c.to_string()).collect(),
        references: Vec::new(),
        app_id,
    }
}

#[test]
fn auto_install_plans_one_link_per_client() {
    let g = game("iw4", &["iw4-sp", "iw4x"], 10090);
    let plan = auto_install(&g, "C:/Games/MW2");
    assert_eq!(plan.sync_engine, "iw4");
    assert!(plan.offer_desktop_links);
    assert_eq!(plan.client_links.len(), 2);
    let first = &plan.client_links[0];
    assert_eq!(first.lnk_path, "C:/Games/MW2/launch-iw4-sp.lnk");
    assert_eq!(first.target, "C:/Games/MW2/alterware-launcher.exe");
    assert_eq!(first.arguments, "iw4-sp");
    assert_eq!(first.icon, "C:/Games/MW2/iw4-sp.exe");
    let second = &plan.client_links[1];
    assert_eq!(second.lnk_path, "C:/Games/MW2/launch-iw4x.lnk");
    assert_eq!(second.arguments, "iw4x");
}

#[test]
fn desktop_links_point_back_at_the_game_directory() {
    let g = game("iw5", &["iw5-mod"], 42680);
    let links = desktop_link_specs(&g, "C:/Games/MW3", "C:/Users/u/Desktop");
    assert_eq!(links.len(), 1);
    assert_eq!(links[0].lnk_path, "C:/Users/u/Desktop/iw5-mod.lnk");
    assert_eq!(links[0].target, "C:/Games/MW3/alterware-launcher.exe");
    assert_eq!(links[0].icon, "C:/Games/MW3/iw5-mod.exe");
}

#[test]
fn desktop_prompt_defaults_to_yes() {
    assert!(confirm_desktop_shortcut(""));
    assert!(confirm_desktop_shortcut("y"));
    assert!(confirm_desktop_shortcut("Y"));
    assert!(!confirm_desktop_shortcut("n"));
    assert!(!confirm_desktop_shortcut("yes"));
}

#[test]
fn manual_selection_picks_primary_client() {
    let games = vec![game("iw4", &["iw4-sp", "iw4x"], 1), game("iw5", &["iw5-mod"], 2)];
    assert_eq!(manual_selection(&games, 0), Some("iw4-sp".to_string()));
    assert_eq!(manual_selection(&games, 1), Some("iw5-mod".to_string()));
    assert_eq!(manual_selection(&games, 2), None);
}

#[test]
fn installed_scan_detects_run_inside_installation() {
    let installed = vec![
        InstalledGame { app_id: 10090, path: "C:/Steam/common/MW2".to_string() },
        InstalledGame { app_id: 42680, path: "C:/Steam/common/MW3".to_string() },
    ];
    let hit = find_installed_in_cwd(&installed, "C:/Steam/common/MW3/zone");
    assert_eq!(hit, Some(1));
    let same = find_installed_in_cwd(&installed, "C:/Steam/common/MW2");
    assert_eq!(same, Some(0));
    let miss = find_installed_in_cwd(&installed, "C:/Steam/common/MW22");
    assert_eq!(miss, None);
}

#[test]
fn path_prefix_respects_component_boundaries() {
    assert!(path_starts_with("C:/a/b", "C:/a"));
    assert!(path_starts_with("C:\\a\\b", "C:\\a"));
    assert!(path_starts_with("C:/a", "C:/a"));
    assert!(!path_starts_with("C:/ab", "C:/a"));
}

#[test]
fn install_selection_zero_means_manual() {
    let installed = vec![InstalledGame { app_id: 10090, path: "p".to_string() }];
    assert!(matches!(interpret_install_selection(&installed, 0), InstallSelection::Manual));
    assert!(matches!(
        interpret_install_selection(&installed, 10090),
        InstallSelection::Chosen(0)
    ));
    assert!(matches!(interpret_install_selection(&installed, 7), InstallSelection::Invalid));
}

#[test]
fn version_parsing_accepts_three_components() {
    let v = parse_version("1.22.3").unwrap();
    assert_eq!((v.major, v.minor, v.patch), (1, 22, 3));
    assert!(parse_version("1.2").is_none());
    assert!(parse_version("1.2.3.4").is_none());
    assert!(parse_version("1..3").is_none());
    assert!(parse_version("a.b.c").is_none());
    assert!(parse_version("").is_none());
    assert!(parse_version("1.2.99999999999999999999999").is_none());
}

#[test]
fn update_gate_notifies_only_on_strictly_newer() {
    let cur = Version { major: 1, minor: 2, patch: 3 };
    assert!(should_notify_update(&cur, &Version { major: 2, minor: 0, patch: 0 }));
    assert!(should_notify_update(&cur, &Version { major: 1, minor: 3, patch: 0 }));
    assert!(should_notify_update(&cur, &Version { major: 1, minor: 2, patch: 4 }));
    assert!(!should_notify_update(&cur, &Version { major: 1, minor: 2, patch: 3 }));
    assert!(!should_notify_update(&cur, &Version { major: 0, minor: 9, patch: 9 }));
}

#[test]
fn find_by_app_id_and_first_client() {
    let games = vec![game("iw4", &["iw4-sp"], 10090), game("iw5", &["iw5-mod"], 42680)];
    assert_eq!(alterware_launcher::catalog::find_by_app_id(&games, 42680), Some(1));
    assert_eq!(alterware_launcher::catalog::find_by_app_id(&games, 5), None);
    assert_eq!(alterware_launcher::catalog::find_by_first_client(&games, "iw5-mod"), Some(1));
    assert_eq!(alterware_launcher::catalog::find_by_first_client(&games, "iw4x"), None);
}
