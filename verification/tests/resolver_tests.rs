use alterware_launcher::catalog::Game;
use alterware_launcher::resolver::{parse_args, resolve, Resolution};

fn game(engine: &str, clients: &[&str], references: &[&str], app_id: u32) -> Game {
    Game {
        engine: engine.to_string(),
        client: clients.iter().map(|c| c.to_string()).collect(),
        references: references.iter().map(|r| r.to_string()).collect(),
        app_id,
    }
}

fn catalog() -> Vec<Game> {
    vec![
        game("iw4", &["iw4-sp", "iw4x"], &["iw4_sp.exe"], 10090),
        game("iw5", &["iw5-mod"], &["iw5sp.exe"], 42680),
    ]
}

fn args(list: &[&str]) -> Vec<String> {
    list.iter().map(|a| a.to_string()).collect()
}

#[test]
fn explicit_argument_wins_over_references() {
    // a reference file of the first game is present, but the argument
    // names a client of the second game
    let games = catalog();
    let present = vec!["iw4_sp.exe".to_string()];
    let r = resolve(&games, &Some("iw5-mod".to_string()), &present, false);
    assert!(matches!(r, Resolution::Client { game: 1, client: 0 }));
}

#[test]
fn unmatched_argument_leaves_run_unresolved() {
    // an argument that matches nothing does not fall through to probing
    let games = catalog();
    let present = vec!["iw4_sp.exe".to_string()];
    let r = resolve(&games, &Some("unknown".to_string()), &present, false);
    assert!(matches!(r, Resolution::Unresolved));
}

#[test]
fn first_game_with_present_reference_wins() {
    let games = catalog();
    let present = vec!["iw5sp.exe".to_string()];
    let r = resolve(&games, &None, &present, false);
    assert!(matches!(r, Resolution::Client { game: 1, client: 0 }));
}

#[test]
fn catalog_order_decides_among_several_reference_matches() {
    // references of both games are present: the first game in catalog
    // order wins, deterministically
    let games = catalog();
    let present = vec!["iw5sp.exe".to_string(), "iw4_sp.exe".to_string()];
    let r = resolve(&games, &None, &present, true);
    assert!(matches!(r, Resolution::Client { game: 0, client: 0 }));
}

#[test]
fn multi_client_game_asks_for_choice_when_launching() {
    let games = catalog();
    let present = vec!["iw4_sp.exe".to_string()];
    let r = resolve(&games, &None, &present, false);
    assert!(matches!(r, Resolution::NeedsClientChoice { game: 0 }));
}

#[test]
fn update_only_takes_first_client_without_prompting() {
    let games = catalog();
    let present = vec!["iw4_sp.exe".to_string()];
    let r = resolve(&games, &None, &present, true);
    assert!(matches!(r, Resolution::Client { game: 0, client: 0 }));
}

#[test]
fn no_reference_leaves_run_unresolved() {
    let games = catalog();
    let r = resolve(&games, &None, &Vec::new(), false);
    assert!(matches!(r, Resolution::Unresolved));
}

#[test]
fn argument_selects_later_client_of_a_game() {
    let games = catalog();
    let r = resolve(&games, &Some("iw4x".to_string()), &Vec::new(), false);
    assert!(matches!(r, Resolution::Client { game: 0, client: 1 }));
}

#[test]
fn parse_args_recognizes_flags_and_client() {
    let o = parse_args(&args(&["launcher.exe", "update", "iw4-sp"]));
    assert!(o.update_only);
    assert!(!o.skip_self_update);
    assert_eq!(o.client_arg, Some("iw4-sp".to_string()));
}

#[test]
fn parse_args_with_no_arguments() {
    let o = parse_args(&args(&["launcher.exe"]));
    assert!(!o.update_only);
    assert!(!o.skip_self_update);
    assert_eq!(o.client_arg, None);
}

#[test]
fn parse_args_flags_only() {
    let o = parse_args(&args(&["launcher.exe", "skip-launcher-update", "update"]));
    assert!(o.update_only);
    assert!(o.skip_self_update);
    assert_eq!(o.client_arg, None);
}

#[test]
fn parse_args_client_before_flag() {
    let o = parse_args(&args(&["launcher.exe", "iw5-mod", "update"]));
    assert!(o.update_only);
    assert_eq!(o.client_arg, Some("iw5-mod".to_string()));
}

#[test]
fn find_by_client_picks_first_match_in_catalog_order() {
    let games = vec![
        game("iw4", &["shared"], &[], 1),
        game("iw5", &["shared"], &[], 2),
    ];
    let r = alterware_launcher::catalog::find_by_client(&games, "shared");
    assert_eq!(r, Some((0, 0)));
    assert_eq!(alterware_launcher::catalog::find_by_client(&games, "nope"), None);
}

#[test]
fn client_executable_appends_suffix() {
    let exe = alterware_launcher::catalog::client_executable("iw4x");
    assert_eq!(exe, "iw4x.exe");
}
