use cart_reader::catalog::{Binding, Catalog, CloseBehavior, Game};
use cart_reader::commands::{
    add_root_folder, artwork_refresh_targets, bind_tag, find_game, get_running_games,
    launch_game, refresh_all_artwork, remove_root_folder, rename_game, resolve_close_prompt,
    scan_candidate_dto, set_custom_artwork, sync_library, unbind_tag, update_settings,
    usb_port_description, LaunchPlan,
};
use cart_reader::flash::{find_flash_port, open_failure_message, FlashingGuard};
use cart_reader::scan::ScanCandidate;
use cart_reader::serial::PortSummary;
use std::sync::atomic::{AtomicBool, Ordering};
use std::sync::Arc;

fn game(id: &str) -> Game {
    Game {
        id: id.into(),
        name: format!("name of {id}"),
        folder_path: id.into(),
        exe_path: format!("{id}/game.exe"),
        artwork_path: None,
        available: true,
        has_custom_artwork: false,
        store: None,
    }
}

#[test]
fn bind_tag_replaces_an_earlier_binding_of_the_same_tag() {
    let mut c = Catalog::default();
    c.bindings.push(Binding { tag_uid: "T1".into(), game_id: "g1".into() });
    c.bindings.push(Binding { tag_uid: "T2".into(), game_id: "g2".into() });
    bind_tag(&mut c, "T1".into(), "g3".into());
    assert_eq!(
        c.bindings,
        vec![
            Binding { tag_uid: "T2".into(), game_id: "g2".into() },
            Binding { tag_uid: "T1".into(), game_id: "g3".into() },
        ]
    );
    unbind_tag(&mut c, "T1");
    assert_eq!(c.bindings, vec![Binding { tag_uid: "T2".into(), game_id: "g2".into() }]);
    unbind_tag(&mut c, "nope");
    assert_eq!(c.bindings.len(), 1);
}

#[test]
fn rename_game_keeps_bindings_and_reports_missing_games() {
    let mut c = Catalog::default();
    c.games.push(game("/g/a"));
    c.bindings.push(Binding { tag_uid: "T".into(), game_id: "/g/a".into() });
    assert_eq!(rename_game(&mut c, "/g/a", "Alpha".into()), Ok(()));
    assert_eq!(c.games[0].name, "Alpha");
    assert_eq!(c.games[0].id, "/g/a");
    assert_eq!(c.bindings.len(), 1);
    assert_eq!(
        rename_game(&mut c, "/g/zz", "Z".into()),
        Err("no game with id '/g/zz'".to_string())
    );
    assert_eq!(find_game(&c, "/g/a"), Ok(0));
}

#[test]
fn custom_artwork_survives_refresh() {
    let mut c = Catalog::default();
    c.games.push(game("/g/a"));
    c.games.push(game("/g/b"));
    set_custom_artwork(&mut c, 0, "/art/a.png".into());
    assert!(c.games[0].has_custom_artwork);
    assert_eq!(artwork_refresh_targets(&c), vec![false, true]);
    refresh_all_artwork(&mut c, vec![Some("/art/new_a.png".into()), Some("/art/b.png".into())]);
    assert_eq!(c.games[0].artwork_path, Some("/art/a.png".to_string()));
    assert_eq!(c.games[1].artwork_path, Some("/art/b.png".to_string()));
    refresh_all_artwork(&mut c, vec![None, None]);
    assert_eq!(c.games[1].artwork_path, Some("/art/b.png".to_string()));
}

#[test]
fn root_folders_are_added_once_and_removed_without_deleting_games() {
    let mut c = Catalog::default();
    let mut g = game("/lib/a");
    g.available = false;
    c.games.push(g);
    add_root_folder(&mut c, "/lib".into(), &vec![true]);
    add_root_folder(&mut c, "/lib".into(), &vec![true]);
    assert_eq!(c.settings.root_folders, vec!["/lib".to_string()]);
    assert!(c.games[0].available);
    remove_root_folder(&mut c, "/lib", &vec![true]);
    assert!(c.settings.root_folders.is_empty());
    assert_eq!(c.games.len(), 1);
    assert!(!c.games[0].available);
}

#[test]
fn settings_and_close_prompt() {
    let mut c = Catalog::default();
    update_settings(&mut c, vec!["/x".into()], true, true, CloseBehavior::Quit, false, false);
    assert_eq!(c.settings.root_folders, vec!["/x".to_string()]);
    assert!(c.settings.confirm_before_launch);
    assert_eq!(c.settings.close_behavior, CloseBehavior::Quit);
    assert!(!resolve_close_prompt(&mut c, true, false));
    assert_eq!(c.settings.close_behavior, CloseBehavior::Quit);
    assert!(resolve_close_prompt(&mut c, true, true));
    assert_eq!(c.settings.close_behavior, CloseBehavior::Minimize);
}

#[test]
fn sync_splits_candidates_by_detected_exe() {
    let cands = vec![
        ScanCandidate { folder_path: "/g/A".into(), name: "A".into(), exe_path: Some("/g/A/a.exe".into()) },
        ScanCandidate { folder_path: "/g/B".into(), name: "B".into(), exe_path: None },
    ];
    let dto = scan_candidate_dto(cands[1].clone());
    assert_eq!(dto.name, "B");
    let (games, skipped) = sync_library(cands);
    assert_eq!(games.len(), 1);
    assert_eq!(games[0].folder_path, "/g/A");
    assert_eq!(games[0].exe_path, "/g/A/a.exe");
    assert_eq!(skipped, vec!["B".to_string()]);
}

#[test]
fn running_games_are_reported_by_id_in_catalog_order() {
    let mut c = Catalog::default();
    c.games.push(game("/g/a"));
    c.games.push(game("/g/b"));
    c.games.push(game("/g/c"));
    let ids = get_running_games(&c, &vec!["/g/c".to_string(), "/g/a".to_string()]);
    assert_eq!(ids, vec!["/g/a".to_string(), "/g/c".to_string()]);
}

#[test]
fn launch_prefers_steam_and_never_starts_a_second_instance() {
    assert_eq!(launch_game(true, Some("1".into())), LaunchPlan::AlreadyRunning);
    assert_eq!(
        launch_game(false, Some("12345".into())),
        LaunchPlan::OpenUrl("steam://rungameid/12345".into())
    );
    assert_eq!(launch_game(false, None), LaunchPlan::SpawnExe);
}

#[test]
fn usb_descriptions_fall_back_to_ids() {
    assert_eq!(usb_port_description(Some("CP2102".into()), None, 1, 2), "CP2102");
    assert_eq!(
        usb_port_description(Some("  ".into()), Some("Silicon Labs".into()), 1, 2),
        "Silicon Labs"
    );
    assert_eq!(usb_port_description(None, None, 0x10c4, 0xea60), "USB 10C4:EA60");
    assert_eq!(usb_port_description(None, None, 0x1a, 0x2), "USB 001A:0002");
}

#[test]
fn flashing_guard_is_exclusive_until_released() {
    let flag = Arc::new(AtomicBool::new(false));
    let g = FlashingGuard::try_new(flag.clone()).expect("first claim succeeds");
    assert!(flag.load(Ordering::SeqCst));
    match FlashingGuard::try_new(flag.clone()) {
        Err(e) => assert_eq!(e, "Firmware flash already in progress"),
        Ok(_) => panic!("second claim must fail"),
    }
    g.release();
    assert!(!flag.load(Ordering::SeqCst));
    assert!(FlashingGuard::try_new(flag).is_ok());
}

#[test]
fn flash_port_must_be_a_usb_port() {
    let ports = vec![
        PortSummary { port_name: "COM1".into(), is_usb: false },
        PortSummary { port_name: "COM3".into(), is_usb: true },
    ];
    assert_eq!(find_flash_port(&ports, "COM3"), Ok(1));
    assert_eq!(find_flash_port(&ports, "COM1"), Err("'COM1' is not a USB serial port".to_string()));
    assert_eq!(find_flash_port(&ports, "COM9"), Err("'COM9' is not a USB serial port".to_string()));
    assert_eq!(open_failure_message("COM3", None), "couldn't open COM3: timed out");
    assert_eq!(
        open_failure_message("COM3", Some("Access denied".into())),
        "couldn't open COM3: Access denied"
    );
}
