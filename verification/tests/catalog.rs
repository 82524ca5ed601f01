use cart_reader::catalog::{close_request_action, CloseAction};
use cart_reader::catalog::{
    add_confirmed_games, artwork_file_name, backfill_stores, close_behavior_from_legacy,
    default_true, games_to_add, rescan_availability, resolve_game_artwork, sanitize_for_filename,
    ArtworkAction, ArtworkEvent, Binding, Catalog, CloseBehavior, ConfirmedGame, Game, GameExtras,
};
use cart_reader::launch::Store;

fn sample_game(exe_path: &str) -> Game {
    Game {
        id: "g1".into(),
        name: "Some Game".into(),
        folder_path: "C:\\Games\\SomeGame".into(),
        exe_path: exe_path.into(),
        artwork_path: None,
        available: true,
        has_custom_artwork: false,
        store: None,
    }
}

#[test]
fn sanitize_for_filename_does_not_collide_on_ids_that_share_a_naive_sanitization() {
    let a = sanitize_for_filename("C:\\Games\\A-B");
    let b = sanitize_for_filename("C:\\Games\\A_B");
    assert_ne!(a, b, "distinct ids must not sanitize to the same filename");
}

#[test]
fn ids_with_different_readable_forms_never_share_a_file_name() {
    let a = sanitize_for_filename("C:\\Games\\Alpha");
    let b = sanitize_for_filename("C:\\Games\\Alpha2");
    assert_ne!(a, b);
    assert!(a.starts_with("C__Games_Alpha_"));
    assert!(b.starts_with("C__Games_Alpha2_"));
}

#[test]
fn sanitize_for_filename_keeps_a_readable_prefix_and_a_hex_hash() {
    let s = sanitize_for_filename("C:\\Games\\A-B");
    assert!(s.starts_with("C__Games_A_B_"));
    let hash = &s["C__Games_A_B_".len()..];
    assert!(!hash.is_empty());
    assert!(hash.chars().all(|c| c.is_ascii_hexdigit() && !c.is_ascii_uppercase()));
    assert_eq!(s, sanitize_for_filename("C:\\Games\\A-B"));
    assert_eq!(artwork_file_name("C:\\Games\\A-B"), format!("{s}.png"));
}

#[test]
fn add_confirmed_games_skips_already_cataloged_folders_and_adds_new_ones() {
    let mut catalog = Catalog::default();
    catalog.games.push(sample_game("C:\\Games\\SomeGame\\Game.exe"));

    let games = vec![
        ConfirmedGame {
            folder_path: "C:\\Games\\SomeGame".into(),
            name: "Duplicate".into(),
            exe_path: "C:\\Games\\SomeGame\\Game.exe".into(),
        },
        ConfirmedGame {
            folder_path: "C:\\Games\\NewGame".into(),
            name: "New Game".into(),
            exe_path: "C:\\Games\\NewGame\\NewGame.exe".into(),
        },
    ];

    // What the caller finds on disk: no artwork (the artwork dir doesn't
    // exist), no store, and the exe doesn't exist.
    let new = games_to_add(&catalog, &games);
    assert_eq!(new, vec![false, true]);
    let extras: Vec<GameExtras> = games
        .iter()
        .map(|g| GameExtras {
            artwork_path: None,
            store: None,
            available: std::path::Path::new(&g.exe_path).exists(),
        })
        .collect();

    let added = add_confirmed_games(&mut catalog, games, extras);

    assert_eq!(added, 1);
    assert_eq!(catalog.games.len(), 2, "the already-cataloged folder should be skipped");
    let added = catalog
        .games
        .iter()
        .find(|g| g.folder_path == "C:\\Games\\NewGame")
        .expect("the new game should have been added");
    assert_eq!(added.name, "New Game");
    assert_eq!(added.id, "C:\\Games\\NewGame");
    assert!(!added.available, "exe doesn't actually exist on disk");
}

#[test]
fn add_confirmed_games_never_adds_a_folder_twice_from_one_batch() {
    let mut catalog = Catalog::default();
    let g = ConfirmedGame {
        folder_path: "D:\\G\\X".into(),
        name: "X".into(),
        exe_path: "D:\\G\\X\\x.exe".into(),
    };
    let games = vec![g.clone(), g.clone()];
    assert_eq!(games_to_add(&catalog, &games), vec![true, false]);
    let extras = vec![
        GameExtras { artwork_path: Some("a.png".into()), store: Some(Store::Steam), available: true },
        GameExtras { artwork_path: None, store: None, available: false },
    ];
    let added = add_confirmed_games(&mut catalog, games, extras);
    assert_eq!(added, 1);
    assert_eq!(catalog.games.len(), 1);
    assert_eq!(catalog.games[0].artwork_path, Some("a.png".to_string()));
    assert_eq!(catalog.games[0].store, Some(Store::Steam));
    assert!(catalog.games[0].available);
    assert!(!catalog.games[0].has_custom_artwork);
}

#[test]
fn backfill_stores_detects_store_for_a_game_missing_one() {
    let mut catalog = Catalog::default();
    catalog.games.push(sample_game("Game.exe"));
    backfill_stores(&mut catalog, &vec![Some("12345".to_string())]);
    assert_eq!(catalog.games[0].store, Some(Store::Steam));
}

#[test]
fn backfill_stores_leaves_an_already_known_store_alone() {
    let mut game = sample_game("Game.exe");
    game.folder_path = "C:\\Games\\NotSteamAnymore".into();
    game.store = Some(Store::Steam);
    let mut catalog = Catalog::default();
    catalog.games.push(game);

    // The folder is no Steam install any more: the detector finds nothing.
    backfill_stores(&mut catalog, &vec![None]);

    assert_eq!(catalog.games[0].store, Some(Store::Steam));
}

#[test]
fn rescan_availability_marks_a_game_unavailable_once_its_root_is_untracked() {
    let mut game = sample_game("/tmp/rescan_untracked_root/game.exe");
    game.folder_path = "/tmp/rescan_untracked_root".into();
    let mut catalog = Catalog::default();
    catalog.games.push(game);
    // The exe exists, but no root folder is tracked.
    rescan_availability(&mut catalog, &vec![true]);
    assert!(!catalog.games[0].available, "exe exists, but its folder isn't under any tracked root");
}

#[test]
fn rescan_availability_keeps_a_game_available_under_its_tracked_root() {
    let folder = "/tmp/rescan_tracked_root".to_string();
    let mut game = sample_game("/tmp/rescan_tracked_root/game.exe");
    game.folder_path = folder.clone();
    let mut catalog = Catalog::default();
    catalog.games.push(game);
    catalog.settings.root_folders.push(folder);
    rescan_availability(&mut catalog, &vec![true]);
    assert!(catalog.games[0].available, "exe exists and its folder is under a tracked root");
}

#[test]
fn rescan_compares_roots_case_insensitively_and_by_whole_components() {
    let mut a = sample_game("/Games/Alpha/a.exe");
    a.folder_path = "/GAMES/Alpha".into();
    let mut b = sample_game("/GamesBeta/b.exe");
    b.folder_path = "/GamesBeta/B".into();
    let mut catalog = Catalog::default();
    catalog.games.push(a);
    catalog.games.push(b);
    catalog.settings.root_folders.push("/games".into());
    rescan_availability(&mut catalog, &vec![true, true]);
    assert!(catalog.games[0].available);
    assert!(!catalog.games[1].available);
}

#[test]
fn rescan_updates_availability_without_touching_bindings() {
    let mut catalog = Catalog::default();
    catalog.games.push(sample_game("/tmp/does-not-exist.exe"));
    catalog.bindings.push(Binding { tag_uid: "04A3B2C1".into(), game_id: "g1".into() });
    let bindings_before = catalog.bindings.clone();

    rescan_availability(&mut catalog, &vec![false]);

    assert_eq!(catalog.games.len(), 1, "rescan must not add or remove games");
    assert!(!catalog.games[0].available, "game with a missing exe should be marked unavailable");
    assert_eq!(catalog.bindings, bindings_before, "rescan must never mutate bindings");
}

#[test]
fn default_catalog_is_empty_with_defaulted_settings() {
    let c = Catalog::default();
    assert_eq!(c.version, 1);
    assert!(c.settings.root_folders.is_empty());
    assert!(!c.settings.confirm_before_launch);
    assert!(!c.settings.show_output_log);
    assert_eq!(c.settings.close_behavior, CloseBehavior::Ask);
    assert!(c.settings.show_store_badges);
    assert!(c.settings.sync_on_startup);
    assert!(c.games.is_empty());
    assert!(c.bindings.is_empty());
    assert!(default_true());
    assert_eq!(CloseBehavior::default(), CloseBehavior::Ask);
}

#[test]
fn legacy_close_behavior_upgrades_to_the_enum() {
    assert_eq!(close_behavior_from_legacy(Some(true)), CloseBehavior::Minimize);
    assert_eq!(close_behavior_from_legacy(Some(false)), CloseBehavior::Quit);
    assert_eq!(close_behavior_from_legacy(None), CloseBehavior::Ask);
}

#[test]
fn artwork_resolution_tries_steamgriddb_first_then_local_art() {
    let dest = "/art/g.png";
    assert_eq!(resolve_game_artwork(Some("key"), dest, ArtworkEvent::Start), ArtworkAction::FetchSteamGridDb);
    assert_eq!(resolve_game_artwork(None, dest, ArtworkEvent::Start), ArtworkAction::ResolveLocal);
    assert_eq!(
        resolve_game_artwork(Some("key"), dest, ArtworkEvent::SteamGridDbResult(true)),
        ArtworkAction::Finish(Some(dest.to_string()))
    );
    assert_eq!(
        resolve_game_artwork(Some("key"), dest, ArtworkEvent::SteamGridDbResult(false)),
        ArtworkAction::ResolveLocal
    );
    assert_eq!(
        resolve_game_artwork(None, dest, ArtworkEvent::LocalResult(true)),
        ArtworkAction::Finish(Some(dest.to_string()))
    );
    assert_eq!(
        resolve_game_artwork(None, dest, ArtworkEvent::LocalResult(false)),
        ArtworkAction::Finish(None)
    );
}

#[test]
fn close_requests_follow_the_recorded_behavior() {
    assert_eq!(close_request_action(CloseBehavior::Minimize), CloseAction::HideToTray);
    assert_eq!(close_request_action(CloseBehavior::Quit), CloseAction::Close);
    assert_eq!(close_request_action(CloseBehavior::Ask), CloseAction::AskUser);
}
