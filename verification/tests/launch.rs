use cart_reader::launch::{
    acf_value, detect_store, folder_has_running_exe, is_app_manifest_name, is_game_running,
    running_folders, running_folders_among, steam_app_id_from_manifests, steam_layout, stop_game,
    ManifestEntry, Store, RunningProcess, pids_in_folder, count_killed,
};

const MANIFEST_12345: &str =
    "\"AppState\"\n{\n\t\"appid\"\t\t\"12345\"\n\t\"installdir\"\t\t\"SomeGame\"\n}\n";
const MANIFEST_999: &str =
    "\"AppState\"\n{\n\t\"appid\"\t\t\"999\"\n\t\"installdir\"\t\t\"OtherGame\"\n}\n";

fn manifest(name: &str, contents: &str) -> ManifestEntry {
    ManifestEntry { file_name: Some(name.to_string()), contents: Some(contents.to_string()) }
}

#[test]
fn finds_app_id_matching_installdir() {
    let entries = vec![
        ManifestEntry { file_name: Some("common".to_string()), contents: None },
        manifest("appmanifest_12345.acf", MANIFEST_12345),
    ];
    assert_eq!(steam_app_id_from_manifests("SomeGame", &entries), Some("12345".to_string()));
}

#[test]
fn ignores_manifest_for_a_different_installdir() {
    let entries = vec![manifest("appmanifest_999.acf", MANIFEST_999)];
    assert_eq!(steam_app_id_from_manifests("SomeGame", &entries), None);
}

#[test]
fn returns_none_when_not_a_steam_install() {
    let entries = vec![ManifestEntry { file_name: Some("SomeGame".to_string()), contents: None }];
    assert_eq!(steam_app_id_from_manifests("SomeGame", &entries), None);
    assert_eq!(steam_app_id_from_manifests("SomeGame", &Vec::new()), None);
}

#[test]
fn detect_store_maps_a_steam_install_to_store_steam() {
    let entries = vec![manifest("appmanifest_12345.acf", MANIFEST_12345)];
    let id = steam_app_id_from_manifests("SomeGame", &entries);
    assert_eq!(detect_store(&id), Some(Store::Steam));
}

#[test]
fn detect_store_returns_none_for_a_non_steam_install() {
    assert_eq!(detect_store(&None), None);
}

#[test]
fn manifest_search_stops_at_an_unreadable_manifest() {
    let entries = vec![
        ManifestEntry { file_name: Some("appmanifest_1.acf".to_string()), contents: None },
        manifest("appmanifest_12345.acf", MANIFEST_12345),
    ];
    assert_eq!(steam_app_id_from_manifests("SomeGame", &entries), None);
    let entries = vec![
        ManifestEntry { file_name: None, contents: None },
        manifest("appmanifest_12345.acf", MANIFEST_12345),
    ];
    assert_eq!(steam_app_id_from_manifests("SomeGame", &entries), None);
}

#[test]
fn acf_value_reads_quoted_values_with_any_separator() {
    assert_eq!(acf_value(MANIFEST_12345, "appid"), Some("12345".to_string()));
    assert_eq!(acf_value(MANIFEST_12345, "installdir"), Some("SomeGame".to_string()));
    assert_eq!(acf_value("\"appid\"   \"7\"\r\n", "appid"), Some("7".to_string()));
    assert_eq!(acf_value(MANIFEST_12345, "name"), None);
    assert_eq!(acf_value("\"appid\" 7\n\"appid\" \"8\"\n", "appid"), None);
    assert_eq!(acf_value("", "appid"), None);
}

#[test]
fn manifest_names() {
    assert!(is_app_manifest_name("appmanifest_12345.acf"));
    assert!(!is_app_manifest_name("appmanifest_12345.txt"));
    assert!(!is_app_manifest_name("libraryfolders.vdf"));
}

#[test]
fn steam_layout_finds_steamapps_two_levels_up() {
    let l = steam_layout("/lib/steamapps/common/SomeGame").unwrap();
    assert_eq!(l.steamapps_dir, "/lib/steamapps");
    assert_eq!(l.install_dir_name, "SomeGame");
    assert!(steam_layout("/").is_none());
}

#[test]
fn returns_false_for_a_folder_nothing_is_running_from() {
    assert!(!is_game_running(r"C:\definitely\not\a\real\running\folder"));
}

#[test]
fn folder_match_is_by_whole_components_and_case_insensitive() {
    let exes = vec!["/games/ea sports fc 24/fc24.exe".to_string()];
    assert!(folder_has_running_exe("/Games/EA SPORTS FC 24", &exes));
    assert!(!folder_has_running_exe("/Games/EA SPORTS FC 2", &exes));
    assert!(!folder_has_running_exe("/Games/EA SPORTS FC 24 Beta", &exes));
}

#[test]
fn running_folders_among_keeps_running_folders_once() {
    let exes = vec!["/a/x/run.exe".to_string(), "/b/y.exe".to_string()];
    let folders = vec![
        "/a/x".to_string(),
        "/c".to_string(),
        "/b".to_string(),
        "/a/x".to_string(),
    ];
    assert_eq!(
        running_folders_among(&folders, &exes),
        vec!["/a/x".to_string(), "/b".to_string()]
    );
}

#[test]
fn stop_game_kills_nothing_in_a_folder_nothing_runs_from() {
    assert_eq!(stop_game("/definitely/not/a/real/running/folder"), 0);
}

#[test]
fn running_folders_returns_only_folders_asked_about() {
    let asked = vec!["/definitely/not/running/a".to_string(), "/definitely/not/running/b".to_string()];
    let running = running_folders(&asked);
    assert!(running.iter().all(|f| asked.contains(f)));
    assert!(running.is_empty());
}

#[test]
fn stopping_targets_exactly_the_processes_under_the_folder() {
    let p = |pid: u32, exe: Option<&str>| RunningProcess { pid, exe: exe.map(|e| e.to_string()) };
    let procs = vec![
        p(10, Some("C:/Games/FC 24/fc24.exe")),
        p(11, Some("C:/Games/FC 24 Beta/fc24.exe")),
        p(12, None),
        p(13, Some("c:/games/fc 24/bin/LAUNCHER.EXE")),
        p(14, Some("C:/Other/tool.exe")),
    ];
    assert_eq!(pids_in_folder(&procs, "C:/Games/FC 24"), vec![10, 13]);
    assert_eq!(pids_in_folder(&procs, "C:/Nowhere"), Vec::<u32>::new());
}

#[test]
fn the_kill_count_is_the_number_of_successful_kills() {
    assert_eq!(count_killed(&vec![true, false, true, true]), 3);
    assert_eq!(count_killed(&vec![false, false]), 0);
    assert_eq!(count_killed(&Vec::new()), 0);
}
