use cart_reader::scan::scan_candidate;
use cart_reader::scan::{
    fetch_steamgriddb_step, find_folder_art, grids_url, is_exe_candidate, is_folder_art_name,
    is_plausible_game_exe, name_score, new_candidates, pick_best_exe, resolve_artwork_step,
    within_scan_depth, ExeFound, GridAction, GridEvent, LocalArtAction, LocalArtEvent,
    ScanCandidate, scan_root_candidates, ScannedFolder, artwork_png, custom_artwork_png, is_scannable_root,
    steamgriddb_search_url,
};

fn found(path: &str, size: u64) -> ExeFound {
    ExeFound { path: path.to_string(), size }
}

#[test]
fn picks_exe_matching_folder_name_over_larger_unrelated_exe() {
    let exes = vec![
        found("/root/SomeGame/bin/helper_tool.exe", 999_999),
        found("/root/SomeGame/SomeGame.exe", 10),
    ];
    let best = pick_best_exe("SomeGame", &exes).unwrap();
    assert!(best.ends_with("SomeGame.exe"));
}

#[test]
fn ignores_installer_and_redist_exes() {
    assert!(!is_plausible_game_exe("/root/SomeGame/unins000.exe"));
    assert!(!is_plausible_game_exe("/root/SomeGame/vc_redist.x64.exe"));
    assert!(!is_plausible_game_exe("/root/SomeGame/DXSETUP.exe"));
    assert!(is_plausible_game_exe("/root/SomeGame/SomeGame.exe"));
    assert!(is_exe_candidate("/root/SomeGame/SomeGame.EXE"));
    assert!(!is_exe_candidate("/root/SomeGame/unins000.exe"));
    assert!(!is_exe_candidate("/root/SomeGame/readme.txt"));
    assert!(!is_exe_candidate("/root/SomeGame/noext"));
}

#[test]
fn folder_with_no_exe_has_no_pick() {
    assert_eq!(pick_best_exe("JustDataFiles", &Vec::new()), None);
}

#[test]
fn name_scores_rank_exact_then_substring_then_none() {
    assert_eq!(name_score("SomeGame", "/x/somegame.exe"), 2);
    assert_eq!(name_score("SomeGame", "/x/SomeGameLauncher.exe"), 1);
    assert_eq!(name_score("SomeGame Deluxe", "/x/SomeGame.exe"), 1);
    assert_eq!(name_score("SomeGame", "/x/tool.exe"), 0);
}

#[test]
fn equal_scores_tie_break_on_size_then_last_found() {
    let exes = vec![found("/g/a.exe", 5), found("/g/b.exe", 7), found("/g/c.exe", 7)];
    assert_eq!(pick_best_exe("G", &exes), Some("/g/c.exe".to_string()));
}

#[test]
fn scan_depth_is_bounded() {
    assert!(within_scan_depth(0));
    assert!(within_scan_depth(6));
    assert!(!within_scan_depth(7));
}

#[test]
fn folder_art_wins_over_exe_icon() {
    assert_eq!(resolve_artwork_step(false, LocalArtEvent::Start), LocalArtAction::PrepareDest);
    assert_eq!(
        resolve_artwork_step(false, LocalArtEvent::DestPrepared(true)),
        LocalArtAction::FindFolderArt
    );
    assert_eq!(
        resolve_artwork_step(true, LocalArtEvent::FolderArtFound(Some("/r/folder.png".into()))),
        LocalArtAction::CopyFolderArt("/r/folder.png".into())
    );
    assert_eq!(
        resolve_artwork_step(true, LocalArtEvent::Copied(true)),
        LocalArtAction::Finish(true)
    );
}

#[test]
fn falls_back_to_exe_icon_when_no_folder_art() {
    assert_eq!(
        resolve_artwork_step(true, LocalArtEvent::FolderArtFound(None)),
        LocalArtAction::ExtractExeIcon
    );
    assert_eq!(
        resolve_artwork_step(true, LocalArtEvent::IconExtracted(false)),
        LocalArtAction::Finish(false)
    );
}

#[test]
fn returns_none_with_no_folder_art_and_no_exe() {
    assert_eq!(
        resolve_artwork_step(false, LocalArtEvent::FolderArtFound(None)),
        LocalArtAction::Finish(false)
    );
    assert_eq!(
        resolve_artwork_step(true, LocalArtEvent::DestPrepared(false)),
        LocalArtAction::Finish(false)
    );
}

#[test]
fn folder_art_names_match_in_any_case_and_the_first_wins() {
    assert!(is_folder_art_name("Folder.PNG"));
    assert!(is_folder_art_name("cover.jpeg"));
    assert!(!is_folder_art_name("artwork.png"));
    let entries = vec![
        Some("readme.txt".to_string()),
        None,
        Some("Cover.jpg".to_string()),
        Some("folder.png".to_string()),
    ];
    assert_eq!(find_folder_art(&entries), Some(2));
    assert_eq!(find_folder_art(&vec![Some("a.txt".to_string())]), None);
}

#[test]
fn steamgriddb_lookup_takes_the_first_match_and_first_grid() {
    assert_eq!(
        grids_url(5251),
        "https://www.steamgriddb.com/api/v2/grids/game/5251?dimensions=600x900"
    );
    assert_eq!(
        fetch_steamgriddb_step("Hollow Knight", &GridEvent::Start),
        GridAction::Search(
            "https://www.steamgriddb.com/api/v2/search/autocomplete/Hollow%20Knight".to_string()
        )
    );
    assert_eq!(
        steamgriddb_search_url("A/B").as_deref(),
        Some("https://www.steamgriddb.com/api/v2/search/autocomplete/A%2FB")
    );
    assert_eq!(
        fetch_steamgriddb_step("g", &GridEvent::Searched(Some(vec![42, 7]))),
        GridAction::ListGrids(
            "https://www.steamgriddb.com/api/v2/grids/game/42?dimensions=600x900".to_string()
        )
    );
    assert_eq!(
        fetch_steamgriddb_step("g", &GridEvent::Searched(Some(Vec::new()))),
        GridAction::Finish(false)
    );
    assert_eq!(fetch_steamgriddb_step("g", &GridEvent::Searched(None)), GridAction::Finish(false));
    assert_eq!(
        fetch_steamgriddb_step("g", &GridEvent::GridsListed(Some(vec![
            "https://cdn/a.png".to_string(),
            "https://cdn/b.png".to_string()
        ]))),
        GridAction::Download("https://cdn/a.png".to_string())
    );
    assert_eq!(
        fetch_steamgriddb_step("g", &GridEvent::GridsListed(None)),
        GridAction::Finish(false)
    );
    assert_eq!(
        fetch_steamgriddb_step("g", &GridEvent::Downloaded(Some(b"not an image".to_vec()))),
        GridAction::Finish(false)
    );
    assert_eq!(fetch_steamgriddb_step("g", &GridEvent::Downloaded(None)), GridAction::Finish(false));
    assert_eq!(fetch_steamgriddb_step("g", &GridEvent::Saved(true)), GridAction::Finish(true));
    assert_eq!(grids_url(0), "https://www.steamgriddb.com/api/v2/grids/game/0?dimensions=600x900");
}

fn bmp_bytes() -> Vec<u8> {
    let img = image::DynamicImage::ImageRgb8(image::RgbImage::from_pixel(2, 3, image::Rgb([10, 200, 30])));
    let mut out = std::io::Cursor::new(Vec::new());
    img.write_to(&mut out, image::ImageFormat::Bmp).unwrap();
    out.into_inner()
}

#[test]
fn downloaded_art_is_reencoded_as_png() {
    let bmp = bmp_bytes();
    let png = artwork_png(&bmp).unwrap();
    assert_ne!(png, bmp);
    assert_eq!(&png[..8], b"\x89PNG\r\n\x1a\n");
    let back = image::load_from_memory(&png).unwrap();
    assert_eq!((back.width(), back.height()), (2, 3));
    assert_eq!(back.to_rgb8().get_pixel(1, 2), &image::Rgb([10, 200, 30]));
    match fetch_steamgriddb_step("g", &GridEvent::Downloaded(Some(bmp))) {
        GridAction::SavePng(v) => assert_eq!(v, png),
        other => panic!("expected a PNG to save, got {other:?}"),
    }
    assert!(artwork_png(&b"garbage".to_vec()).is_err());
}

#[test]
fn custom_artwork_is_decoded_by_its_extension() {
    let bmp = bmp_bytes();
    let png = custom_artwork_png("/pics/cover.bmp", &bmp).unwrap();
    assert_eq!(png, artwork_png(&bmp).unwrap());
    assert!(custom_artwork_png("/pics/COVER.BMP", &bmp).is_ok());
    assert!(custom_artwork_png("/pics/cover.png", &bmp).is_err());
    assert!(custom_artwork_png("/pics/cover.xyz", &bmp).is_err());
    assert_eq!(
        custom_artwork_png("/pics/cover", &bmp),
        Err("The image format could not be determined".to_string())
    );
    assert_eq!(
        custom_artwork_png("/pics/cover.", &bmp),
        Err("The image format could not be determined".to_string())
    );
}

#[test]
fn drive_roots_are_not_scannable() {
    assert!(!is_scannable_root("/"));
    assert!(!is_scannable_root(""));
    assert!(is_scannable_root("/games"));
    assert!(is_scannable_root("/home/user/Games"));
}

#[test]
fn the_windows_folder_is_protected() {
    assert!(!is_scannable_root("C:/Windows"));
    assert!(!is_scannable_root("c:/WINDOWS/System32"));
    assert!(!is_scannable_root("D:/windows/SysWOW64/drivers"));
    assert!(is_scannable_root("C:/Games"));
    assert!(is_scannable_root("C:/WindowsApps"));
    assert!(is_scannable_root("C:/Program Files (x86)/Steam/steamapps/common"));
}

#[test]
fn new_candidates_drop_known_folders_only() {
    let c = |f: &str, exe: Option<&str>| ScanCandidate {
        folder_path: f.to_string(),
        name: f.to_string(),
        exe_path: exe.map(|e| e.to_string()),
    };
    let got = new_candidates(
        vec![c("/g/A", Some("/g/A/a.exe")), c("/g/B", None), c("/g/C", Some("/g/C/c.exe"))],
        &vec!["/g/A".to_string()],
    );
    assert_eq!(got, vec![c("/g/B", None), c("/g/C", Some("/g/C/c.exe"))]);
}

#[test]
fn n_subfolders_produce_n_candidates() {
    let folder = |name: &str| ScannedFolder {
        folder_path: format!("/root/{name}"),
        folder_name: Some(name.to_string()),
        exes: vec![found(&format!("/root/{name}/{name}.exe"), 10)],
    };
    let candidates = scan_root_candidates(&vec![folder("GameA"), folder("GameB"), folder("GameC")]);
    assert_eq!(candidates.len(), 3);
    assert_eq!(candidates[1].name, "GameB");
    assert_eq!(candidates[1].exe_path.as_deref(), Some("/root/GameB/GameB.exe"));
}

#[test]
fn folder_with_no_exe_is_flagged_not_dropped() {
    let candidates = scan_root_candidates(&vec![ScannedFolder {
        folder_path: "/root/JustDataFiles".to_string(),
        folder_name: Some("JustDataFiles".to_string()),
        exes: Vec::new(),
    }]);
    assert_eq!(candidates.len(), 1);
    assert_eq!(candidates[0].name, "JustDataFiles");
    assert_eq!(candidates[0].folder_path, "/root/JustDataFiles");
    assert!(candidates[0].exe_path.is_none());
}

#[test]
fn a_single_subfolder_yields_its_own_candidate() {
    let c = scan_candidate(
        "/root/Solo".to_string(),
        Some("Solo".to_string()),
        &vec![found("/root/Solo/bin/Solo.exe", 1)],
    );
    assert_eq!(c.name, "Solo");
    assert_eq!(c.exe_path.as_deref(), Some("/root/Solo/bin/Solo.exe"));
    let unnamed = scan_candidate("/root/x".to_string(), None, &vec![found("/root/x/x.exe", 1)]);
    assert_eq!(unnamed.name, "");
    assert_eq!(unnamed.exe_path.as_deref(), Some("/root/x/x.exe"));
}
