//! Folder scanning heuristics (which exes are plausible game exes, which
//! one best matches its folder), where artwork comes from, and the steps of
//! the SteamGridDB lookup. Walking directories, copying files and network
//! requests are the caller's I/O; every rule they follow is here.

use crate::paths::{component_prefix, extension_of, parent_path, path_extension, path_file_stem, path_parent, path_starts_with, stem_of};
use crate::text::{
    chars_contain, chars_equal, concat_str, contains_seq, decimal, format_decimal, lowercase,
    ascii_lower, char_from_code, str_chars, string_from_chars, to_lowercase, views,
};
use vstd::prelude::*;

verus! {

/// One immediate subfolder of a scanned root, with its best-guess main exe
/// (`None` when no plausible exe was found: flagged, not dropped).
#[derive(Debug, Clone, PartialEq, Eq)]
pub struct ScanCandidate {
    pub folder_path: String,
    pub name: String,
    pub exe_path: Option<String>,
}

/// Installer, uninstaller, redistributable and crash-handler names: an exe
/// whose lowercased stem contains one of these is not a game.
pub open spec fn ignored_exe_name(stem_lower: Seq<char>) -> bool {
    ||| contains_seq(stem_lower, "unins"@)
    ||| contains_seq(stem_lower, "uninstall"@)
    ||| contains_seq(stem_lower, "setup"@)
    ||| contains_seq(stem_lower, "redist"@)
    ||| contains_seq(stem_lower, "vcredist"@)
    ||| contains_seq(stem_lower, "vc_redist"@)
    ||| contains_seq(stem_lower, "directx"@)
    ||| contains_seq(stem_lower, "dxsetup"@)
    ||| contains_seq(stem_lower, "dxwebsetup"@)
    ||| contains_seq(stem_lower, "crashreporter"@)
    ||| contains_seq(stem_lower, "crashhandler"@)
    ||| contains_seq(stem_lower, "dotnet"@)
}

/// The file stem of a path, or the empty text when it has none.
pub open spec fn stem_or_empty(path: Seq<char>) -> Seq<char> {
    match stem_of(path) {
        Some(s) => s,
        None => seq![],
    }
}

/// An exe path is plausibly a game's: its lowercased stem names no
/// installer, uninstaller, redistributable or crash handler.
pub open spec fn plausible_exe(path: Seq<char>) -> bool {
    !ignored_exe_name(lowercase(stem_or_empty(path)))
}

fn contains_lit(s: &Vec<char>, lit: &str) -> (res: bool)
    ensures
        res == contains_seq(s@, lit@),
{
    let p = str_chars(lit);
    chars_contain(s.as_slice(), p.as_slice())
}

/// The lowercased stem of a path (empty when it has none).
fn lower_stem(path: &str) -> (res: Vec<char>)
    ensures
        res@ == lowercase(stem_or_empty(path@)),
{
    let stem = match path_file_stem(path) {
        Some(s) => s,
        None => String::new(),
    };
    proof {
        assert(Seq::<char>::empty() =~= seq![]);
    }
    let lower = to_lowercase(stem.as_str());
    str_chars(lower.as_str())
}

/// Whether an exe path is plausibly a game's main exe.
pub fn is_plausible_game_exe(path: &str) -> (res: bool)
    ensures
        res == plausible_exe(path@),
{
    let name = lower_stem(path);
    !(contains_lit(&name, "unins") || contains_lit(&name, "uninstall") || contains_lit(&name, "setup")
        || contains_lit(&name, "redist") || contains_lit(&name, "vcredist") || contains_lit(
        &name,
        "vc_redist",
    ) || contains_lit(&name, "directx") || contains_lit(&name, "dxsetup") || contains_lit(
        &name,
        "dxwebsetup",
    ) || contains_lit(&name, "crashreporter") || contains_lit(&name, "crashhandler")
        || contains_lit(&name, "dotnet"))
}

/// `a` and `b` are equal ignoring ASCII case (`str::eq_ignore_ascii_case`).
pub open spec fn eq_ignore_ascii_case(a: Seq<char>, b: Seq<char>) -> bool {
    a.len() == b.len() && forall|i: int| 0 <= i < a.len() ==> ascii_lower(#[trigger] a[i]) == ascii_lower(b[i])
}

fn ascii_lower_exec(c: char) -> (res: char)
    ensures
        res == ascii_lower(c),
{
    if 'A' <= c && c <= 'Z' {
        let code: u8 = (c as u8) + 32;
        char_from_code(code)
    } else {
        c
    }
}

/// Whether two texts are equal ignoring ASCII case.
pub fn chars_eq_ignore_ascii_case(a: &[char], b: &[char]) -> (res: bool)
    ensures
        res == eq_ignore_ascii_case(a@, b@),
{
    if a.len() != b.len() {
        return false;
    }
    let mut i: usize = 0;
    while i < a.len()
        invariant
            a@.len() == b@.len(),
            i <= a@.len(),
            forall|k: int| 0 <= k < i ==> ascii_lower(#[trigger] a@[k]) == ascii_lower(b@[k]),
        decreases a.len() - i,
    {
        if ascii_lower_exec(a[i]) != ascii_lower_exec(b[i]) {
            return false;
        }
        i = i + 1;
    }
    true
}

/// A file found while walking a game folder is an exe candidate: its
/// extension is `exe` in any ASCII case and it is a plausible game exe.
pub open spec fn exe_candidate(path: Seq<char>) -> bool {
    &&& extension_of(path) matches Some(e) && eq_ignore_ascii_case(e, "exe"@)
    &&& plausible_exe(path)
}

/// Whether a file found while walking a game folder is an exe candidate.
pub fn is_exe_candidate(path: &str) -> (res: bool)
    ensures
        res == exe_candidate(path@),
{
    match path_extension(path) {
        None => false,
        Some(e) => {
            let ev = str_chars(e.as_str());
            let exe = str_chars("exe");
            chars_eq_ignore_ascii_case(ev.as_slice(), exe.as_slice()) && is_plausible_game_exe(path)
        },
    }
}

/// How deep below a game folder the exe search goes.
pub const MAX_SCAN_DEPTH: u8 = 6;

/// Whether the exe search still descends into a directory at `depth` (the
/// game folder itself is depth 0): deep SDK or asset trees are cut off.
pub fn within_scan_depth(depth: u8) -> (res: bool)
    ensures
        res == (depth <= MAX_SCAN_DEPTH),
{
    depth <= MAX_SCAN_DEPTH
}

/// How well an exe's name matches its folder's: 2 when the lowercased stem
/// equals the lowercased folder name, 1 when either contains the other, 0
/// otherwise.
pub open spec fn name_score_of(folder_name: Seq<char>, exe_path: Seq<char>) -> u8 {
    let stem = lowercase(stem_or_empty(exe_path));
    let folder = lowercase(folder_name);
    if stem == folder {
        2
    } else if contains_seq(stem, folder) || contains_seq(folder, stem) {
        1
    } else {
        0
    }
}

/// The name part of an exe's score against its folder.
pub fn name_score(folder_name: &str, exe_path: &str) -> (res: u8)
    ensures
        res == name_score_of(folder_name@, exe_path@),
{
    let stem = lower_stem(exe_path);
    let folder_lower = to_lowercase(folder_name);
    let folder = str_chars(folder_lower.as_str());
    if chars_equal(stem.as_slice(), folder.as_slice()) {
        2
    } else if chars_contain(stem.as_slice(), folder.as_slice()) || chars_contain(
        folder.as_slice(),
        stem.as_slice(),
    ) {
        1
    } else {
        0
    }
}

/// An exe found under a game folder, with its size in bytes (0 when the
/// size could not be read).
#[derive(Debug, Clone, PartialEq, Eq)]
pub struct ExeFound {
    pub path: String,
    pub size: u64,
}

/// The score of an exe: name match first, file size as the tiebreak.
pub open spec fn score_of(folder_name: Seq<char>, e: ExeFound) -> (u8, u64) {
    (name_score_of(folder_name, e.path@), e.size)
}

/// `a` scores at least as high as `b`, comparing name score, then size.
pub open spec fn score_at_least(a: (u8, u64), b: (u8, u64)) -> bool {
    a.0 > b.0 || (a.0 == b.0 && a.1 >= b.1)
}

/// Index of the best of the first `n` exes: the highest score, the last of
/// several equally high ones (as `Iterator::max_by_key` picks).
pub open spec fn best_index(folder_name: Seq<char>, exes: Seq<ExeFound>, n: int) -> Option<int>
    decreases n,
{
    if n <= 0 {
        None
    } else {
        match best_index(folder_name, exes, n - 1) {
            None => Some(n - 1),
            Some(b) => if score_at_least(
                score_of(folder_name, exes[n - 1]),
                score_of(folder_name, exes[b]),
            ) {
                Some(n - 1)
            } else {
                Some(b)
            },
        }
    }
}

/// Picks the folder's main exe among the found ones: exact stem match beats
/// substring match beats no match, the larger file breaking ties, the last
/// found winning a full tie.
pub fn pick_best_exe(folder_name: &str, exes: &Vec<ExeFound>) -> (res: Option<String>)
    ensures
        match best_index(folder_name@, exes@, exes@.len() as int) {
            Some(b) => res matches Some(p) && p@ == exes@[b].path@,
            None => res is None,
        },
        res is Some <==> exes@.len() > 0,
        res matches Some(p) ==> exists|b: int|
            0 <= b < exes@.len() && p@ == exes@[b].path@ && #[trigger] best_of(folder_name@, exes@, b),
{
    let mut best: Option<(usize, u8)> = None;
    let mut i: usize = 0;
    while i < exes.len()
        invariant
            i <= exes@.len(),
            match best_index(folder_name@, exes@, i as int) {
                Some(b) => best matches Some((bi, bs)) && bi == b && 0 <= b < i && bs
                    == name_score_of(folder_name@, exes@[b].path@),
                None => best is None && i == 0,
            },
        decreases exes.len() - i,
    {
        let s = name_score(folder_name, exes[i].path.as_str());
        match best {
            None => {
                best = Some((i, s));
            },
            Some((b, bs)) => {
                if s > bs || (s == bs && exes[i].size >= exes[b].size) {
                    best = Some((i, s));
                }
            },
        }
        i = i + 1;
    }
    proof {
        law_best_exe_prefers_name_then_size(folder_name@, exes@);
    }
    match best {
        None => None,
        Some((b, _)) => Some(exes[b].path.clone()),
    }
}

/// Exe `b` is a best pick among `exes` for the folder: no found exe has a
/// higher name score, and every exe with the same name score is no larger.
pub open spec fn best_of(folder_name: Seq<char>, exes: Seq<ExeFound>, b: int) -> bool {
    forall|k: int|
        0 <= k < exes.len() ==> name_score_of(folder_name, #[trigger] exes[k].path@) <= name_score_of(
            folder_name,
            exes[b].path@,
        ) && (name_score_of(folder_name, exes[k].path@) == name_score_of(folder_name, exes[b].path@)
            ==> exes[k].size <= exes[b].size)
}

/// The exe picked for a folder has the highest name score among those
/// found (exact stem match, then substring match, then no match), and among
/// the exes sharing that score it is the largest file: size only breaks
/// ties between equal name scores. Some exe is picked whenever any was
/// found.
pub proof fn law_best_exe_prefers_name_then_size(folder_name: Seq<char>, exes: Seq<ExeFound>)
    ensures
        match best_index(folder_name, exes, exes.len() as int) {
            Some(b) => 0 <= b < exes.len() && best_of(folder_name, exes, b),
            None => exes.len() == 0,
        },
{
    law_best_exe_is_maximal(folder_name, exes, exes.len() as int);
    match best_index(folder_name, exes, exes.len() as int) {
        Some(b) => {
            assert forall|k: int| 0 <= k < exes.len() implies name_score_of(folder_name, #[trigger] exes[k].path@)
                <= name_score_of(folder_name, exes[b].path@) && (name_score_of(folder_name, exes[k].path@)
                == name_score_of(folder_name, exes[b].path@) ==> exes[k].size <= exes[b].size) by {
                assert(score_at_least(score_of(folder_name, exes[b]), score_of(folder_name, exes[k])));
            }
        },
        None => {},
    }
}

/// The picked exe scores at least as high as every other found exe: an
/// exact name match beats any substring match or no match, whatever the
/// sizes, and size decides only between equal name scores.
pub proof fn law_best_exe_is_maximal(folder_name: Seq<char>, exes: Seq<ExeFound>, n: int)
    requires
        0 <= n <= exes.len(),
    ensures
        match best_index(folder_name, exes, n) {
            Some(b) => 0 <= b < n && forall|k: int|
                0 <= k < n ==> score_at_least(
                    score_of(folder_name, exes[b]),
                    #[trigger] score_of(folder_name, exes[k]),
                ),
            None => n == 0,
        },
    decreases n,
{
    if n > 0 {
        law_best_exe_is_maximal(folder_name, exes, n - 1);
    }
}

/// The name a scanned folder goes by: its final path component as the walk
/// read it, or the empty text when that is not valid UTF-8.
pub open spec fn folder_name_of(folder_name: Option<String>) -> Seq<char> {
    match folder_name {
        Some(n) => n@,
        None => seq![],
    }
}

/// `c` is the candidate a subfolder at `folder_path` (named `folder_name`
/// when that is UTF-8) with the found `exes` yields: named after the
/// folder, with the best of the exes, or with no exe exactly when none was
/// found (the folder is flagged, not dropped).
pub open spec fn candidate_for(
    folder_path: String,
    folder_name: Option<String>,
    exes: Seq<ExeFound>,
    c: ScanCandidate,
) -> bool {
    &&& c.folder_path == folder_path
    &&& c.name@ == folder_name_of(folder_name)
    &&& match best_index(folder_name_of(folder_name), exes, exes.len() as int) {
        Some(b) => c.exe_path matches Some(p) && p@ == exes[b].path@,
        None => c.exe_path is None,
    }
    &&& (c.exe_path is None <==> exes.len() == 0)
}

/// The candidate a scanned subfolder yields.
pub fn scan_candidate(folder_path: String, folder_name: Option<String>, exes: &Vec<ExeFound>) -> (res:
    ScanCandidate)
    ensures
        candidate_for(folder_path, folder_name, exes@, res),
{
    let name = match folder_name {
        Some(n) => n,
        None => String::new(),
    };
    assert(name@ == folder_name_of(folder_name)) by {
        assert(Seq::<char>::empty() =~= seq![]);
    }
    let exe_path = pick_best_exe(name.as_str(), exes);
    proof {
        law_best_exe_is_maximal(name@, exes@, exes@.len() as int);
    }
    ScanCandidate { folder_path, name, exe_path }
}

/// `path` lies in the operating system's own directory: a drive path
/// (`X:...`) at or under `X:\Windows`, compared case-insensitively and by
/// whole path components. Processes there are the system's, and its
/// folders hold no games.
pub open spec fn system_folder(path: Seq<char>) -> bool {
    &&& path.len() >= 2
    &&& path[1] == ':'
    &&& component_prefix(lowercase(path), lowercase(path.take(2)) + "/windows"@)
}

/// A folder can be a scan root unless it is protected: a file-system or
/// drive root (it has no parent), which would scan a whole drive, or an
/// operating-system folder.
pub open spec fn scannable_root(path: Seq<char>) -> bool {
    parent_path(path) is Some && !system_folder(path)
}

/// Whether a user-chosen folder may be scanned and tracked as a root.
pub fn is_scannable_root(path: &str) -> (res: bool)
    ensures
        res == scannable_root(path@),
{
    if path_parent(path).is_none() {
        return false;
    }
    let chars = str_chars(path);
    if chars.len() < 2 || chars[1] != ':' {
        return true;
    }
    let drive = string_from_chars(&chars.as_slice()[0..2]);
    assert(drive@ == path@.take(2));
    let drive_lower = to_lowercase(drive.as_str());
    let windows = concat_str(drive_lower.as_str(), "/windows");
    let lower = to_lowercase(path);
    !path_starts_with(lower.as_str(), windows.as_str())
}

/// An immediate subfolder of a scanned root, as the directory walk found
/// it: its path and the exe candidates under it.
#[derive(Debug, Clone, PartialEq, Eq)]
pub struct ScannedFolder {
    pub folder_path: String,
    /// The folder's own name, when it is valid UTF-8.
    pub folder_name: Option<String>,
    pub exes: Vec<ExeFound>,
}

/// The candidates of a scanned root: one per subfolder, in walk order, so
/// a root with N subfolders gives N candidates and a folder without a
/// plausible exe is flagged (no exe), never dropped.
pub fn scan_root_candidates(folders: &Vec<ScannedFolder>) -> (res: Vec<ScanCandidate>)
    ensures
        res@.len() == folders@.len(),
        forall|i: int|
            0 <= i < folders@.len() ==> candidate_for(
                folders@[i].folder_path,
                folders@[i].folder_name,
                folders@[i].exes@,
                #[trigger] res@[i],
            ),
{
    let mut res: Vec<ScanCandidate> = Vec::new();
    let mut i: usize = 0;
    while i < folders.len()
        invariant
            i <= folders@.len(),
            res@.len() == i,
            forall|k: int|
                0 <= k < i ==> candidate_for(
                    folders@[k].folder_path,
                    folders@[k].folder_name,
                    folders@[k].exes@,
                    #[trigger] res@[k],
                ),
        decreases folders.len() - i,
    {
        let f = &folders[i];
        let name = match &f.folder_name {
            Some(n) => Some(n.clone()),
            None => None,
        };
        let c = scan_candidate(f.folder_path.clone(), name, &f.exes);
        res.push(c);
        i = i + 1;
    }
    res
}

/// Names of conventional cover-art files inside a game folder.
pub open spec fn folder_art_name(name_lower: Seq<char>) -> bool {
    ||| name_lower == "folder.png"@
    ||| name_lower == "folder.jpg"@
    ||| name_lower == "folder.jpeg"@
    ||| name_lower == "cover.png"@
    ||| name_lower == "cover.jpg"@
    ||| name_lower == "cover.jpeg"@
    ||| name_lower == "box.png"@
    ||| name_lower == "box.jpg"@
    ||| name_lower == "icon.png"@
    ||| name_lower == "icon.jpg"@
}

fn equals_lit(s: &Vec<char>, lit: &str) -> (res: bool)
    ensures
        res == (s@ == lit@),
{
    let p = str_chars(lit);
    chars_equal(s.as_slice(), p.as_slice())
}

/// Whether a file name (any case) is a conventional cover-art name.
pub fn is_folder_art_name(name: &str) -> (res: bool)
    ensures
        res == folder_art_name(lowercase(name@)),
{
    let lower = to_lowercase(name);
    let n = str_chars(lower.as_str());
    equals_lit(&n, "folder.png") || equals_lit(&n, "folder.jpg") || equals_lit(&n, "folder.jpeg")
        || equals_lit(&n, "cover.png") || equals_lit(&n, "cover.jpg") || equals_lit(
        &n,
        "cover.jpeg",
    ) || equals_lit(&n, "box.png") || equals_lit(&n, "box.jpg") || equals_lit(&n, "icon.png")
        || equals_lit(&n, "icon.jpg")
}

/// Whether entry `k` is a file with a UTF-8 cover-art name (the caller
/// passes `None` for directories and non-UTF-8 names).
pub open spec fn art_entry(entries: Seq<Option<String>>, k: int) -> bool {
    entries[k] matches Some(n) && folder_art_name(lowercase(n@))
}

/// The first cover-art file among a folder's entries, in listing order: a
/// human picked it, so it wins over the exe's icon.
pub fn find_folder_art(entries: &Vec<Option<String>>) -> (res: Option<usize>)
    ensures
        match res {
            Some(k) => k < entries@.len() && art_entry(entries@, k as int) && forall|j: int|
                0 <= j < k ==> !#[trigger] art_entry(entries@, j),
            None => forall|j: int| 0 <= j < entries@.len() ==> !#[trigger] art_entry(entries@, j),
        },
{
    let mut k: usize = 0;
    while k < entries.len()
        invariant
            k <= entries@.len(),
            forall|j: int| 0 <= j < k ==> !#[trigger] art_entry(entries@, j),
        decreases entries.len() - k,
    {
        match &entries[k] {
            Some(n) => {
                if is_folder_art_name(n.as_str()) {
                    return Some(k);
                }
            },
            None => {},
        }
        k = k + 1;
    }
    None
}

/// What happened while resolving a game's artwork locally.
#[derive(Debug, Clone, PartialEq, Eq)]
pub enum LocalArtEvent {
    /// Resolution begins.
    Start,
    /// The destination's parent directory was (or could not be) created.
    DestPrepared(bool),
    /// The folder's cover art, if it has any.
    FolderArtFound(Option<String>),
    /// The cover art was (or could not be) copied to the destination.
    Copied(bool),
    /// The exe's icon was (or could not be) written to the destination.
    IconExtracted(bool),
}

/// What local artwork resolution does next.
#[derive(Debug, Clone, PartialEq, Eq)]
pub enum LocalArtAction {
    /// Create the destination's parent directory.
    PrepareDest,
    /// Look for cover art in the folder.
    FindFolderArt,
    /// Copy this cover-art file to the destination.
    CopyFolderArt(String),
    /// Write the exe's embedded icon to the destination as a PNG.
    ExtractExeIcon,
    /// Done: whether the destination now holds the artwork.
    Finish(bool),
}

/// The next step of local artwork resolution: folder art wins, the exe's
/// icon is the fallback, and any failure ends with no artwork.
pub open spec fn local_art_answer(has_exe: bool, event: LocalArtEvent) -> LocalArtAction {
    match event {
        LocalArtEvent::Start => LocalArtAction::PrepareDest,
        LocalArtEvent::DestPrepared(ok) => if ok {
            LocalArtAction::FindFolderArt
        } else {
            LocalArtAction::Finish(false)
        },
        LocalArtEvent::FolderArtFound(Some(art)) => LocalArtAction::CopyFolderArt(art),
        LocalArtEvent::FolderArtFound(None) => if has_exe {
            LocalArtAction::ExtractExeIcon
        } else {
            LocalArtAction::Finish(false)
        },
        LocalArtEvent::Copied(ok) => LocalArtAction::Finish(ok),
        LocalArtEvent::IconExtracted(ok) => LocalArtAction::Finish(ok),
    }
}

/// One decision of `resolve_artwork`, the fully offline artwork path.
pub fn resolve_artwork_step(has_exe: bool, event: LocalArtEvent) -> (res: LocalArtAction)
    ensures
        res == local_art_answer(has_exe, event),
        event matches LocalArtEvent::IconExtracted(ok) ==> res == LocalArtAction::Finish(ok),
        event matches LocalArtEvent::Copied(ok) ==> res == LocalArtAction::Finish(ok),
        res == LocalArtAction::Finish(true) ==> (event == LocalArtEvent::Copied(true) || event
            == LocalArtEvent::IconExtracted(true)),
{
    proof {
        law_local_art_reports_its_last_write(has_exe);
    }
    match event {
        LocalArtEvent::Start => LocalArtAction::PrepareDest,
        LocalArtEvent::DestPrepared(ok) => if ok {
            LocalArtAction::FindFolderArt
        } else {
            LocalArtAction::Finish(false)
        },
        LocalArtEvent::FolderArtFound(Some(art)) => LocalArtAction::CopyFolderArt(art),
        LocalArtEvent::FolderArtFound(None) => if has_exe {
            LocalArtAction::ExtractExeIcon
        } else {
            LocalArtAction::Finish(false)
        },
        LocalArtEvent::Copied(ok) => LocalArtAction::Finish(ok),
        LocalArtEvent::IconExtracted(ok) => LocalArtAction::Finish(ok),
    }
}

/// Local resolution reports exactly what its last write did: after the
/// cover art was copied or the exe's icon extracted, it finishes with
/// artwork when that write succeeded and without it when it failed; it
/// never finishes with artwork otherwise. So a folder without cover art
/// whose exe is known, with its destination prepared, gets the extracted
/// icon as its artwork.
pub proof fn law_local_art_reports_its_last_write(has_exe: bool)
    ensures
        forall|ok: bool|
            #[trigger] local_art_answer(has_exe, LocalArtEvent::IconExtracted(ok)) == LocalArtAction::Finish(
                ok,
            ),
        forall|ok: bool|
            #[trigger] local_art_answer(has_exe, LocalArtEvent::Copied(ok)) == LocalArtAction::Finish(ok),
        forall|event: LocalArtEvent|
            #[trigger] local_art_answer(has_exe, event) == LocalArtAction::Finish(true) ==> (event
                == LocalArtEvent::Copied(true) || event == LocalArtEvent::IconExtracted(true)),
        has_exe ==> local_art_answer(has_exe, LocalArtEvent::Start) == LocalArtAction::PrepareDest
            && local_art_answer(has_exe, LocalArtEvent::DestPrepared(true)) == LocalArtAction::FindFolderArt
            && local_art_answer(has_exe, LocalArtEvent::FolderArtFound(None)) == LocalArtAction::ExtractExeIcon,
{
}

/// Local artwork prefers a folder's cover art: found cover art is always
/// copied, and the exe's icon is extracted only when the folder has no
/// cover art and an exe is known.
pub proof fn law_folder_art_wins(has_exe: bool, event: LocalArtEvent)
    ensures
        event matches LocalArtEvent::FolderArtFound(Some(art)) ==> local_art_answer(has_exe, event)
            == LocalArtAction::CopyFolderArt(art),
        local_art_answer(has_exe, event) == LocalArtAction::ExtractExeIcon ==> (has_exe && event
            == LocalArtEvent::FolderArtFound(None)),
{
}

/// The SteamGridDB endpoint listing a game's portrait (600x900) grids.
pub open spec fn grids_url_of(game_id: u64) -> Seq<char> {
    "https://www.steamgriddb.com/api/v2/grids/game/"@ + decimal(game_id as nat) + "?dimensions=600x900"@
}

/// The SteamGridDB grids URL for a game id.
pub fn grids_url(game_id: u64) -> (res: String)
    ensures
        res@ == grids_url_of(game_id),
{
    let id = format_decimal(game_id);
    let id_text = string_from_chars(id.as_slice());
    let head = concat_str("https://www.steamgriddb.com/api/v2/grids/game/", id_text.as_str());
    concat_str(head.as_str(), "?dimensions=600x900")
}

/// The PNG encoding of the image that `bytes` hold: `image::load_from_memory`
/// (format guessed from the bytes) then `DynamicImage::write_to` in PNG, the
/// encoder `save` uses for a `.png` file; `None` when either fails. It is a
/// function of the bytes alone.
pub uninterp spec fn png_of(bytes: Seq<u8>) -> Option<Seq<u8>>;

/// `image::load_from_memory` then `DynamicImage::write_to` with
/// `ImageFormat::Png`; the error is the failing step's message.
#[verifier::external_body]
fn transcode_to_png(bytes: &[u8]) -> (res: Result<Vec<u8>, String>)
    ensures
        match res {
            Ok(v) => png_of(bytes@) == Some(v@),
            Err(_) => png_of(bytes@) is None,
        },
{
    let image = image::load_from_memory(bytes).map_err(|e| e.to_string())?;
    let mut out = std::io::Cursor::new(Vec::new());
    image.write_to(&mut out, image::ImageFormat::Png).map_err(|e| e.to_string())?;
    Ok(out.into_inner())
}

/// Artwork as the PNG file the gallery shows: the image in `bytes` (any
/// format the decoder knows) re-encoded as PNG, or the decoder's or
/// encoder's message when that fails.
pub fn artwork_png(bytes: &Vec<u8>) -> (res: Result<Vec<u8>, String>)
    ensures
        match res {
            Ok(v) => png_of(bytes@) == Some(v@),
            Err(_) => png_of(bytes@) is None,
        },
{
    transcode_to_png(bytes.as_slice())
}

/// The PNG encoding of `bytes` decoded as the image format that the file
/// extension `ext` names (`ImageFormat::from_extension`, then
/// `load_from_memory_with_format`), as `image::open` reads a file by its
/// extension; `None` when the extension names no format the decoder knows
/// or the bytes do not decode as that format. A function of its two
/// arguments alone.
pub uninterp spec fn png_of_format(ext: Seq<char>, bytes: Seq<u8>) -> Option<Seq<u8>>;

/// `ImageFormat::from_extension`, `image::load_from_memory_with_format` and
/// `DynamicImage::write_to` in PNG. A missing format becomes the error
/// `image` raises for an unrecognized path extension; other errors are
/// the failing step's message.
#[verifier::external_body]
fn transcode_by_extension(ext: &str, bytes: &[u8]) -> (res: Result<Vec<u8>, String>)
    ensures
        match res {
            Ok(v) => png_of_format(ext@, bytes@) == Some(v@),
            Err(_) => png_of_format(ext@, bytes@) is None,
        },
{
    let format = image::ImageFormat::from_extension(ext).ok_or_else(
        || image::ImageError::Unsupported(image::error::ImageFormatHint::PathExtension(ext.into()).into()).to_string(),
    )?;
    let image = image::load_from_memory_with_format(bytes, format).map_err(|e| e.to_string())?;
    let mut out = std::io::Cursor::new(Vec::new());
    image.write_to(&mut out, image::ImageFormat::Png).map_err(|e| e.to_string())?;
    Ok(out.into_inner())
}

/// The file's extension, when it has a non-empty UTF-8 one.
pub open spec fn format_extension(source_path: Seq<char>) -> Option<Seq<char>> {
    match extension_of(source_path) {
        Some(ext) => if ext.len() > 0 {
            Some(ext)
        } else {
            None
        },
        None => None,
    }
}

/// User-chosen artwork read from a file at `source_path` holding `bytes`,
/// as PNG: decoded as the format the file's extension names (a file with
/// no extension, an empty one, or one that is not UTF-8, has no format),
/// so a file whose content disagrees with its extension is refused.
pub open spec fn custom_png_of(source_path: Seq<char>, bytes: Seq<u8>) -> Option<Seq<u8>> {
    match format_extension(source_path) {
        Some(ext) => png_of_format(ext, bytes),
        None => None,
    }
}

/// The message for a file whose image format cannot be told from its name.
pub open spec fn unknown_format_message() -> Seq<char> {
    "The image format could not be determined"@
}

/// User-chosen artwork as the PNG file the gallery shows: the file at
/// `source_path`, whose bytes the caller read, decoded by its extension and
/// re-encoded as PNG; the decoder's or encoder's message when that fails.
pub fn custom_artwork_png(source_path: &str, bytes: &Vec<u8>) -> (res: Result<Vec<u8>, String>)
    ensures
        match res {
            Ok(v) => custom_png_of(source_path@, bytes@) == Some(v@),
            Err(e) => custom_png_of(source_path@, bytes@) is None && (format_extension(source_path@) is None
                ==> e@ == unknown_format_message()),
        },
{
    match path_extension(source_path) {
        None => Err("The image format could not be determined".to_string()),
        Some(ext) => {
            if str_chars(ext.as_str()).len() == 0 {
                Err("The image format could not be determined".to_string())
            } else {
                transcode_by_extension(ext.as_str(), bytes.as_slice())
            }
        },
    }
}

/// The text of `base` parsed as a URL (`Url::parse`) with `segment` pushed
/// as one more path segment (`path_segments_mut().push`, which
/// percent-encodes it); `None` when `base` does not parse or cannot have
/// path segments. It is a function of its two arguments alone.
pub uninterp spec fn url_with_segment(base: Seq<char>, segment: Seq<char>) -> Option<Seq<char>>;

/// `reqwest::Url::parse`, `Url::path_segments_mut` and `PathSegmentsMut::push`,
/// the URL then written out as text.
#[verifier::external_body]
fn push_url_segment(base: &str, segment: &str) -> (res: Option<String>)
    ensures
        match res {
            Some(u) => url_with_segment(base@, segment@) == Some(u@),
            None => url_with_segment(base@, segment@) is None,
        },
{
    let mut url = reqwest::Url::parse(base).ok()?;
    url.path_segments_mut().ok()?.push(segment);
    Some(url.to_string())
}

/// The SteamGridDB autocomplete search for `name`: the search endpoint
/// with the name as its last path segment.
pub open spec fn search_url_of(name: Seq<char>) -> Option<Seq<char>> {
    url_with_segment("https://www.steamgriddb.com/api/v2/search/autocomplete"@, name)
}

/// The SteamGridDB search URL for a game name.
pub fn steamgriddb_search_url(name: &str) -> (res: Option<String>)
    ensures
        match res {
            Some(u) => search_url_of(name@) == Some(u@),
            None => search_url_of(name@) is None,
        },
{
    push_url_segment("https://www.steamgriddb.com/api/v2/search/autocomplete", name)
}

/// What happened during a SteamGridDB lookup.
#[derive(Debug, Clone, PartialEq, Eq)]
pub enum GridEvent {
    /// The lookup begins.
    Start,
    /// The name search finished: the matching game ids, or `None` on any
    /// request or decoding failure.
    Searched(Option<Vec<u64>>),
    /// The grid listing finished: the grid image URLs, or `None` on failure.
    GridsListed(Option<Vec<String>>),
    /// The grid image was downloaded (its bytes), or `None` on failure.
    Downloaded(Option<Vec<u8>>),
    /// The PNG was (or could not be) written to the destination.
    Saved(bool),
}

/// What the SteamGridDB lookup does next.
#[derive(Debug, Clone, PartialEq, Eq)]
pub enum GridAction {
    /// Request this search URL.
    Search(String),
    /// List the portrait grids at this URL.
    ListGrids(String),
    /// Download the image at this URL.
    Download(String),
    /// Write these PNG bytes to the destination (its directory created first).
    SavePng(Vec<u8>),
    /// Done: whether the artwork was saved.
    Finish(bool),
}

/// The next step of the SteamGridDB lookup for `name`: search by name, take
/// the first match, list its portrait grids, download the first one,
/// re-encode it as PNG and save it. Any failure or empty answer ends the
/// lookup without artwork, so the caller falls back to local art.
pub open spec fn grid_answer(name: Seq<char>, event: GridEvent, res: GridAction) -> bool {
    match event {
        GridEvent::Start => match search_url_of(name) {
            Some(u) => res matches GridAction::Search(x) && x@ == u,
            None => res == GridAction::Finish(false),
        },
        GridEvent::Searched(Some(ids)) => if ids@.len() > 0 {
            res matches GridAction::ListGrids(u) && u@ == grids_url_of(ids@[0])
        } else {
            res == GridAction::Finish(false)
        },
        GridEvent::Searched(None) => res == GridAction::Finish(false),
        GridEvent::GridsListed(Some(urls)) => if urls@.len() > 0 {
            res matches GridAction::Download(u) && u@ == urls@[0]@
        } else {
            res == GridAction::Finish(false)
        },
        GridEvent::GridsListed(None) => res == GridAction::Finish(false),
        GridEvent::Downloaded(Some(bytes)) => match png_of(bytes@) {
            Some(png) => res matches GridAction::SavePng(v) && v@ == png,
            None => res == GridAction::Finish(false),
        },
        GridEvent::Downloaded(None) => res == GridAction::Finish(false),
        GridEvent::Saved(ok) => res == GridAction::Finish(ok),
    }
}

/// One decision of `fetch_steamgriddb_grid` for the game `name`.
pub fn fetch_steamgriddb_step(name: &str, event: &GridEvent) -> (res: GridAction)
    ensures
        grid_answer(name@, *event, res),
{
    match event {
        GridEvent::Start => match steamgriddb_search_url(name) {
            Some(u) => GridAction::Search(u),
            None => GridAction::Finish(false),
        },
        GridEvent::Searched(Some(ids)) => if ids.len() > 0 {
            GridAction::ListGrids(grids_url(ids[0]))
        } else {
            GridAction::Finish(false)
        },
        GridEvent::Searched(None) => GridAction::Finish(false),
        GridEvent::GridsListed(Some(urls)) => if urls.len() > 0 {
            GridAction::Download(urls[0].clone())
        } else {
            GridAction::Finish(false)
        },
        GridEvent::GridsListed(None) => GridAction::Finish(false),
        GridEvent::Downloaded(Some(bytes)) => match artwork_png(bytes) {
            Ok(png) => GridAction::SavePng(png),
            Err(_) => GridAction::Finish(false),
        },
        GridEvent::Downloaded(None) => GridAction::Finish(false),
        GridEvent::Saved(ok) => GridAction::Finish(*ok),
    }
}

/// The candidates whose folder is not already cataloged, in scan order.
pub open spec fn unknown_candidates(candidates: Seq<ScanCandidate>, known: Seq<Seq<char>>) -> Seq<
    ScanCandidate,
>
    decreases candidates.len(),
{
    if candidates.len() == 0 {
        seq![]
    } else {
        let prev = unknown_candidates(candidates.drop_last(), known);
        if known.contains(candidates.last().folder_path@) {
            prev
        } else {
            prev.push(candidates.last())
        }
    }
}

/// Keeps the scanned candidates whose folder path is not among the known
/// (already cataloged) folder paths; a candidate without a detected exe is
/// kept too, so the caller can report it.
pub fn new_candidates(candidates: Vec<ScanCandidate>, known_folder_paths: &Vec<String>) -> (res: Vec<
    ScanCandidate,
>)
    ensures
        res@ == unknown_candidates(candidates@, views(known_folder_paths@)),
{
    let mut res: Vec<ScanCandidate> = Vec::new();
    let mut i: usize = 0;
    while i < candidates.len()
        invariant
            i <= candidates@.len(),
            res@ == unknown_candidates(candidates@.take(i as int), views(known_folder_paths@)),
        decreases candidates.len() - i,
    {
        assert(candidates@.take(i + 1).drop_last() =~= candidates@.take(i as int));
        assert(candidates@.take(i + 1).last() == candidates@[i as int]);
        let c = &candidates[i];
        let known = crate::text::contains_string(known_folder_paths, &c.folder_path);
        proof {
            let kv = views(known_folder_paths@);
            if known {
                let k = choose|k: int|
                    0 <= k < known_folder_paths@.len() && #[trigger] known_folder_paths@[k]@
                        == c.folder_path@;
                assert(kv[k] == c.folder_path@);
            }
            if kv.contains(c.folder_path@) {
                let k = choose|k: int| 0 <= k < kv.len() && kv[k] == c.folder_path@;
                assert(known_folder_paths@[k]@ == c.folder_path@);
            }
        }
        if !known {
            res.push(
                ScanCandidate {
                    folder_path: c.folder_path.clone(),
                    name: c.name.clone(),
                    exe_path: match &c.exe_path {
                        Some(e) => Some(e.clone()),
                        None => None,
                    },
                },
            );
        }
        i = i + 1;
    }
    assert(candidates@.take(candidates@.len() as int) =~= candidates@);
    res
}

} // verus!
