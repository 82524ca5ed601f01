//! Store detection and the process rules behind launching and stopping a
//! game: Valve's ACF manifest format, the Steam library layout, and the
//! folder-membership test that "is it running" and "stop it" share.

use crate::paths::{component_prefix, final_component, parent_path, path_file_name, path_parent, path_starts_with};
use crate::text::{
    contains_string, views,
    chars_end_with, chars_equal, chars_find_from, chars_start_with, find_char, has_prefix, has_suffix,
    lemma_find_char, lowercase, str_chars, string_from_chars, to_lowercase, trim, trim_bounds,
};
use vstd::prelude::*;

verus! {

/// Storefront a game was installed through. Steam is the only one detected.
#[derive(Debug, Clone, Copy, PartialEq, Eq, Structural)]
pub enum Store {
    Steam,
}

/// The store a folder belongs to, given what the Steam detector found for
/// it: any Steam App ID means Steam, none means no known store.
pub fn detect_store(steam_app_id: &Option<String>) -> (res: Option<Store>)
    ensures
        res == (if steam_app_id is Some {
            Some(Store::Steam)
        } else {
            None
        }),
{
    match steam_app_id {
        Some(_) => Some(Store::Steam),
        None => None,
    }
}

/// The lines of `s`: the pieces between `'\n'` characters, without a
/// trailing empty piece. Once each piece is trimmed (as every use here
/// does), this agrees with `str::lines`, which also drops a `'\r'` before
/// each `'\n'`.
pub open spec fn split_lines(s: Seq<char>) -> Seq<Seq<char>>
    decreases s.len(),
{
    match find_char(s, '\n') {
        Some(i) => if 0 <= i < s.len() {
            seq![s.take(i)] + split_lines(s.skip(i + 1))
        } else {
            seq![]
        },
        None => if s.len() == 0 {
            seq![]
        } else {
            seq![s]
        },
    }
}

/// The text between the first two `"` characters of `rest`, if there are two.
pub open spec fn quoted_value(rest: Seq<char>) -> Option<Seq<char>> {
    match find_char(rest, '"') {
        None => None,
        Some(p) => match find_char(rest.skip(p + 1), '"') {
            None => None,
            Some(q) => Some(rest.subrange(p + 1, p + 1 + q)),
        },
    }
}

/// `"key"`, quotes included.
pub open spec fn acf_needle(key: Seq<char>) -> Seq<char> {
    seq!['"'] + key + seq!['"']
}

/// The value on the first line (after trimming) that starts with `needle`;
/// that line decides, even when it holds no quoted value.
pub open spec fn acf_in_lines(lines: Seq<Seq<char>>, needle: Seq<char>) -> Option<Seq<char>>
    decreases lines.len(),
{
    if lines.len() == 0 {
        None
    } else if has_prefix(trim(lines[0]), needle) {
        quoted_value(trim(lines[0]).skip(needle.len() as int))
    } else {
        acf_in_lines(lines.drop_first(), needle)
    }
}

/// The value of `key` in Valve's ACF text: the quoted text after `"key"`
/// on the first line that starts with it.
pub open spec fn acf_field(contents: Seq<char>, key: Seq<char>) -> Option<Seq<char>> {
    acf_in_lines(split_lines(contents), acf_needle(key))
}

proof fn lemma_split_lines_step(s: Seq<char>, start: int, i: int)
    requires
        0 <= start <= s.len(),
        find_char(s.skip(start), '\n') == Some(i),
    ensures
        0 <= i < s.len() - start,
        split_lines(s.skip(start)) == seq![s.subrange(start, start + i)] + split_lines(
            s.skip(start + i + 1),
        ),
{
    lemma_find_char(s.skip(start), '\n');
    assert(s.skip(start).take(i) =~= s.subrange(start, start + i));
    assert(s.skip(start).skip(i + 1) =~= s.skip(start + i + 1));
}

/// The quoted value in `line[from..]`, as `quoted_value` describes it.
fn quoted_value_exec(line: &[char], from: usize) -> (res: Option<String>)
    requires
        from <= line@.len(),
    ensures
        match res {
            Some(v) => quoted_value(line@.skip(from as int)) == Some(v@),
            None => quoted_value(line@.skip(from as int)) is None,
        },
{
    let ghost rest = line@.skip(from as int);
    let n = line.len();
    match chars_find_from(line, from, '"') {
        None => None,
        Some(p) => {
            proof {
                lemma_find_char(rest, '"');
            }
            assert(p < n - from);
            let start = from + p + 1;
            assert(rest.skip(p + 1) =~= line@.skip(start as int));
            match chars_find_from(line, start, '"') {
                None => None,
                Some(q) => {
                    proof {
                        lemma_find_char(line@.skip(start as int), '"');
                    }
                    assert(line@.subrange(start as int, start + q) =~= rest.subrange(
                        p + 1,
                        p + 1 + q,
                    ));
                    Some(string_from_chars(&line[start..start + q]))
                },
            }
        },
    }
}

/// Extracts one `"key"    "value"` pair from Valve's ACF text format. The
/// whitespace between key and value varies, so the value is found by its
/// quotes rather than by a fixed separator.
pub fn acf_value(contents: &str, key: &str) -> (res: Option<String>)
    ensures
        match res {
            Some(v) => acf_field(contents@, key@) == Some(v@),
            None => acf_field(contents@, key@) is None,
        },
{
    let c = str_chars(contents);
    let k = str_chars(key);
    let mut needle: Vec<char> = Vec::new();
    needle.push('"');
    let mut j: usize = 0;
    while j < k.len()
        invariant
            j <= k@.len(),
            needle@ == seq!['"'] + k@.take(j as int),
        decreases k.len() - j,
    {
        needle.push(k[j]);
        assert(k@.take(j + 1) =~= k@.take(j as int).push(k@[j as int]));
        j = j + 1;
    }
    needle.push('"');
    assert(k@.take(k@.len() as int) =~= k@);
    assert(needle@ =~= acf_needle(key@));
    let n = c.len();
    let mut start: usize = 0;
    assert(c@.skip(0) =~= c@);
    loop
        invariant
            start <= n == c@.len(),
            c@ == contents@,
            needle@ == acf_needle(key@),
            acf_field(contents@, key@) == acf_in_lines(split_lines(c@.skip(start as int)), needle@),
        decreases n - start,
    {
        let ghost lines = split_lines(c@.skip(start as int));
        let (end, last) = match chars_find_from(c.as_slice(), start, '\n') {
            Some(i) => {
                proof {
                    lemma_split_lines_step(c@, start as int, i as int);
                }
                (start + i, false)
            },
            None => {
                if start == n {
                    assert(c@.skip(start as int) =~= Seq::<char>::empty());
                    return None;
                }
                assert(c@.skip(start as int) =~= c@.subrange(start as int, n as int));
                assert(lines == seq![c@.subrange(start as int, n as int)]);
                (n, true)
            },
        };
        let line = &c.as_slice()[start..end];
        assert(lines.len() > 0 && lines[0] == line@);
        let (a, b) = trim_bounds(line);
        let t = &line[a..b];
        assert(t@ == trim(lines[0]));
        if chars_start_with(t, needle.as_slice()) {
            return quoted_value_exec(t, needle.len());
        }
        assert(acf_in_lines(lines, needle@) == acf_in_lines(lines.drop_first(), needle@));
        if last {
            assert(lines.drop_first() =~= Seq::<Seq<char>>::empty());
            return None;
        }
        assert(lines.drop_first() =~= split_lines(c@.skip(end + 1)));
        start = end + 1;
    }
}

/// One directory entry next to a game's install folder, as the caller read
/// it: the entry's name (when it is valid UTF-8) and, for an app manifest,
/// the file's text (when it could be read).
#[derive(Debug, Clone, PartialEq, Eq)]
pub struct ManifestEntry {
    pub file_name: Option<String>,
    pub contents: Option<String>,
}

/// `appmanifest_<id>.acf`, the name Steam gives an app manifest.
pub open spec fn is_manifest_name(name: Seq<char>) -> bool {
    has_prefix(name, "appmanifest_"@) && has_suffix(name, ".acf"@)
}

/// The App ID that the entries give for `install_dir`: entries are taken in
/// order; a name that is not UTF-8, or an unreadable manifest, ends the
/// search with nothing; the first manifest whose `installdir` is
/// `install_dir` decides, by its `appid`.
pub open spec fn manifest_app_id(entries: Seq<ManifestEntry>, install_dir: Seq<char>) -> Option<
    Seq<char>,
>
    decreases entries.len(),
{
    if entries.len() == 0 {
        None
    } else {
        match entries[0].file_name {
            None => None,
            Some(n) => if !is_manifest_name(n@) {
                manifest_app_id(entries.drop_first(), install_dir)
            } else {
                match entries[0].contents {
                    None => None,
                    Some(c) => if acf_field(c@, "installdir"@) == Some(install_dir) {
                        acf_field(c@, "appid"@)
                    } else {
                        manifest_app_id(entries.drop_first(), install_dir)
                    },
                }
            },
        }
    }
}

/// Every entry's name is valid UTF-8 and every app manifest among them
/// could be read.
pub open spec fn readable_entries(entries: Seq<ManifestEntry>) -> bool {
    forall|i: int| 0 <= i < entries.len() ==> entry_readable(#[trigger] entries[i])
}

/// The entry's name is valid UTF-8 and, for an app manifest, its text
/// could be read.
pub open spec fn entry_readable(entry: ManifestEntry) -> bool {
    match entry.file_name {
        Some(n) => is_manifest_name(n@) ==> entry.contents is Some,
        None => false,
    }
}

/// Entry `i` is an app manifest whose `installdir` is `install_dir`.
pub open spec fn installs_at(entries: Seq<ManifestEntry>, i: int, install_dir: Seq<char>) -> bool {
    &&& entries[i].file_name matches Some(n) && is_manifest_name(n@)
    &&& entries[i].contents matches Some(c) && acf_field(c@, "installdir"@) == Some(install_dir)
}

/// The `appid` of entry `i`'s manifest text, if it has one.
pub open spec fn appid_at(entries: Seq<ManifestEntry>, i: int) -> Option<Seq<char>> {
    match entries[i].contents {
        Some(c) => acf_field(c@, "appid"@),
        None => None,
    }
}

/// When every name is UTF-8 and every manifest readable, the App ID found
/// for a folder is the `appid` of the first manifest whose `installdir`
/// names it, and there is none when no manifest does. (A non-UTF-8 name or
/// an unreadable manifest before the match ends the search with nothing.)
pub proof fn law_manifest_found_iff_matching(entries: Seq<ManifestEntry>, install_dir: Seq<char>)
    requires
        readable_entries(entries),
    ensures
        (forall|i: int| 0 <= i < entries.len() ==> !#[trigger] installs_at(entries, i, install_dir))
            ==> manifest_app_id(entries, install_dir) is None,
        forall|i: int|
            0 <= i < entries.len() && #[trigger] installs_at(entries, i, install_dir) && (forall|j: int|
                0 <= j < i ==> !#[trigger] installs_at(entries, j, install_dir)) ==> manifest_app_id(
                entries,
                install_dir,
            ) == appid_at(entries, i),
        manifest_app_id(entries, install_dir) is Some ==> exists|i: int|
            0 <= i < entries.len() && #[trigger] installs_at(entries, i, install_dir) && appid_at(entries, i)
                == manifest_app_id(entries, install_dir),
    decreases entries.len(),
{
    if entries.len() > 0 {
        let rest = entries.drop_first();
        assert forall|i: int| 0 <= i < rest.len() implies entry_readable(#[trigger] rest[i]) by {
            assert(rest[i] == entries[i + 1]);
        }
        law_manifest_found_iff_matching(rest, install_dir);
        assert forall|i: int| 0 <= i < rest.len() implies (installs_at(rest, i, install_dir) == installs_at(
            entries,
            i + 1,
            install_dir,
        ) && appid_at(rest, i) == appid_at(entries, i + 1)) by {
            assert(rest[i] == entries[i + 1]);
        }
        assert(entry_readable(entries[0]));
        if installs_at(entries, 0, install_dir) {
            assert forall|i: int|
                0 <= i < entries.len() && #[trigger] installs_at(entries, i, install_dir) && (forall|j: int|
                    0 <= j < i ==> !#[trigger] installs_at(entries, j, install_dir)) implies manifest_app_id(
                entries,
                install_dir,
            ) == appid_at(entries, i) by {
                if i > 0 {
                    assert(!installs_at(entries, 0, install_dir));
                }
            }
        } else {
            assert(manifest_app_id(entries, install_dir) == manifest_app_id(rest, install_dir));
            assert forall|i: int|
                0 <= i < entries.len() && #[trigger] installs_at(entries, i, install_dir) && (forall|j: int|
                    0 <= j < i ==> !#[trigger] installs_at(entries, j, install_dir)) implies manifest_app_id(
                entries,
                install_dir,
            ) == appid_at(entries, i) by {
                assert(i > 0);
                assert(installs_at(rest, i - 1, install_dir));
                assert forall|j: int| 0 <= j < i - 1 implies !#[trigger] installs_at(rest, j, install_dir) by {
                    assert(!installs_at(entries, j + 1, install_dir));
                }
            }
            if forall|i: int| 0 <= i < entries.len() ==> !#[trigger] installs_at(entries, i, install_dir) {
                assert forall|i: int| 0 <= i < rest.len() implies !#[trigger] installs_at(rest, i, install_dir) by {
                    assert(!installs_at(entries, i + 1, install_dir));
                }
            }
            if manifest_app_id(entries, install_dir) is Some {
                let k = choose|k: int|
                    0 <= k < rest.len() && #[trigger] installs_at(rest, k, install_dir) && appid_at(rest, k)
                        == manifest_app_id(rest, install_dir);
                assert(installs_at(entries, k + 1, install_dir));
            }
        }
    }
}

/// Finds the Steam App ID of the game installed as `install_dir_name`, from
/// the entries of the `steamapps` directory above it, by matching each app
/// manifest's `installdir` against the folder's name.
pub fn steam_app_id_from_manifests(install_dir_name: &str, entries: &Vec<ManifestEntry>) -> (res:
    Option<String>)
    ensures
        match res {
            Some(id) => manifest_app_id(entries@, install_dir_name@) == Some(id@),
            None => manifest_app_id(entries@, install_dir_name@) is None,
        },
{
    let prefix = str_chars("appmanifest_");
    let suffix = str_chars(".acf");
    let install = str_chars(install_dir_name);
    let mut i: usize = 0;
    assert(entries@.skip(0) =~= entries@);
    while i < entries.len()
        invariant
            i <= entries@.len(),
            prefix@ == "appmanifest_"@,
            suffix@ == ".acf"@,
            install@ == install_dir_name@,
            manifest_app_id(entries@, install_dir_name@) == manifest_app_id(
                entries@.skip(i as int),
                install_dir_name@,
            ),
        decreases entries.len() - i,
    {
        assert(entries@.skip(i as int).drop_first() =~= entries@.skip(i + 1));
        assert(entries@.skip(i as int)[0] == entries@[i as int]);
        let entry = &entries[i];
        match &entry.file_name {
            None => {
                return None;
            },
            Some(name) => {
                let nv = str_chars(name.as_str());
                if chars_start_with(nv.as_slice(), prefix.as_slice()) && chars_end_with(
                    nv.as_slice(),
                    suffix.as_slice(),
                ) {
                    match &entry.contents {
                        None => {
                            return None;
                        },
                        Some(text) => {
                            let dir = acf_value(text.as_str(), "installdir");
                            let matches = match &dir {
                                Some(d) => {
                                    let dv = str_chars(d.as_str());
                                    chars_equal(dv.as_slice(), install.as_slice())
                                },
                                None => false,
                            };
                            if matches {
                                return acf_value(text.as_str(), "appid");
                            }
                        },
                    }
                }
            },
        }
        i = i + 1;
    }
    assert(entries@.skip(i as int) =~= Seq::<ManifestEntry>::empty());
    None
}

/// The directories a Steam install folder implies: the `steamapps`
/// directory two levels up, and the folder's own name.
pub open spec fn steam_dirs(folder_path: Seq<char>) -> Option<(Seq<char>, Seq<char>)> {
    match parent_path(folder_path) {
        None => None,
        Some(p) => match parent_path(p) {
            None => None,
            Some(steamapps) => match final_component(folder_path) {
                None => None,
                Some(name) => Some((steamapps, name)),
            },
        },
    }
}

/// Where Steam keeps the manifest for a game installed at some folder.
#[derive(Debug, Clone, PartialEq, Eq)]
pub struct SteamLayout {
    /// `steamapps`, two levels above `steamapps/common/<game>`.
    pub steamapps_dir: String,
    /// The install folder's own name, which a manifest's `installdir` names.
    pub install_dir_name: String,
}

/// The Steam layout around `folder_path`, when the path has two parent
/// levels and a UTF-8 final component.
pub fn steam_layout(folder_path: &str) -> (res: Option<SteamLayout>)
    ensures
        match steam_dirs(folder_path@) {
            Some((dir, name)) => res matches Some(l) && l.steamapps_dir@ == dir
                && l.install_dir_name@ == name,
            None => res is None,
        },
{
    let parent = match path_parent(folder_path) {
        Some(p) => p,
        None => return None,
    };
    let steamapps_dir = match path_parent(parent.as_str()) {
        Some(p) => p,
        None => return None,
    };
    let install_dir_name = match path_file_name(folder_path) {
        Some(n) => n,
        None => return None,
    };
    Some(SteamLayout { steamapps_dir, install_dir_name })
}

/// Whether a directory entry's name is an app manifest's,
/// `appmanifest_<id>.acf`.
pub fn is_app_manifest_name(name: &str) -> (res: bool)
    ensures
        res == is_manifest_name(name@),
{
    let n = str_chars(name);
    let prefix = str_chars("appmanifest_");
    let suffix = str_chars(".acf");
    chars_start_with(n.as_slice(), prefix.as_slice()) && chars_end_with(
        n.as_slice(),
        suffix.as_slice(),
    )
}

/// A running process's exe (lowercased) lies under a folder (lowercased),
/// by whole path components, so `.../FC 24` does not match `.../FC 24 Beta`.
pub open spec fn exe_in_folder(exe_lower: Seq<char>, folder_lower: Seq<char>) -> bool {
    component_prefix(exe_lower, folder_lower)
}

/// Some running exe (the list holds them lowercased) lies under `folder`,
/// compared case-insensitively.
#[verifier::opaque]
pub open spec fn folder_running(folder: Seq<char>, exes_lower: Seq<Seq<char>>) -> bool {
    exists|i: int| 0 <= i < exes_lower.len() && exe_in_folder(#[trigger] exes_lower[i], lowercase(folder))
}

/// The one folder-match rule that "is this game running" and "stop this
/// game" both use.
pub(crate) fn exe_belongs_to_folder(exe_lowercase: &str, folder_lowercase_target: &str) -> (res:
    bool)
    ensures
        res == exe_in_folder(exe_lowercase@, folder_lowercase_target@),
{
    path_starts_with(exe_lowercase, folder_lowercase_target)
}

/// Whether any of the running exes lies under `folder_path`.
pub fn folder_has_running_exe(folder_path: &str, running_exes_lower: &Vec<String>) -> (res: bool)
    ensures
        res == folder_running(folder_path@, views(running_exes_lower@)),
{
    reveal(folder_running);
    let target = to_lowercase(folder_path);
    let mut i: usize = 0;
    while i < running_exes_lower.len()
        invariant
            i <= running_exes_lower@.len(),
            target@ == lowercase(folder_path@),
            forall|k: int|
                0 <= k < i ==> !exe_in_folder(#[trigger] views(running_exes_lower@)[k], target@),
        decreases running_exes_lower.len() - i,
    {
        if exe_belongs_to_folder(running_exes_lower[i].as_str(), target.as_str()) {
            assert(views(running_exes_lower@)[i as int] == running_exes_lower@[i as int]@);
            proof {
                reveal(folder_running);
            }
            return true;
        }
        i = i + 1;
    }
    proof {
        reveal(folder_running);
    }
    false
}

/// The running folders among `folders`, in order, each text once.
pub open spec fn running_subset(folders: Seq<Seq<char>>, exes_lower: Seq<Seq<char>>) -> Seq<
    Seq<char>,
>
    decreases folders.len(),
{
    if folders.len() == 0 {
        seq![]
    } else {
        let prev = running_subset(folders.drop_last(), exes_lower);
        let f = folders.last();
        if folder_running(f, exes_lower) && !prev.contains(f) {
            prev.push(f)
        } else {
            prev
        }
    }
}

/// `running_subset` holds exactly the running folders, without repeats.
pub proof fn lemma_running_subset(folders: Seq<Seq<char>>, exes_lower: Seq<Seq<char>>)
    ensures
        forall|f: Seq<char>|
            #[trigger] running_subset(folders, exes_lower).contains(f) <==> (folders.contains(f)
                && folder_running(f, exes_lower)),
        running_subset(folders, exes_lower).no_duplicates(),
    decreases folders.len(),
{
    if folders.len() > 0 {
        let rest = folders.drop_last();
        lemma_running_subset(rest, exes_lower);
        let prev = running_subset(rest, exes_lower);
        assert forall|f: Seq<char>| #[trigger] folders.contains(f) <==> (rest.contains(f) || f
            == folders.last()) by {
            if folders.contains(f) {
                let i = choose|i: int| 0 <= i < folders.len() && folders[i] == f;
                if i < folders.len() - 1 {
                    assert(rest[i] == f);
                }
            }
            if rest.contains(f) {
                let i = choose|i: int| 0 <= i < rest.len() && rest[i] == f;
                assert(folders[i] == f);
            }
            if f == folders.last() {
                assert(folders[folders.len() - 1] == f);
            }
        }
        let f0 = folders.last();
        if folder_running(f0, exes_lower) && !prev.contains(f0) {
            assert forall|f: Seq<char>| #[trigger] prev.push(f0).contains(f) <==> (prev.contains(f)
                || f == f0) by {
                if prev.push(f0).contains(f) {
                    let i = choose|i: int| 0 <= i < prev.push(f0).len() && prev.push(f0)[i] == f;
                    if i < prev.len() {
                        assert(prev[i] == f);
                    }
                }
                if prev.contains(f) {
                    let i = choose|i: int| 0 <= i < prev.len() && prev[i] == f;
                    assert(prev.push(f0)[i] == f);
                }
                if f == f0 {
                    assert(prev.push(f0)[prev.len() as int] == f);
                }
            }
        }
    }
}

/// The folders among `folder_paths` that some running exe lies under, in
/// order and each text once: one process-list scan serves any number of
/// folders.
pub fn running_folders_among(folder_paths: &Vec<String>, running_exes_lower: &Vec<String>) -> (res:
    Vec<String>)
    ensures
        views(res@) == running_subset(views(folder_paths@), views(running_exes_lower@)),
{
    let mut res: Vec<String> = Vec::new();
    let mut j: usize = 0;
    while j < folder_paths.len()
        invariant
            j <= folder_paths@.len(),
            views(res@) == running_subset(
                views(folder_paths@).take(j as int),
                views(running_exes_lower@),
            ),
        decreases folder_paths.len() - j,
    {
        let folder = &folder_paths[j];
        let ghost fs = views(folder_paths@);
        let ghost exes = views(running_exes_lower@);
        let ghost prev = views(res@);
        assert(fs.take(j + 1).drop_last() =~= fs.take(j as int));
        assert(fs.take(j + 1).last() == folder@);
        let running = folder_has_running_exe(folder.as_str(), running_exes_lower);
        let present = contains_string(&res, folder);
        assert(present == prev.contains(folder@)) by {
            if present {
                let k = choose|k: int| 0 <= k < res@.len() && #[trigger] res@[k]@ == folder@;
                assert(prev[k] == folder@);
            }
            if prev.contains(folder@) {
                let k = choose|k: int| 0 <= k < prev.len() && prev[k] == folder@;
                assert(res@[k]@ == folder@);
            }
        }
        if running && !present {
            res.push(folder.clone());
            assert(views(res@) =~= prev.push(folder@));
        }
        j = j + 1;
    }
    assert(views(folder_paths@).take(folder_paths@.len() as int) =~= views(folder_paths@));
    res
}

#[verifier::external_type_specification]
#[verifier::external_body]
pub struct ExSystem(sysinfo::System);

/// A process as a snapshot saw it: its id and, when known, its exe path.
#[derive(Debug, Clone, PartialEq, Eq)]
pub struct RunningProcess {
    pub pid: u32,
    pub exe: Option<String>,
}

/// `sysinfo::System::new_all`, `None` when it reports an error. Nothing is
/// claimed of the snapshot: it is whatever the machine is running.
#[verifier::external_body]
fn new_system() -> Option<sysinfo::System> {
    sysinfo::System::new_all().ok()
}

/// `sysinfo::System::refresh_processes` over all processes, dropping dead
/// ones. Its count of updated processes is not used.
#[verifier::external_body]
fn refresh_all_processes(system: &mut sysinfo::System) {
    system.refresh_processes(sysinfo::ProcessesToUpdate::All, true);
}

#[verifier::external_type_specification]
#[verifier::external_body]
pub struct ExProcess(sysinfo::Process);

/// `sysinfo::System::processes`: the snapshot's processes, in the order its
/// map yields them. Nothing is claimed of the list: it is the machine's
/// state.
#[verifier::external_body]
fn all_processes(system: &sysinfo::System) -> Vec<&sysinfo::Process> {
    system.processes().values().collect()
}

/// `Process::pid`, as the `u32` that `Pid::as_u32` gives.
#[verifier::external_body]
fn process_pid(process: &sysinfo::Process) -> u32 {
    process.pid().as_u32()
}

/// `Process::exe`, made a `String` by `to_string_lossy`; `None` when the
/// system does not know the process's exe.
#[verifier::external_body]
fn process_exe(process: &sysinfo::Process) -> Option<String> {
    process.exe().map(|e| e.to_string_lossy().into_owned())
}

/// The snapshot's processes, each with its pid and exe path.
fn process_list(system: &sysinfo::System) -> Vec<RunningProcess> {
    let refs = all_processes(system);
    let mut res: Vec<RunningProcess> = Vec::new();
    let mut i: usize = 0;
    while i < refs.len()
        invariant
            i <= refs@.len(),
        decreases refs.len() - i,
    {
        let p = refs[i];
        res.push(RunningProcess { pid: process_pid(p), exe: process_exe(p) });
        i = i + 1;
    }
    res
}

/// `sysinfo::System::process`, with the pid made a `Pid` by `Pid::from_u32`:
/// the snapshot's process of that pid, if it has one.
#[verifier::external_body]
fn find_process(system: &sysinfo::System, pid: u32) -> Option<&sysinfo::Process> {
    system.process(sysinfo::Pid::from_u32(pid))
}

/// `Process::kill`. Whether the signal was delivered is the operating
/// system's answer and is not stated.
#[verifier::external_body]
fn kill(process: &sysinfo::Process) -> bool {
    process.kill()
}

/// Kills the process `pid` of the snapshot; `false` when the snapshot has
/// no such process or the kill failed.
fn kill_process(system: &sysinfo::System, pid: u32) -> bool {
    match find_process(system, pid) {
        Some(p) => kill(p),
        None => false,
    }
}

/// A fresh snapshot of every running process, or `None` when the system
/// cannot be queried.
fn snapshot() -> Option<(sysinfo::System, Vec<RunningProcess>)> {
    match new_system() {
        None => None,
        Some(mut system) => {
            refresh_all_processes(&mut system);
            let procs = process_list(&system);
            Some((system, procs))
        },
    }
}

/// The lowercased exe paths of the processes in a snapshot, in order.
pub open spec fn lowercased_exes(procs: Seq<RunningProcess>) -> Seq<Seq<char>>
    decreases procs.len(),
{
    if procs.len() == 0 {
        seq![]
    } else {
        let prev = lowercased_exes(procs.drop_last());
        match procs.last().exe {
            Some(e) => prev.push(lowercase(e@)),
            None => prev,
        }
    }
}

/// The lowercased exe paths of a snapshot's processes (those with a known exe).
pub fn lowercase_exes(procs: &Vec<RunningProcess>) -> (res: Vec<String>)
    ensures
        views(res@) == lowercased_exes(procs@),
{
    let mut res: Vec<String> = Vec::new();
    let mut i: usize = 0;
    while i < procs.len()
        invariant
            i <= procs@.len(),
            views(res@) == lowercased_exes(procs@.take(i as int)),
        decreases procs.len() - i,
    {
        assert(procs@.take(i + 1).drop_last() =~= procs@.take(i as int));
        assert(procs@.take(i + 1).last() == procs@[i as int]);
        match &procs[i].exe {
            Some(e) => {
                let ghost prev = views(res@);
                res.push(to_lowercase(e.as_str()));
                assert(views(res@) =~= prev.push(lowercase(e@)));
            },
            None => {},
        }
        i = i + 1;
    }
    assert(procs@.take(procs@.len() as int) =~= procs@);
    res
}

/// The exe paths (lowercased) of every currently running process: those of
/// a process snapshot, in its order, or none when the system cannot be
/// queried. Which processes run is the machine's state, so the snapshot is
/// not named; the contract says the list is the lowercased exes of one.
fn running_exes_lowercase() -> (res: Vec<String>)
    ensures
        exists|procs: Seq<RunningProcess>| #[trigger] lowercased_exes(procs) == views(res@),
{
    match snapshot() {
        None => {
            let res: Vec<String> = Vec::new();
            assert(lowercased_exes(Seq::<RunningProcess>::empty()) == views(res@)) by {
                assert(views(res@) =~= Seq::<Seq<char>>::empty());
            }
            res
        },
        Some((_system, procs)) => {
            let res = lowercase_exes(&procs);
            assert(lowercased_exes(procs@) == views(res@));
            res
        },
    }
}

/// The folders among `folder_paths` that some currently running process's
/// exe lies under, in order and each text once: the folder rule applied to
/// a snapshot of the running processes. Which processes run is the
/// machine's state, so the snapshot is not named.
pub fn running_folders(folder_paths: &Vec<String>) -> (res: Vec<String>)
    ensures
        exists|procs: Seq<RunningProcess>|
            views(res@) == running_subset(views(folder_paths@), #[trigger] lowercased_exes(procs)),
        forall|f: Seq<char>| #[trigger] views(res@).contains(f) ==> views(folder_paths@).contains(f),
        views(res@).no_duplicates(),
{
    let exes = running_exes_lowercase();
    let res = running_folders_among(folder_paths, &exes);
    proof {
        lemma_running_subset(views(folder_paths@), views(exes@));
        let procs = choose|procs: Seq<RunningProcess>| #[trigger] lowercased_exes(procs) == views(exes@);
        assert(views(res@) == running_subset(views(folder_paths@), lowercased_exes(procs)));
    }
    res
}

/// Whether any currently running process's exe lies somewhere under
/// `folder_path` (case-insensitively, by whole path components), so a
/// cartridge reinserted while its game still runs does not start a second
/// instance. The whole folder counts, not one exe: launcher stubs hand off
/// to other exes in the same folder. The answer is the folder rule applied
/// to a snapshot of the running processes; which processes run is the
/// machine's state, so the snapshot is not named.
pub fn is_game_running(folder_path: &str) -> (res: bool)
    ensures
        exists|procs: Seq<RunningProcess>| res == folder_running(folder_path@, #[trigger] lowercased_exes(procs)),
{
    let exes = running_exes_lowercase();
    let res = folder_has_running_exe(folder_path, &exes);
    proof {
        let procs = choose|procs: Seq<RunningProcess>| #[trigger] lowercased_exes(procs) == views(exes@);
        assert(res == folder_running(folder_path@, lowercased_exes(procs)));
    }
    res
}

/// The pids of the snapshot's processes whose exe (lowercased) lies under
/// `folder_lower`, in snapshot order: the processes stopping a game kills.
pub open spec fn folder_pids(procs: Seq<RunningProcess>, folder_lower: Seq<char>) -> Seq<u32>
    decreases procs.len(),
{
    if procs.len() == 0 {
        seq![]
    } else {
        let prev = folder_pids(procs.drop_last(), folder_lower);
        match procs.last().exe {
            Some(e) => if exe_in_folder(lowercase(e@), folder_lower) {
                prev.push(procs.last().pid)
            } else {
                prev
            },
            None => prev,
        }
    }
}

/// How many processes of a snapshot have an exe under `folder_lower`.
pub open spec fn in_folder_count(procs: Seq<RunningProcess>, folder_lower: Seq<char>) -> nat {
    folder_pids(procs, folder_lower).len()
}

/// The pids of the snapshot's processes whose exe lies under `folder_path`
/// (both lowercased, by whole path components: the rule `is_game_running`
/// uses), in snapshot order.
pub fn pids_in_folder(procs: &Vec<RunningProcess>, folder_path: &str) -> (res: Vec<u32>)
    ensures
        res@ == folder_pids(procs@, lowercase(folder_path@)),
{
    let target = to_lowercase(folder_path);
    let mut res: Vec<u32> = Vec::new();
    let mut i: usize = 0;
    while i < procs.len()
        invariant
            i <= procs@.len(),
            target@ == lowercase(folder_path@),
            res@ == folder_pids(procs@.take(i as int), target@),
        decreases procs.len() - i,
    {
        assert(procs@.take(i + 1).drop_last() =~= procs@.take(i as int));
        assert(procs@.take(i + 1).last() == procs@[i as int]);
        let p = &procs[i];
        match &p.exe {
            Some(e) => {
                let exe_lower = to_lowercase(e.as_str());
                if exe_belongs_to_folder(exe_lower.as_str(), target.as_str()) {
                    res.push(p.pid);
                }
            },
            None => {},
        }
        i = i + 1;
    }
    assert(procs@.take(procs@.len() as int) =~= procs@);
    res
}

/// How many of the outcomes are `true`.
pub open spec fn count_true(outcomes: Seq<bool>) -> nat
    decreases outcomes.len(),
{
    if outcomes.len() == 0 {
        0
    } else {
        count_true(outcomes.drop_last()) + if outcomes.last() {
            1nat
        } else {
            0nat
        }
    }
}

proof fn lemma_count_true_bound(outcomes: Seq<bool>)
    ensures
        count_true(outcomes) <= outcomes.len(),
    decreases outcomes.len(),
{
    if outcomes.len() > 0 {
        lemma_count_true_bound(outcomes.drop_last());
    }
}

/// How many kills succeeded, given each kill's outcome.
pub fn count_killed(outcomes: &Vec<bool>) -> (n: usize)
    ensures
        n == count_true(outcomes@),
{
    let mut n: usize = 0;
    let mut i: usize = 0;
    while i < outcomes.len()
        invariant
            i <= outcomes@.len(),
            n == count_true(outcomes@.take(i as int)),
        decreases outcomes.len() - i,
    {
        assert(outcomes@.take(i + 1).drop_last() =~= outcomes@.take(i as int));
        assert(outcomes@.take(i + 1).last() == outcomes@[i as int]);
        proof {
            lemma_count_true_bound(outcomes@.take(i as int));
        }
        if outcomes[i] {
            n = n + 1;
        }
        i = i + 1;
    }
    assert(outcomes@.take(outcomes@.len() as int) =~= outcomes@);
    n
}

/// Kills each of `pids` in the snapshot, in order, once each: `res[i]` is
/// whether the system reported `pids[i]` killed (`false` too when the
/// snapshot has no such process). The answers are the operating system's.
pub fn kill_each(system: &sysinfo::System, pids: &Vec<u32>) -> (res: Vec<bool>)
    ensures
        res@.len() == pids@.len(),
{
    let mut res: Vec<bool> = Vec::new();
    let mut i: usize = 0;
    while i < pids.len()
        invariant
            i <= pids@.len(),
            res@.len() == i,
        decreases pids.len() - i,
    {
        res.push(kill_process(system, pids[i]));
        i = i + 1;
    }
    res
}

/// Kills exactly the snapshot's processes whose exe lies under
/// `folder_path` (the pids `pids_in_folder` gives, each handed once to
/// `kill_each`) and returns how many the system reports killed: the count
/// of `true` outcomes among those kills. Which kills succeed is the
/// operating system's answer.
pub fn stop_processes_in_folder(
    system: &sysinfo::System,
    procs: &Vec<RunningProcess>,
    folder_path: &str,
) -> (killed: usize)
    ensures
        exists|outcomes: Seq<bool>|
            outcomes.len() == folder_pids(procs@, lowercase(folder_path@)).len() && killed
                == #[trigger] count_true(outcomes),
        killed <= in_folder_count(procs@, lowercase(folder_path@)),
{
    let pids = pids_in_folder(procs, folder_path);
    let outcomes = kill_each(system, &pids);
    let killed = count_killed(&outcomes);
    proof {
        lemma_count_true_bound(outcomes@);
    }
    killed
}

/// "Is this game running" and "stop this game" never disagree about which
/// processes belong to a game: in any snapshot, the folder counts as
/// running exactly when stopping it has at least one process to kill.
pub proof fn law_running_and_stop_agree(procs: Seq<RunningProcess>, folder: Seq<char>)
    ensures
        folder_running(folder, lowercased_exes(procs)) <==> in_folder_count(procs, lowercase(folder)) > 0,
    decreases procs.len(),
{
    reveal(folder_running);
    if procs.len() > 0 {
        let rest = procs.drop_last();
        law_running_and_stop_agree(rest, folder);
        reveal(folder_running);
        let prev = lowercased_exes(rest);
        match procs.last().exe {
            Some(e) => {
                let cur = prev.push(lowercase(e@));
                if folder_running(folder, prev) {
                    let i = choose|i: int| 0 <= i < prev.len() && exe_in_folder(#[trigger] prev[i], lowercase(folder));
                    assert(cur[i] == prev[i]);
                }
                if folder_running(folder, cur) {
                    let i = choose|i: int| 0 <= i < cur.len() && exe_in_folder(#[trigger] cur[i], lowercase(folder));
                    if i < prev.len() {
                        assert(cur[i] == prev[i]);
                    }
                }
                if exe_in_folder(lowercase(e@), lowercase(folder)) {
                    assert(cur[prev.len() as int] == lowercase(e@));
                }
            },
            None => {},
        }
    }
}

/// Kills every currently running process whose exe lies under
/// `folder_path`: the gallery's "Stop". Returns how many were killed; 0 is
/// no error (the game may already have exited). It takes one process
/// snapshot, kills exactly its processes under the folder (the rule
/// `is_game_running` uses) and counts the kills the system reports as
/// done; with no snapshot it kills nothing. Which processes run, and
/// which kills succeed, is the machine's state, so neither is named.
pub fn stop_game(folder_path: &str) -> (killed: usize)
    ensures
        exists|procs: Seq<RunningProcess>, outcomes: Seq<bool>|
            outcomes.len() == #[trigger] folder_pids(procs, lowercase(folder_path@)).len() && killed
                == #[trigger] count_true(outcomes),
{
    match snapshot() {
        None => {
            let ghost none = Seq::<RunningProcess>::empty();
            let ghost no_outcomes = Seq::<bool>::empty();
            assert(no_outcomes.len() == folder_pids(none, lowercase(folder_path@)).len()
                && 0 == count_true(no_outcomes));
            0
        },
        Some((system, procs)) => stop_processes_in_folder(&system, &procs, folder_path),
    }
}

} // verus!
