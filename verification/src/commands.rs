//! The catalog edits and decisions behind each frontend command. Loading
//! and saving `catalog.json`, the file system and the windowing toolkit stay
//! with the caller; what a command does to a catalog, and what it answers,
//! is stated here.

use crate::catalog::{
    availability, rescan_availability, Binding, Catalog, CloseBehavior, ConfirmedGame, Game,
};
use crate::scan::ScanCandidate;
use crate::text::{concat_str, contains_string, views};
use vstd::prelude::*;

verus! {

/// A scan candidate as the frontend receives it.
#[derive(Debug, Clone, PartialEq, Eq)]
pub struct ScanCandidateDto {
    pub folder_path: String,
    pub name: String,
    pub exe_path: Option<String>,
}

/// The answer to confirming games: the new catalog and how many games it
/// gained (fewer than sent when some were already cataloged).
#[derive(Debug, Clone, PartialEq)]
pub struct ConfirmResult {
    pub catalog: Catalog,
    pub added: usize,
}

/// The answer to a library sync: the new catalog, how many games it gained,
/// and the names of new folders skipped for want of a detected exe.
#[derive(Debug, Clone, PartialEq)]
pub struct SyncResult {
    pub catalog: Catalog,
    pub added: usize,
    pub skipped_names: Vec<String>,
}

/// A connected USB serial device, for the reader pairing dialog.
#[derive(Debug, Clone, PartialEq, Eq)]
pub struct UsbSerialPortInfo {
    pub port_name: String,
    pub vid: u16,
    pub pid: u16,
    pub description: String,
}

/// The frontend's view of a scan candidate: the same three fields.
pub fn scan_candidate_dto(c: ScanCandidate) -> (res: ScanCandidateDto)
    ensures
        res.folder_path == c.folder_path,
        res.name == c.name,
        res.exe_path == c.exe_path,
{
    ScanCandidateDto { folder_path: c.folder_path, name: c.name, exe_path: c.exe_path }
}

/// `roots` with `path` appended unless a root with its text is there.
pub open spec fn with_root(roots: Seq<String>, path: String) -> Seq<String> {
    if views(roots).contains(path@) {
        roots
    } else {
        roots.push(path)
    }
}

/// Every game's availability recomputed against the new roots.
pub open spec fn rescanned(old_games: Seq<Game>, new_games: Seq<Game>, exe_exists: Seq<bool>, roots: Seq<Seq<char>>) -> bool {
    &&& new_games.len() == old_games.len()
    &&& forall|i: int| 0 <= i < old_games.len() ==> #[trigger] new_games[i] == (Game {
        available: availability(old_games[i], exe_exists[i], roots),
        ..old_games[i]
    })
}

proof fn lemma_views_contains(roots: Seq<String>, path: String)
    ensures
        views(roots).contains(path@) == exists|k: int| 0 <= k < roots.len() && #[trigger] roots[k]@ == path@,
{
    if views(roots).contains(path@) {
        let k = choose|k: int| 0 <= k < views(roots).len() && views(roots)[k] == path@;
        assert(roots[k]@ == path@);
    }
    if exists|k: int| 0 <= k < roots.len() && #[trigger] roots[k]@ == path@ {
        let k = choose|k: int| 0 <= k < roots.len() && #[trigger] roots[k]@ == path@;
        assert(views(roots)[k] == path@);
    }
}

/// Adds a root folder (unless one with the same text is tracked already)
/// and recomputes availability, so games of a re-added folder show as
/// available again. Games and bindings are otherwise untouched.
pub fn add_root_folder(catalog: &mut Catalog, path: String, exe_exists: &Vec<bool>)
    requires
        exe_exists@.len() == old(catalog).games@.len(),
    ensures
        final(catalog).version == old(catalog).version,
        final(catalog).bindings == old(catalog).bindings,
        final(catalog).settings == (crate::catalog::Settings {
            root_folders: final(catalog).settings.root_folders,
            ..old(catalog).settings
        }),
        final(catalog).settings.root_folders@ == with_root(old(catalog).settings.root_folders@, path),
        rescanned(
            old(catalog).games@,
            final(catalog).games@,
            exe_exists@,
            views(final(catalog).settings.root_folders@),
        ),
{
    proof {
        lemma_views_contains(catalog.settings.root_folders@, path);
    }
    if !contains_string(&catalog.settings.root_folders, &path) {
        catalog.settings.root_folders.push(path);
    }
    rescan_availability(catalog, exe_exists);
}

/// `roots` without every root whose text is `path`.
pub open spec fn without_root(roots: Seq<String>, path: Seq<char>) -> Seq<String>
    decreases roots.len(),
{
    if roots.len() == 0 {
        seq![]
    } else {
        let prev = without_root(roots.drop_last(), path);
        if roots.last()@ != path {
            prev.push(roots.last())
        } else {
            prev
        }
    }
}

/// Drops a folder from the tracked roots and recomputes availability. The
/// folder's games stay in the catalog, untouched but for availability:
/// entries are never silently deleted.
pub fn remove_root_folder(catalog: &mut Catalog, path: &str, exe_exists: &Vec<bool>)
    requires
        exe_exists@.len() == old(catalog).games@.len(),
    ensures
        final(catalog).version == old(catalog).version,
        final(catalog).bindings == old(catalog).bindings,
        final(catalog).settings == (crate::catalog::Settings {
            root_folders: final(catalog).settings.root_folders,
            ..old(catalog).settings
        }),
        final(catalog).settings.root_folders@ == without_root(old(catalog).settings.root_folders@, path@),
        rescanned(
            old(catalog).games@,
            final(catalog).games@,
            exe_exists@,
            views(final(catalog).settings.root_folders@),
        ),
{
    let ghost roots = catalog.settings.root_folders@;
    let mut kept: Vec<String> = Vec::new();
    let mut i: usize = 0;
    while i < catalog.settings.root_folders.len()
        invariant
            i <= roots.len(),
            roots == catalog.settings.root_folders@,
            kept@ == without_root(roots.take(i as int), path@),
        decreases roots.len() - i,
    {
        assert(roots.take(i + 1).drop_last() =~= roots.take(i as int));
        assert(roots.take(i + 1).last() == roots[i as int]);
        let r = &catalog.settings.root_folders[i];
        let same = crate::text::chars_equal(
            crate::text::str_chars(r.as_str()).as_slice(),
            crate::text::str_chars(path).as_slice(),
        );
        if !same {
            kept.push(r.clone());
        }
        i = i + 1;
    }
    assert(roots.take(roots.len() as int) =~= roots);
    catalog.settings.root_folders = kept;
    rescan_availability(catalog, exe_exists);
}

/// `bindings` without every binding for the tag `tag`.
pub open spec fn without_tag(bindings: Seq<Binding>, tag: Seq<char>) -> Seq<Binding>
    decreases bindings.len(),
{
    if bindings.len() == 0 {
        seq![]
    } else {
        let prev = without_tag(bindings.drop_last(), tag);
        if bindings.last().tag_uid@ != tag {
            prev.push(bindings.last())
        } else {
            prev
        }
    }
}

fn remove_tag(bindings: &Vec<Binding>, tag_uid: &str) -> (res: Vec<Binding>)
    ensures
        res@ == without_tag(bindings@, tag_uid@),
{
    let tag = crate::text::str_chars(tag_uid);
    let mut kept: Vec<Binding> = Vec::new();
    let mut i: usize = 0;
    while i < bindings.len()
        invariant
            i <= bindings@.len(),
            tag@ == tag_uid@,
            kept@ == without_tag(bindings@.take(i as int), tag_uid@),
        decreases bindings.len() - i,
    {
        assert(bindings@.take(i + 1).drop_last() =~= bindings@.take(i as int));
        assert(bindings@.take(i + 1).last() == bindings@[i as int]);
        let b = &bindings[i];
        let t = crate::text::str_chars(b.tag_uid.as_str());
        if !crate::text::chars_equal(t.as_slice(), tag.as_slice()) {
            kept.push(Binding { tag_uid: b.tag_uid.clone(), game_id: b.game_id.clone() });
        }
        i = i + 1;
    }
    assert(bindings@.take(bindings@.len() as int) =~= bindings@);
    kept
}

/// Binds a tag to a game, replacing any earlier binding of that tag: the
/// tag ends up bound exactly once, to `game_id`, and other tags' bindings
/// keep their order. Games and settings are untouched.
pub fn bind_tag(catalog: &mut Catalog, tag_uid: String, game_id: String)
    ensures
        final(catalog).version == old(catalog).version,
        final(catalog).settings == old(catalog).settings,
        final(catalog).games == old(catalog).games,
        final(catalog).bindings@ == without_tag(old(catalog).bindings@, tag_uid@).push(
            Binding { tag_uid, game_id },
        ),
{
    let kept = remove_tag(&catalog.bindings, tag_uid.as_str());
    catalog.bindings = kept;
    catalog.bindings.push(Binding { tag_uid, game_id });
}

/// Removes a tag's binding, if any. The game itself is untouched; the tag
/// reads as unbound on its next insert.
pub fn unbind_tag(catalog: &mut Catalog, tag_uid: &str)
    ensures
        final(catalog).version == old(catalog).version,
        final(catalog).settings == old(catalog).settings,
        final(catalog).games == old(catalog).games,
        final(catalog).bindings@ == without_tag(old(catalog).bindings@, tag_uid@),
{
    let kept = remove_tag(&catalog.bindings, tag_uid);
    catalog.bindings = kept;
}

proof fn lemma_without_tag_excludes(bs: Seq<Binding>, tag: Seq<char>)
    ensures
        forall|k: int|
            0 <= k < without_tag(bs, tag).len() ==> (#[trigger] without_tag(bs, tag)[k]).tag_uid@ != tag,
    decreases bs.len(),
{
    if bs.len() > 0 {
        let rest = bs.drop_last();
        lemma_without_tag_excludes(rest, tag);
        let prev = without_tag(rest, tag);
        let cur = without_tag(bs, tag);
        assert forall|k: int| 0 <= k < cur.len() implies (#[trigger] cur[k]).tag_uid@ != tag by {
            if k < prev.len() {
                assert(cur[k] == prev[k]);
            }
        }
    }
}

proof fn lemma_without_tag_keeps_untagged(bs: Seq<Binding>, tag: Seq<char>)
    requires
        forall|k: int| 0 <= k < bs.len() ==> (#[trigger] bs[k]).tag_uid@ != tag,
    ensures
        without_tag(bs, tag) == bs,
    decreases bs.len(),
{
    if bs.len() > 0 {
        let rest = bs.drop_last();
        assert forall|k: int| 0 <= k < rest.len() implies (#[trigger] rest[k]).tag_uid@ != tag by {
            assert(rest[k] == bs[k]);
        }
        lemma_without_tag_keeps_untagged(rest, tag);
        assert(bs.last() == bs[bs.len() - 1]);
        assert(rest.push(bs.last()) =~= bs);
    }
}

/// After binding, the tag is bound exactly once, to the chosen game: no
/// earlier binding of it survives and the new one comes last.
pub proof fn law_bind_tag_binds_once(bindings: Seq<Binding>, tag_uid: String, game_id: String)
    ensures
        ({
            let after = without_tag(bindings, tag_uid@).push(Binding { tag_uid, game_id });
            &&& after.last() == (Binding { tag_uid, game_id })
            &&& forall|k: int| 0 <= k < after.len() - 1 ==> (#[trigger] after[k]).tag_uid@ != tag_uid@
        }),
{
    lemma_without_tag_excludes(bindings, tag_uid@);
    let kept = without_tag(bindings, tag_uid@);
    let after = kept.push(Binding { tag_uid, game_id });
    assert forall|k: int| 0 <= k < after.len() - 1 implies (#[trigger] after[k]).tag_uid@ != tag_uid@ by {
        assert(after[k] == kept[k]);
    }
}

/// Unbinding a tag undoes binding it: binding a tag to a game and then
/// unbinding it leaves exactly the bindings that unbinding alone leaves.
pub proof fn law_unbind_undoes_bind(bindings: Seq<Binding>, tag_uid: String, game_id: String)
    ensures
        without_tag(without_tag(bindings, tag_uid@).push(Binding { tag_uid, game_id }), tag_uid@)
            == without_tag(bindings, tag_uid@),
{
    let kept = without_tag(bindings, tag_uid@);
    let after = kept.push(Binding { tag_uid, game_id });
    lemma_without_tag_excludes(bindings, tag_uid@);
    lemma_without_tag_keeps_untagged(kept, tag_uid@);
    assert(after.drop_last() =~= kept);
}

/// Removing a root folder removes every copy of it.
pub proof fn law_remove_root_removes_every_copy(roots: Seq<String>, path: Seq<char>)
    ensures
        forall|k: int| 0 <= k < without_root(roots, path).len() ==> (#[trigger] without_root(roots, path)[k])@ != path,
    decreases roots.len(),
{
    if roots.len() > 0 {
        let rest = roots.drop_last();
        law_remove_root_removes_every_copy(rest, path);
        let prev = without_root(rest, path);
        let cur = without_root(roots, path);
        assert forall|k: int| 0 <= k < cur.len() implies (#[trigger] cur[k])@ != path by {
            if k < prev.len() {
                assert(cur[k] == prev[k]);
            }
        }
    }
}

/// Removing a folder just added leaves the roots that removing it alone
/// would leave.
pub proof fn law_remove_undoes_add_root(roots: Seq<String>, path: String)
    ensures
        without_root(with_root(roots, path), path@) == without_root(roots, path@),
{
    if !views(roots).contains(path@) {
        assert(roots.push(path).drop_last() =~= roots);
    }
}

/// The message for a game id that no game has.
pub open spec fn no_game_message(game_id: Seq<char>) -> Seq<char> {
    "no game with id '"@ + game_id + "'"@
}

/// Finds the first game with id `game_id`, or the error the frontend shows.
pub fn find_game(catalog: &Catalog, game_id: &str) -> (res: Result<usize, String>)
    ensures
        match res {
            Ok(i) => i < catalog.games@.len() && catalog.games@[i as int].id@ == game_id@ && forall|j: int|
                0 <= j < i ==> #[trigger] catalog.games@[j].id@ != game_id@,
            Err(e) => e@ == no_game_message(game_id@) && forall|j: int|
                0 <= j < catalog.games@.len() ==> #[trigger] catalog.games@[j].id@ != game_id@,
        },
{
    let want = crate::text::str_chars(game_id);
    let mut i: usize = 0;
    while i < catalog.games.len()
        invariant
            i <= catalog.games@.len(),
            want@ == game_id@,
            forall|j: int| 0 <= j < i ==> #[trigger] catalog.games@[j].id@ != game_id@,
        decreases catalog.games.len() - i,
    {
        let id = crate::text::str_chars(catalog.games[i].id.as_str());
        if crate::text::chars_equal(id.as_slice(), want.as_slice()) {
            return Ok(i);
        }
        i = i + 1;
    }
    let head = concat_str("no game with id '", game_id);
    Err(concat_str(head.as_str(), "'"))
}

/// Renames the first game with id `game_id`. Identity (the id, which
/// bindings use) is the folder path, not the name, so bindings are never
/// touched; a missing game is an error and changes nothing.
pub fn rename_game(catalog: &mut Catalog, game_id: &str, name: String) -> (res: Result<(), String>)
    ensures
        final(catalog).version == old(catalog).version,
        final(catalog).settings == old(catalog).settings,
        final(catalog).bindings == old(catalog).bindings,
        match res {
            Ok(()) => exists|i: int|
                0 <= i < old(catalog).games@.len() && old(catalog).games@[i].id@ == game_id@
                    && (forall|j: int| 0 <= j < i ==> #[trigger] old(catalog).games@[j].id@ != game_id@)
                    && final(catalog).games@ == old(catalog).games@.update(
                    i,
                    Game { name: name, ..old(catalog).games@[i] },
                ),
            Err(e) => e@ == no_game_message(game_id@) && final(catalog).games == old(catalog).games
                && forall|j: int|
                0 <= j < old(catalog).games@.len() ==> #[trigger] old(catalog).games@[j].id@ != game_id@,
        },
{
    match find_game(catalog, game_id) {
        Err(e) => Err(e),
        Ok(i) => {
            let ghost old_games = catalog.games@;
            catalog.games[i].name = name;
            assert(catalog.games@ =~= old_games.update(i as int, Game { name: name, ..old_games[i as int] }));
            Ok(())
        },
    }
}

/// A game with user-chosen artwork at `artwork_path`.
pub open spec fn with_custom_artwork(game: Game, artwork_path: String) -> Game {
    Game { artwork_path: Some(artwork_path), has_custom_artwork: true, ..game }
}

/// Records user-chosen artwork for game `index`: its artwork path is set
/// and it is marked custom, so refreshing artwork never replaces it.
pub fn set_custom_artwork(catalog: &mut Catalog, index: usize, artwork_path: String)
    requires
        index < old(catalog).games@.len(),
    ensures
        final(catalog).version == old(catalog).version,
        final(catalog).settings == old(catalog).settings,
        final(catalog).bindings == old(catalog).bindings,
        final(catalog).games@ == old(catalog).games@.update(
            index as int,
            with_custom_artwork(old(catalog).games@[index as int], artwork_path),
        ),
{
    let ghost old_games = catalog.games@;
    catalog.games[index].artwork_path = Some(artwork_path);
    catalog.games[index].has_custom_artwork = true;
    assert(catalog.games@ =~= old_games.update(
        index as int,
        with_custom_artwork(old_games[index as int], artwork_path),
    ));
}

/// Replaces every setting at once; games and bindings are untouched.
pub fn update_settings(
    catalog: &mut Catalog,
    root_folders: Vec<String>,
    confirm_before_launch: bool,
    show_output_log: bool,
    close_behavior: CloseBehavior,
    show_store_badges: bool,
    sync_on_startup: bool,
)
    ensures
        final(catalog).version == old(catalog).version,
        final(catalog).games == old(catalog).games,
        final(catalog).bindings == old(catalog).bindings,
        final(catalog).settings == (crate::catalog::Settings {
            root_folders,
            confirm_before_launch,
            show_output_log,
            close_behavior,
            show_store_badges,
            sync_on_startup,
        }),
{
    catalog.settings.root_folders = root_folders;
    catalog.settings.confirm_before_launch = confirm_before_launch;
    catalog.settings.show_output_log = show_output_log;
    catalog.settings.close_behavior = close_behavior;
    catalog.settings.show_store_badges = show_store_badges;
    catalog.settings.sync_on_startup = sync_on_startup;
}

/// Records the answer to the first-close prompt when the user asked to
/// remember it (minimize, or quit); returns whether the catalog changed
/// and must be saved.
pub fn resolve_close_prompt(catalog: &mut Catalog, minimize: bool, remember: bool) -> (changed: bool)
    ensures
        changed == remember,
        final(catalog).version == old(catalog).version,
        final(catalog).games == old(catalog).games,
        final(catalog).bindings == old(catalog).bindings,
        final(catalog).settings == (crate::catalog::Settings {
            close_behavior: if remember {
                if minimize {
                    CloseBehavior::Minimize
                } else {
                    CloseBehavior::Quit
                }
            } else {
                old(catalog).settings.close_behavior
            },
            ..old(catalog).settings
        }),
{
    if remember {
        catalog.settings.close_behavior = if minimize {
            CloseBehavior::Minimize
        } else {
            CloseBehavior::Quit
        };
    }
    remember
}

/// Which games a refresh re-resolves artwork for (`res[i]` for
/// `games[i]`): every game without user-chosen art.
pub fn artwork_refresh_targets(catalog: &Catalog) -> (res: Vec<bool>)
    ensures
        res@.len() == catalog.games@.len(),
        forall|i: int| 0 <= i < res@.len() ==> #[trigger] res@[i] == !catalog.games@[i].has_custom_artwork,
{
    let mut res: Vec<bool> = Vec::new();
    let mut i: usize = 0;
    while i < catalog.games.len()
        invariant
            i <= catalog.games@.len(),
            res@.len() == i,
            forall|k: int| 0 <= k < i ==> #[trigger] res@[k] == !catalog.games@[k].has_custom_artwork,
        decreases catalog.games.len() - i,
    {
        res.push(!catalog.games[i].has_custom_artwork);
        i = i + 1;
    }
    res
}

/// A game after an artwork refresh that re-resolved `result` for it: art
/// the user chose is never replaced; other art is replaced by a newly
/// written file and kept when resolution produced none.
pub open spec fn refreshed(game: Game, result: Option<String>) -> Game {
    if !game.has_custom_artwork && result is Some {
        Game { artwork_path: result, ..game }
    } else {
        game
    }
}

/// Applies re-resolved artwork (`results[i]` for `games[i]`).
pub fn refresh_all_artwork(catalog: &mut Catalog, results: Vec<Option<String>>)
    requires
        results@.len() == old(catalog).games@.len(),
    ensures
        final(catalog).version == old(catalog).version,
        final(catalog).settings == old(catalog).settings,
        final(catalog).bindings == old(catalog).bindings,
        final(catalog).games@.len() == old(catalog).games@.len(),
        forall|i: int|
            0 <= i < old(catalog).games@.len() ==> #[trigger] final(catalog).games@[i] == refreshed(
                old(catalog).games@[i],
                results@[i],
            ),
{
    let ghost old_games = catalog.games@;
    let n = catalog.games.len();
    let mut i: usize = 0;
    while i < n
        invariant
            i <= n == old_games.len(),
            results@.len() == n,
            catalog.version == old(catalog).version,
            catalog.settings == old(catalog).settings,
            catalog.bindings == old(catalog).bindings,
            old_games == old(catalog).games@,
            catalog.games@.len() == n,
            forall|k: int| 0 <= k < i ==> #[trigger] catalog.games@[k] == refreshed(old_games[k], results@[k]),
            forall|k: int| i <= k < n ==> #[trigger] catalog.games@[k] == old_games[k],
        decreases n - i,
    {
        if !catalog.games[i].has_custom_artwork {
            match &results[i] {
                Some(p) => {
                    catalog.games[i].artwork_path = Some(p.clone());
                },
                None => {},
            }
        }
        i = i + 1;
    }
}

/// Artwork the user chose survives every refresh: whatever a refresh
/// re-resolved, a game given custom art keeps exactly that art.
pub proof fn law_custom_artwork_survives_refresh(game: Game, artwork_path: String, result: Option<String>)
    ensures
        refreshed(with_custom_artwork(game, artwork_path), result) == with_custom_artwork(game, artwork_path),
{
}

/// The candidates a sync adds (those with a detected exe) and the names of
/// those it skips (no exe detected), both in scan order.
pub open spec fn sync_split(candidates: Seq<ScanCandidate>) -> (Seq<ConfirmedGame>, Seq<String>)
    decreases candidates.len(),
{
    if candidates.len() == 0 {
        (seq![], seq![])
    } else {
        let (games, skipped) = sync_split(candidates.drop_last());
        let c = candidates.last();
        match c.exe_path {
            Some(exe_path) => (
                games.push(ConfirmedGame { folder_path: c.folder_path, name: c.name, exe_path }),
                skipped,
            ),
            None => (games, skipped.push(c.name)),
        }
    }
}

/// Splits the new folders a library sync found: those with an unambiguous
/// exe become games to add; the names of those without one are reported
/// as skipped, since a sync has no review step to ask the user.
pub fn sync_library(candidates: Vec<ScanCandidate>) -> (res: (Vec<ConfirmedGame>, Vec<String>))
    ensures
        res.0@ == sync_split(candidates@).0,
        res.1@ == sync_split(candidates@).1,
{
    let mut games: Vec<ConfirmedGame> = Vec::new();
    let mut skipped: Vec<String> = Vec::new();
    let mut i: usize = 0;
    while i < candidates.len()
        invariant
            i <= candidates@.len(),
            games@ == sync_split(candidates@.take(i as int)).0,
            skipped@ == sync_split(candidates@.take(i as int)).1,
        decreases candidates.len() - i,
    {
        assert(candidates@.take(i + 1).drop_last() =~= candidates@.take(i as int));
        assert(candidates@.take(i + 1).last() == candidates@[i as int]);
        let c = &candidates[i];
        match &c.exe_path {
            Some(exe_path) => {
                games.push(
                    ConfirmedGame {
                        folder_path: c.folder_path.clone(),
                        name: c.name.clone(),
                        exe_path: exe_path.clone(),
                    },
                );
            },
            None => {
                skipped.push(c.name.clone());
            },
        }
        i = i + 1;
    }
    assert(candidates@.take(candidates@.len() as int) =~= candidates@);
    (games, skipped)
}

/// A sync accounts for every new folder it found: each is either handed on
/// to be added, with the exe that was detected for it, or reported by name
/// as skipped; none is silently dropped.
pub proof fn law_sync_accounts_for_every_folder(candidates: Seq<ScanCandidate>)
    ensures
        sync_split(candidates).0.len() + sync_split(candidates).1.len() == candidates.len(),
        forall|k: int|
            0 <= k < sync_split(candidates).0.len() ==> exists|i: int|
                0 <= i < candidates.len() && (#[trigger] candidates[i]).exe_path == Some(
                    (#[trigger] sync_split(candidates).0[k]).exe_path,
                ) && candidates[i].folder_path == sync_split(candidates).0[k].folder_path,
    decreases candidates.len(),
{
    if candidates.len() > 0 {
        let rest = candidates.drop_last();
        law_sync_accounts_for_every_folder(rest);
        let (games, skipped) = sync_split(rest);
        let cur = sync_split(candidates).0;
        assert forall|k: int| 0 <= k < cur.len() implies exists|i: int|
            0 <= i < candidates.len() && (#[trigger] candidates[i]).exe_path == Some(
                (#[trigger] cur[k]).exe_path,
            ) && candidates[i].folder_path == cur[k].folder_path by {
            if k < games.len() {
                assert(cur[k] == games[k]);
                let i = choose|i: int|
                    0 <= i < rest.len() && (#[trigger] rest[i]).exe_path == Some(games[k].exe_path)
                        && rest[i].folder_path == games[k].folder_path;
                assert(candidates[i] == rest[i]);
            } else {
                assert(candidates[candidates.len() - 1] == candidates.last());
            }
        }
    }
}

/// The ids of the games whose folder is among the running folders, in
/// catalog order.
pub open spec fn running_ids(games: Seq<Game>, running: Seq<Seq<char>>) -> Seq<String>
    decreases games.len(),
{
    if games.len() == 0 {
        seq![]
    } else {
        let prev = running_ids(games.drop_last(), running);
        if running.contains(games.last().folder_path@) {
            prev.push(games.last().id)
        } else {
            prev
        }
    }
}

/// The ids of the games that have a process running from their folder,
/// given the running folders (one process scan for the whole library).
pub fn get_running_games(catalog: &Catalog, running_folders: &Vec<String>) -> (res: Vec<String>)
    ensures
        res@ == running_ids(catalog.games@, views(running_folders@)),
{
    let mut res: Vec<String> = Vec::new();
    let mut i: usize = 0;
    while i < catalog.games.len()
        invariant
            i <= catalog.games@.len(),
            res@ == running_ids(catalog.games@.take(i as int), views(running_folders@)),
        decreases catalog.games.len() - i,
    {
        let ghost gs = catalog.games@;
        assert(gs.take(i + 1).drop_last() =~= gs.take(i as int));
        assert(gs.take(i + 1).last() == gs[i as int]);
        let g = &catalog.games[i];
        let present = contains_string(running_folders, &g.folder_path);
        proof {
            let rv = views(running_folders@);
            if present {
                let k = choose|k: int| 0 <= k < running_folders@.len() && #[trigger] running_folders@[k]@ == g.folder_path@;
                assert(rv[k] == g.folder_path@);
            }
            if rv.contains(g.folder_path@) {
                let k = choose|k: int| 0 <= k < rv.len() && rv[k] == g.folder_path@;
                assert(running_folders@[k]@ == g.folder_path@);
            }
        }
        if present {
            res.push(g.id.clone());
        }
        i = i + 1;
    }
    assert(catalog.games@.take(catalog.games@.len() as int) =~= catalog.games@);
    res
}

/// How a game gets launched.
#[derive(Debug, Clone, PartialEq, Eq)]
pub enum LaunchPlan {
    /// Something from its folder is running already: launch nothing.
    AlreadyRunning,
    /// Open this launcher URL (the game is a Steam install).
    OpenUrl(String),
    /// Spawn the exe directly, from its own folder.
    SpawnExe,
}

/// The Steam protocol URL that runs an app.
pub open spec fn steam_run_url(app_id: Seq<char>) -> Seq<char> {
    "steam://rungameid/"@ + app_id
}

/// How to launch a game: never a second instance while something from its
/// folder runs; through Steam's protocol handler when its exe's folder is a
/// Steam install (DRM-wrapped stubs exit silently outside their launcher);
/// by spawning the exe otherwise.
pub fn launch_game(already_running: bool, steam_app_id: Option<String>) -> (res: LaunchPlan)
    ensures
        already_running ==> res == LaunchPlan::AlreadyRunning,
        !already_running ==> match steam_app_id {
            Some(id) => res matches LaunchPlan::OpenUrl(u) && u@ == steam_run_url(id@),
            None => res == LaunchPlan::SpawnExe,
        },
{
    if already_running {
        return LaunchPlan::AlreadyRunning;
    }
    match steam_app_id {
        Some(id) => LaunchPlan::OpenUrl(concat_str("steam://rungameid/", id.as_str())),
        None => LaunchPlan::SpawnExe,
    }
}

/// `n` as four upper-case hex digits (`format!("{:04X}")` of a `u16`).
pub open spec fn hex4_upper(n: u16) -> Seq<char> {
    seq![
        crate::text::digit_of(((n as nat) / 4096) % 16, true),
        crate::text::digit_of(((n as nat) / 256) % 16, true),
        crate::text::digit_of(((n as nat) / 16) % 16, true),
        crate::text::digit_of((n as nat) % 16, true),
    ]
}

/// The fallback description of a USB device: `USB VVVV:PPPP`.
pub open spec fn usb_ids_text(vid: u16, pid: u16) -> Seq<char> {
    "USB "@ + hex4_upper(vid) + ":"@ + hex4_upper(pid)
}

fn hex4(n: u16) -> (res: Vec<char>)
    ensures
        res@ == hex4_upper(n),
{
    let m: u64 = n as u64;
    let mut v: Vec<char> = Vec::new();
    v.push(crate::text::hex_digit_char((m / 4096) % 16, true));
    v.push(crate::text::hex_digit_char((m / 256) % 16, true));
    v.push(crate::text::hex_digit_char((m / 16) % 16, true));
    v.push(crate::text::hex_digit_char(m % 16, true));
    assert(v@ =~= hex4_upper(n));
    v
}

/// How the pairing dialog names a USB device: its product string unless
/// blank, else its manufacturer, else `USB VVVV:PPPP` from its ids.
pub open spec fn usb_description(
    product: Option<Seq<char>>,
    manufacturer: Option<Seq<char>>,
    vid: u16,
    pid: u16,
) -> Seq<char> {
    match product {
        Some(p) if crate::text::trim(p).len() > 0 => p,
        _ => match manufacturer {
            Some(m) => m,
            None => usb_ids_text(vid, pid),
        },
    }
}

/// The text of an optional string.
pub open spec fn opt_view(s: Option<String>) -> Option<Seq<char>> {
    match s {
        Some(v) => Some(v@),
        None => None,
    }
}

/// Describes a USB serial device for the pairing dialog.
pub fn usb_port_description(product: Option<String>, manufacturer: Option<String>, vid: u16, pid: u16) -> (res: String)
    ensures
        res@ == usb_description(opt_view(product), opt_view(manufacturer), vid, pid),
{
    match product {
        Some(p) => {
            let pv = crate::text::str_chars(p.as_str());
            let (a, b) = crate::text::trim_bounds(pv.as_slice());
            if b > a {
                return p;
            }
        },
        None => {},
    }
    match manufacturer {
        Some(m) => m,
        None => {
            let mut v = crate::text::str_chars("USB ");
            let ghost start = v@;
            let hv = hex4(vid);
            let hp = hex4(pid);
            let mut i: usize = 0;
            while i < 4
                invariant
                    hv@.len() == 4,
                    i <= 4,
                    v@ == start + hv@.take(i as int),
                decreases 4 - i,
            {
                v.push(hv[i]);
                assert(hv@.take(i + 1) =~= hv@.take(i as int).push(hv@[i as int]));
                i = i + 1;
            }
            v.push(':');
            let ghost mid = v@;
            let mut j: usize = 0;
            while j < 4
                invariant
                    hp@.len() == 4,
                    j <= 4,
                    v@ == mid + hp@.take(j as int),
                decreases 4 - j,
            {
                v.push(hp[j]);
                assert(hp@.take(j + 1) =~= hp@.take(j as int).push(hp@[j as int]));
                j = j + 1;
            }
            assert(hv@.take(4) =~= hv@);
            assert(hp@.take(4) =~= hp@);
            proof {
                reveal_strlit(":");
            }
            assert(v@ =~= usb_ids_text(vid, pid));
            crate::text::string_from_chars(v.as_slice())
        },
    }
}

} // verus!
