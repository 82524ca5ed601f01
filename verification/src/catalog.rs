//! The game catalog: games, tag bindings and settings, the single source of
//! truth for what the gallery shows and what a tag insert launches. Reading
//! and writing `catalog.json` is the caller's I/O; every rule that changes a
//! catalog is here, with its contract.

use crate::launch::{detect_store, Store};
use crate::paths::{component_prefix, path_starts_with};
use crate::text::{concat_str, format_hex, lowercase, str_chars, string_from_chars, to_lowercase, views};
use std::hash::{Hash, Hasher};
use vstd::prelude::*;

verus! {

/// The value a missing boolean setting takes when it defaults to on.
pub fn default_true() -> (res: bool)
    ensures
        res,
{
    true
}

/// What closing the main window does.
#[derive(Debug, Clone, Copy, PartialEq, Eq, Structural)]
pub enum CloseBehavior {
    /// Not decided yet: ask again on the next close.
    Ask,
    Minimize,
    Quit,
}

impl Default for CloseBehavior {
    fn default() -> (res: Self)
        ensures
            res == CloseBehavior::Ask,
    {
        CloseBehavior::Ask
    }
}

/// The close behavior an old catalog recorded as `true`, `false` or `null`:
/// `true` meant minimize, `false` meant quit, `null` meant not decided.
pub fn close_behavior_from_legacy(value: Option<bool>) -> (res: CloseBehavior)
    ensures
        res == match value {
            Some(true) => CloseBehavior::Minimize,
            Some(false) => CloseBehavior::Quit,
            None => CloseBehavior::Ask,
        },
{
    match value {
        Some(true) => CloseBehavior::Minimize,
        Some(false) => CloseBehavior::Quit,
        None => CloseBehavior::Ask,
    }
}

/// What happens when the user closes the main window.
#[derive(Debug, Clone, Copy, PartialEq, Eq, Structural)]
pub enum CloseAction {
    /// Keep running in the tray: hide the window instead of closing it.
    HideToTray,
    /// Let the window close and the app quit.
    Close,
    /// Hold the close and ask the user what closing should do.
    AskUser,
}

/// The answer to a close request under the recorded close behavior.
pub fn close_request_action(behavior: CloseBehavior) -> (res: CloseAction)
    ensures
        res == match behavior {
            CloseBehavior::Minimize => CloseAction::HideToTray,
            CloseBehavior::Quit => CloseAction::Close,
            CloseBehavior::Ask => CloseAction::AskUser,
        },
{
    match behavior {
        CloseBehavior::Minimize => CloseAction::HideToTray,
        CloseBehavior::Quit => CloseAction::Close,
        CloseBehavior::Ask => CloseAction::AskUser,
    }
}

/// User settings.
#[derive(Debug, Clone, PartialEq)]
pub struct Settings {
    pub root_folders: Vec<String>,
    pub confirm_before_launch: bool,
    pub show_output_log: bool,
    pub close_behavior: CloseBehavior,
    pub show_store_badges: bool,
    pub sync_on_startup: bool,
}

/// One cataloged game. Its `id` is its folder path.
#[derive(Debug, Clone, PartialEq)]
pub struct Game {
    pub id: String,
    pub name: String,
    pub folder_path: String,
    pub exe_path: String,
    pub artwork_path: Option<String>,
    pub available: bool,
    /// User-chosen art, which a refresh never replaces.
    pub has_custom_artwork: bool,
    pub store: Option<Store>,
}

/// A tag bound to a game.
#[derive(Debug, Clone, PartialEq)]
pub struct Binding {
    pub tag_uid: String,
    pub game_id: String,
}

/// The whole catalog.
#[derive(Debug, Clone, PartialEq)]
pub struct Catalog {
    pub version: u32,
    pub settings: Settings,
    pub games: Vec<Game>,
    pub bindings: Vec<Binding>,
}

impl Default for Catalog {
    /// The first-launch catalog: version 1, no folders, games or bindings,
    /// no launch confirmation, no output log, close behavior not decided,
    /// store badges and sync on startup on.
    fn default() -> (res: Self)
        ensures
            res.version == 1,
            res.settings.root_folders@.len() == 0,
            !res.settings.confirm_before_launch,
            !res.settings.show_output_log,
            res.settings.close_behavior == CloseBehavior::Ask,
            res.settings.show_store_badges,
            res.settings.sync_on_startup,
            res.games@.len() == 0,
            res.bindings@.len() == 0,
    {
        Catalog {
            version: 1,
            settings: Settings {
                root_folders: Vec::new(),
                confirm_before_launch: false,
                show_output_log: false,
                close_behavior: CloseBehavior::Ask,
                show_store_badges: true,
                sync_on_startup: true,
            },
            games: Vec::new(),
            bindings: Vec::new(),
        }
    }
}

/// `folder` lies under one of the tracked root folders, both compared
/// lowercased and by whole path components.
#[verifier::opaque]
pub open spec fn under_tracked_root(folder: Seq<char>, roots: Seq<Seq<char>>) -> bool {
    exists|r: int| 0 <= r < roots.len() && component_prefix(lowercase(folder), lowercase(#[trigger] roots[r]))
}

/// A game is available when its exe exists and its folder lies under a
/// tracked root.
pub open spec fn availability(game: Game, exe_exists: bool, roots: Seq<Seq<char>>) -> bool {
    exe_exists && under_tracked_root(game.folder_path@, roots)
}

/// A game is available exactly when its exe exists and its folder lies
/// under a tracked root: a missing exe always makes it unavailable, and so
/// does a folder outside every tracked root, whatever else holds.
pub proof fn law_availability_needs_exe_and_root(roots: Seq<Seq<char>>)
    ensures
        forall|game: Game, exe_exists: bool|
            #[trigger] availability(game, exe_exists, roots) == (exe_exists && under_tracked_root(
                game.folder_path@,
                roots,
            )),
{
}

/// Whether `folder_path` lies under one of the lowercased roots.
fn under_any_root(folder_path: &str, roots_lower: &Vec<String>, ghost_roots: Ghost<Seq<Seq<char>>>) -> (res: bool)
    requires
        roots_lower@.len() == ghost_roots@.len(),
        forall|r: int| 0 <= r < roots_lower@.len() ==> #[trigger] roots_lower@[r]@ == lowercase(ghost_roots@[r]),
    ensures
        res == under_tracked_root(folder_path@, ghost_roots@),
{
    reveal(under_tracked_root);
    let folder_lower = to_lowercase(folder_path);
    let mut r: usize = 0;
    while r < roots_lower.len()
        invariant
            r <= roots_lower@.len(),
            roots_lower@.len() == ghost_roots@.len(),
            folder_lower@ == lowercase(folder_path@),
            forall|k: int| 0 <= k < roots_lower@.len() ==> #[trigger] roots_lower@[k]@ == lowercase(ghost_roots@[k]),
            forall|k: int| 0 <= k < r ==> !component_prefix(lowercase(folder_path@), lowercase(#[trigger] ghost_roots@[k])),
        decreases roots_lower.len() - r,
    {
        if path_starts_with(folder_lower.as_str(), roots_lower[r].as_str()) {
            assert(roots_lower@[r as int]@ == lowercase(ghost_roots@[r as int]));
            proof {
                reveal(under_tracked_root);
            }
            return true;
        }
        r = r + 1;
    }
    proof {
        reveal(under_tracked_root);
    }
    false
}

/// Recomputes every game's availability: a game is available exactly when
/// its exe exists (`exe_exists[i]`, checked on disk by the caller for
/// `games[i]`) and its folder lies under a currently tracked root folder.
/// Nothing else changes: no game is added, removed or otherwise touched,
/// and bindings and settings stay as they are.
pub fn rescan_availability(catalog: &mut Catalog, exe_exists: &Vec<bool>)
    requires
        exe_exists@.len() == old(catalog).games@.len(),
    ensures
        final(catalog).version == old(catalog).version,
        final(catalog).settings == old(catalog).settings,
        final(catalog).bindings == old(catalog).bindings,
        final(catalog).games@.len() == old(catalog).games@.len(),
        forall|i: int|
            0 <= i < old(catalog).games@.len() ==> #[trigger] final(catalog).games@[i] == (Game {
                available: availability(
                    old(catalog).games@[i],
                    exe_exists@[i],
                    views(old(catalog).settings.root_folders@),
                ),
                ..old(catalog).games@[i]
            }),
        forall|i: int|
            0 <= i < old(catalog).games@.len() ==> (#[trigger] final(catalog).games@[i]).available == (
            exe_exists@[i] && under_tracked_root(
                old(catalog).games@[i].folder_path@,
                views(old(catalog).settings.root_folders@),
            )),
{
    proof {
        law_availability_needs_exe_and_root(views(catalog.settings.root_folders@));
    }
    let ghost roots = views(catalog.settings.root_folders@);
    let mut roots_lower: Vec<String> = Vec::new();
    let mut r: usize = 0;
    while r < catalog.settings.root_folders.len()
        invariant
            r <= catalog.settings.root_folders@.len(),
            roots == views(catalog.settings.root_folders@),
            roots_lower@.len() == r,
            forall|k: int| 0 <= k < r ==> #[trigger] roots_lower@[k]@ == lowercase(roots[k]),
        decreases catalog.settings.root_folders.len() - r,
    {
        roots_lower.push(to_lowercase(catalog.settings.root_folders[r].as_str()));
        r = r + 1;
    }
    let ghost old_games = catalog.games@;
    let n = catalog.games.len();
    let mut i: usize = 0;
    while i < n
        invariant
            i <= n == old_games.len(),
            exe_exists@.len() == n,
            roots == views(catalog.settings.root_folders@),
            roots_lower@.len() == roots.len(),
            forall|k: int| 0 <= k < roots_lower@.len() ==> #[trigger] roots_lower@[k]@ == lowercase(roots[k]),
            catalog.version == old(catalog).version,
            catalog.settings == old(catalog).settings,
            catalog.bindings == old(catalog).bindings,
            old_games == old(catalog).games@,
            catalog.games@.len() == n,
            forall|k: int| 0 <= k < i ==> #[trigger] catalog.games@[k] == (Game {
                available: availability(old_games[k], exe_exists@[k], roots),
                ..old_games[k]
            }),
            forall|k: int| i <= k < n ==> #[trigger] catalog.games@[k] == old_games[k],
        decreases n - i,
    {
        let under = under_any_root(catalog.games[i].folder_path.as_str(), &roots_lower, Ghost(roots));
        let avail = exe_exists[i] && under;
        catalog.games[i].available = avail;
        i = i + 1;
    }
}

/// Fills in the store of every game that has none on record, from what the
/// Steam detector found for its folder (`steam_app_ids[i]` for `games[i]`).
/// A store already on record is left alone, and nothing else changes.
pub fn backfill_stores(catalog: &mut Catalog, steam_app_ids: &Vec<Option<String>>)
    requires
        steam_app_ids@.len() == old(catalog).games@.len(),
    ensures
        final(catalog).version == old(catalog).version,
        final(catalog).settings == old(catalog).settings,
        final(catalog).bindings == old(catalog).bindings,
        final(catalog).games@.len() == old(catalog).games@.len(),
        forall|i: int|
            0 <= i < old(catalog).games@.len() ==> #[trigger] final(catalog).games@[i] == (Game {
                store: if old(catalog).games@[i].store is None {
                    if steam_app_ids@[i] is Some {
                        Some(Store::Steam)
                    } else {
                        None
                    }
                } else {
                    old(catalog).games@[i].store
                },
                ..old(catalog).games@[i]
            }),
{
    let ghost old_games = catalog.games@;
    let n = catalog.games.len();
    let mut i: usize = 0;
    while i < n
        invariant
            i <= n == old_games.len(),
            steam_app_ids@.len() == n,
            catalog.version == old(catalog).version,
            catalog.settings == old(catalog).settings,
            catalog.bindings == old(catalog).bindings,
            old_games == old(catalog).games@,
            catalog.games@.len() == n,
            forall|k: int| 0 <= k < i ==> #[trigger] catalog.games@[k] == (Game {
                store: if old_games[k].store is None {
                    if steam_app_ids@[k] is Some {
                        Some(Store::Steam)
                    } else {
                        None
                    }
                } else {
                    old_games[k].store
                },
                ..old_games[k]
            }),
            forall|k: int| i <= k < n ==> #[trigger] catalog.games@[k] == old_games[k],
        decreases n - i,
    {
        if catalog.games[i].store.is_none() {
            let store = detect_store(&steam_app_ids[i]);
            catalog.games[i].store = store;
        }
        i = i + 1;
    }
}

/// `char::is_alphanumeric` on a non-ASCII character (alphabetic or numeric
/// in Unicode): a function of the character alone.
pub uninterp spec fn unicode_alphanumeric(c: char) -> bool;

/// `c` is an ASCII letter or digit.
pub open spec fn ascii_alphanumeric(c: char) -> bool {
    ('0' <= c <= '9') || ('a' <= c <= 'z') || ('A' <= c <= 'Z')
}

/// `char::is_alphanumeric`: on ASCII exactly the letters and digits (the
/// documentation's Alphabetic and Numeric properties hold of no other ASCII
/// character); beyond ASCII, named.
pub open spec fn alphanumeric(c: char) -> bool {
    if (c as u32) < 0x80 {
        ascii_alphanumeric(c)
    } else {
        unicode_alphanumeric(c)
    }
}

/// `char::is_alphanumeric`. The contract states its result exactly on
/// ASCII and names it beyond.
#[verifier::external_body]
fn char_is_alphanumeric(c: char) -> (res: bool)
    ensures
        (c as u32) < 0x80 ==> res == ascii_alphanumeric(c),
        (c as u32) >= 0x80 ==> res == unicode_alphanumeric(c),
{
    c.is_alphanumeric()
}

/// The 64-bit hash that `DefaultHasher::new()` computes for a string. Keys
/// of `DefaultHasher::new()` are fixed, so for a given build it is a
/// function of the string alone.
pub uninterp spec fn id_hash(id: Seq<char>) -> u64;

/// `str::hash` into a fresh `DefaultHasher`, then `Hasher::finish`.
#[verifier::external_body]
fn hash_id(id: &str) -> (res: u64)
    ensures
        res == id_hash(id@),
{
    let mut hasher = std::collections::hash_map::DefaultHasher::new();
    id.hash(&mut hasher);
    hasher.finish()
}

/// `id` with every character that is not alphanumeric replaced by `'_'`.
pub open spec fn readable(id: Seq<char>) -> Seq<char> {
    Seq::new(id.len(), |i: int| if alphanumeric(id[i]) { id[i] } else { '_' })
}

/// A file-name form of a game id: the readable form, `'_'`, then the id's
/// hash in lowercase hex. The readable form alone is not injective
/// (`A-B` and `A_B` agree); the hash of the real id keeps names apart.
pub open spec fn sanitized(id: Seq<char>) -> Seq<char> {
    readable(id) + seq!['_'] + crate::text::hex_lower(id_hash(id) as nat)
}

/// A file-name form of a game id (games use their folder path as id).
pub fn sanitize_for_filename(id: &str) -> (res: String)
    ensures
        res@ == sanitized(id@),
{
    let chars = str_chars(id);
    let mut out: Vec<char> = Vec::new();
    let mut i: usize = 0;
    while i < chars.len()
        invariant
            i <= chars@.len(),
            chars@ == id@,
            out@ == readable(id@).take(i as int),
        decreases chars.len() - i,
    {
        let c = chars[i];
        if char_is_alphanumeric(c) {
            out.push(c);
        } else {
            out.push('_');
        }
        assert(out@ =~= readable(id@).take(i + 1));
        i = i + 1;
    }
    assert(readable(id@).take(chars@.len() as int) =~= readable(id@));
    out.push('_');
    let hex = format_hex(hash_id(id));
    let mut j: usize = 0;
    let ghost base = out@;
    while j < hex.len()
        invariant
            j <= hex@.len(),
            out@ == base + hex@.take(j as int),
        decreases hex.len() - j,
    {
        out.push(hex[j]);
        assert(hex@.take(j + 1) =~= hex@.take(j as int).push(hex@[j as int]));
        j = j + 1;
    }
    assert(hex@.take(hex@.len() as int) =~= hex@);
    assert(out@ =~= sanitized(id@));
    string_from_chars(out.as_slice())
}

/// `c` is a lowercase hexadecimal digit.
pub open spec fn lower_hex_char(c: char) -> bool {
    ('0' <= c <= '9') || ('a' <= c <= 'f')
}

proof fn lemma_hex_chars(n: nat)
    ensures
        forall|i: int| 0 <= i < crate::text::hex_lower(n).len() ==> lower_hex_char(
            #[trigger] crate::text::hex_lower(n)[i],
        ),
    decreases n,
{
    if n >= 16 {
        vstd::arithmetic::div_mod::lemma_div_decreases(n as int, 16);
        lemma_hex_chars(n / 16);
        let h = crate::text::hex_lower(n);
        let p = crate::text::hex_lower(n / 16);
        assert(h == p + seq![crate::text::digit_of(n % 16, false)]);
        assert forall|i: int| 0 <= i < h.len() implies lower_hex_char(#[trigger] h[i]) by {
            if i < p.len() {
                assert(h[i] == p[i]);
            }
        }
    }
}

/// Artwork file names are file-name safe: every character of a sanitized
/// id is alphanumeric or `'_'` (so no path separator, `':'` or `'.'`); the
/// hash part is lowercase hex digits.
pub proof fn law_sanitized_is_filename_safe(id: Seq<char>)
    ensures
        forall|i: int|
            0 <= i < sanitized(id).len() ==> alphanumeric(#[trigger] sanitized(id)[i]) || sanitized(id)[i]
                == '_',
        forall|i: int|
            readable(id).len() < i < sanitized(id).len() ==> lower_hex_char(#[trigger] sanitized(id)[i]),
{
    lemma_hex_chars(id_hash(id) as nat);
    let r = readable(id);
    let h = crate::text::hex_lower(id_hash(id) as nat);
    let all = sanitized(id);
    assert forall|i: int| 0 <= i < all.len() implies alphanumeric(#[trigger] all[i]) || all[i] == '_' by {
        if i < r.len() {
            assert(all[i] == r[i]);
        } else if i > r.len() {
            assert(all[i] == h[i - r.len() - 1]);
            assert(lower_hex_char(all[i]));
        }
    }
    assert forall|i: int| r.len() < i < all.len() implies lower_hex_char(#[trigger] all[i]) by {
        assert(all[i] == h[i - r.len() - 1]);
    }
}

/// Two game ids share a file name only when they agree both in their
/// readable form and in their 64-bit hash: ids that differ in a character
/// the readable form keeps never collide, and ids that sanitize alike
/// (`A-B` and `A_B`) collide only if their hashes do.
pub proof fn law_sanitized_collides_only_on_equal_parts(a: Seq<char>, b: Seq<char>)
    ensures
        sanitized(a) == sanitized(b) ==> readable(a) == readable(b) && id_hash(a) == id_hash(b),
{
    if sanitized(a) == sanitized(b) {
        let ra = readable(a);
        let rb = readable(b);
        let ha = crate::text::hex_lower(id_hash(a) as nat);
        let hb = crate::text::hex_lower(id_hash(b) as nat);
        let s = sanitized(a);
        lemma_hex_chars(id_hash(a) as nat);
        lemma_hex_chars(id_hash(b) as nat);
        assert(s == ra + seq!['_'] + ha);
        assert(s == rb + seq!['_'] + hb);
        assert(s[ra.len() as int] == '_');
        assert(s[rb.len() as int] == '_');
        if ra.len() < rb.len() {
            assert(s[rb.len() as int] == ha[rb.len() - ra.len() - 1]);
            assert(lower_hex_char(ha[rb.len() - ra.len() - 1]));
        }
        if rb.len() < ra.len() {
            assert(s[ra.len() as int] == hb[ra.len() - rb.len() - 1]);
            assert(lower_hex_char(hb[ra.len() - rb.len() - 1]));
        }
        assert(ra.len() == rb.len());
        assert(ra =~= s.subrange(0, ra.len() as int));
        assert(rb =~= s.subrange(0, rb.len() as int));
        assert(ha =~= s.skip(ra.len() as int + 1));
        assert(hb =~= s.skip(rb.len() as int + 1));
        crate::text::lemma_radix_injective(id_hash(a) as nat, id_hash(b) as nat, 16, false);
    }
}

/// The artwork file name for a game id: its sanitized form plus `.png`.
pub fn artwork_file_name(id: &str) -> (res: String)
    ensures
        res@ == sanitized(id@) + ".png"@,
{
    let base = sanitize_for_filename(id);
    concat_str(base.as_str(), ".png")
}

/// What happened while resolving one game's artwork into its destination
/// file.
#[derive(Debug, Clone, PartialEq, Eq)]
pub enum ArtworkEvent {
    /// Resolution begins.
    Start,
    /// The SteamGridDB lookup finished: whether it wrote the destination.
    SteamGridDbResult(bool),
    /// The local lookup (folder art, then the exe's icon) finished: whether
    /// it wrote the destination.
    LocalResult(bool),
}

/// What artwork resolution does next.
#[derive(Debug, Clone, PartialEq, Eq)]
pub enum ArtworkAction {
    /// Look the game up on SteamGridDB with the key.
    FetchSteamGridDb,
    /// Resolve art locally: folder art first, the exe's icon otherwise.
    ResolveLocal,
    /// Resolution is over, with the artwork file (the destination) or none.
    Finish(Option<String>),
}

/// The finish that a lookup's outcome gives: the destination when the
/// lookup wrote it, no artwork otherwise.
pub open spec fn finished_with(ok: bool, dest: Seq<char>, res: ArtworkAction) -> bool {
    if ok {
        res matches ArtworkAction::Finish(Some(p)) && p@ == dest
    } else {
        res == ArtworkAction::Finish(None)
    }
}

/// The next step of artwork resolution into `dest`: SteamGridDB first when
/// a (reachability-checked) key is available, local art without a key or
/// on any SteamGridDB failure; the artwork handed back is always `dest`.
pub open spec fn artwork_answer(has_key: bool, dest: Seq<char>, event: ArtworkEvent, res: ArtworkAction) -> bool {
    match event {
        ArtworkEvent::Start => res == if has_key {
            ArtworkAction::FetchSteamGridDb
        } else {
            ArtworkAction::ResolveLocal
        },
        ArtworkEvent::SteamGridDbResult(true) => finished_with(true, dest, res),
        ArtworkEvent::SteamGridDbResult(false) => res == ArtworkAction::ResolveLocal,
        ArtworkEvent::LocalResult(ok) => finished_with(ok, dest, res),
    }
}

/// One decision of resolving and writing a game's artwork into `dest`,
/// shared by adding games and refreshing artwork so the fallback chain
/// lives in one place.
pub fn resolve_game_artwork(steamgriddb_key: Option<&str>, dest: &str, event: ArtworkEvent) -> (res:
    ArtworkAction)
    ensures
        artwork_answer(steamgriddb_key is Some, dest@, event, res),
{
    match event {
        ArtworkEvent::Start => match steamgriddb_key {
            Some(_) => ArtworkAction::FetchSteamGridDb,
            None => ArtworkAction::ResolveLocal,
        },
        ArtworkEvent::SteamGridDbResult(true) => ArtworkAction::Finish(Some(dest.to_string())),
        ArtworkEvent::SteamGridDbResult(false) => ArtworkAction::ResolveLocal,
        ArtworkEvent::LocalResult(true) => ArtworkAction::Finish(Some(dest.to_string())),
        ArtworkEvent::LocalResult(false) => ArtworkAction::Finish(None),
    }
}

/// A scanned game the user confirmed for adding.
#[derive(Debug, Clone, PartialEq, Eq)]
pub struct ConfirmedGame {
    pub folder_path: String,
    pub name: String,
    pub exe_path: String,
}

/// What the caller found out on disk for a game being added: its resolved
/// artwork file, its store, and whether its exe exists.
#[derive(Debug, Clone, PartialEq, Eq)]
pub struct GameExtras {
    pub artwork_path: Option<String>,
    pub store: Option<Store>,
    pub available: bool,
}

/// `games[i]` is new: no cataloged game and no earlier candidate has its
/// folder path.
pub open spec fn is_new_at(existing: Seq<Game>, games: Seq<ConfirmedGame>, i: int) -> bool {
    &&& forall|k: int| 0 <= k < existing.len() ==> #[trigger] existing[k].folder_path@ != games[i].folder_path@
    &&& forall|j: int| 0 <= j < i ==> #[trigger] games[j].folder_path@ != games[i].folder_path@
}

/// The catalog entry for a confirmed game: its folder path is its id, and
/// it has no custom artwork yet.
pub open spec fn new_game(g: ConfirmedGame, x: GameExtras) -> Game {
    Game {
        id: g.folder_path,
        name: g.name,
        folder_path: g.folder_path,
        exe_path: g.exe_path,
        artwork_path: x.artwork_path,
        available: x.available,
        has_custom_artwork: false,
        store: x.store,
    }
}

/// The entries the first `n` candidates add, in order.
pub open spec fn added_games(
    existing: Seq<Game>,
    games: Seq<ConfirmedGame>,
    extras: Seq<GameExtras>,
    n: int,
) -> Seq<Game>
    decreases n,
{
    if n <= 0 {
        seq![]
    } else {
        let prev = added_games(existing, games, extras, n - 1);
        if is_new_at(existing, games, n - 1) {
            prev.push(new_game(games[n - 1], extras[n - 1]))
        } else {
            prev
        }
    }
}

fn folder_is_new(existing: &Vec<Game>, games: &Vec<ConfirmedGame>, i: usize) -> (res: bool)
    requires
        i < games@.len(),
    ensures
        res == is_new_at(existing@, games@, i as int),
{
    let f = &games[i].folder_path;
    let mut k: usize = 0;
    while k < existing.len()
        invariant
            k <= existing@.len(),
            i < games@.len(),
            f == games@[i as int].folder_path,
            forall|kk: int| 0 <= kk < k ==> #[trigger] existing@[kk].folder_path@ != games@[i as int].folder_path@,
        decreases existing.len() - k,
    {
        if existing[k].folder_path == *f {
            return false;
        }
        k = k + 1;
    }
    let mut j: usize = 0;
    while j < i
        invariant
            j <= i < games@.len(),
            f == games@[i as int].folder_path,
            forall|jj: int| 0 <= jj < j ==> #[trigger] games@[jj].folder_path@ != games@[i as int].folder_path@,
        decreases i - j,
    {
        if games[j].folder_path == *f {
            return false;
        }
        j = j + 1;
    }
    true
}

/// Which candidates are new to the catalog (`res[i]` for `games[i]`): the
/// caller resolves artwork, store and exe existence for those alone.
pub fn games_to_add(catalog: &Catalog, games: &Vec<ConfirmedGame>) -> (res: Vec<bool>)
    ensures
        res@.len() == games@.len(),
        forall|i: int| 0 <= i < games@.len() ==> #[trigger] res@[i] == is_new_at(catalog.games@, games@, i),
{
    let mut res: Vec<bool> = Vec::new();
    let mut i: usize = 0;
    while i < games.len()
        invariant
            i <= games@.len(),
            res@.len() == i,
            forall|k: int| 0 <= k < i ==> #[trigger] res@[k] == is_new_at(catalog.games@, games@, k),
        decreases games.len() - i,
    {
        res.push(folder_is_new(&catalog.games, games, i));
        i = i + 1;
    }
    res
}

/// Adds the confirmed candidates to the catalog, skipping any whose folder
/// path is already cataloged (or appeared earlier in `games`), so nothing
/// is ever duplicated. `extras[i]` holds what the caller resolved on disk
/// for `games[i]`; it is ignored for a skipped candidate. Returns how many
/// games were added; existing games, bindings and settings are untouched.
pub fn add_confirmed_games(
    catalog: &mut Catalog,
    games: Vec<ConfirmedGame>,
    extras: Vec<GameExtras>,
) -> (added: usize)
    requires
        extras@.len() == games@.len(),
    ensures
        final(catalog).version == old(catalog).version,
        final(catalog).settings == old(catalog).settings,
        final(catalog).bindings == old(catalog).bindings,
        final(catalog).games@ == old(catalog).games@ + added_games(
            old(catalog).games@,
            games@,
            extras@,
            games@.len() as int,
        ),
        added == added_games(old(catalog).games@, games@, extras@, games@.len() as int).len(),
        forall|k: int|
            old(catalog).games@.len() <= k < final(catalog).games@.len() ==> exists|i: int|
                0 <= i < games@.len() && {
                    let e = #[trigger] final(catalog).games@[k];
                    &&& e.id == (#[trigger] games@[i]).folder_path
                    &&& e.name == games@[i].name
                    &&& e.folder_path == games@[i].folder_path
                    &&& e.exe_path == games@[i].exe_path
                    &&& e.artwork_path == extras@[i].artwork_path
                    &&& e.store == extras@[i].store
                    &&& e.available == extras@[i].available
                    &&& !e.has_custom_artwork
                },
{
    let ghost old_games = catalog.games@;
    let existing = catalog.games.len();
    let mut added: usize = 0;
    let mut i: usize = 0;
    while i < games.len()
        invariant
            i <= games@.len() == extras@.len(),
            old_games == old(catalog).games@,
            existing == old_games.len(),
            catalog.version == old(catalog).version,
            catalog.settings == old(catalog).settings,
            catalog.bindings == old(catalog).bindings,
            catalog.games@ == old_games + added_games(old_games, games@, extras@, i as int),
            added == added_games(old_games, games@, extras@, i as int).len(),
            added <= i,
        decreases games.len() - i,
    {
        let ghost cur = catalog.games@;
        let new = folder_is_new_prefix(&catalog.games, existing, &games, i);
        assert(cur.subrange(0, existing as int) =~= old_games);
        if new {
            let g = &games[i];
            let x = &extras[i];
            let game = Game {
                id: g.folder_path.clone(),
                name: g.name.clone(),
                folder_path: g.folder_path.clone(),
                exe_path: g.exe_path.clone(),
                artwork_path: clone_opt_string(&x.artwork_path),
                available: x.available,
                has_custom_artwork: false,
                store: x.store,
            };
            catalog.games.push(game);
            added = added + 1;
            assert(catalog.games@ =~= old_games + added_games(old_games, games@, extras@, i + 1));
        }
        i = i + 1;
    }
    proof {
        let ghost og = old(catalog).games@;
        law_added_games_come_from_candidates(og, games@, extras@, games@.len() as int);
        let ad = added_games(og, games@, extras@, games@.len() as int);
        assert forall|k: int| og.len() <= k < catalog.games@.len() implies exists|i: int|
            0 <= i < games@.len() && {
                let e = #[trigger] catalog.games@[k];
                &&& e.id == (#[trigger] games@[i]).folder_path
                &&& e.name == games@[i].name
                &&& e.folder_path == games@[i].folder_path
                &&& e.exe_path == games@[i].exe_path
                &&& e.artwork_path == extras@[i].artwork_path
                &&& e.store == extras@[i].store
                &&& e.available == extras@[i].available
                &&& !e.has_custom_artwork
            } by {
            assert(catalog.games@[k] == ad[k - og.len()]);
        }
    }
    added
}

/// `is_new_at` checked against the first `existing` games of `current`.
fn folder_is_new_prefix(current: &Vec<Game>, existing: usize, games: &Vec<ConfirmedGame>, i: usize) -> (res: bool)
    requires
        i < games@.len(),
        existing <= current@.len(),
    ensures
        res == is_new_at(current@.subrange(0, existing as int), games@, i as int),
{
    let f = &games[i].folder_path;
    let ghost prefix = current@.subrange(0, existing as int);
    let mut k: usize = 0;
    while k < existing
        invariant
            k <= existing <= current@.len(),
            i < games@.len(),
            prefix == current@.subrange(0, existing as int),
            f == games@[i as int].folder_path,
            forall|kk: int| 0 <= kk < k ==> #[trigger] prefix[kk].folder_path@ != games@[i as int].folder_path@,
        decreases existing - k,
    {
        if current[k].folder_path == *f {
            assert(prefix[k as int] == current@[k as int]);
            return false;
        }
        assert(prefix[k as int] == current@[k as int]);
        k = k + 1;
    }
    let mut j: usize = 0;
    while j < i
        invariant
            j <= i < games@.len(),
            f == games@[i as int].folder_path,
            forall|jj: int| 0 <= jj < j ==> #[trigger] games@[jj].folder_path@ != games@[i as int].folder_path@,
        decreases i - j,
    {
        if games[j].folder_path == *f {
            return false;
        }
        j = j + 1;
    }
    true
}

/// Artwork resolution ends in one of two ways: with a key and a
/// successful SteamGridDB lookup it finishes with the destination and never
/// touches local art; otherwise (no key, or any SteamGridDB failure) it
/// resolves local art and finishes with the destination when that wrote
/// it, with no artwork when it did not.
pub proof fn law_artwork_fallback_chain(
    has_key: bool,
    dest: Seq<char>,
    grid_ok: bool,
    local_ok: bool,
    first: ArtworkAction,
    after_grid: ArtworkAction,
    after_local: ArtworkAction,
)
    requires
        artwork_answer(has_key, dest, ArtworkEvent::Start, first),
        artwork_answer(has_key, dest, ArtworkEvent::SteamGridDbResult(grid_ok), after_grid),
        artwork_answer(has_key, dest, ArtworkEvent::LocalResult(local_ok), after_local),
    ensures
        has_key ==> first == ArtworkAction::FetchSteamGridDb,
        !has_key ==> first == ArtworkAction::ResolveLocal,
        grid_ok ==> (after_grid matches ArtworkAction::Finish(Some(p)) && p@ == dest),
        !grid_ok ==> after_grid == ArtworkAction::ResolveLocal,
        local_ok ==> (after_local matches ArtworkAction::Finish(Some(p)) && p@ == dest),
        !local_ok ==> after_local == ArtworkAction::Finish(None),
{
}

/// Every entry an add appends comes from one new candidate and carries it
/// unchanged: its id and folder are the candidate's folder path, its name
/// and exe path are the candidate's, its artwork, store and availability
/// are what the caller resolved for that candidate, and it has no custom
/// artwork. The candidate was new: no cataloged game and no earlier
/// candidate had its folder.
pub proof fn law_added_games_come_from_candidates(
    existing: Seq<Game>,
    games: Seq<ConfirmedGame>,
    extras: Seq<GameExtras>,
    n: int,
)
    requires
        0 <= n <= games.len(),
        extras.len() == games.len(),
    ensures
        forall|k: int|
            0 <= k < added_games(existing, games, extras, n).len() ==> exists|i: int|
                0 <= i < n && is_new_at(existing, games, i) && {
                    let e = #[trigger] added_games(existing, games, extras, n)[k];
                    &&& e.id == games[i].folder_path
                    &&& e.name == games[i].name
                    &&& e.folder_path == games[i].folder_path
                    &&& e.exe_path == games[i].exe_path
                    &&& e.artwork_path == extras[i].artwork_path
                    &&& e.store == extras[i].store
                    &&& e.available == extras[i].available
                    &&& !e.has_custom_artwork
                },
    decreases n,
{
    if n > 0 {
        law_added_games_come_from_candidates(existing, games, extras, n - 1);
        let prev = added_games(existing, games, extras, n - 1);
        let cur = added_games(existing, games, extras, n);
        assert forall|k: int| 0 <= k < cur.len() implies exists|i: int|
            0 <= i < n && is_new_at(existing, games, i) && {
                let e = #[trigger] cur[k];
                &&& e.id == games[i].folder_path
                &&& e.name == games[i].name
                &&& e.folder_path == games[i].folder_path
                &&& e.exe_path == games[i].exe_path
                &&& e.artwork_path == extras[i].artwork_path
                &&& e.store == extras[i].store
                &&& e.available == extras[i].available
                &&& !e.has_custom_artwork
            } by {
            if k < prev.len() {
                assert(cur[k] == prev[k]);
                let i = choose|i: int|
                    0 <= i < n - 1 && is_new_at(existing, games, i) && {
                        let e = #[trigger] prev[k];
                        &&& e.id == games[i].folder_path
                        &&& e.name == games[i].name
                        &&& e.folder_path == games[i].folder_path
                        &&& e.exe_path == games[i].exe_path
                        &&& e.artwork_path == extras[i].artwork_path
                        &&& e.store == extras[i].store
                        &&& e.available == extras[i].available
                        &&& !e.has_custom_artwork
                    };
                assert(0 <= i < n);
            } else {
                assert(is_new_at(existing, games, n - 1));
                assert(cur[k] == new_game(games[n - 1], extras[n - 1]));
            }
        }
    }
}

/// No two games share a folder path.
pub open spec fn unique_folders(games: Seq<Game>) -> bool {
    forall|i: int, j: int|
        0 <= i < j < games.len() ==> #[trigger] games[i].folder_path@ != #[trigger] games[j].folder_path@
}

proof fn lemma_added_from_candidates(
    existing: Seq<Game>,
    games: Seq<ConfirmedGame>,
    extras: Seq<GameExtras>,
    n: int,
)
    requires
        0 <= n <= games.len(),
        extras.len() == games.len(),
    ensures
        forall|k: int|
            #![trigger added_games(existing, games, extras, n)[k]]
            0 <= k < added_games(existing, games, extras, n).len() ==> exists|i: int|
                0 <= i < n && added_games(existing, games, extras, n)[k].folder_path == #[trigger] games[i].folder_path,
    decreases n,
{
    if n > 0 {
        lemma_added_from_candidates(existing, games, extras, n - 1);
        let prev = added_games(existing, games, extras, n - 1);
        let cur = added_games(existing, games, extras, n);
        assert forall|k: int| #![trigger cur[k]] 0 <= k < cur.len() implies exists|i: int|
            0 <= i < n && cur[k].folder_path == #[trigger] games[i].folder_path by {
            if k < prev.len() {
                assert(cur[k] == prev[k]);
                let i = choose|i: int| 0 <= i < n - 1 && prev[k].folder_path == #[trigger] games[i].folder_path;
                assert(games[i].folder_path == cur[k].folder_path);
            } else {
                assert(cur[k].folder_path == games[n - 1].folder_path);
            }
        }
    }
}

/// Adding confirmed games never duplicates a folder: a catalog whose games
/// have distinct folder paths keeps that property, whatever the batch
/// holds (repeats included).
pub proof fn law_add_keeps_folders_unique(
    existing: Seq<Game>,
    games: Seq<ConfirmedGame>,
    extras: Seq<GameExtras>,
    n: int,
)
    requires
        unique_folders(existing),
        0 <= n <= games.len(),
        extras.len() == games.len(),
    ensures
        unique_folders(existing + added_games(existing, games, extras, n)),
    decreases n,
{
    if n > 0 {
        law_add_keeps_folders_unique(existing, games, extras, n - 1);
        lemma_added_from_candidates(existing, games, extras, n - 1);
        let prev = existing + added_games(existing, games, extras, n - 1);
        let all = existing + added_games(existing, games, extras, n);
        if is_new_at(existing, games, n - 1) {
            let g = games[n - 1];
            assert(all =~= prev.push(new_game(g, extras[n - 1])));
            assert forall|i: int, j: int| 0 <= i < j < all.len() implies #[trigger] all[i].folder_path@
                != #[trigger] all[j].folder_path@ by {
                if j == all.len() - 1 {
                    if i < existing.len() {
                        assert(all[i] == existing[i]);
                    } else {
                        let k = i - existing.len();
                        let added = added_games(existing, games, extras, n - 1);
                        assert(all[i] == added[k]);
                        let m = choose|m: int| 0 <= m < n - 1 && added[k].folder_path == #[trigger] games[m].folder_path;
                        assert(games[m].folder_path@ != g.folder_path@);
                    }
                } else {
                    assert(all[i] == prev[i]);
                    assert(all[j] == prev[j]);
                }
            }
        } else {
            assert(all =~= prev);
        }
    } else {
        assert(existing + added_games(existing, games, extras, n) =~= existing);
    }
}

/// Rescanning twice with the same disk state changes nothing more than
/// rescanning once: availability does not depend on the recorded flag.
pub proof fn law_rescan_idempotent(game: Game, exe_exists: bool, roots: Seq<Seq<char>>)
    ensures
        ({
            let once = Game { available: availability(game, exe_exists, roots), ..game };
            Game { available: availability(once, exe_exists, roots), ..once } == once
        }),
{
}

/// A copy of an optional string.
fn clone_opt_string(s: &Option<String>) -> (res: Option<String>)
    ensures
        res == *s,
{
    match s {
        Some(v) => Some(v.clone()),
        None => None,
    }
}

} // verus!
