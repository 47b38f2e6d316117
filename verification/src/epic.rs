//! Epic Games Launcher: reading installed-game manifests, finding a
//! portrait poster in them, matching running windows, and planning a launch.
use vstd::prelude::*;
use crate::json::{
    as_text, json_document, object_get, object_get_exec, object_get_first, object_get_first_exec,
    parse_json, JsonValue,
};
use crate::paths::{has_extension, has_extension_exec, is_absolute, is_absolute_exec, join, join_exec};
use crate::process::{first_match, first_match_exec, AppInfo};
use crate::text::{
    char_views, chars_of, has_substring, has_substring_exec, lower, starts_with, starts_with_exec, string_of,
    to_lower,
};

verus! {

/// An installed Epic game.
#[derive(Clone, Debug)]
pub struct EpicGame {
    pub app_name: String,
    pub display_name: String,
    pub install_location: String,
    pub launch_executable: String,
    pub manifest_path: String,
    pub poster_url: Option<String>,
}

/// An installed Epic game whose window is open.
#[derive(Clone, Debug)]
pub struct RunningEpicGame {
    pub app_name: String,
    pub display_name: String,
    pub pid: u32,
    pub exe_path: String,
}

pub open spec fn opt_view(o: Option<String>) -> Option<Seq<char>> {
    match o {
        Some(s) => Some(s@),
        None => None,
    }
}

/// Epic manifests are `*.item` files (extension compared ignoring ASCII case).
pub open spec fn manifest_file(path: Seq<char>) -> bool {
    has_extension(path, "item"@)
}

/// Text that names a portrait image.
pub open spec fn portrait_hint(s: Seq<char>) -> bool {
    let l = lower(s);
    ||| has_substring(l, "portrait"@)
    ||| has_substring(l, "vertical"@)
    ||| has_substring(l, "tall"@)
    ||| has_substring(l, "poster"@)
    ||| has_substring(l, "boxtall"@)
    ||| has_substring(l, "600x900"@)
    ||| has_substring(l, "900x1200"@)
    ||| has_substring(l, "1200x1600"@)
}

/// An http(s) URL that mentions an image file type.
pub open spec fn image_url(s: Seq<char>) -> bool {
    let l = lower(s);
    &&& (starts_with(l, "http://"@) || starts_with(l, "https://"@))
    &&& (has_substring(l, ".jpg"@) || has_substring(l, ".jpeg"@) || has_substring(l, ".png"@)
        || has_substring(l, ".webp"@) || has_substring(l, ".avif"@))
}

pub open spec fn type_keys() -> Seq<Seq<char>> {
    seq!["type"@, "Type"@]
}

pub open spec fn url_keys() -> Seq<Seq<char>> {
    seq!["url"@, "Url"@, "src"@, "Src"@, "imageUrl"@, "ImageUrl"@]
}

/// The URL an object itself names as a portrait: its `type` and `url`
/// members (first present of their spellings) are both strings, the type is
/// a portrait hint and the URL an image URL.
pub open spec fn object_own_url(entries: Seq<(String, JsonValue)>) -> Seq<Seq<char>> {
    match (as_text(object_get_first(entries, type_keys())), as_text(
        object_get_first(entries, url_keys()),
    )) {
        (Some(t), Some(u)) => if portrait_hint(t) && image_url(u) {
            seq![u]
        } else {
            Seq::empty()
        },
        _ => Seq::empty(),
    }
}

/// Portrait URL candidates of a JSON value in document order; `hint` says
/// that some enclosing member's key is a portrait hint.
pub open spec fn portrait_urls(v: JsonValue, hint: bool) -> Seq<Seq<char>>
    decreases v,
{
    match v {
        JsonValue::Object(entries) => object_own_url(entries@) + portrait_urls_entries(
            entries@,
            hint,
        ),
        JsonValue::Array(items) => portrait_urls_items(items@, hint),
        JsonValue::Str(s) => if image_url(s@) && (hint || portrait_hint(s@)) {
            seq![s@]
        } else {
            Seq::empty()
        },
        _ => Seq::empty(),
    }
}

pub open spec fn portrait_urls_items(items: Seq<JsonValue>, hint: bool) -> Seq<Seq<char>>
    decreases items,
{
    if items.len() == 0 {
        Seq::empty()
    } else {
        portrait_urls_items(items.drop_last(), hint) + portrait_urls(items.last(), hint)
    }
}

pub open spec fn portrait_urls_entries(entries: Seq<(String, JsonValue)>, hint: bool) -> Seq<
    Seq<char>,
>
    decreases entries,
{
    if entries.len() == 0 {
        Seq::empty()
    } else {
        portrait_urls_entries(entries.drop_last(), hint) + portrait_urls(
            entries.last().1,
            hint || portrait_hint(entries.last().0@),
        )
    }
}

/// The first portrait candidate of a manifest document.
pub open spec fn portrait_url(v: JsonValue) -> Option<Seq<char>> {
    let urls = portrait_urls(v, false);
    if urls.len() > 0 {
        Some(urls[0])
    } else {
        None
    }
}

/// The four fields of an Epic manifest (`AppName`, `DisplayName`,
/// `InstallLocation`, `LaunchExecutable`) as its derived deserializer reads
/// them, each empty when absent.
#[derive(Clone, Debug)]
pub struct ManifestFields {
    pub app_name: String,
    pub display_name: String,
    pub install_location: String,
    pub launch_executable: String,
}

/// What the poster search reads of a manifest's text: the first portrait
/// candidate of the parsed document, none when the text does not parse.
pub open spec fn manifest_poster(content: Seq<char>) -> Option<Seq<char>> {
    match json_document(content) {
        Some(v) => portrait_url(v),
        None => None,
    }
}

/// The game that a manifest at `path` with these fields and this text
/// describes: none when the install location is empty.
pub open spec fn game_of_manifest(path: Seq<char>, f: ManifestFields, content: Seq<char>) -> Option<(Seq<char>, Seq<char>, Seq<char>, Seq<char>, Seq<char>, Option<Seq<char>>)> {
    if f.install_location@.len() == 0 {
        None
    } else {
        Some((f.app_name@, f.display_name@, f.install_location@, f.launch_executable@, path, manifest_poster(content)))
    }
}

pub open spec fn game_view(g: EpicGame) -> (Seq<char>, Seq<char>, Seq<char>, Seq<char>, Seq<char>, Option<Seq<char>>) {
    (g.app_name@, g.display_name@, g.install_location@, g.launch_executable@, g.manifest_path@, opt_view(g.poster_url))
}

/// Whether a path names an Epic manifest file.
pub fn is_epic_manifest_file(path: &str) -> (r: bool)
    ensures
        r == manifest_file(path@),
{
    let p = chars_of(path);
    let ext = chars_of("item");
    has_extension_exec(&p, &ext)
}

fn contains_lit(l: &Vec<char>, lit: &str) -> (r: bool)
    ensures
        r == has_substring(l@, lit@),
{
    let n = chars_of(lit);
    has_substring_exec(l, &n)
}

/// Whether text names a portrait image.
pub fn is_portrait_hint(s: &str) -> (r: bool)
    ensures
        r == portrait_hint(s@),
{
    let c = chars_of(s);
    let l = to_lower(&c);
    contains_lit(&l, "portrait") || contains_lit(&l, "vertical") || contains_lit(&l, "tall")
        || contains_lit(&l, "poster") || contains_lit(&l, "boxtall") || contains_lit(&l, "600x900")
        || contains_lit(&l, "900x1200") || contains_lit(&l, "1200x1600")
}

/// Whether text is an http(s) URL of an image.
pub fn looks_like_image_url(s: &str) -> (r: bool)
    ensures
        r == image_url(s@),
{
    let c = chars_of(s);
    let l = to_lower(&c);
    let http = chars_of("http://");
    let https = chars_of("https://");
    (starts_with_exec(&l, &http) || starts_with_exec(&l, &https)) && (contains_lit(&l, ".jpg")
        || contains_lit(&l, ".jpeg") || contains_lit(&l, ".png") || contains_lit(&l, ".webp")
        || contains_lit(&l, ".avif"))
}

pub open spec fn views(v: Seq<String>) -> Seq<Seq<char>> {
    v.map_values(|s: String| s@)
}

fn object_own_url_exec(entries: &Vec<(String, JsonValue)>) -> (r: Option<String>)
    ensures
        match r {
            Some(u) => object_own_url(entries@) == seq![u@],
            None => object_own_url(entries@) == Seq::<Seq<char>>::empty(),
        },
{
    let mut tk: Vec<&str> = Vec::new();
    tk.push("type");
    tk.push("Type");
    let mut uk: Vec<&str> = Vec::new();
    uk.push("url");
    uk.push("Url");
    uk.push("src");
    uk.push("Src");
    uk.push("imageUrl");
    uk.push("ImageUrl");
    assert(tk@.map_values(|k: &str| k@) =~= type_keys());
    assert(uk@.map_values(|k: &str| k@) =~= url_keys());
    let t = object_get_first_exec(entries, &tk);
    let u = object_get_first_exec(entries, &uk);
    match (t, u) {
        (Some(JsonValue::Str(t)), Some(JsonValue::Str(u))) => {
            if is_portrait_hint(t.as_str()) && looks_like_image_url(u.as_str()) {
                Some(u.clone())
            } else {
                None
            }
        },
        _ => None,
    }
}

/// Appends the portrait URL candidates of `v` to `out`.
pub fn collect_epic_portrait_urls(v: &JsonValue, key_is_portrait_hint: bool, out: &mut Vec<String>)
    ensures
        views(final(out)@) == views(old(out)@) + portrait_urls(*v, key_is_portrait_hint),
    decreases v,
{
    match v {
        JsonValue::Object(entries) => {
            let own = object_own_url_exec(entries);
            match own {
                Some(u) => {
                    out.push(u);
                },
                None => {},
            }
            assert(views(out@) =~= views(old(out)@) + object_own_url(entries@));
            let n = entries.len();
            for i in 0..n
                invariant
                    n == entries.len(),
                    *v == JsonValue::Object(*entries),
                    views(out@) =~= views(old(out)@) + object_own_url(entries@)
                        + portrait_urls_entries(entries@.take(i as int), key_is_portrait_hint),
            {
                let ghost before = out@;
                let key_hint = key_is_portrait_hint || is_portrait_hint(entries[i].0.as_str());
                proof {
                    assert(decreases_to!(*v => (*v)->Object_0));
                    vstd::std_specs::vec::axiom_vec_index_decreases(*entries, i as int);
                    assert(decreases_to!(entries@[i as int] => entries@[i as int].1));
                    assert(decreases_to!(*v => entries@[i as int].1));
                }
                collect_epic_portrait_urls(&entries[i].1, key_hint, out);
                assert(entries@.take(i + 1).drop_last() =~= entries@.take(i as int));
            }
            assert(entries@.take(n as int) =~= entries@);
        },
        JsonValue::Array(items) => {
            let n = items.len();
            for i in 0..n
                invariant
                    n == items.len(),
                    *v == JsonValue::Array(*items),
                    views(out@) =~= views(old(out)@) + portrait_urls_items(
                        items@.take(i as int),
                        key_is_portrait_hint,
                    ),
            {
                proof {
                    assert(decreases_to!(*v => (*v)->Array_0));
                    vstd::std_specs::vec::axiom_vec_index_decreases(*items, i as int);
                    assert(decreases_to!(*v => items@[i as int]));
                }
                collect_epic_portrait_urls(&items[i], key_is_portrait_hint, out);
                assert(items@.take(i + 1).drop_last() =~= items@.take(i as int));
            }
            assert(items@.take(n as int) =~= items@);
        },
        JsonValue::Str(s) => {
            if looks_like_image_url(s.as_str()) && (key_is_portrait_hint || is_portrait_hint(
                s.as_str(),
            )) {
                out.push(s.clone());
            }
            assert(views(out@) =~= views(old(out)@) + portrait_urls(*v, key_is_portrait_hint));
        },
        _ => {
            assert(views(out@) =~= views(old(out)@) + portrait_urls(*v, key_is_portrait_hint));
        },
    }
}

/// The first portrait URL candidate of a manifest document.
pub fn extract_epic_portrait_url(manifest_json: &JsonValue) -> (r: Option<String>)
    ensures
        opt_view(r) == portrait_url(*manifest_json),
{
    let mut candidates: Vec<String> = Vec::new();
    collect_epic_portrait_urls(manifest_json, false, &mut candidates);
    assert(views(candidates@) =~= portrait_urls(*manifest_json, false));
    if candidates.len() > 0 {
        let first = candidates[0].clone();
        assert(views(candidates@)[0] == candidates@[0]@);
        Some(first)
    } else {
        None
    }
}

/// The game that a manifest file describes, given its path, the fields its
/// derived deserializer read and its text (for the poster); `None` when it
/// names no install location.
pub fn epic_game_from_manifest(path: &str, fields: &ManifestFields, content: &str) -> (r: Option<EpicGame>)
    ensures
        match r {
            Some(g) => game_of_manifest(path@, *fields, content@) == Some(game_view(g)),
            None => game_of_manifest(path@, *fields, content@) is None,
        },
{
    if fields.install_location.as_str().is_empty() {
        return None;
    }
    let poster_url = match parse_json(content) {
        Some(v) => extract_epic_portrait_url(&v),
        None => None,
    };
    Some(
        EpicGame {
            app_name: fields.app_name.clone(),
            display_name: fields.display_name.clone(),
            install_location: fields.install_location.clone(),
            launch_executable: fields.launch_executable.clone(),
            manifest_path: String::from_str(path),
            poster_url,
        },
    )
}

/// A manifest file as read: its text and the fields its derived
/// deserializer read from it (`None` when that deserializer rejected it).
pub type ManifestRead = (Option<ManifestFields>, String);

/// The game a directory entry describes: the entry must name an Epic
/// manifest file, have been read and deserialized, and describe a game.
pub open spec fn manifest_game(m: (String, Option<ManifestRead>)) -> Option<(Seq<char>, Seq<char>, Seq<char>, Seq<char>, Seq<char>, Option<Seq<char>>)> {
    if manifest_file(m.0@) {
        match m.1 {
            Some((Some(f), c)) => game_of_manifest(m.0@, f, c@),
            _ => None,
        }
    } else {
        None
    }
}

/// The installed games of the manifest directory, given its entries in
/// directory order, each with what was read from it: the entries that are
/// `.item` files and describe a game, in order.
pub fn get_installed_epic_games(entries: &Vec<(String, Option<ManifestRead>)>) -> (r: Vec<EpicGame>)
    ensures
        r@.map_values(|g: EpicGame| game_view(g)) == entries@.filter_map(|m: (String, Option<ManifestRead>)| manifest_game(m)),
        forall|i: int| 0 <= i < r@.len() ==> manifest_file((#[trigger] r@[i]).manifest_path@),
{
    let mut games: Vec<EpicGame> = Vec::new();
    let n = entries.len();
    for i in 0..n
        invariant
            n == entries.len(),
            games@.map_values(|g: EpicGame| game_view(g)) == entries@.take(i as int).filter_map(
                |m: (String, Option<ManifestRead>)| manifest_game(m),
            ),
            forall|j: int| 0 <= j < games@.len() ==> manifest_file((#[trigger] games@[j]).manifest_path@),
    {
        let ghost prev = games@;
        assert(entries@.take(i + 1).drop_last() =~= entries@.take(i as int));
        assert(entries@.take(i + 1).last() == entries@[i as int]);
        let path = entries[i].0.as_str();
        if is_epic_manifest_file(path) {
            match &entries[i].1 {
                Some((Some(fields), content)) => {
                    match epic_game_from_manifest(path, fields, content.as_str()) {
                        Some(g) => {
                            games.push(g);
                            assert(games@.map_values(|g: EpicGame| game_view(g)) =~= prev.map_values(
                                |g: EpicGame| game_view(g),
                            ) + seq![game_view(games@.last())]);
                            assert forall|j: int| 0 <= j < games@.len() implies manifest_file((#[trigger] games@[j]).manifest_path@) by {
                                if j < prev.len() {
                                    assert(games@[j] == prev[j]);
                                }
                            }
                        },
                        None => {},
                    }
                },
                _ => {},
            }
        }
    }
    assert(entries@.take(n as int) =~= entries@);
    games
}

pub open spec fn install_dirs(games: Seq<EpicGame>) -> Seq<Seq<char>> {
    games.map_values(|g: EpicGame| g.install_location@)
}

/// The running-game record for a window, when its executable lies under the
/// first installed game (in order) with a non-empty install location that
/// occurs in it, ignoring ASCII case.
pub open spec fn running_epic_of(games: Seq<EpicGame>, a: AppInfo) -> Option<RunningEpicGame> {
    match first_match(a.path@, install_dirs(games), true) {
        Some(i) => Some(
            RunningEpicGame {
                app_name: games[i].app_name,
                display_name: games[i].display_name,
                pid: a.pid,
                exe_path: a.path,
            },
        ),
        None => None,
    }
}

/// The running records of a window list.
pub open spec fn running_epic_list(games: Seq<EpicGame>, apps: Seq<AppInfo>) -> Seq<RunningEpicGame> {
    apps.filter_map(|a: AppInfo| running_epic_of(games, a))
}

/// The installed games that have an open window, one record per matching
/// window, in window order.
pub fn get_running_epic_games(games: &Vec<EpicGame>, apps: &Vec<AppInfo>) -> (r: Vec<
    RunningEpicGame,
>)
    ensures
        r@ == running_epic_list(games@, apps@),
{
    let mut dirs: Vec<Vec<char>> = Vec::new();
    let ng = games.len();
    for k in 0..ng
        invariant
            ng == games.len(),
            char_views(dirs@) == install_dirs(games@.take(k as int)),
    {
        let ghost prev = dirs@;
        assert(char_views(prev).len() == prev.len());
        assert(install_dirs(games@.take(k as int)).len() == k);
        let x = chars_of(games[k].install_location.as_str());
        dirs.push(x);
        assert(dirs@ == prev.push(x));
        assert forall|j: int| 0 <= j < k + 1 implies #[trigger] char_views(dirs@)[j]
            == install_dirs(games@.take(k + 1))[j] by {
            if j < k {
                assert(char_views(prev)[j] == install_dirs(games@.take(k as int))[j]);
            }
        }
        assert(char_views(dirs@) =~= install_dirs(games@.take(k + 1)));
    }
    assert(games@.take(ng as int) =~= games@);
    let mut running: Vec<RunningEpicGame> = Vec::new();
    let n = apps.len();
    for i in 0..n
        invariant
            n == apps.len(),
            char_views(dirs@) == install_dirs(games@),
            install_dirs(games@).len() == games@.len(),
            running@ == apps@.take(i as int).filter_map(|a: AppInfo| running_epic_of(games@, a)),
    {
        assert(apps@.take(i + 1).drop_last() =~= apps@.take(i as int));
        assert(apps@.take(i + 1).last() == apps@[i as int]);
        let path = chars_of(apps[i].path.as_str());
        match first_match_exec(&path, &dirs, true) {
            Some(j) => {
                proof {
                    crate::process::lemma_first_match_range(path@, install_dirs(games@), true);
                }
                running.push(
                    RunningEpicGame {
                        app_name: games[j].app_name.clone(),
                        display_name: games[j].display_name.clone(),
                        pid: apps[i].pid,
                        exe_path: apps[i].path.clone(),
                    },
                );
                assert(running@ =~= apps@.take(i + 1).filter_map(
                    |a: AppInfo| running_epic_of(games@, a),
                ));
            },
            None => {},
        }
    }
    assert(apps@.take(n as int) =~= apps@);
    running
}

/// The title shown for an Epic game: its display name, or its app name
/// when the display name is empty.
pub fn epic_title(game: &EpicGame) -> (r: String)
    ensures
        r@ == (if game.display_name@.len() > 0 {
            game.display_name@
        } else {
            game.app_name@
        }),
{
    if !game.display_name.as_str().is_empty() {
        game.display_name.clone()
    } else {
        game.app_name.clone()
    }
}

/// How to start an Epic game: first the launcher URI (when the game has an
/// app name), then, if that cannot be started, the executable itself.
#[derive(Clone, Debug)]
pub struct EpicLaunchPlan {
    pub uri: Option<String>,
    pub program: String,
    pub working_dir: Option<String>,
}

/// The program to run: the launch executable when it is absolute, else
/// joined to the install location.
pub open spec fn epic_program(g: EpicGame) -> Seq<char> {
    if is_absolute(g.launch_executable@) {
        g.launch_executable@
    } else {
        join(g.install_location@, g.launch_executable@)
    }
}

pub open spec fn epic_uri(app_name: Seq<char>) -> Seq<char> {
    "com.epicgames.launcher://apps/"@ + app_name + "?action=launch&silent=true"@
}

/// The launch plan of `launch_epic_game`.
pub fn epic_launch_plan(game: &EpicGame) -> (r: EpicLaunchPlan)
    ensures
        opt_view(r.uri) == (if game.app_name@.len() > 0 {
            Some(epic_uri(game.app_name@))
        } else {
            None
        }),
        r.program@ == epic_program(*game),
        opt_view(r.working_dir) == (if game.install_location@.len() > 0 {
            Some(game.install_location@)
        } else {
            None
        }),
{
    let uri = if !game.app_name.as_str().is_empty() {
        let u = String::from_str("com.epicgames.launcher://apps/").concat(game.app_name.as_str()).concat(
            "?action=launch&silent=true",
        );
        Some(u)
    } else {
        None
    };
    let launch = chars_of(game.launch_executable.as_str());
    let program = if is_absolute_exec(&launch) {
        game.launch_executable.clone()
    } else {
        let base = chars_of(game.install_location.as_str());
        string_of(&join_exec(&base, &launch))
    };
    let working_dir = if !game.install_location.as_str().is_empty() {
        Some(game.install_location.clone())
    } else {
        None
    };
    EpicLaunchPlan { uri, program, working_dir }
}

proof fn lemma_own_url_is_image(entries: Seq<(String, JsonValue)>)
    ensures
        forall|k: int| 0 <= k < object_own_url(entries).len() ==> image_url(#[trigger] object_own_url(entries)[k]),
{
    let t = as_text(object_get_first(entries, type_keys()));
    let u = as_text(object_get_first(entries, url_keys()));
    if t is Some && u is Some && portrait_hint(t.unwrap()) && image_url(u.unwrap()) {
        assert(object_own_url(entries) == seq![u.unwrap()]);
    } else {
        assert(object_own_url(entries).len() == 0);
    }
}

/// Every portrait candidate of a value is an http(s) image URL.
pub proof fn lemma_portrait_urls_are_images(v: JsonValue, hint: bool)
    ensures
        forall|k: int| 0 <= k < portrait_urls(v, hint).len() ==> image_url(#[trigger] portrait_urls(v, hint)[k]),
    decreases v,
{
    match v {
        JsonValue::Object(entries) => {
            assert(decreases_to!(v => v->Object_0));
            lemma_entries_urls_are_images(entries@, hint);
            lemma_own_url_is_image(entries@);
            let own = object_own_url(entries@);
            let rest = portrait_urls_entries(entries@, hint);
            assert forall|k: int| 0 <= k < portrait_urls(v, hint).len() implies image_url(#[trigger] portrait_urls(v, hint)[k]) by {
                if k < own.len() {
                    assert(portrait_urls(v, hint)[k] == own[k]);
                } else {
                    assert(portrait_urls(v, hint)[k] == rest[k - own.len()]);
                }
            }
        },
        JsonValue::Array(items) => {
            assert(decreases_to!(v => v->Array_0));
            lemma_items_urls_are_images(items@, hint);
            assert(portrait_urls(v, hint) == portrait_urls_items(items@, hint));
        },
        JsonValue::Str(s) => {
            if image_url(s@) && (hint || portrait_hint(s@)) {
                assert(portrait_urls(v, hint) == seq![s@]);
                assert(portrait_urls(v, hint)[0] == s@);
            } else {
                assert(portrait_urls(v, hint).len() == 0);
            }
        },
        _ => {
            assert(portrait_urls(v, hint).len() == 0);
        },
    }
}

proof fn lemma_items_urls_are_images(items: Seq<JsonValue>, hint: bool)
    ensures
        forall|k: int| 0 <= k < portrait_urls_items(items, hint).len() ==> image_url(#[trigger] portrait_urls_items(items, hint)[k]),
    decreases items,
{
    if items.len() > 0 {
        lemma_items_urls_are_images(items.drop_last(), hint);
        lemma_portrait_urls_are_images(items.last(), hint);
        let a = portrait_urls_items(items.drop_last(), hint);
        let b = portrait_urls(items.last(), hint);
        assert forall|k: int| 0 <= k < portrait_urls_items(items, hint).len() implies image_url(#[trigger] portrait_urls_items(items, hint)[k]) by {
            if k < a.len() {
                assert(portrait_urls_items(items, hint)[k] == a[k]);
            } else {
                assert(portrait_urls_items(items, hint)[k] == b[k - a.len()]);
            }
        }
    }
}

proof fn lemma_entries_urls_are_images(entries: Seq<(String, JsonValue)>, hint: bool)
    ensures
        forall|k: int| 0 <= k < portrait_urls_entries(entries, hint).len() ==> image_url(#[trigger] portrait_urls_entries(entries, hint)[k]),
    decreases entries,
{
    if entries.len() > 0 {
        lemma_entries_urls_are_images(entries.drop_last(), hint);
        let h = hint || portrait_hint(entries.last().0@);
        assert(decreases_to!(entries => entries[entries.len() - 1]));
        lemma_portrait_urls_are_images(entries.last().1, h);
        let a = portrait_urls_entries(entries.drop_last(), hint);
        let b = portrait_urls(entries.last().1, h);
        assert forall|k: int| 0 <= k < portrait_urls_entries(entries, hint).len() implies image_url(#[trigger] portrait_urls_entries(entries, hint)[k]) by {
            if k < a.len() {
                assert(portrait_urls_entries(entries, hint)[k] == a[k]);
            } else {
                assert(portrait_urls_entries(entries, hint)[k] == b[k - a.len()]);
            }
        }
    }
}

/// `v` holds the string `s` somewhere: it is `s` itself, or an item of an
/// array or a member value of an object holds it, at any depth.
pub open spec fn holds_string(v: JsonValue, s: Seq<char>) -> bool
    decreases v,
{
    match v {
        JsonValue::Str(t) => t@ == s,
        JsonValue::Array(items) => holds_string_items(items@, s),
        JsonValue::Object(entries) => holds_string_entries(entries@, s),
        _ => false,
    }
}

pub open spec fn holds_string_items(items: Seq<JsonValue>, s: Seq<char>) -> bool
    decreases items,
{
    if items.len() == 0 {
        false
    } else {
        holds_string_items(items.drop_last(), s) || holds_string(items.last(), s)
    }
}

pub open spec fn holds_string_entries(entries: Seq<(String, JsonValue)>, s: Seq<char>) -> bool
    decreases entries,
{
    if entries.len() == 0 {
        false
    } else {
        holds_string_entries(entries.drop_last(), s) || holds_string(entries.last().1, s)
    }
}

/// Under a portrait hint, every image-URL string anywhere beneath a value,
/// through any depth of objects and arrays, is one of its candidates.
pub proof fn law_portrait_hint_reaches_nested_urls(v: JsonValue, s: Seq<char>)
    requires
        image_url(s),
        holds_string(v, s),
    ensures
        portrait_urls(v, true).contains(s),
    decreases v,
{
    match v {
        JsonValue::Object(entries) => {
            assert(decreases_to!(v => v->Object_0));
            lemma_hint_reaches_entries(entries@, s);
            let own = object_own_url(entries@);
            let rest = portrait_urls_entries(entries@, true);
            let k = choose|k: int| 0 <= k < rest.len() && rest[k] == s;
            assert(portrait_urls(v, true) == own + rest);
            assert((own + rest)[own.len() + k] == s);
        },
        JsonValue::Array(items) => {
            assert(decreases_to!(v => v->Array_0));
            lemma_hint_reaches_items(items@, s);
            assert(portrait_urls(v, true) == portrait_urls_items(items@, true));
        },
        JsonValue::Str(t) => {
            assert(portrait_urls(v, true) == seq![s]);
            assert(portrait_urls(v, true)[0] == s);
        },
        _ => {},
    }
}

proof fn lemma_hint_reaches_items(items: Seq<JsonValue>, s: Seq<char>)
    requires
        image_url(s),
        holds_string_items(items, s),
    ensures
        portrait_urls_items(items, true).contains(s),
    decreases items,
{
    let a = portrait_urls_items(items.drop_last(), true);
    let b = portrait_urls(items.last(), true);
    assert(portrait_urls_items(items, true) == a + b);
    if holds_string_items(items.drop_last(), s) {
        lemma_hint_reaches_items(items.drop_last(), s);
        let k = choose|k: int| 0 <= k < a.len() && a[k] == s;
        assert((a + b)[k] == s);
    } else {
        law_portrait_hint_reaches_nested_urls(items.last(), s);
        let k = choose|k: int| 0 <= k < b.len() && b[k] == s;
        assert((a + b)[a.len() + k] == s);
    }
}

proof fn lemma_hint_reaches_entries(entries: Seq<(String, JsonValue)>, s: Seq<char>)
    requires
        image_url(s),
        holds_string_entries(entries, s),
    ensures
        portrait_urls_entries(entries, true).contains(s),
    decreases entries,
{
    let a = portrait_urls_entries(entries.drop_last(), true);
    let b = portrait_urls(entries.last().1, true);
    assert(portrait_urls_entries(entries, true) == a + b);
    if holds_string_entries(entries.drop_last(), s) {
        lemma_hint_reaches_entries(entries.drop_last(), s);
        let k = choose|k: int| 0 <= k < a.len() && a[k] == s;
        assert((a + b)[k] == s);
    } else {
        assert(decreases_to!(entries => entries[entries.len() - 1]));
        law_portrait_hint_reaches_nested_urls(entries.last().1, s);
        let k = choose|k: int| 0 <= k < b.len() && b[k] == s;
        assert((a + b)[a.len() + k] == s);
    }
}

/// A member whose key is a portrait hint makes every image-URL string
/// beneath its value a candidate of the enclosing object, whatever hint the
/// object itself was reached with.
pub proof fn law_portrait_key_reaches_nested_urls(entries: Seq<(String, JsonValue)>, i: int, hint: bool, s: Seq<char>)
    requires
        0 <= i < entries.len(),
        portrait_hint(entries[i].0@),
        image_url(s),
        holds_string(entries[i].1, s),
    ensures
        portrait_urls_entries(entries, hint).contains(s),
    decreases entries.len(),
{
    let a = portrait_urls_entries(entries.drop_last(), hint);
    let h = hint || portrait_hint(entries.last().0@);
    let b = portrait_urls(entries.last().1, h);
    assert(portrait_urls_entries(entries, hint) == a + b);
    if i < entries.len() - 1 {
        assert(entries.drop_last()[i] == entries[i]);
        law_portrait_key_reaches_nested_urls(entries.drop_last(), i, hint, s);
        let k = choose|k: int| 0 <= k < a.len() && a[k] == s;
        assert((a + b)[k] == s);
    } else {
        assert(h);
        law_portrait_hint_reaches_nested_urls(entries.last().1, s);
        let k = choose|k: int| 0 <= k < b.len() && b[k] == s;
        assert((a + b)[a.len() + k] == s);
    }
}

/// A document whose top-level object has a member with a portrait-hint key
/// and an image-URL string anywhere beneath that member's value has a poster.
pub proof fn law_hinted_member_gives_a_poster(v: JsonValue, i: int, s: Seq<char>)
    requires
        v is Object,
        0 <= i < v->Object_0@.len(),
        portrait_hint(v->Object_0@[i].0@),
        image_url(s),
        holds_string(v->Object_0@[i].1, s),
    ensures
        portrait_url(v) is Some,
{
    let entries = v->Object_0@;
    law_portrait_key_reaches_nested_urls(entries, i, false, s);
    let own = object_own_url(entries);
    let rest = portrait_urls_entries(entries, false);
    assert(portrait_urls(v, false) == own + rest);
    assert(rest.len() > 0);
}

/// The poster an Epic manifest yields is always an http(s) image URL.
pub proof fn law_epic_poster_is_image_url(v: JsonValue)
    ensures
        portrait_url(v) matches Some(u) ==> image_url(u),
{
    lemma_portrait_urls_are_images(v, false);
}

/// `r` is the record of window `j` running game `i`: it carries the game's
/// names and the window's process and path, and the game's non-empty
/// install location occurs in that path, ignoring ASCII case.
pub open spec fn epic_record_from(games: Seq<EpicGame>, apps: Seq<AppInfo>, r: RunningEpicGame, i: int, j: int) -> bool {
    &&& 0 <= i < games.len()
    &&& 0 <= j < apps.len()
    &&& r.app_name == games[i].app_name
    &&& r.display_name == games[i].display_name
    &&& r.pid == apps[j].pid
    &&& r.exe_path == apps[j].path
    &&& games[i].install_location@.len() > 0
    &&& has_substring(lower(apps[j].path@), lower(games[i].install_location@))
}

/// `r` is the record of some window running some installed game.
pub open spec fn epic_record_of_some(games: Seq<EpicGame>, apps: Seq<AppInfo>, r: RunningEpicGame) -> bool {
    exists|i: int, j: int| epic_record_from(games, apps, r, i, j)
}

/// Every running Epic record comes from an open window whose executable
/// path contains, ignoring ASCII case, the non-empty install location of an
/// installed game, whose names it carries.
pub proof fn law_running_epic_games_match(games: Seq<EpicGame>, apps: Seq<AppInfo>)
    ensures
        forall|k: int| 0 <= k < running_epic_list(games, apps).len() ==>
            epic_record_of_some(games, apps, #[trigger] running_epic_list(games, apps)[k]),
    decreases apps.len(),
{
    if apps.len() > 0 {
        let p = apps.drop_last();
        law_running_epic_games_match(games, p);
        let rp = running_epic_list(games, p);
        let r = running_epic_list(games, apps);
        let a = apps.last();
        let dirs = install_dirs(games);
        assert(apps == p.push(a));
        assert forall|k: int| 0 <= k < rp.len() implies
            epic_record_of_some(games, apps, #[trigger] rp[k]) by {
            let (i, j) = choose|i: int, j: int| epic_record_from(games, p, rp[k], i, j);
            assert(p[j] == apps[j]);
            assert(epic_record_from(games, apps, rp[k], i, j));
        }
        match first_match(a.path@, dirs, true) {
            Some(i) => {
                assert(crate::process::is_first_match(a.path@, dirs, true, i));
                assert(dirs[i] == games[i].install_location@);
                let rec = running_epic_of(games, a).unwrap();
                assert(r == rp + seq![rec]);
                assert(epic_record_from(games, apps, rec, i, apps.len() - 1));
                assert forall|k: int| 0 <= k < r.len() implies
                    epic_record_of_some(games, apps, #[trigger] r[k]) by {
                    if k < rp.len() {
                        assert(r[k] == rp[k]);
                    } else {
                        assert(r[k] == rec);
                        assert(epic_record_from(games, apps, r[k], i, apps.len() - 1));
                    }
                }
            },
            None => {
                assert(r == rp);
                assert forall|k: int| 0 <= k < r.len() implies
                    epic_record_of_some(games, apps, #[trigger] r[k]) by {
                    assert(r[k] == rp[k]);
                }
            },
        }
    } else {
        assert(running_epic_list(games, apps).len() == 0);
    }
}

} // verus!
