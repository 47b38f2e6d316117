//! Steam: library folders, app manifests and running games.
use vstd::prelude::*;
use crate::paths::{is_sep_exec, file_name, file_name_exec, prefix_len, prefix_len_exec, root_len, root_len_exec, verbatim, win_prefix, win_prefix_exec};
use crate::process::{first_match, first_match_exec, AppInfo};
use crate::text::{
    char_views, chars_eq, chars_of, concat_chars, ends_with, ends_with_exec, has_substring, is_sep, lower,
    slice_chars, split_by, split_chars, starts_with,
    starts_with_exec, string_of, string_views, trim_end_by, trim_end_chars, CharClass,
};

verus! {

/// An installed Steam game, read from its app manifest.
#[derive(Clone, Debug)]
pub struct SteamGame {
    pub appid: String,
    pub name: String,
    pub install_dir: String,
    pub manifest_path: String,
}

/// An installed Steam game whose window is open.
#[derive(Clone, Debug)]
pub struct RunningSteamGame {
    pub appid: String,
    pub name: String,
    pub pid: u32,
    pub exe_path: String,
}

/// Group 1 of the first match of `pattern` in `text`, as the `regex` crate
/// finds it; `None` when the pattern does not compile, does not match, or
/// its group 1 takes no part in the match.
pub uninterp spec fn regex_group(pattern: Seq<char>, text: Seq<char>) -> Option<Seq<char>>;

/// Group 1 of each successive non-overlapping match of `pattern` in `text`,
/// as `regex::Regex::captures_iter` yields the matches (`None` for a match
/// whose group 1 takes no part); empty when the pattern does not compile.
pub uninterp spec fn regex_groups(pattern: Seq<char>, text: Seq<char>) -> Seq<Option<Seq<char>>>;

/// Compiles `pattern` with `regex::Regex::new` and returns group 1 of its
/// first match in `text` (`Regex::captures`, `Captures::get`). The contract
/// claims only that equal arguments give equal results.
#[verifier::external_body]
fn first_group(pattern: &str, text: &str) -> (r: Option<String>)
    ensures
        opt_string_view(r) == regex_group(pattern@, text@),
{
    let re = match regex::Regex::new(pattern) {
        Ok(re) => re,
        Err(_) => return None,
    };
    let caps = re.captures(text)?;
    Some(caps.get(1)?.as_str().to_string())
}

/// Compiles `pattern` with `regex::Regex::new` and returns group 1 of every
/// match in `text` (`Regex::captures_iter`, `Captures::get`). The contract
/// claims only that equal arguments give equal results.
#[verifier::external_body]
fn all_first_groups(pattern: &str, text: &str) -> (r: Vec<Option<String>>)
    ensures
        opt_string_views(r@) == regex_groups(pattern@, text@),
{
    match regex::Regex::new(pattern) {
        Ok(re) => re.captures_iter(text).map(|c| c.get(1).map(|m| m.as_str().to_string())).collect(),
        Err(_) => Vec::new(),
    }
}

pub open spec fn opt_string_view(o: Option<String>) -> Option<Seq<char>> {
    match o {
        Some(s) => Some(s@),
        None => None,
    }
}

pub open spec fn opt_string_views(v: Seq<Option<String>>) -> Seq<Option<Seq<char>>> {
    v.map_values(|o: Option<String>| opt_string_view(o))
}

/// Library paths in `libraryfolders.vdf`.
pub open spec fn library_pattern() -> Seq<char> {
    "path\"\\s*\"([^\"]+)"@
}

pub open spec fn appid_pattern() -> Seq<char> {
    "appid\"\\s*\"(\\d+)"@
}

pub open spec fn name_pattern() -> Seq<char> {
    "name\"\\s*\"([^\"]+)"@
}

pub open spec fn installdir_pattern() -> Seq<char> {
    "installdir\"\\s*\"([^\"]+)"@
}

/// The suffix that turns a Steam folder into its library folder: two
/// backslashes, then `steamapps`.
pub open spec fn steamapps_suffix() -> Seq<char> {
    "\\\\steamapps"@
}

/// The main library folder from the registry's `SteamPath` value: trailing
/// NUL characters removed, then the `steamapps` suffix; none when the value
/// is empty.
pub open spec fn main_library(raw: Seq<char>) -> Option<Seq<char>> {
    let p = trim_end_by(raw, CharClass::Exactly('\0'));
    if p.len() == 0 {
        None
    } else {
        Some(p + steamapps_suffix())
    }
}

/// `s` with each `/` replaced by two backslashes.
pub open spec fn slashes_doubled(s: Seq<char>) -> Seq<char>
    decreases s.len(),
{
    if s.len() == 0 {
        s
    } else {
        slashes_doubled(s.drop_last()) + if s.last() == '/' {
            seq!['\\', '\\']
        } else {
            seq![s.last()]
        }
    }
}

/// A library folder listed in `libraryfolders.vdf`: each slash replaced by
/// two backslashes, then the `steamapps` suffix.
pub open spec fn listed_library(cap: Seq<char>) -> Seq<char> {
    slashes_doubled(cap) + steamapps_suffix()
}

fn double_slashes(s: &Vec<char>) -> (r: Vec<char>)
    ensures
        r@ == slashes_doubled(s@),
{
    let mut out: Vec<char> = Vec::new();
    let n = s.len();
    for i in 0..n
        invariant
            n == s@.len(),
            out@ == slashes_doubled(s@.take(i as int)),
    {
        assert(s@.take(i + 1).drop_last() =~= s@.take(i as int));
        assert(s@.take(i + 1).last() == s@[i as int]);
        let ghost prev = out@;
        if s[i] == '/' {
            out.push('\\');
            out.push('\\');
            assert(out@ =~= prev + seq!['\\', '\\']);
        } else {
            out.push(s[i]);
            assert(out@ =~= prev + seq![s@[i as int]]);
        }
    }
    assert(s@.take(n as int) =~= s@);
    out
}

pub open spec fn real_part() -> spec_fn(Seq<char>) -> bool {
    |x: Seq<char>| x.len() > 0 && x != seq!['.']
}

/// A path keeps a leading `.` component: it has no root (neither a root
/// separator nor a prefix other than a drive) and its text after the prefix
/// starts with `.` alone or `.` and a separator.
pub open spec fn keeps_cur_dir(s: Seq<char>) -> bool {
    let d = prefix_len(s);
    &&& !(d > 0 && !win_prefix(s).2)
    &&& s.len() > d
    &&& s[d] == '.'
    &&& (s.len() == d + 1 || is_sep(s[d + 1]))
}

/// The components of a path after its prefix and root: a leading `.` when
/// the path keeps one, then the pieces between separators without empty
/// pieces and (outside verbatim paths) `.` pieces.
pub open spec fn path_parts(s: Seq<char>) -> Seq<Seq<char>> {
    (if keeps_cur_dir(s) {
        seq![seq!['.']]
    } else {
        Seq::empty()
    }) + split_by(s.skip(prefix_len(s)), sep_class(verbatim(s))).filter(part_filter(verbatim(s)))
}

/// The separators of a path: only `\` in verbatim paths.
pub open spec fn sep_class(vb: bool) -> CharClass {
    if vb {
        CharClass::Exactly('\\')
    } else {
        CharClass::Separator
    }
}

/// The pieces that are components: non-empty ones, and outside verbatim
/// paths not `.`.
pub open spec fn part_filter(vb: bool) -> spec_fn(Seq<char>) -> bool {
    if vb {
        |x: Seq<char>| x.len() > 0
    } else {
        real_part()
    }
}

/// Two paths are the same `PathBuf`: equal prefixes (drive letters in
/// either case), a root separator after both prefixes or after neither,
/// and the same named components.
pub open spec fn same_path(a: Seq<char>, b: Seq<char>) -> bool {
    &&& win_prefix(a).1 == win_prefix(b).1
    &&& (root_len(a) > prefix_len(a)) == (root_len(b) > prefix_len(b))
    &&& path_parts(a) == path_parts(b)
}

/// Adds a library folder unless the same path is already listed.
pub open spec fn add_library(libs: Seq<Seq<char>>, p: Seq<char>) -> Seq<Seq<char>> {
    if exists|i: int| 0 <= i < libs.len() && same_path(#[trigger] libs[i], p) {
        libs
    } else {
        libs.push(p)
    }
}

/// Adds the library folder of each captured path in turn.
pub open spec fn add_listed(libs: Seq<Seq<char>>, caps: Seq<Option<Seq<char>>>) -> Seq<Seq<char>>
    decreases caps.len(),
{
    if caps.len() == 0 {
        libs
    } else {
        let prev = add_listed(libs, caps.drop_last());
        match caps.last() {
            Some(c) => add_library(prev, listed_library(c)),
            None => prev,
        }
    }
}

/// All library folders: the main one, then each folder listed in
/// `libraryfolders.vdf` that is not already there; nothing without a main
/// folder.
pub open spec fn steam_libraries_of(raw: Seq<char>, vdf: Option<Seq<char>>) -> Seq<Seq<char>> {
    match main_library(raw) {
        None => Seq::empty(),
        Some(m) => match vdf {
            None => seq![m],
            Some(t) => add_listed(seq![m], regex_groups(library_pattern(), t)),
        },
    }
}

/// The main library folder for a registry `SteamPath` value.
pub fn steam_main_library(steam_path_raw: &str) -> (r: Option<String>)
    ensures
        opt_string_view(r) == main_library(steam_path_raw@),
{
    let c = chars_of(steam_path_raw);
    let p = trim_end_chars(&c, CharClass::Exactly('\0'));
    if p.len() == 0 {
        None
    } else {
        let full = concat_chars(&p, &chars_of("\\\\steamapps"));
        Some(string_of(&full))
    }
}

fn path_parts_exec(s: &Vec<char>) -> (r: Vec<Vec<char>>)
    ensures
        char_views(r@) == path_parts(s@),
{
    let (d, _key, disk, vb) = win_prefix_exec(s);
    let keep_dot = !(d > 0 && !disk) && s.len() > d && s[d] == '.' && (s.len() == d + 1
        || is_sep_exec(s[d + 1]));
    let ghost head: Seq<Seq<char>> = if keeps_cur_dir(s@) {
        seq![seq!['.']]
    } else {
        Seq::empty()
    };
    let ghost flt = part_filter(vb);
    let rest = slice_chars(s, d, s.len());
    assert(rest@ =~= s@.skip(d as int));
    let cls = if vb {
        CharClass::Exactly('\\')
    } else {
        CharClass::Separator
    };
    let pieces = split_chars(&rest, cls);
    let ghost ps = split_by(s@.skip(prefix_len(s@)), sep_class(verbatim(s@)));
    assert(char_views(pieces@) =~= ps);
    let mut out: Vec<Vec<char>> = Vec::new();
    if keep_dot {
        let mut dot: Vec<char> = Vec::new();
        dot.push('.');
        out.push(dot);
        assert(char_views(out@) =~= head);
    } else {
        assert(char_views(out@) =~= head);
    }
    assert(ps.take(0).filter(flt) =~= Seq::<Seq<char>>::empty()) by {
        reveal_with_fuel(Seq::<_>::filter, 1);
    }
    let n = pieces.len();
    for i in 0..n
        invariant
            n == pieces.len(),
            char_views(pieces@) == ps,
            flt == part_filter(vb),
            char_views(out@) == head + ps.take(i as int).filter(flt),
    {
        proof {
            reveal_with_fuel(Seq::<_>::filter, 1);
        }
        assert(ps.take(i + 1).drop_last() =~= ps.take(i as int));
        assert(ps.take(i + 1).last() == ps[i as int]);
        assert(char_views(pieces@)[i as int] == pieces@[i as int]@);
        let ghost prev = out@;
        let piece = &pieces[i];
        let keep = piece.len() > 0 && (vb || !(piece.len() == 1 && piece[0] == '.'));
        assert(keep == flt(ps[i as int])) by {
            if piece@.len() == 1 && piece@[0] == '.' {
                assert(piece@ =~= seq!['.']);
            }
            if piece@ == seq!['.'] {
                assert(piece@.len() == 1);
            }
        }
        if keep {
            let t = slice_chars(piece, 0, piece.len());
            assert(t@ =~= piece@);
            out.push(t);
            assert(char_views(out@) =~= char_views(prev).push(t@));
        }
        assert(char_views(out@) =~= head + ps.take(i + 1).filter(flt));
    }
    assert(ps.take(n as int) =~= ps);
    out
}

fn parts_eq(a: &Vec<Vec<char>>, b: &Vec<Vec<char>>) -> (r: bool)
    ensures
        r == (char_views(a@) == char_views(b@)),
{
    if a.len() != b.len() {
        assert(char_views(a@).len() != char_views(b@).len());
        return false;
    }
    let n = a.len();
    for i in 0..n
        invariant
            n == a.len(),
            n == b.len(),
            forall|j: int| 0 <= j < i ==> #[trigger] char_views(a@)[j] == char_views(b@)[j],
    {
        if !chars_eq(&a[i], &b[i]) {
            assert(char_views(a@)[i as int] != char_views(b@)[i as int]);
            return false;
        }
    }
    assert(char_views(a@) =~= char_views(b@));
    true
}

/// Whether two paths denote the same `PathBuf`.
pub fn same_path_exec(a: &Vec<char>, b: &Vec<char>) -> (r: bool)
    ensures
        r == same_path(a@, b@),
{
    let (_la, ka, _da, _va) = win_prefix_exec(a);
    let (_lb, kb, _db, _vb) = win_prefix_exec(b);
    if !chars_eq(&ka, &kb) {
        return false;
    }
    if (root_len_exec(a) > prefix_len_exec(a)) != (root_len_exec(b) > prefix_len_exec(b)) {
        return false;
    }
    let pa = path_parts_exec(a);
    let pb = path_parts_exec(b);
    parts_eq(&pa, &pb)
}

/// The library folders: `main` first, then the folder of each captured
/// `libraryfolders.vdf` path that is not the same path as one already there.
pub fn add_listed_libraries(main: String, caps: &Vec<Option<String>>) -> (r: Vec<String>)
    ensures
        string_views(r@) == add_listed(seq![main@], opt_string_views(caps@)),
{
    let ghost m = main@;
    let ghost cs = opt_string_views(caps@);
    let mut libs: Vec<String> = Vec::new();
    let mut lib_chars: Vec<Vec<char>> = Vec::new();
    lib_chars.push(chars_of(main.as_str()));
    libs.push(main);
    assert(string_views(libs@) =~= seq![m]);
    assert(char_views(lib_chars@) =~= seq![m]);
    let n = caps.len();
    assert(add_listed(seq![m], cs.take(0)) == seq![m]);
    for i in 0..n
        invariant
            n == caps.len(),
            opt_string_views(caps@) == cs,
            string_views(libs@) == add_listed(seq![m], cs.take(i as int)),
            char_views(lib_chars@) == string_views(libs@),
    {
        assert(cs.take(i + 1).drop_last() =~= cs.take(i as int));
        assert(cs.take(i + 1).last() == opt_string_view(caps@[i as int]));
        match &caps[i] {
            None => {},
            Some(cap_text) => {
                let cap = chars_of(cap_text.as_str());
                let slashed = double_slashes(&cap);
                let p = concat_chars(&slashed, &chars_of("\\\\steamapps"));
                assert(p@ =~= listed_library(cap@));
                let ghost cur = string_views(libs@);
                let mut found = false;
                let k = lib_chars.len();
                for j in 0..k
                    invariant
                        k == lib_chars.len(),
                        char_views(lib_chars@) == cur,
                        !found ==> forall|q: int| 0 <= q < j ==> !same_path(#[trigger] cur[q], p@),
                        found ==> exists|q: int| 0 <= q < cur.len() && same_path(#[trigger] cur[q], p@),
                {
                    if !found && same_path_exec(&lib_chars[j], &p) {
                        assert(char_views(lib_chars@)[j as int] == lib_chars@[j as int]@);
                        found = true;
                    } else {
                        assert(char_views(lib_chars@)[j as int] == lib_chars@[j as int]@);
                    }
                }
                if !found {
                    let s = string_of(&p);
                    libs.push(s);
                    lib_chars.push(p);
                    assert(string_views(libs@) =~= cur.push(p@));
                    assert(char_views(lib_chars@) =~= cur.push(p@));
                }
            },
        }
    }
    assert(cs.take(n as int) =~= cs);
    libs
}

/// All library folders, from the registry's `SteamPath` value and, when it
/// could be read, the main library's `libraryfolders.vdf`.
pub fn steam_libraries(steam_path_raw: &str, library_folders_vdf: Option<&str>) -> (r: Vec<String>)
    ensures
        string_views(r@) == steam_libraries_of(steam_path_raw@, match library_folders_vdf {
            Some(t) => Some(t@),
            None => None,
        }),
{
    let main = match steam_main_library(steam_path_raw) {
        None => {
            let r: Vec<String> = Vec::new();
            assert(string_views(r@) =~= Seq::<Seq<char>>::empty());
            return r;
        },
        Some(m) => m,
    };
    match library_folders_vdf {
        None => {
            let ghost m = main@;
            let mut libs: Vec<String> = Vec::new();
            libs.push(main);
            assert(string_views(libs@) =~= seq![m]);
            libs
        },
        Some(content) => {
            let caps = all_first_groups("path\"\\s*\"([^\"]+)", content);
            add_listed_libraries(main, &caps)
        },
    }
}

/// Steam app manifests are files named `appmanifest_*.acf`.
pub open spec fn manifest_file_name(path: Seq<char>) -> bool {
    match file_name(path) {
        Some(f) => starts_with(f, "appmanifest_"@) && ends_with(f, ".acf"@),
        None => false,
    }
}

/// Whether a path names a Steam app manifest.
pub fn is_steam_manifest_file(path: &str) -> (r: bool)
    ensures
        r == manifest_file_name(path@),
{
    match file_name_exec(&chars_of(path)) {
        Some(f) => starts_with_exec(&f, &chars_of("appmanifest_")) && ends_with_exec(
            &f,
            &chars_of(".acf"),
        ),
        None => false,
    }
}

pub open spec fn or_empty(o: Option<Seq<char>>) -> Seq<char> {
    match o {
        Some(s) => s,
        None => Seq::empty(),
    }
}

/// The game that the captures of a manifest describe: its `appid`, `name`
/// and `installdir` values (empty when not captured); none unless the app id
/// and name are present.
pub open spec fn game_from_captures(path: Seq<char>, appid: Option<Seq<char>>, name: Option<Seq<char>>, dir: Option<Seq<char>>) -> Option<(Seq<char>, Seq<char>, Seq<char>, Seq<char>)> {
    let a = or_empty(appid);
    let n = or_empty(name);
    if a.len() > 0 && n.len() > 0 {
        Some((a, n, or_empty(dir), path))
    } else {
        None
    }
}

/// The game a manifest describes, from the captures of its `appid`, `name`
/// and `installdir` patterns.
pub open spec fn steam_game_of(path: Seq<char>, content: Seq<char>) -> Option<(Seq<char>, Seq<char>, Seq<char>, Seq<char>)> {
    game_from_captures(
        path,
        regex_group(appid_pattern(), content),
        regex_group(name_pattern(), content),
        regex_group(installdir_pattern(), content),
    )
}

pub open spec fn steam_view(g: SteamGame) -> (Seq<char>, Seq<char>, Seq<char>, Seq<char>) {
    (g.appid@, g.name@, g.install_dir@, g.manifest_path@)
}

/// The game that the captures of a manifest at `path` describe.
pub fn steam_game_of_captures(path: &str, appid: Option<String>, name: Option<String>, dir: Option<String>) -> (r: Option<SteamGame>)
    ensures
        match r {
            Some(g) => game_from_captures(path@, opt_string_view(appid), opt_string_view(name), opt_string_view(dir)) == Some(steam_view(g)),
            None => game_from_captures(path@, opt_string_view(appid), opt_string_view(name), opt_string_view(dir)) is None,
        },
{
    let appid = match appid {
        Some(a) => a,
        None => String::new(),
    };
    let name = match name {
        Some(n) => n,
        None => String::new(),
    };
    let install_dir = match dir {
        Some(d) => d,
        None => String::new(),
    };
    if !appid.as_str().is_empty() && !name.as_str().is_empty() {
        Some(SteamGame { appid, name, install_dir, manifest_path: String::from_str(path) })
    } else {
        None
    }
}

/// The game a manifest file describes, given its path and content.
pub fn steam_game_from_manifest(path: &str, content: &str) -> (r: Option<SteamGame>)
    ensures
        match r {
            Some(g) => steam_game_of(path@, content@) == Some(steam_view(g)),
            None => steam_game_of(path@, content@) is None,
        },
{
    let appid = first_group("appid\"\\s*\"(\\d+)", content);
    let name = first_group("name\"\\s*\"([^\"]+)", content);
    let dir = first_group("installdir\"\\s*\"([^\"]+)", content);
    steam_game_of_captures(path, appid, name, dir)
}

/// The game a library directory entry describes: the entry must be named
/// `appmanifest_*.acf`, have been read, and describe a game.
pub open spec fn entry_game(m: (String, Option<String>)) -> Option<(Seq<char>, Seq<char>, Seq<char>, Seq<char>)> {
    if manifest_file_name(m.0@) {
        match m.1 {
            Some(c) => steam_game_of(m.0@, c@),
            None => None,
        }
    } else {
        None
    }
}

pub open spec fn steam_games_of(ms: Seq<(String, Option<String>)>) -> Seq<(Seq<char>, Seq<char>, Seq<char>, Seq<char>)>
    decreases ms.len(),
{
    if ms.len() == 0 {
        Seq::empty()
    } else {
        let prev = steam_games_of(ms.drop_last());
        match entry_game(ms.last()) {
            Some(g) => if exists|k: int| 0 <= k < prev.len() && (#[trigger] prev[k]).0 == g.0 {
                prev
            } else {
                prev.push(g)
            },
            None => prev,
        }
    }
}

/// The installed games of the Steam libraries, given the entries of their
/// folders in library and directory order, each with its text when it could
/// be read: the entries named `appmanifest_*.acf` that describe a game, a
/// later manifest with an app id already seen being skipped.
pub fn get_steam_games_from_manifests(entries: &Vec<(String, Option<String>)>) -> (r: Vec<SteamGame>)
    ensures
        r@.map_values(|g: SteamGame| steam_view(g)) == steam_games_of(entries@),
        forall|i: int| 0 <= i < r@.len() ==> manifest_file_name((#[trigger] r@[i]).manifest_path@),
{
    let mut games: Vec<SteamGame> = Vec::new();
    let n = entries.len();
    for i in 0..n
        invariant
            n == entries.len(),
            games@.map_values(|g: SteamGame| steam_view(g)) == steam_games_of(entries@.take(i as int)),
    {
        assert(entries@.take(i + 1).drop_last() =~= entries@.take(i as int));
        assert(entries@.take(i + 1).last() == entries@[i as int]);
        let ghost prev = games@.map_values(|g: SteamGame| steam_view(g));
        let path = entries[i].0.as_str();
        let found = if is_steam_manifest_file(path) {
            match &entries[i].1 {
                Some(content) => steam_game_from_manifest(path, content.as_str()),
                None => None,
            }
        } else {
            None
        };
        match found {
            Some(g) => {
                let gid = chars_of(g.appid.as_str());
                let mut seen = false;
                let k = games.len();
                for j in 0..k
                    invariant
                        k == games.len(),
                        prev == games@.map_values(|g: SteamGame| steam_view(g)),
                        gid@ == g.appid@,
                        !seen ==> forall|q: int| 0 <= q < j ==> (#[trigger] prev[q]).0 != gid@,
                        seen ==> exists|q: int| 0 <= q < prev.len() && (#[trigger] prev[q]).0 == gid@,
                {
                    let other = chars_of(games[j].appid.as_str());
                    assert(prev[j as int] == steam_view(games@[j as int]));
                    if !seen && chars_eq(&other, &gid) {
                        seen = true;
                    }
                }
                if !seen {
                    games.push(g);
                    assert(games@.map_values(|g: SteamGame| steam_view(g)) =~= prev.push(
                        steam_view(games@.last()),
                    ));
                }
            },
            None => {},
        }
    }
    assert(entries@.take(n as int) =~= entries@);
    proof {
        law_steam_appids_distinct(entries@);
        assert forall|i: int| 0 <= i < games@.len() implies manifest_file_name((#[trigger] games@[i]).manifest_path@) by {
            assert(games@.map_values(|g: SteamGame| steam_view(g))[i] == steam_view(games@[i]));
        }
    }
    games
}

pub open spec fn steam_dirs(games: Seq<SteamGame>) -> Seq<Seq<char>> {
    games.map_values(|g: SteamGame| g.install_dir@)
}

/// The running-game record for a window, when the install directory of the
/// first game (in order) that occurs in its executable path, ignoring ASCII
/// case, is found; an empty install directory occurs in every path.
pub open spec fn running_steam_of(games: Seq<SteamGame>, a: AppInfo) -> Option<RunningSteamGame> {
    match first_match(a.path@, steam_dirs(games), false) {
        Some(i) => Some(
            RunningSteamGame {
                appid: games[i].appid,
                name: games[i].name,
                pid: a.pid,
                exe_path: a.path,
            },
        ),
        None => None,
    }
}

/// The running records of a window list.
pub open spec fn running_steam_list(games: Seq<SteamGame>, apps: Seq<AppInfo>) -> Seq<RunningSteamGame> {
    apps.filter_map(|a: AppInfo| running_steam_of(games, a))
}

/// The installed Steam games that have an open window, one record per
/// matching window, in window order.
pub fn get_running_steam_games(games: &Vec<SteamGame>, apps: &Vec<AppInfo>) -> (r: Vec<
    RunningSteamGame,
>)
    ensures
        r@ == running_steam_list(games@, apps@),
{
    let mut dirs: Vec<Vec<char>> = Vec::new();
    let ng = games.len();
    for k in 0..ng
        invariant
            ng == games.len(),
            char_views(dirs@) == steam_dirs(games@.take(k as int)),
    {
        let ghost prev = dirs@;
        assert(char_views(prev).len() == prev.len());
        assert(steam_dirs(games@.take(k as int)).len() == k);
        let x = chars_of(games[k].install_dir.as_str());
        dirs.push(x);
        assert(dirs@ == prev.push(x));
        assert forall|j: int| 0 <= j < k + 1 implies #[trigger] char_views(dirs@)[j] == steam_dirs(
            games@.take(k + 1),
        )[j] by {
            if j < k {
                assert(char_views(prev)[j] == steam_dirs(games@.take(k as int))[j]);
            }
        }
        assert(char_views(dirs@) =~= steam_dirs(games@.take(k + 1)));
    }
    assert(games@.take(ng as int) =~= games@);
    let mut running: Vec<RunningSteamGame> = Vec::new();
    let n = apps.len();
    for i in 0..n
        invariant
            n == apps.len(),
            char_views(dirs@) == steam_dirs(games@),
            steam_dirs(games@).len() == games@.len(),
            running@ == apps@.take(i as int).filter_map(|a: AppInfo| running_steam_of(games@, a)),
    {
        assert(apps@.take(i + 1).drop_last() =~= apps@.take(i as int));
        assert(apps@.take(i + 1).last() == apps@[i as int]);
        let path = chars_of(apps[i].path.as_str());
        match first_match_exec(&path, &dirs, false) {
            Some(j) => {
                proof {
                    crate::process::lemma_first_match_range(path@, steam_dirs(games@), false);
                }
                running.push(
                    RunningSteamGame {
                        appid: games[j].appid.clone(),
                        name: games[j].name.clone(),
                        pid: apps[i].pid,
                        exe_path: apps[i].path.clone(),
                    },
                );
                assert(running@ =~= apps@.take(i + 1).filter_map(
                    |a: AppInfo| running_steam_of(games@, a),
                ));
            },
            None => {},
        }
    }
    assert(apps@.take(n as int) =~= apps@);
    running
}

/// The Steam library lists each app id once, and every game in it has an
/// app id and a name and comes from a file named `appmanifest_*.acf`.
pub proof fn law_steam_appids_distinct(ms: Seq<(String, Option<String>)>)
    ensures
        forall|i: int, j: int| 0 <= i < j < steam_games_of(ms).len() ==> (#[trigger] steam_games_of(ms)[i]).0 != (#[trigger] steam_games_of(ms)[j]).0,
        forall|i: int| 0 <= i < steam_games_of(ms).len() ==> (#[trigger] steam_games_of(ms)[i]).0.len() > 0 && steam_games_of(ms)[i].1.len() > 0
            && manifest_file_name(steam_games_of(ms)[i].3),
    decreases ms.len(),
{
    if ms.len() > 0 {
        law_steam_appids_distinct(ms.drop_last());
        let prev = steam_games_of(ms.drop_last());
        let cur = steam_games_of(ms);
        match entry_game(ms.last()) {
            Some(g) => {
                if exists|k: int| 0 <= k < prev.len() && (#[trigger] prev[k]).0 == g.0 {
                    assert(cur == prev);
                } else {
                    assert(cur == prev.push(g));
                    assert forall|i: int, j: int| 0 <= i < j < cur.len() implies (#[trigger] cur[i]).0 != (#[trigger] cur[j]).0 by {
                        if j == prev.len() {
                            assert(cur[i] == prev[i]);
                        } else {
                            assert(cur[i] == prev[i]);
                            assert(cur[j] == prev[j]);
                        }
                    }
                    assert forall|i: int| 0 <= i < cur.len() implies (#[trigger] cur[i]).0.len() > 0 && cur[i].1.len() > 0
                        && manifest_file_name(cur[i].3) by {
                        if i < prev.len() {
                            assert(cur[i] == prev[i]);
                        }
                    }
                }
            },
            None => {
                assert(cur == prev);
            },
        }
    }
}

/// No two Steam library folders denote the same path.
pub proof fn law_steam_libraries_distinct(raw: Seq<char>, vdf: Option<Seq<char>>)
    ensures
        forall|i: int, j: int| 0 <= i < j < steam_libraries_of(raw, vdf).len() ==> !same_path(#[trigger] steam_libraries_of(raw, vdf)[i], #[trigger] steam_libraries_of(raw, vdf)[j]),
{
    match main_library(raw) {
        None => {},
        Some(m) => match vdf {
            None => {},
            Some(t) => {
                lemma_add_listed_distinct(seq![m], regex_groups(library_pattern(), t));
            },
        },
    }
}

proof fn lemma_add_listed_distinct(libs: Seq<Seq<char>>, caps: Seq<Option<Seq<char>>>)
    requires
        forall|i: int, j: int| 0 <= i < j < libs.len() ==> !same_path(#[trigger] libs[i], #[trigger] libs[j]),
    ensures
        forall|i: int, j: int| 0 <= i < j < add_listed(libs, caps).len() ==> !same_path(#[trigger] add_listed(libs, caps)[i], #[trigger] add_listed(libs, caps)[j]),
    decreases caps.len(),
{
    if caps.len() > 0 {
        lemma_add_listed_distinct(libs, caps.drop_last());
        let prev = add_listed(libs, caps.drop_last());
        let cur = add_listed(libs, caps);
        match caps.last() {
            None => {
                assert(cur == prev);
            },
            Some(c) => {
                let p = listed_library(c);
                if exists|i: int| 0 <= i < prev.len() && same_path(#[trigger] prev[i], p) {
                    assert(cur == prev);
                } else {
                    assert(cur == prev.push(p));
                    assert forall|i: int, j: int| 0 <= i < j < cur.len() implies !same_path(#[trigger] cur[i], #[trigger] cur[j]) by {
                        assert(cur[i] == prev[i]);
                        if j < prev.len() {
                            assert(cur[j] == prev[j]);
                        }
                    }
                }
            },
        }
    }
}

/// `r` is the record of window `j` running game `i`: it carries the game's
/// app id and name and the window's process and path, and the game's
/// install directory occurs in that path, ignoring ASCII case.
pub open spec fn steam_record_from(games: Seq<SteamGame>, apps: Seq<AppInfo>, r: RunningSteamGame, i: int, j: int) -> bool {
    &&& 0 <= i < games.len()
    &&& 0 <= j < apps.len()
    &&& r.appid == games[i].appid
    &&& r.name == games[i].name
    &&& r.pid == apps[j].pid
    &&& r.exe_path == apps[j].path
    &&& has_substring(lower(apps[j].path@), lower(games[i].install_dir@))
}

/// `r` is the record of some window running some installed game.
pub open spec fn steam_record_of_some(games: Seq<SteamGame>, apps: Seq<AppInfo>, r: RunningSteamGame) -> bool {
    exists|i: int, j: int| steam_record_from(games, apps, r, i, j)
}

/// Every running Steam record comes from an open window whose executable
/// path contains, ignoring ASCII case, the install directory of an
/// installed game, whose app id and name it carries.
pub proof fn law_running_steam_games_match(games: Seq<SteamGame>, apps: Seq<AppInfo>)
    ensures
        forall|k: int| 0 <= k < running_steam_list(games, apps).len() ==>
            steam_record_of_some(games, apps, #[trigger] running_steam_list(games, apps)[k]),
    decreases apps.len(),
{
    if apps.len() > 0 {
        let p = apps.drop_last();
        law_running_steam_games_match(games, p);
        let rp = running_steam_list(games, p);
        let r = running_steam_list(games, apps);
        let a = apps.last();
        let dirs = steam_dirs(games);
        assert(apps == p.push(a));
        assert forall|k: int| 0 <= k < rp.len() implies
            steam_record_of_some(games, apps, #[trigger] rp[k]) by {
            let (i, j) = choose|i: int, j: int| steam_record_from(games, p, rp[k], i, j);
            assert(p[j] == apps[j]);
            assert(steam_record_from(games, apps, rp[k], i, j));
        }
        match first_match(a.path@, dirs, false) {
            Some(i) => {
                assert(crate::process::is_first_match(a.path@, dirs, false, i));
                assert(dirs[i] == games[i].install_dir@);
                let rec = running_steam_of(games, a).unwrap();
                assert(r == rp + seq![rec]);
                assert(steam_record_from(games, apps, rec, i, apps.len() - 1));
                assert forall|k: int| 0 <= k < r.len() implies
                    steam_record_of_some(games, apps, #[trigger] r[k]) by {
                    if k < rp.len() {
                        assert(r[k] == rp[k]);
                    } else {
                        assert(r[k] == rec);
                        assert(steam_record_from(games, apps, r[k], i, apps.len() - 1));
                    }
                }
            },
            None => {
                assert(r == rp);
                assert forall|k: int| 0 <= k < r.len() implies
                    steam_record_of_some(games, apps, #[trigger] r[k]) by {
                    assert(r[k] == rp[k]);
                }
            },
        }
    } else {
        assert(running_steam_list(games, apps).len() == 0);
    }
}

} // verus!
