//! The HTTP API: request routing, game identifiers, the poster cache, the
//! game lists it serves, and the decisions behind `POST /games/launch`.
use vstd::prelude::*;
use crate::epic::{opt_view, EpicGame, RunningEpicGame};
use crate::gog::{GogGame, RunningGogGame};
use crate::json::{json_quote, json_string_literal};
use crate::steam::{RunningSteamGame, SteamGame};
use crate::text::{before_char, before_char_exec, chars_eq, chars_of, decimal, string_of, string_views, trim_end_by, trim_end_chars, u32_decimal, CharClass};

verus! {

/// The installed games of every store, shared with the HTTP API.
#[derive(Clone, Debug)]
pub struct GamesPayload {
    pub steam: Vec<SteamGame>,
    pub epic: Vec<EpicGame>,
    pub gog: Vec<GogGame>,
}

impl Default for GamesPayload {
    fn default() -> (r: Self)
        ensures
            r.steam@.len() == 0 && r.epic@.len() == 0 && r.gog@.len() == 0,
    {
        GamesPayload { steam: Vec::new(), epic: Vec::new(), gog: Vec::new() }
    }
}

/// A game as `GET /games` lists it.
#[derive(Clone, Debug)]
pub struct ApiGame {
    pub id: String,
    pub source: String,
    pub name: String,
    pub poster_url: Option<String>,
}

/// A running game as `GET /games/running` lists it.
#[derive(Clone, Debug)]
pub struct ApiRunningGame {
    pub id: String,
    pub source: String,
    pub name: String,
    pub pid: u32,
    pub exe_path: String,
}

/// The API identifier of a Steam game: its app id.
pub fn steam_game_id(game: &SteamGame) -> (r: String)
    ensures
        r@ == game.appid@,
{
    game.appid.clone()
}

pub open spec fn epic_id(g: EpicGame) -> Seq<char> {
    if g.app_name@.len() > 0 {
        g.app_name@
    } else {
        "manifest:"@ + g.manifest_path@
    }
}

/// The API identifier of an Epic game: its app name, or `manifest:` and the
/// manifest path when it has none.
pub fn epic_game_id(game: &EpicGame) -> (r: String)
    ensures
        r@ == epic_id(*game),
{
    if !game.app_name.as_str().is_empty() {
        game.app_name.clone()
    } else {
        String::from_str("manifest:").concat(game.manifest_path.as_str())
    }
}

/// The API identifier of a GOG game: its uninstall key.
pub fn gog_game_id(game: &GogGame) -> (r: String)
    ensures
        r@ == game.source_key@,
{
    game.source_key.clone()
}

/// The portrait poster URLs tried for a Steam app, in order.
pub open spec fn poster_candidates(appid: Seq<char>) -> Seq<Seq<char>> {
    seq![
        "https://shared.cloudflare.steamstatic.com/store_item_assets/steam/apps/"@ + appid
            + "/library_600x900.jpg"@,
        "https://shared.cloudflare.steamstatic.com/store_item_assets/steam/apps/"@ + appid
            + "/library_600x900_2x.jpg"@,
        "https://cdn.cloudflare.steamstatic.com/steam/apps/"@ + appid + "/library_600x900.jpg"@,
        "https://cdn.cloudflare.steamstatic.com/steam/apps/"@ + appid + "/library_600x900_2x.jpg"@,
    ]
}

/// The portrait poster URLs tried for a Steam app.
pub fn steam_vertical_poster_candidates(appid: &str) -> (r: [String; 4])
    ensures
        r@.map_values(|s: String| s@) == poster_candidates(appid@),
{
    let a = String::from_str(
        "https://shared.cloudflare.steamstatic.com/store_item_assets/steam/apps/",
    ).concat(appid).concat("/library_600x900.jpg");
    let b = String::from_str(
        "https://shared.cloudflare.steamstatic.com/store_item_assets/steam/apps/",
    ).concat(appid).concat("/library_600x900_2x.jpg");
    let c = String::from_str("https://cdn.cloudflare.steamstatic.com/steam/apps/").concat(
        appid,
    ).concat("/library_600x900.jpg");
    let d = String::from_str("https://cdn.cloudflare.steamstatic.com/steam/apps/").concat(
        appid,
    ).concat("/library_600x900_2x.jpg");
    let r = [a, b, c, d];
    assert(r@.map_values(|s: String| s@) =~= poster_candidates(appid@));
    r
}

/// Resolved Steam posters by app id (`None`: no portrait poster exists).
pub struct PosterCache {
    entries: Vec<(String, Option<String>)>,
}

pub open spec fn keys_distinct(e: Seq<(String, Option<String>)>) -> bool {
    forall|i: int, j: int| 0 <= i < e.len() && 0 <= j < e.len() && i != j ==> (#[trigger] e[i]).0@ != (#[trigger] e[j]).0@
}

pub open spec fn entries_map(e: Seq<(String, Option<String>)>) -> Map<Seq<char>, Option<Seq<char>>>
    decreases e.len(),
{
    if e.len() == 0 {
        Map::empty()
    } else {
        entries_map(e.drop_last()).insert(e.last().0@, opt_view(e.last().1))
    }
}

proof fn lemma_entries_map(e: Seq<(String, Option<String>)>)
    requires
        keys_distinct(e),
    ensures
        forall|k: Seq<char>| #[trigger] entries_map(e).contains_key(k) <==> exists|i: int| 0 <= i < e.len() && (#[trigger] e[i]).0@ == k,
        forall|i: int| 0 <= i < e.len() ==> #[trigger] entries_map(e)[e[i].0@] == opt_view(e[i].1),
    decreases e.len(),
{
    if e.len() > 0 {
        let p = e.drop_last();
        assert(keys_distinct(p)) by {
            assert forall|i: int, j: int| 0 <= i < p.len() && 0 <= j < p.len() && i != j implies (#[trigger] p[i]).0@ != (#[trigger] p[j]).0@ by {
                assert(p[i] == e[i]);
                assert(p[j] == e[j]);
            }
        }
        lemma_entries_map(p);
        assert forall|k: Seq<char>| #[trigger] entries_map(e).contains_key(k) <==> exists|i: int| 0 <= i < e.len() && (#[trigger] e[i]).0@ == k by {
            if entries_map(e).contains_key(k) && k != e.last().0@ {
                let i = choose|i: int| 0 <= i < p.len() && (#[trigger] p[i]).0@ == k;
                assert(e[i] == p[i]);
            }
            if exists|i: int| 0 <= i < e.len() && (#[trigger] e[i]).0@ == k {
                let i = choose|i: int| 0 <= i < e.len() && (#[trigger] e[i]).0@ == k;
                if i < e.len() - 1 {
                    assert(p[i] == e[i]);
                }
            }
        }
        assert forall|i: int| 0 <= i < e.len() implies #[trigger] entries_map(e)[e[i].0@] == opt_view(e[i].1) by {
            if i < e.len() - 1 {
                assert(p[i] == e[i]);
                assert(e[i].0@ != e[e.len() - 1].0@);
            }
        }
    }
}

impl PosterCache {
    #[verifier::type_invariant]
    spec fn wf(self) -> bool {
        keys_distinct(self.entries@)
    }

    /// The cache as a map from app id to resolved poster.
    pub closed spec fn view(&self) -> Map<Seq<char>, Option<Seq<char>>> {
        entries_map(self.entries@)
    }

    /// An empty cache.
    pub fn new() -> (r: Self)
        ensures
            r.view() == Map::<Seq<char>, Option<Seq<char>>>::empty(),
    {
        PosterCache { entries: Vec::new() }
    }

    /// The cached poster of an app, if the app has been resolved.
    pub fn get(&self, appid: &str) -> (r: Option<Option<String>>)
        ensures
            match r {
                Some(v) => self.view().contains_key(appid@) && self.view()[appid@] == opt_view(v),
                None => !self.view().contains_key(appid@),
            },
    {
        proof {
            use_type_invariant(&*self);
            lemma_entries_map(self.entries@);
        }
        let n = self.entries.len();
        for i in 0..n
            invariant
                n == self.entries.len(),
                forall|j: int| 0 <= j < i ==> (#[trigger] self.entries@[j]).0@ != appid@,
        {
            if crate::json::str_eq(self.entries[i].0.as_str(), appid) {
                proof {
                    use_type_invariant(&*self);
                    lemma_entries_map(self.entries@);
                }
                let v = match &self.entries[i].1 {
                    Some(s) => Some(s.clone()),
                    None => None,
                };
                return Some(v);
            }
        }
        proof {
            use_type_invariant(&*self);
            lemma_entries_map(self.entries@);
        }
        None
    }

    /// Records the poster of an app, replacing what was cached for it.
    pub fn insert(&mut self, appid: String, value: Option<String>)
        ensures
            final(self).view() == old(self).view().insert(appid@, opt_view(value)),
    {
        proof {
            use_type_invariant(&*self);
            lemma_entries_map(self.entries@);
        }
        let ghost before = self.entries@;
        let n = self.entries.len();
        let mut found: Option<usize> = None;
        for i in 0..n
            invariant
                n == self.entries.len(),
                self.entries@ == before,
                match found {
                    Some(k) => k < n && self.entries@[k as int].0@ == appid@,
                    None => forall|j: int| 0 <= j < i ==> (#[trigger] self.entries@[j]).0@ != appid@,
                },
        {
            if found.is_none() && crate::json::str_eq(self.entries[i].0.as_str(), appid.as_str()) {
                found = Some(i);
            }
        }
        match found {
            Some(k) => {
                let mut entries: Vec<(String, Option<String>)> = Vec::new();
                std::mem::swap(&mut entries, &mut self.entries);
                let old_key = entries[k].0.clone();
                entries.set(k, (old_key, value));
                let ghost after = entries@;
                proof {
                    assert(keys_distinct(after)) by {
                        assert forall|i: int, j: int| 0 <= i < after.len() && 0 <= j < after.len() && i != j implies (#[trigger] after[i]).0@ != (#[trigger] after[j]).0@ by {
                            assert(after[i].0@ == before[i].0@);
                            assert(after[j].0@ == before[j].0@);
                        }
                    }
                    lemma_entries_map(after);
                    assert(entries_map(after) =~= entries_map(before).insert(appid@, opt_view(value))) by {
                        assert forall|key: Seq<char>| #[trigger] entries_map(after).contains_key(key) <==> entries_map(before).insert(appid@, opt_view(value)).contains_key(key) by {
                            if entries_map(before).contains_key(key) {
                                let i = choose|i: int| 0 <= i < before.len() && (#[trigger] before[i]).0@ == key;
                                assert(after[i].0@ == key);
                            }
                            if entries_map(after).contains_key(key) {
                                let i = choose|i: int| 0 <= i < after.len() && (#[trigger] after[i]).0@ == key;
                                assert(before[i].0@ == key);
                            }
                        }
                        assert forall|key: Seq<char>| #[trigger] entries_map(after).contains_key(key) implies entries_map(after)[key] == entries_map(before).insert(appid@, opt_view(value))[key] by {
                            let i = choose|i: int| 0 <= i < after.len() && (#[trigger] after[i]).0@ == key;
                            assert(entries_map(after)[after[i].0@] == opt_view(after[i].1));
                            if i != k {
                                assert(after[i] == before[i]);
                                assert(entries_map(before)[before[i].0@] == opt_view(before[i].1));
                            }
                        }
                    }
                }
                self.entries = entries;
            },
            None => {
                let ghost k = appid@;
                let ghost v = opt_view(value);
                let mut entries: Vec<(String, Option<String>)> = Vec::new();
                std::mem::swap(&mut entries, &mut self.entries);
                entries.push((appid, value));
                proof {
                    let after = entries@;
                    assert(after.drop_last() =~= before);
                    assert forall|i: int, j: int| 0 <= i < after.len() && 0 <= j < after.len() && i != j implies (#[trigger] after[i]).0@ != (#[trigger] after[j]).0@ by {
                        if i < before.len() && j < before.len() {
                            assert(after[i] == before[i]);
                            assert(after[j] == before[j]);
                        } else if i < before.len() {
                            assert(after[i] == before[i]);
                        } else {
                            assert(after[j] == before[j]);
                        }
                    }
                    assert(entries_map(after) == entries_map(before).insert(k, v));
                }
                self.entries = entries;
            },
        }
    }
}

/// What resolving a poster gave: `r` is the first candidate that the probe
/// reported to exist, each earlier candidate having been reported missing;
/// `None` when every candidate was reported missing.
pub open spec fn probe_outcome<F: Fn(&String) -> bool>(url_exists: F, cands: Seq<String>, r: Option<String>) -> bool {
    match r {
        Some(u) => exists|k: int|
            0 <= k < cands.len() && u == cands[k] && call_ensures(url_exists, (&cands[k],), true)
                && forall|j: int| 0 <= j < k ==> call_ensures(url_exists, (&#[trigger] cands[j],), false),
        None => forall|j: int| 0 <= j < cands.len() ==> call_ensures(url_exists, (&#[trigger] cands[j],), false),
    }
}

/// `v` is what probing the portrait candidates of `appid` can give: the
/// first candidate the probe accepted, or none when it accepted none.
pub open spec fn probed_poster<F: Fn(&String) -> bool>(url_exists: F, appid: Seq<char>, v: Option<Seq<char>>) -> bool {
    exists|cands: Seq<String>, r: Option<String>|
        cands.map_values(|s: String| s@) == poster_candidates(appid) && #[trigger] probe_outcome(url_exists, cands, r)
            && opt_view(r) == v
}

/// The portrait poster of a Steam app: the cached answer when the app was
/// resolved before; otherwise the first candidate URL that `url_exists`
/// accepts (or none), which is then cached.
pub fn steam_poster_url<F: Fn(&String) -> bool>(cache: &mut PosterCache, appid: &str, url_exists: &F) -> (r: Option<String>)
    requires
        forall|u: &String| call_requires(*url_exists, (u,)),
    ensures
        old(cache)@.contains_key(appid@) ==> final(cache)@ == old(cache)@ && opt_view(r) == old(cache)@[appid@],
        !old(cache)@.contains_key(appid@) ==> final(cache)@ == old(cache)@.insert(appid@, opt_view(r))
            && exists|cands: Seq<String>| cands.map_values(|s: String| s@) == poster_candidates(appid@) && probe_outcome(*url_exists, cands, r),
{
    match cache.get(appid) {
        Some(cached) => {
            return cached;
        },
        None => {},
    }
    let cands = steam_vertical_poster_candidates(appid);
    let ghost cs = cands@;
    let mut resolved: Option<String> = None;
    let mut i: usize = 0;
    while i < 4 && resolved.is_none()
        invariant
            i <= 4,
            cands@ == cs,
            cs.len() == 4,
            forall|u: &String| call_requires(*url_exists, (u,)),
            resolved is None ==> forall|j: int| 0 <= j < i ==> call_ensures(*url_exists, (&#[trigger] cs[j],), false),
            resolved is Some ==> probe_outcome(*url_exists, cs, resolved),
        decreases 4 - i,
    {
        let ok = url_exists(&cands[i]);
        assert(cs[i as int] == cands@[i as int]);
        if ok {
            resolved = Some(cands[i].clone());
            assert(call_ensures(*url_exists, (&cs[i as int],), true));
            assert(probe_outcome(*url_exists, cs, resolved));
        } else {
            assert(call_ensures(*url_exists, (&cs[i as int],), false));
        }
        i = i + 1;
    }
    assert(probe_outcome(*url_exists, cs, resolved));
    cache.insert(String::from_str(appid), resolved.clone());
    resolved
}

pub open spec fn steam_api(g: SteamGame, poster: Option<Seq<char>>) -> (Seq<char>, Seq<char>, Seq<char>, Option<Seq<char>>) {
    (g.appid@, "steam"@, g.name@, poster)
}

pub open spec fn api_view(a: ApiGame) -> (Seq<char>, Seq<char>, Seq<char>, Option<Seq<char>>) {
    (a.id@, a.source@, a.name@, opt_view(a.poster_url))
}

pub open spec fn epic_api(g: EpicGame) -> (Seq<char>, Seq<char>, Seq<char>, Option<Seq<char>>) {
    (epic_id(g), "epic"@, g.display_name@, opt_view(g.poster_url))
}

pub open spec fn gog_api(g: GogGame) -> (Seq<char>, Seq<char>, Seq<char>, Option<Seq<char>>) {
    (g.source_key@, "gog"@, g.display_name@, None)
}

/// The list `GET /games` serves: Steam games (with their resolved posters),
/// then Epic games, then GOG games, each in payload order.
pub fn build_games_list<F: Fn(&String) -> bool>(payload: &GamesPayload, cache: &mut PosterCache, url_exists: &F) -> (r: Vec<ApiGame>)
    requires
        forall|u: &String| call_requires(*url_exists, (u,)),
    ensures
        r@.len() == payload.steam@.len() + payload.epic@.len() + payload.gog@.len(),
        forall|i: int| 0 <= i < payload.steam@.len() ==> {
            let g = #[trigger] payload.steam@[i];
            &&& api_view(r@[i]) == steam_api(g, opt_view(r@[i].poster_url))
            &&& final(cache)@.contains_key(g.appid@)
            &&& final(cache)@[g.appid@] == opt_view(r@[i].poster_url)
        },
        forall|i: int| 0 <= i < payload.epic@.len() ==> api_view(r@[payload.steam@.len() + i]) == epic_api(#[trigger] payload.epic@[i]),
        forall|i: int| 0 <= i < payload.gog@.len() ==> api_view(r@[payload.steam@.len() + payload.epic@.len() + i]) == gog_api(#[trigger] payload.gog@[i]),
        forall|k: Seq<char>| #[trigger] old(cache)@.contains_key(k) ==> final(cache)@.contains_key(k) && final(cache)@[k] == old(cache)@[k],
        forall|k: Seq<char>| #[trigger] final(cache)@.contains_key(k) && !old(cache)@.contains_key(k) ==> probed_poster(*url_exists, k, final(cache)@[k]),
{
    let mut out: Vec<ApiGame> = Vec::new();
    let ns = payload.steam.len();
    for i in 0..ns
        invariant
            ns == payload.steam@.len(),
            out@.len() == i,
            forall|u: &String| call_requires(*url_exists, (u,)),
            forall|j: int| 0 <= j < i ==> {
                let g = #[trigger] payload.steam@[j];
                &&& api_view(out@[j]) == steam_api(g, opt_view(out@[j].poster_url))
                &&& cache@.contains_key(g.appid@)
                &&& cache@[g.appid@] == opt_view(out@[j].poster_url)
            },
            forall|k: Seq<char>| #[trigger] old(cache)@.contains_key(k) ==> cache@.contains_key(k) && cache@[k] == old(cache)@[k],
            forall|k: Seq<char>| #[trigger] cache@.contains_key(k) && !old(cache)@.contains_key(k) ==> probed_poster(*url_exists, k, cache@[k]),
    {
        let g = &payload.steam[i];
        let ghost before = cache@;
        let poster = steam_poster_url(cache, g.appid.as_str(), url_exists);
        proof {
            if !before.contains_key(g.appid@) {
                let cands = choose|cands: Seq<String>| cands.map_values(|s: String| s@) == poster_candidates(g.appid@) && probe_outcome(*url_exists, cands, poster);
                assert(probe_outcome(*url_exists, cands, poster));
                assert(probed_poster(*url_exists, g.appid@, opt_view(poster)));
            }
            assert forall|k: Seq<char>| #[trigger] cache@.contains_key(k) && !old(cache)@.contains_key(k) implies probed_poster(*url_exists, k, cache@[k]) by {
                if k != g.appid@ {
                    assert(before.contains_key(k));
                }
            }
        }
        out.push(ApiGame { id: steam_game_id(g), source: String::from_str("steam"), name: g.name.clone(), poster_url: poster });
        assert forall|j: int| 0 <= j < i + 1 implies {
            let h = #[trigger] payload.steam@[j];
            &&& api_view(out@[j]) == steam_api(h, opt_view(out@[j].poster_url))
            &&& cache@.contains_key(h.appid@)
            &&& cache@[h.appid@] == opt_view(out@[j].poster_url)
        } by {
            if j < i {
                let h = payload.steam@[j];
                assert(before.contains_key(h.appid@));
                if h.appid@ != g.appid@ {
                } else {
                    assert(before.contains_key(g.appid@));
                }
            }
        }
    }
    let ne = payload.epic.len();
    for i in 0..ne
        invariant
            ns == payload.steam@.len(),
            ne == payload.epic@.len(),
            out@.len() == ns + i,
            forall|j: int| 0 <= j < ns ==> {
                let g = #[trigger] payload.steam@[j];
                &&& api_view(out@[j]) == steam_api(g, opt_view(out@[j].poster_url))
                &&& cache@.contains_key(g.appid@)
                &&& cache@[g.appid@] == opt_view(out@[j].poster_url)
            },
            forall|j: int| 0 <= j < i ==> api_view(out@[ns + j]) == epic_api(#[trigger] payload.epic@[j]),
            forall|k: Seq<char>| #[trigger] old(cache)@.contains_key(k) ==> cache@.contains_key(k) && cache@[k] == old(cache)@[k],
            forall|k: Seq<char>| #[trigger] cache@.contains_key(k) && !old(cache)@.contains_key(k) ==> probed_poster(*url_exists, k, cache@[k]),
    {
        let g = &payload.epic[i];
        out.push(ApiGame { id: epic_game_id(g), source: String::from_str("epic"), name: g.display_name.clone(), poster_url: g.poster_url.clone() });
        assert(api_view(out@[ns + i]) == epic_api(payload.epic@[i as int]));
    }
    let ng = payload.gog.len();
    for i in 0..ng
        invariant
            ns == payload.steam@.len(),
            ne == payload.epic@.len(),
            ng == payload.gog@.len(),
            out@.len() == ns + ne + i,
            forall|j: int| 0 <= j < ns ==> {
                let g = #[trigger] payload.steam@[j];
                &&& api_view(out@[j]) == steam_api(g, opt_view(out@[j].poster_url))
                &&& cache@.contains_key(g.appid@)
                &&& cache@[g.appid@] == opt_view(out@[j].poster_url)
            },
            forall|j: int| 0 <= j < ne ==> api_view(out@[ns + j]) == epic_api(#[trigger] payload.epic@[j]),
            forall|j: int| 0 <= j < i ==> api_view(out@[ns + ne + j]) == gog_api(#[trigger] payload.gog@[j]),
            forall|k: Seq<char>| #[trigger] old(cache)@.contains_key(k) ==> cache@.contains_key(k) && cache@[k] == old(cache)@[k],
            forall|k: Seq<char>| #[trigger] cache@.contains_key(k) && !old(cache)@.contains_key(k) ==> probed_poster(*url_exists, k, cache@[k]),
    {
        let g = &payload.gog[i];
        out.push(ApiGame { id: gog_game_id(g), source: String::from_str("gog"), name: g.display_name.clone(), poster_url: None });
    }
    out
}

pub open spec fn running_steam_api(g: RunningSteamGame) -> (Seq<char>, Seq<char>, Seq<char>, u32, Seq<char>) {
    (g.appid@, "steam"@, g.name@, g.pid, g.exe_path@)
}

/// The API identifier of a running Epic game: its app name, or `pid:` and
/// its process id when it has none.
pub open spec fn running_epic_id(g: RunningEpicGame) -> Seq<char> {
    if g.app_name@.len() > 0 {
        g.app_name@
    } else {
        "pid:"@ + decimal(g.pid as nat)
    }
}

pub open spec fn running_epic_api(g: RunningEpicGame) -> (Seq<char>, Seq<char>, Seq<char>, u32, Seq<char>) {
    (running_epic_id(g), "epic"@, g.display_name@, g.pid, g.exe_path@)
}

pub open spec fn running_gog_api(g: RunningGogGame) -> (Seq<char>, Seq<char>, Seq<char>, u32, Seq<char>) {
    (g.source_key@, "gog"@, g.display_name@, g.pid, g.exe_path@)
}

pub open spec fn running_view(a: ApiRunningGame) -> (Seq<char>, Seq<char>, Seq<char>, u32, Seq<char>) {
    (a.id@, a.source@, a.name@, a.pid, a.exe_path@)
}

/// The list `GET /games/running` serves: running Steam games, then Epic,
/// then GOG, each in the order given.
pub fn build_running_games_list(
    steam: &Vec<RunningSteamGame>,
    epic: &Vec<RunningEpicGame>,
    gog: &Vec<RunningGogGame>,
) -> (r: Vec<ApiRunningGame>)
    ensures
        r@.len() == steam@.len() + epic@.len() + gog@.len(),
        forall|i: int| 0 <= i < steam@.len() ==> running_view(r@[i]) == running_steam_api(#[trigger] steam@[i]),
        forall|i: int| 0 <= i < epic@.len() ==> running_view(r@[steam@.len() + i]) == running_epic_api(#[trigger] epic@[i]),
        forall|i: int| 0 <= i < gog@.len() ==> running_view(r@[steam@.len() + epic@.len() + i]) == running_gog_api(#[trigger] gog@[i]),
{
    let mut out: Vec<ApiRunningGame> = Vec::new();
    let ns = steam.len();
    for i in 0..ns
        invariant
            ns == steam@.len(),
            out@.len() == i,
            forall|j: int| 0 <= j < i ==> running_view(out@[j]) == running_steam_api(#[trigger] steam@[j]),
    {
        let g = &steam[i];
        out.push(ApiRunningGame { id: g.appid.clone(), source: String::from_str("steam"), name: g.name.clone(), pid: g.pid, exe_path: g.exe_path.clone() });
    }
    let ne = epic.len();
    for i in 0..ne
        invariant
            ns == steam@.len(),
            ne == epic@.len(),
            out@.len() == ns + i,
            forall|j: int| 0 <= j < ns ==> running_view(out@[j]) == running_steam_api(#[trigger] steam@[j]),
            forall|j: int| 0 <= j < i ==> running_view(out@[ns + j]) == running_epic_api(#[trigger] epic@[j]),
    {
        let g = &epic[i];
        let id = if !g.app_name.as_str().is_empty() {
            g.app_name.clone()
        } else {
            let digits = u32_decimal(g.pid);
            String::from_str("pid:").concat(string_of(&digits).as_str())
        };
        out.push(ApiRunningGame { id, source: String::from_str("epic"), name: g.display_name.clone(), pid: g.pid, exe_path: g.exe_path.clone() });
        assert(running_view(out@[ns + i]) == running_epic_api(epic@[i as int]));
    }
    let ng = gog.len();
    for i in 0..ng
        invariant
            ns == steam@.len(),
            ne == epic@.len(),
            ng == gog@.len(),
            out@.len() == ns + ne + i,
            forall|j: int| 0 <= j < ns ==> running_view(out@[j]) == running_steam_api(#[trigger] steam@[j]),
            forall|j: int| 0 <= j < ne ==> running_view(out@[ns + j]) == running_epic_api(#[trigger] epic@[j]),
            forall|j: int| 0 <= j < i ==> running_view(out@[ns + ne + j]) == running_gog_api(#[trigger] gog@[j]),
    {
        let g = &gog[i];
        out.push(ApiRunningGame { id: g.source_key.clone(), source: String::from_str("gog"), name: g.display_name.clone(), pid: g.pid, exe_path: g.exe_path.clone() });
    }
    out
}

/// The endpoints of the HTTP API.
#[derive(Clone, Copy, Debug, PartialEq, Eq, Structural)]
pub enum Route {
    Suspend,
    Games,
    RunningGames,
    Windows,
    Launch,
    NotFound,
}

/// The request path: the URL before its query, without trailing slashes.
pub open spec fn request_path(url: Seq<char>) -> Seq<char> {
    trim_end_by(before_char(url, '?'), CharClass::Exactly('/'))
}

/// The endpoint a request reaches: `GET` or `POST /suspend`, `GET /games`,
/// `GET /games/running`, `GET /windows`, `POST /games/launch`; anything
/// else is not found.
pub open spec fn route_of(method: Seq<char>, url: Seq<char>) -> Route {
    let p = request_path(url);
    if (method == "GET"@ || method == "POST"@) && p == "/suspend"@ {
        Route::Suspend
    } else if method == "GET"@ && p == "/games"@ {
        Route::Games
    } else if method == "GET"@ && p == "/games/running"@ {
        Route::RunningGames
    } else if method == "GET"@ && p == "/windows"@ {
        Route::Windows
    } else if method == "POST"@ && p == "/games/launch"@ {
        Route::Launch
    } else {
        Route::NotFound
    }
}

fn is_lit(s: &Vec<char>, lit: &str) -> (r: bool)
    ensures
        r == (s@ == lit@),
{
    chars_eq(s, &chars_of(lit))
}

/// The endpoint for a request's method and URL.
pub fn route_request(method: &str, url: &str) -> (r: Route)
    ensures
        r == route_of(method@, url@),
{
    let m = chars_of(method);
    let u = chars_of(url);
    let before = before_char_exec(&u, '?');
    let p = trim_end_chars(&before, CharClass::Exactly('/'));
    let get = is_lit(&m, "GET");
    let post = is_lit(&m, "POST");
    if (get || post) && is_lit(&p, "/suspend") {
        Route::Suspend
    } else if get && is_lit(&p, "/games") {
        Route::Games
    } else if get && is_lit(&p, "/games/running") {
        Route::RunningGames
    } else if get && is_lit(&p, "/windows") {
        Route::Windows
    } else if post && is_lit(&p, "/games/launch") {
        Route::Launch
    } else {
        Route::NotFound
    }
}

pub open spec fn is_first_index(ids: Seq<Seq<char>>, id: Seq<char>, i: int) -> bool {
    &&& 0 <= i < ids.len()
    &&& ids[i] == id
    &&& forall|j: int| 0 <= j < i ==> #[trigger] ids[j] != id
}

/// Index of the first occurrence of `id`.
pub open spec fn first_index(ids: Seq<Seq<char>>, id: Seq<char>) -> Option<int> {
    if exists|i: int| is_first_index(ids, id, i) {
        Some(choose|i: int| is_first_index(ids, id, i))
    } else {
        None
    }
}

proof fn lemma_first_index(ids: Seq<Seq<char>>, id: Seq<char>, i: int)
    requires
        is_first_index(ids, id, i),
    ensures
        first_index(ids, id) == Some(i),
{
    let k = choose|k: int| is_first_index(ids, id, k);
    if k < i {
        assert(ids[k] != id);
    }
    if i < k {
        assert(ids[i] != id);
    }
}

proof fn lemma_no_index(ids: Seq<Seq<char>>, id: Seq<char>)
    requires
        forall|j: int| 0 <= j < ids.len() ==> #[trigger] ids[j] != id,
    ensures
        first_index(ids, id) is None,
{
}

pub open spec fn steam_ids(gs: Seq<SteamGame>) -> Seq<Seq<char>> {
    gs.map_values(|g: SteamGame| g.appid@)
}

pub open spec fn epic_ids(gs: Seq<EpicGame>) -> Seq<Seq<char>> {
    gs.map_values(|g: EpicGame| epic_id(g))
}

pub open spec fn gog_ids(gs: Seq<GogGame>) -> Seq<Seq<char>> {
    gs.map_values(|g: GogGame| g.source_key@)
}

/// The game a launch request designates, by position in its store's list.
#[derive(Clone, Copy, Debug, PartialEq, Eq, Structural)]
pub enum LaunchTarget {
    Steam(usize),
    Epic(usize),
    Gog(usize),
}

pub open spec fn count_some(a: bool, b: bool, c: bool) -> int {
    (if a { 1int } else { 0int }) + (if b { 1int } else { 0int }) + (if c { 1int } else { 0int })
}

pub open spec fn not_found_message(id: Seq<char>) -> Seq<char> {
    "game '"@ + id + "' not found"@
}

pub open spec fn ambiguous_message(id: Seq<char>) -> Seq<char> {
    "game id '"@ + id + "' is ambiguous across sources"@
}

/// Which game a launch request designates: the first game with that id in
/// the one store that has it; an error when no store has it or more than
/// one does.
pub open spec fn launch_target_of(p: GamesPayload, id: Seq<char>) -> Result<LaunchTarget, Seq<char>> {
    let s = first_index(steam_ids(p.steam@), id);
    let e = first_index(epic_ids(p.epic@), id);
    let g = first_index(gog_ids(p.gog@), id);
    let n = count_some(s is Some, e is Some, g is Some);
    if n == 0 {
        Err(not_found_message(id))
    } else if n > 1 {
        Err(ambiguous_message(id))
    } else if s is Some {
        Ok(LaunchTarget::Steam(s.unwrap() as usize))
    } else if e is Some {
        Ok(LaunchTarget::Epic(e.unwrap() as usize))
    } else {
        Ok(LaunchTarget::Gog(g.unwrap() as usize))
    }
}

pub open spec fn result_view(r: Result<LaunchTarget, String>) -> Result<LaunchTarget, Seq<char>> {
    match r {
        Ok(t) => Ok(t),
        Err(e) => Err(e@),
    }
}

fn find_id(ids: &Vec<String>, id: &str) -> (r: Option<usize>)
    ensures
        match r {
            Some(i) => first_index(string_views(ids@), id@) == Some(i as int),
            None => first_index(string_views(ids@), id@) is None,
        },
{
    let ghost v = string_views(ids@);
    let n = ids.len();
    for i in 0..n
        invariant
            n == ids.len(),
            v == string_views(ids@),
            forall|j: int| 0 <= j < i ==> #[trigger] v[j] != id@,
    {
        if crate::json::str_eq(ids[i].as_str(), id) {
            proof {
                lemma_first_index(v, id@, i as int);
            }
            return Some(i);
        }
    }
    proof {
        lemma_no_index(v, id@);
    }
    None
}


fn steam_key(g: &SteamGame) -> (r: String)
    ensures
        r@ == g.appid@,
{
    steam_game_id(g)
}

fn epic_key(g: &EpicGame) -> (r: String)
    ensures
        r@ == epic_id(*g),
{
    epic_game_id(g)
}

fn gog_key_of(g: &GogGame) -> (r: String)
    ensures
        r@ == g.source_key@,
{
    gog_game_id(g)
}

fn running_steam_key(g: &RunningSteamGame) -> (r: String)
    ensures
        r@ == g.appid@,
{
    g.appid.clone()
}

fn running_epic_key(g: &RunningEpicGame) -> (r: String)
    ensures
        r@ == g.app_name@,
{
    g.app_name.clone()
}

fn running_gog_key(g: &RunningGogGame) -> (r: String)
    ensures
        r@ == g.source_key@,
{
    g.source_key.clone()
}

/// The key of each item, computed by `key`, whose results `k` describes.
fn keys_of<T, F: Fn(&T) -> String>(items: &Vec<T>, key: &F, Ghost(k): Ghost<spec_fn(T) -> Seq<char>>) -> (r: Vec<String>)
    requires
        forall|t: &T| #[trigger] call_requires(*key, (t,)),
        forall|t: &T, s: String| #[trigger] call_ensures(*key, (t,), s) ==> s@ == k(*t),
    ensures
        string_views(r@) == items@.map_values(k),
{
    let mut out: Vec<String> = Vec::new();
    let n = items.len();
    for i in 0..n
        invariant
            n == items@.len(),
            forall|t: &T| #[trigger] call_requires(*key, (t,)),
            forall|t: &T, s: String| #[trigger] call_ensures(*key, (t,), s) ==> s@ == k(*t),
            out@.len() == i,
            forall|j: int| 0 <= j < i ==> (#[trigger] out@[j])@ == k(items@[j]),
    {
        let x = key(&items[i]);
        out.push(x);
    }
    assert(string_views(out@) =~= items@.map_values(k));
    out
}

/// The game a launch request designates.
pub fn resolve_launch(payload: &GamesPayload, id: &str) -> (r: Result<LaunchTarget, String>)
    ensures
        result_view(r) == launch_target_of(*payload, id@),
{
    let sids = keys_of(&payload.steam, &steam_key, Ghost(|g: SteamGame| g.appid@));
    assert(string_views(sids@) =~= steam_ids(payload.steam@));
    let eids = keys_of(&payload.epic, &epic_key, Ghost(|g: EpicGame| epic_id(g)));
    assert(string_views(eids@) =~= epic_ids(payload.epic@));
    let gids = keys_of(&payload.gog, &gog_key_of, Ghost(|g: GogGame| g.source_key@));
    assert(string_views(gids@) =~= gog_ids(payload.gog@));
    let s = find_id(&sids, id);
    let e = find_id(&eids, id);
    let g = find_id(&gids, id);
    let n: u8 = (if s.is_some() { 1u8 } else { 0u8 }) + (if e.is_some() { 1u8 } else { 0u8 }) + (if g.is_some() { 1u8 } else { 0u8 });
    if n == 0 {
        Err(String::from_str("game '").concat(id).concat("' not found"))
    } else if n > 1 {
        Err(String::from_str("game id '").concat(id).concat("' is ambiguous across sources"))
    } else {
        match s {
            Some(i) => Ok(LaunchTarget::Steam(i)),
            None => match e {
                Some(i) => Ok(LaunchTarget::Epic(i)),
                None => match g {
                    Some(i) => Ok(LaunchTarget::Gog(i)),
                    None => Err(String::from_str("internal launch resolution error")),
                },
            },
        }
    }
}

/// What to do for a launch: bring an already running game's window to the
/// front, open a Steam URL, or start the game through its store.
#[derive(Clone, Debug)]
pub enum LaunchAction {
    FocusWindow(u32),
    OpenUrl(String),
    LaunchGame,
}

pub open spec fn steam_run_url_of(appid: Seq<char>) -> Seq<char> {
    "steam://rungameid/"@ + appid
}

/// The URL that asks Steam to run a game.
pub fn steam_run_url(appid: &str) -> (r: String)
    ensures
        r@ == steam_run_url_of(appid@),
{
    String::from_str("steam://rungameid/").concat(appid)
}

/// Focus the first running instance with the game's app id, else open its
/// Steam run URL.
pub fn steam_launch_action(game: &SteamGame, running: &Vec<RunningSteamGame>) -> (r: LaunchAction)
    ensures
        ({
            let ids = running@.map_values(|g: RunningSteamGame| g.appid@);
            match first_index(ids, game.appid@) {
                Some(i) => r == LaunchAction::FocusWindow(running@[i].pid),
                None => r matches LaunchAction::OpenUrl(u) && u@ == steam_run_url_of(game.appid@),
            }
        }),
{
    let ids = keys_of(running, &running_steam_key, Ghost(|g: RunningSteamGame| g.appid@));
    match find_id(&ids, game.appid.as_str()) {
        Some(i) => LaunchAction::FocusWindow(running[i].pid),
        None => LaunchAction::OpenUrl(steam_run_url(game.appid.as_str())),
    }
}

/// Focus the first running instance with the game's (non-empty) app name,
/// else start the game.
pub fn epic_launch_action(game: &EpicGame, running: &Vec<RunningEpicGame>) -> (r: LaunchAction)
    ensures
        ({
            let ids = running@.map_values(|g: RunningEpicGame| g.app_name@);
            if game.app_name@.len() > 0 && first_index(ids, game.app_name@) is Some {
                r == LaunchAction::FocusWindow(running@[first_index(ids, game.app_name@).unwrap()].pid)
            } else {
                r == LaunchAction::LaunchGame
            }
        }),
{
    if game.app_name.as_str().is_empty() {
        return LaunchAction::LaunchGame;
    }
    let ids = keys_of(running, &running_epic_key, Ghost(|g: RunningEpicGame| g.app_name@));
    match find_id(&ids, game.app_name.as_str()) {
        Some(i) => LaunchAction::FocusWindow(running[i].pid),
        None => LaunchAction::LaunchGame,
    }
}

/// Focus the first running instance with the game's uninstall key, else
/// start the game.
pub fn gog_launch_action(game: &GogGame, running: &Vec<RunningGogGame>) -> (r: LaunchAction)
    ensures
        ({
            let ids = running@.map_values(|g: RunningGogGame| g.source_key@);
            match first_index(ids, game.source_key@) {
                Some(i) => r == LaunchAction::FocusWindow(running@[i].pid),
                None => r == LaunchAction::LaunchGame,
            }
        }),
{
    let ids = keys_of(running, &running_gog_key, Ghost(|g: RunningGogGame| g.source_key@));
    match find_id(&ids, game.source_key.as_str()) {
        Some(i) => LaunchAction::FocusWindow(running[i].pid),
        None => LaunchAction::LaunchGame,
    }
}

/// The body answering a launch request that is not `{"id": "..."}`.
pub open spec fn invalid_request_body() -> Seq<char> {
    "{\"error\":\"invalid JSON body, expected {\\\"id\\\":\\\"...\\\"}\"}"@
}

/// The answer to a launch request whose body the request deserializer read
/// as `id` (`None`: not a launch request): the game to launch, or the status
/// and body to answer at once (400 for a bad body, 422 for an unknown or
/// ambiguous id).
pub fn resolve_launch_request(payload: &GamesPayload, id: Option<&str>) -> (r: Result<LaunchTarget, (u16, String)>)
    ensures
        match id {
            None => r matches Err((status, body)) && status == 400 && body@ == invalid_request_body(),
            Some(i) => match launch_target_of(*payload, i@) {
                Ok(t) => r == Ok::<LaunchTarget, (u16, String)>(t),
                Err(e) => r matches Err((status, body)) && status == 422 && body@ == "{\"error\":"@
                    + json_string_literal(e) + ",\"ok\":false}"@,
            },
        },
{
    match id {
        None => Err((400, String::from_str("{\"error\":\"invalid JSON body, expected {\\\"id\\\":\\\"...\\\"}\"}"))),
        Some(i) => match resolve_launch(payload, i) {
            Ok(t) => Ok(t),
            Err(e) => Err(launch_response(&Err(e))),
        },
    }
}

/// The status and JSON body answering a launch: `200 {"ok":true}`, or
/// `422` with the error message and `"ok":false` (members in key order).
pub fn launch_response(result: &Result<(), String>) -> (r: (u16, String))
    ensures
        match result {
            Ok(()) => r.0 == 200 && r.1@ == "{\"ok\":true}"@,
            Err(e) => r.0 == 422 && r.1@ == "{\"error\":"@ + json_string_literal(e@) + ",\"ok\":false}"@,
        },
{
    match result {
        Ok(()) => (200, String::from_str("{\"ok\":true}")),
        Err(e) => {
            let quoted = json_quote(e.as_str());
            (422, String::from_str("{\"error\":").concat(quoted.as_str()).concat(",\"ok\":false}"))
        },
    }
}

proof fn lemma_first_index_found(ids: Seq<Seq<char>>, id: Seq<char>)
    requires
        ids.contains(id),
    ensures
        exists|i: int| is_first_index(ids, id, i),
    decreases ids.len(),
{
    let p = ids.drop_last();
    if p.contains(id) {
        lemma_first_index_found(p, id);
        let i = choose|i: int| is_first_index(p, id, i);
        assert(ids[i] == p[i]);
        assert forall|j: int| 0 <= j < i implies #[trigger] ids[j] != id by {
            assert(ids[j] == p[j]);
        }
        assert(is_first_index(ids, id, i));
    } else {
        let k = choose|k: int| 0 <= k < ids.len() && ids[k] == id;
        if k < ids.len() - 1 {
            assert(p[k] == ids[k]);
        }
        assert forall|j: int| 0 <= j < ids.len() - 1 implies #[trigger] ids[j] != id by {
            assert(p[j] == ids[j]);
        }
        assert(is_first_index(ids, id, ids.len() - 1));
    }
}

/// What the first index of an id is: the position of its first occurrence,
/// and none exactly when the id does not occur.
pub proof fn lemma_first_index_spec(ids: Seq<Seq<char>>, id: Seq<char>)
    ensures
        first_index(ids, id) matches Some(i) ==> is_first_index(ids, id, i),
        first_index(ids, id) is None <==> !ids.contains(id),
{
    if ids.contains(id) {
        lemma_first_index_found(ids, id);
    } else {
        if exists|i: int| is_first_index(ids, id, i) {
            let i = choose|i: int| is_first_index(ids, id, i);
            assert(ids.contains(id));
        }
    }
}

/// A launch request is resolved to a game that carries the requested id,
/// the first such game of its store, and no other store has a game with
/// that id; it is refused exactly when no store, or more than one, has it.
pub proof fn law_launch_target_has_id(p: GamesPayload, id: Seq<char>)
    ensures
        launch_target_of(p, id) matches Ok(LaunchTarget::Steam(i)) ==> is_first_index(steam_ids(p.steam@), id, i as int)
            && !epic_ids(p.epic@).contains(id) && !gog_ids(p.gog@).contains(id),
        launch_target_of(p, id) matches Ok(LaunchTarget::Epic(i)) ==> is_first_index(epic_ids(p.epic@), id, i as int)
            && !steam_ids(p.steam@).contains(id) && !gog_ids(p.gog@).contains(id),
        launch_target_of(p, id) matches Ok(LaunchTarget::Gog(i)) ==> is_first_index(gog_ids(p.gog@), id, i as int)
            && !steam_ids(p.steam@).contains(id) && !epic_ids(p.epic@).contains(id),
        launch_target_of(p, id) is Err <==> count_some(
            steam_ids(p.steam@).contains(id),
            epic_ids(p.epic@).contains(id),
            gog_ids(p.gog@).contains(id),
        ) != 1,
{
    lemma_first_index_spec(steam_ids(p.steam@), id);
    lemma_first_index_spec(epic_ids(p.epic@), id);
    lemma_first_index_spec(gog_ids(p.gog@), id);
    assert(p.steam.len() == p.steam@.len());
    assert(p.epic.len() == p.epic@.len());
    assert(p.gog.len() == p.gog@.len());
}

/// The query string of a request URL does not change the endpoint it
/// reaches.
pub proof fn law_route_ignores_query(method: Seq<char>, path: Seq<char>, query: Seq<char>)
    requires
        !path.contains('?'),
    ensures
        route_of(method, path + "?"@ + query) == route_of(method, path),
{
    reveal_strlit("?");
    assert("?"@ =~= seq!['?']);
    crate::text::lemma_before_char(path, query, '?');
}

/// A trailing slash on a request path does not change the endpoint it
/// reaches.
pub proof fn law_route_ignores_trailing_slash(method: Seq<char>, path: Seq<char>)
    requires
        !path.contains('?'),
    ensures
        route_of(method, path + "/"@) == route_of(method, path),
{
    reveal_strlit("/");
    let s = path + "/"@;
    assert(s =~= path.push('/'));
    assert(!s.contains('?')) by {
        if s.contains('?') {
            let k = choose|k: int| 0 <= k < s.len() && s[k] == '?';
            assert(path[k] == '?');
        }
    }
    crate::text::lemma_before_char(path, Seq::empty(), '?');
    crate::text::lemma_before_char(s, Seq::empty(), '?');
    assert(s.drop_last() =~= path);
}

/// A poster resolved by probing is one of the portrait candidates (posters
/// never fall back to other art).
pub proof fn law_resolved_poster_is_candidate<F: Fn(&String) -> bool>(url_exists: F, cands: Seq<String>, r: Option<String>)
    requires
        probe_outcome(url_exists, cands, r),
    ensures
        r matches Some(u) ==> cands.contains(u),
{
    if r is Some {
        let k = choose|k: int|
            0 <= k < cands.len() && r.unwrap() == cands[k] && call_ensures(url_exists, (&cands[k],), true)
                && forall|j: int| 0 <= j < k ==> call_ensures(url_exists, (&#[trigger] cands[j],), false);
        assert(cands[k] == r.unwrap());
    }
}

/// Once an app's poster is resolved, the cache answers with that poster:
/// a lookup after recording a value finds that value.
pub proof fn law_poster_cache_read_after_write(cache: Map<Seq<char>, Option<Seq<char>>>, appid: Seq<char>, poster: Option<Seq<char>>)
    ensures
        cache.insert(appid, poster).contains_key(appid),
        cache.insert(appid, poster)[appid] == poster,
        forall|k: Seq<char>| k != appid && #[trigger] cache.contains_key(k) ==> cache.insert(appid, poster)[k] == cache[k],
{
}

} // verus!
