//! GOG games: recognising GOG entries among the Windows uninstall records,
//! resolving their executable and install location, picking the most
//! plausible executable of an install directory, matching running windows,
//! and checking a launch.
use vstd::prelude::*;
use crate::epic::opt_view;
use crate::paths::{file_name, file_name_exec, has_extension, has_extension_exec, parent, parent_exec};
use crate::process::{first_match, first_match_exec, AppInfo};
use crate::text::{
    before_char, before_char_exec, char_views, chars_eq, chars_of, concat_chars, has_substring,
    has_substring_exec, lemma_seq_lt_irreflexive, lemma_seq_lt_total, lemma_seq_lt_transitive, lower,
    seq_lt, seq_lt_exec, split_by, split_chars, string_of, string_views, to_lower, trim_by, trim_chars,
    utf8_len, utf8_len_at_least_3, CharClass,
};

verus! {

/// An installed GOG game, found in the uninstall records.
#[derive(Clone, Debug)]
pub struct GogGame {
    pub display_name: String,
    pub install_location: String,
    pub launch_executable: String,
    pub source_key: String,
}

/// An installed GOG game whose window is open.
#[derive(Clone, Debug)]
pub struct RunningGogGame {
    pub display_name: String,
    pub source_key: String,
    pub pid: u32,
    pub exe_path: String,
}

/// A registry string value as the launcher reads it: surrounding whitespace
/// and then surrounding double quotes removed.
pub open spec fn registry_text(raw: Seq<char>) -> Seq<char> {
    trim_by(trim_by(raw, CharClass::Whitespace), CharClass::Exactly('"'))
}

/// The executable path of a `DisplayIcon` value such as `"C:\x.exe",0`:
/// unquoted, up to the first comma, trimmed and unquoted again.
pub open spec fn display_icon_path(raw: Seq<char>) -> Seq<char> {
    if raw.len() == 0 {
        Seq::empty()
    } else {
        let stripped = trim_by(trim_by(raw, CharClass::Whitespace), CharClass::Exactly('"'));
        let icon = trim_by(before_char(stripped, ','), CharClass::Whitespace);
        trim_by(icon, CharClass::Exactly('"'))
    }
}

/// The path's extension is `exe`, ignoring ASCII case.
pub open spec fn executable_path(path: Seq<char>) -> bool {
    has_extension(path, "exe"@)
}

/// The text that GOG detection searches: the four values joined by spaces.
pub open spec fn source_blob(d: Seq<char>, p: Seq<char>, u: Seq<char>, k: Seq<char>) -> Seq<char> {
    d + seq![' '] + p + seq![' '] + u + seq![' '] + k
}

/// An uninstall record is a GOG game: it has a display name, "gog" occurs in
/// its name, publisher, uninstall command or key name, and it is not GOG
/// Galaxy itself (all ignoring ASCII case).
pub open spec fn gog_candidate(d: Seq<char>, p: Seq<char>, u: Seq<char>, k: Seq<char>) -> bool {
    &&& d.len() > 0
    &&& has_substring(lower(source_blob(d, p, u, k)), "gog"@)
    &&& !has_substring(lower(d), "gog galaxy"@)
}

/// The launch executable a `DisplayIcon` value gives: its path when that is
/// an `.exe`, else nothing.
pub open spec fn launch_from_display_icon(icon: Seq<char>) -> Seq<char> {
    let l = display_icon_path(icon);
    if executable_path(l) {
        l
    } else {
        Seq::empty()
    }
}

pub fn registry_string(raw: &str) -> (r: String)
    ensures
        r@ == registry_text(raw@),
{
    let c = chars_of(raw);
    let t = trim_chars(&c, CharClass::Whitespace);
    let q = trim_chars(&t, CharClass::Exactly('"'));
    string_of(&q)
}

/// The executable path of a `DisplayIcon` registry value.
pub fn normalize_display_icon_path(raw: &str) -> (r: String)
    ensures
        r@ == display_icon_path(raw@),
{
    if raw.is_empty() {
        return String::new();
    }
    let c = chars_of(raw);
    let t = trim_chars(&c, CharClass::Whitespace);
    let stripped = trim_chars(&t, CharClass::Exactly('"'));
    let first = before_char_exec(&stripped, ',');
    let icon = trim_chars(&first, CharClass::Whitespace);
    let r = trim_chars(&icon, CharClass::Exactly('"'));
    string_of(&r)
}

/// Whether a path names an `.exe` file.
pub fn is_executable_path(path: &str) -> (r: bool)
    ensures
        r == executable_path(path@),
{
    let p = chars_of(path);
    let e = chars_of("exe");
    has_extension_exec(&p, &e)
}

/// Whether an uninstall record describes a GOG game.
pub fn is_gog_entry(display_name: &str, publisher: &str, uninstall_string: &str, subkey_name: &str) -> (r: bool)
    ensures
        r == gog_candidate(display_name@, publisher@, uninstall_string@, subkey_name@),
{
    if display_name.is_empty() {
        return false;
    }
    let mut sp: Vec<char> = Vec::new();
    sp.push(' ');
    let d = chars_of(display_name);
    let b1 = concat_chars(&d, &sp);
    let b2 = concat_chars(&b1, &chars_of(publisher));
    let b3 = concat_chars(&b2, &sp);
    let b4 = concat_chars(&b3, &chars_of(uninstall_string));
    let b5 = concat_chars(&b4, &sp);
    let blob = concat_chars(&b5, &chars_of(subkey_name));
    assert(sp@ =~= seq![' ']);
    let lb = to_lower(&blob);
    if !has_substring_exec(&lb, &chars_of("gog")) {
        return false;
    }
    let ld = to_lower(&d);
    !has_substring_exec(&ld, &chars_of("gog galaxy"))
}

/// The launch executable named by a `DisplayIcon` value (empty when it is
/// not an `.exe`).
pub fn gog_launch_executable(display_icon: &str) -> (r: String)
    ensures
        r@ == launch_from_display_icon(display_icon@),
{
    let l = normalize_display_icon_path(display_icon);
    if is_executable_path(l.as_str()) {
        l
    } else {
        String::new()
    }
}

pub open spec fn sat_sub(p: int, k: int) -> int {
    if p >= k {
        p - k
    } else {
        0
    }
}

/// File names that mark installers and helpers.
pub open spec fn helper_name(f: Seq<char>) -> bool {
    ||| has_substring(f, "unins"@)
    ||| has_substring(f, "setup"@)
    ||| has_substring(f, "install"@)
    ||| has_substring(f, "uninstall"@)
    ||| has_substring(f, "crash"@)
    ||| has_substring(f, "config"@)
    ||| has_substring(f, "support"@)
    ||| has_substring(f, "redist"@)
}

/// Penalty of an executable before the name tokens: helpers +50, launchers
/// +10, redistributable/support/DirectX folders +40, then -10 (not below
/// zero) inside `\system\` or `\bin\`.
pub open spec fn base_penalty(f: Seq<char>, full: Seq<char>) -> int {
    let p1: int = if helper_name(f) {
        50
    } else {
        0
    };
    let p2: int = p1 + if has_substring(f, "launcher"@) {
        10int
    } else {
        0int
    };
    let p3: int = p2 + if has_substring(full, "\\_redist"@) || has_substring(full, "\\support"@)
        || has_substring(full, "\\directx"@) {
        40int
    } else {
        0int
    };
    if has_substring(full, "\\system\\"@) || has_substring(full, "\\bin\\"@) {
        sat_sub(p3, 10)
    } else {
        p3
    }
}

/// Each token of the game's name that occurs in the file name takes 15 off
/// the penalty (not below zero).
pub open spec fn token_discount(p: int, f: Seq<char>, toks: Seq<Seq<char>>) -> int
    decreases toks.len(),
{
    if toks.len() == 0 {
        p
    } else {
        let q = token_discount(p, f, toks.drop_last());
        if has_substring(f, toks.last()) {
            sat_sub(q, 15)
        } else {
            q
        }
    }
}

/// Tokens of a game's name: its ASCII-lowercased pieces between
/// non-alphanumeric characters that take at least three bytes.
pub open spec fn name_tokens(display: Seq<char>) -> Seq<Seq<char>> {
    split_by(lower(display), CharClass::NotAlphanumeric).filter(long_token())
}

/// Tokens that take at least three bytes in UTF-8.
pub open spec fn long_token() -> spec_fn(Seq<char>) -> bool {
    |t: Seq<char>| utf8_len(t) >= 3
}

/// The lowercased file name of a candidate path (empty when it has none).
pub open spec fn candidate_file(c: Seq<char>) -> Seq<char> {
    match file_name(c) {
        Some(f) => lower(f),
        None => Seq::empty(),
    }
}

pub open spec fn candidate_penalty(c: Seq<char>, toks: Seq<Seq<char>>) -> int {
    let f = candidate_file(c);
    token_discount(base_penalty(f, lower(c)), f, toks)
}

/// Candidates are ordered by penalty, then by lowercased file name.
pub open spec fn ranks_before(a: Seq<char>, b: Seq<char>, toks: Seq<Seq<char>>) -> bool {
    let pa = candidate_penalty(a, toks);
    let pb = candidate_penalty(b, toks);
    pa < pb || (pa == pb && seq_lt(candidate_file(a), candidate_file(b)))
}

/// `i` is the candidate that a stable sort by rank puts first: no candidate
/// ranks before it, and it ranks before every earlier candidate.
pub open spec fn is_best_candidate(cands: Seq<Seq<char>>, toks: Seq<Seq<char>>, i: int) -> bool {
    &&& 0 <= i < cands.len()
    &&& forall|k: int| 0 <= k < cands.len() ==> !ranks_before(#[trigger] cands[k], cands[i], toks)
    &&& forall|k: int| 0 <= k < i ==> ranks_before(cands[i], #[trigger] cands[k], toks)
}


proof fn lemma_ranks_transitive(a: Seq<char>, b: Seq<char>, c: Seq<char>, toks: Seq<Seq<char>>)
    requires
        ranks_before(a, b, toks),
        ranks_before(b, c, toks),
    ensures
        ranks_before(a, c, toks),
{
    if candidate_penalty(a, toks) == candidate_penalty(b, toks) && candidate_penalty(b, toks)
        == candidate_penalty(c, toks) {
        lemma_seq_lt_transitive(candidate_file(a), candidate_file(b), candidate_file(c));
    }
}

proof fn lemma_ranks_total(a: Seq<char>, b: Seq<char>, toks: Seq<Seq<char>>)
    ensures
        ranks_before(a, b, toks) || ranks_before(b, a, toks) || (candidate_penalty(a, toks)
            == candidate_penalty(b, toks) && candidate_file(a) == candidate_file(b)),
{
    lemma_seq_lt_total(candidate_file(a), candidate_file(b));
}

/// The name tokens of a display name.
pub fn name_tokens_exec(display_name: &str) -> (r: Vec<Vec<char>>)
    ensures
        char_views(r@) == name_tokens(display_name@),
{
    let d = chars_of(display_name);
    let l = to_lower(&d);
    let pieces = split_chars(&l, CharClass::NotAlphanumeric);
    let ghost ps = split_by(lower(display_name@), CharClass::NotAlphanumeric);
    let mut out: Vec<Vec<char>> = Vec::new();
    let n = pieces.len();
    assert(char_views(pieces@) =~= ps);
    for i in 0..n
        invariant
            n == pieces.len(),
            char_views(pieces@) == ps,
            char_views(out@) == ps.take(i as int).filter(long_token()),
    {
        proof {
            reveal_with_fuel(Seq::<_>::filter, 1);
        }
        assert(ps.take(i + 1).drop_last() =~= ps.take(i as int));
        assert(ps.take(i + 1).last() == ps[i as int]);
        assert(ps.take(i + 1).filter(long_token()) == (if long_token()(ps[i as int]) {
            ps.take(i as int).filter(long_token()).push(ps[i as int])
        } else {
            ps.take(i as int).filter(long_token())
        }));
        let ghost prev = out@;
        assert(char_views(pieces@)[i as int] == pieces@[i as int]@);
        if utf8_len_at_least_3(&pieces[i]) {
            assert(long_token()(ps[i as int]));
            let t = crate::text::slice_chars(&pieces[i], 0, pieces[i].len());
            assert(t@ =~= pieces@[i as int]@);
            out.push(t);
            assert(char_views(out@) =~= char_views(prev).push(t@));
        } else {
            assert(!long_token()(ps[i as int]));
        }
        assert(ps.take(i + 1).last() == ps[i as int]);
        assert(char_views(pieces@)[i as int] == pieces@[i as int]@);
    }
    assert(ps.take(n as int) =~= ps);
    out
}

fn contains_lit(l: &Vec<char>, lit: &str) -> (r: bool)
    ensures
        r == has_substring(l@, lit@),
{
    let n = chars_of(lit);
    has_substring_exec(l, &n)
}

/// The penalty and lowercased file name of a candidate.
fn candidate_rank(c: &str, toks: &Vec<Vec<char>>) -> (r: (u32, Vec<char>))
    ensures
        r.0 == candidate_penalty(c@, char_views(toks@)),
        r.1@ == candidate_file(c@),
{
    let cc = chars_of(c);
    let f = match file_name_exec(&cc) {
        Some(x) => to_lower(&x),
        None => Vec::new(),
    };
    let full = to_lower(&cc);
    let mut p: u32 = 0;
    if contains_lit(&f, "unins") || contains_lit(&f, "setup") || contains_lit(&f, "install")
        || contains_lit(&f, "uninstall") || contains_lit(&f, "crash") || contains_lit(&f, "config")
        || contains_lit(&f, "support") || contains_lit(&f, "redist") {
        p = p + 50;
    }
    if contains_lit(&f, "launcher") {
        p = p + 10;
    }
    if contains_lit(&full, "\\_redist") || contains_lit(&full, "\\support") || contains_lit(
        &full,
        "\\directx",
    ) {
        p = p + 40;
    }
    if contains_lit(&full, "\\system\\") || contains_lit(&full, "\\bin\\") {
        p = p.saturating_sub(10);
    }
    assert(p == base_penalty(f@, full@));
    let ghost ts = char_views(toks@);
    let n = toks.len();
    for i in 0..n
        invariant
            n == toks.len(),
            ts == char_views(toks@),
            p == token_discount(base_penalty(f@, full@), f@, ts.take(i as int)),
            p <= 100,
    {
        assert(ts.take(i + 1).drop_last() =~= ts.take(i as int));
        assert(ts.take(i + 1).last() == toks@[i as int]@);
        if has_substring_exec(&f, &toks[i]) {
            p = p.saturating_sub(15);
        }
    }
    assert(ts.take(n as int) =~= ts);
    (p, f)
}

/// The most plausible executable among `candidates`: the first one of least
/// penalty, ties broken by file name; empty when there is none.
fn best_candidate(candidates: &Vec<String>, display_name: &str) -> (r: String)
    ensures
        candidates@.len() == 0 ==> r@.len() == 0,
        candidates@.len() > 0 ==> exists|i: int|
            is_best_candidate(string_views(candidates@), name_tokens(display_name@), i) && r@
                == #[trigger] candidates@[i]@,
{
    if candidates.len() == 0 {
        return String::new();
    }
    let toks = name_tokens_exec(display_name);
    let ghost ts = name_tokens(display_name@);
    let ghost cs = string_views(candidates@);
    let (bp, bf) = candidate_rank(candidates[0].as_str(), &toks);
    proof {
        lemma_seq_lt_irreflexive(candidate_file(cs[0]));
    }
    let mut best: usize = 0;
    let mut best_p = bp;
    let mut best_f = bf;
    let n = candidates.len();
    let mut j: usize = 1;
    while j < n
        invariant
            n == candidates.len(),
            1 <= j <= n,
            best < j,
            ts == name_tokens(display_name@),
            char_views(toks@) == ts,
            cs == string_views(candidates@),
            best_p == candidate_penalty(cs[best as int], ts),
            best_f@ == candidate_file(cs[best as int]),
            forall|k: int| 0 <= k < j ==> !ranks_before(#[trigger] cs[k], cs[best as int], ts),
            forall|k: int| 0 <= k < best ==> ranks_before(cs[best as int], #[trigger] cs[k], ts),
        decreases n - j,
    {
        let (p, f) = candidate_rank(candidates[j].as_str(), &toks);
        assert(cs[j as int] == candidates@[j as int]@);
        let better = p < best_p || (p == best_p && seq_lt_exec(&f, &best_f));
        assert(better == ranks_before(cs[j as int], cs[best as int], ts));
        if better {
            proof {
                let b = best as int;
                assert forall|k: int| 0 <= k < j + 1 implies !ranks_before(
                    #[trigger] cs[k],
                    cs[j as int],
                    ts,
                ) by {
                    if k < j {
                        if ranks_before(cs[k], cs[j as int], ts) {
                            lemma_ranks_transitive(cs[k], cs[j as int], cs[b], ts);
                        }
                    } else {
                        lemma_seq_lt_irreflexive(candidate_file(cs[k]));
                    }
                }
                assert forall|k: int| 0 <= k < j implies ranks_before(
                    cs[j as int],
                    #[trigger] cs[k],
                    ts,
                ) by {
                    lemma_ranks_total(cs[b], cs[k], ts);
                    if ranks_before(cs[b], cs[k], ts) {
                        lemma_ranks_transitive(cs[j as int], cs[b], cs[k], ts);
                    } else if !ranks_before(cs[k], cs[b], ts) {
                        assert(candidate_penalty(cs[j as int], ts) < candidate_penalty(cs[k], ts)
                            || seq_lt(candidate_file(cs[j as int]), candidate_file(cs[k])));
                    }
                }
            }
            best = j;
            best_p = p;
            best_f = f;
        }
        j = j + 1;
    }
    assert(is_best_candidate(cs, ts, best as int));
    candidates[best].clone()
}

/// The `.exe` files among the files found under an install location.
pub open spec fn exe_files(files: Seq<Seq<char>>) -> Seq<Seq<char>> {
    files.filter(|f: Seq<char>| executable_path(f))
}

/// The most plausible game executable among the files found under the
/// install location (in the order found): of the `.exe` files, the first one
/// of least penalty, ties broken by file name; empty when there is none.
pub fn guess_game_executable(files: &Vec<String>, display_name: &str) -> (r: String)
    ensures
        exe_files(string_views(files@)).len() == 0 ==> r@.len() == 0,
        exe_files(string_views(files@)).len() > 0 ==> exists|i: int|
            is_best_candidate(exe_files(string_views(files@)), name_tokens(display_name@), i)
                && r@ == #[trigger] exe_files(string_views(files@))[i],
        r@.len() == 0 || executable_path(r@),
{
    let ghost fs = string_views(files@);
    let mut exes: Vec<String> = Vec::new();
    let n = files.len();
    for i in 0..n
        invariant
            n == files.len(),
            fs == string_views(files@),
            string_views(exes@) == exe_files(fs.take(i as int)),
    {
        proof {
            reveal_with_fuel(Seq::<_>::filter, 1);
        }
        assert(fs.take(i + 1).drop_last() =~= fs.take(i as int));
        assert(fs.take(i + 1).last() == files@[i as int]@);
        let ghost prev = exes@;
        if is_executable_path(files[i].as_str()) {
            let f = files[i].clone();
            exes.push(f);
            assert(string_views(exes@) =~= string_views(prev).push(files@[i as int]@));
        }
    }
    assert(fs.take(n as int) =~= fs);
    let ghost ex = string_views(exes@);
    let r = best_candidate(&exes, display_name);
    proof {
        if ex.len() > 0 {
            let i = choose|i: int| is_best_candidate(ex, name_tokens(display_name@), i) && r@ == #[trigger] exes@[i]@;
            assert(ex[i] == exes@[i]@);
            lemma_exe_files_are_exe(fs);
            assert(executable_path(ex[i]));
        }
    }
    r
}

proof fn lemma_exe_files_are_exe(fs: Seq<Seq<char>>)
    ensures
        forall|i: int| 0 <= i < exe_files(fs).len() ==> executable_path(#[trigger] exe_files(fs)[i]),
{
    let p = |f: Seq<char>| executable_path(f);
    assert forall|i: int| 0 <= i < exe_files(fs).len() implies executable_path(#[trigger] exe_files(fs)[i]) by {
        fs.filter_lemma(p);
        assert(exe_files(fs) == fs.filter(p));
    }
}

/// What to do with an uninstall record: skip it (not a GOG game), use the
/// launch executable its `DisplayIcon` gives (possibly empty), or guess one
/// from the files under its install location.
#[derive(Clone, Debug, PartialEq, Eq)]
pub enum GogRecord {
    Skip,
    Use(String),
    Guess,
}

/// The decision for an uninstall record: records that are not GOG games are
/// skipped; a record whose `DisplayIcon` names no `.exe` and that has an
/// install location needs a guess; otherwise the icon's `.exe` (or nothing)
/// is used.
pub fn gog_record(
    display_name: &str,
    publisher: &str,
    uninstall_string: &str,
    subkey_name: &str,
    install_location: &str,
    display_icon: &str,
) -> (r: GogRecord)
    ensures
        !gog_candidate(display_name@, publisher@, uninstall_string@, subkey_name@) ==> r == GogRecord::Skip,
        gog_candidate(display_name@, publisher@, uninstall_string@, subkey_name@) ==> {
            let l = launch_from_display_icon(display_icon@);
            if l.len() == 0 && install_location@.len() > 0 {
                r == GogRecord::Guess
            } else {
                r matches GogRecord::Use(x) && x@ == l
            }
        },
{
    if !is_gog_entry(display_name, publisher, uninstall_string, subkey_name) {
        return GogRecord::Skip;
    }
    let l = gog_launch_executable(display_icon);
    if l.as_str().is_empty() && !install_location.is_empty() {
        GogRecord::Guess
    } else {
        GogRecord::Use(l)
    }
}

/// A launch executable taken from a `DisplayIcon` value is empty or an
/// `.exe`, and is the icon's path whenever that path is an `.exe`.
pub proof fn law_gog_icon_launch_is_executable(icon: Seq<char>)
    ensures
        launch_from_display_icon(icon).len() == 0 || executable_path(launch_from_display_icon(icon)),
        executable_path(display_icon_path(icon)) ==> launch_from_display_icon(icon) == display_icon_path(icon),
{
}

/// The key that identifies a game among the uninstall records: its name,
/// install location and executable, lowercased and joined by `|`.
pub open spec fn gog_key(d: Seq<char>, i: Seq<char>, l: Seq<char>) -> Seq<char> {
    lower(d) + seq!['|'] + lower(i) + seq!['|'] + lower(l)
}

pub open spec fn game_key(g: GogGame) -> Seq<char> {
    gog_key(g.display_name@, g.install_location@, g.launch_executable@)
}

/// The install location of a record: as given, or when it is empty and a
/// launch executable is known, the executable's parent directory.
pub open spec fn resolved_install(install: Seq<char>, launch: Seq<char>) -> Seq<char> {
    if install.len() == 0 && launch.len() > 0 {
        match parent(launch) {
            Some(p) => p,
            None => install,
        }
    } else {
        install
    }
}

/// No two games share a key.
pub open spec fn distinct_keys(games: Seq<GogGame>) -> bool {
    forall|a: int, b: int|
        0 <= a < games.len() && 0 <= b < games.len() && a != b ==> game_key(#[trigger] games[a])
            != game_key(#[trigger] games[b])
}

fn gog_key_exec(d: &str, i: &str, l: &str) -> (r: Vec<char>)
    ensures
        r@ == gog_key(d@, i@, l@),
{
    let mut bar: Vec<char> = Vec::new();
    bar.push('|');
    assert(bar@ =~= seq!['|']);
    let a = concat_chars(&to_lower(&chars_of(d)), &bar);
    let b = concat_chars(&a, &to_lower(&chars_of(i)));
    let c = concat_chars(&b, &bar);
    concat_chars(&c, &to_lower(&chars_of(l)))
}

/// Adds a GOG uninstall record to the games found so far, unless a game
/// with the same key is already there; returns whether it was added. The
/// install location is resolved first and the source key is
/// `root_name\subkey_name`.
pub fn add_gog_game(
    games: &mut Vec<GogGame>,
    root_name: &str,
    subkey_name: &str,
    display_name: String,
    install_location: String,
    launch_executable: String,
) -> (added: bool)
    ensures
        ({
            let inst = resolved_install(install_location@, launch_executable@);
            let key = gog_key(display_name@, inst, launch_executable@);
            &&& added == !(exists|k: int|
                0 <= k < old(games)@.len() && game_key(#[trigger] old(games)@[k]) == key)
            &&& added ==> final(games)@.len() == old(games)@.len() + 1 && final(games)@.take(
                old(games)@.len() as int,
            ) == old(games)@ && final(games)@.last().display_name@ == display_name@
                && final(games)@.last().install_location@ == inst
                && final(games)@.last().launch_executable@ == launch_executable@
                && final(games)@.last().source_key@ == root_name@ + seq!['\\'] + subkey_name@
            &&& !added ==> final(games)@ == old(games)@
        }),
        distinct_keys(old(games)@) ==> distinct_keys(final(games)@),
{
    let mut inst = install_location.clone();
    if inst.as_str().is_empty() && !launch_executable.as_str().is_empty() {
        match parent_exec(&chars_of(launch_executable.as_str())) {
            Some(p) => {
                inst = string_of(&p);
            },
            None => {},
        }
    }
    let key = gog_key_exec(display_name.as_str(), inst.as_str(), launch_executable.as_str());
    let n = games.len();
    for k in 0..n
        invariant
            n == games.len(),
            games@ == old(games)@,
            inst@ == resolved_install(install_location@, launch_executable@),
            key@ == gog_key(display_name@, inst@, launch_executable@),
            forall|m: int| 0 <= m < k ==> game_key(#[trigger] games@[m]) != key@,
    {
        let other = gog_key_exec(
            games[k].display_name.as_str(),
            games[k].install_location.as_str(),
            games[k].launch_executable.as_str(),
        );
        if chars_eq(&other, &key) {
            assert(game_key(old(games)@[k as int]) == key@);
            return false;
        }
    }
    let source_key = String::from_str(root_name).concat("\\").concat(subkey_name);
    let ghost before = games@;
    games.push(
        GogGame { display_name, install_location: inst, launch_executable, source_key },
    );
    assert(games@.take(before.len() as int) =~= before);
    proof {
        reveal_strlit("\\");
        assert forall|a: int, b: int|
            0 <= a < games@.len() && 0 <= b < games@.len() && a != b && distinct_keys(before)
                implies game_key(#[trigger] games@[a]) != game_key(#[trigger] games@[b]) by {
            if a < before.len() && b < before.len() {
                assert(games@[a] == before[a]);
                assert(games@[b] == before[b]);
            } else if a < before.len() {
                assert(games@[a] == before[a]);
            } else {
                assert(games@[b] == before[b]);
            }
        }
    }
    true
}

/// Why a GOG game cannot be launched.
#[derive(Clone, Copy, Debug, PartialEq, Eq, Structural)]
pub enum LaunchErrorKind {
    NotFound,
    InvalidInput,
}

#[derive(Clone, Debug)]
pub struct LaunchError {
    pub kind: LaunchErrorKind,
    pub message: String,
}

/// The program to run for a GOG game and the directory to run it in.
#[derive(Clone, Debug)]
pub struct GogLaunchPlan {
    pub program: String,
    pub working_dir: Option<String>,
}

pub open spec fn gog_working_dir(g: GogGame) -> Option<Seq<char>> {
    match parent(g.launch_executable@) {
        Some(p) => Some(p),
        None => if g.install_location@.len() > 0 {
            Some(g.install_location@)
        } else {
            None
        },
    }
}

/// The checks and plan of `launch_gog_game`: a game without a launch
/// executable is `NotFound`, one whose executable is not an `.exe` is
/// `InvalidInput`; otherwise the executable runs in its parent directory
/// (or, if it has none, in the install location when that is known).
pub fn gog_launch_plan(game: &GogGame) -> (r: Result<GogLaunchPlan, LaunchError>)
    ensures
        game.launch_executable@.len() == 0 ==> (r matches Err(e) && e.kind is NotFound
            && e.message@ == "No launch executable found for GOG game"@),
        game.launch_executable@.len() > 0 && !executable_path(game.launch_executable@) ==> (r matches Err(e)
            && e.kind is InvalidInput && e.message@
            == "Resolved launch path is not an executable: "@ + game.launch_executable@),
        game.launch_executable@.len() > 0 && executable_path(game.launch_executable@) ==> (r matches Ok(p)
            && p.program@ == game.launch_executable@ && opt_view(p.working_dir)
            == gog_working_dir(*game)),
{
    if game.launch_executable.as_str().is_empty() {
        return Err(
            LaunchError {
                kind: LaunchErrorKind::NotFound,
                message: String::from_str("No launch executable found for GOG game"),
            },
        );
    }
    if !is_executable_path(game.launch_executable.as_str()) {
        return Err(
            LaunchError {
                kind: LaunchErrorKind::InvalidInput,
                message: String::from_str("Resolved launch path is not an executable: ").concat(
                    game.launch_executable.as_str(),
                ),
            },
        );
    }
    let working_dir = match parent_exec(&chars_of(game.launch_executable.as_str())) {
        Some(p) => Some(string_of(&p)),
        None => if !game.install_location.as_str().is_empty() {
            Some(game.install_location.clone())
        } else {
            None
        },
    };
    Ok(GogLaunchPlan { program: game.launch_executable.clone(), working_dir })
}

pub open spec fn gog_dirs(games: Seq<GogGame>) -> Seq<Seq<char>> {
    games.map_values(|g: GogGame| g.install_location@)
}

/// The running-game record for a window, when its executable lies under the
/// first installed game (in order) with a non-empty install location that
/// occurs in it, ignoring ASCII case.
pub open spec fn running_gog_of(games: Seq<GogGame>, a: AppInfo) -> Option<RunningGogGame> {
    match first_match(a.path@, gog_dirs(games), true) {
        Some(i) => Some(
            RunningGogGame {
                display_name: games[i].display_name,
                source_key: games[i].source_key,
                pid: a.pid,
                exe_path: a.path,
            },
        ),
        None => None,
    }
}

/// The running records of a window list.
pub open spec fn running_gog_list(games: Seq<GogGame>, apps: Seq<AppInfo>) -> Seq<RunningGogGame> {
    apps.filter_map(|a: AppInfo| running_gog_of(games, a))
}

/// The installed GOG games that have an open window, one record per
/// matching window, in window order.
pub fn get_running_gog_games(games: &Vec<GogGame>, apps: &Vec<AppInfo>) -> (r: Vec<RunningGogGame>)
    ensures
        r@ == running_gog_list(games@, apps@),
{
    let mut dirs: Vec<Vec<char>> = Vec::new();
    let ng = games.len();
    for k in 0..ng
        invariant
            ng == games.len(),
            char_views(dirs@) == gog_dirs(games@.take(k as int)),
    {
        let ghost prev = dirs@;
        assert(char_views(prev).len() == prev.len());
        assert(gog_dirs(games@.take(k as int)).len() == k);
        let x = chars_of(games[k].install_location.as_str());
        dirs.push(x);
        assert(dirs@ == prev.push(x));
        assert forall|j: int| 0 <= j < k + 1 implies #[trigger] char_views(dirs@)[j] == gog_dirs(
            games@.take(k + 1),
        )[j] by {
            if j < k {
                assert(char_views(prev)[j] == gog_dirs(games@.take(k as int))[j]);
            }
        }
        assert(char_views(dirs@) =~= gog_dirs(games@.take(k + 1)));
    }
    assert(games@.take(ng as int) =~= games@);
    let mut running: Vec<RunningGogGame> = Vec::new();
    let n = apps.len();
    for i in 0..n
        invariant
            n == apps.len(),
            char_views(dirs@) == gog_dirs(games@),
            gog_dirs(games@).len() == games@.len(),
            running@ == apps@.take(i as int).filter_map(|a: AppInfo| running_gog_of(games@, a)),
    {
        assert(apps@.take(i + 1).drop_last() =~= apps@.take(i as int));
        assert(apps@.take(i + 1).last() == apps@[i as int]);
        let path = chars_of(apps[i].path.as_str());
        match first_match_exec(&path, &dirs, true) {
            Some(j) => {
                proof {
                    crate::process::lemma_first_match_range(path@, gog_dirs(games@), true);
                }
                running.push(
                    RunningGogGame {
                        display_name: games[j].display_name.clone(),
                        source_key: games[j].source_key.clone(),
                        pid: apps[i].pid,
                        exe_path: apps[i].path.clone(),
                    },
                );
                assert(running@ =~= apps@.take(i + 1).filter_map(
                    |a: AppInfo| running_gog_of(games@, a),
                ));
            },
            None => {},
        }
    }
    assert(apps@.take(n as int) =~= apps@);
    running
}

/// `r` is the record of window `j` running game `i`: it carries the game's
/// name and uninstall key and the window's process and path, and the game's
/// non-empty install location occurs in that path, ignoring ASCII case.
pub open spec fn gog_record_from(games: Seq<GogGame>, apps: Seq<AppInfo>, r: RunningGogGame, i: int, j: int) -> bool {
    &&& 0 <= i < games.len()
    &&& 0 <= j < apps.len()
    &&& r.display_name == games[i].display_name
    &&& r.source_key == games[i].source_key
    &&& r.pid == apps[j].pid
    &&& r.exe_path == apps[j].path
    &&& games[i].install_location@.len() > 0
    &&& has_substring(lower(apps[j].path@), lower(games[i].install_location@))
}

/// `r` is the record of some window running some installed game.
pub open spec fn gog_record_of_some(games: Seq<GogGame>, apps: Seq<AppInfo>, r: RunningGogGame) -> bool {
    exists|i: int, j: int| gog_record_from(games, apps, r, i, j)
}

/// Every running GOG record comes from an open window whose executable path
/// contains, ignoring ASCII case, the non-empty install location of an
/// installed game, whose name and key it carries.
pub proof fn law_running_gog_games_match(games: Seq<GogGame>, apps: Seq<AppInfo>)
    ensures
        forall|k: int| 0 <= k < running_gog_list(games, apps).len() ==>
            gog_record_of_some(games, apps, #[trigger] running_gog_list(games, apps)[k]),
    decreases apps.len(),
{
    if apps.len() > 0 {
        let p = apps.drop_last();
        law_running_gog_games_match(games, p);
        let rp = running_gog_list(games, p);
        let r = running_gog_list(games, apps);
        let a = apps.last();
        let dirs = gog_dirs(games);
        assert(apps == p.push(a));
        assert forall|k: int| 0 <= k < rp.len() implies
            gog_record_of_some(games, apps, #[trigger] rp[k]) by {
            let (i, j) = choose|i: int, j: int| gog_record_from(games, p, rp[k], i, j);
            assert(p[j] == apps[j]);
            assert(gog_record_from(games, apps, rp[k], i, j));
        }
        match first_match(a.path@, dirs, true) {
            Some(i) => {
                assert(crate::process::is_first_match(a.path@, dirs, true, i));
                assert(dirs[i] == games[i].install_location@);
                let rec = running_gog_of(games, a).unwrap();
                assert(r == rp + seq![rec]);
                assert(gog_record_from(games, apps, rec, i, apps.len() - 1));
                assert forall|k: int| 0 <= k < r.len() implies
                    gog_record_of_some(games, apps, #[trigger] r[k]) by {
                    if k < rp.len() {
                        assert(r[k] == rp[k]);
                    } else {
                        assert(r[k] == rec);
                        assert(gog_record_from(games, apps, r[k], i, apps.len() - 1));
                    }
                }
            },
            None => {
                assert(r == rp);
                assert forall|k: int| 0 <= k < r.len() implies
                    gog_record_of_some(games, apps, #[trigger] r[k]) by {
                    assert(r[k] == rp[k]);
                }
            },
        }
    } else {
        assert(running_gog_list(games, apps).len() == 0);
    }
}

proof fn lemma_token_discount_bounds(p: int, f: Seq<char>, toks: Seq<Seq<char>>)
    requires
        p >= 0,
    ensures
        p - 15 * toks.len() <= token_discount(p, f, toks) <= p,
        token_discount(p, f, toks) >= 0,
    decreases toks.len(),
{
    if toks.len() > 0 {
        lemma_token_discount_bounds(p, f, toks.drop_last());
    }
}

/// Installers, uninstallers, crash reporters, configuration and support
/// tools and redistributables are penalised: a candidate whose lowercased
/// file name contains `unins`, `setup`, `install`, `uninstall`, `crash`,
/// `config`, `support` or `redist` has a penalty of at least 50, less 10
/// inside a `\bin\` or `\system\` folder and 15 per name token; a candidate
/// with none of these words, no `launcher` in its file name and no
/// redistributable, support or DirectX folder has penalty 0. So with no name
/// token in play, such a plain executable ranks before every helper.
pub proof fn law_helpers_rank_after_plain_executables(c: Seq<char>, plain: Seq<char>, toks: Seq<Seq<char>>)
    ensures
        (has_substring(candidate_file(c), "unins"@) || has_substring(candidate_file(c), "setup"@)
            || has_substring(candidate_file(c), "install"@) || has_substring(candidate_file(c), "uninstall"@)
            || has_substring(candidate_file(c), "crash"@) || has_substring(candidate_file(c), "config"@)
            || has_substring(candidate_file(c), "support"@) || has_substring(candidate_file(c), "redist"@))
            ==> candidate_penalty(c, toks) >= 40 - 15 * toks.len(),
        (!has_substring(candidate_file(plain), "unins"@) && !has_substring(candidate_file(plain), "setup"@)
            && !has_substring(candidate_file(plain), "install"@) && !has_substring(candidate_file(plain), "uninstall"@)
            && !has_substring(candidate_file(plain), "crash"@) && !has_substring(candidate_file(plain), "config"@)
            && !has_substring(candidate_file(plain), "support"@) && !has_substring(candidate_file(plain), "redist"@)
            && !has_substring(candidate_file(plain), "launcher"@) && !has_substring(lower(plain), "\\_redist"@)
            && !has_substring(lower(plain), "\\support"@) && !has_substring(lower(plain), "\\directx"@))
            ==> candidate_penalty(plain, toks) == 0,
        ((has_substring(candidate_file(c), "unins"@) || has_substring(candidate_file(c), "setup"@)
            || has_substring(candidate_file(c), "install"@) || has_substring(candidate_file(c), "uninstall"@)
            || has_substring(candidate_file(c), "crash"@) || has_substring(candidate_file(c), "config"@)
            || has_substring(candidate_file(c), "support"@) || has_substring(candidate_file(c), "redist"@))
            && !has_substring(candidate_file(plain), "unins"@) && !has_substring(candidate_file(plain), "setup"@)
            && !has_substring(candidate_file(plain), "install"@) && !has_substring(candidate_file(plain), "uninstall"@)
            && !has_substring(candidate_file(plain), "crash"@) && !has_substring(candidate_file(plain), "config"@)
            && !has_substring(candidate_file(plain), "support"@) && !has_substring(candidate_file(plain), "redist"@)
            && !has_substring(candidate_file(plain), "launcher"@) && !has_substring(lower(plain), "\\_redist"@)
            && !has_substring(lower(plain), "\\support"@) && !has_substring(lower(plain), "\\directx"@)
            && toks.len() == 0) ==> ranks_before(plain, c, toks) && !ranks_before(c, plain, toks),
{
    let f = candidate_file(c);
    lemma_token_discount_bounds(base_penalty(f, lower(c)), f, toks);
    let g = candidate_file(plain);
    lemma_token_discount_bounds(base_penalty(g, lower(plain)), g, toks);
}

proof fn lemma_lower_concat(a: Seq<char>, b: Seq<char>)
    ensures
        lower(a + b) == lower(a) + lower(b),
{
    assert(lower(a + b) =~= lower(a) + lower(b));
}

proof fn lemma_occurs_inside(a: Seq<char>, h: Seq<char>, c: Seq<char>, n: Seq<char>)
    requires
        has_substring(h, n),
    ensures
        has_substring(a + h + c, n),
{
    let i = choose|i: int| crate::text::occurs_at(h, n, i);
    assert((a + h + c).subrange(a.len() + i, a.len() + i + n.len()) =~= h.subrange(i, i + n.len()));
    assert(crate::text::occurs_at(a + h + c, n, a.len() + i));
}

/// A record is a GOG game when it has a display name that does not name GOG
/// Galaxy and its publisher, uninstall command or key name mentions "gog"
/// (ignoring ASCII case); whether GOG Galaxy is named is read from the
/// display name alone, so once "gog" is found the verdict does not depend on
/// the publisher, uninstall command or key name.
pub proof fn law_gog_entries_are_judged_by_their_display_name(
    d: Seq<char>,
    p: Seq<char>,
    u: Seq<char>,
    k: Seq<char>,
    p2: Seq<char>,
    u2: Seq<char>,
    k2: Seq<char>,
)
    ensures
        d.len() > 0 && !has_substring(lower(d), "gog galaxy"@) && (has_substring(lower(p), "gog"@)
            || has_substring(lower(u), "gog"@) || has_substring(lower(k), "gog"@)) ==> gog_candidate(d, p, u, k),
        has_substring(lower(d), "gog galaxy"@) ==> !gog_candidate(d, p, u, k),
        has_substring(lower(source_blob(d, p, u, k)), "gog"@) && has_substring(lower(source_blob(d, p2, u2, k2)), "gog"@)
            ==> gog_candidate(d, p, u, k) == gog_candidate(d, p2, u2, k2),
{
    let sp = seq![' '];
    let b = source_blob(d, p, u, k);
    assert(b =~= (d + sp) + p + ((sp + u + sp) + k));
    assert(b =~= (d + sp + p + sp) + u + (sp + k));
    assert(b =~= (d + sp + p + sp + u + sp) + k + Seq::<char>::empty());
    lemma_lower_concat(d + sp, p);
    lemma_lower_concat(d + sp + p, (sp + u + sp) + k);
    assert(lower(b) =~= lower(d + sp) + lower(p) + lower((sp + u + sp) + k));
    if has_substring(lower(p), "gog"@) {
        lemma_occurs_inside(lower(d + sp), lower(p), lower((sp + u + sp) + k), "gog"@);
    }
    assert(lower(b) =~= lower(d + sp + p + sp) + lower(u) + lower(sp + k));
    if has_substring(lower(u), "gog"@) {
        lemma_occurs_inside(lower(d + sp + p + sp), lower(u), lower(sp + k), "gog"@);
    }
    assert(lower(b) =~= lower(d + sp + p + sp + u + sp) + lower(k) + Seq::<char>::empty());
    if has_substring(lower(k), "gog"@) {
        lemma_occurs_inside(lower(d + sp + p + sp + u + sp), lower(k), Seq::<char>::empty(), "gog"@);
    }
}

} // verus!
