//! Windows path text: prefixes, final component, extension, parent and
//! joining, as `std::path::Path` treats them on Windows.
use vstd::prelude::*;
use crate::text::{chars_eq, concat_chars, is_sep, lower, slice_chars, to_lower};

verus! {

pub open spec fn is_ascii_alpha(c: char) -> bool {
    ('a' <= c && c <= 'z') || ('A' <= c && c <= 'Z')
}

/// Length of a leading drive prefix such as `C:`.
pub open spec fn drive_len(s: Seq<char>) -> int {
    if s.len() >= 2 && s[1] == ':' && is_ascii_alpha(s[0]) {
        2
    } else {
        0
    }
}

/// ASCII uppercase of a letter.
pub open spec fn upper_char(c: char) -> char {
    if 'a' <= c && c <= 'z' {
        ((c as u32) - 32) as char
    } else {
        c
    }
}

/// A separator: in verbatim (`\\?\`) paths only the backslash.
pub open spec fn is_sep_in(c: char, verbatim: bool) -> bool {
    if verbatim {
        c == '\\'
    } else {
        is_sep(c)
    }
}

/// The end of the component that starts at `k`: the next separator, or the
/// end of the text.
pub open spec fn comp_end(s: Seq<char>, k: int, verbatim: bool) -> int
    decreases s.len() - k,
{
    if k < 0 || k >= s.len() {
        s.len() as int
    } else if is_sep_in(s[k], verbatim) {
        k
    } else {
        comp_end(s, k + 1, verbatim)
    }
}

/// No `/` among the first eight characters (a verbatim prefix must not use
/// one).
pub open spec fn no_slash_in_first_8(s: Seq<char>) -> bool {
    forall|i: int| 0 <= i < 8 && i < s.len() ==> s[i] != '/'
}

/// The Windows prefix of a path (`std::path::Prefix`): its length, a key
/// that equal prefixes share (kind, then drive letter uppercased or the
/// server, share or device names), whether it is a plain drive (`C:`), and
/// whether it is verbatim (`\\?\`). Kinds: `C:`; `\\server\share`;
/// `\\.\device`; `\\?\C:`; `\\?\UNC\server\share`; `\\?\name`. A path
/// starting with two separators that is none of these has no prefix.
pub open spec fn win_prefix(s: Seq<char>) -> (int, Seq<char>, bool, bool) {
    if s.len() >= 2 && is_sep(s[0]) && is_sep(s[1]) {
        if s.len() >= 4 && s[2] == '?' && is_sep(s[3]) && no_slash_in_first_8(s) {
            if s.len() >= 8 && s[4] == 'U' && s[5] == 'N' && s[6] == 'C' && s[7] == '\\' {
                let e1 = comp_end(s, 8, true);
                let server = s.subrange(8, e1);
                if e1 < s.len() {
                    let e2 = comp_end(s, e1 + 1, true);
                    let share = s.subrange(e1 + 1, e2);
                    (
                        if share.len() > 0 { e2 } else { e1 },
                        seq!['u'] + server + seq!['\\'] + share,
                        false,
                        true,
                    )
                } else {
                    (e1, seq!['u'] + server + seq!['\\'], false, true)
                }
            } else if s.len() >= 6 && is_ascii_alpha(s[4]) && s[5] == ':' && (s.len() == 6 || s[6]
                == '\\') {
                (6, seq!['d', upper_char(s[4])], false, true)
            } else {
                let e = comp_end(s, 4, true);
                (e, seq!['V'] + s.subrange(4, e), false, true)
            }
        } else if s.len() >= 4 && s[2] == '.' && is_sep(s[3]) {
            let e = comp_end(s, 4, false);
            (e, seq!['N'] + s.subrange(4, e), false, false)
        } else {
            let e1 = comp_end(s, 2, false);
            if e1 > 2 && e1 < s.len() && comp_end(s, e1 + 1, false) > e1 + 1 {
                let e2 = comp_end(s, e1 + 1, false);
                (e2, seq!['U'] + s.subrange(2, e1) + seq!['\\'] + s.subrange(e1 + 1, e2), false, false)
            } else {
                (0, Seq::empty(), false, false)
            }
        }
    } else if drive_len(s) == 2 {
        (2, seq!['D', upper_char(s[0])], true, false)
    } else {
        (0, Seq::empty(), false, false)
    }
}

/// The path has a verbatim (`\\?\`) prefix, where only `\` separates.
pub open spec fn verbatim(s: Seq<char>) -> bool {
    win_prefix(s).3
}

/// Length of the path's prefix (0 when it has none).
pub open spec fn prefix_len(s: Seq<char>) -> int {
    win_prefix(s).0
}

/// Length of the prefix and root separator (`C:\` is 3, `\` is 1).
pub open spec fn root_len(s: Seq<char>) -> int {
    let d = prefix_len(s);
    if s.len() > d && is_sep_in(s[d], verbatim(s)) {
        d + 1
    } else {
        d
    }
}

/// `p` without trailing separators and (outside verbatim paths, where a
/// `.` component counts) trailing `.` components, never shorter than
/// `floor`.
pub open spec fn trim_back(p: Seq<char>, floor: int, vb: bool) -> Seq<char>
    decreases p.len(),
{
    if p.len() == 0 || p.len() <= floor {
        p
    } else if is_sep_in(p.last(), vb) {
        trim_back(p.drop_last(), floor, vb)
    } else if !vb && p.len() >= 2 && p.last() == '.' && is_sep(p[p.len() - 2]) {
        trim_back(p.drop_last(), floor, vb)
    } else {
        p
    }
}

/// Start of the component that ends at `e`, not before `lo`.
pub open spec fn comp_start(s: Seq<char>, e: int, lo: int, vb: bool) -> int
    decreases e - lo,
{
    if e <= lo {
        lo
    } else if is_sep_in(s[e - 1], vb) {
        e
    } else {
        comp_start(s, e - 1, lo, vb)
    }
}

pub open spec fn last_end(s: Seq<char>) -> int {
    trim_back(s, root_len(s), verbatim(s)).len() as int
}

pub open spec fn last_start(s: Seq<char>) -> int {
    comp_start(s, last_end(s), root_len(s), verbatim(s))
}

/// The final component's text (empty when the path is only a prefix/root).
pub open spec fn last_component(s: Seq<char>) -> Seq<char> {
    s.subrange(last_start(s), last_end(s))
}

/// `Path::file_name`.
pub open spec fn file_name(s: Seq<char>) -> Option<Seq<char>> {
    let c = last_component(s);
    if c.len() == 0 || c == seq!['.'] || c == seq!['.', '.'] {
        None
    } else {
        Some(c)
    }
}

pub open spec fn last_index_of(s: Seq<char>, c: char) -> Option<int>
    decreases s.len(),
{
    if s.len() == 0 {
        None
    } else if s.last() == c {
        Some(s.len() - 1)
    } else {
        last_index_of(s.drop_last(), c)
    }
}

/// `Path::extension`: the text after the last `.` of the file name, when
/// that dot is not its first character.
pub open spec fn extension(s: Seq<char>) -> Option<Seq<char>> {
    match file_name(s) {
        Some(f) => match last_index_of(f, '.') {
            Some(i) => if i > 0 {
                Some(f.skip(i + 1))
            } else {
                None
            },
            None => None,
        },
        None => None,
    }
}

/// `Path::parent`.
pub open spec fn parent(s: Seq<char>) -> Option<Seq<char>> {
    if last_component(s).len() == 0 {
        None
    } else {
        Some(trim_back(s.take(last_start(s)), root_len(s), verbatim(s)))
    }
}

/// `Path::is_absolute` on Windows: a drive with a root, or any other
/// prefix (which implies a root).
pub open spec fn is_absolute(s: Seq<char>) -> bool {
    let p = win_prefix(s);
    (p.2 && root_len(s) == 3) || (p.0 > 0 && !p.2)
}

/// `PathBuf::join` on Windows.
pub open spec fn join(base: Seq<char>, rel: Seq<char>) -> Seq<char> {
    if prefix_len(rel) > 0 {
        rel
    } else if rel.len() > 0 && is_sep(rel[0]) {
        base.take(prefix_len(base)) + rel
    } else if base.len() == 0 || is_sep(base.last()) || (drive_len(base) == 2 && base.len()
        == 2) {
        base + rel
    } else {
        base + seq!['\\'] + rel
    }
}

/// `ext` equals `expected` ignoring ASCII case (`str::eq_ignore_ascii_case`).
pub open spec fn eq_ignore_ascii_case(a: Seq<char>, b: Seq<char>) -> bool {
    lower(a) == lower(b)
}

/// The path's extension is `ext`, ignoring ASCII case.
pub open spec fn has_extension(s: Seq<char>, ext: Seq<char>) -> bool {
    match extension(s) {
        Some(e) => eq_ignore_ascii_case(e, ext),
        None => false,
    }
}

pub fn is_sep_exec(c: char) -> (r: bool)
    ensures
        r == is_sep(c),
{
    c == '/' || c == '\\'
}

pub fn drive_len_exec(s: &Vec<char>) -> (r: usize)
    ensures
        r == drive_len(s@),
{
    if s.len() >= 2 && s[1] == ':' && (('a' <= s[0] && s[0] <= 'z') || ('A' <= s[0] && s[0]
        <= 'Z')) {
        2
    } else {
        0
    }
}

fn upper_char_exec(c: char) -> (r: char)
    ensures
        r == upper_char(c),
{
    if 'a' <= c && c <= 'z' {
        let b: u8 = c as u8;
        let u: u8 = b - 32;
        assert(u as char == ((c as u32) - 32) as char);
        u as char
    } else {
        c
    }
}

fn is_sep_in_exec(c: char, verbatim: bool) -> (r: bool)
    ensures
        r == is_sep_in(c, verbatim),
{
    if verbatim {
        c == '\\'
    } else {
        is_sep_exec(c)
    }
}

fn comp_end_exec(s: &Vec<char>, k: usize, verbatim: bool) -> (r: usize)
    requires
        k <= s@.len(),
    ensures
        r == comp_end(s@, k as int, verbatim),
        k <= r <= s@.len(),
{
    let mut i = k;
    while i < s.len() && !is_sep_in_exec(s[i], verbatim)
        invariant
            k <= i <= s@.len(),
            comp_end(s@, k as int, verbatim) == comp_end(s@, i as int, verbatim),
        decreases s@.len() - i,
    {
        i = i + 1;
    }
    i
}

/// The Windows prefix of a path: its length, key, and whether it is a plain
/// drive and whether it is verbatim.
pub fn win_prefix_exec(s: &Vec<char>) -> (r: (usize, Vec<char>, bool, bool))
    ensures
        r.0 == win_prefix(s@).0,
        r.1@ == win_prefix(s@).1,
        r.2 == win_prefix(s@).2,
        r.3 == win_prefix(s@).3,
        r.0 <= s@.len(),
{
    let n = s.len();
    if n >= 2 && is_sep_exec(s[0]) && is_sep_exec(s[1]) {
        let mut no_slash = true;
        let mut i: usize = 0;
        while i < 8 && i < n
            invariant
                n == s@.len(),
                i <= 8,
                no_slash == (forall|j: int| 0 <= j < i && j < n ==> s@[j] != '/'),
            decreases 8 - i,
        {
            if s[i] == '/' {
                no_slash = false;
            }
            i = i + 1;
        }
        assert(no_slash == no_slash_in_first_8(s@));
        if n >= 4 && s[2] == '?' && is_sep_exec(s[3]) && no_slash {
            if n >= 8 && s[4] == 'U' && s[5] == 'N' && s[6] == 'C' && s[7] == '\\' {
                let e1 = comp_end_exec(s, 8, true);
                let server = slice_chars(s, 8, e1);
                let mut key: Vec<char> = Vec::new();
                key.push('u');
                let mut bs: Vec<char> = Vec::new();
                bs.push('\\');
                let k1 = concat_chars(&key, &server);
                let k2 = concat_chars(&k1, &bs);
                assert(key@ =~= seq!['u']);
                assert(bs@ =~= seq!['\\']);
                if e1 < n {
                    let e2 = comp_end_exec(s, e1 + 1, true);
                    let share = slice_chars(s, e1 + 1, e2);
                    let k3 = concat_chars(&k2, &share);
                    (if share.len() > 0 { e2 } else { e1 }, k3, false, true)
                } else {
                    (e1, k2, false, true)
                }
            } else if n >= 6 && (('a' <= s[4] && s[4] <= 'z') || ('A' <= s[4] && s[4] <= 'Z'))
                && s[5] == ':' && (n == 6 || s[6] == '\\') {
                let mut key: Vec<char> = Vec::new();
                key.push('d');
                key.push(upper_char_exec(s[4]));
                assert(key@ =~= seq!['d', upper_char(s@[4])]);
                (6, key, false, true)
            } else {
                let e = comp_end_exec(s, 4, true);
                let mut key: Vec<char> = Vec::new();
                key.push('V');
                assert(key@ =~= seq!['V']);
                let k = concat_chars(&key, &slice_chars(s, 4, e));
                (e, k, false, true)
            }
        } else if n >= 4 && s[2] == '.' && is_sep_exec(s[3]) {
            let e = comp_end_exec(s, 4, false);
            let mut key: Vec<char> = Vec::new();
            key.push('N');
            assert(key@ =~= seq!['N']);
            let k = concat_chars(&key, &slice_chars(s, 4, e));
            (e, k, false, false)
        } else {
            let e1 = comp_end_exec(s, 2, false);
            if e1 > 2 && e1 < n && comp_end_exec(s, e1 + 1, false) > e1 + 1 {
                let e2 = comp_end_exec(s, e1 + 1, false);
                let mut key: Vec<char> = Vec::new();
                key.push('U');
                let mut bs: Vec<char> = Vec::new();
                bs.push('\\');
                assert(key@ =~= seq!['U']);
                assert(bs@ =~= seq!['\\']);
                let k1 = concat_chars(&key, &slice_chars(s, 2, e1));
                let k2 = concat_chars(&k1, &bs);
                let k3 = concat_chars(&k2, &slice_chars(s, e1 + 1, e2));
                (e2, k3, false, false)
            } else {
                (0, Vec::new(), false, false)
            }
        }
    } else if drive_len_exec(s) == 2 {
        let mut key: Vec<char> = Vec::new();
        key.push('D');
        key.push(upper_char_exec(s[0]));
        assert(key@ =~= seq!['D', upper_char(s@[0])]);
        (2, key, true, false)
    } else {
        (0, Vec::new(), false, false)
    }
}

pub fn prefix_len_exec(s: &Vec<char>) -> (r: usize)
    ensures
        r == prefix_len(s@),
        r <= s@.len(),
{
    win_prefix_exec(s).0
}

pub fn root_len_exec(s: &Vec<char>) -> (r: usize)
    ensures
        r == root_len(s@),
        r <= s@.len(),
{
    let (d, _key, _disk, vb) = win_prefix_exec(s);
    if s.len() > d && is_sep_in_exec(s[d], vb) {
        d + 1
    } else {
        d
    }
}

/// Length of `trim_back(s[..to], floor)`.
fn trim_back_len(s: &Vec<char>, to: usize, floor: usize, vb: bool) -> (r: usize)
    requires
        floor <= to <= s.len(),
    ensures
        floor <= r <= to,
        trim_back(s@.take(to as int), floor as int, vb) == s@.take(r as int),
{
    let mut e = to;
    loop
        invariant
            floor <= e <= to <= s.len(),
            trim_back(s@.take(to as int), floor as int, vb) == trim_back(
                s@.take(e as int),
                floor as int,
                vb,
            ),
        decreases e,
    {
        assert(s@.take(e as int).len() == e);
        if e <= floor {
            return e;
        }
        assert(s@.take(e as int).drop_last() =~= s@.take(e - 1));
        assert(s@.take(e as int).last() == s@[e - 1]);
        if is_sep_in_exec(s[e - 1], vb) {
            e = e - 1;
        } else if !vb && e >= 2 && s[e - 1] == '.' && is_sep_exec(s[e - 2]) {
            assert(s@.take(e as int)[e - 2] == s@[e - 2]);
            e = e - 1;
        } else {
            if e >= 2 {
                assert(s@.take(e as int)[e - 2] == s@[e - 2]);
            }
            return e;
        }
    }
}

fn comp_start_exec(s: &Vec<char>, e: usize, lo: usize, vb: bool) -> (r: usize)
    requires
        lo <= e <= s.len(),
    ensures
        r == comp_start(s@, e as int, lo as int, vb),
        lo <= r <= e,
{
    let mut i = e;
    while i > lo && !is_sep_in_exec(s[i - 1], vb)
        invariant
            lo <= i <= e <= s.len(),
            comp_start(s@, e as int, lo as int, vb) == comp_start(s@, i as int, lo as int, vb),
        decreases i,
    {
        i = i - 1;
    }
    i
}

/// Start and end of the final component.
pub fn last_component_bounds(s: &Vec<char>) -> (r: (usize, usize))
    ensures
        r.0 == last_start(s@),
        r.1 == last_end(s@),
        root_len(s@) <= r.0 <= r.1 <= s@.len(),
{
    let floor = root_len_exec(s);
    let vb = win_prefix_exec(s).3;
    let e = trim_back_len(s, s.len(), floor, vb);
    assert(s@.take(s@.len() as int) =~= s@);
    assert(s@.take(e as int).len() == e);
    let st = comp_start_exec(s, e, floor, vb);
    (st, e)
}

/// `Path::file_name`.
pub fn file_name_exec(s: &Vec<char>) -> (r: Option<Vec<char>>)
    ensures
        match r {
            Some(f) => file_name(s@) == Some(f@),
            None => file_name(s@) is None,
        },
{
    let (st, e) = last_component_bounds(s);
    let c = slice_chars(s, st, e);
    if c.len() == 0 {
        return None;
    }
    if c.len() == 1 && c[0] == '.' {
        assert(c@ =~= seq!['.']);
        return None;
    }
    if c.len() == 2 && c[0] == '.' && c[1] == '.' {
        assert(c@ =~= seq!['.', '.']);
        return None;
    }
    assert(c@ != seq!['.']) by {
        if c@ == seq!['.'] {
            assert(c@.len() == 1 && c@[0] == '.');
        }
    }
    assert(c@ != seq!['.', '.']) by {
        if c@ == seq!['.', '.'] {
            assert(c@.len() == 2 && c@[0] == '.' && c@[1] == '.');
        }
    }
    Some(c)
}

pub proof fn lemma_last_index_of(s: Seq<char>, c: char)
    ensures
        last_index_of(s, c) matches Some(i) ==> 0 <= i < s.len() && s[i] == c,
    decreases s.len(),
{
    if s.len() > 0 {
        lemma_last_index_of(s.drop_last(), c);
    }
}

pub fn last_index_of_exec(s: &Vec<char>, c: char) -> (r: Option<usize>)
    ensures
        match r {
            Some(i) => last_index_of(s@, c) == Some(i as int),
            None => last_index_of(s@, c) is None,
        },
{
    let mut j = s.len();
    assert(s@.take(j as int) =~= s@);
    loop
        invariant
            j <= s.len(),
            last_index_of(s@, c) == last_index_of(s@.take(j as int), c),
        decreases j,
    {
        if j == 0 {
            return None;
        }
        assert(s@.take(j as int).drop_last() =~= s@.take(j - 1));
        if s[j - 1] == c {
            return Some(j - 1);
        }
        j = j - 1;
    }
}

/// `Path::extension`.
pub fn extension_exec(s: &Vec<char>) -> (r: Option<Vec<char>>)
    ensures
        match r {
            Some(e) => extension(s@) == Some(e@),
            None => extension(s@) is None,
        },
{
    match file_name_exec(s) {
        Some(f) => match last_index_of_exec(&f, '.') {
            Some(i) => if i > 0 {
                proof {
                    lemma_last_index_of(f@, '.');
                }
                let flen = f.len();
                assert(i < flen);
                let e = slice_chars(&f, i + 1, flen);
                assert(e@ =~= f@.skip(i + 1));
                Some(e)
            } else {
                None
            },
            None => None,
        },
        None => None,
    }
}

/// ASCII-case-insensitive equality.
pub fn eq_ignore_ascii_case_exec(a: &Vec<char>, b: &Vec<char>) -> (r: bool)
    ensures
        r == eq_ignore_ascii_case(a@, b@),
{
    let la = to_lower(a);
    let lb = to_lower(b);
    chars_eq(&la, &lb)
}

/// Whether the path's extension is `ext`, ignoring ASCII case.
pub fn has_extension_exec(s: &Vec<char>, ext: &Vec<char>) -> (r: bool)
    ensures
        r == has_extension(s@, ext@),
{
    match extension_exec(s) {
        Some(e) => eq_ignore_ascii_case_exec(&e, ext),
        None => false,
    }
}

/// `Path::parent`.
pub fn parent_exec(s: &Vec<char>) -> (r: Option<Vec<char>>)
    ensures
        match r {
            Some(p) => parent(s@) == Some(p@),
            None => parent(s@) is None,
        },
{
    let (st, e) = last_component_bounds(s);
    if st == e {
        return None;
    }
    let floor = root_len_exec(s);
    let vb = win_prefix_exec(s).3;
    let k = trim_back_len(s, st, floor, vb);
    let p = slice_chars(s, 0, k);
    assert(p@ =~= s@.take(k as int));
    Some(p)
}

pub fn is_absolute_exec(s: &Vec<char>) -> (r: bool)
    ensures
        r == is_absolute(s@),
{
    let (len, _key, disk, _verbatim) = win_prefix_exec(s);
    (disk && root_len_exec(s) == 3) || (len > 0 && !disk)
}

/// `PathBuf::join`.
pub fn join_exec(base: &Vec<char>, rel: &Vec<char>) -> (r: Vec<char>)
    ensures
        r@ == join(base@, rel@),
{
    if prefix_len_exec(rel) > 0 {
        slice_chars(rel, 0, rel.len())
    } else if rel.len() > 0 && is_sep_exec(rel[0]) {
        let d = prefix_len_exec(base);
        let pre = slice_chars(base, 0, d);
        concat_chars(&pre, rel)
    } else if base.len() == 0 || is_sep_exec(base[base.len() - 1]) || (drive_len_exec(base) == 2
        && base.len() == 2) {
        concat_chars(base, rel)
    } else {
        let mut sep: Vec<char> = Vec::new();
        sep.push('\\');
        let b = concat_chars(base, &sep);
        concat_chars(&b, rel)
    }
}

} // verus!
