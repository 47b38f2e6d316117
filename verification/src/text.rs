//! Character-sequence operations used throughout the library: ASCII case
//! folding, substring search, trimming and splitting.
use vstd::prelude::*;

verus! {

/// ASCII lower-casing of one character (non-ASCII characters are kept).
pub open spec fn lower_char(c: char) -> char {
    if 'A' <= c && c <= 'Z' {
        ((c as u32) + 32) as char
    } else {
        c
    }
}

/// ASCII lower-casing of a whole sequence, as `str::to_ascii_lowercase`.
pub open spec fn lower(s: Seq<char>) -> Seq<char> {
    s.map_values(|c: char| lower_char(c))
}

/// `n` occurs in `h` starting at index `i`.
pub open spec fn occurs_at(h: Seq<char>, n: Seq<char>, i: int) -> bool {
    0 <= i && i + n.len() <= h.len() && h.subrange(i, i + n.len()) == n
}

/// `h` contains `n` as a contiguous piece (the empty needle occurs everywhere).
pub open spec fn has_substring(h: Seq<char>, n: Seq<char>) -> bool {
    exists|i: int| occurs_at(h, n, i)
}

pub open spec fn starts_with(h: Seq<char>, n: Seq<char>) -> bool {
    n.len() <= h.len() && h.take(n.len() as int) == n
}

pub open spec fn ends_with(h: Seq<char>, n: Seq<char>) -> bool {
    n.len() <= h.len() && h.skip(h.len() - n.len()) == n
}

/// The Unicode `White_Space` characters, which `char::is_whitespace` accepts.
pub open spec fn is_whitespace(c: char) -> bool {
    ||| ('\u{9}' <= c && c <= '\u{d}')
    ||| c == ' '
    ||| c == '\u{85}'
    ||| c == '\u{a0}'
    ||| c == '\u{1680}'
    ||| ('\u{2000}' <= c && c <= '\u{200a}')
    ||| c == '\u{2028}'
    ||| c == '\u{2029}'
    ||| c == '\u{202f}'
    ||| c == '\u{205f}'
    ||| c == '\u{3000}'
}

/// A class of characters to trim or split on.
#[derive(Clone, Copy, Debug, PartialEq, Eq, Structural)]
pub enum CharClass {
    Whitespace,
    Exactly(char),
    Separator,
    NotAlphanumeric,
}

/// What `char::is_alphanumeric` answers for a character (Unicode
/// `Alphabetic` or `Numeric`).
pub uninterp spec fn char_is_alphanumeric(c: char) -> bool;

/// `char::is_alphanumeric`. The contract claims only that the answer depends
/// on the character alone.
#[verifier::external_body]
pub fn is_alphanumeric(c: char) -> (r: bool)
    ensures
        r == char_is_alphanumeric(c),
{
    c.is_alphanumeric()
}

/// Path separators on Windows.
pub open spec fn is_sep(c: char) -> bool {
    c == '/' || c == '\\'
}

pub open spec fn in_class(k: CharClass, c: char) -> bool {
    match k {
        CharClass::Whitespace => is_whitespace(c),
        CharClass::Exactly(x) => c == x,
        CharClass::Separator => is_sep(c),
        CharClass::NotAlphanumeric => !char_is_alphanumeric(c),
    }
}

/// Removes leading characters of class `k` (`str::trim_start_matches`).
pub open spec fn trim_start_by(s: Seq<char>, k: CharClass) -> Seq<char>
    decreases s.len(),
{
    if s.len() > 0 && in_class(k, s[0]) {
        trim_start_by(s.drop_first(), k)
    } else {
        s
    }
}

/// Removes trailing characters of class `k` (`str::trim_end_matches`).
pub open spec fn trim_end_by(s: Seq<char>, k: CharClass) -> Seq<char>
    decreases s.len(),
{
    if s.len() > 0 && in_class(k, s.last()) {
        trim_end_by(s.drop_last(), k)
    } else {
        s
    }
}

/// Removes leading and trailing characters of class `k` (`str::trim`,
/// `str::trim_matches`).
pub open spec fn trim_by(s: Seq<char>, k: CharClass) -> Seq<char> {
    trim_end_by(trim_start_by(s, k), k)
}

/// The text before the first `c`, the whole text if there is none
/// (`s.split(c).next()`).
pub open spec fn before_char(s: Seq<char>, c: char) -> Seq<char>
    decreases s.len(),
{
    if s.len() == 0 {
        s
    } else if s[0] == c {
        Seq::empty()
    } else {
        seq![s[0]] + before_char(s.drop_first(), c)
    }
}

/// Text without `c` is all before it; text with `c` appended after a part
/// without `c` has that part before it.
pub proof fn lemma_before_char(u: Seq<char>, rest: Seq<char>, c: char)
    requires
        !u.contains(c),
    ensures
        before_char(u, c) == u,
        before_char(u + seq![c] + rest, c) == u,
    decreases u.len(),
{
    if u.len() > 0 {
        lemma_before_char(u.drop_first(), rest, c);
        assert(!u.drop_first().contains(c)) by {
            if u.drop_first().contains(c) {
                let k = choose|k: int| 0 <= k < u.drop_first().len() && u.drop_first()[k] == c;
                assert(u[k + 1] == c);
            }
        }
        assert(u[0] != c) by {
            if u[0] == c {
                assert(u.contains(c));
            }
        }
        assert((u + seq![c] + rest).drop_first() =~= u.drop_first() + seq![c] + rest);
        assert(u =~= seq![u[0]] + u.drop_first());
    } else {
        assert(u + seq![c] + rest =~= seq![c] + rest);
    }
}

/// Lexicographic order by code point, which is the order of `String`
/// (UTF-8 preserves code-point order).
pub open spec fn seq_lt(a: Seq<char>, b: Seq<char>) -> bool
    decreases a.len(),
{
    if a.len() == 0 {
        b.len() > 0
    } else if b.len() == 0 {
        false
    } else if a[0] != b[0] {
        a[0] < b[0]
    } else {
        seq_lt(a.drop_first(), b.drop_first())
    }
}

/// Number of bytes of `c` in UTF-8.
pub open spec fn utf8_char_len(c: char) -> nat {
    if (c as u32) < 0x80 {
        1
    } else if (c as u32) < 0x800 {
        2
    } else if (c as u32) < 0x10000 {
        3
    } else {
        4
    }
}

/// Number of bytes of `s` in UTF-8 (`str::len`).
pub open spec fn utf8_len(s: Seq<char>) -> nat
    decreases s.len(),
{
    if s.len() == 0 {
        0
    } else {
        utf8_len(s.drop_last()) + utf8_char_len(s.last())
    }
}

/// Pieces of `s` between characters of class `k`, empty pieces included
/// (`str::split` with a character predicate).
pub open spec fn split_by(s: Seq<char>, k: CharClass) -> Seq<Seq<char>>
    decreases s.len(),
{
    if s.len() == 0 {
        seq![Seq::empty()]
    } else {
        let rest = split_by(s.drop_last(), k);
        if in_class(k, s.last()) {
            rest.push(Seq::empty())
        } else {
            rest.update(rest.len() - 1, rest.last().push(s.last()))
        }
    }
}

pub proof fn lemma_split_by_nonempty(s: Seq<char>, k: CharClass)
    ensures
        split_by(s, k).len() >= 1,
    decreases s.len(),
{
    if s.len() > 0 {
        lemma_split_by_nonempty(s.drop_last(), k);
    }
}

/// The character sequences of a vector of character vectors.
pub open spec fn char_views(v: Seq<Vec<char>>) -> Seq<Seq<char>> {
    v.map_values(|d: Vec<char>| d@)
}

/// The character sequences of a sequence of strings.
pub open spec fn string_views(v: Seq<String>) -> Seq<Seq<char>> {
    v.map_values(|s: String| s@)
}

/// The characters of a string slice.
pub fn chars_of(s: &str) -> (r: Vec<char>)
    ensures
        r@ == s@,
{
    let n = s.unicode_len();
    let mut v: Vec<char> = Vec::new();
    for i in 0..n
        invariant
            n == s@.len(),
            v@ == s@.take(i as int),
    {
        v.push(s.get_char(i));
        assert(v@ =~= s@.take(i + 1));
    }
    assert(v@ =~= s@);
    v
}

/// A string made of the given characters.
#[verifier::external_body]
pub fn string_of(v: &Vec<char>) -> (r: String)
    ensures
        r@ == v@,
{
    v.iter().collect()
}

pub fn lower_char_exec(c: char) -> (r: char)
    ensures
        r == lower_char(c),
{
    if 'A' <= c && c <= 'Z' {
        let b: u8 = c as u8;
        let l: u8 = b + 32;
        assert(l as char == lower_char(c));
        l as char
    } else {
        c
    }
}

pub fn to_lower(s: &Vec<char>) -> (r: Vec<char>)
    ensures
        r@ == lower(s@),
{
    let mut out: Vec<char> = Vec::new();
    let n = s.len();
    for i in 0..n
        invariant
            n == s.len(),
            out.len() == i,
            forall|j: int| 0 <= j < i ==> out@[j] == lower_char(s@[j]),
    {
        out.push(lower_char_exec(s[i]));
    }
    assert(out@ =~= lower(s@));
    out
}

/// Whether `n` occurs in `h` at index `i`.
pub fn occurs_at_exec(h: &Vec<char>, n: &Vec<char>, i: usize) -> (r: bool)
    requires
        i + n.len() <= h.len(),
    ensures
        r == occurs_at(h@, n@, i as int),
{
    let m = n.len();
    let mut j: usize = 0;
    while j < m
        invariant
            m == n.len(),
            i + m <= h.len(),
            j <= m,
            forall|k: int| 0 <= k < j ==> h@[i + k] == n@[k],
        decreases m - j,
    {
        if h[i + j] != n[j] {
            assert(h@.subrange(i as int, i + m)[j as int] != n@[j as int]);
            return false;
        }
        j = j + 1;
    }
    assert(h@.subrange(i as int, i + m) =~= n@);
    true
}

/// Substring search (`str::contains`).
pub fn has_substring_exec(h: &Vec<char>, n: &Vec<char>) -> (r: bool)
    ensures
        r == has_substring(h@, n@),
{
    if n.len() == 0 {
        assert(h@.subrange(0, 0) =~= n@);
        assert(occurs_at(h@, n@, 0));
        return true;
    }
    if n.len() > h.len() {
        return false;
    }
    let last = h.len() - n.len();
    let mut i: usize = 0;
    while i <= last
        invariant
            n.len() > 0,
            last == h.len() - n.len(),
            i <= last + 1,
            forall|k: int| 0 <= k < i ==> !occurs_at(h@, n@, k),
        decreases last + 1 - i,
    {
        if occurs_at_exec(h, n, i) {
            return true;
        }
        i = i + 1;
    }
    false
}

pub fn starts_with_exec(h: &Vec<char>, n: &Vec<char>) -> (r: bool)
    ensures
        r == starts_with(h@, n@),
{
    if n.len() > h.len() {
        return false;
    }
    let r = occurs_at_exec(h, n, 0);
    assert(h@.subrange(0, n@.len() as int) =~= h@.take(n@.len() as int));
    r
}

pub fn ends_with_exec(h: &Vec<char>, n: &Vec<char>) -> (r: bool)
    ensures
        r == ends_with(h@, n@),
{
    if n.len() > h.len() {
        return false;
    }
    let i = h.len() - n.len();
    let r = occurs_at_exec(h, n, i);
    assert(h@.subrange(i as int, i + n@.len()) =~= h@.skip(i as int));
    r
}

pub fn is_whitespace_exec(c: char) -> (r: bool)
    ensures
        r == is_whitespace(c),
{
    ('\u{9}' <= c && c <= '\u{d}') || c == ' ' || c == '\u{85}' || c == '\u{a0}' || c
        == '\u{1680}' || ('\u{2000}' <= c && c <= '\u{200a}') || c == '\u{2028}' || c
        == '\u{2029}' || c == '\u{202f}' || c == '\u{205f}' || c == '\u{3000}'
}

pub fn in_class_exec(k: &CharClass, c: char) -> (r: bool)
    ensures
        r == in_class(*k, c),
{
    match k {
        CharClass::Whitespace => is_whitespace_exec(c),
        CharClass::Exactly(x) => c == *x,
        CharClass::Separator => c == '/' || c == '\\',
        CharClass::NotAlphanumeric => !is_alphanumeric(c),
    }
}

/// A copy of `s[from..to]`.
pub fn slice_chars(s: &Vec<char>, from: usize, to: usize) -> (r: Vec<char>)
    requires
        from <= to <= s.len(),
    ensures
        r@ == s@.subrange(from as int, to as int),
{
    let mut out: Vec<char> = Vec::new();
    let mut i = from;
    while i < to
        invariant
            from <= i <= to <= s.len(),
            out@ == s@.subrange(from as int, i as int),
        decreases to - i,
    {
        out.push(s[i]);
        i = i + 1;
        assert(out@ =~= s@.subrange(from as int, i as int));
    }
    out
}

/// Index at which `trim_start_by` leaves `s[from..]`.
fn trim_start_index(s: &Vec<char>, from: usize, k: &CharClass) -> (r: usize)
    requires
        from <= s.len(),
    ensures
        from <= r <= s.len(),
        trim_start_by(s@.skip(from as int), *k) == s@.skip(r as int),
{
    let mut i = from;
    while i < s.len() && in_class_exec(k, s[i])
        invariant
            from <= i <= s.len(),
            trim_start_by(s@.skip(from as int), *k) == trim_start_by(s@.skip(i as int), *k),
        decreases s.len() - i,
    {
        assert(s@.skip(i as int).drop_first() =~= s@.skip(i + 1));
        i = i + 1;
    }
    i
}

/// Index at which `trim_end_by` leaves `s[from..to]`.
fn trim_end_index(s: &Vec<char>, from: usize, to: usize, k: &CharClass) -> (r: usize)
    requires
        from <= to <= s.len(),
    ensures
        from <= r <= to,
        trim_end_by(s@.subrange(from as int, to as int), *k) == s@.subrange(from as int, r as int),
{
    let mut j = to;
    while j > from && in_class_exec(k, s[j - 1])
        invariant
            from <= j <= to <= s.len(),
            trim_end_by(s@.subrange(from as int, to as int), *k) == trim_end_by(
                s@.subrange(from as int, j as int),
                *k,
            ),
        decreases j - from,
    {
        assert(s@.subrange(from as int, j as int).drop_last() =~= s@.subrange(
            from as int,
            j - 1,
        ));
        j = j - 1;
    }
    j
}

pub fn trim_end_chars(s: &Vec<char>, k: CharClass) -> (r: Vec<char>)
    ensures
        r@ == trim_end_by(s@, k),
{
    assert(s@.subrange(0, s@.len() as int) =~= s@);
    let b = trim_end_index(s, 0, s.len(), &k);
    slice_chars(s, 0, b)
}

pub fn trim_chars(s: &Vec<char>, k: CharClass) -> (r: Vec<char>)
    ensures
        r@ == trim_by(s@, k),
{
    let a = trim_start_index(s, 0, &k);
    assert(s@.skip(0) =~= s@);
    assert(s@.skip(a as int) =~= s@.subrange(a as int, s@.len() as int));
    let b = trim_end_index(s, a, s.len(), &k);
    slice_chars(s, a, b)
}

pub fn before_char_exec(s: &Vec<char>, c: char) -> (r: Vec<char>)
    ensures
        r@ == before_char(s@, c),
{
    let mut i: usize = 0;
    assert(s@.skip(0) =~= s@);
    assert(s@.take(0) + s@ =~= s@);
    while i < s.len() && s[i] != c
        invariant
            i <= s.len(),
            before_char(s@, c) == s@.take(i as int) + before_char(s@.skip(i as int), c),
        decreases s.len() - i,
    {
        assert(s@.skip(i as int).drop_first() =~= s@.skip(i + 1));
        assert(s@.take(i + 1) =~= s@.take(i as int) + seq![s@[i as int]]);
        i = i + 1;
    }
    if i < s.len() {
        assert(before_char(s@.skip(i as int), c) =~= Seq::<char>::empty());
    } else {
        assert(s@.skip(i as int) =~= Seq::<char>::empty());
    }
    assert(s@.take(i as int) + Seq::<char>::empty() =~= s@.take(i as int));
    slice_chars(s, 0, i)
}

/// Concatenation of two character vectors.
pub fn concat_chars(a: &Vec<char>, b: &Vec<char>) -> (r: Vec<char>)
    ensures
        r@ == a@ + b@,
{
    let mut out: Vec<char> = Vec::new();
    let n = a.len();
    for i in 0..n
        invariant
            n == a.len(),
            out@ == a@.take(i as int),
    {
        out.push(a[i]);
        assert(out@ =~= a@.take(i + 1));
    }
    let m = b.len();
    for i in 0..m
        invariant
            m == b.len(),
            n == a.len(),
            out@ == a@ + b@.take(i as int),
    {
        out.push(b[i]);
        assert(out@ =~= a@ + b@.take(i + 1));
    }
    assert(b@.take(m as int) =~= b@);
    assert(a@.take(n as int) =~= a@);
    out
}

/// Character-sequence equality.
pub fn chars_eq(a: &Vec<char>, b: &Vec<char>) -> (r: bool)
    ensures
        r == (a@ == b@),
{
    if a.len() != b.len() {
        return false;
    }
    let r = occurs_at_exec(a, b, 0);
    assert(a@.subrange(0, b@.len() as int) =~= a@);
    r
}

pub proof fn lemma_seq_lt_irreflexive(a: Seq<char>)
    ensures
        !seq_lt(a, a),
    decreases a.len(),
{
    if a.len() > 0 {
        lemma_seq_lt_irreflexive(a.drop_first());
    }
}

pub proof fn lemma_seq_lt_transitive(a: Seq<char>, b: Seq<char>, c: Seq<char>)
    requires
        seq_lt(a, b),
        seq_lt(b, c),
    ensures
        seq_lt(a, c),
    decreases a.len(),
{
    if a.len() > 0 && b.len() > 0 && c.len() > 0 && a[0] == b[0] && b[0] == c[0] {
        lemma_seq_lt_transitive(a.drop_first(), b.drop_first(), c.drop_first());
    }
}

pub proof fn lemma_seq_lt_total(a: Seq<char>, b: Seq<char>)
    ensures
        seq_lt(a, b) || a == b || seq_lt(b, a),
    decreases a.len(),
{
    if a.len() == 0 && b.len() == 0 {
        assert(a =~= b);
    }
    if a.len() > 0 && b.len() > 0 && a[0] == b[0] {
        lemma_seq_lt_total(a.drop_first(), b.drop_first());
        if a.drop_first() == b.drop_first() {
            assert(a =~= seq![a[0]] + a.drop_first());
            assert(b =~= seq![b[0]] + b.drop_first());
        }
    }
}

/// Lexicographic comparison (`String`'s `<`).
pub fn seq_lt_exec(a: &Vec<char>, b: &Vec<char>) -> (r: bool)
    ensures
        r == seq_lt(a@, b@),
{
    let mut i: usize = 0;
    assert(a@.skip(0) =~= a@);
    assert(b@.skip(0) =~= b@);
    while i < a.len() && i < b.len() && a[i] == b[i]
        invariant
            i <= a.len(),
            i <= b.len(),
            seq_lt(a@, b@) == seq_lt(a@.skip(i as int), b@.skip(i as int)),
            a@.skip(0) == a@,
            b@.skip(0) == b@,
        decreases a.len() - i,
    {
        assert(a@.skip(i as int).drop_first() =~= a@.skip(i + 1));
        assert(b@.skip(i as int).drop_first() =~= b@.skip(i + 1));
        i = i + 1;
    }
    if i == a.len() {
        i < b.len()
    } else if i == b.len() {
        false
    } else {
        a[i] < b[i]
    }
}

/// Whether `s` takes at least three bytes in UTF-8.
pub fn utf8_len_at_least_3(s: &Vec<char>) -> (r: bool)
    ensures
        r == (utf8_len(s@) >= 3),
{
    let mut total: usize = 0;
    let mut i: usize = 0;
    while i < s.len()
        invariant
            i <= s.len(),
            total == utf8_len(s@.take(i as int)),
            total < 3,
        decreases s.len() - i,
    {
        let c = s[i];
        let w: usize = if (c as u32) < 0x80 {
            1
        } else if (c as u32) < 0x800 {
            2
        } else if (c as u32) < 0x10000 {
            3
        } else {
            4
        };
        assert(s@.take(i + 1).drop_last() =~= s@.take(i as int));
        total = total + w;
        i = i + 1;
        if total >= 3 {
            proof {
                lemma_utf8_len_prefix_monotone(s@, i as int);
            }
            return true;
        }
    }
    assert(s@.take(i as int) =~= s@);
    false
}

pub proof fn lemma_utf8_len_prefix_monotone(s: Seq<char>, i: int)
    requires
        0 <= i <= s.len(),
    ensures
        utf8_len(s.take(i)) <= utf8_len(s),
    decreases s.len() - i,
{
    if i < s.len() {
        lemma_utf8_len_prefix_monotone(s, i + 1);
        assert(s.take(i + 1).drop_last() =~= s.take(i));
    } else {
        assert(s.take(i) =~= s);
    }
}

/// Pieces of `s` between characters of class `k`.
pub fn split_chars(s: &Vec<char>, k: CharClass) -> (r: Vec<Vec<char>>)
    ensures
        r@.len() == split_by(s@, k).len(),
        forall|i: int| 0 <= i < r@.len() ==> #[trigger] r@[i]@ == split_by(s@, k)[i],
{
    let mut out: Vec<Vec<char>> = Vec::new();
    let mut cur: Vec<char> = Vec::new();
    let n = s.len();
    assert(s@.take(0) =~= Seq::<char>::empty());
    for i in 0..n
        invariant
            n == s.len(),
            out@.len() + 1 == split_by(s@.take(i as int), k).len(),
            forall|j: int| 0 <= j < out@.len() ==> #[trigger] out@[j]@ == split_by(s@.take(i as int), k)[j],
            cur@ == split_by(s@.take(i as int), k).last(),
    {
        let ghost prev = split_by(s@.take(i as int), k);
        assert(s@.take(i + 1).drop_last() =~= s@.take(i as int));
        assert(s@.take(i + 1).last() == s@[i as int]);
        if in_class_exec(&k, s[i]) {
            out.push(cur);
            cur = Vec::new();
            assert(cur@ =~= Seq::<char>::empty());
        } else {
            cur.push(s[i]);
        }
    }
    assert(s@.take(n as int) =~= s@);
    proof {
        lemma_split_by_nonempty(s@, k);
    }
    out.push(cur);
    out
}

/// The decimal digit character for `d < 10`.
pub open spec fn digit_char(d: nat) -> char {
    ((d + 48) as u32) as char
}

/// Decimal notation of a number, as `u32`'s `Display` writes it.
pub open spec fn decimal(n: nat) -> Seq<char>
    decreases n,
{
    if n < 10 {
        seq![digit_char(n)]
    } else {
        decimal(n / 10) + seq![digit_char(n % 10)]
    }
}

fn digit_exec(d: u32) -> (r: char)
    requires
        d < 10,
    ensures
        r == digit_char(d as nat),
{
    let b: u8 = (d as u8) + 48;
    b as char
}

/// Decimal notation of a number.
pub fn u32_decimal(n: u32) -> (r: Vec<char>)
    ensures
        r@ == decimal(n as nat),
    decreases n,
{
    if n < 10 {
        let mut v: Vec<char> = Vec::new();
        v.push(digit_exec(n));
        assert(v@ =~= seq![digit_char(n as nat)]);
        v
    } else {
        let mut v = u32_decimal(n / 10);
        v.push(digit_exec(n % 10));
        assert(v@ =~= decimal((n / 10) as nat) + seq![digit_char((n % 10) as nat)]);
        v
    }
}

} // verus!
