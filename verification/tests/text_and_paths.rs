use launcher::paths::{
    extension_exec, file_name_exec, has_extension_exec, is_absolute_exec, join_exec, parent_exec,
};
use launcher::text::{
    before_char_exec, chars_of, has_substring_exec, is_alphanumeric, split_chars,
    string_of, to_lower, trim_chars, u32_decimal, utf8_len_at_least_3, CharClass,
};

fn cs(s: &str) -> Vec<char> {
    s.chars().collect()
}

fn st(v: &[char]) -> String {
    v.iter().collect()
}

#[test]
fn chars_round_trip_keeps_every_character() {
    let v = chars_of("héllo, wörld ✓");
    assert_eq!(v.len(), 14);
    assert_eq!(v[1], 'é');
    assert_eq!(string_of(&v), "héllo, wörld ✓");
    assert_eq!(chars_of(""), Vec::<char>::new());
}

#[test]
fn alphanumeric_follows_unicode() {
    assert!(is_alphanumeric('a'));
    assert!(is_alphanumeric('7'));
    assert!(is_alphanumeric('é'));
    assert!(!is_alphanumeric('\''));
    assert!(!is_alphanumeric(' '));
}

#[test]
fn lowering_touches_only_ascii_capitals() {
    assert_eq!(st(&to_lower(&cs("ÀBc-D"))), "Àbc-d");
}

#[test]
fn substring_search() {
    assert!(has_substring_exec(&cs("c:\\games\\a\\a.exe"), &cs("games\\a")));
    assert!(has_substring_exec(&cs("abc"), &cs("")));
    assert!(!has_substring_exec(&cs("ab"), &cs("abc")));
}

#[test]
fn trimming_by_class() {
    assert_eq!(st(&trim_chars(&cs("  \t x y \n"), CharClass::Whitespace)), "x y");
    assert_eq!(st(&trim_chars(&cs("\"\"q\"\""), CharClass::Exactly('"'))), "q");
    assert_eq!(st(&trim_chars(&cs("\"\""), CharClass::Exactly('"'))), "");
}

#[test]
fn text_before_a_character() {
    assert_eq!(st(&before_char_exec(&cs("/games?x=1?y"), '?')), "/games");
    assert_eq!(st(&before_char_exec(&cs("/games"), '?')), "/games");
}

#[test]
fn splitting_keeps_empty_pieces() {
    let pieces = split_chars(&cs("baldur's  gate"), CharClass::NotAlphanumeric);
    let got: Vec<String> = pieces.iter().map(|p| st(p)).collect();
    assert_eq!(got, vec!["baldur", "s", "", "gate"]);
    let none = split_chars(&cs(""), CharClass::Separator);
    assert_eq!(none.len(), 1);
    assert!(none[0].is_empty());
}

#[test]
fn utf8_length_threshold() {
    assert!(utf8_len_at_least_3(&cs("abc")));
    assert!(!utf8_len_at_least_3(&cs("ab")));
    assert!(utf8_len_at_least_3(&cs("aé")));
    assert!(!utf8_len_at_least_3(&cs("é")));
}

#[test]
fn decimal_digits() {
    assert_eq!(st(&u32_decimal(0)), "0");
    assert_eq!(st(&u32_decimal(1234)), "1234");
    assert_eq!(st(&u32_decimal(4294967295)), "4294967295");
}

#[test]
fn file_names_of_windows_paths() {
    assert_eq!(file_name_exec(&cs("C:\\Games\\foo.exe")).map(|v| st(&v)), Some("foo.exe".to_string()));
    assert_eq!(file_name_exec(&cs("C:\\Games\\")).map(|v| st(&v)), Some("Games".to_string()));
    assert_eq!(file_name_exec(&cs("a/b.exe")).map(|v| st(&v)), Some("b.exe".to_string()));
    assert_eq!(file_name_exec(&cs("C:\\")), None);
    assert_eq!(file_name_exec(&cs("C:\\Games\\..")), None);
    assert_eq!(file_name_exec(&cs("")), None);
}

#[test]
fn extensions_of_windows_paths() {
    assert_eq!(extension_exec(&cs("archive.tar.gz")).map(|v| st(&v)), Some("gz".to_string()));
    assert_eq!(extension_exec(&cs("C:\\x\\.hidden")), None);
    assert_eq!(extension_exec(&cs("C:\\x\\noext")), None);
    assert_eq!(extension_exec(&cs("C:\\x\\trailing.")).map(|v| st(&v)), Some("".to_string()));
    assert!(has_extension_exec(&cs("C:\\x\\GAME.EXE"), &cs("exe")));
    assert!(!has_extension_exec(&cs("C:\\x\\game.exe.bak"), &cs("exe")));
}

#[test]
fn parents_of_windows_paths() {
    assert_eq!(parent_exec(&cs("C:\\Games\\foo.exe")).map(|v| st(&v)), Some("C:\\Games".to_string()));
    assert_eq!(parent_exec(&cs("C:\\Games\\")).map(|v| st(&v)), Some("C:\\".to_string()));
    assert_eq!(parent_exec(&cs("foo.exe")).map(|v| st(&v)), Some("".to_string()));
    assert_eq!(parent_exec(&cs("C:\\")), None);
    assert_eq!(parent_exec(&cs("")), None);
}

#[test]
fn absolute_windows_paths() {
    assert!(is_absolute_exec(&cs("C:\\x")));
    assert!(is_absolute_exec(&cs("\\\\server\\share")));
    assert!(!is_absolute_exec(&cs("C:x")));
    assert!(!is_absolute_exec(&cs("\\x")));
    assert!(!is_absolute_exec(&cs("bin\\x.exe")));
}

#[test]
fn joining_windows_paths() {
    assert_eq!(st(&join_exec(&cs("C:\\Games"), &cs("bin\\a.exe"))), "C:\\Games\\bin\\a.exe");
    assert_eq!(st(&join_exec(&cs("C:\\Games\\"), &cs("a.exe"))), "C:\\Games\\a.exe");
    assert_eq!(st(&join_exec(&cs("C:\\Games"), &cs("D:\\x.exe"))), "D:\\x.exe");
    assert_eq!(st(&join_exec(&cs("C:\\Games"), &cs("\\x.exe"))), "C:\\x.exe");
    assert_eq!(st(&join_exec(&cs(""), &cs("a.exe"))), "a.exe");
    assert_eq!(st(&join_exec(&cs("C:"), &cs("a.exe"))), "C:a.exe");
}

#[test]
fn unc_and_verbatim_prefixes() {
    assert_eq!(file_name_exec(&cs("\\\\nas\\game.exe")), None);
    assert_eq!(file_name_exec(&cs("\\\\nas\\games\\x.exe")).map(|v| st(&v)), Some("x.exe".to_string()));
    assert_eq!(parent_exec(&cs("\\\\nas\\games\\x.exe")).map(|v| st(&v)), Some("\\\\nas\\games\\".to_string()));
    assert_eq!(parent_exec(&cs("\\\\nas\\games")), None);
    assert!(is_absolute_exec(&cs("\\\\nas\\games")));
    assert!(!is_absolute_exec(&cs("\\\\nas")));
    assert_eq!(file_name_exec(&cs("\\\\nas")).map(|v| st(&v)), Some("nas".to_string()));
    assert!(is_absolute_exec(&cs("\\\\?\\C:\\x")));
    assert_eq!(file_name_exec(&cs("\\\\?\\C:\\x\\y.exe")).map(|v| st(&v)), Some("y.exe".to_string()));
    assert_eq!(file_name_exec(&cs("\\\\?\\UNC\\srv\\share")), None);
    assert!(is_absolute_exec(&cs("\\\\.\\COM1")));
    assert_eq!(st(&join_exec(&cs("\\\\nas\\games"), &cs("a.exe"))), "\\\\nas\\games\\a.exe");
    assert_eq!(st(&join_exec(&cs("\\\\nas\\games\\sub"), &cs("\\a.exe"))), "\\\\nas\\games\\a.exe");
    assert_eq!(st(&join_exec(&cs("C:\\x"), &cs("\\\\nas\\games\\a.exe"))), "\\\\nas\\games\\a.exe");
}

#[test]
fn verbatim_paths_separate_only_on_backslashes() {
    assert_eq!(file_name_exec(&cs("\\\\?\\C:\\x\\.")), None);
    assert_eq!(parent_exec(&cs("\\\\?\\C:\\x\\.")).map(|v| st(&v)), Some("\\\\?\\C:\\x".to_string()));
    assert_eq!(file_name_exec(&cs("\\\\?\\C:\\a/b")).map(|v| st(&v)), Some("a/b".to_string()));
    assert_eq!(file_name_exec(&cs("C:\\x\\.")).map(|v| st(&v)), Some("x".to_string()));
}
