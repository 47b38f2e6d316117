use launcher::epic::{
    epic_game_from_manifest, epic_launch_plan, extract_epic_portrait_url, get_installed_epic_games, ManifestFields,
    get_running_epic_games, is_epic_manifest_file, is_portrait_hint, looks_like_image_url, EpicGame,
};
use launcher::gog::{
    add_gog_game, get_running_gog_games, gog_launch_executable, gog_launch_plan, gog_record, GogRecord,
    guess_game_executable, is_executable_path, is_gog_entry, name_tokens_exec,
    normalize_display_icon_path, registry_string, GogGame, LaunchErrorKind,
};
use launcher::json::parse_json;
use launcher::process::{get_all_window_entries, threads_all_suspended, AppInfo, ThreadProbe};
use launcher::steam::{
    add_listed_libraries, get_running_steam_games, get_steam_games_from_manifests,
    is_steam_manifest_file, same_path_exec, steam_game_from_manifest, steam_game_of_captures,
    steam_libraries, steam_main_library, SteamGame,
};

fn app(pid: u32, path: &str) -> AppInfo {
    AppInfo { pid, name: format!("window {pid}"), path: path.to_string() }
}

fn epic(app_name: &str, install: &str) -> EpicGame {
    EpicGame {
        app_name: app_name.to_string(),
        display_name: format!("{app_name} game"),
        install_location: install.to_string(),
        launch_executable: "Bin\\Game.exe".to_string(),
        manifest_path: format!("C:\\Manifests\\{app_name}.item"),
        poster_url: None,
    }
}

fn fields(app: &str, display: &str, install: &str, launch: &str) -> ManifestFields {
    ManifestFields {
        app_name: app.to_string(),
        display_name: display.to_string(),
        install_location: install.to_string(),
        launch_executable: launch.to_string(),
    }
}

fn fortnite_fields() -> ManifestFields {
    fields("Fortnite", "Fortnite", "C:\\Epic\\Fortnite", "FortniteGame\\Binaries\\Win64\\FortniteClient.exe")
}

fn gog(name: &str, install: &str, key: &str) -> GogGame {
    GogGame {
        display_name: name.to_string(),
        install_location: install.to_string(),
        launch_executable: format!("{install}\\game.exe"),
        source_key: key.to_string(),
    }
}

fn steam(appid: &str, name: &str, dir: &str) -> SteamGame {
    SteamGame {
        appid: appid.to_string(),
        name: name.to_string(),
        install_dir: dir.to_string(),
        manifest_path: format!("C:\\Steam\\steamapps\\appmanifest_{appid}.acf"),
    }
}

const FORTNITE: &str = r#"{
  "AppName": "Fortnite",
  "DisplayName": "Fortnite",
  "InstallLocation": "C:\\Epic\\Fortnite",
  "LaunchExecutable": "FortniteGame\\Binaries\\Win64\\FortniteClient.exe",
  "KeyImages": [
    {"Type": "DieselGameBox", "Url": "https://cdn1.epicgames.com/wide.jpg"},
    {"Type": "DieselGameBoxTall", "Url": "https://cdn1.epicgames.com/tall.jpg"}
  ]
}"#;

#[test]
fn epic_manifest_files_end_in_item() {
    assert!(is_epic_manifest_file("C:\\ProgramData\\Epic\\Manifests\\ABC.item"));
    assert!(is_epic_manifest_file("x.ITEM"));
    assert!(!is_epic_manifest_file("x.items"));
    assert!(!is_epic_manifest_file("C:\\m\\.item"));
    assert!(!is_epic_manifest_file("C:\\m\\item"));
}

#[test]
fn epic_portrait_hints_and_image_urls() {
    assert!(is_portrait_hint("DieselGameBoxTall"));
    assert!(is_portrait_hint("cover_600x900"));
    assert!(is_portrait_hint("POSTER"));
    assert!(!is_portrait_hint("Thumbnail"));
    assert!(looks_like_image_url("HTTPS://cdn.example.com/a.PNG"));
    assert!(looks_like_image_url("http://x/y.avif?w=3"));
    assert!(!looks_like_image_url("ftp://x/a.png"));
    assert!(!looks_like_image_url("https://x/a.gif"));
}

#[test]
fn epic_manifest_gives_game_with_tall_poster() {
    let g = epic_game_from_manifest("C:\\Manifests\\F.item", &fortnite_fields(), FORTNITE).expect("a game");
    assert_eq!(g.app_name, "Fortnite");
    assert_eq!(g.display_name, "Fortnite");
    assert_eq!(g.install_location, "C:\\Epic\\Fortnite");
    assert_eq!(g.launch_executable, "FortniteGame\\Binaries\\Win64\\FortniteClient.exe");
    assert_eq!(g.manifest_path, "C:\\Manifests\\F.item");
    assert_eq!(g.poster_url.as_deref(), Some("https://cdn1.epicgames.com/tall.jpg"));
}

#[test]
fn epic_poster_from_a_portrait_key() {
    let doc = parse_json(r#"{"images": {"portrait": ["not a url", "https://x/p.webp"]}}"#).unwrap();
    assert_eq!(extract_epic_portrait_url(&doc).as_deref(), Some("https://x/p.webp"));
    let none = parse_json(r#"{"images": ["https://x/wide.jpg"]}"#).unwrap();
    assert_eq!(extract_epic_portrait_url(&none), None);
}

#[test]
fn epic_manifest_without_install_location_gives_no_game() {
    assert!(epic_game_from_manifest("a.item", &fields("X", "X", "", "x.exe"), FORTNITE).is_none());
    let minimal = epic_game_from_manifest("a.item", &fields("", "", "D:\\X", ""), r#"{"InstallLocation": "D:\\X"}"#).unwrap();
    assert_eq!(minimal.app_name, "");
    assert_eq!(minimal.launch_executable, "");
    assert_eq!(minimal.install_location, "D:\\X");
    assert_eq!(minimal.poster_url, None);
}

#[test]
fn epic_game_kept_when_only_the_poster_parse_fails() {
    let text = r#"{"AppName":"a","InstallLocation":"C:/g","X":1e400}"#;
    let g = epic_game_from_manifest("a.item", &fields("a", "", "C:/g", ""), text).unwrap();
    assert_eq!(g.app_name, "a");
    assert_eq!(g.poster_url, None);
}

#[test]
fn installed_epic_games_skip_unreadable_manifests() {
    let read = |f: Option<ManifestFields>, t: &str| Some((f, t.to_string()));
    let entries = vec![
        ("C:\\M\\bad.item".to_string(), read(None, "{")),
        ("C:\\M\\F.item".to_string(), read(Some(fortnite_fields()), FORTNITE)),
        ("C:\\M\\unreadable.item".to_string(), None),
        ("C:\\M\\F.json".to_string(), read(Some(fortnite_fields()), FORTNITE)),
        ("C:\\M\\empty.item".to_string(), read(Some(fields("E", "", "", "")), "{}")),
    ];
    let games = get_installed_epic_games(&entries);
    assert_eq!(games.len(), 1);
    assert_eq!(games[0].manifest_path, "C:\\M\\F.item");
    assert_eq!(games[0].poster_url.as_deref(), Some("https://cdn1.epicgames.com/tall.jpg"));
}

#[test]
fn running_epic_games_match_install_locations() {
    let games = vec![epic("Empty", ""), epic("A", "C:\\Games\\A"), epic("A2", "c:\\games")];
    let apps = vec![app(1, "c:\\GAMES\\a\\bin\\a.exe"), app(2, "C:\\Other\\x.exe"), app(3, "C:\\Games\\B\\b.exe")];
    let running = get_running_epic_games(&games, &apps);
    assert_eq!(running.len(), 2);
    assert_eq!(running[0].app_name, "A");
    assert_eq!(running[0].pid, 1);
    assert_eq!(running[0].exe_path, "c:\\GAMES\\a\\bin\\a.exe");
    assert_eq!(running[1].app_name, "A2");
    assert_eq!(running[1].pid, 3);
}

#[test]
fn epic_launch_plan_prefers_the_launcher_uri() {
    let g = epic_game_from_manifest("C:\\Manifests\\F.item", &fortnite_fields(), FORTNITE).unwrap();
    let plan = epic_launch_plan(&g);
    assert_eq!(plan.uri.as_deref(), Some("com.epicgames.launcher://apps/Fortnite?action=launch&silent=true"));
    assert_eq!(plan.program, "C:\\Epic\\Fortnite\\FortniteGame\\Binaries\\Win64\\FortniteClient.exe");
    assert_eq!(plan.working_dir.as_deref(), Some("C:\\Epic\\Fortnite"));
    let mut bare = epic("", "");
    bare.launch_executable = "D:\\Abs\\game.exe".to_string();
    let plan = epic_launch_plan(&bare);
    assert_eq!(plan.uri, None);
    assert_eq!(plan.program, "D:\\Abs\\game.exe");
    assert_eq!(plan.working_dir, None);
}

#[test]
fn gog_registry_values() {
    assert_eq!(registry_string("  \"C:\\GOG\\Game\"  "), "C:\\GOG\\Game");
    assert_eq!(normalize_display_icon_path("\"C:\\GOG Games\\Witcher\\witcher.exe\",0"), "C:\\GOG Games\\Witcher\\witcher.exe");
    assert_eq!(normalize_display_icon_path(" C:\\G\\g.exe , 1"), "C:\\G\\g.exe");
    assert_eq!(normalize_display_icon_path(""), "");
    assert!(is_executable_path("a.EXE"));
    assert!(!is_executable_path("a.exe.bak"));
    assert_eq!(gog_launch_executable("\"C:\\G\\game.exe\",0"), "C:\\G\\game.exe");
    assert_eq!(gog_launch_executable("\"C:\\G\\game.ico\""), "");
}

#[test]
fn gog_entries_are_recognised() {
    assert!(is_gog_entry("The Witcher", "GOG.com", "\"C:\\G\\unins000.exe\"", "1207658924_is1"));
    assert!(is_gog_entry("Some Game", "Publisher", "", "GOGPACKSOMEGAME_is1"));
    assert!(!is_gog_entry("GOG GALAXY", "GOG.com", "", "GOGGALAXY_is1"));
    assert!(!is_gog_entry("Other", "Valve", "", "x"));
    assert!(!is_gog_entry("", "GOG.com", "", "gog"));
}

#[test]
fn gog_name_tokens() {
    let toks: Vec<String> = name_tokens_exec("Baldur's Gate 3").iter().map(|t| t.iter().collect()).collect();
    assert_eq!(toks, vec!["baldur", "gate"]);
}

#[test]
fn gog_executable_guess_avoids_helpers() {
    let files = vec![
        "C:\\G\\Witcher\\unins000.exe".to_string(),
        "C:\\G\\Witcher\\readme.txt".to_string(),
        "C:\\G\\Witcher\\launcher.exe".to_string(),
        "C:\\G\\Witcher\\bin\\witcher.exe".to_string(),
    ];
    assert_eq!(guess_game_executable(&files, "The Witcher"), "C:\\G\\Witcher\\bin\\witcher.exe");
    let ties = vec!["C:\\G\\b.exe".to_string(), "C:\\G\\A.exe".to_string()];
    assert_eq!(guess_game_executable(&ties, "Zzz"), "C:\\G\\A.exe");
    assert_eq!(guess_game_executable(&Vec::new(), "Zzz"), "");
    assert_eq!(guess_game_executable(&vec!["C:\\G\\a.dll".to_string()], "Zzz"), "");
}

#[test]
fn gog_record_decisions() {
    assert_eq!(gog_record("Other", "Valve", "", "x", "C:\\O", ""), GogRecord::Skip);
    assert_eq!(gog_record("Witcher", "GOG.com", "", "1_is1", "C:\\G", "\"C:\\G\\w.exe\",0"), GogRecord::Use("C:\\G\\w.exe".to_string()));
    assert_eq!(gog_record("Witcher", "GOG.com", "", "1_is1", "C:\\G", "C:\\G\\w.ico"), GogRecord::Guess);
    assert_eq!(gog_record("Witcher", "GOG.com", "", "1_is1", "", "C:\\G\\w.ico"), GogRecord::Use(String::new()));
    assert_eq!(gog_record("Witcher", "GOG.com", "", "1_is1", "", "\\\\nas\\game.exe"), GogRecord::Use(String::new()));
}

#[test]
fn gog_games_are_deduplicated() {
    let mut games = Vec::new();
    assert!(add_gog_game(&mut games, "HKLM", "1_is1", "Game".to_string(), "".to_string(), "C:\\G\\game.exe".to_string()));
    assert_eq!(games[0].install_location, "C:\\G");
    assert_eq!(games[0].source_key, "HKLM\\1_is1");
    assert!(!add_gog_game(&mut games, "HKCU", "1_is1", "GAME".to_string(), "c:\\g".to_string(), "C:\\G\\GAME.exe".to_string()));
    assert!(add_gog_game(&mut games, "HKCU", "2_is1", "Other".to_string(), "C:\\O".to_string(), "".to_string()));
    assert_eq!(games.len(), 2);
}

#[test]
fn gog_launch_plans_and_errors() {
    let mut g = gog("Game", "C:\\G", "HKLM\\1");
    let plan = gog_launch_plan(&g).unwrap();
    assert_eq!(plan.program, "C:\\G\\game.exe");
    assert_eq!(plan.working_dir.as_deref(), Some("C:\\G"));
    g.launch_executable = String::new();
    let e = gog_launch_plan(&g).unwrap_err();
    assert_eq!(e.kind, LaunchErrorKind::NotFound);
    assert_eq!(e.message, "No launch executable found for GOG game");
    g.launch_executable = "C:\\G\\game.ico".to_string();
    let e = gog_launch_plan(&g).unwrap_err();
    assert_eq!(e.kind, LaunchErrorKind::InvalidInput);
    assert_eq!(e.message, "Resolved launch path is not an executable: C:\\G\\game.ico");
}

#[test]
fn running_gog_games_match_install_locations() {
    let games = vec![gog("Skip", "", "k0"), gog("Witcher", "C:\\GOG\\Witcher", "k1")];
    let apps = vec![app(5, "C:\\gog\\witcher\\bin\\w.exe"), app(6, "C:\\elsewhere\\x.exe")];
    let running = get_running_gog_games(&games, &apps);
    assert_eq!(running.len(), 1);
    assert_eq!(running[0].source_key, "k1");
    assert_eq!(running[0].display_name, "Witcher");
    assert_eq!(running[0].pid, 5);
}

#[test]
fn steam_main_library_from_the_registry() {
    assert_eq!(steam_main_library("c:/program files (x86)/steam\0\0").as_deref(), Some("c:/program files (x86)/steam\\\\steamapps"));
    assert_eq!(steam_main_library("\0"), None);
    assert_eq!(steam_main_library(""), None);
}

#[test]
fn steam_libraries_skip_folders_already_listed() {
    let vdf = "\"libraryfolders\"\n{\n\t\"0\"\n\t{\n\t\t\"path\"\t\t\"c:\\\\program files (x86)\\\\steam\"\n\t}\n\t\"1\"\n\t{\n\t\t\"path\"\t\t\"D:/SteamLibrary\"\n\t}\n\t\"2\"\n\t{\n\t\t\"path\"\t\t\"D:\\\\SteamLibrary\"\n\t}\n}\n";
    let libs = steam_libraries("c:/program files (x86)/steam", Some(vdf));
    assert_eq!(libs, vec!["c:/program files (x86)/steam\\\\steamapps".to_string(), "D:\\\\SteamLibrary\\\\steamapps".to_string()]);
    assert_eq!(steam_libraries("c:/steam", None), vec!["c:/steam\\\\steamapps".to_string()]);
    assert!(steam_libraries("", Some(vdf)).is_empty());
}

#[test]
fn steam_manifest_files() {
    assert!(is_steam_manifest_file("D:\\S\\steamapps\\appmanifest_570.acf"));
    assert!(!is_steam_manifest_file("D:\\S\\steamapps\\appmanifest_570.acf.bak"));
    assert!(!is_steam_manifest_file("D:\\S\\steamapps\\libraryfolders.vdf"));
}

const DOTA: &str = "\"AppState\"\n{\n\t\"appid\"\t\t\"570\"\n\t\"name\"\t\t\"Dota 2\"\n\t\"installdir\"\t\t\"dota 2 beta\"\n}\n";

#[test]
fn steam_manifest_gives_game() {
    let g = steam_game_from_manifest("D:\\S\\steamapps\\appmanifest_570.acf", DOTA).unwrap();
    assert_eq!(g.appid, "570");
    assert_eq!(g.name, "Dota 2");
    assert_eq!(g.install_dir, "dota 2 beta");
    assert_eq!(g.manifest_path, "D:\\S\\steamapps\\appmanifest_570.acf");
    assert!(steam_game_from_manifest("x.acf", "\"name\" \"No id\"").is_none());
    assert!(steam_game_from_manifest("x.acf", "\"appid\" \"abc\"\n\"name\" \"Bad id\"").is_none());
    let no_dir = steam_game_from_manifest("x.acf", "\"appid\" \"10\"\n\"name\" \"CS\"").unwrap();
    assert_eq!(no_dir.install_dir, "");
}

#[test]
fn steam_games_keep_the_first_manifest_of_an_appid() {
    let entries = vec![
        ("C:\\a\\appmanifest_570.acf".to_string(), Some(DOTA.to_string())),
        ("C:\\b\\appmanifest_1.acf".to_string(), Some("nothing here".to_string())),
        ("C:\\b\\common".to_string(), None),
        ("C:\\b\\notes.txt".to_string(), Some(DOTA.to_string())),
        ("D:\\c\\appmanifest_570.acf".to_string(), Some(DOTA.to_string())),
        ("D:\\c\\appmanifest_10.acf".to_string(), Some("\"appid\" \"10\"\n\"name\" \"CS\"".to_string())),
    ];
    let games = get_steam_games_from_manifests(&entries);
    assert_eq!(games.len(), 2);
    assert_eq!(games[0].manifest_path, "C:\\a\\appmanifest_570.acf");
    assert_eq!(games[1].appid, "10");
}

#[test]
fn running_steam_games_match_install_dirs() {
    let games = vec![steam("570", "Dota 2", "dota 2 beta"), steam("10", "CS", "Half-Life")];
    let apps = vec![app(7, "D:\\S\\steamapps\\common\\Dota 2 Beta\\game\\dota2.exe"), app(8, "C:\\x\\notepad.exe")];
    let running = get_running_steam_games(&games, &apps);
    assert_eq!(running.len(), 1);
    assert_eq!(running[0].appid, "570");
    assert_eq!(running[0].pid, 7);
    let with_empty = vec![steam("1", "No dir", "")];
    let all = get_running_steam_games(&with_empty, &apps);
    assert_eq!(all.len(), 2);
}

#[test]
fn process_suspension_verdicts() {
    assert!(!threads_all_suspended(&vec![]));
    assert!(threads_all_suspended(&vec![ThreadProbe::PreviousCount(1), ThreadProbe::PreviousCount(3)]));
    assert!(!threads_all_suspended(&vec![ThreadProbe::PreviousCount(1), ThreadProbe::PreviousCount(0)]));
    assert!(!threads_all_suspended(&vec![ThreadProbe::PreviousCount(u32::MAX)]));
    assert!(!threads_all_suspended(&vec![ThreadProbe::NotOpened]));
}

#[test]
fn window_entries_carry_their_state() {
    let entries = get_all_window_entries(vec![app(1, "a"), app(2, "b"), app(3, "c")], &vec![Some(true), Some(false), None]);
    assert_eq!(entries.len(), 3);
    assert!(entries[0].suspended);
    assert!(!entries[1].suspended);
    assert!(!entries[2].suspended);
    assert_eq!(entries[2].info.pid, 3);
}

#[test]
fn steam_game_from_given_captures() {
    let g = steam_game_of_captures("p.acf", Some("570".to_string()), Some("Dota 2".to_string()), None).unwrap();
    assert_eq!((g.appid.as_str(), g.name.as_str(), g.install_dir.as_str(), g.manifest_path.as_str()), ("570", "Dota 2", "", "p.acf"));
    assert!(steam_game_of_captures("p.acf", Some("570".to_string()), None, Some("d".to_string())).is_none());
    assert!(steam_game_of_captures("p.acf", Some(String::new()), Some("n".to_string()), None).is_none());
}

#[test]
fn listed_libraries_from_given_captures() {
    let caps = vec![Some("./lib".to_string()), None, Some("lib".to_string()), Some(".\\lib".to_string()), Some("D:/x".to_string())];
    let libs = add_listed_libraries("C:\\Steam\\\\steamapps".to_string(), &caps);
    assert_eq!(
        libs,
        vec![
            "C:\\Steam\\\\steamapps".to_string(),
            ".\\\\lib\\\\steamapps".to_string(),
            "lib\\\\steamapps".to_string(),
            "D:\\\\x\\\\steamapps".to_string(),
        ]
    );
}

#[test]
fn path_equality_keeps_a_leading_dot() {
    let cs = |s: &str| s.chars().collect::<Vec<char>>();
    assert!(!same_path_exec(&cs("./lib"), &cs("lib")));
    assert!(same_path_exec(&cs(".\\lib"), &cs("./lib")));
    assert!(same_path_exec(&cs("lib/./x"), &cs("lib\\x")));
    assert!(!same_path_exec(&cs("C:./lib"), &cs("C:lib")));
    assert!(same_path_exec(&cs("C:\\./lib"), &cs("c:/lib")));
    assert!(same_path_exec(&cs("\\\\nas\\share\\x"), &cs("//nas/share/x")));
    assert!(!same_path_exec(&cs("\\\\nas\\share\\x"), &cs("\\\\nas\\other\\x")));
}

#[test]
fn verbatim_path_equality_keeps_dot_components() {
    let cs = |s: &str| s.chars().collect::<Vec<char>>();
    assert!(!same_path_exec(&cs("\\\\?\\C:\\x\\.\\y"), &cs("\\\\?\\C:\\x\\y")));
    assert!(same_path_exec(&cs("\\\\?\\C:\\x\\\\y"), &cs("\\\\?\\c:\\x\\y")));
    assert!(!same_path_exec(&cs("\\\\?\\C:\\x/y"), &cs("\\\\?\\C:\\x\\y")));
}
