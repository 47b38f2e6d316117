use std::cell::RefCell;

use launcher::epic::{EpicGame, RunningEpicGame};
use launcher::gog::{GogGame, RunningGogGame};
use launcher::steam::{RunningSteamGame, SteamGame};
use launcher::webserver::{
    build_games_list, build_running_games_list, epic_game_id, epic_launch_action, gog_game_id,
    gog_launch_action, launch_response, resolve_launch, resolve_launch_request, route_request,
    steam_game_id, steam_launch_action, steam_poster_url, steam_run_url,
    steam_vertical_poster_candidates, GamesPayload, LaunchAction, LaunchTarget, PosterCache, Route,
};

fn steam(appid: &str, name: &str) -> SteamGame {
    SteamGame {
        appid: appid.to_string(),
        name: name.to_string(),
        install_dir: name.to_lowercase(),
        manifest_path: format!("C:\\S\\appmanifest_{appid}.acf"),
    }
}

fn epic(app_name: &str, manifest: &str) -> EpicGame {
    EpicGame {
        app_name: app_name.to_string(),
        display_name: format!("Epic {app_name}"),
        install_location: "C:\\Epic\\X".to_string(),
        launch_executable: "x.exe".to_string(),
        manifest_path: manifest.to_string(),
        poster_url: Some("https://e/p.jpg".to_string()),
    }
}

fn gog(key: &str) -> GogGame {
    GogGame {
        display_name: format!("Gog {key}"),
        install_location: "C:\\G".to_string(),
        launch_executable: "C:\\G\\g.exe".to_string(),
        source_key: key.to_string(),
    }
}

fn payload() -> GamesPayload {
    GamesPayload {
        steam: vec![steam("570", "Dota 2"), steam("shared", "Steam twin")],
        epic: vec![epic("Fortnite", "C:\\M\\f.item"), epic("", "C:\\M\\nameless.item"), epic("shared", "C:\\M\\s.item")],
        gog: vec![gog("HKLM\\1_is1"), gog("HKLM\\1_is1")],
    }
}

#[test]
fn game_ids() {
    assert_eq!(steam_game_id(&steam("570", "Dota 2")), "570");
    assert_eq!(epic_game_id(&epic("Fortnite", "m")), "Fortnite");
    assert_eq!(epic_game_id(&epic("", "C:\\M\\n.item")), "manifest:C:\\M\\n.item");
    assert_eq!(gog_game_id(&gog("HKCU\\2")), "HKCU\\2");
}

#[test]
fn steam_poster_candidates_are_portrait_art() {
    let c = steam_vertical_poster_candidates("570");
    assert_eq!(c[0], "https://shared.cloudflare.steamstatic.com/store_item_assets/steam/apps/570/library_600x900.jpg");
    assert_eq!(c[1], "https://shared.cloudflare.steamstatic.com/store_item_assets/steam/apps/570/library_600x900_2x.jpg");
    assert_eq!(c[2], "https://cdn.cloudflare.steamstatic.com/steam/apps/570/library_600x900.jpg");
    assert_eq!(c[3], "https://cdn.cloudflare.steamstatic.com/steam/apps/570/library_600x900_2x.jpg");
}

#[test]
fn poster_cache_reads_what_was_written() {
    let mut cache = PosterCache::new();
    assert_eq!(cache.get("570"), None);
    cache.insert("570".to_string(), Some("u1".to_string()));
    cache.insert("10".to_string(), None);
    assert_eq!(cache.get("570"), Some(Some("u1".to_string())));
    assert_eq!(cache.get("10"), Some(None));
    cache.insert("570".to_string(), Some("u2".to_string()));
    assert_eq!(cache.get("570"), Some(Some("u2".to_string())));
    assert_eq!(cache.get("10"), Some(None));
}

#[test]
fn steam_poster_is_the_first_existing_candidate_and_is_cached() {
    let mut cache = PosterCache::new();
    let probed = RefCell::new(Vec::new());
    let exists = |u: &String| {
        probed.borrow_mut().push(u.clone());
        u.contains("cdn.cloudflare") && u.ends_with("library_600x900.jpg")
    };
    let got = steam_poster_url(&mut cache, "570", &exists);
    assert_eq!(got.as_deref(), Some("https://cdn.cloudflare.steamstatic.com/steam/apps/570/library_600x900.jpg"));
    assert_eq!(probed.borrow().len(), 3);
    let never = |_: &String| -> bool { panic!("a cached poster is not probed again") };
    let again = steam_poster_url(&mut cache, "570", &never);
    assert_eq!(again, got);
    assert_eq!(cache.get("570"), Some(got.clone()));
}

#[test]
fn steam_poster_absent_when_no_candidate_exists() {
    let mut cache = PosterCache::new();
    let count = RefCell::new(0);
    let missing = |_: &String| {
        *count.borrow_mut() += 1;
        false
    };
    assert_eq!(steam_poster_url(&mut cache, "10", &missing), None);
    assert_eq!(*count.borrow(), 4);
    assert_eq!(cache.get("10"), Some(None));
}

#[test]
fn games_list_orders_stores_and_fills_posters() {
    let mut cache = PosterCache::new();
    cache.insert("570".to_string(), Some("https://cached/570.jpg".to_string()));
    let exists = |_: &String| false;
    let list = build_games_list(&payload(), &mut cache, &exists);
    assert_eq!(list.len(), 7);
    assert_eq!((list[0].id.as_str(), list[0].source.as_str(), list[0].name.as_str()), ("570", "steam", "Dota 2"));
    assert_eq!(list[0].poster_url.as_deref(), Some("https://cached/570.jpg"));
    assert_eq!(list[1].poster_url, None);
    assert_eq!((list[2].id.as_str(), list[2].source.as_str()), ("Fortnite", "epic"));
    assert_eq!(list[2].poster_url.as_deref(), Some("https://e/p.jpg"));
    assert_eq!(list[3].id, "manifest:C:\\M\\nameless.item");
    assert_eq!((list[5].id.as_str(), list[5].source.as_str(), list[5].name.as_str()), ("HKLM\\1_is1", "gog", "Gog HKLM\\1_is1"));
    assert_eq!(list[6].poster_url, None);
}

#[test]
fn running_games_list_names_nameless_epic_games_by_pid() {
    let s = vec![RunningSteamGame { appid: "570".to_string(), name: "Dota 2".to_string(), pid: 1, exe_path: "d.exe".to_string() }];
    let e = vec![
        RunningEpicGame { app_name: "".to_string(), display_name: "Nameless".to_string(), pid: 4321, exe_path: "n.exe".to_string() },
        RunningEpicGame { app_name: "Fortnite".to_string(), display_name: "Fortnite".to_string(), pid: 2, exe_path: "f.exe".to_string() },
    ];
    let g = vec![RunningGogGame { display_name: "W".to_string(), source_key: "HKLM\\1".to_string(), pid: 3, exe_path: "w.exe".to_string() }];
    let list = build_running_games_list(&s, &e, &g);
    assert_eq!(list.len(), 4);
    assert_eq!((list[0].id.as_str(), list[0].source.as_str(), list[0].pid), ("570", "steam", 1));
    assert_eq!((list[1].id.as_str(), list[1].source.as_str(), list[1].name.as_str()), ("pid:4321", "epic", "Nameless"));
    assert_eq!(list[2].id, "Fortnite");
    assert_eq!((list[3].id.as_str(), list[3].source.as_str(), list[3].exe_path.as_str()), ("HKLM\\1", "gog", "w.exe"));
}

#[test]
fn routes() {
    assert_eq!(route_request("GET", "/games"), Route::Games);
    assert_eq!(route_request("GET", "/games?x=1"), Route::Games);
    assert_eq!(route_request("GET", "/games/"), Route::Games);
    assert_eq!(route_request("GET", "/games/running//?a"), Route::RunningGames);
    assert_eq!(route_request("GET", "/windows"), Route::Windows);
    assert_eq!(route_request("GET", "/suspend"), Route::Suspend);
    assert_eq!(route_request("POST", "/suspend"), Route::Suspend);
    assert_eq!(route_request("POST", "/games/launch"), Route::Launch);
    assert_eq!(route_request("GET", "/games/launch"), Route::NotFound);
    assert_eq!(route_request("POST", "/games"), Route::NotFound);
    assert_eq!(route_request("DELETE", "/games"), Route::NotFound);
    assert_eq!(route_request("GET", "/"), Route::NotFound);
}

#[test]
fn launch_request_answers() {
    let p = payload();
    assert_eq!(resolve_launch_request(&p, Some("570")), Ok(LaunchTarget::Steam(0)));
    assert_eq!(
        resolve_launch_request(&p, None),
        Err((400, r#"{"error":"invalid JSON body, expected {\"id\":\"...\"}"}"#.to_string()))
    );
    assert_eq!(
        resolve_launch_request(&p, Some("nope")),
        Err((422, "{\"error\":\"game 'nope' not found\",\"ok\":false}".to_string()))
    );
    assert_eq!(
        resolve_launch_request(&p, Some("shared")),
        Err((422, "{\"error\":\"game id 'shared' is ambiguous across sources\",\"ok\":false}".to_string()))
    );
}

#[test]
fn launch_resolution() {
    let p = payload();
    assert_eq!(resolve_launch(&p, "570"), Ok(LaunchTarget::Steam(0)));
    assert_eq!(resolve_launch(&p, "Fortnite"), Ok(LaunchTarget::Epic(0)));
    assert_eq!(resolve_launch(&p, "manifest:C:\\M\\nameless.item"), Ok(LaunchTarget::Epic(1)));
    assert_eq!(resolve_launch(&p, "HKLM\\1_is1"), Ok(LaunchTarget::Gog(0)));
    assert_eq!(resolve_launch(&p, "nope"), Err("game 'nope' not found".to_string()));
    assert_eq!(resolve_launch(&p, "shared"), Err("game id 'shared' is ambiguous across sources".to_string()));
    assert_eq!(resolve_launch(&GamesPayload::default(), "570"), Err("game '570' not found".to_string()));
}

#[test]
fn launch_actions_focus_running_games() {
    let dota = steam("570", "Dota 2");
    let running = vec![
        RunningSteamGame { appid: "10".to_string(), name: "CS".to_string(), pid: 9, exe_path: "c.exe".to_string() },
        RunningSteamGame { appid: "570".to_string(), name: "Dota 2".to_string(), pid: 77, exe_path: "d.exe".to_string() },
        RunningSteamGame { appid: "570".to_string(), name: "Dota 2".to_string(), pid: 78, exe_path: "d.exe".to_string() },
    ];
    assert!(matches!(steam_launch_action(&dota, &running), LaunchAction::FocusWindow(77)));
    match steam_launch_action(&dota, &Vec::new()) {
        LaunchAction::OpenUrl(u) => assert_eq!(u, "steam://rungameid/570"),
        other => panic!("unexpected {other:?}"),
    }
    assert_eq!(steam_run_url("10"), "steam://rungameid/10");

    let running_epic = vec![
        RunningEpicGame { app_name: "".to_string(), display_name: "N".to_string(), pid: 5, exe_path: "n.exe".to_string() },
        RunningEpicGame { app_name: "Fortnite".to_string(), display_name: "F".to_string(), pid: 6, exe_path: "f.exe".to_string() },
    ];
    assert!(matches!(epic_launch_action(&epic("Fortnite", "m"), &running_epic), LaunchAction::FocusWindow(6)));
    assert!(matches!(epic_launch_action(&epic("", "m"), &running_epic), LaunchAction::LaunchGame));
    assert!(matches!(epic_launch_action(&epic("Other", "m"), &running_epic), LaunchAction::LaunchGame));

    let running_gog = vec![RunningGogGame { display_name: "W".to_string(), source_key: "HKLM\\1_is1".to_string(), pid: 8, exe_path: "w.exe".to_string() }];
    assert!(matches!(gog_launch_action(&gog("HKLM\\1_is1"), &running_gog), LaunchAction::FocusWindow(8)));
    assert!(matches!(gog_launch_action(&gog("HKLM\\2"), &running_gog), LaunchAction::LaunchGame));
}

#[test]
fn launch_responses() {
    assert_eq!(launch_response(&Ok(())), (200, "{\"ok\":true}".to_string()));
    assert_eq!(
        launch_response(&Err("game 'x' not found".to_string())),
        (422, "{\"error\":\"game 'x' not found\",\"ok\":false}".to_string())
    );
    assert_eq!(
        launch_response(&Err("bad \"quote\"\n".to_string())),
        (422, "{\"error\":\"bad \\\"quote\\\"\\n\",\"ok\":false}".to_string())
    );
    assert_eq!(
        launch_response(&Err("a\u{1}\u{1f}\t\\/é\u{8}\u{c}\r".to_string())),
        (422, "{\"error\":\"a\\u0001\\u001f\\t\\\\/é\\b\\f\\r\",\"ok\":false}".to_string())
    );
}
