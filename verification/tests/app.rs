//! Launched applications and scanned games.

use clearxr_space::app::game_scanner::{scan_all, GameSource, SteamApp};
use clearxr_space::app::{
    launch_flat_game, launch_steam_game, steam_url, AppStatus, LaunchedApp, ProcessPoll,
};

#[test]
fn app_status_variants() {
    assert_eq!(AppStatus::Running, AppStatus::Running);
    assert_eq!(AppStatus::ExitedOk, AppStatus::ExitedOk);
    assert_ne!(AppStatus::Running, AppStatus::ExitedOk);
}

#[test]
fn launch_flat_game_invalid_path() {
    let result = launch_flat_game("test", None, Err("No such file or directory".to_string()));
    assert!(result.is_err());
    assert_eq!(result.unwrap_err(), "Failed to launch 'test': No such file or directory");
}

#[test]
fn launch_flat_game_valid() {
    let result = launch_flat_game("test", None, Ok(()));
    if let Ok(app) = result {
        assert_eq!(app.name, "test");
        assert!(!app.is_xr);
        assert_eq!(app.app_id, None);
    } else {
        panic!("a spawned process is a launched game");
    }
}

#[test]
fn steam_games_go_by_their_url() {
    assert_eq!(steam_url(440), "steam://run/440");
    assert_eq!(steam_url(0), "steam://run/0");
    assert_ne!(steam_url(44), steam_url(440));
    let app = launch_steam_game("Dota 2", 570, Ok(())).unwrap();
    assert_eq!(app.name, "Dota 2");
    assert_eq!(app.app_id, Some(570));
    let failed = launch_steam_game("Dota 2", 570, Err("denied".to_string()));
    assert_eq!(failed.unwrap_err(), "Failed to launch Steam game 'Dota 2': denied");
}

#[test]
fn status_follows_the_process() {
    let app = LaunchedApp { name: "x".to_string(), app_id: None, is_xr: false };
    assert_eq!(app.status(ProcessPoll::StillRunning), AppStatus::Running);
    assert_eq!(
        app.status(ProcessPoll::Ended { success: true, code: Some(0) }),
        AppStatus::ExitedOk
    );
    assert_eq!(
        app.status(ProcessPoll::Ended { success: false, code: Some(3) }),
        AppStatus::Exited(3)
    );
    assert_eq!(
        app.status(ProcessPoll::Ended { success: false, code: None }),
        AppStatus::Exited(-1)
    );
    assert_eq!(app.status(ProcessPoll::Unknown), AppStatus::Exited(-1));
}

#[test]
fn scanning_leaves_out_what_could_not_be_read() {
    let known = SteamApp {
        app_id: 440,
        name: Some("Team Fortress 2".to_string()),
        install_dir: "/steam/tf2".to_string(),
    };
    let nameless = SteamApp { app_id: 7, name: None, install_dir: "/steam/seven".to_string() };
    let games = scan_all(&vec![None, Some(vec![Some(known), None]), Some(vec![Some(nameless)])]);
    assert_eq!(games.len(), 2);
    assert_eq!(games[0].app_id, 440);
    assert_eq!(games[0].name, "Team Fortress 2");
    assert_eq!(games[0].install_dir, "/steam/tf2");
    assert_eq!(games[0].source, GameSource::Steam);
    assert_eq!(games[1].name, "App 7");
    let copy = games[1].copy();
    assert_eq!(copy.app_id, 7);
    assert_eq!(copy.name, "App 7");
    assert_eq!(copy.install_dir, "/steam/seven");
}
