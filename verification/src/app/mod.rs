//! Launched applications: what is known of them and how they end.

pub mod game_scanner;

use crate::text::{decimal, joined, numbered};
use vstd::prelude::*;

verus! {

/// A launched application. The process handle stays with the caller.
#[derive(Clone, Debug)]
pub struct LaunchedApp {
    pub name: String,
    pub app_id: Option<u32>,
    pub is_xr: bool,
}

/// Result of checking a launched app.
#[derive(Clone, Copy, Debug, PartialEq, Eq, Structural)]
pub enum AppStatus {
    Running,
    /// The exit code.
    Exited(i32),
    /// Exit code 0.
    ExitedOk,
}

/// What the operating system says of a process.
#[derive(Clone, Copy, Debug, PartialEq, Eq, Structural)]
pub enum ProcessPoll {
    /// It has not ended.
    StillRunning,
    /// It has ended; the code is missing where a signal ended it.
    Ended { success: bool, code: Option<i32> },
    /// It could not be asked.
    Unknown,
}

/// The status that an answer of the operating system stands for: without an
/// exit code, or without an answer, the code counts as -1.
pub open spec fn status_of(poll: ProcessPoll) -> AppStatus {
    match poll {
        ProcessPoll::StillRunning => AppStatus::Running,
        ProcessPoll::Unknown => AppStatus::Exited(-1i32),
        ProcessPoll::Ended { success: true, .. } => AppStatus::ExitedOk,
        ProcessPoll::Ended { success: false, code: Some(code) } => AppStatus::Exited(code),
        ProcessPoll::Ended { success: false, code: None } => AppStatus::Exited(-1i32),
    }
}

impl LaunchedApp {
    /// Check if the app is still running.
    pub fn status(&self, poll: ProcessPoll) -> (status: AppStatus)
        ensures
            status == status_of(poll),
    {
        match poll {
            ProcessPoll::StillRunning => AppStatus::Running,
            ProcessPoll::Unknown => AppStatus::Exited(-1),
            ProcessPoll::Ended { success, code } => if success {
                AppStatus::ExitedOk
            } else {
                match code {
                    Some(code) => AppStatus::Exited(code),
                    None => AppStatus::Exited(-1),
                }
            },
        }
    }
}

/// The message for a launch that failed.
pub open spec fn launch_error(before: Seq<char>, name: Seq<char>, cause: Seq<char>) -> Seq<char> {
    before + name + "': "@ + cause
}

fn launched(
    before: &str,
    name: &str,
    app_id: Option<u32>,
    spawned: Result<(), String>,
) -> (result: Result<LaunchedApp, String>)
    ensures
        match (spawned, result) {
            (Ok(_), Ok(app)) => app.name@ == name@ && app.app_id == app_id && !app.is_xr,
            (Err(cause), Err(message)) => message@ == launch_error(before@, name@, cause@),
            _ => false,
        },
{
    match spawned {
        Ok(()) => Ok(LaunchedApp { name: name.to_owned(), app_id, is_xr: false }),
        Err(cause) => {
            let head = joined(before, name, "': ");
            let message = joined(head.as_str(), cause.as_str(), "");
            proof {
                reveal_strlit("");
            }
            assert(message@ =~= launch_error(before@, name@, cause@));
            Err(message)
        },
    }
}

/// Launch a flat (non-VR) game, `spawned` being how starting its executable
/// went.
pub fn launch_flat_game(
    name: &str,
    app_id: Option<u32>,
    spawned: Result<(), String>,
) -> (result: Result<LaunchedApp, String>)
    ensures
        match (spawned, result) {
            (Ok(_), Ok(app)) => app.name@ == name@ && app.app_id == app_id && !app.is_xr,
            (Err(cause), Err(message)) => message@ == launch_error(
                "Failed to launch '"@,
                name@,
                cause@,
            ),
            _ => false,
        },
{
    launched("Failed to launch '", name, app_id, spawned)
}

/// The address that makes Steam run a game.
pub open spec fn steam_address(app_id: u32) -> Seq<char> {
    "steam://run/"@ + decimal(app_id as nat)
}

/// The address that makes Steam run a game.
pub fn steam_url(app_id: u32) -> (url: String)
    ensures
        url@ == steam_address(app_id),
{
    let url = numbered("steam://run/", app_id as u128, "");
    proof {
        reveal_strlit("");
    }
    assert(url@ =~= steam_address(app_id));
    url
}

/// Launch a Steam game through its `steam_url`, `spawned` being how opening the
/// address went.
pub fn launch_steam_game(
    name: &str,
    app_id: u32,
    spawned: Result<(), String>,
) -> (result: Result<LaunchedApp, String>)
    ensures
        match (spawned, result) {
            (Ok(_), Ok(app)) => app.name@ == name@ && app.app_id == Some(app_id) && !app.is_xr,
            (Err(cause), Err(message)) => message@ == launch_error(
                "Failed to launch Steam game '"@,
                name@,
                cause@,
            ),
            _ => false,
        },
{
    launched("Failed to launch Steam game '", name, Some(app_id), spawned)
}

/// Different games have different Steam addresses.
pub proof fn law_steam_urls_differ(a: u32, b: u32)
    requires
        steam_address(a) == steam_address(b),
    ensures
        a == b,
{
    let start = "steam://run/"@.len() as int;
    assert(steam_address(a).skip(start) =~= decimal(a as nat));
    assert(steam_address(b).skip(start) =~= decimal(b as nat));
    crate::text::law_decimal_tells_numbers_apart(a as nat, b as nat);
}

/// A game runs exactly while its process has not ended: one that ended well ended well, one
/// that failed has its own exit code, and -1 where none is known.
pub proof fn law_status_is_that_of_the_process(success: bool, code: Option<i32>)
    ensures
        status_of(ProcessPoll::StillRunning) is Running,
        !(status_of(ProcessPoll::Ended { success, code }) is Running),
        !(status_of(ProcessPoll::Unknown) is Running),
        status_of(ProcessPoll::Ended { success, code }) is ExitedOk <==> success,
        !success && code is Some ==> status_of(ProcessPoll::Ended { success, code })
            == AppStatus::Exited(code->0),
        !success && code is None ==> status_of(ProcessPoll::Ended { success, code })
            == AppStatus::Exited(-1i32),
        status_of(ProcessPoll::Unknown) == AppStatus::Exited(-1i32),
{
}

/// Steam is asked for the game by its number: the address of a game is the same start for
/// every game, and the game's id in decimal behind it.
pub proof fn law_steam_address_ends_in_the_id(a: u32, b: u32)
    ensures
        ({
            let start = steam_address(a).len() - decimal(a as nat).len();
            &&& start == steam_address(b).len() - decimal(b as nat).len()
            &&& start > 0
            &&& steam_address(a).skip(start) == decimal(a as nat)
            &&& steam_address(a).take(start) == steam_address(b).take(start)
        }),
{
    reveal_strlit("steam://run/");
    let start = "steam://run/"@.len() as int;
    assert(steam_address(a).skip(start) =~= decimal(a as nat));
    assert(steam_address(a).take(start) =~= "steam://run/"@);
    assert(steam_address(b).take(start) =~= "steam://run/"@);
}

/// A launch that failed is told with the game's name in quotes and the cause behind it.
pub proof fn law_failures_name_the_game(before: Seq<char>, name: Seq<char>, cause: Seq<char>)
    ensures
        ({
            let message = launch_error(before, name, cause);
            let quoted = (before.len() + name.len()) as int;
            &&& message.len() == quoted + 3 + cause.len()
            &&& message.take(before.len() as int) == before
            &&& message.subrange(before.len() as int, quoted) == name
            &&& message.subrange(quoted, quoted + 3) == seq!['\'', ':', ' ']
            &&& message.skip(quoted + 3) == cause
        }),
{
    reveal_strlit("': ");
    let message = launch_error(before, name, cause);
    let quoted = (before.len() + name.len()) as int;
    assert(message.take(before.len() as int) =~= before);
    assert(message.subrange(before.len() as int, quoted) =~= name);
    assert(message.subrange(quoted, quoted + 3) =~= seq!['\'', ':', ' ']);
    assert(message.skip(quoted + 3) =~= cause);
}

} // verus!
