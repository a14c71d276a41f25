//! The shell: views, panels that come and go, input, games and notifications.

use clearxr_space::app::game_scanner::{Game, GameSource};
use clearxr_space::app::{LaunchedApp, ProcessPoll};
use clearxr_space::config::Config;
use clearxr_space::geometry::Vec3;
use clearxr_space::input::{Button, ControllerState, InputEvent, PanelTarget, RayHit};
use clearxr_space::launcher_panel::LauncherPanel;
use clearxr_space::panel::{Hand, PanelAnchor, PanelId};
use clearxr_space::scalar::Scalar;
use clearxr_space::shell::dashboard::{
    Dashboard, DashboardAction, DashboardPanel, DashboardTab, FrameResult,
};
use clearxr_space::shell::interaction::{
    cycle_anchor, HapticPulse, Interaction, MouseAction, OpenPanels, Uv, PANEL_ID_DESKTOP,
    PANEL_ID_GRAB_BAR, PANEL_ID_KEYBOARD, PANEL_ID_LAUNCHER, PANEL_ID_SETTINGS, PANEL_ID_TOOLBAR, PANEL_ID_TRAY,
};
use clearxr_space::shell::keyboard::{row_keys, Key, Keyboard};
use clearxr_space::shell::launcher::{
    begins_row, game_name, grid_columns, launch_clicked, launcher_page, sort_games, EmptyNotice,
};
use clearxr_space::shell::notifications::NotificationLevel;
use clearxr_space::shell::placement::{
    carry, cover_content, place_keyboard, place_notification, place_tray, position_toolbar,
};
use clearxr_space::shell::{
    border_color, toolbar_zone, FrameInput, LaunchDecision, SettingsEdit, Shell, ShellFrame,
    ShellPanel, ToolbarAction, TrayAction, ViewMode,
};

fn s(value: f32) -> Scalar {
    Scalar::from_bits(value.to_bits())
}

fn num(value: Scalar) -> f32 {
    f32::from_bits(value.to_bits())
}

fn v3(x: f32, y: f32, z: f32) -> Vec3 {
    Vec3 { x: s(x), y: s(y), z: s(z) }
}

fn game(app_id: u32, name: &str) -> Game {
    Game {
        app_id,
        name: name.to_string(),
        install_dir: format!("/steam/{}", app_id),
        source: GameSource::Steam,
    }
}

fn mock_games() -> Vec<Game> {
    vec![game(440, "Team Fortress 2"), game(570, "Dota 2"), game(730, "Counter-Strike 2")]
}

fn shell() -> Shell {
    Shell::new(Config::default(), false, mock_games())
}

fn last_told(shell: &Shell) -> (NotificationLevel, String, String) {
    let n = shell.notifications.visible().last().unwrap();
    (n.level, n.title.clone(), n.body.clone())
}

/// The state of a right hand this far from the wall on its right.
fn right_hand_from_wall(distance: f32) -> ControllerState {
    let mut state = right_active();
    state.right.aim_pos = v3(1.5 - distance, 0.0, 0.0);
    state
}

fn right_active() -> ControllerState {
    let mut state = ControllerState::default();
    state.right.active = true;
    state
}

// ---- Views ----

#[test]
fn view_mode_equality() {
    assert_eq!(ViewMode::Launcher, ViewMode::Launcher);
    assert_ne!(ViewMode::Launcher, ViewMode::Desktop);
}

#[test]
fn shell_switch_view() {
    let mut shell = shell();
    assert_eq!(shell.active_view, ViewMode::Launcher);

    // Clicking the Desktop zone (0.35 <= u < 0.70)
    let u = 0.50;
    shell.handle_toolbar_click(s(u));
    assert_eq!(shell.active_view, ViewMode::Desktop);

    // Clicking the Launcher zone (u < 0.35)
    let u = 0.20;
    shell.handle_toolbar_click(s(u));
    assert_eq!(shell.active_view, ViewMode::Launcher);
}

#[test]
fn view_mode_toggle() {
    // Switching between Launcher and Desktop
    let mut view = ViewMode::Launcher;
    assert_eq!(view, ViewMode::Launcher);
    view = ViewMode::Desktop;
    assert_eq!(view, ViewMode::Desktop);
    assert_ne!(ViewMode::Launcher, ViewMode::Desktop);
}

#[test]
fn shell_frame_default_ray() {
    let frame = ShellFrame {
        left_ray_hit_dist: s(0.0),
        right_ray_hit_dist: s(0.0),
        haptic_left: None,
        haptic_right: None,
    };
    assert_eq!(num(frame.right_ray_hit_dist), 0.0);
}

#[test]
fn shell_frame_with_hit() {
    let frame = ShellFrame {
        left_ray_hit_dist: s(0.0),
        right_ray_hit_dist: s(2.5),
        haptic_left: None,
        haptic_right: None,
    };
    assert!((num(frame.right_ray_hit_dist) - 2.5).abs() < f32::EPSILON);
}

#[test]
fn the_starting_view_is_configured_or_asked_for() {
    assert_eq!(shell().active_view, ViewMode::Launcher);
    assert_eq!(Shell::new(Config::default(), true, vec![]).active_view, ViewMode::Desktop);
    let mut config = Config::default();
    config.shell.default_view = "desktop".to_string();
    assert_eq!(Shell::new(config, false, vec![]).active_view, ViewMode::Desktop);
}

#[test]
fn toolbar_zones() {
    assert_eq!(toolbar_zone(s(0.0)), ToolbarAction::Launcher);
    assert_eq!(toolbar_zone(s(0.34)), ToolbarAction::Launcher);
    assert_eq!(toolbar_zone(s(0.35)), ToolbarAction::Desktop);
    assert_eq!(toolbar_zone(s(0.70)), ToolbarAction::Settings);
    assert_eq!(toolbar_zone(s(0.80)), ToolbarAction::CycleAnchor);
    assert_eq!(toolbar_zone(s(0.90)), ToolbarAction::Screenshot);
    assert_eq!(toolbar_zone(s(1.0)), ToolbarAction::Screenshot);
}

#[test]
fn the_toolbar_cycles_anchors_and_takes_screenshots() {
    let mut shell = shell();
    assert_eq!(shell.anchor_str(), "world");
    assert!(!shell.handle_toolbar_click(s(0.85)));
    assert_eq!(
        shell.interaction.anchor,
        PanelAnchor::Theater { distance: s(5.0), scale: s(3.0) }
    );
    assert_eq!(shell.anchor_str(), "theater");
    assert!(shell.handle_toolbar_click(s(0.75)));
    shell.handle_toolbar_click(s(0.95));
    assert!(shell.screenshot_requested);
    assert_eq!(
        last_told(&shell),
        (
            NotificationLevel::Success,
            "Screenshot".to_string(),
            "Saved to Pictures/ClearXR".to_string()
        )
    );
    assert_eq!(cycle_anchor(PanelAnchor::Wrist { hand: Hand::Left }), PanelAnchor::World);
}

// ---- Panels that come and go ----

#[test]
fn the_menu_button_toggles_the_tray() {
    let mut shell = shell();
    let mut pressed = ControllerState::default();
    pressed.left.menu_click = true;
    let released = ControllerState::default();
    assert!(shell.handle_menu_button(&pressed));
    shell.show_system_tray(true);
    assert!(shell.tray_visible && shell.tray_panel);
    assert!(!shell.handle_menu_button(&pressed));
    assert!(shell.tray_visible);
    shell.handle_menu_button(&released);
    assert!(!shell.handle_menu_button(&pressed));
    assert!(!shell.tray_visible && shell.tray_panel);
    shell.handle_menu_button(&released);
    assert!(!shell.handle_menu_button(&pressed));
    assert!(shell.tray_visible);
    assert!(shell.close_system_tray());
    assert!(!shell.close_system_tray());
}

#[test]
fn tray_choices_close_the_tray() {
    let mut shell = shell();
    shell.show_system_tray(true);
    assert!(!shell.handle_tray_action(TrayAction::Desktop));
    assert_eq!(shell.active_view, ViewMode::Desktop);
    assert!(!shell.tray_visible);
    assert!(!shell.handle_tray_action(TrayAction::Home));
    assert_eq!(shell.active_view, ViewMode::Launcher);
    assert!(shell.handle_tray_action(TrayAction::Settings));
    assert!(!shell.handle_tray_action(TrayAction::Screenshot));
    assert!(shell.screenshot_requested);
}

#[test]
fn panels_that_could_not_be_made_are_not_shown() {
    let mut shell = shell();
    shell.show_settings(false);
    assert!(!shell.toggle_hides_settings());
    shell.show_settings(true);
    assert!(shell.toggle_hides_settings());
    assert!(shell.hide_settings());
    assert!(!shell.hide_settings());
    shell.show_keyboard(false);
    assert!(!shell.hide_keyboard());
    shell.show_keyboard(true);
    assert!(shell.hide_keyboard());
}

#[test]
fn drawn_and_pointed_panels() {
    let mut shell = shell();
    assert_eq!(
        shell.panels(),
        vec![ShellPanel::Launcher, ShellPanel::Toolbar, ShellPanel::GrabBar, ShellPanel::Fps]
    );
    shell.show_system_tray(true);
    shell.show_settings(true);
    shell.show_keyboard(true);
    shell.config.display.show_fps = false;
    shell.active_view = ViewMode::Desktop;
    assert_eq!(
        shell.panels(),
        vec![
            ShellPanel::Screen,
            ShellPanel::Toolbar,
            ShellPanel::GrabBar,
            ShellPanel::Tray,
            ShellPanel::Settings,
            ShellPanel::Keyboard
        ]
    );
    let ids: Vec<(u64, bool)> = shell.input_panels().iter().map(|(id, any)| (id.0, *any)).collect();
    assert_eq!(ids, vec![(6, false), (7, false), (8, false), (2, false), (3, true), (4, true)]);
}

#[test]
fn notifications_have_a_panel_while_there_are_any() {
    let mut shell = shell();
    assert!(!shell.update_notifications());
    shell.handle_toolbar_click(s(0.95));
    assert!(shell.update_notifications());
    shell.notification_panel_made(true);
    assert!(!shell.update_notifications());
    assert!(shell.panels().contains(&ShellPanel::Notification));
    shell.notifications.clear();
    assert!(!shell.update_notifications());
    assert!(!shell.notification_panel);
    assert_eq!(border_color(NotificationLevel::Info), (0x40, 0x80, 0xD0));
    assert_eq!(border_color(NotificationLevel::Warning), (0xD0, 0xA0, 0x20));
    assert_eq!(border_color(NotificationLevel::Success), (0x20, 0xD0, 0x60));
}

#[test]
fn settings_are_applied_and_saved() {
    let mut shell = shell();
    let edit = SettingsEdit {
        default_view: "desktop".to_string(),
        opacity: s(0.75),
        show_fps: false,
        haptics_enabled: false,
        save: true,
    };
    assert!(shell.apply_settings(edit));
    assert_eq!(shell.config.shell.default_view, "desktop");
    assert_eq!(num(shell.config.panel.opacity), 0.75);
    assert!(!shell.config.display.show_fps);
    assert!(!shell.config.shell.haptics_enabled);
    assert_eq!(
        last_told(&shell),
        (NotificationLevel::Success, "Settings".to_string(), "Saved".to_string())
    );
}

// ---- Input ----

fn target(id: u64, u: f32, v: f32, distance: f32, grabbable: bool) -> PanelTarget {
    PanelTarget {
        id: PanelId::new(id),
        grabbable,
        left: None,
        right: Some(RayHit { u: s(u), v: s(v), distance: s(distance) }),
    }
}

#[test]
fn a_click_waits_for_the_launcher() {
    let mut shell = shell();
    let mut state = right_active();
    state.right.trigger = s(1.0);
    let todo = shell.begin_frame(&state, &vec![target(PANEL_ID_LAUNCHER, 0.25, 0.75, 2.0, false)]);
    assert!(todo.mouse.is_empty());
    let at = Uv { u: s(0.25), v: s(0.75) };
    assert_eq!(shell.interaction.launcher.pointer, Some(at));
    assert_eq!(shell.interaction.launcher.dot, Some(at));
    let frame = shell.end_frame();
    assert_eq!(num(frame.right_ray_hit_dist), 2.0);
    assert_eq!(frame.haptic_right, Some(HapticPulse::click()));
    assert_eq!(frame.haptic_left, None);
    assert!(shell.take_launcher_click());
    assert!(!shell.take_launcher_click());
    assert!(!shell.take_toolbar_click());

    // Pointing elsewhere takes the pointer away.
    shell.begin_frame(&right_active(), &vec![]);
    assert_eq!(shell.interaction.launcher.pointer, None);
    assert_eq!(num(shell.end_frame().right_ray_hit_dist), 0.0);
}

#[test]
fn without_haptics_no_pulse_leaves() {
    let mut shell = shell();
    shell.config.shell.haptics_enabled = false;
    let mut state = right_active();
    state.right.trigger = s(1.0);
    shell.begin_frame(&state, &vec![target(PANEL_ID_LAUNCHER, 0.5, 0.5, 2.0, false)]);
    let frame = shell.end_frame();
    assert_eq!(frame.haptic_right, None);
    assert_eq!(num(frame.right_ray_hit_dist), 2.0);
}

#[test]
fn the_desktop_gets_mouse_input() {
    let mut shell = shell();
    let mut state = right_active();
    state.right.trigger = s(0.5);
    let todo = shell.begin_frame(&state, &vec![target(PANEL_ID_DESKTOP, 0.5, 0.25, 2.0, false)]);
    let at = Uv { u: s(0.5), v: s(0.25) };
    assert_eq!(todo.mouse, vec![MouseAction::Move(at), MouseAction::Click(at)]);
}

#[test]
fn the_grab_bar_moves_the_panel_until_let_go() {
    let mut shell = shell();
    let mut state = right_active();
    state.right.squeeze = s(0.9);
    state.right.grip_pos = v3(1.0, 2.0, 3.0);
    let bar = vec![target(PANEL_ID_GRAB_BAR, 0.5, 0.5, 1.0, true)];
    let todo = shell.begin_frame(&state, &bar);
    assert_eq!(todo.grab_start, Some(v3(1.0, 2.0, 3.0)));
    assert_eq!(todo.grip, Some(v3(1.0, 2.0, 3.0)));
    assert_eq!(todo.redraw_grab_bar, Some(true));
    assert_eq!(shell.interaction.grab_hand, Some(Hand::Right));
    assert_eq!(shell.end_frame().haptic_right, Some(HapticPulse::grab()));

    // Held on, off the bar, with button A: the anchor changes.
    state.right.grip_pos = v3(4.0, 5.0, 6.0);
    state.right.a_click = true;
    let todo = shell.begin_frame(&state, &vec![]);
    assert_eq!(todo.grab_start, None);
    assert_eq!(todo.grip, Some(v3(4.0, 5.0, 6.0)));
    assert_eq!(todo.redraw_grab_bar, None);
    assert!(matches!(shell.interaction.anchor, PanelAnchor::Theater { .. }));

    state.right.squeeze = s(0.3);
    let todo = shell.begin_frame(&state, &vec![]);
    assert_eq!(todo.grip, None);
    assert_eq!(shell.interaction.grab_hand, None);
    assert_eq!(shell.end_frame().haptic_right, Some(HapticPulse::release()));
    let todo = shell.begin_frame(&state, &vec![]);
    assert_eq!(todo.redraw_grab_bar, Some(false));
}

#[test]
fn events_reach_their_own_panels() {
    let mut interaction = Interaction::new();
    interaction.begin();
    let open = OpenPanels { tray: true, settings: false, keyboard: false };
    let at = |id: u64, distance: f32| {
        (
            PanelId::new(id),
            InputEvent::PointerMove { hand: Hand::Left, u: s(0.5), v: s(0.5), distance: s(distance) },
        )
    };
    let mouse = interaction.process_input_events(
        open,
        &vec![
            at(PANEL_ID_TOOLBAR, 3.0),
            at(PANEL_ID_TRAY, 2.0),
            at(PANEL_ID_SETTINGS, 2.5),
            (
                PanelId::new(PANEL_ID_TRAY),
                InputEvent::PointerDown { hand: Hand::Left, u: s(0.5), v: s(0.5) },
            ),
            (
                PanelId::new(PANEL_ID_TRAY),
                InputEvent::ButtonPress { hand: Hand::Left, button: Button::A },
            ),
        ],
    );
    assert!(mouse.is_empty());
    assert_eq!(num(interaction.left_ray), 2.0);
    assert_eq!(num(interaction.right_ray), 0.0);
    assert!(interaction.tray.click_pending);
    assert!(interaction.tray.dot.is_some());
    assert!(interaction.toolbar.pointer.is_some() && interaction.toolbar.dot.is_none());
    assert!(interaction.settings.pointer.is_none());
    assert!(!interaction.launcher.click_pending);
    assert_eq!(interaction.anchor, PanelAnchor::World);
    assert_eq!(interaction.haptic_left, Some(HapticPulse::click()));
}

#[test]
fn haptic_pulses() {
    let values = |p: HapticPulse| (p.duration_ms, num(p.frequency), num(p.amplitude));
    assert_eq!(values(HapticPulse::click()), (20, 200.0, 0.2));
    assert_eq!(values(HapticPulse::grab()), (50, 200.0, 0.6));
    assert_eq!(values(HapticPulse::release()), (30, 150.0, 0.3));
}

#[test]
fn anchored_panels_follow_the_leading_hand() {
    let mut shell = shell();
    let mut state = right_active();
    state.right.grip_pos = v3(1.0, 1.0, 1.0);
    state.right.aim_pos = v3(2.0, 2.0, 2.0);
    state.right.aim_dir = v3(0.0, 0.0, -1.0);
    let start = LauncherPanel::new(64, 64);
    let follow = |shell: &Shell, state: &ControllerState| {
        let mut panel = start;
        shell.update_anchor(state, &mut panel);
        panel
    };
    assert_eq!(follow(&shell, &state), start);
    shell.interaction.anchor = PanelAnchor::Controller { hand: Hand::Right };
    let floating = LauncherPanel { center: v3(1.0, 1.0, 1.0 - 0.4), ..start };
    assert_eq!(follow(&shell, &state), floating);
    shell.interaction.anchor = PanelAnchor::Theater { distance: s(5.0), scale: s(3.0) };
    let theater = follow(&shell, &state);
    assert_eq!(theater.center, v3(2.0, 2.5, -3.0));
    assert_eq!((num(theater.width), num(theater.height)), (1.6 * 3.0, 3.0));
    assert_eq!((num(theater.right_dir.x), num(theater.up_dir.y)), (1.0, 1.0));
    assert_eq!(follow(&shell, &ControllerState::default()), start);
    state.right.aim_dir = v3(0.0, -1.0, 0.0);
    assert_eq!(follow(&shell, &state), start);
}

/// A panel of this size at a place, facing the user.
fn panel_at(center: Vec3, width: f32, height: f32) -> LauncherPanel {
    LauncherPanel { center, width: s(width), height: s(height), ..LauncherPanel::new(8, 8) }
}

#[test]
fn the_toolbar_hangs_below_the_active_panel() {
    let active = panel_at(v3(0.0, 2.0, -3.0), 2.0, 1.0);
    let mut toolbar = panel_at(v3(9.0, 9.0, 9.0), 0.5, 0.25);
    let mut grab_bar = panel_at(v3(7.0, 7.0, 7.0), 0.5, 0.125);
    position_toolbar(&active, &mut toolbar, &mut grab_bar);
    let below = 2.0 - (0.5 + 0.125 + 0.02f32);
    assert_eq!(toolbar.center, v3(0.0, below, -3.0));
    assert_eq!(grab_bar.center, v3(0.0, below - (0.125 + 0.0625 + 0.01f32), -3.0));
    assert_eq!((toolbar.width, toolbar.height), (s(0.5), s(0.25)));
}

#[test]
fn panels_open_beside_the_active_one() {
    let active = panel_at(v3(1.0, 2.0, -3.0), 2.0, 1.0);
    let mut notice = panel_at(v3(0.0, 0.0, 0.0), 0.5, 0.125);
    place_notification(&active, &mut notice);
    assert_eq!(notice.center, v3(1.0 + 0.5, 2.0 + (0.5 + 0.0625 + 0.04f32), -3.0));
    let mut keyboard = panel_at(v3(0.0, 0.0, 0.0), 1.0, 1.0);
    place_keyboard(&active, &mut keyboard);
    assert_eq!(keyboard.center, v3(1.0, 2.0 - (0.5 + 0.22f32), -3.0));
    assert_eq!((num(keyboard.width), num(keyboard.height)), (0.8, 0.42));
    assert_eq!(num(keyboard.opacity), 0.95);
    let mut desktop = panel_at(v3(0.0, 0.0, 0.0), 1.0, 1.0);
    cover_content(&mut desktop, &active);
    assert_eq!(desktop.center, v3(1.0, 2.0 + 1.0 * (64.0 / 1280.0) * 0.5f32, -3.0));
    assert_eq!((num(desktop.width), num(desktop.height)), (2.0, 1.0 - 64.0f32 / 1280.0));
}

#[test]
fn the_tray_opens_at_the_leading_hand() {
    let mut state = right_active();
    state.right.grip_pos = v3(0.5, 1.0, -0.5);
    state.right.aim_dir = v3(0.0, 0.0, -1.0);
    let before = panel_at(v3(0.0, 1.4, -1.5), 0.3, 0.3);
    let mut tray = before;
    place_tray(&state, &mut tray);
    assert_eq!(tray.center, v3(0.5, 1.0 + 0.1f32, -0.5 - 0.3f32));
    let mut left = before;
    place_tray(&ControllerState::default(), &mut left);
    assert_eq!(left, before);
}

#[test]
fn a_held_panel_is_carried_with_its_offset() {
    let input = |grab_start: Option<Vec3>, grip: Option<Vec3>| FrameInput {
        mouse: vec![],
        grab_start,
        grip,
        redraw_grab_bar: None,
    };
    let mut panel = panel_at(v3(1.0, 2.0, -3.0), 1.0, 1.0);
    let start = v3(0.5, 1.0, -1.0);
    let held = carry(None, &input(Some(start), Some(start)), &mut panel);
    assert_eq!(held, Some(v3(0.5, 1.0, -2.0)));
    assert_eq!(panel.center, v3(1.0, 2.0, -3.0));
    let held = carry(held, &input(None, Some(v3(1.5, 1.0, -1.0))), &mut panel);
    assert_eq!(panel.center, v3(2.0, 2.0, -3.0));
    let held = carry(held, &input(None, None), &mut panel);
    assert_eq!((held, panel.center), (None, v3(2.0, 2.0, -3.0)));
    assert_eq!(carry(None, &input(None, Some(start)), &mut panel), None);
    assert_eq!(panel.center, v3(2.0, 2.0, -3.0));
}

// ---- The end of a frame ----

#[test]
fn both_triggers_take_one_screenshot() {
    let mut shell = shell();
    let mut state = right_active();
    state.left.trigger = s(0.9);
    state.right.trigger = s(0.9);
    shell.handle_screenshot_trigger(&state);
    assert!(shell.screenshot_requested);
    assert_eq!(shell.notifications.count(), 1);
    shell.handle_screenshot_trigger(&state);
    assert_eq!(shell.notifications.count(), 1);
    state.left.trigger = s(0.8);
    shell.handle_screenshot_trigger(&state);
    state.left.trigger = s(0.9);
    shell.handle_screenshot_trigger(&state);
    assert_eq!(shell.notifications.count(), 2);
}

#[test]
fn the_boundary_warns_once_per_approach() {
    let mut shell = shell();
    let (near, far) = (right_hand_from_wall(0.1), right_hand_from_wall(1.0));
    let mut gone = near;
    gone.right.active = false;
    shell.check_boundary(&gone);
    assert_eq!(shell.notifications.count(), 0);
    shell.check_boundary(&near);
    assert_eq!(
        last_told(&shell),
        (
            NotificationLevel::Warning,
            "Boundary".to_string(),
            "Near play space edge".to_string()
        )
    );
    shell.check_boundary(&near);
    assert_eq!(shell.notifications.count(), 1);
    shell.check_boundary(&far);
    shell.check_boundary(&near);
    assert_eq!(shell.notifications.count(), 2);
    shell.config.display.show_boundary = false;
    shell.boundary_warning_shown = false;
    shell.check_boundary(&near);
    assert_eq!(shell.notifications.count(), 2);
}

#[test]
fn a_game_is_launched_watched_and_forgotten() {
    let mut shell = shell();
    match shell.launch_game(570, ProcessPoll::Unknown) {
        LaunchDecision::Launch { name } => assert_eq!(name, "Dota 2"),
        LaunchDecision::AlreadyRunning => panic!("nothing runs yet"),
    }
    let app = LaunchedApp { name: "Dota 2".to_string(), app_id: Some(570), is_xr: false };
    shell.launch_finished("Dota 2", Some(app));
    assert_eq!(
        last_told(&shell),
        (NotificationLevel::Info, "Launching".to_string(), "Dota 2...".to_string())
    );
    assert!(matches!(
        shell.launch_game(440, ProcessPoll::StillRunning),
        LaunchDecision::AlreadyRunning
    ));
    assert_eq!(
        last_told(&shell),
        (NotificationLevel::Info, "Already running".to_string(), "Dota 2".to_string())
    );
    shell.monitor_launched_app(ProcessPoll::StillRunning);
    assert!(shell.launched_app.is_some());
    shell.monitor_launched_app(ProcessPoll::Ended { success: true, code: Some(0) });
    assert!(shell.launched_app.is_none());
    assert_eq!(
        last_told(&shell),
        (NotificationLevel::Info, "Game ended".to_string(), "Dota 2".to_string())
    );
    let count = shell.notifications.count();
    shell.monitor_launched_app(ProcessPoll::Unknown);
    assert_eq!(shell.notifications.count(), count);
    shell.launch_finished("Portal", None);
    assert_eq!(
        last_told(&shell),
        (NotificationLevel::Warning, "Failed to launch".to_string(), "Portal".to_string())
    );
}

#[test]
fn the_end_of_a_frame_looks_at_everything() {
    let mut shell = shell();
    let app = LaunchedApp { name: "Dota 2".to_string(), app_id: Some(570), is_xr: false };
    shell.launched_app = Some(app);
    let mut state = right_hand_from_wall(0.1);
    state.left.trigger = s(1.0);
    state.right.trigger = s(1.0);
    let frame = shell.finish_frame(&state, ProcessPoll::Unknown);
    assert_eq!(frame, shell.end_frame());
    let titles: Vec<String> =
        shell.notifications.visible().iter().map(|n| n.title.clone()).collect();
    assert_eq!(titles, vec!["Screenshot", "Boundary", "Game ended"]);
    assert!(shell.screenshot_requested && shell.boundary_warning_shown);
    assert!(shell.launched_app.is_none());
}

#[test]
fn frames_are_counted_twice_a_second() {
    let mut shell = shell();
    assert_eq!(shell.count_frame(s(0.1)), None);
    assert_eq!(shell.count_frame(s(0.49)), None);
    assert_eq!(shell.count_frame(s(0.5)), Some(s(6.0)));
    assert_eq!(shell.count_frame(s(0.6)), Some(s(1.0 / 0.6)));
}

// ---- The launcher ----

#[test]
fn games_are_sorted_by_name_whatever_the_case() {
    let sorted = sort_games(vec![
        game(1, "portal"),
        game(2, "Zelda"),
        game(3, "APEX"),
        game(4, "Portal"),
        game(5, "apex"),
    ]);
    let ids: Vec<u32> = sorted.iter().map(|g| g.app_id).collect();
    assert_eq!(ids, vec![3, 5, 1, 4, 2]);
    let names: Vec<String> = shell().games.iter().map(|g| g.name.clone()).collect();
    assert_eq!(names, vec!["Counter-Strike 2", "Dota 2", "Team Fortress 2"]);
}

#[test]
fn the_search_ignores_case() {
    let games = mock_games();
    let page = launcher_page(&games, "");
    assert_eq!(page.count_label, "3 games");
    assert_eq!(page.cards.len(), 3);
    assert_eq!(page.notice, EmptyNotice::Filled);
    let page = launcher_page(&games, "DOTA");
    assert_eq!(page.cards.len(), 1);
    assert_eq!(page.cards[0].app_id, 570);
    assert_eq!(page.cards[0].title, "Dota 2");
    assert_eq!(page.cards[0].initials, "D2");
    let page = launcher_page(&games, "halo");
    assert_eq!(page.notice, EmptyNotice::NoMatches);
    let page = launcher_page(&vec![], "halo");
    assert_eq!(page.notice, EmptyNotice::NoGames);
    assert_eq!(page.count_label, "0 games");
}

#[test]
fn cards_show_initials_and_a_hue() {
    let hash = |name: &str| {
        name.bytes().fold(0u32, |h, b| h.wrapping_mul(31).wrapping_add(b as u32)) % 360
    };
    let games = vec![game(1, "  half  life "), game(2, "x")];
    let page = launcher_page(&games, "");
    assert_eq!(page.cards[0].initials, "hl");
    assert_eq!(page.cards[1].initials, "x");
    assert_eq!(page.cards[0].hue, hash("  half  life "));
    assert_eq!(page.cards[1].hue, hash("x"));
}

#[test]
fn the_grid_breaks_rows() {
    assert_eq!(grid_columns(0), 1);
    assert_eq!(grid_columns(4), 4);
    assert!(!begins_row(0, 3));
    assert!(!begins_row(2, 3));
    assert!(begins_row(3, 3));
    let page = launcher_page(&mock_games(), "");
    assert_eq!(launch_clicked(&page.cards, &vec![false, false, false]), None);
    assert_eq!(launch_clicked(&page.cards, &vec![true, false, true]), Some(730));
    assert_eq!(game_name(&mock_games(), 440), "Team Fortress 2");
}

// ---- The keyboard ----

#[test]
fn typing_on_the_keyboard() {
    let mut keyboard = Keyboard::new();
    keyboard.show(true);
    keyboard.press(Key::Shift);
    assert!(keyboard.shift);
    keyboard.press(Key::Char('H'));
    assert!(!keyboard.shift);
    keyboard.press(Key::Char('i'));
    keyboard.press(Key::Space);
    assert_eq!(keyboard.text, "Hi ");
    keyboard.press(Key::Backspace);
    keyboard.press(Key::Backspace);
    assert_eq!(keyboard.text, "H");
    keyboard.press(Key::Enter);
    assert_eq!(keyboard.text, "H");
    keyboard.press(Key::Backspace);
    keyboard.press(Key::Backspace);
    assert_eq!(keyboard.text, "");
    keyboard.press(Key::Dismiss);
    assert!(!keyboard.visible && keyboard.panel);
    keyboard.put_away();
    assert!(!keyboard.panel);
}

#[test]
fn the_shell_types_on_its_keyboard() {
    let mut shell = shell();
    assert_eq!(shell.take_keyboard_click(), None);
    shell.show_keyboard(true);
    assert_eq!(shell.take_keyboard_click(), Some(false));
    shell.press_key(Key::Char('q'));
    assert_eq!(shell.keyboard.text, "q");
    shell.press_key(Key::Dismiss);
    assert_eq!(shell.take_keyboard_click(), None);
    assert_eq!(shell.take_tray_click(), None);
    assert_eq!(shell.take_settings_click(), None);
}

#[test]
fn keyboard_rows() {
    let row = |shift: bool, row: usize| row_keys(shift, row).into_iter().collect::<String>();
    assert_eq!(row(false, 0), "1234567890");
    assert_eq!(row(false, 1), "qwertyuiop");
    assert_eq!(row(true, 0), "!@#$%^&*()");
    assert_eq!(row(true, 2), "ASDFGHJKL");
    assert_eq!(row(false, 3), "zxcvbnm");
}

// ---- The dashboard ----

#[test]
fn the_dashboard_frames() {
    let mut config = Config::default();
    config.shell.default_view = "desktop".to_string();
    let mut dashboard = Dashboard::new(config, mock_games());
    assert_eq!(dashboard.active_tab, DashboardTab::Desktop);
    assert_eq!(dashboard.panels(), vec![DashboardPanel::Screen, DashboardPanel::Main]);
    dashboard.pointer_move(s(0.5), s(0.5));
    dashboard.click();
    let start = dashboard.begin_render(s(0.7));
    assert!(start.capture && start.click);
    assert_eq!(start.rate, Some(s(1.0 / 0.7)));
    let actions = dashboard.finish_render(FrameResult {
        search: "dota".to_string(),
        new_tab: DashboardTab::Settings,
        edit: Some(SettingsEdit {
            default_view: "launcher".to_string(),
            opacity: s(0.5),
            show_fps: true,
            haptics_enabled: true,
            save: true,
        }),
        launch: Some(570),
    });
    assert_eq!(actions, vec![DashboardAction::SaveConfig, DashboardAction::LaunchGame(570)]);
    assert_eq!(dashboard.search, "dota");
    assert_eq!(dashboard.panels(), vec![DashboardPanel::Main]);
    assert_eq!(num(dashboard.config.panel.opacity), 0.5);
    assert_eq!(dashboard.notifications.visible()[0].body, "Saved");
    dashboard.pointer_leave();
    assert_eq!(dashboard.pointer, None);
    assert!(!dashboard.begin_render(s(0.1)).click);
    dashboard.visible = false;
    assert!(dashboard.panels().is_empty());
}

#[test]
fn a_ray_ends_at_the_nearest_panel() {
    let closed = OpenPanels { tray: false, settings: false, keyboard: false };
    let hit = |id: u64, hand: Hand, distance: f32| {
        (
            PanelId(id),
            InputEvent::PointerMove { hand, u: s(0.5), v: s(0.5), distance: s(distance) },
        )
    };
    let mut interaction = Interaction::new();
    interaction.begin();
    let events = vec![
        hit(PANEL_ID_LAUNCHER, Hand::Right, 2.5),
        hit(PANEL_ID_TOOLBAR, Hand::Right, 1.5),
        hit(PANEL_ID_GRAB_BAR, Hand::Right, 2.0),
    ];
    interaction.process_input_events(closed, &events);
    assert_eq!(num(interaction.right_ray), 1.5);
    assert_eq!(num(interaction.left_ray), 0.0);
    assert!(interaction.bar_hit);
}

#[test]
fn a_dismissed_keyboard_comes_back() {
    let mut shell = shell();
    shell.show_keyboard(true);
    shell.press_key(Key::Char('q'));
    shell.press_key(Key::Shift);
    shell.press_key(Key::Dismiss);
    assert!(!shell.keyboard.visible);
    shell.show_keyboard(false);
    assert!(shell.keyboard.visible && shell.keyboard.panel);
    assert_eq!(shell.keyboard.text, "q");
    assert!(shell.keyboard.shift);
    assert!(shell.panels().contains(&ShellPanel::Keyboard));
    // Put away for good, it starts afresh.
    shell.hide_keyboard();
    shell.show_keyboard(false);
    assert!(!shell.keyboard.visible);
    shell.show_keyboard(true);
    assert_eq!(shell.keyboard.text, "");
    assert!(!shell.keyboard.shift);
}

#[test]
fn content_panels_take_on_the_configured_opacity() {
    let mut config = Config::default();
    config.panel.opacity = s(0.75);
    let mut shell = Shell::new(config, false, mock_games());
    assert_eq!(num(shell.launcher_opacity), 0.75);
    assert_eq!(num(shell.screen_opacity), 0.75);
    let save = shell.apply_settings(SettingsEdit {
        default_view: "launcher".to_string(),
        opacity: s(0.5),
        show_fps: true,
        haptics_enabled: true,
        save: false,
    });
    assert!(!save);
    assert_eq!(num(shell.launcher_opacity), 0.5);
    assert_eq!(num(shell.screen_opacity), 0.5);
    assert_eq!(num(shell.config.panel.opacity), 0.5);
}

#[test]
fn dots_last_for_one_frame() {
    let open = OpenPanels { tray: true, settings: true, keyboard: true };
    let at = |id: u64| {
        (
            PanelId(id),
            InputEvent::PointerMove { hand: Hand::Left, u: s(0.5), v: s(0.5), distance: s(1.0) },
        )
    };
    let mut interaction = Interaction::new();
    interaction.begin();
    let events = vec![at(PANEL_ID_SETTINGS), at(PANEL_ID_KEYBOARD), at(PANEL_ID_TRAY)];
    interaction.process_input_events(open, &events);
    assert!(interaction.settings.dot.is_some());
    assert!(interaction.keyboard.dot.is_some());
    assert!(interaction.tray.dot.is_some());
    interaction.begin();
    assert!(interaction.settings.dot.is_none());
    assert!(interaction.keyboard.dot.is_none());
    assert!(interaction.tray.dot.is_none());
}

#[test]
fn a_reopened_panel_shows_no_dot() {
    let mut shell = shell();
    let dot = Some(Uv { u: s(0.5), v: s(0.5) });
    shell.show_settings(true);
    shell.show_keyboard(true);
    shell.show_system_tray(true);
    shell.interaction.settings.dot = dot;
    shell.interaction.keyboard.dot = dot;
    shell.interaction.tray.dot = dot;
    shell.hide_settings();
    shell.hide_keyboard();
    shell.close_system_tray();
    assert_eq!(shell.interaction.settings.dot, None);
    assert_eq!(shell.interaction.keyboard.dot, None);
    assert_eq!(shell.interaction.tray.dot, None);
    shell.interaction.settings.dot = dot;
    shell.interaction.keyboard.dot = dot;
    shell.interaction.tray.dot = dot;
    shell.show_settings(true);
    shell.show_keyboard(true);
    shell.show_system_tray(true);
    assert_eq!(shell.interaction.settings.dot, None);
    assert_eq!(shell.interaction.keyboard.dot, None);
    assert_eq!(shell.interaction.tray.dot, None);
}

#[test]
fn every_whitespace_parts_words() {
    let initials = |name: &str| launcher_page(&vec![game(1, name)], "").cards[0].initials.clone();
    assert_eq!(initials("a\tb"), "ab");
    assert_eq!(initials("a\u{85}b"), "ab");
    assert_eq!(initials("a\u{a0}b"), "ab");
    assert_eq!(initials("a\u{1680}b"), "ab");
    assert_eq!(initials("a\u{200a}b"), "ab");
    assert_eq!(initials("a\u{2029}b"), "ab");
    assert_eq!(initials("a\u{202f}b"), "ab");
    assert_eq!(initials("a\u{3000}b"), "ab");
    assert_eq!(initials("a\u{200b}b"), "a");
    assert_eq!(initials("a\u{1c}b"), "a");
}

#[test]
fn showing_the_tray_brings_a_hidden_one_back() {
    let mut shell = shell();
    shell.tray_panel = true;
    shell.tray_visible = false;
    let games = shell.games.len();
    let dot = shell.interaction.tray.dot;
    for created in [false, true] {
        shell.tray_visible = false;
        shell.show_system_tray(created);
        assert!(shell.tray_visible && shell.tray_panel);
        assert_eq!(shell.interaction.tray.dot, dot);
    }
    shell.tray_panel = false;
    shell.tray_visible = false;
    shell.show_system_tray(false);
    assert!(!shell.tray_visible && !shell.tray_panel);
    assert_eq!(shell.games.len(), games);
}
