//! Shell orchestrator for the ClearXR VR environment.
//!
//! The shell owns the state of every panel: what is shown, what was clicked,
//! what was grabbed, and what the user is told. The application draws the
//! panels and reports what their interfaces returned.

pub mod boundary;
pub mod dashboard;
pub mod interaction;
pub mod keyboard;
pub mod launcher;
pub mod notifications;
pub mod placement;

use crate::app::game_scanner::{game_views, Game};
use crate::app::{status_of, AppStatus, LaunchedApp, ProcessPoll};
use crate::config::{Config, DisplayConfig, PanelConfig};
use crate::geometry::Vec3;
use crate::input::dispatcher::InputDispatcher;
use crate::input::{ControllerState, Hand, HandTracking, InputEvent, PanelTarget};
use crate::launcher_panel::LauncherPanel;
use crate::panel::{PanelAnchor, PanelId, Placement};
use crate::scalar::Scalar;
use crate::text::{joined, same_text};
use boundary::Boundary;
use interaction::{
    next_anchor, HapticPulse, Interaction, MouseAction, OpenPanels, Surface, PANEL_ID_DESKTOP,
    PANEL_ID_GRAB_BAR, PANEL_ID_KEYBOARD, PANEL_ID_LAUNCHER, PANEL_ID_SETTINGS, PANEL_ID_TOOLBAR,
    PANEL_ID_TRAY,
};
use keyboard::{Key, Keyboard, KeyboardView};
use launcher::{by_name, game_name, name_of, sort_games};
use notifications::{newest, Notification, NotificationLevel, NotificationQueue};
use placement::{floating, placed_at, FLOAT_AHEAD};
use vstd::prelude::*;

verus! {

/// 0.8, the trigger value above which both triggers take a screenshot.
pub const SCREENSHOT_TRIGGER: u32 = 0x3f4c_cccd;

/// 0.35, where the toolbar's launcher zone ends.
pub const LAUNCHER_ZONE_END: u32 = 0x3eb3_3333;

/// 0.70, where the toolbar's desktop zone ends.
pub const DESKTOP_ZONE_END: u32 = 0x3f33_3333;

/// 0.80, where the toolbar's settings zone ends.
pub const SETTINGS_ZONE_END: u32 = 0x3f4c_cccd;

/// 0.90, where the toolbar's anchor zone ends.
pub const ANCHOR_ZONE_END: u32 = 0x3f66_6666;

/// 0.5, the seconds over which frames are counted.
pub const FPS_INTERVAL: u32 = 0x3f00_0000;

/// How many notifications are shown at once.
pub const MAX_NOTIFICATIONS: usize = 3;

/// Which content the main panel is showing.
#[derive(Clone, Copy, Debug, PartialEq, Eq, Structural)]
pub enum ViewMode {
    /// Game launcher UI
    Launcher,
    /// Desktop screen capture
    Desktop,
}

/// What a click on the toolbar asks for.
#[derive(Clone, Copy, Debug, PartialEq, Eq, Structural)]
pub enum ToolbarAction {
    Launcher,
    Desktop,
    Settings,
    CycleAnchor,
    Screenshot,
}

/// What a click in the system tray asks for.
#[derive(Clone, Copy, Debug, PartialEq, Eq, Structural)]
pub enum TrayAction {
    Home,
    Desktop,
    Settings,
    Screenshot,
}

/// A panel of the shell, for drawing.
#[derive(Clone, Copy, Debug, PartialEq, Eq, Structural)]
pub enum ShellPanel {
    Launcher,
    Screen,
    Toolbar,
    GrabBar,
    Fps,
    Tray,
    Settings,
    Keyboard,
    Notification,
}

/// Per-frame output of the shell.
#[derive(Clone, Copy, Debug, PartialEq, Eq, Structural)]
pub struct ShellFrame {
    /// Distance from left controller to nearest panel hit (0 = no hit).
    pub left_ray_hit_dist: Scalar,
    /// Distance from right controller to nearest panel hit (0 = no hit).
    pub right_ray_hit_dist: Scalar,
    /// Haptic pulse request for the left hand (if any).
    pub haptic_left: Option<HapticPulse>,
    /// Haptic pulse request for the right hand (if any).
    pub haptic_right: Option<HapticPulse>,
}

/// What is left to do outside after a frame's input.
#[derive(Clone, Debug)]
pub struct FrameInput {
    /// Mouse input for the captured desktop, in order.
    pub mouse: Vec<MouseAction>,
    /// Where the grip was when a grab started this frame.
    pub grab_start: Option<Vec3>,
    /// Where the grip is while the active panel is held.
    pub grip: Option<Vec3>,
    /// How the grab bar is to be drawn anew, if it is.
    pub redraw_grab_bar: Option<bool>,
}

/// What the settings panel shows and edits.
#[derive(Clone, Debug)]
pub struct SettingsEdit {
    pub default_view: String,
    pub opacity: Scalar,
    pub show_fps: bool,
    pub haptics_enabled: bool,
    /// Whether the save button was clicked.
    pub save: bool,
}

/// What asking for a game leads to.
#[derive(Clone, Debug)]
pub enum LaunchDecision {
    /// Another game is still running.
    AlreadyRunning,
    /// Launch the game under this name.
    Launch { name: String },
}

/// The view to start with: the desktop if capture was asked for or configured,
/// else the launcher.
pub open spec fn starting_view(use_screen_capture: bool, default_view: Seq<char>) -> ViewMode {
    if use_screen_capture || default_view == "desktop"@ {
        ViewMode::Desktop
    } else {
        ViewMode::Launcher
    }
}

/// The toolbar zone at a horizontal position.
pub open spec fn zone_at(u: Scalar) -> ToolbarAction {
    if u.below(Scalar { bits: LAUNCHER_ZONE_END }) {
        ToolbarAction::Launcher
    } else if u.below(Scalar { bits: DESKTOP_ZONE_END }) {
        ToolbarAction::Desktop
    } else if u.below(Scalar { bits: SETTINGS_ZONE_END }) {
        ToolbarAction::Settings
    } else if u.below(Scalar { bits: ANCHOR_ZONE_END }) {
        ToolbarAction::CycleAnchor
    } else {
        ToolbarAction::Screenshot
    }
}

/// The toolbar zone at a horizontal position.
pub fn toolbar_zone(u: Scalar) -> (action: ToolbarAction)
    ensures
        action == zone_at(u),
{
    if u.less(Scalar { bits: LAUNCHER_ZONE_END }) {
        ToolbarAction::Launcher
    } else if u.less(Scalar { bits: DESKTOP_ZONE_END }) {
        ToolbarAction::Desktop
    } else if u.less(Scalar { bits: SETTINGS_ZONE_END }) {
        ToolbarAction::Settings
    } else if u.less(Scalar { bits: ANCHOR_ZONE_END }) {
        ToolbarAction::CycleAnchor
    } else {
        ToolbarAction::Screenshot
    }
}

/// Whether `after` is `before` with a notification that says this.
pub open spec fn told(
    before: NotificationQueue,
    after: NotificationQueue,
    level: NotificationLevel,
    title: Seq<char>,
    body: Seq<char>,
) -> bool {
    &&& after.limit() == before.limit()
    &&& after.wf()
    &&& exists|notification: Notification|
        #[trigger] notification.says(level, title, body) && after.entries() == newest(
            before.entries().push(notification),
            before.limit(),
        )
}

/// Whether `after` is `before` with the notification of a screenshot.
pub open spec fn told_screenshot(before: NotificationQueue, after: NotificationQueue) -> bool {
    told(
        before,
        after,
        NotificationLevel::Success,
        "Screenshot"@,
        "Saved to Pictures/ClearXR"@,
    )
}

/// The color of a notification's border, as red, green and blue.
pub open spec fn border_of(level: NotificationLevel) -> (u8, u8, u8) {
    match level {
        NotificationLevel::Info => (0x40, 0x80, 0xD0),
        NotificationLevel::Warning => (0xD0, 0xA0, 0x20),
        NotificationLevel::Success => (0x20, 0xD0, 0x60),
    }
}

/// The color of a notification's border.
pub fn border_color(level: NotificationLevel) -> (color: (u8, u8, u8))
    ensures
        color == border_of(level),
{
    match level {
        NotificationLevel::Info => (0x40, 0x80, 0xD0),
        NotificationLevel::Warning => (0xD0, 0xA0, 0x20),
        NotificationLevel::Success => (0x20, 0xD0, 0x60),
    }
}

/// Whether both triggers are pulled far enough for a screenshot.
pub open spec fn both_triggers(controller: ControllerState) -> bool {
    let limit = Scalar { bits: SCREENSHOT_TRIGGER };
    limit.below(controller.left.trigger) && limit.below(controller.right.trigger)
}

/// Whether the user is warned of the boundary: it is watched, a wall is near, and
/// no warning was shown since they last were away from the walls.
pub open spec fn warns(watched: bool, near: bool, shown: bool) -> bool {
    watched && near && !shown
}

/// Whether the warning counts as shown afterwards.
pub open spec fn warning_shown_after(watched: bool, near: bool, shown: bool) -> bool {
    if watched {
        near
    } else {
        shown
    }
}

/// Whether `after` is the configuration `before` with what was edited in the
/// settings panel.
pub open spec fn edited(before: Config, after: Config, edit: SettingsEdit) -> bool {
    &&& after.shell.default_view == edit.default_view
    &&& after.shell.haptics_enabled == edit.haptics_enabled
    &&& after.panel == PanelConfig { opacity: edit.opacity, ..before.panel }
    &&& after.display == DisplayConfig { show_fps: edit.show_fps, ..before.display }
    &&& after.audio == before.audio
}

/// Whether `after` is the shell `before` after a look at the triggers: pulling both
/// asks for a screenshot, once per pull.
pub open spec fn screenshot_step(
    before: Shell,
    after: Shell,
    controller: ControllerState,
) -> bool {
    let both = both_triggers(controller);
    if both && !before.prev_both_triggers {
        &&& told_screenshot(before.notifications, after.notifications)
        &&& after == Shell {
            screenshot_requested: true,
            prev_both_triggers: both,
            notifications: after.notifications,
            ..before
        }
    } else {
        after == Shell { prev_both_triggers: both, ..before }
    }
}

/// Whether `after` is the shell `before` after a look at the boundary: coming near a
/// wall warns, once per approach.
pub open spec fn boundary_step(
    before: Shell,
    after: Shell,
    controller: ControllerState,
) -> bool {
    let watched = before.config.display.show_boundary && controller.leading().active;
    let near = before.boundary.visibility_at(controller.leading().aim_pos).any_near();
    let shown = before.boundary_warning_shown;
    let shown_after = warning_shown_after(watched, near, shown);
    if warns(watched, near, shown) {
        &&& told(
            before.notifications,
            after.notifications,
            NotificationLevel::Warning,
            "Boundary"@,
            "Near play space edge"@,
        )
        &&& after == Shell {
            boundary_warning_shown: shown_after,
            notifications: after.notifications,
            ..before
        }
    } else {
        after == Shell { boundary_warning_shown: shown_after, ..before }
    }
}

/// Whether `after` is the shell `before` after a look at the launched game: when it has
/// ended the user is told, and it is forgotten.
pub open spec fn monitor_step(before: Shell, after: Shell, poll: ProcessPoll) -> bool {
    match before.launched_app {
        Some(app) => if status_of(poll) is Running {
            after == before
        } else {
            &&& told(
                before.notifications,
                after.notifications,
                NotificationLevel::Info,
                "Game ended"@,
                app.name@,
            )
            &&& after == Shell {
                launched_app: None,
                notifications: after.notifications,
                ..before
            }
        },
        None => after == before,
    }
}

fn edit_config(config: &mut Config, edit: SettingsEdit)
    ensures
        edited(*old(config), *final(config), edit),
{
    config.shell.default_view = edit.default_view;
    config.panel.opacity = edit.opacity;
    config.display.show_fps = edit.show_fps;
    config.shell.haptics_enabled = edit.haptics_enabled;
}

/// Top-level VR shell state.
pub struct Shell {
    pub config: Config,
    pub active_view: ViewMode,
    /// What is searched for in the launcher.
    pub launcher_search: String,
    pub input: InputDispatcher,
    pub interaction: Interaction,
    pub grab_bar_highlighted: bool,
    /// Whether the tray's panel exists.
    pub tray_panel: bool,
    pub tray_visible: bool,
    /// Whether a menu button was pressed, for edge detection.
    pub prev_menu_click: bool,
    /// Whether the settings panel exists.
    pub settings_panel: bool,
    pub settings_visible: bool,
    pub notifications: NotificationQueue,
    /// Whether the notification panel exists.
    pub notification_panel: bool,
    pub keyboard: Keyboard,
    pub boundary: Boundary,
    pub boundary_warning_shown: bool,
    pub screenshot_requested: bool,
    /// Whether both triggers were pulled, for edge detection.
    pub prev_both_triggers: bool,
    pub launched_app: Option<LaunchedApp>,
    /// Installed games, by name.
    pub games: Vec<Game>,
    /// Frames since the frame rate was last worked out.
    pub fps_frame_count: u32,
    /// The opacity of the launcher's panel.
    pub launcher_opacity: Scalar,
    /// The opacity of the desktop's panel.
    pub screen_opacity: Scalar,
}

impl Shell {
    /// No more notifications wait than can be shown, and hands grab panels only
    /// while they grip.
    pub open spec fn wf(self) -> bool {
        self.notifications.wf() && self.input.wf()
    }

    /// Which of the panels that come and go exist.
    pub open spec fn open_panels(self) -> OpenPanels {
        OpenPanels {
            tray: self.tray_panel,
            settings: self.settings_panel,
            keyboard: self.keyboard.panel,
        }
    }

    /// Create the shell's state, with the installed games in any order.
    pub fn new(config: Config, use_screen_capture: bool, games: Vec<Game>) -> (shell: Self)
        ensures
            shell.wf(),
            shell.config == config,
            shell.active_view == starting_view(use_screen_capture, config.shell.default_view@),
            shell.launcher_search@.len() == 0,
            shell.input.left == HandTracking::idle_spec(),
            shell.input.right == HandTracking::idle_spec(),
            shell.interaction == Interaction::initial(),
            !shell.grab_bar_highlighted,
            !shell.tray_panel && !shell.tray_visible && !shell.prev_menu_click,
            !shell.settings_panel && !shell.settings_visible,
            shell.notifications.entries().len() == 0,
            shell.notifications.limit() == MAX_NOTIFICATIONS,
            shell.notifications.limit() == 3,
            !shell.notification_panel,
            shell.keyboard@ == KeyboardView::absent(),
            shell.boundary == Boundary::initial(),
            !shell.boundary_warning_shown,
            !shell.screenshot_requested && !shell.prev_both_triggers,
            shell.launched_app is None,
            game_views(shell.games@) == by_name(game_views(games@)),
            shell.fps_frame_count == 0,
            shell.launcher_opacity == config.panel.opacity,
            shell.screen_opacity == config.panel.opacity,
    {
        let active_view = if use_screen_capture {
            ViewMode::Desktop
        } else if same_text(config.shell.default_view.as_str(), "desktop") {
            ViewMode::Desktop
        } else {
            ViewMode::Launcher
        };
        let opacity = config.panel.opacity;
        Shell {
            config,
            active_view,
            launcher_search: String::new(),
            input: InputDispatcher::new(),
            interaction: Interaction::new(),
            grab_bar_highlighted: false,
            tray_panel: false,
            tray_visible: false,
            prev_menu_click: false,
            settings_panel: false,
            settings_visible: false,
            notifications: NotificationQueue::new(MAX_NOTIFICATIONS),
            notification_panel: false,
            keyboard: Keyboard::new(),
            boundary: Boundary::default(),
            boundary_warning_shown: false,
            screenshot_requested: false,
            prev_both_triggers: false,
            launched_app: None,
            games: sort_games(games),
            fps_frame_count: 0,
            launcher_opacity: opacity,
            screen_opacity: opacity,
        }
    }

    // ------------------------------------------------------------------
    // Panels
    // ------------------------------------------------------------------

    /// The panels offered to the pointer rays, front to back: those that came up
    /// last, then the active panel, then its handles. Each comes with whether it
    /// can be grabbed anywhere.
    pub open spec fn pointer_panels(self) -> Seq<(PanelId, bool)> {
        let tray = if self.tray_visible && self.tray_panel {
            seq![(PanelId(PANEL_ID_TRAY), false)]
        } else {
            Seq::empty()
        };
        let settings = if self.settings_visible && self.settings_panel {
            seq![(PanelId(PANEL_ID_SETTINGS), false)]
        } else {
            Seq::empty()
        };
        let keyboard = if self.keyboard@.shown() {
            seq![(PanelId(PANEL_ID_KEYBOARD), false)]
        } else {
            Seq::empty()
        };
        let active = match self.active_view {
            ViewMode::Launcher => PANEL_ID_LAUNCHER,
            ViewMode::Desktop => PANEL_ID_DESKTOP,
        };
        tray + settings + keyboard + seq![
            (PanelId(active), false),
            (PanelId(PANEL_ID_TOOLBAR), true),
            (PanelId(PANEL_ID_GRAB_BAR), true),
        ]
    }

    /// The panels to offer to the pointer rays.
    pub fn input_panels(&self) -> (panels: Vec<(PanelId, bool)>)
        ensures
            panels@ == self.pointer_panels(),
    {
        let mut panels: Vec<(PanelId, bool)> = Vec::new();
        if self.tray_visible && self.tray_panel {
            panels.push((PanelId(PANEL_ID_TRAY), false));
        }
        if self.settings_visible && self.settings_panel {
            panels.push((PanelId(PANEL_ID_SETTINGS), false));
        }
        if self.keyboard.visible && self.keyboard.panel {
            panels.push((PanelId(PANEL_ID_KEYBOARD), false));
        }
        match self.active_view {
            ViewMode::Launcher => {
                panels.push((PanelId(PANEL_ID_LAUNCHER), false));
            },
            ViewMode::Desktop => {
                panels.push((PanelId(PANEL_ID_DESKTOP), false));
            },
        }
        panels.push((PanelId(PANEL_ID_TOOLBAR), true));  // toolbar doubles as grab handle
        panels.push((PanelId(PANEL_ID_GRAB_BAR), true));  // entire surface is a grab handle
        assert(panels@ =~= self.pointer_panels());
        panels
    }

    /// The panels to draw, in order: the active panel and its handles, the frame
    /// counter if configured, then whatever is open.
    pub open spec fn drawn_panels(self) -> Seq<ShellPanel> {
        let active = match self.active_view {
            ViewMode::Launcher => ShellPanel::Launcher,
            ViewMode::Desktop => ShellPanel::Screen,
        };
        let fps = if self.config.display.show_fps {
            seq![ShellPanel::Fps]
        } else {
            Seq::empty()
        };
        let tray = if self.tray_visible && self.tray_panel {
            seq![ShellPanel::Tray]
        } else {
            Seq::empty()
        };
        let settings = if self.settings_visible && self.settings_panel {
            seq![ShellPanel::Settings]
        } else {
            Seq::empty()
        };
        let keyboard = if self.keyboard@.shown() {
            seq![ShellPanel::Keyboard]
        } else {
            Seq::empty()
        };
        let notification = if self.notification_panel {
            seq![ShellPanel::Notification]
        } else {
            Seq::empty()
        };
        seq![active, ShellPanel::Toolbar, ShellPanel::GrabBar] + fps + tray + settings + keyboard
            + notification
    }

    /// The panels that should be rendered this frame, in order.
    pub fn panels(&self) -> (panels: Vec<ShellPanel>)
        ensures
            panels@ == self.drawn_panels(),
    {
        let mut panels: Vec<ShellPanel> = Vec::new();
        match self.active_view {
            ViewMode::Launcher => {
                panels.push(ShellPanel::Launcher);
            },
            ViewMode::Desktop => {
                panels.push(ShellPanel::Screen);
            },
        }
        panels.push(ShellPanel::Toolbar);
        panels.push(ShellPanel::GrabBar);
        if self.config.display.show_fps {
            panels.push(ShellPanel::Fps);
        }
        if self.tray_visible && self.tray_panel {
            panels.push(ShellPanel::Tray);
        }
        if self.settings_visible && self.settings_panel {
            panels.push(ShellPanel::Settings);
        }
        if self.keyboard.visible && self.keyboard.panel {
            panels.push(ShellPanel::Keyboard);
        }
        if self.notification_panel {
            panels.push(ShellPanel::Notification);
        }
        assert(panels@ =~= self.drawn_panels());
        panels
    }

    /// The active panel where its anchor takes it: ahead of the leading hand or, in the
    /// theater, level in front of it. It stays where it is without a hand, and where the
    /// hand of a theater panel points straight up or down.
    pub open spec fn anchored(self, controller: ControllerState, panel: LauncherPanel) -> LauncherPanel {
        let hand = controller.leading();
        match self.interaction.anchor {
            PanelAnchor::Controller { .. } if hand.active => floating(
                panel,
                hand.grip_pos,
                hand.aim_dir,
            ),
            PanelAnchor::Theater { distance, scale } if hand.active => match Placement::level_spec(
                hand.aim_pos,
                hand.aim_dir,
                distance,
                scale,
            ) {
                Some(placed) => placed_at(panel, placed),
                None => panel,
            },
            _ => panel,
        }
    }

    /// Update the active panel based on the current anchor mode.
    pub fn update_anchor(&self, controller: &ControllerState, panel: &mut LauncherPanel)
        ensures
            *final(panel) == self.anchored(*controller, *old(panel)),
    {
        let hand = controller.leading_hand();
        if !hand.active {
            return;
        }
        match self.interaction.anchor {
            PanelAnchor::Controller { .. } => {
                let ahead = hand.aim_dir.times(Scalar { bits: FLOAT_AHEAD });
                panel.center = hand.grip_pos.plus(ahead);
            },
            PanelAnchor::Theater { distance, scale } => {
                if let Some(placed) = Placement::level(
                    hand.aim_pos,
                    hand.aim_dir,
                    distance,
                    scale,
                ) {
                    panel.center = placed.center;
                    panel.width = placed.width;
                    panel.height = placed.height;
                    panel.right_dir = placed.right_dir;
                    panel.up_dir = placed.up_dir;
                }
            },
            _ => {},
        }
    }

    /// A short text for the current anchor mode (used on the toolbar button).
    pub fn anchor_str(&self) -> (text: &'static str)
        ensures
            text@ == if self.interaction.anchor is Theater {
                "theater"@
            } else {
                "world"@
            },
    {
        match self.interaction.anchor {
            PanelAnchor::Theater { .. } => "theater",
            _ => "world",
        }
    }

    // ------------------------------------------------------------------
    // Input
    // ------------------------------------------------------------------

    /// The events of a frame, left hand first.
    pub open spec fn frame_events(
        self,
        controller: ControllerState,
        targets: Seq<PanelTarget>,
    ) -> Seq<(PanelId, InputEvent)> {
        InputDispatcher::hand_events(self.input.left, Hand::Left, controller.left, targets)
            + InputDispatcher::hand_events(self.input.right, Hand::Right, controller.right, targets)
    }

    /// What the events of a frame lead to, before a grab is continued or released.
    pub open spec fn frame_interaction(
        self,
        controller: ControllerState,
        targets: Seq<PanelTarget>,
    ) -> Interaction {
        self.interaction.frame_start().after_events(
            self.open_panels(),
            self.frame_events(controller, targets),
        )
    }

    /// Process one frame of input: pointers, clicks, grabs. `targets` are the
    /// `input_panels` with where each hand's ray meets them.
    pub fn begin_frame(
        &mut self,
        controller: &ControllerState,
        targets: &Vec<PanelTarget>,
    ) -> (todo: FrameInput)
        ensures
            ({
                let mid = old(self).frame_interaction(*controller, targets@);
                let lit = mid.bar_hit || mid.grab_hand is Some;
                let next = *final(self);
                &&& next.interaction == mid.after_grab_update(*controller)
                &&& next.grab_bar_highlighted == lit
                &&& next.input.left == InputDispatcher::hand_next(
                    old(self).input.left,
                    Hand::Left,
                    controller.left,
                    targets@,
                )
                &&& next.input.right == InputDispatcher::hand_next(
                    old(self).input.right,
                    Hand::Right,
                    controller.right,
                    targets@,
                )
                &&& next == (Shell {
                    input: next.input,
                    interaction: next.interaction,
                    grab_bar_highlighted: next.grab_bar_highlighted,
                    ..*old(self)
                })
                &&& todo.mouse@ == interaction::mouse_actions(
                    old(self).frame_events(*controller, targets@),
                )
                &&& todo.grab_start == mid.grab_start
                &&& todo.grip == match mid.grab_hand {
                    Some(hand) => if Interaction::holds(controller.of_hand(hand)) {
                        Some(controller.of_hand(hand).grip_pos)
                    } else {
                        None
                    },
                    None => None,
                }
                &&& todo.redraw_grab_bar == if lit != old(self).grab_bar_highlighted {
                    Some(lit)
                } else {
                    None
                }
            }),
            old(self).wf() ==> final(self).wf(),
    {
        let open = OpenPanels {
            tray: self.tray_panel,
            settings: self.settings_panel,
            keyboard: self.keyboard.panel,
        };
        self.interaction.begin();
        let events = self.input.dispatch(controller, targets.as_slice());
        let mouse = self.interaction.process_input_events(open, &events);
        let lit = self.interaction.bar_hit || self.interaction.grab_hand.is_some();
        let redraw_grab_bar = if lit != self.grab_bar_highlighted {
            Some(lit)
        } else {
            None
        };
        self.grab_bar_highlighted = lit;
        let grab_start = self.interaction.grab_start;
        let grip = self.interaction.update_grab(controller);
        FrameInput { mouse, grab_start, grip, redraw_grab_bar }
    }

    // ------------------------------------------------------------------
    // What the panels' interfaces returned
    // ------------------------------------------------------------------

    /// Take the click that waits for the launcher.
    pub fn take_launcher_click(&mut self) -> (click: bool)
        ensures
            click == old(self).interaction.launcher.click_pending,
            *final(self) == (Shell {
                interaction: Interaction {
                    launcher: Surface {
                        click_pending: false,
                        ..old(self).interaction.launcher
                    },
                    ..old(self).interaction
                },
                ..*old(self)
            }),
    {
        let click = self.interaction.launcher.click_pending;
        self.interaction.launcher.click_pending = false;
        click
    }

    /// Take the click that waits for the toolbar.
    pub fn take_toolbar_click(&mut self) -> (click: bool)
        ensures
            click == old(self).interaction.toolbar.click_pending,
            *final(self) == (Shell {
                interaction: Interaction {
                    toolbar: Surface { click_pending: false, ..old(self).interaction.toolbar },
                    ..old(self).interaction
                },
                ..*old(self)
            }),
    {
        let click = self.interaction.toolbar.click_pending;
        self.interaction.toolbar.click_pending = false;
        click
    }

    /// Take the click that waits for the tray, or `None` where no tray is to be
    /// drawn.
    pub fn take_tray_click(&mut self) -> (click: Option<bool>)
        ensures
            old(self).tray_visible && old(self).tray_panel ==> click == Some(
                old(self).interaction.tray.click_pending,
            ) && *final(self) == (Shell {
                interaction: Interaction {
                    tray: Surface { click_pending: false, ..old(self).interaction.tray },
                    ..old(self).interaction
                },
                ..*old(self)
            }),
            !(old(self).tray_visible && old(self).tray_panel) ==> click is None && *final(self)
                == *old(self),
    {
        if !self.tray_visible || !self.tray_panel {
            return None;
        }
        let click = self.interaction.tray.click_pending;
        self.interaction.tray.click_pending = false;
        Some(click)
    }

    /// Take the click that waits for the settings, or `None` where none are to
    /// be drawn.
    pub fn take_settings_click(&mut self) -> (click: Option<bool>)
        ensures
            old(self).settings_visible && old(self).settings_panel ==> click == Some(
                old(self).interaction.settings.click_pending,
            ) && *final(self) == (Shell {
                interaction: Interaction {
                    settings: Surface { click_pending: false, ..old(self).interaction.settings },
                    ..old(self).interaction
                },
                ..*old(self)
            }),
            !(old(self).settings_visible && old(self).settings_panel) ==> click is None
                && *final(self) == *old(self),
    {
        if !self.settings_visible || !self.settings_panel {
            return None;
        }
        let click = self.interaction.settings.click_pending;
        self.interaction.settings.click_pending = false;
        Some(click)
    }

    /// Take the click that waits for the keyboard, or `None` where none is to be
    /// drawn.
    pub fn take_keyboard_click(&mut self) -> (click: Option<bool>)
        ensures
            old(self).keyboard@.shown() ==> click == Some(
                old(self).interaction.keyboard.click_pending,
            ) && *final(self) == (Shell {
                interaction: Interaction {
                    keyboard: Surface { click_pending: false, ..old(self).interaction.keyboard },
                    ..old(self).interaction
                },
                ..*old(self)
            }),
            !old(self).keyboard@.shown() ==> click is None && *final(self) == *old(self),
    {
        if !self.keyboard.visible || !self.keyboard.panel {
            return None;
        }
        let click = self.interaction.keyboard.click_pending;
        self.interaction.keyboard.click_pending = false;
        Some(click)
    }

    /// Ask for a screenshot and tell the user of it.
    fn request_screenshot(&mut self)
        ensures
            told_screenshot(old(self).notifications, final(self).notifications),
            *final(self) == (Shell {
                screenshot_requested: true,
                notifications: final(self).notifications,
                ..*old(self)
            }),
    {
        self.screenshot_requested = true;
        let notification = Notification::success("Screenshot", "Saved to Pictures/ClearXR");
        self.notifications.push(notification);
        assert(notification.says(
            NotificationLevel::Success,
            "Screenshot"@,
            "Saved to Pictures/ClearXR"@,
        ));
    }

    /// Do what a click on the toolbar asks for. Returns whether the settings are
    /// to be shown.
    pub fn handle_toolbar_action(&mut self, action: ToolbarAction) -> (open_settings: bool)
        ensures
            open_settings == (action is Settings),
            match action {
                ToolbarAction::Launcher => *final(self) == (Shell {
                    active_view: ViewMode::Launcher,
                    ..*old(self)
                }),
                ToolbarAction::Desktop => *final(self) == (Shell {
                    active_view: ViewMode::Desktop,
                    ..*old(self)
                }),
                ToolbarAction::Settings => *final(self) == *old(self),
                ToolbarAction::CycleAnchor => *final(self) == (Shell {
                    interaction: Interaction {
                        anchor: next_anchor(old(self).interaction.anchor),
                        ..old(self).interaction
                    },
                    ..*old(self)
                }),
                ToolbarAction::Screenshot => told_screenshot(
                    old(self).notifications,
                    final(self).notifications,
                ) && *final(self) == (Shell {
                    screenshot_requested: true,
                    notifications: final(self).notifications,
                    ..*old(self)
                }),
            },
    {
        match action {
            ToolbarAction::Launcher => {
                self.active_view = ViewMode::Launcher;
                false
            },
            ToolbarAction::Desktop => {
                self.active_view = ViewMode::Desktop;
                false
            },
            ToolbarAction::Settings => true,
            ToolbarAction::CycleAnchor => {
                self.interaction.anchor = interaction::cycle_anchor(self.interaction.anchor);
                false
            },
            ToolbarAction::Screenshot => {
                self.request_screenshot();
                false
            },
        }
    }

    /// Handle a click on the toolbar at the given horizontal position. Returns
    /// whether the settings are to be shown.
    pub fn handle_toolbar_click(&mut self, u: Scalar) -> (open_settings: bool)
        ensures
            open_settings == (zone_at(u) is Settings),
            match zone_at(u) {
                ToolbarAction::Launcher => *final(self) == (Shell {
                    active_view: ViewMode::Launcher,
                    ..*old(self)
                }),
                ToolbarAction::Desktop => *final(self) == (Shell {
                    active_view: ViewMode::Desktop,
                    ..*old(self)
                }),
                ToolbarAction::Settings => *final(self) == *old(self),
                ToolbarAction::CycleAnchor => *final(self) == (Shell {
                    interaction: Interaction {
                        anchor: next_anchor(old(self).interaction.anchor),
                        ..old(self).interaction
                    },
                    ..*old(self)
                }),
                ToolbarAction::Screenshot => told_screenshot(
                    old(self).notifications,
                    final(self).notifications,
                ) && *final(self) == (Shell {
                    screenshot_requested: true,
                    notifications: final(self).notifications,
                    ..*old(self)
                }),
            },
    {
        self.handle_toolbar_action(toolbar_zone(u))
    }

    /// Do what a click in the tray asks for; every choice closes the tray.
    /// Returns whether the settings are to be shown.
    pub fn handle_tray_action(&mut self, action: TrayAction) -> (open_settings: bool)
        ensures
            open_settings == (action is Settings),
            match action {
                TrayAction::Home => *final(self) == (Shell {
                    active_view: ViewMode::Launcher,
                    tray_visible: false,
                    ..*old(self)
                }),
                TrayAction::Desktop => *final(self) == (Shell {
                    active_view: ViewMode::Desktop,
                    tray_visible: false,
                    ..*old(self)
                }),
                TrayAction::Settings => *final(self) == (Shell {
                    tray_visible: false,
                    ..*old(self)
                }),
                TrayAction::Screenshot => told_screenshot(
                    old(self).notifications,
                    final(self).notifications,
                ) && *final(self) == (Shell {
                    screenshot_requested: true,
                    tray_visible: false,
                    notifications: final(self).notifications,
                    ..*old(self)
                }),
            },
    {
        self.hide_system_tray();
        match action {
            TrayAction::Home => {
                self.active_view = ViewMode::Launcher;
                false
            },
            TrayAction::Desktop => {
                self.active_view = ViewMode::Desktop;
                false
            },
            TrayAction::Settings => true,
            TrayAction::Screenshot => {
                self.request_screenshot();
                false
            },
        }
    }

    /// Apply what was edited in the settings panel; launcher and desktop take on the
    /// opacity. Returns whether the configuration is to be saved.
    pub fn apply_settings(&mut self, edit: SettingsEdit) -> (save: bool)
        ensures
            save == edit.save,
            edited(old(self).config, final(self).config, edit),
            *final(self) == (Shell {
                config: final(self).config,
                notifications: final(self).notifications,
                launcher_opacity: edit.opacity,
                screen_opacity: edit.opacity,
                ..*old(self)
            }),
            edit.save ==> told(
                old(self).notifications,
                final(self).notifications,
                NotificationLevel::Success,
                "Settings"@,
                "Saved"@,
            ),
            !edit.save ==> final(self).notifications == old(self).notifications,
    {
        let save = edit.save;
        self.launcher_opacity = edit.opacity;
        self.screen_opacity = edit.opacity;
        edit_config(&mut self.config, edit);
        if save {
            let notification = Notification::success("Settings", "Saved");
            self.notifications.push(notification);
            assert(notification.says(NotificationLevel::Success, "Settings"@, "Saved"@));
        }
        save
    }

    /// Press a key of the virtual keyboard.
    pub fn press_key(&mut self, key: Key)
        ensures
            final(self).keyboard@ == old(self).keyboard@.pressed(key),
            *final(self) == (Shell { keyboard: final(self).keyboard, ..*old(self) }),
    {
        self.keyboard.press(key);
    }

    // ------------------------------------------------------------------
    // Panels that come and go
    // ------------------------------------------------------------------

    /// After a look at the menu buttons: a fresh press toggles the tray.
    pub open spec fn after_menu(self, pressed: bool) -> Shell {
        Shell {
            prev_menu_click: pressed,
            tray_visible: if pressed && !self.prev_menu_click {
                !self.tray_visible
            } else {
                self.tray_visible
            },
            ..self
        }
    }

    /// Handle the menu buttons: a fresh press on either controller toggles the
    /// tray. Returns whether a tray panel has to be made.
    pub fn handle_menu_button(&mut self, controller: &ControllerState) -> (make_tray: bool)
        ensures
            *final(self) == old(self).after_menu(
                controller.left.menu_click || controller.right.menu_click,
            ),
            make_tray == (final(self).tray_visible && !old(self).tray_visible
                && !old(self).tray_panel),
    {
        let pressed = controller.left.menu_click || controller.right.menu_click;
        let mut make_tray = false;
        if pressed && !self.prev_menu_click {
            self.tray_visible = !self.tray_visible;
            make_tray = self.tray_visible && !self.tray_panel;
        }
        self.prev_menu_click = pressed;
        make_tray
    }

    /// Show the system tray, `created` being whether a panel could be made for it
    /// where it has none. A new panel has no pointer on it; a hidden one comes back.
    pub fn show_system_tray(&mut self, created: bool)
        ensures
            *final(self) == if old(self).tray_panel {
                Shell { tray_visible: true, ..*old(self) }
            } else if created {
                Shell {
                    tray_panel: true,
                    tray_visible: true,
                    interaction: Interaction {
                        tray: old(self).interaction.tray.left(),
                        ..old(self).interaction
                    },
                    ..*old(self)
                }
            } else {
                *old(self)
            },
    {
        if self.tray_panel {
            self.tray_visible = true;
        } else if created {
            self.interaction.tray.leave();
            self.tray_panel = true;
            self.tray_visible = true;
        }
    }

    /// Hide the system tray; its panel stays for the next time.
    pub fn hide_system_tray(&mut self)
        ensures
            *final(self) == (Shell { tray_visible: false, ..*old(self) }),
    {
        self.tray_visible = false;
    }

    /// Hide the system tray and give up its panel. Returns whether there is a
    /// panel to destroy.
    pub fn close_system_tray(&mut self) -> (destroy: bool)
        ensures
            destroy == old(self).tray_panel,
            *final(self) == (Shell {
                tray_panel: false,
                tray_visible: false,
                interaction: Interaction {
                    tray: old(self).interaction.tray.left(),
                    ..old(self).interaction
                },
                ..*old(self)
            }),
    {
        self.interaction.tray.leave();
        let destroy = self.tray_panel;
        self.tray_panel = false;
        self.tray_visible = false;
        destroy
    }

    /// Show the settings panel, `created` being whether a panel could be made
    /// for it. Does nothing while it has a panel already.
    pub fn show_settings(&mut self, created: bool)
        ensures
            *final(self) == if old(self).settings_panel || !created {
                *old(self)
            } else {
                Shell {
                    settings_panel: true,
                    settings_visible: true,
                    interaction: Interaction {
                        settings: old(self).interaction.settings.left(),
                        ..old(self).interaction
                    },
                    ..*old(self)
                }
            },
    {
        if self.settings_panel || !created {
            return;
        }
        self.interaction.settings.leave();
        self.settings_panel = true;
        self.settings_visible = true;
    }

    /// Hide the settings panel and give it up. Returns whether there is a panel
    /// to destroy.
    pub fn hide_settings(&mut self) -> (destroy: bool)
        ensures
            destroy == old(self).settings_panel,
            *final(self) == (Shell {
                settings_panel: false,
                settings_visible: false,
                interaction: Interaction {
                    settings: old(self).interaction.settings.left(),
                    ..old(self).interaction
                },
                ..*old(self)
            }),
    {
        self.interaction.settings.leave();
        let destroy = self.settings_panel;
        self.settings_panel = false;
        self.settings_visible = false;
        destroy
    }

    /// Whether toggling the settings hides them (else it shows them).
    pub fn toggle_hides_settings(&self) -> (hides: bool)
        ensures
            hides == self.settings_visible,
    {
        self.settings_visible
    }

    /// Show the virtual keyboard, `created` being whether a panel could be made for it
    /// where it has none. With a new panel the text is empty and no click or pointer
    /// waits; a dismissed keyboard comes back with its text and its shift.
    pub fn show_keyboard(&mut self, created: bool)
        ensures
            final(self).keyboard@ == old(self).keyboard@.brought_up(created),
            *final(self) == (Shell {
                keyboard: final(self).keyboard,
                interaction: if !old(self).keyboard@.panel && created {
                    Interaction { keyboard: Surface::untouched(), ..old(self).interaction }
                } else {
                    old(self).interaction
                },
                ..*old(self)
            }),
    {
        if !self.keyboard.panel && created {
            self.interaction.keyboard = Surface::new();
        }
        self.keyboard.show(created);
    }

    /// Put the virtual keyboard away. Returns whether there is a panel to
    /// destroy.
    pub fn hide_keyboard(&mut self) -> (destroy: bool)
        ensures
            destroy == old(self).keyboard@.panel,
            final(self).keyboard@ == KeyboardView::absent(),
            *final(self) == (Shell {
                keyboard: final(self).keyboard,
                interaction: Interaction {
                    keyboard: old(self).interaction.keyboard.left(),
                    ..old(self).interaction
                },
                ..*old(self)
            }),
    {
        let destroy = self.keyboard.panel;
        self.interaction.keyboard.leave();
        self.keyboard.put_away();
        destroy
    }

    /// Let expired notifications go, and decide whether there is something to
    /// show. Without notifications the panel goes. Returns whether a panel has to
    /// be made.
    pub fn update_notifications(&mut self) -> (make_panel: bool)
        ensures
            exists|ages: Seq<notifications::Duration>|
                ages.len() == old(self).notifications.entries().len()
                    && final(self).notifications.entries() == #[trigger] notifications::unexpired(
                    old(self).notifications.entries(),
                    ages,
                ),
            final(self).notifications.limit() == old(self).notifications.limit(),
            old(self).notifications.wf() ==> final(self).notifications.wf(),
            make_panel == (final(self).notifications.entries().len() > 0
                && !old(self).notification_panel),
            *final(self) == (Shell {
                notifications: final(self).notifications,
                notification_panel: old(self).notification_panel
                    && final(self).notifications.entries().len() > 0,
                ..*old(self)
            }),
    {
        self.notifications.tick();
        if self.notifications.count() > 0 {
            !self.notification_panel
        } else {
            self.notification_panel = false;
            false
        }
    }

    /// Note that the notification panel was made.
    pub fn notification_panel_made(&mut self, created: bool)
        ensures
            *final(self) == (Shell {
                notification_panel: old(self).notification_panel || created,
                ..*old(self)
            }),
    {
        if created {
            self.notification_panel = true;
        }
    }

    // ------------------------------------------------------------------
    // Frame rate, screenshot, boundary, launched game
    // ------------------------------------------------------------------

    /// Count a frame, `elapsed` seconds after the last count ended. Every half
    /// second returns the frames per second and starts over.
    pub fn count_frame(&mut self, elapsed: Scalar) -> (rate: Option<Scalar>)
        requires
            old(self).fps_frame_count < u32::MAX,
        ensures
            ({
                let due = (Scalar { bits: FPS_INTERVAL }).at_most(elapsed);
                let counted = (old(self).fps_frame_count + 1) as u32;
                &&& rate == if due {
                    Some(Scalar::of_count(counted as int).over(elapsed))
                } else {
                    None
                }
                &&& *final(self) == (Shell {
                    fps_frame_count: if due {
                        0
                    } else {
                        counted
                    },
                    ..*old(self)
                })
            }),
            rate is Some <==> (Scalar { bits: 0x3f00_0000 }).at_most(elapsed),
            rate is Some ==> final(self).fps_frame_count == 0,
            rate is None ==> final(self).fps_frame_count == old(self).fps_frame_count + 1,
    {
        self.fps_frame_count = self.fps_frame_count + 1;
        if elapsed.reaches(Scalar { bits: FPS_INTERVAL }) {
            let frames = Scalar::from_count(self.fps_frame_count as u128);
            self.fps_frame_count = 0;
            Some(frames.quotient(elapsed))
        } else {
            None
        }
    }

    /// Handle the screenshot trigger (both triggers pulled simultaneously): one
    /// screenshot per pull.
    pub fn handle_screenshot_trigger(&mut self, controller: &ControllerState)
        ensures
            screenshot_step(*old(self), *final(self), *controller),
            old(self).wf() ==> final(self).wf(),
    {
        let limit = Scalar { bits: SCREENSHOT_TRIGGER };
        let both = controller.left.trigger.greater(limit) && controller.right.trigger.greater(limit);
        if both && !self.prev_both_triggers {
            self.request_screenshot();
        }
        self.prev_both_triggers = both;
    }

    /// Warn of the boundary.
    fn warn_of_boundary(&mut self)
        ensures
            told(
                old(self).notifications,
                final(self).notifications,
                NotificationLevel::Warning,
                "Boundary"@,
                "Near play space edge"@,
            ),
            *final(self) == (Shell {
                boundary_warning_shown: true,
                notifications: final(self).notifications,
                ..*old(self)
            }),
    {
        let notification = Notification::warning("Boundary", "Near play space edge");
        self.notifications.push(notification);
        assert(notification.says(
            NotificationLevel::Warning,
            "Boundary"@,
            "Near play space edge"@,
        ));
        self.boundary_warning_shown = true;
    }

    /// Check boundary proximity of the leading hand, and warn once per approach.
    pub fn check_boundary(&mut self, controller: &ControllerState)
        ensures
            boundary_step(*old(self), *final(self), *controller),
            old(self).wf() ==> final(self).wf(),
    {
        if !self.config.display.show_boundary {
            return;
        }
        let hand = controller.leading_hand();
        if hand.active {
            let near = self.boundary.compute_visibility(hand.aim_pos).near();
            if near && !self.boundary_warning_shown {
                self.warn_of_boundary();
            } else if !near {
                self.boundary_warning_shown = false;
            }
        }
    }

    /// Tell when the launched game has ended, `poll` being what is known of its
    /// process.
    pub fn monitor_launched_app(&mut self, poll: ProcessPoll)
        ensures
            monitor_step(*old(self), *final(self), poll),
            old(self).wf() ==> final(self).wf(),
    {
        let mut ended: Option<String> = None;
        if let Some(app) = &self.launched_app {
            match app.status(poll) {
                AppStatus::Running => {},
                AppStatus::ExitedOk | AppStatus::Exited(_) => {
                    ended = Some(app.name.clone());
                },
            }
        }
        if let Some(name) = ended {
            let notification = Notification::info("Game ended", name.as_str());
            self.notifications.push(notification);
            assert(notification.says(NotificationLevel::Info, "Game ended"@, name@));
            self.launched_app = None;
        }
    }

    /// Decide whether to launch a game. `poll` is what is known of the process of
    /// the game launched before, if any: while that one runs, no other is
    /// launched.
    pub fn launch_game(&mut self, app_id: u32, poll: ProcessPoll) -> (decision: LaunchDecision)
        ensures
            ({
                let running = old(self).launched_app is Some && status_of(poll) is Running;
                if running {
                    &&& decision is AlreadyRunning
                    &&& told(
                        old(self).notifications,
                        final(self).notifications,
                        NotificationLevel::Info,
                        "Already running"@,
                        old(self).launched_app->0.name@,
                    )
                    &&& *final(self) == (Shell {
                        notifications: final(self).notifications,
                        ..*old(self)
                    })
                } else {
                    &&& decision matches LaunchDecision::Launch { name } && name@ == name_of(
                        game_views(old(self).games@),
                        app_id,
                    )
                    &&& *final(self) == (Shell { launched_app: None, ..*old(self) })
                }
            }),
    {
        let mut running: Option<String> = None;
        if let Some(app) = &self.launched_app {
            match app.status(poll) {
                AppStatus::Running => {
                    running = Some(app.name.clone());
                },
                _ => {},
            }
        }
        if let Some(name) = running {
            let notification = Notification::info("Already running", name.as_str());
            self.notifications.push(notification);
            assert(notification.says(NotificationLevel::Info, "Already running"@, name@));
            return LaunchDecision::AlreadyRunning;
        }
        self.launched_app = None;
        LaunchDecision::Launch { name: game_name(&self.games, app_id) }
    }

    /// Take over the game that was launched, or tell that it could not be. `name`
    /// is the game's name.
    pub fn launch_finished(&mut self, name: &str, launched: Option<LaunchedApp>)
        ensures
            match launched {
                Some(app) => {
                    &&& told(
                        old(self).notifications,
                        final(self).notifications,
                        NotificationLevel::Info,
                        "Launching"@,
                        app.name@ + "..."@,
                    )
                    &&& *final(self) == (Shell {
                        launched_app: Some(app),
                        notifications: final(self).notifications,
                        ..*old(self)
                    })
                },
                None => {
                    &&& told(
                        old(self).notifications,
                        final(self).notifications,
                        NotificationLevel::Warning,
                        "Failed to launch"@,
                        name@,
                    )
                    &&& *final(self) == (Shell {
                        notifications: final(self).notifications,
                        ..*old(self)
                    })
                },
            },
    {
        match launched {
            Some(app) => {
                let body = joined("", app.name.as_str(), "...");
                proof {
                    reveal_strlit("");
                }
                assert(body@ =~= app.name@ + "..."@);
                let notification = Notification::info("Launching", body.as_str());
                self.notifications.push(notification);
                assert(notification.says(NotificationLevel::Info, "Launching"@, body@));
                self.launched_app = Some(app);
            },
            None => {
                let notification = Notification::warning("Failed to launch", name);
                self.notifications.push(notification);
                assert(notification.says(NotificationLevel::Warning, "Failed to launch"@, name@));
            },
        }
    }

    /// The output of the frame: the rays, and the pulses if haptic feedback is
    /// enabled.
    pub open spec fn frame_output(self) -> ShellFrame {
        ShellFrame {
            left_ray_hit_dist: self.interaction.left_ray,
            right_ray_hit_dist: self.interaction.right_ray,
            haptic_left: if self.config.shell.haptics_enabled {
                self.interaction.haptic_left
            } else {
                None
            },
            haptic_right: if self.config.shell.haptics_enabled {
                self.interaction.haptic_right
            } else {
                None
            },
        }
    }

    /// The output of the frame.
    pub fn end_frame(&self) -> (frame: ShellFrame)
        ensures
            frame == self.frame_output(),
    {
        let (haptic_left, haptic_right) = if self.config.shell.haptics_enabled {
            (self.interaction.haptic_left, self.interaction.haptic_right)
        } else {
            (None, None)
        };
        ShellFrame {
            left_ray_hit_dist: self.interaction.left_ray,
            right_ray_hit_dist: self.interaction.right_ray,
            haptic_left,
            haptic_right,
        }
    }

    /// Finish a frame after its panels were drawn: the screenshot triggers, then the
    /// boundary, then the launched game, and the frame's output. Nothing else of the
    /// shell changes.
    pub fn finish_frame(&mut self, controller: &ControllerState, poll: ProcessPoll) -> (frame:
        ShellFrame)
        ensures
            exists|shot: Shell, checked: Shell|
                #[trigger] screenshot_step(*old(self), shot, *controller)
                    && #[trigger] boundary_step(shot, checked, *controller)
                    && monitor_step(checked, *final(self), poll),
            same_but_for_frame_end(*old(self), *final(self)),
            frame == old(self).frame_output(),
            old(self).wf() ==> final(self).wf(),
    {
        self.handle_screenshot_trigger(controller);
        let ghost shot = *self;
        self.check_boundary(controller);
        let ghost checked = *self;
        self.monitor_launched_app(poll);
        proof {
            lemma_screenshot_keeps(*old(self), shot, *controller);
            lemma_boundary_keeps(shot, checked, *controller);
            lemma_monitor_keeps(checked, *self, poll);
            lemma_keeps_twice(*old(self), shot, checked);
            lemma_keeps_twice(*old(self), checked, *self);
        }
        self.end_frame()
    }
}

/// Whether the two shells differ at most in what the end of a frame can change.
pub open spec fn same_but_for_frame_end(before: Shell, after: Shell) -> bool {
    after == Shell {
        screenshot_requested: after.screenshot_requested,
        prev_both_triggers: after.prev_both_triggers,
        boundary_warning_shown: after.boundary_warning_shown,
        launched_app: after.launched_app,
        notifications: after.notifications,
        ..before
    }
}

proof fn lemma_screenshot_keeps(before: Shell, after: Shell, controller: ControllerState)
    requires
        screenshot_step(before, after, controller),
    ensures
        same_but_for_frame_end(before, after),
{
}

proof fn lemma_boundary_keeps(before: Shell, after: Shell, controller: ControllerState)
    requires
        boundary_step(before, after, controller),
    ensures
        same_but_for_frame_end(before, after),
{
}

proof fn lemma_monitor_keeps(before: Shell, after: Shell, poll: ProcessPoll)
    requires
        monitor_step(before, after, poll),
    ensures
        same_but_for_frame_end(before, after),
{
}

proof fn lemma_keeps_twice(before: Shell, between: Shell, after: Shell)
    requires
        same_but_for_frame_end(before, between),
        same_but_for_frame_end(between, after),
    ensures
        same_but_for_frame_end(before, after),
{
}

/// The menu button toggles the tray once per press: holding it changes nothing
/// more, and pressing it again undoes the toggle.
pub proof fn law_menu_toggles_tray(shell: Shell)
    requires
        !shell.prev_menu_click,
    ensures
        shell.after_menu(true).tray_visible == !shell.tray_visible,
        shell.after_menu(true).after_menu(true) == shell.after_menu(true),
        shell.after_menu(true).after_menu(false).after_menu(true).after_menu(false) == shell,
{
}

/// One pull of both triggers asks for one screenshot: while they stay pulled the shell
/// does not change.
pub proof fn law_one_screenshot_per_pull(
    before: Shell,
    pulled: Shell,
    after: Shell,
    controller: ControllerState,
)
    requires
        screenshot_step(before, pulled, controller),
        screenshot_step(pulled, after, controller),
    ensures
        after == pulled,
{
}

/// The end of a game is told once: a game that has ended is forgotten, and without one
/// nothing is told.
pub proof fn law_game_ends_once(
    before: Shell,
    told: Shell,
    after: Shell,
    poll: ProcessPoll,
    later: ProcessPoll,
)
    requires
        monitor_step(before, told, poll),
        !(status_of(poll) is Running),
        monitor_step(told, after, later),
    ensures
        told.launched_app is None,
        after == told,
{
}

/// One approach to the boundary warns once: while a wall stays near there is no
/// further warning, and only after walking away there is another.
pub proof fn law_boundary_warns_once(shown: bool)
    ensures
        !warns(true, true, warning_shown_after(true, true, shown)),
        warns(true, true, warning_shown_after(true, false, shown)),
        !warns(false, true, shown),
{
}

/// A panel in the world stays where it is, and so does every panel while no hand is
/// there.
pub proof fn law_world_panel_stays(
    shell: Shell,
    controller: ControllerState,
    panel: LauncherPanel,
)
    ensures
        shell.interaction.anchor is World ==> shell.anchored(controller, panel) == panel,
        !controller.left.active && !controller.right.active ==> shell.anchored(controller, panel)
            == panel,
{
}

/// Following an anchor moves the panel and nothing else: what it shows and how it is drawn
/// stays, and a panel that is where its anchor takes it stays there.
pub proof fn law_anchor_keeps_the_picture(
    shell: Shell,
    controller: ControllerState,
    panel: LauncherPanel,
)
    ensures
        ({
            let moved = shell.anchored(controller, panel);
            &&& moved.tex_width == panel.tex_width && moved.tex_height == panel.tex_height
            &&& moved.opacity == panel.opacity && moved.dot_uv == panel.dot_uv
            &&& moved.texture_initialized == panel.texture_initialized
            &&& moved.upload_pending == panel.upload_pending
            &&& shell.anchored(controller, moved) == moved
        }),
{
}

/// With haptic feedback disabled no pulse leaves the shell, and the rays are the
/// same as with it.
pub proof fn law_haptics_can_be_disabled(shell: Shell)
    requires
        !shell.config.shell.haptics_enabled,
    ensures
        shell.frame_output().haptic_left is None,
        shell.frame_output().haptic_right is None,
        shell.frame_output().left_ray_hit_dist == shell.interaction.left_ray,
        shell.frame_output().right_ray_hit_dist == shell.interaction.right_ray,
{
}

/// The active panel, the toolbar and the grab bar are always drawn, in this
/// order and before everything else, and no panel is drawn twice.
pub proof fn law_drawn_panels(shell: Shell)
    ensures
        3 <= shell.drawn_panels().len() <= 8,
        shell.drawn_panels()[0] == if shell.active_view is Launcher {
            ShellPanel::Launcher
        } else {
            ShellPanel::Screen
        },
        shell.drawn_panels()[1] == ShellPanel::Toolbar,
        shell.drawn_panels()[2] == ShellPanel::GrabBar,
        shell.drawn_panels().no_duplicates(),
{
}

/// Every ray is offered the active panel, the toolbar and the grab bar behind
/// whatever is open, and exactly the last two can be grabbed anywhere.
pub proof fn law_pointer_panels(shell: Shell)
    ensures
        ({
            let panels = shell.pointer_panels();
            let n = panels.len();
            &&& 3 <= n <= 6
            &&& panels[n - 2] == (PanelId(PANEL_ID_TOOLBAR), true)
            &&& panels[n - 1] == (PanelId(PANEL_ID_GRAB_BAR), true)
            &&& forall|i: int| 0 <= i < n - 2 ==> !(#[trigger] panels[i]).1
            &&& panels.no_duplicates()
        }),
{
}

proof fn lemma_pointer_contents(shell: Shell)
    ensures
        shell.pointer_panels().contains((PanelId(PANEL_ID_TRAY), false)) <==> shell.tray_visible
            && shell.tray_panel,
        shell.pointer_panels().contains((PanelId(PANEL_ID_SETTINGS), false))
            <==> shell.settings_visible && shell.settings_panel,
        shell.pointer_panels().contains((PanelId(PANEL_ID_KEYBOARD), false))
            <==> shell.keyboard@.shown(),
{
    let points = shell.pointer_panels();
    let tray: int = if shell.tray_visible && shell.tray_panel {
        1
    } else {
        0
    };
    let settings: int = if shell.settings_visible && shell.settings_panel {
        1
    } else {
        0
    };
    if tray == 1 {
        assert(points[0] == (PanelId(PANEL_ID_TRAY), false));
    }
    if settings == 1 {
        assert(points[tray] == (PanelId(PANEL_ID_SETTINGS), false));
    }
    if shell.keyboard@.shown() {
        assert(points[tray + settings] == (PanelId(PANEL_ID_KEYBOARD), false));
    }
}

proof fn lemma_drawn_contents(shell: Shell)
    ensures
        shell.drawn_panels().contains(ShellPanel::Tray) <==> shell.tray_visible
            && shell.tray_panel,
        shell.drawn_panels().contains(ShellPanel::Settings) <==> shell.settings_visible
            && shell.settings_panel,
        shell.drawn_panels().contains(ShellPanel::Keyboard) <==> shell.keyboard@.shown(),
{
    let draws = shell.drawn_panels();
    let fps: int = if shell.config.display.show_fps {
        4
    } else {
        3
    };
    let tray: int = if shell.tray_visible && shell.tray_panel {
        1
    } else {
        0
    };
    let settings: int = if shell.settings_visible && shell.settings_panel {
        1
    } else {
        0
    };
    if tray == 1 {
        assert(draws[fps] == ShellPanel::Tray);
    }
    if settings == 1 {
        assert(draws[fps + tray] == ShellPanel::Settings);
    }
    if shell.keyboard@.shown() {
        assert(draws[fps + tray + settings] == ShellPanel::Keyboard);
    }
}

/// What can be pointed at can be seen: a panel that comes and goes is offered to
/// the rays exactly when it is drawn.
pub proof fn law_pointed_panels_are_drawn(shell: Shell)
    ensures
        shell.pointer_panels().contains((PanelId(PANEL_ID_TRAY), false))
            <==> shell.drawn_panels().contains(ShellPanel::Tray),
        shell.pointer_panels().contains((PanelId(PANEL_ID_SETTINGS), false))
            <==> shell.drawn_panels().contains(ShellPanel::Settings),
        shell.pointer_panels().contains((PanelId(PANEL_ID_KEYBOARD), false))
            <==> shell.drawn_panels().contains(ShellPanel::Keyboard),
{
    lemma_pointer_contents(shell);
    lemma_drawn_contents(shell);
}

/// Which zone comes how far along the toolbar.
pub open spec fn zone_index(action: ToolbarAction) -> int {
    match action {
        ToolbarAction::Launcher => 0,
        ToolbarAction::Desktop => 1,
        ToolbarAction::Settings => 2,
        ToolbarAction::CycleAnchor => 3,
        ToolbarAction::Screenshot => 4,
    }
}

/// The zones of the toolbar follow one another from left to right.
pub proof fn law_toolbar_zones_in_order(left: Scalar, right: Scalar)
    requires
        left.at_most(right),
    ensures
        zone_index(zone_at(left)) <= zone_index(zone_at(right)),
{
}

/// Capture wins over the configured view, and every view but the desktop means
/// the launcher.
pub proof fn law_starting_view(default_view: Seq<char>)
    ensures
        starting_view(true, default_view) == ViewMode::Desktop,
        starting_view(false, "desktop"@) == ViewMode::Desktop,
        default_view != "desktop"@ ==> starting_view(false, default_view) == ViewMode::Launcher,
{
}

/// The toolbar's zones: the launcher up to 0.35 of its width, the desktop up to 0.7, the
/// settings up to 0.8, the anchor up to 0.9, and the screenshot beyond.
pub proof fn law_toolbar_zones(u: Scalar)
    requires
        !u.is_nan(),
    ensures
        ({
            let launcher = Scalar { bits: 0x3eb3_3333 };
            let desktop = Scalar { bits: 0x3f33_3333 };
            let settings = Scalar { bits: 0x3f4c_cccd };
            let anchor = Scalar { bits: 0x3f66_6666 };
            &&& zone_at(u) is Launcher <==> u.below(launcher)
            &&& zone_at(u) is Desktop <==> launcher.at_most(u) && u.below(desktop)
            &&& zone_at(u) is Settings <==> desktop.at_most(u) && u.below(settings)
            &&& zone_at(u) is CycleAnchor <==> settings.at_most(u) && u.below(anchor)
            &&& zone_at(u) is Screenshot <==> anchor.at_most(u)
        }),
{
}

/// What the user is told is there to be read: the last notification has that level, title
/// and body, and the ones before it are still there as far as there is room.
pub proof fn law_what_is_told_can_be_read(
    before: NotificationQueue,
    after: NotificationQueue,
    level: NotificationLevel,
    title: Seq<char>,
    body: Seq<char>,
    i: int,
)
    requires
        told(before, after, level, title, body),
        before.wf(),
        before.limit() > 0,
    ensures
        ({
            let shown = after.entries();
            &&& shown.len() > 0
            &&& shown.last().level == level
            &&& shown.last().title@ == title
            &&& shown.last().body@ == body
            &&& after.limit() == before.limit()
            &&& before.entries().len() < before.limit() ==> shown.len() == before.entries().len()
                + 1
            &&& before.entries().len() == before.limit() ==> shown.len() == before.limit()
            &&& 0 <= i < shown.len() - 1 ==> shown[i] == before.entries()[i
                + before.entries().len() + 1 - shown.len()]
        }),
{
    let added = choose|notification: Notification|
        #[trigger] notification.says(level, title, body) && after.entries() == newest(
            before.entries().push(notification),
            before.limit(),
        );
    notifications::law_added_notification_comes_last(before.entries(), before.limit(), added, i);
}

/// A screenshot is asked for when both triggers are pulled by more than 0.8 and were not
/// before; the user is told so, and nothing else changes.
pub proof fn law_both_triggers_take_a_screenshot(
    before: Shell,
    after: Shell,
    controller: ControllerState,
)
    requires
        screenshot_step(before, after, controller),
        before.notifications.wf(),
        before.notifications.limit() > 0,
    ensures
        ({
            let limit = Scalar { bits: 0x3f4c_cccd };
            let both = limit.below(controller.left.trigger) && limit.below(
                controller.right.trigger,
            );
            let shot = both && !before.prev_both_triggers;
            &&& after.screenshot_requested == (before.screenshot_requested || shot)
            &&& after.prev_both_triggers == both
            &&& !shot ==> after.notifications == before.notifications
            &&& shot ==> after.notifications.entries().last().level is Success
            &&& shot ==> after.notifications.entries().last().title@ == "Screenshot"@
            &&& shot ==> after.notifications.entries().last().body@
                == "Saved to Pictures/ClearXR"@
            &&& after == (Shell {
                screenshot_requested: after.screenshot_requested,
                prev_both_triggers: after.prev_both_triggers,
                notifications: after.notifications,
                ..before
            })
        }),
{
    let limit = Scalar { bits: 0x3f4c_cccd };
    let both = limit.below(controller.left.trigger) && limit.below(controller.right.trigger);
    if both && !before.prev_both_triggers {
        law_what_is_told_can_be_read(
            before.notifications,
            after.notifications,
            NotificationLevel::Success,
            "Screenshot"@,
            "Saved to Pictures/ClearXR"@,
            0,
        );
    }
}

/// The user is warned when the leading hand comes near a wall, while the boundary is shown:
/// once, until it was away from the walls. Without a hand, or with the boundary not shown,
/// nothing changes.
pub proof fn law_boundary_warns_of_walls(
    before: Shell,
    after: Shell,
    controller: ControllerState,
)
    requires
        boundary_step(before, after, controller),
        before.notifications.wf(),
        before.notifications.limit() > 0,
    ensures
        ({
            let hand = if controller.right.active {
                controller.right
            } else {
                controller.left
            };
            let watched = before.config.display.show_boundary && hand.active;
            let walls = before.boundary.visibility_at(hand.aim_pos);
            let limit = Scalar { bits: 0x3e99_999a };
            let near = limit.below(walls.left) || limit.below(walls.right) || limit.below(
                walls.front,
            ) || limit.below(walls.back);
            &&& !watched ==> after == before
            &&& watched ==> after.boundary_warning_shown == near
            &&& watched && near && !before.boundary_warning_shown ==> {
                &&& after.notifications.entries().last().level is Warning
                &&& after.notifications.entries().last().title@ == "Boundary"@
                &&& after.notifications.entries().last().body@ == "Near play space edge"@
            }
            &&& !(watched && near && !before.boundary_warning_shown) ==> after.notifications
                == before.notifications
            &&& after == (Shell {
                boundary_warning_shown: after.boundary_warning_shown,
                notifications: after.notifications,
                ..before
            })
        }),
{
    let hand = controller.leading();
    let near = before.boundary.visibility_at(hand.aim_pos).any_near();
    if before.config.display.show_boundary && hand.active && near
        && !before.boundary_warning_shown {
        law_what_is_told_can_be_read(
            before.notifications,
            after.notifications,
            NotificationLevel::Warning,
            "Boundary"@,
            "Near play space edge"@,
            0,
        );
    }
}

/// When the launched game has ended the user is told its name, and it is forgotten; while
/// it runs, and without one, nothing changes.
pub proof fn law_ended_game_is_told(before: Shell, after: Shell, poll: ProcessPoll)
    requires
        monitor_step(before, after, poll),
        before.notifications.wf(),
        before.notifications.limit() > 0,
    ensures
        before.launched_app is None || poll is StillRunning ==> after == before,
        before.launched_app is Some && !(poll is StillRunning) ==> {
            &&& after.launched_app is None
            &&& after.notifications.entries().last().level is Info
            &&& after.notifications.entries().last().title@ == "Game ended"@
            &&& after.notifications.entries().last().body@ == before.launched_app->0.name@
            &&& after == (Shell {
                launched_app: None,
                notifications: after.notifications,
                ..before
            })
        },
{
    crate::app::law_status_is_that_of_the_process(true, None);
    if before.launched_app is Some && !(poll is StillRunning) {
        law_what_is_told_can_be_read(
            before.notifications,
            after.notifications,
            NotificationLevel::Info,
            "Game ended"@,
            before.launched_app->0.name@,
            0,
        );
    }
}

/// What was edited in the settings is what the configuration says afterwards, and the rest
/// of it stays.
pub proof fn law_settings_are_kept(before: Config, after: Config, edit: SettingsEdit)
    requires
        edited(before, after, edit),
    ensures
        after.shell.default_view@ == edit.default_view@,
        after.shell.haptics_enabled == edit.haptics_enabled,
        after.panel.opacity == edit.opacity,
        after.display.show_fps == edit.show_fps,
        after.display.show_boundary == before.display.show_boundary,
        after.display.theme == before.display.theme,
        after.panel.position == before.panel.position,
        after.panel.width == before.panel.width,
        after.panel.height == before.panel.height,
        after.panel.anchor == before.panel.anchor,
        after.panel.theater_distance == before.panel.theater_distance,
        after.panel.theater_scale == before.panel.theater_scale,
        after.audio == before.audio,
{
}

/// A menu button toggles the tray when it is pressed and was not before, and does nothing
/// else.
pub proof fn law_menu_button(shell: Shell, pressed: bool)
    ensures
        ({
            let after = shell.after_menu(pressed);
            &&& pressed && !shell.prev_menu_click ==> after.tray_visible == !shell.tray_visible
            &&& !pressed || shell.prev_menu_click ==> after.tray_visible == shell.tray_visible
            &&& after.prev_menu_click == pressed
            &&& after == (Shell {
                tray_visible: after.tray_visible,
                prev_menu_click: after.prev_menu_click,
                ..shell
            })
        }),
{
}

/// What leaves the shell at the end of a frame: the rays as long as they are, and the
/// pulses of each hand for that hand, unless haptic feedback is disabled.
pub proof fn law_frame_output(shell: Shell)
    ensures
        ({
            let frame = shell.frame_output();
            &&& frame.left_ray_hit_dist == shell.interaction.left_ray
            &&& frame.right_ray_hit_dist == shell.interaction.right_ray
            &&& shell.config.shell.haptics_enabled ==> frame.haptic_left
                == shell.interaction.haptic_left && frame.haptic_right
                == shell.interaction.haptic_right
            &&& !shell.config.shell.haptics_enabled ==> frame.haptic_left is None
                && frame.haptic_right is None
        }),
{
}

/// What is drawn: the launcher or the desktop, whichever is active, and always the toolbar
/// and the grab bar; the frame counter if it is configured; the tray, the settings and the
/// keyboard while they are visible and exist; a notification while its panel exists.
pub proof fn law_what_is_drawn(shell: Shell)
    ensures
        ({
            let drawn = shell.drawn_panels();
            &&& drawn.contains(ShellPanel::Launcher) <==> shell.active_view is Launcher
            &&& drawn.contains(ShellPanel::Screen) <==> shell.active_view is Desktop
            &&& drawn.contains(ShellPanel::Toolbar)
            &&& drawn.contains(ShellPanel::GrabBar)
            &&& drawn.contains(ShellPanel::Fps) <==> shell.config.display.show_fps
            &&& drawn.contains(ShellPanel::Tray) <==> shell.tray_visible && shell.tray_panel
            &&& drawn.contains(ShellPanel::Settings) <==> shell.settings_visible
                && shell.settings_panel
            &&& drawn.contains(ShellPanel::Keyboard) <==> shell.keyboard.visible
                && shell.keyboard.panel
            &&& drawn.contains(ShellPanel::Notification) <==> shell.notification_panel
        }),
{
    lemma_is_drawn(shell, ShellPanel::Launcher);
    lemma_is_drawn(shell, ShellPanel::Screen);
    lemma_is_drawn(shell, ShellPanel::Toolbar);
    lemma_is_drawn(shell, ShellPanel::GrabBar);
    lemma_is_drawn(shell, ShellPanel::Fps);
    lemma_is_drawn(shell, ShellPanel::Tray);
    lemma_is_drawn(shell, ShellPanel::Settings);
    lemma_is_drawn(shell, ShellPanel::Keyboard);
    lemma_is_drawn(shell, ShellPanel::Notification);
}

/// One panel, or none.
spec fn only_if(shown: bool, panel: ShellPanel) -> Seq<ShellPanel> {
    if shown {
        seq![panel]
    } else {
        Seq::empty()
    }
}

proof fn lemma_only_if(shown: bool, panel: ShellPanel, other: ShellPanel)
    ensures
        only_if(shown, panel).contains(other) <==> shown && other == panel,
{
    if shown {
        assert(only_if(shown, panel)[0] == panel);
    }
}

proof fn lemma_is_drawn(shell: Shell, panel: ShellPanel)
    ensures
        shell.drawn_panels().contains(panel) <==> {
            ||| panel is Launcher && shell.active_view is Launcher
            ||| panel is Screen && shell.active_view is Desktop
            ||| panel is Toolbar
            ||| panel is GrabBar
            ||| panel is Fps && shell.config.display.show_fps
            ||| panel is Tray && shell.tray_visible && shell.tray_panel
            ||| panel is Settings && shell.settings_visible && shell.settings_panel
            ||| panel is Keyboard && shell.keyboard.visible && shell.keyboard.panel
            ||| panel is Notification && shell.notification_panel
        },
{
    let active = if shell.active_view is Launcher {
        ShellPanel::Launcher
    } else {
        ShellPanel::Screen
    };
    let first = seq![active, ShellPanel::Toolbar, ShellPanel::GrabBar];
    let fps = only_if(shell.config.display.show_fps, ShellPanel::Fps);
    let tray = only_if(shell.tray_visible && shell.tray_panel, ShellPanel::Tray);
    let settings = only_if(shell.settings_visible && shell.settings_panel, ShellPanel::Settings);
    let keyboard = only_if(shell.keyboard.visible && shell.keyboard.panel, ShellPanel::Keyboard);
    let notification = only_if(shell.notification_panel, ShellPanel::Notification);
    crate::input::lemma_in_sum(first + fps + tray + settings + keyboard, notification, panel);
    crate::input::lemma_in_sum(first + fps + tray + settings, keyboard, panel);
    crate::input::lemma_in_sum(first + fps + tray, settings, panel);
    crate::input::lemma_in_sum(first + fps, tray, panel);
    crate::input::lemma_in_sum(first, fps, panel);
    lemma_only_if(shell.config.display.show_fps, ShellPanel::Fps, panel);
    lemma_only_if(shell.tray_visible && shell.tray_panel, ShellPanel::Tray, panel);
    lemma_only_if(shell.settings_visible && shell.settings_panel, ShellPanel::Settings, panel);
    lemma_only_if(shell.keyboard.visible && shell.keyboard.panel, ShellPanel::Keyboard, panel);
    lemma_only_if(shell.notification_panel, ShellPanel::Notification, panel);
    assert(first[0] == active && first[1] == ShellPanel::Toolbar && first[2]
        == ShellPanel::GrabBar);
    assert(first.contains(panel) <==> panel == active || panel is Toolbar || panel is GrabBar);
    assert(shell.drawn_panels() == first + fps + tray + settings + keyboard + notification);
}

/// What the rays are offered: the panel that is active, the toolbar and the grab bar, and
/// the tray, the settings and the keyboard while they are visible and exist, in front of
/// them.
pub proof fn law_what_can_be_pointed_at(shell: Shell)
    ensures
        ({
            let panels = shell.pointer_panels();
            let n = panels.len();
            &&& panels.contains((PanelId(PANEL_ID_TRAY), false)) <==> shell.tray_visible
                && shell.tray_panel
            &&& panels.contains((PanelId(PANEL_ID_SETTINGS), false)) <==> shell.settings_visible
                && shell.settings_panel
            &&& panels.contains((PanelId(PANEL_ID_KEYBOARD), false)) <==> shell.keyboard.visible
                && shell.keyboard.panel
            &&& shell.active_view is Launcher ==> panels[n - 3] == (
                PanelId(PANEL_ID_LAUNCHER),
                false,
            )
            &&& shell.active_view is Desktop ==> panels[n - 3] == (
                PanelId(PANEL_ID_DESKTOP),
                false,
            )
            &&& panels[n - 2] == (PanelId(PANEL_ID_TOOLBAR), true)
            &&& panels[n - 1] == (PanelId(PANEL_ID_GRAB_BAR), true)
        }),
{
    lemma_pointer_contents(shell);
}

/// A frame's events are those of both hands: each hand's as the dispatcher gives them, the
/// left hand's first.
pub proof fn law_frame_events_are_those_of_the_hands(
    shell: Shell,
    controller: ControllerState,
    targets: Seq<PanelTarget>,
    event: (PanelId, InputEvent),
)
    ensures
        ({
            let events = shell.frame_events(controller, targets);
            let left = InputDispatcher::hand_events(
                shell.input.left,
                Hand::Left,
                controller.left,
                targets,
            );
            let right = InputDispatcher::hand_events(
                shell.input.right,
                Hand::Right,
                controller.right,
                targets,
            );
            &&& events.contains(event) <==> left.contains(event) || right.contains(event)
            &&& events.len() == left.len() + right.len()
            &&& events.take(left.len() as int) == left
            &&& events.skip(left.len() as int) == right
        }),
{
    let left = InputDispatcher::hand_events(
        shell.input.left,
        Hand::Left,
        controller.left,
        targets,
    );
    let right = InputDispatcher::hand_events(
        shell.input.right,
        Hand::Right,
        controller.right,
        targets,
    );
    crate::input::lemma_in_sum(left, right, event);
    assert(shell.frame_events(controller, targets).take(left.len() as int) =~= left);
    assert(shell.frame_events(controller, targets).skip(left.len() as int) =~= right);
}

/// After a frame's input a click waits on a panel exactly if one waited before or a hand
/// pressed the panel in this frame.
pub proof fn law_frame_clicks(
    shell: Shell,
    controller: ControllerState,
    targets: Seq<PanelTarget>,
)
    ensures
        ({
            let events = shell.frame_events(controller, targets);
            let before = shell.interaction;
            let after = shell.frame_interaction(controller, targets);
            let pressed = |id: u64| exists|i: int|
                0 <= i < events.len() && interaction::presses(#[trigger] events[i], id);
            &&& after.launcher.click_pending == (before.launcher.click_pending || pressed(
                PANEL_ID_LAUNCHER,
            ))
            &&& after.toolbar.click_pending == (before.toolbar.click_pending || pressed(
                PANEL_ID_TOOLBAR,
            ))
            &&& after.tray.click_pending == (before.tray.click_pending || pressed(PANEL_ID_TRAY))
            &&& after.settings.click_pending == (before.settings.click_pending || pressed(
                PANEL_ID_SETTINGS,
            ))
            &&& after.keyboard.click_pending == (before.keyboard.click_pending || pressed(
                PANEL_ID_KEYBOARD,
            ))
        }),
{
    let events = shell.frame_events(controller, targets);
    interaction::law_clicks_wait_for_presses(
        shell.interaction.frame_start(),
        shell.open_panels(),
        events,
    );
    interaction::law_frames_start_clean(shell.interaction);
}

/// After a frame's input the pointer of a panel is where a hand pointed at it last in this
/// frame, and gone if none did; that of a panel that does not exist is gone.
pub proof fn law_frame_pointers(
    shell: Shell,
    controller: ControllerState,
    targets: Seq<PanelTarget>,
    id: u64,
    i: int,
)
    requires
        ({
            let events = shell.frame_events(controller, targets);
            &&& -1 <= i < events.len()
            &&& i >= 0 ==> interaction::points(events[i], id)
            &&& forall|j: int|
                i < j < events.len() ==> !interaction::points(#[trigger] events[j], id)
        }),
    ensures
        ({
            let after = shell.frame_interaction(controller, targets);
            let at = if i >= 0 {
                interaction::point_of(shell.frame_events(controller, targets)[i])
            } else {
                None
            };
            &&& id == PANEL_ID_LAUNCHER ==> after.launcher.pointer == at
            &&& id == PANEL_ID_TOOLBAR ==> after.toolbar.pointer == at
            &&& id == PANEL_ID_TRAY && shell.tray_panel ==> after.tray.pointer == at
            &&& id == PANEL_ID_SETTINGS && shell.settings_panel ==> after.settings.pointer == at
            &&& id == PANEL_ID_KEYBOARD && shell.keyboard.panel ==> after.keyboard.pointer == at
            &&& !shell.tray_panel ==> after.tray.pointer is None
            &&& !shell.settings_panel ==> after.settings.pointer is None
            &&& !shell.keyboard.panel ==> after.keyboard.pointer is None
        }),
{
    interaction::law_pointers_show_the_last_point(
        shell.interaction,
        shell.open_panels(),
        shell.frame_events(controller, targets),
        id,
        i,
    );
}

/// A notification's border tells its level: blue for information, yellow for a warning and
/// green for a success.
pub proof fn law_borders_tell_the_level(level: NotificationLevel)
    ensures
        ({
            let (red, green, blue) = border_of(level);
            &&& level is Info <==> blue > green && blue > red
            &&& level is Warning <==> red > green && green > blue
            &&& level is Success <==> green > red && green > blue
        }),
{
}

/// What is no number lies in no zone but the last.
pub proof fn law_no_number_is_no_zone(u: Scalar)
    requires
        u.is_nan(),
    ensures
        zone_at(u) is Screenshot,
{
}

/// Where the active panel goes: with a leading hand, a controller panel forty centimetres
/// ahead of where that is held, and a theater panel level ahead of where it points from; any
/// other, and any without a hand, stays.
pub proof fn law_active_panel_follows_its_anchor(
    shell: Shell,
    controller: ControllerState,
    panel: LauncherPanel,
)
    ensures
        ({
            let hand = if controller.right.active {
                controller.right
            } else {
                controller.left
            };
            let at = shell.anchored(controller, panel);
            let anchor = shell.interaction.anchor;
            let level = Placement::level_spec(
                hand.aim_pos,
                hand.aim_dir,
                anchor->distance,
                anchor->scale,
            );
            let ahead = hand.aim_dir.times_spec(Scalar { bits: 0x3ecc_cccd });
            &&& !hand.active ==> at == panel
            &&& !(anchor is Controller) && !(anchor is Theater) ==> at == panel
            &&& hand.active && anchor is Controller ==> at == (LauncherPanel {
                center: hand.grip_pos.plus_spec(ahead),
                ..panel
            })
            &&& hand.active && anchor is Theater && level is None ==> at == panel
            &&& hand.active && anchor is Theater && level is Some ==> {
                &&& at.center == level->0.center
                &&& at.right_dir == level->0.right_dir
                &&& at.up_dir == level->0.up_dir
                &&& at.width == level->0.width
                &&& at.height == level->0.height
                &&& at.opacity == panel.opacity
            }
        }),
{
}

/// A screenshot is told as a success, with where it went.
pub proof fn law_screenshots_are_told(before: NotificationQueue, after: NotificationQueue)
    requires
        told_screenshot(before, after),
        before.wf(),
        before.limit() > 0,
    ensures
        after.entries().len() > 0,
        after.entries().last().level is Success,
        after.entries().last().title@ == "Screenshot"@,
        after.entries().last().body@ == "Saved to Pictures/ClearXR"@,
{
    law_what_is_told_can_be_read(
        before,
        after,
        NotificationLevel::Success,
        "Screenshot"@,
        "Saved to Pictures/ClearXR"@,
        0,
    );
}

/// The end of a frame leaves everything but what it is about: the panels, the input, the
/// games, the search and the configuration stay.
pub proof fn law_frame_end_keeps_the_rest(before: Shell, after: Shell)
    requires
        same_but_for_frame_end(before, after),
    ensures
        after.config == before.config,
        after.active_view == before.active_view,
        after.launcher_search == before.launcher_search,
        after.input == before.input,
        after.interaction == before.interaction,
        after.grab_bar_highlighted == before.grab_bar_highlighted,
        after.tray_panel == before.tray_panel && after.tray_visible == before.tray_visible,
        after.prev_menu_click == before.prev_menu_click,
        after.settings_panel == before.settings_panel,
        after.settings_visible == before.settings_visible,
        after.notification_panel == before.notification_panel,
        after.keyboard == before.keyboard,
        after.boundary == before.boundary,
        after.games == before.games,
        after.fps_frame_count == before.fps_frame_count,
        after.launcher_opacity == before.launcher_opacity,
        after.screen_opacity == before.screen_opacity,
{
}

/// How far in front a panel is drawn: the active panel behind its toolbar, its grab bar, the
/// frame counter, the tray, the settings, the keyboard and the notification.
pub open spec fn layer_of(panel: ShellPanel) -> int {
    match panel {
        ShellPanel::Launcher => 0,
        ShellPanel::Screen => 0,
        ShellPanel::Toolbar => 1,
        ShellPanel::GrabBar => 2,
        ShellPanel::Fps => 3,
        ShellPanel::Tray => 4,
        ShellPanel::Settings => 5,
        ShellPanel::Keyboard => 6,
        ShellPanel::Notification => 7,
    }
}

proof fn lemma_layers(a: Seq<ShellPanel>, shown: bool, panel: ShellPanel)
    requires
        forall|i: int, j: int|
            0 <= i < j < a.len() ==> layer_of(#[trigger] a[i]) < layer_of(#[trigger] a[j]),
        forall|i: int| 0 <= i < a.len() ==> layer_of(#[trigger] a[i]) < layer_of(panel),
    ensures
        ({
            let b = a + only_if(shown, panel);
            &&& forall|i: int, j: int|
                0 <= i < j < b.len() ==> layer_of(#[trigger] b[i]) < layer_of(#[trigger] b[j])
            &&& forall|i: int| 0 <= i < b.len() ==> layer_of(#[trigger] b[i]) <= layer_of(panel)
        }),
{
}

/// Panels are drawn from back to front.
pub proof fn law_panels_are_drawn_back_to_front(shell: Shell, i: int, j: int)
    requires
        0 <= i < j < shell.drawn_panels().len(),
    ensures
        layer_of(shell.drawn_panels()[i]) < layer_of(shell.drawn_panels()[j]),
{
    let active = if shell.active_view is Launcher {
        ShellPanel::Launcher
    } else {
        ShellPanel::Screen
    };
    let first = seq![active, ShellPanel::Toolbar, ShellPanel::GrabBar];
    let fps = first + only_if(shell.config.display.show_fps, ShellPanel::Fps);
    let tray = fps + only_if(shell.tray_visible && shell.tray_panel, ShellPanel::Tray);
    let settings = tray + only_if(
        shell.settings_visible && shell.settings_panel,
        ShellPanel::Settings,
    );
    let keyboard = settings + only_if(shell.keyboard@.shown(), ShellPanel::Keyboard);
    let all = keyboard + only_if(shell.notification_panel, ShellPanel::Notification);
    lemma_layers(first, shell.config.display.show_fps, ShellPanel::Fps);
    lemma_layers(fps, shell.tray_visible && shell.tray_panel, ShellPanel::Tray);
    lemma_layers(tray, shell.settings_visible && shell.settings_panel, ShellPanel::Settings);
    lemma_layers(settings, shell.keyboard@.shown(), ShellPanel::Keyboard);
    lemma_layers(keyboard, shell.notification_panel, ShellPanel::Notification);
    assert(shell.drawn_panels() =~= all);
}

/// How far behind a panel is offered to the rays: the tray in front, then the settings, the
/// keyboard, the active panel, the toolbar and the grab bar.
pub open spec fn depth_of(id: PanelId) -> int {
    if id.0 == PANEL_ID_TRAY {
        0
    } else if id.0 == PANEL_ID_SETTINGS {
        1
    } else if id.0 == PANEL_ID_KEYBOARD {
        2
    } else if id.0 == PANEL_ID_TOOLBAR {
        4
    } else if id.0 == PANEL_ID_GRAB_BAR {
        5
    } else {
        3
    }
}

/// Panels are offered to the rays from front to back.
pub proof fn law_panels_are_offered_front_to_back(shell: Shell, i: int, j: int)
    requires
        0 <= i < j < shell.pointer_panels().len(),
    ensures
        depth_of(shell.pointer_panels()[i].0) < depth_of(shell.pointer_panels()[j].0),
{
}

} // verus!
