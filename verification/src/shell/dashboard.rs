//! Unified Dashboard panel for ClearXR: one draggable panel with tabs for the
//! launcher, the desktop and the settings.

use super::boundary::Boundary;
use super::interaction::Uv;
use super::launcher::{by_name, sort_games};
use super::notifications::{
    unexpired, Duration, Notification, NotificationLevel, NotificationQueue,
};
use super::{edited, told, SettingsEdit, FPS_INTERVAL, MAX_NOTIFICATIONS};
use crate::app::game_scanner::{game_views, Game};
use crate::app::LaunchedApp;
use crate::config::Config;
use crate::geometry::{Vec3, ONE_BITS};
use crate::input::Hand;
use crate::panel::{PanelAnchor, EYE_HEIGHT};
use crate::scalar::Scalar;
use crate::text::same_text;
use vstd::prelude::*;

verus! {

/// Panel ID for the main dashboard overlay.
pub const DASHBOARD_PANEL_ID: u64 = 1;

/// Panel ID for the desktop screen-capture panel.
pub const SCREEN_PANEL_ID: u64 = 2;

/// 2.5, how far from the head the panel starts.
pub const START_DISTANCE: u32 = 0x4020_0000;

/// Active tab in the dashboard UI.
#[derive(Clone, Copy, Debug, PartialEq, Eq, Structural)]
pub enum DashboardTab {
    /// Game launcher grid.
    Launcher,
    /// Desktop screen mirror.
    Desktop,
    /// Configuration settings.
    Settings,
}

/// Actions the dashboard can produce each frame.
#[derive(Clone, Copy, Debug, PartialEq, Eq, Structural)]
pub enum DashboardAction {
    /// No action.
    Idle,
    /// Launch a Steam game by app ID.
    LaunchGame(u32),
    /// Toggle dashboard visibility.
    ToggleVisibility,
    /// Save the current configuration to disk.
    SaveConfig,
    /// Capture a screenshot.
    Screenshot,
    /// Cycle the panel anchor mode.
    CycleAnchor,
}

/// A panel of the dashboard, for drawing.
#[derive(Clone, Copy, Debug, PartialEq, Eq, Structural)]
pub enum DashboardPanel {
    Screen,
    Main,
}

/// How a grab began: where the panel and the controller were.
#[derive(Clone, Copy, Debug, PartialEq, Eq, Structural)]
pub struct GrabStartPose {
    /// Panel yaw angle (radians).
    pub initial_yaw: Scalar,
    /// Panel pitch angle (radians).
    pub initial_pitch: Scalar,
    /// Panel distance from head.
    pub initial_distance: Scalar,
    /// Controller aim yaw.
    pub controller_start_yaw: Scalar,
    /// Controller aim pitch.
    pub controller_start_pitch: Scalar,
    /// Controller distance from head.
    pub controller_start_distance: Scalar,
    /// Panel width (for distance-based scaling).
    pub base_width: Scalar,
    /// Panel height (for distance-based scaling).
    pub base_height: Scalar,
}

impl GrabStartPose {
    /// Straight ahead, at the starting distance and size.
    pub open spec fn initial() -> GrabStartPose {
        let zero = Scalar { bits: 0 };
        GrabStartPose {
            initial_yaw: zero,
            initial_pitch: zero,
            initial_distance: Scalar { bits: START_DISTANCE },
            controller_start_yaw: zero,
            controller_start_pitch: zero,
            controller_start_distance: zero,
            base_width: Scalar { bits: EYE_HEIGHT },
            base_height: Scalar { bits: ONE_BITS },
        }
    }
}

/// What a frame needs before the interface runs.
#[derive(Clone, Copy, Debug, PartialEq, Eq, Structural)]
pub struct FrameStart {
    /// Whether a new picture of the desktop is to be staged.
    pub capture: bool,
    /// The frames per second, when they are due.
    pub rate: Option<Scalar>,
    /// The click for the interface.
    pub click: bool,
}

/// What the interface returned.
#[derive(Clone, Debug)]
pub struct FrameResult {
    /// What is searched for now.
    pub search: String,
    /// The tab clicked, or the active one.
    pub new_tab: DashboardTab,
    /// What the settings tab edited, while it is shown.
    pub edit: Option<SettingsEdit>,
    /// The game card clicked.
    pub launch: Option<u32>,
}

/// The state of the dashboard.
pub struct Dashboard {
    /// Currently selected tab.
    pub active_tab: DashboardTab,
    /// Whether the dashboard is visible.
    pub visible: bool,
    pub click_pending: bool,
    /// Where the interface sees the pointer.
    pub pointer: Option<Uv>,
    /// Discovered games, by name.
    pub games: Vec<Game>,
    pub search: String,
    /// User-editable configuration (panel opacity, default view, etc.).
    pub config: Config,
    /// Grab offset from controller to panel center (None = not grabbed).
    pub grab_offset: Option<Vec3>,
    /// The hand currently grabbing.
    pub grab_hand: Option<Hand>,
    pub grab_pose: GrabStartPose,
    /// Notification toast queue.
    pub notifications: NotificationQueue,
    /// Currently launched game, if any.
    pub launched_app: Option<LaunchedApp>,
    pub fps_frame_count: u32,
    /// Whether a screenshot was requested this frame.
    pub screenshot_requested: bool,
    /// Previous frame's both-triggers state (for edge detection).
    pub prev_both_triggers: bool,
    /// Current panel anchor mode.
    pub anchor: PanelAnchor,
    /// Play-space boundary configuration.
    pub boundary: Boundary,
    /// Whether the boundary proximity warning has been shown.
    pub boundary_warning_shown: bool,
}

/// The tab to start with: the desktop if configured, else the launcher.
pub open spec fn starting_tab(default_view: Seq<char>) -> DashboardTab {
    if default_view == "desktop"@ {
        DashboardTab::Desktop
    } else {
        DashboardTab::Launcher
    }
}

impl Dashboard {
    /// Create the dashboard's state, with the installed games in any order.
    pub fn new(config: Config, games: Vec<Game>) -> (dashboard: Self)
        ensures
            dashboard.active_tab == starting_tab(config.shell.default_view@),
            dashboard.visible,
            !dashboard.click_pending,
            dashboard.pointer is None,
            game_views(dashboard.games@) == by_name(game_views(games@)),
            dashboard.search@.len() == 0,
            dashboard.config == config,
            dashboard.grab_offset is None,
            dashboard.grab_hand is None,
            dashboard.grab_pose == GrabStartPose::initial(),
            dashboard.notifications.entries().len() == 0,
            dashboard.notifications.limit() == MAX_NOTIFICATIONS,
            dashboard.notifications.limit() == 3,
            dashboard.notifications.wf(),
            dashboard.launched_app is None,
            dashboard.fps_frame_count == 0,
            !dashboard.screenshot_requested,
            !dashboard.prev_both_triggers,
            dashboard.anchor == PanelAnchor::World,
            dashboard.boundary == Boundary::initial(),
            !dashboard.boundary_warning_shown,
    {
        let active_tab = if same_text(config.shell.default_view.as_str(), "desktop") {
            DashboardTab::Desktop
        } else {
            DashboardTab::Launcher
        };
        let zero = Scalar { bits: 0 };
        let grab_pose = GrabStartPose {
            initial_yaw: zero,
            initial_pitch: zero,
            initial_distance: Scalar { bits: START_DISTANCE },
            controller_start_yaw: zero,
            controller_start_pitch: zero,
            controller_start_distance: zero,
            base_width: Scalar { bits: EYE_HEIGHT },
            base_height: Scalar { bits: ONE_BITS },
        };
        Dashboard {
            active_tab,
            visible: true,
            click_pending: false,
            pointer: None,
            games: sort_games(games),
            search: String::new(),
            config,
            grab_offset: None,
            grab_hand: None,
            grab_pose,
            notifications: NotificationQueue::new(MAX_NOTIFICATIONS),
            launched_app: None,
            fps_frame_count: 0,
            screenshot_requested: false,
            prev_both_triggers: false,
            anchor: PanelAnchor::World,
            boundary: Boundary::default(),
            boundary_warning_shown: false,
        }
    }

    /// Begin a frame, `elapsed` seconds after frames were last counted: let
    /// expired notifications go, count the frame, and take the click that waits.
    pub fn begin_render(&mut self, elapsed: Scalar) -> (start: FrameStart)
        requires
            old(self).fps_frame_count < u32::MAX,
        ensures
            ({
                let due = (Scalar { bits: FPS_INTERVAL }).at_most(elapsed);
                let counted = (old(self).fps_frame_count + 1) as u32;
                &&& start == (FrameStart {
                    capture: old(self).active_tab == DashboardTab::Desktop,
                    rate: if due {
                        Some(Scalar::of_count(counted as int).over(elapsed))
                    } else {
                        None
                    },
                    click: old(self).click_pending,
                })
                &&& *final(self) == (Dashboard {
                    fps_frame_count: if due {
                        0
                    } else {
                        counted
                    },
                    click_pending: false,
                    notifications: final(self).notifications,
                    ..*old(self)
                })
            }),
            start.rate is Some <==> (Scalar { bits: 0x3f00_0000 }).at_most(elapsed),
            start.rate is Some ==> final(self).fps_frame_count == 0,
            start.rate is None ==> final(self).fps_frame_count == old(self).fps_frame_count + 1,
            exists|ages: Seq<Duration>|
                ages.len() == old(self).notifications.entries().len()
                    && final(self).notifications.entries() == #[trigger] unexpired(
                    old(self).notifications.entries(),
                    ages,
                ),
            final(self).notifications.limit() == old(self).notifications.limit(),
            old(self).notifications.wf() ==> final(self).notifications.wf(),
    {
        let capture = self.active_tab == DashboardTab::Desktop;
        self.notifications.tick();
        self.fps_frame_count = self.fps_frame_count + 1;
        let mut rate: Option<Scalar> = None;
        if elapsed.reaches(Scalar { bits: FPS_INTERVAL }) {
            rate = Some(Scalar::from_count(self.fps_frame_count as u128).quotient(elapsed));
            self.fps_frame_count = 0;
        }
        let click = self.click_pending;
        self.click_pending = false;
        FrameStart { capture, rate, click }
    }

    /// The actions that an interface result asks for.
    pub open spec fn actions_of(result: FrameResult) -> Seq<DashboardAction> {
        let save = match result.edit {
            Some(edit) => if edit.save {
                seq![DashboardAction::SaveConfig]
            } else {
                Seq::empty()
            },
            None => Seq::empty(),
        };
        let launch = match result.launch {
            Some(app_id) => seq![DashboardAction::LaunchGame(app_id)],
            None => Seq::empty(),
        };
        save + launch
    }

    /// Apply what the interface returned: the search, the tab, the settings.
    /// Saving comes with a notification. Returns the actions left to do, saving
    /// first.
    pub fn finish_render(&mut self, result: FrameResult) -> (actions: Vec<DashboardAction>)
        ensures
            actions@ == Dashboard::actions_of(result),
            *final(self) == (Dashboard {
                search: result.search,
                active_tab: result.new_tab,
                config: final(self).config,
                notifications: final(self).notifications,
                ..*old(self)
            }),
            match result.edit {
                Some(edit) => {
                    &&& edited(old(self).config, final(self).config, edit)
                    &&& edit.save ==> told(
                        old(self).notifications,
                        final(self).notifications,
                        NotificationLevel::Success,
                        "Settings"@,
                        "Saved"@,
                    )
                    &&& !edit.save ==> final(self).notifications == old(self).notifications
                },
                None => final(self).config == old(self).config && final(self).notifications == old(
                    self,
                ).notifications,
            },
    {
        let mut actions: Vec<DashboardAction> = Vec::new();
        let ghost given = result;
        let FrameResult { search, new_tab, edit, launch } = result;
        self.search = search;
        self.active_tab = new_tab;
        if let Some(edit) = edit {
            let save = edit.save;
            super::edit_config(&mut self.config, edit);
            if save {
                actions.push(DashboardAction::SaveConfig);
                let notification = Notification::success("Settings", "Saved");
                self.notifications.push(notification);
                assert(notification.says(NotificationLevel::Success, "Settings"@, "Saved"@));
            }
        }
        if let Some(app_id) = launch {
            actions.push(DashboardAction::LaunchGame(app_id));
        }
        assert(actions@ =~= Dashboard::actions_of(given));
        actions
    }

    /// Inject pointer position from controller ray-cast (UV coordinates).
    pub fn pointer_move(&mut self, u: Scalar, v: Scalar)
        ensures
            *final(self) == (Dashboard { pointer: Some(Uv { u, v }), ..*old(self) }),
    {
        self.pointer = Some(Uv { u, v });
    }

    /// Clear pointer state (call at start of each frame).
    pub fn pointer_leave(&mut self)
        ensures
            *final(self) == (Dashboard { pointer: None, ..*old(self) }),
    {
        self.pointer = None;
    }

    /// Signal a click on the dashboard.
    pub fn click(&mut self)
        ensures
            *final(self) == (Dashboard { click_pending: true, ..*old(self) }),
    {
        self.click_pending = true;
    }

    /// The panels to draw, in order: the screen behind the main panel while the
    /// desktop tab is active, and nothing while the dashboard is hidden.
    pub open spec fn drawn_panels(self) -> Seq<DashboardPanel> {
        if !self.visible {
            Seq::empty()
        } else if self.active_tab == DashboardTab::Desktop {
            seq![DashboardPanel::Screen, DashboardPanel::Main]
        } else {
            seq![DashboardPanel::Main]
        }
    }

    /// The panels that should be drawn this frame, in order.
    pub fn panels(&self) -> (panels: Vec<DashboardPanel>)
        ensures
            panels@ == self.drawn_panels(),
    {
        let mut panels: Vec<DashboardPanel> = Vec::new();
        if self.visible {
            if self.active_tab == DashboardTab::Desktop {
                panels.push(DashboardPanel::Screen);
            }
            panels.push(DashboardPanel::Main);
        }
        assert(panels@ =~= self.drawn_panels());
        panels
    }
}

/// The main panel is drawn last, in front of the screen, exactly while the
/// dashboard is visible.
pub proof fn law_main_panel_in_front(dashboard: Dashboard)
    ensures
        dashboard.visible <==> dashboard.drawn_panels().len() > 0,
        dashboard.visible ==> dashboard.drawn_panels().last() == DashboardPanel::Main,
{
}

/// At most one game is launched and the configuration saved at most once per
/// frame, and saving comes first.
pub proof fn law_actions_of_a_frame(result: FrameResult)
    ensures
        Dashboard::actions_of(result).len() <= 2,
        Dashboard::actions_of(result).len() == 2 ==> Dashboard::actions_of(result)[0]
            == DashboardAction::SaveConfig && Dashboard::actions_of(result)[1] is LaunchGame,
{
}

/// The configuration is saved exactly when saving was asked for, and a game is launched
/// exactly when its card was clicked; nothing else is done.
pub proof fn law_actions_are_those_asked_for(result: FrameResult, action: DashboardAction)
    ensures
        ({
            let actions = Dashboard::actions_of(result);
            let saves = result.edit is Some && result.edit->0.save;
            &&& actions.contains(DashboardAction::SaveConfig) <==> saves
            &&& actions.contains(action) && !(action is SaveConfig) ==> result.launch is Some
                && action == DashboardAction::LaunchGame(result.launch->0)
            &&& result.launch matches Some(id) ==> actions.contains(
                DashboardAction::LaunchGame(id),
            )
        }),
{
    let actions = Dashboard::actions_of(result);
    if result.edit is Some && result.edit->0.save {
        assert(actions[0] == DashboardAction::SaveConfig);
    }
    if result.launch is Some {
        assert(actions.last() == DashboardAction::LaunchGame(result.launch->0));
        assert(actions[actions.len() - 1] == actions.last());
    }
}

/// The desktop is drawn exactly while its tab is open on a visible dashboard. The dashboard
/// starts on the desktop exactly if that is configured, else on the launcher.
pub proof fn law_desktop_is_drawn_on_its_tab(dashboard: Dashboard, default_view: Seq<char>)
    ensures
        ({
            let drawn = dashboard.drawn_panels();
            &&& drawn.contains(DashboardPanel::Screen) <==> dashboard.visible
                && dashboard.active_tab is Desktop
            &&& drawn.contains(DashboardPanel::Main) <==> dashboard.visible
            &&& drawn.no_duplicates()
            &&& default_view == "desktop"@ ==> starting_tab(default_view) is Desktop
            &&& default_view != "desktop"@ ==> starting_tab(default_view) is Launcher
        }),
{
    let drawn = dashboard.drawn_panels();
    if dashboard.visible {
        assert(drawn[drawn.len() - 1] == DashboardPanel::Main);
        if dashboard.active_tab is Desktop {
            assert(drawn[0] == DashboardPanel::Screen);
        }
    }
}

/// Before the first grab the panel is straight ahead, two and a half metres away and at its
/// own size.
pub proof fn law_new_grab_pose()
    ensures
        ({
            let pose = GrabStartPose::initial();
            &&& pose.initial_yaw.bits == 0
            &&& pose.initial_pitch.bits == 0
            &&& pose.initial_distance.bits == 0x4020_0000
            &&& pose.controller_start_yaw.bits == 0
            &&& pose.controller_start_pitch.bits == 0
            &&& pose.controller_start_distance.bits == 0
            &&& pose.base_width.bits == 0x3fcc_cccd
            &&& pose.base_height.bits == 0x3f80_0000
        }),
{
}

} // verus!
