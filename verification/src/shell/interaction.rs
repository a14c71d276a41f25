//! What input does to the shell's panels: pointers, clicks, grabs, rays and
//! haptic pulses.

use crate::geometry::{Quat, Vec3};
use crate::input::{Button, ControllerState, Hand, HandState, InputEvent};
use crate::panel::{PanelAnchor, PanelId, THEATER_DISTANCE, THEATER_SCALE};
use crate::scalar::Scalar;
use crate::seconds::{law_times_one, lemma_count};
use vstd::prelude::*;

verus! {

/// The launcher panel.
pub const PANEL_ID_LAUNCHER: u64 = 1;

/// The desktop panel.
pub const PANEL_ID_DESKTOP: u64 = 2;

/// The toolbar below the active panel.
pub const PANEL_ID_TOOLBAR: u64 = 3;

/// The grab bar below the toolbar.
pub const PANEL_ID_GRAB_BAR: u64 = 4;

/// The frame counter.
pub const PANEL_ID_FPS: u64 = 5;

/// The system tray.
pub const PANEL_ID_TRAY: u64 = 6;

/// The settings panel.
pub const PANEL_ID_SETTINGS: u64 = 7;

/// The virtual keyboard.
pub const PANEL_ID_KEYBOARD: u64 = 8;

/// 0.3, the squeeze or trigger value above which a grab is held.
pub const HOLD_THRESHOLD: u32 = 0x3e99_999a;

/// A single haptic vibration pulse request.
#[derive(Clone, Copy, Debug, PartialEq, Eq, Structural)]
pub struct HapticPulse {
    pub duration_ms: u32,
    pub frequency: Scalar,
    pub amplitude: Scalar,
}

impl HapticPulse {
    /// A click: 20 ms at 200 Hz, amplitude 0.2.
    pub open spec fn click_spec() -> HapticPulse {
        HapticPulse {
            duration_ms: 20,
            frequency: Scalar { bits: 0x4348_0000 },
            amplitude: Scalar { bits: 0x3e4c_cccd },
        }
    }

    /// A panel taken hold of: 50 ms at 200 Hz, amplitude 0.6.
    pub open spec fn grab_spec() -> HapticPulse {
        HapticPulse {
            duration_ms: 50,
            frequency: Scalar { bits: 0x4348_0000 },
            amplitude: Scalar { bits: 0x3f19_999a },
        }
    }

    /// A panel let go: 30 ms at 150 Hz, amplitude 0.3.
    pub open spec fn release_spec() -> HapticPulse {
        HapticPulse {
            duration_ms: 30,
            frequency: Scalar { bits: 0x4316_0000 },
            amplitude: Scalar { bits: 0x3e99_999a },
        }
    }

    /// A click.
    pub fn click() -> (pulse: HapticPulse)
        ensures
            pulse == HapticPulse::click_spec(),
    {
        HapticPulse {
            duration_ms: 20,
            frequency: Scalar { bits: 0x4348_0000 },
            amplitude: Scalar { bits: 0x3e4c_cccd },
        }
    }

    /// A panel taken hold of.
    pub fn grab() -> (pulse: HapticPulse)
        ensures
            pulse == HapticPulse::grab_spec(),
    {
        HapticPulse {
            duration_ms: 50,
            frequency: Scalar { bits: 0x4348_0000 },
            amplitude: Scalar { bits: 0x3f19_999a },
        }
    }

    /// A panel let go.
    pub fn release() -> (pulse: HapticPulse)
        ensures
            pulse == HapticPulse::release_spec(),
    {
        HapticPulse {
            duration_ms: 30,
            frequency: Scalar { bits: 0x4316_0000 },
            amplitude: Scalar { bits: 0x3e99_999a },
        }
    }
}

/// A point on a panel.
#[derive(Clone, Copy, Debug, PartialEq, Eq, Structural)]
pub struct Uv {
    pub u: Scalar,
    pub v: Scalar,
}

impl Uv {
    /// The point in the pixels of a panel this wide and high.
    pub open spec fn scaled(self, width: int, height: int) -> Uv {
        Uv { u: self.u.times(Scalar::of_count(width)), v: self.v.times(Scalar::of_count(height)) }
    }

    /// The point in the pixels of a panel this wide and high.
    pub fn in_pixels(self, width: u32, height: u32) -> (at: Uv)
        ensures
            at == self.scaled(width as int, height as int),
    {
        Uv {
            u: self.u.product(Scalar::from_count(width as u128)),
            v: self.v.product(Scalar::from_count(height as u128)),
        }
    }
}

/// What input has done to one panel's surface.
#[derive(Clone, Copy, Debug, PartialEq, Eq, Structural)]
pub struct Surface {
    /// Where the panel's interface sees the pointer.
    pub pointer: Option<Uv>,
    /// Where the panel shows the pointer's dot.
    pub dot: Option<Uv>,
    /// Whether a click waits for the panel's interface.
    pub click_pending: bool,
}

impl Surface {
    /// Not pointed at, not clicked.
    pub open spec fn untouched() -> Surface {
        Surface { pointer: None, dot: None, click_pending: false }
    }

    /// Not pointed at, not clicked.
    pub fn new() -> (surface: Surface)
        ensures
            surface == Surface::untouched(),
    {
        Surface { pointer: None, dot: None, click_pending: false }
    }

    /// The surface without its pointer and its dot.
    pub open spec fn left(self) -> Surface {
        Surface { pointer: None, dot: None, ..self }
    }

    /// Take the pointer and its dot away.
    pub fn leave(&mut self)
        ensures
            *final(self) == old(self).left(),
    {
        self.pointer = None;
        self.dot = None;
    }

    /// The surface with pointer and dot at this point.
    pub open spec fn pointed_at(self, at: Uv) -> Surface {
        Surface { pointer: Some(at), dot: Some(at), ..self }
    }

    /// The surface with a click waiting.
    pub open spec fn clicked(self) -> Surface {
        Surface { click_pending: true, ..self }
    }
}

/// Which of the panels that come and go exist.
#[derive(Clone, Copy, Debug, PartialEq, Eq, Structural)]
pub struct OpenPanels {
    pub tray: bool,
    pub settings: bool,
    pub keyboard: bool,
}

/// Mouse input for the captured desktop.
#[derive(Clone, Copy, Debug, PartialEq, Eq, Structural)]
pub enum MouseAction {
    Move(Uv),
    Click(Uv),
}

/// The anchor after this one on the toolbar: world and theater in turn. Every
/// other mode leads back to the world.
pub open spec fn next_anchor(current: PanelAnchor) -> PanelAnchor {
    match current {
        PanelAnchor::World => PanelAnchor::default_theater(),
        _ => PanelAnchor::World,
    }
}

/// Cycle through anchor modes: World -> Theater -> World.
pub fn cycle_anchor(current: PanelAnchor) -> (anchor: PanelAnchor)
    ensures
        anchor == next_anchor(current),
{
    match current {
        PanelAnchor::World => PanelAnchor::Theater {
            distance: Scalar { bits: THEATER_DISTANCE },
            scale: Scalar { bits: THEATER_SCALE },
        },
        _ => PanelAnchor::World,
    }
}

/// Everything that input events change.
#[derive(Clone, Copy, Debug, PartialEq, Eq, Structural)]
pub struct Interaction {
    pub launcher: Surface,
    pub toolbar: Surface,
    pub tray: Surface,
    pub settings: Surface,
    pub keyboard: Surface,
    /// The hand that holds the active panel.
    pub grab_hand: Option<Hand>,
    /// What the active panel is attached to.
    pub anchor: PanelAnchor,
    /// Distance from the left controller to the nearest panel hit (0 = no hit).
    pub left_ray: Scalar,
    /// Distance from the right controller to the nearest panel hit (0 = no hit).
    pub right_ray: Scalar,
    pub haptic_left: Option<HapticPulse>,
    pub haptic_right: Option<HapticPulse>,
    /// Whether a ray met the grab bar this frame.
    pub bar_hit: bool,
    /// Where the grip was when a grab started this frame.
    pub grab_start: Option<Vec3>,
}

/// The ray length with one more hit at this distance: the first hit counts, and
/// then every closer one.
pub open spec fn shorter_ray(ray: Scalar, distance: Scalar) -> Scalar {
    if ray.same_number(Scalar { bits: 0 }) || distance.below(ray) {
        distance
    } else {
        ray
    }
}

fn shorten_ray(ray: Scalar, distance: Scalar) -> (shorter: Scalar)
    ensures
        shorter == shorter_ray(ray, distance),
{
    if ray.equals(Scalar { bits: 0 }) || distance.less(ray) {
        distance
    } else {
        ray
    }
}

impl Interaction {
    /// Nothing touched, the panel in the world.
    pub open spec fn initial() -> Interaction {
        Interaction {
            launcher: Surface::untouched(),
            toolbar: Surface::untouched(),
            tray: Surface::untouched(),
            settings: Surface::untouched(),
            keyboard: Surface::untouched(),
            grab_hand: None,
            anchor: PanelAnchor::World,
            left_ray: Scalar { bits: 0 },
            right_ray: Scalar { bits: 0 },
            haptic_left: None,
            haptic_right: None,
            bar_hit: false,
            grab_start: None,
        }
    }

    /// Nothing touched, the panel in the world.
    pub fn new() -> (interaction: Interaction)
        ensures
            interaction == Interaction::initial(),
    {
        Interaction {
            launcher: Surface::new(),
            toolbar: Surface::new(),
            tray: Surface::new(),
            settings: Surface::new(),
            keyboard: Surface::new(),
            grab_hand: None,
            anchor: PanelAnchor::World,
            left_ray: Scalar { bits: 0 },
            right_ray: Scalar { bits: 0 },
            haptic_left: None,
            haptic_right: None,
            bar_hit: false,
            grab_start: None,
        }
    }

    /// The start of a frame: pointers and their dots leave every surface, and nothing
    /// has been hit or felt yet. Clicks that still wait, the
    /// grab and the anchor stay.
    pub open spec fn frame_start(self) -> Interaction {
        Interaction {
            launcher: self.launcher.left(),
            toolbar: self.toolbar.left(),
            tray: self.tray.left(),
            settings: self.settings.left(),
            keyboard: self.keyboard.left(),
            left_ray: Scalar { bits: 0 },
            right_ray: Scalar { bits: 0 },
            haptic_left: None,
            haptic_right: None,
            bar_hit: false,
            grab_start: None,
            ..self
        }
    }

    /// The start of a frame.
    pub fn begin(&mut self)
        ensures
            *final(self) == old(self).frame_start(),
    {
        self.launcher.leave();
        self.toolbar.leave();
        self.tray.leave();
        self.settings.leave();
        self.keyboard.leave();
        self.left_ray = Scalar { bits: 0 };
        self.right_ray = Scalar { bits: 0 };
        self.haptic_left = None;
        self.haptic_right = None;
        self.bar_hit = false;
        self.grab_start = None;
    }

    /// With a pulse for one hand, in place of an earlier one this frame.
    pub open spec fn with_pulse(self, hand: Hand, pulse: HapticPulse) -> Interaction {
        match hand {
            Hand::Left => Interaction { haptic_left: Some(pulse), ..self },
            Hand::Right => Interaction { haptic_right: Some(pulse), ..self },
        }
    }

    fn pulse(&mut self, hand: Hand, pulse: HapticPulse)
        ensures
            *final(self) == old(self).with_pulse(hand, pulse),
    {
        match hand {
            Hand::Left => {
                self.haptic_left = Some(pulse);
            },
            Hand::Right => {
                self.haptic_right = Some(pulse);
            },
        }
    }

    /// After a hand's ray met a panel.
    pub open spec fn after_move(
        self,
        open: OpenPanels,
        id: PanelId,
        hand: Hand,
        at: Uv,
        distance: Scalar,
    ) -> Interaction {
        let aimed = match hand {
            Hand::Left => Interaction { left_ray: shorter_ray(self.left_ray, distance), ..self },
            Hand::Right => Interaction { right_ray: shorter_ray(self.right_ray, distance), ..self },
        };
        if id.0 == PANEL_ID_LAUNCHER {
            Interaction { launcher: self.launcher.pointed_at(at), ..aimed }
        } else if id.0 == PANEL_ID_TOOLBAR {
            Interaction { toolbar: Surface { pointer: Some(at), ..self.toolbar }, ..aimed }
        } else if id.0 == PANEL_ID_GRAB_BAR {
            Interaction { bar_hit: true, ..aimed }
        } else if id.0 == PANEL_ID_TRAY && open.tray {
            Interaction { tray: self.tray.pointed_at(at), ..aimed }
        } else if id.0 == PANEL_ID_SETTINGS && open.settings {
            Interaction { settings: self.settings.pointed_at(at), ..aimed }
        } else if id.0 == PANEL_ID_KEYBOARD && open.keyboard {
            Interaction { keyboard: self.keyboard.pointed_at(at), ..aimed }
        } else {
            aimed
        }
    }

    fn pointer_moved(
        &mut self,
        open: OpenPanels,
        id: PanelId,
        hand: Hand,
        at: Uv,
        distance: Scalar,
    )
        ensures
            *final(self) == old(self).after_move(open, id, hand, at, distance),
    {
        match hand {
            Hand::Left => {
                self.left_ray = shorten_ray(self.left_ray, distance);
            },
            Hand::Right => {
                self.right_ray = shorten_ray(self.right_ray, distance);
            },
        }
        let id: u64 = id.0;
        if id == PANEL_ID_LAUNCHER {
            self.launcher.dot = Some(at);
            self.launcher.pointer = Some(at);
        } else if id == PANEL_ID_TOOLBAR {
            self.toolbar.pointer = Some(at);
        } else if id == PANEL_ID_GRAB_BAR {
            self.bar_hit = true;
        } else if id == PANEL_ID_TRAY {
            if open.tray {
                self.tray.dot = Some(at);
                self.tray.pointer = Some(at);
            }
        } else if id == PANEL_ID_SETTINGS {
            if open.settings {
                self.settings.dot = Some(at);
                self.settings.pointer = Some(at);
            }
        } else if id == PANEL_ID_KEYBOARD {
            if open.keyboard {
                self.keyboard.pointer = Some(at);
                self.keyboard.dot = Some(at);
            }
        }
    }

    /// After a hand's trigger was pulled at a panel: the hand feels it, and a
    /// click waits for the panel's interface.
    pub open spec fn after_down(self, id: PanelId, hand: Hand) -> Interaction {
        let felt = self.with_pulse(hand, HapticPulse::click_spec());
        if id.0 == PANEL_ID_LAUNCHER {
            Interaction { launcher: self.launcher.clicked(), ..felt }
        } else if id.0 == PANEL_ID_TOOLBAR {
            Interaction { toolbar: self.toolbar.clicked(), ..felt }
        } else if id.0 == PANEL_ID_TRAY {
            Interaction { tray: self.tray.clicked(), ..felt }
        } else if id.0 == PANEL_ID_SETTINGS {
            Interaction { settings: self.settings.clicked(), ..felt }
        } else if id.0 == PANEL_ID_KEYBOARD {
            Interaction { keyboard: self.keyboard.clicked(), ..felt }
        } else {
            felt
        }
    }

    fn pointer_down(&mut self, id: PanelId, hand: Hand)
        ensures
            *final(self) == old(self).after_down(id, hand),
    {
        let id: u64 = id.0;
        if id == PANEL_ID_LAUNCHER {
            self.launcher.click_pending = true;
        } else if id == PANEL_ID_TOOLBAR {
            self.toolbar.click_pending = true;
        } else if id == PANEL_ID_TRAY {
            self.tray.click_pending = true;
        } else if id == PANEL_ID_SETTINGS {
            self.settings.click_pending = true;
        } else if id == PANEL_ID_KEYBOARD {
            self.keyboard.click_pending = true;
        }
        self.pulse(hand, HapticPulse::click());
    }

    /// After a grip on a panel: the grab bar and the toolbar move the active
    /// panel, unless a hand holds it already.
    pub open spec fn after_grab(self, id: PanelId, hand: Hand, grip_pos: Vec3) -> Interaction {
        if (id.0 == PANEL_ID_GRAB_BAR || id.0 == PANEL_ID_TOOLBAR) && self.grab_hand is None {
            Interaction {
                grab_hand: Some(hand),
                grab_start: Some(grip_pos),
                ..self.with_pulse(hand, HapticPulse::grab_spec())
            }
        } else {
            self
        }
    }

    /// After one event.
    pub open spec fn after_event(self, open: OpenPanels, id: PanelId, event: InputEvent) -> Interaction {
        match event {
            InputEvent::PointerMove { hand, u, v, distance } => {
                self.after_move(open, id, hand, Uv { u, v }, distance)
            },
            InputEvent::PointerDown { hand, .. } => self.after_down(id, hand),
            InputEvent::GrabStart { hand, grip_pos, .. } => self.after_grab(id, hand, grip_pos),
            InputEvent::ButtonPress { button: Button::A, .. } => if self.grab_hand is Some {
                Interaction { anchor: next_anchor(self.anchor), ..self }
            } else {
                self
            },
            _ => self,
        }
    }

    /// After all events, in order.
    pub open spec fn after_events(
        self,
        open: OpenPanels,
        events: Seq<(PanelId, InputEvent)>,
    ) -> Interaction
        decreases events.len(),
    {
        if events.len() == 0 {
            self
        } else {
            self.after_events(open, events.drop_last()).after_event(
                open,
                events.last().0,
                events.last().1,
            )
        }
    }

    fn handle(&mut self, open: OpenPanels, id: PanelId, event: &InputEvent)
        ensures
            *final(self) == old(self).after_event(open, id, *event),
    {
        match event {
            InputEvent::PointerMove { hand, u, v, distance } => {
                self.pointer_moved(open, id, *hand, Uv { u: *u, v: *v }, *distance);
            },
            InputEvent::PointerDown { hand, .. } => {
                self.pointer_down(id, *hand);
            },
            InputEvent::GrabStart { hand, grip_pos, .. } => {
                if (id.0 == PANEL_ID_GRAB_BAR || id.0 == PANEL_ID_TOOLBAR)
                    && self.grab_hand.is_none() {
                    self.grab_hand = Some(*hand);
                    self.grab_start = Some(*grip_pos);
                    self.pulse(*hand, HapticPulse::grab());
                }
            },
            InputEvent::ButtonPress { button, .. } => {
                if *button == Button::A && self.grab_hand.is_some() {
                    self.anchor = cycle_anchor(self.anchor);
                }
            },
            _ => {},
        }
    }

    /// Dispatch input events, in order. Returns what to do with the mouse of the
    /// captured desktop.
    pub fn process_input_events(
        &mut self,
        open: OpenPanels,
        events: &Vec<(PanelId, InputEvent)>,
    ) -> (mouse: Vec<MouseAction>)
        ensures
            *final(self) == old(self).after_events(open, events@),
            mouse@ == mouse_actions(events@),
    {
        let mut mouse: Vec<MouseAction> = Vec::new();
        let ghost start = *self;
        let mut i: usize = 0;
        while i < events.len()
            invariant
                i <= events.len(),
                *self == start.after_events(open, events@.take(i as int)),
                mouse@ == mouse_actions(events@.take(i as int)),
            decreases events.len() - i,
        {
            let ghost next = events@.take(i + 1);
            assert(next.drop_last() =~= events@.take(i as int));
            assert(next.last() == events@[i as int]);
            let (id, event) = &events[i];
            self.handle(open, *id, event);
            if let Some(action) = mouse_action(*id, event) {
                mouse.push(action);
            }
            i += 1;
        }
        assert(events@.take(i as int) =~= events@);
        mouse
    }

    /// Whether a hand squeezes or pulls enough to hold a panel.
    pub open spec fn holds(hand: HandState) -> bool {
        let limit = Scalar { bits: HOLD_THRESHOLD };
        limit.below(hand.squeeze) || limit.below(hand.trigger)
    }

    /// After the grabbing hand was looked at: a hand that no longer holds lets
    /// the panel go and feels it.
    pub open spec fn after_grab_update(self, controller: ControllerState) -> Interaction {
        match self.grab_hand {
            Some(hand) => if Self::holds(controller.of_hand(hand)) {
                self
            } else {
                Interaction {
                    grab_hand: None,
                    ..self.with_pulse(hand, HapticPulse::release_spec())
                }
            },
            None => self,
        }
    }

    /// Continue or release a grab. Returns where the grip is now if the panel is
    /// still held.
    pub fn update_grab(&mut self, controller: &ControllerState) -> (grip: Option<Vec3>)
        ensures
            *final(self) == old(self).after_grab_update(*controller),
            grip == match old(self).grab_hand {
                Some(hand) => if Interaction::holds(controller.of_hand(hand)) {
                    Some(controller.of_hand(hand).grip_pos)
                } else {
                    None
                },
                None => None,
            },
    {
        match self.grab_hand {
            None => None,
            Some(hand) => {
                let state = controller.hand(hand);
                let limit = Scalar { bits: HOLD_THRESHOLD };
                if state.squeeze.greater(limit) || state.trigger.greater(limit) {
                    Some(state.grip_pos)
                } else {
                    self.grab_hand = None;
                    self.pulse(hand, HapticPulse::release());
                    None
                }
            },
        }
    }
}

/// What an event does to the mouse of the captured desktop.
pub open spec fn mouse_effect(id: PanelId, event: InputEvent) -> Option<MouseAction> {
    if id.0 == PANEL_ID_DESKTOP {
        match event {
            InputEvent::PointerMove { u, v, .. } => Some(MouseAction::Move(Uv { u, v })),
            InputEvent::PointerDown { u, v, .. } => Some(MouseAction::Click(Uv { u, v })),
            _ => None,
        }
    } else {
        None
    }
}

/// What events do to the mouse of the captured desktop, in order.
pub open spec fn mouse_actions(events: Seq<(PanelId, InputEvent)>) -> Seq<MouseAction>
    decreases events.len(),
{
    if events.len() == 0 {
        Seq::empty()
    } else {
        let before = mouse_actions(events.drop_last());
        match mouse_effect(events.last().0, events.last().1) {
            Some(action) => before.push(action),
            None => before,
        }
    }
}

fn mouse_action(id: PanelId, event: &InputEvent) -> (action: Option<MouseAction>)
    ensures
        action == mouse_effect(id, *event),
{
    if id.0 != PANEL_ID_DESKTOP {
        return None;
    }
    match event {
        InputEvent::PointerMove { u, v, .. } => Some(MouseAction::Move(Uv { u: *u, v: *v })),
        InputEvent::PointerDown { u, v, .. } => Some(MouseAction::Click(Uv { u: *u, v: *v })),
        _ => None,
    }
}

/// The toolbar's anchor cycle goes back and forth between world and theater.
pub proof fn law_toolbar_anchor_cycle(anchor: PanelAnchor)
    ensures
        next_anchor(next_anchor(PanelAnchor::World)) == PanelAnchor::World,
        !(anchor is World) ==> next_anchor(anchor) == PanelAnchor::World,
        anchor is World ==> next_anchor(anchor) == (PanelAnchor::Theater {
            distance: Scalar { bits: 0x40a0_0000 },
            scale: Scalar { bits: 0x4040_0000 },
        }),
{
}

/// Of two hands that grip, the first keeps the panel: while a hand holds it, no
/// event gives it to another hand or starts a grab.
pub proof fn law_first_grab_wins(
    before: Interaction,
    open: OpenPanels,
    events: Seq<(PanelId, InputEvent)>,
)
    requires
        before.grab_hand is Some,
    ensures
        before.after_events(open, events).grab_hand == before.grab_hand,
        before.after_events(open, events).grab_start == before.grab_start,
    decreases events.len(),
{
    if events.len() > 0 {
        law_first_grab_wins(before, open, events.drop_last());
    }
}

/// A hand without a panel in its grip does not change the anchor.
pub proof fn law_anchor_needs_grab(before: Interaction, open: OpenPanels, id: PanelId, event: InputEvent)
    requires
        before.grab_hand is None,
    ensures
        before.after_event(open, id, event).anchor == before.anchor,
{
}

/// How far away an event hits a panel with this hand's ray.
pub open spec fn hit_distance(event: InputEvent, hand: Hand) -> Option<Scalar> {
    match event {
        InputEvent::PointerMove { hand: by, distance, .. } => if by == hand {
            Some(distance)
        } else {
            None
        },
        _ => None,
    }
}

/// The length of a hand's ray.
pub open spec fn ray_of(interaction: Interaction, hand: Hand) -> Scalar {
    match hand {
        Hand::Left => interaction.left_ray,
        Hand::Right => interaction.right_ray,
    }
}

/// The ray of a hand that hits panels is as long as the distance to the nearest
/// of them, and zero where it hits none: of a frame's events with every hit at a
/// positive distance, no hit is nearer than the ray is long, and one is just as
/// far.
pub proof fn law_ray_is_nearest(
    before: Interaction,
    open: OpenPanels,
    events: Seq<(PanelId, InputEvent)>,
    hand: Hand,
)
    requires
        forall|i: int|
            0 <= i < events.len() ==> match hit_distance((#[trigger] events[i]).1, hand) {
                Some(distance) => (Scalar { bits: 0 }).below(distance),
                None => true,
            },
    ensures
        ({
            let ray = ray_of(before.frame_start().after_events(open, events), hand);
            &&& forall|i: int|
                0 <= i < events.len() ==> match hit_distance((#[trigger] events[i]).1, hand) {
                    Some(distance) => ray.at_most(distance),
                    None => true,
                }
            &&& ray == (Scalar { bits: 0 }) ==> forall|i: int|
                0 <= i < events.len() ==> hit_distance((#[trigger] events[i]).1, hand) is None
            &&& ray != (Scalar { bits: 0 }) ==> exists|i: int|
                0 <= i < events.len() && hit_distance((#[trigger] events[i]).1, hand) == Some(ray)
        }),
    decreases events.len(),
{
    if events.len() > 0 {
        let rest = events.drop_last();
        assert forall|i: int| 0 <= i < rest.len() implies match hit_distance(
            (#[trigger] rest[i]).1,
            hand,
        ) {
            Some(distance) => (Scalar { bits: 0 }).below(distance),
            None => true,
        } by {
            assert(rest[i] == events[i]);
        }
        law_ray_is_nearest(before, open, rest, hand);
        let ray = ray_of(before.frame_start().after_events(open, rest), hand);
        let now = ray_of(before.frame_start().after_events(open, events), hand);
        let last = events.len() - 1;
        if ray != (Scalar { bits: 0 }) {
            let k = choose|k: int|
                0 <= k < rest.len() && hit_distance((#[trigger] rest[k]).1, hand) == Some(ray);
            assert(events[k] == rest[k]);
        }
        assert(now == match hit_distance(events[last].1, hand) {
            Some(distance) => shorter_ray(ray, distance),
            None => ray,
        });
        assert forall|i: int| 0 <= i < events.len() implies match hit_distance(
            (#[trigger] events[i]).1,
            hand,
        ) {
            Some(distance) => now.at_most(distance),
            None => true,
        } by {
            if i < last {
                assert(rest[i] == events[i]);
            }
        }
        if now == (Scalar { bits: 0 }) {
            assert forall|i: int| 0 <= i < events.len() implies hit_distance(
                (#[trigger] events[i]).1,
                hand,
            ) is None by {
                if i < last {
                    assert(rest[i] == events[i]);
                }
            }
        }
    }
}

/// The dot on a panel that shows dots.
pub open spec fn dot_of(interaction: Interaction, id: u64) -> Option<Uv> {
    if id == PANEL_ID_LAUNCHER {
        interaction.launcher.dot
    } else if id == PANEL_ID_TRAY {
        interaction.tray.dot
    } else if id == PANEL_ID_SETTINGS {
        interaction.settings.dot
    } else if id == PANEL_ID_KEYBOARD {
        interaction.keyboard.dot
    } else {
        None
    }
}

/// Whether an event points at a panel that is there to show a dot.
pub open spec fn draws_dot(open: OpenPanels, event: (PanelId, InputEvent), id: u64) -> bool {
    &&& event.0.0 == id
    &&& event.1 is PointerMove
    &&& id == PANEL_ID_LAUNCHER || (id == PANEL_ID_TRAY && open.tray) || (id == PANEL_ID_SETTINGS
        && open.settings) || (id == PANEL_ID_KEYBOARD && open.keyboard)
}

proof fn lemma_event_dot(before: Interaction, open: OpenPanels, event: (PanelId, InputEvent), id: u64)
    ensures
        dot_of(before.after_event(open, event.0, event.1), id) is Some <==> dot_of(before, id) is Some
            || draws_dot(open, event, id),
{
}

proof fn lemma_dots(
    start: Interaction,
    open: OpenPanels,
    events: Seq<(PanelId, InputEvent)>,
    id: u64,
)
    requires
        dot_of(start, id) is None,
    ensures
        dot_of(start.after_events(open, events), id) is Some <==> exists|i: int|
            0 <= i < events.len() && draws_dot(open, #[trigger] events[i], id),
    decreases events.len(),
{
    if events.len() > 0 {
        let rest = events.drop_last();
        let last = events.len() - 1;
        lemma_dots(start, open, rest, id);
        lemma_event_dot(start.after_events(open, rest), open, events.last(), id);
        assert(events[last] == events.last());
        if dot_of(start.after_events(open, rest), id) is Some {
            let k = choose|k: int| 0 <= k < rest.len() && draws_dot(open, #[trigger] rest[k], id);
            assert(events[k] == rest[k]);
        } else {
            assert forall|i: int| 0 <= i < last implies !draws_dot(
                open,
                #[trigger] events[i],
                id,
            ) by {
                assert(rest[i] == events[i]);
            }
        }
    }
}

/// Dots are set per frame: a panel shows one exactly if a ray met it in this frame,
/// whatever it showed before.
pub proof fn law_dots_are_per_frame(
    before: Interaction,
    open: OpenPanels,
    events: Seq<(PanelId, InputEvent)>,
    id: u64,
)
    ensures
        dot_of(before.frame_start().after_events(open, events), id) is Some <==> exists|i: int|
            0 <= i < events.len() && draws_dot(open, #[trigger] events[i], id),
{
    lemma_dots(before.frame_start(), open, events, id);
}

/// Events on one panel leave the clicks that wait on other panels alone.
pub proof fn law_clicks_stay_on_their_panel(before: Interaction, id: PanelId, hand: Hand)
    ensures
        id.0 != PANEL_ID_LAUNCHER ==> before.after_down(id, hand).launcher == before.launcher,
        id.0 != PANEL_ID_TOOLBAR ==> before.after_down(id, hand).toolbar == before.toolbar,
        id.0 != PANEL_ID_TRAY ==> before.after_down(id, hand).tray == before.tray,
        id.0 != PANEL_ID_SETTINGS ==> before.after_down(id, hand).settings == before.settings,
        id.0 != PANEL_ID_KEYBOARD ==> before.after_down(id, hand).keyboard == before.keyboard,
{
}

/// The mouse of the desktop goes where the pointer is: a pointer that moves over the
/// desktop's panel moves it to the very point pointed at, a press there clicks at the very
/// point pressed, and neither does anything else.
pub proof fn law_mouse_follows_the_pointer(hand: Hand, u: Scalar, v: Scalar, distance: Scalar)
    ensures
        ({
            let desktop = PanelId(PANEL_ID_DESKTOP);
            let moved = (desktop, InputEvent::PointerMove { hand, u, v, distance });
            let pressed = (desktop, InputEvent::PointerDown { hand, u, v });
            &&& mouse_actions(seq![moved]) == seq![MouseAction::Move(Uv { u, v })]
            &&& mouse_actions(seq![pressed]) == seq![MouseAction::Click(Uv { u, v })]
        }),
{
    let desktop = PanelId(PANEL_ID_DESKTOP);
    let moved = (desktop, InputEvent::PointerMove { hand, u, v, distance });
    let pressed = (desktop, InputEvent::PointerDown { hand, u, v });
    reveal_with_fuel(mouse_actions, 2);
    assert(seq![moved].drop_last() =~= Seq::empty());
    assert(seq![pressed].drop_last() =~= Seq::empty());
    assert(mouse_actions(seq![moved]) =~= seq![MouseAction::Move(Uv { u, v })]);
    assert(mouse_actions(seq![pressed]) =~= seq![MouseAction::Click(Uv { u, v })]);
}

/// Nothing but pointing at the desktop's panel and pressing there reaches the mouse.
pub proof fn law_mouse_ignores_the_rest(id: PanelId, event: InputEvent)
    requires
        id.0 != PANEL_ID_DESKTOP || !(event is PointerMove || event is PointerDown),
    ensures
        mouse_actions(seq![(id, event)]).len() == 0,
{
    reveal_with_fuel(mouse_actions, 2);
    assert(seq![(id, event)].drop_last() =~= Seq::empty());
}

/// The mouse acts in the order of the events: what more events do to it comes after what
/// the first ones do.
pub proof fn law_mouse_keeps_the_order(
    first: Seq<(PanelId, InputEvent)>,
    more: Seq<(PanelId, InputEvent)>,
)
    ensures
        mouse_actions(first + more) == mouse_actions(first) + mouse_actions(more),
        mouse_actions(Seq::empty()).len() == 0,
    decreases more.len(),
{
    let all = first + more;
    if more.len() == 0 {
        assert(all =~= first);
        assert(mouse_actions(first) + mouse_actions(more) =~= mouse_actions(first));
    } else {
        law_mouse_keeps_the_order(first, more.drop_last());
        assert(all.drop_last() =~= first + more.drop_last());
        assert(all.last() == more.last());
        assert(mouse_actions(all) =~= mouse_actions(first) + mouse_actions(more));
    }
}

/// Events act one after the other: more events start from where the first ones led, and
/// no events lead nowhere.
pub proof fn law_events_act_in_order(
    before: Interaction,
    open: OpenPanels,
    first: Seq<(PanelId, InputEvent)>,
    more: Seq<(PanelId, InputEvent)>,
)
    ensures
        before.after_events(open, first + more) == before.after_events(open, first).after_events(
            open,
            more,
        ),
        before.after_events(open, Seq::empty()) == before,
    decreases more.len(),
{
    let all = first + more;
    if more.len() == 0 {
        assert(all =~= first);
    } else {
        law_events_act_in_order(before, open, first, more.drop_last());
        assert(all.drop_last() =~= first + more.drop_last());
        assert(all.last() == more.last());
    }
}

/// A single event acts as it does among others.
pub proof fn law_one_event(before: Interaction, open: OpenPanels, id: PanelId, event: InputEvent)
    ensures
        before.after_events(open, seq![(id, event)]) == before.after_event(open, id, event),
{
    reveal_with_fuel(Interaction::after_events, 2);
    assert(seq![(id, event)].drop_last() =~= Seq::empty());
}

/// A press is felt, and it waits as a click on the panel that was pressed: the launcher,
/// the toolbar, the tray, the settings or the keyboard has a click waiting afterwards, and
/// pointers, dots, rays, the grab and the anchor stay as they were.
pub proof fn law_press_waits_as_a_click(
    before: Interaction,
    open: OpenPanels,
    id: PanelId,
    hand: Hand,
    u: Scalar,
    v: Scalar,
)
    ensures
        ({
            let after = before.after_event(open, id, InputEvent::PointerDown { hand, u, v });
            &&& after.launcher.click_pending == (before.launcher.click_pending || id.0
                == PANEL_ID_LAUNCHER)
            &&& after.toolbar.click_pending == (before.toolbar.click_pending || id.0
                == PANEL_ID_TOOLBAR)
            &&& after.tray.click_pending == (before.tray.click_pending || id.0 == PANEL_ID_TRAY)
            &&& after.settings.click_pending == (before.settings.click_pending || id.0
                == PANEL_ID_SETTINGS)
            &&& after.keyboard.click_pending == (before.keyboard.click_pending || id.0
                == PANEL_ID_KEYBOARD)
            &&& same_pointers(before, after)
            &&& same_dots(before, after)
            &&& after.left_ray == before.left_ray && after.right_ray == before.right_ray
            &&& after.grab_hand == before.grab_hand && after.grab_start == before.grab_start
            &&& after.anchor == before.anchor && after.bar_hit == before.bar_hit
            &&& hand == Hand::Left ==> after.haptic_left == Some(HapticPulse::click_spec())
                && after.haptic_right == before.haptic_right
            &&& hand == Hand::Right ==> after.haptic_right == Some(HapticPulse::click_spec())
                && after.haptic_left == before.haptic_left
        }),
{
}

/// Whether every pointer is where it was.
pub open spec fn same_pointers(before: Interaction, after: Interaction) -> bool {
    &&& after.launcher.pointer == before.launcher.pointer
    &&& after.toolbar.pointer == before.toolbar.pointer
    &&& after.tray.pointer == before.tray.pointer
    &&& after.settings.pointer == before.settings.pointer
    &&& after.keyboard.pointer == before.keyboard.pointer
}

/// Whether every dot is where it was.
pub open spec fn same_dots(before: Interaction, after: Interaction) -> bool {
    &&& after.launcher.dot == before.launcher.dot
    &&& after.toolbar.dot == before.toolbar.dot
    &&& after.tray.dot == before.tray.dot
    &&& after.settings.dot == before.settings.dot
    &&& after.keyboard.dot == before.keyboard.dot
}

/// Whether the same clicks wait.
pub open spec fn same_clicks(before: Interaction, after: Interaction) -> bool {
    &&& after.launcher.click_pending == before.launcher.click_pending
    &&& after.toolbar.click_pending == before.toolbar.click_pending
    &&& after.tray.click_pending == before.tray.click_pending
    &&& after.settings.click_pending == before.settings.click_pending
    &&& after.keyboard.click_pending == before.keyboard.click_pending
}

/// Pointing shows where it points: the pointer of the panel pointed at is at the very point
/// hit, and so is its dot, which the toolbar has none of; pointers on other panels stay.
/// Panels that come and go are pointed at only while they exist. Pointing clicks nothing,
/// is not felt, and takes hold of nothing.
pub proof fn law_pointing_shows_where(
    before: Interaction,
    open: OpenPanels,
    id: PanelId,
    hand: Hand,
    u: Scalar,
    v: Scalar,
    distance: Scalar,
)
    ensures
        ({
            let event = InputEvent::PointerMove { hand, u, v, distance };
            let after = before.after_event(open, id, event);
            let at = Some(Uv { u, v });
            &&& id.0 == PANEL_ID_LAUNCHER ==> after.launcher.pointer == at && after.launcher.dot
                == at
            &&& id.0 != PANEL_ID_LAUNCHER ==> after.launcher == before.launcher
            &&& id.0 == PANEL_ID_TOOLBAR ==> after.toolbar.pointer == at && after.toolbar.dot
                == before.toolbar.dot
            &&& id.0 != PANEL_ID_TOOLBAR ==> after.toolbar == before.toolbar
            &&& id.0 == PANEL_ID_TRAY && open.tray ==> after.tray.pointer == at && after.tray.dot
                == at
            &&& !(id.0 == PANEL_ID_TRAY && open.tray) ==> after.tray == before.tray
            &&& id.0 == PANEL_ID_SETTINGS && open.settings ==> after.settings.pointer == at
                && after.settings.dot == at
            &&& !(id.0 == PANEL_ID_SETTINGS && open.settings) ==> after.settings
                == before.settings
            &&& id.0 == PANEL_ID_KEYBOARD && open.keyboard ==> after.keyboard.pointer == at
                && after.keyboard.dot == at
            &&& !(id.0 == PANEL_ID_KEYBOARD && open.keyboard) ==> after.keyboard
                == before.keyboard
            &&& same_clicks(before, after)
            &&& after.bar_hit == (before.bar_hit || id.0 == PANEL_ID_GRAB_BAR)
            &&& after.haptic_left == before.haptic_left && after.haptic_right
                == before.haptic_right
            &&& after.grab_hand == before.grab_hand && after.grab_start == before.grab_start
            &&& after.anchor == before.anchor
            &&& hand == Hand::Left ==> after.right_ray == before.right_ray
            &&& hand == Hand::Right ==> after.left_ray == before.left_ray
        }),
{
}

/// The first hit of a frame is as far away as the ray reaches, whichever hand it is, and a
/// hit behind it does not change the ray.
pub proof fn law_ray_reaches_the_hit(
    before: Interaction,
    open: OpenPanels,
    id: PanelId,
    u: Scalar,
    v: Scalar,
    distance: Scalar,
)
    ensures
        ({
            let zero = Scalar { bits: 0 };
            let left = InputEvent::PointerMove { hand: Hand::Left, u, v, distance };
            let right = InputEvent::PointerMove { hand: Hand::Right, u, v, distance };
            let start = before.frame_start();
            &&& start.after_event(open, id, left).left_ray == distance
            &&& start.after_event(open, id, right).right_ray == distance
            &&& distance.below(before.left_ray) ==> before.after_event(open, id, left).left_ray
                == distance
            &&& zero.below(before.left_ray) && before.left_ray.at_most(distance)
                ==> before.after_event(open, id, left).left_ray == before.left_ray
            &&& distance.below(before.right_ray) ==> before.after_event(open, id, right).right_ray
                == distance
            &&& zero.below(before.right_ray) && before.right_ray.at_most(distance)
                ==> before.after_event(open, id, right).right_ray == before.right_ray
        }),
{
}

/// A grip on the grab bar or the toolbar takes hold of the active panel where the grip is,
/// and is felt, unless a hand holds it already; a grip on any other panel does nothing.
/// Nothing is clicked or pointed at by it.
pub proof fn law_grip_takes_hold(
    before: Interaction,
    open: OpenPanels,
    id: PanelId,
    hand: Hand,
    grip_pos: Vec3,
    grip_rot: Quat,
)
    ensures
        ({
            let event = InputEvent::GrabStart { hand, grip_pos, grip_rot };
            let after = before.after_event(open, id, event);
            let handle = id.0 == PANEL_ID_GRAB_BAR || id.0 == PANEL_ID_TOOLBAR;
            &&& handle && before.grab_hand is None ==> {
                &&& after.grab_hand == Some(hand)
                &&& after.grab_start == Some(grip_pos)
                &&& hand == Hand::Left ==> after.haptic_left == Some(HapticPulse::grab_spec())
                && after.haptic_right == before.haptic_right
                &&& hand == Hand::Right ==> after.haptic_right == Some(HapticPulse::grab_spec())
                && after.haptic_left == before.haptic_left
                &&& after.launcher == before.launcher && after.toolbar == before.toolbar
                &&& after.tray == before.tray && after.settings == before.settings
                &&& after.keyboard == before.keyboard && after.anchor == before.anchor
                &&& after.left_ray == before.left_ray && after.right_ray == before.right_ray
            }
            &&& !handle || before.grab_hand is Some ==> after == before
        }),
{
}

/// While a hand holds the panel, the A button takes it from the world to the theater and
/// from anywhere else back to the world, and changes nothing else. Without a panel held,
/// and with every other button, nothing changes, nor with anything that only ends or
/// continues what a hand does.
pub proof fn law_buttons_turn_the_anchor(
    before: Interaction,
    open: OpenPanels,
    id: PanelId,
    hand: Hand,
    button: Button,
    other: InputEvent,
)
    requires
        !(other is PointerMove || other is PointerDown || other is GrabStart || other
            is ButtonPress),
    ensures
        ({
            let after = before.after_event(open, id, InputEvent::ButtonPress { hand, button });
            let turns = button == Button::A && before.grab_hand is Some;
            &&& after == (Interaction { anchor: after.anchor, ..before })
            &&& !turns ==> after.anchor == before.anchor
            &&& turns && before.anchor is World ==> after.anchor is Theater
            &&& turns && !(before.anchor is World) ==> after.anchor is World
            &&& before.after_event(open, id, other) == before
        }),
{
}

/// A panel is held as long as the hand that grabbed it squeezes or pulls by more than 0.3,
/// whatever the other hand does; then it is let go, which that hand feels. Nothing else
/// changes.
pub proof fn law_panels_are_held_by_their_hand(before: Interaction, controller: ControllerState)
    ensures
        ({
            let after = before.after_grab_update(controller);
            let limit = Scalar { bits: 0x3e99_999a };
            let left = limit.below(controller.left.squeeze) || limit.below(
                controller.left.trigger,
            );
            let right = limit.below(controller.right.squeeze) || limit.below(
                controller.right.trigger,
            );
            &&& before.grab_hand is None ==> after == before
            &&& before.grab_hand == Some(Hand::Left) && left ==> after == before
            &&& before.grab_hand == Some(Hand::Right) && right ==> after == before
            &&& before.grab_hand == Some(Hand::Left) && !left ==> after.grab_hand is None
                && after.haptic_left == Some(HapticPulse::release_spec())
                && after.haptic_right == before.haptic_right
            &&& before.grab_hand == Some(Hand::Right) && !right ==> after.grab_hand is None
                && after.haptic_right == Some(HapticPulse::release_spec())
                && after.haptic_left == before.haptic_left
            &&& after == (Interaction {
                grab_hand: after.grab_hand,
                haptic_left: after.haptic_left,
                haptic_right: after.haptic_right,
                ..before
            })
        }),
{
}

/// A frame starts without pointers, dots, hits, rays and pulses, and with the clicks that
/// wait, the grab and the anchor of before.
pub proof fn law_frames_start_clean(before: Interaction)
    ensures
        ({
            let after = before.frame_start();
            &&& after.launcher.pointer is None && after.launcher.dot is None
            &&& after.toolbar.pointer is None && after.toolbar.dot is None
            &&& after.tray.pointer is None && after.tray.dot is None
            &&& after.settings.pointer is None && after.settings.dot is None
            &&& after.keyboard.pointer is None && after.keyboard.dot is None
            &&& after.left_ray.bits == 0 && after.right_ray.bits == 0
            &&& after.haptic_left is None && after.haptic_right is None
            &&& !after.bar_hit && after.grab_start is None
            &&& same_clicks(before, after)
            &&& after.grab_hand == before.grab_hand && after.anchor == before.anchor
        }),
{
}

/// Whether an event presses a panel.
pub open spec fn presses(event: (PanelId, InputEvent), id: u64) -> bool {
    event.0.0 == id && event.1 is PointerDown
}

/// After the events of a frame a click waits on a panel exactly if one waited before or the
/// panel was pressed.
pub proof fn law_clicks_wait_for_presses(
    before: Interaction,
    open: OpenPanels,
    events: Seq<(PanelId, InputEvent)>,
)
    ensures
        ({
            let after = before.after_events(open, events);
            let pressed = |id: u64| exists|i: int|
                0 <= i < events.len() && presses(#[trigger] events[i], id);
            &&& after.launcher.click_pending == (before.launcher.click_pending || pressed(
                PANEL_ID_LAUNCHER,
            ))
            &&& after.toolbar.click_pending == (before.toolbar.click_pending || pressed(
                PANEL_ID_TOOLBAR,
            ))
            &&& after.tray.click_pending == (before.tray.click_pending || pressed(PANEL_ID_TRAY))
            &&& after.settings.click_pending == (before.settings.click_pending || pressed(
                PANEL_ID_SETTINGS,
            ))
            &&& after.keyboard.click_pending == (before.keyboard.click_pending || pressed(
                PANEL_ID_KEYBOARD,
            ))
        }),
    decreases events.len(),
{
    let pressed = |id: u64| exists|i: int|
        0 <= i < events.len() && presses(#[trigger] events[i], id);
    if events.len() > 0 {
        let rest = events.drop_last();
        let last = events.len() - 1;
        law_clicks_wait_for_presses(before, open, rest);
        assert forall|id: u64| #[trigger] pressed(id) == (presses(events[last], id) || exists|i: int|
            0 <= i < rest.len() && presses(#[trigger] rest[i], id)) by {
            if presses(events[last], id) {
            } else if exists|i: int| 0 <= i < events.len() && presses(#[trigger] events[i], id) {
                let k = choose|i: int| 0 <= i < events.len() && presses(#[trigger] events[i], id);
                assert(presses(rest[k], id));
            }
            if exists|i: int| 0 <= i < rest.len() && presses(#[trigger] rest[i], id) {
                let k = choose|i: int| 0 <= i < rest.len() && presses(#[trigger] rest[i], id);
                assert(presses(events[k], id));
            }
        }
        lemma_event_clicks(
            before.after_events(open, rest),
            open,
            events.last().0,
            events.last().1,
        );
        assert(pressed(PANEL_ID_LAUNCHER) == pressed(PANEL_ID_LAUNCHER));
        assert(pressed(PANEL_ID_TOOLBAR) == pressed(PANEL_ID_TOOLBAR));
        assert(pressed(PANEL_ID_TRAY) == pressed(PANEL_ID_TRAY));
        assert(pressed(PANEL_ID_SETTINGS) == pressed(PANEL_ID_SETTINGS));
        assert(pressed(PANEL_ID_KEYBOARD) == pressed(PANEL_ID_KEYBOARD));
    }
}

proof fn lemma_event_clicks(before: Interaction, open: OpenPanels, id: PanelId, event: InputEvent)
    ensures
        ({
            let after = before.after_event(open, id, event);
            let down = event is PointerDown;
            &&& after.launcher.click_pending == (before.launcher.click_pending || (down && id.0
                == PANEL_ID_LAUNCHER))
            &&& after.toolbar.click_pending == (before.toolbar.click_pending || (down && id.0
                == PANEL_ID_TOOLBAR))
            &&& after.tray.click_pending == (before.tray.click_pending || (down && id.0
                == PANEL_ID_TRAY))
            &&& after.settings.click_pending == (before.settings.click_pending || (down && id.0
                == PANEL_ID_SETTINGS))
            &&& after.keyboard.click_pending == (before.keyboard.click_pending || (down && id.0
                == PANEL_ID_KEYBOARD))
        }),
{
}

/// Whether an event points at a panel.
pub open spec fn points(event: (PanelId, InputEvent), id: u64) -> bool {
    event.0.0 == id && event.1 is PointerMove
}

/// Where an event points.
pub open spec fn point_of(event: (PanelId, InputEvent)) -> Option<Uv> {
    match event.1 {
        InputEvent::PointerMove { u, v, .. } => Some(Uv { u, v }),
        _ => None,
    }
}

/// After a frame's events the pointer of a panel is where it was pointed at last in this
/// frame, and gone if it was not pointed at. The tray, the settings and the keyboard are
/// pointed at only while they exist.
pub proof fn law_pointers_show_the_last_point(
    before: Interaction,
    open: OpenPanels,
    events: Seq<(PanelId, InputEvent)>,
    id: u64,
    i: int,
)
    requires
        -1 <= i < events.len(),
        i >= 0 ==> points(events[i], id),
        forall|j: int| i < j < events.len() ==> !points(#[trigger] events[j], id),
    ensures
        ({
            let after = before.frame_start().after_events(open, events);
            let at = if i >= 0 {
                point_of(events[i])
            } else {
                None
            };
            &&& id == PANEL_ID_LAUNCHER ==> after.launcher.pointer == at
            &&& id == PANEL_ID_TOOLBAR ==> after.toolbar.pointer == at
            &&& id == PANEL_ID_TRAY && open.tray ==> after.tray.pointer == at
            &&& id == PANEL_ID_SETTINGS && open.settings ==> after.settings.pointer == at
            &&& id == PANEL_ID_KEYBOARD && open.keyboard ==> after.keyboard.pointer == at
            &&& !open.tray ==> after.tray.pointer is None
            &&& !open.settings ==> after.settings.pointer is None
            &&& !open.keyboard ==> after.keyboard.pointer is None
            &&& id == PANEL_ID_GRAB_BAR ==> after.bar_hit == (i >= 0)
        }),
    decreases events.len(),
{
    if events.len() > 0 {
        let rest = events.drop_last();
        let last = events.len() - 1;
        assert forall|j: int| 0 <= j < rest.len() implies #[trigger] rest[j] == events[j] by {}
        if i == last {
            lemma_some_last_point(rest, id);
            let k = choose|k: int|
                -1 <= k < rest.len() && (k >= 0 ==> points(rest[k], id)) && #[trigger] is_last(
                    rest,
                    id,
                    k,
                );
            law_pointers_show_the_last_point(before, open, rest, id, k);
        } else {
            law_pointers_show_the_last_point(before, open, rest, id, i);
        }
    }
}

/// Whether no event behind this one points at the panel.
pub open spec fn is_last(events: Seq<(PanelId, InputEvent)>, id: u64, k: int) -> bool {
    forall|j: int| k < j < events.len() ==> !points(#[trigger] events[j], id)
}

proof fn lemma_some_last_point(events: Seq<(PanelId, InputEvent)>, id: u64)
    ensures
        exists|k: int|
            -1 <= k < events.len() && (k >= 0 ==> points(events[k], id)) && #[trigger] is_last(
                events,
                id,
                k,
            ),
    decreases events.len(),
{
    if events.len() == 0 {
        assert(is_last(events, id, -1));
    } else {
        let rest = events.drop_last();
        let last = events.len() - 1;
        if points(events[last], id) {
            assert(is_last(events, id, last));
        } else {
            lemma_some_last_point(rest, id);
            let k = choose|k: int|
                -1 <= k < rest.len() && (k >= 0 ==> points(rest[k], id)) && #[trigger] is_last(
                    rest,
                    id,
                    k,
                );
            assert forall|j: int| k < j < events.len() implies !points(#[trigger] events[j], id) by {
                if j < last {
                    assert(rest[j] == events[j]);
                }
            }
            assert(is_last(events, id, k));
        }
    }
}

/// A point in pixels: the left edge is at zero and the right edge at the width, the upper
/// edge at zero and the lower one at the height, and neither side depends on the other.
pub proof fn law_pixels_of_the_edges(at: Uv, width: u32, height: u32)
    ensures
        ({
            let zero = Scalar { bits: 0 };
            let one = Scalar { bits: 0x3f80_0000 };
            let (w, h) = (width as int, height as int);
            &&& (Uv { u: zero, ..at }).scaled(w, h).u.bits == 0
            &&& (Uv { v: zero, ..at }).scaled(w, h).v.bits == 0
            &&& (Uv { u: one, ..at }).scaled(w, h).u == Scalar::of_count(w)
            &&& (Uv { v: one, ..at }).scaled(w, h).v == Scalar::of_count(h)
            &&& (Uv { v: zero, ..at }).scaled(w, h).u == at.scaled(w, h).u
            &&& (Uv { u: zero, ..at }).scaled(w, h).v == at.scaled(w, h).v
        }),
{
    lemma_count(width as int);
    lemma_count(height as int);
    law_times_one(Scalar::of_count(width as int));
    law_times_one(Scalar::of_count(height as int));
}

/// A point in pixels is its share of the width across and its share of the height down.
pub proof fn law_pixels_are_shares(at: Uv, width: int, height: int)
    ensures
        at.scaled(width, height).u == at.u.times(Scalar::of_count(width)),
        at.scaled(width, height).v == at.v.times(Scalar::of_count(height)),
{
}

/// At first nothing is touched, held, hit or felt, and the panel is in the world.
pub proof fn law_nothing_is_touched_at_first()
    ensures
        ({
            let first = Interaction::initial();
            let untouched = |surface: Surface|
                surface.pointer is None && surface.dot is None && !surface.click_pending;
            &&& untouched(first.launcher) && untouched(first.toolbar) && untouched(first.tray)
            &&& untouched(first.settings) && untouched(first.keyboard)
            &&& first.grab_hand is None && first.grab_start is None
            &&& first.anchor is World
            &&& first.left_ray.bits == 0 && first.right_ray.bits == 0
            &&& first.haptic_left is None && first.haptic_right is None
            &&& !first.bar_hit
        }),
{
}

/// What is felt of a click, a grab and a release: 20 ms at 200 Hz and 0.2 strength, 50 ms at
/// 200 Hz and 0.6, 30 ms at 150 Hz and 0.3.
pub proof fn law_pulses()
    ensures
        HapticPulse::click_spec().duration_ms == 20,
        HapticPulse::click_spec().frequency.bits == 0x4348_0000,
        HapticPulse::click_spec().amplitude.bits == 0x3e4c_cccd,
        HapticPulse::grab_spec().duration_ms == 50,
        HapticPulse::grab_spec().frequency.bits == 0x4348_0000,
        HapticPulse::grab_spec().amplitude.bits == 0x3f19_999a,
        HapticPulse::release_spec().duration_ms == 30,
        HapticPulse::release_spec().frequency.bits == 0x4316_0000,
        HapticPulse::release_spec().amplitude.bits == 0x3e99_999a,
{
}

} // verus!
