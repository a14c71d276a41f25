//! Controller input: the state read each frame, the events made of it, and the
//! dispatcher that gives them to the frontmost panel.

pub mod dispatcher;

use crate::geometry::{Quat, Vec3};
pub use crate::panel::Hand;
use crate::panel::{PanelId, PanelTransform};
use crate::scalar::Scalar;
use vstd::prelude::*;

verus! {

/// 0.5, the trigger value from which a press counts.
pub const TRIGGER_THRESHOLD: u32 = 0x3f00_0000;

/// 0.7, the squeeze value from which a grip counts.
pub const GRIP_THRESHOLD: u32 = 0x3f33_3333;

/// 0.15, the margin along a panel's edges in which a grip grabs it.
pub const GRAB_MARGIN: u32 = 0x3e19_999a;

/// 1.0 - 0.15, where the margin along the far edges begins.
pub const GRAB_MARGIN_FAR: u32 = 0x3f59_999a;

/// 0.3, the thumbstick deflection up to which input is ignored.
pub const THUMBSTICK_DEADZONE: u32 = 0x3e99_999a;

/// A controller button.
#[derive(Clone, Copy, Debug, PartialEq, Eq, Structural)]
pub enum Button {
    Trigger,
    Grip,
    A,
    B,
    X,
    Y,
    Menu,
    ThumbstickClick,
}

/// Something that a controller did to a panel.
#[derive(Clone, Debug)]
pub enum InputEvent {
    /// Pointer ray is hovering over a panel at (u, v)
    PointerMove { hand: Hand, u: Scalar, v: Scalar, distance: Scalar },
    /// Trigger pulled while pointing at panel
    PointerDown { hand: Hand, u: Scalar, v: Scalar },
    /// Trigger released
    PointerUp { hand: Hand, u: Scalar, v: Scalar },
    /// Grip pressed near panel edge - start moving
    GrabStart { hand: Hand, grip_pos: Vec3, grip_rot: Quat },
    /// Panel being moved by grip
    GrabMove { hand: Hand, grip_pos: Vec3, grip_rot: Quat },
    /// Grip released
    GrabEnd { hand: Hand },
    /// Button pressed (not on panel surface)
    ButtonPress { hand: Hand, button: Button },
    /// Button released
    ButtonRelease { hand: Hand, button: Button },
    /// Thumbstick moved (for scrolling)
    ThumbstickMove { hand: Hand, x: Scalar, y: Scalar },
    /// Text input from virtual keyboard
    TextInput { text: String },
}

/// Per-hand controller state, read each frame.
#[derive(Clone, Copy, Debug)]
pub struct HandState {
    pub active: bool,
    pub grip_pos: Vec3,
    pub grip_rot: Quat,
    pub aim_pos: Vec3,
    pub aim_dir: Vec3,
    pub trigger: Scalar,
    pub squeeze: Scalar,
    pub thumbstick: [Scalar; 2],
    pub a_click: bool,
    pub b_click: bool,
    pub x_click: bool,
    pub y_click: bool,
    pub menu_click: bool,
    pub thumbstick_click: bool,
    pub a_touch: bool,
    pub b_touch: bool,
    pub x_touch: bool,
    pub y_touch: bool,
    pub trigger_touch: bool,
    pub thumbstick_touch: bool,
}

impl HandState {
    /// Whether the trigger counts as pressed.
    pub open spec fn trigger_down(self) -> bool {
        (Scalar { bits: TRIGGER_THRESHOLD }).at_most(self.trigger)
    }

    /// Whether the squeeze counts as a grip.
    pub open spec fn gripping(self) -> bool {
        (Scalar { bits: GRIP_THRESHOLD }).at_most(self.squeeze)
    }

    /// Whether the thumbstick is pushed up or down beyond its dead zone.
    pub open spec fn stick_moved(self) -> bool {
        (Scalar { bits: THUMBSTICK_DEADZONE }).below(self.thumbstick@[1].unsigned())
    }

    /// Whether this is a hand that is not there: inactive, at the origin, nothing
    /// pressed.
    pub open spec fn absent(self) -> bool {
        &&& !self.active
        &&& self.grip_pos == Vec3::of_bits(0, 0, 0)
        &&& self.grip_rot == Quat::identity_spec()
        &&& self.aim_pos == Vec3::of_bits(0, 0, 0)
        &&& self.aim_dir == Vec3::of_bits(0, 0, 0)
        &&& self.trigger.bits == 0
        &&& self.squeeze.bits == 0
        &&& self.thumbstick@ == seq![Scalar { bits: 0 }, Scalar { bits: 0 }]
        &&& !self.a_click && !self.b_click && !self.x_click && !self.y_click
        &&& !self.menu_click && !self.thumbstick_click
        &&& !self.a_touch && !self.b_touch && !self.x_touch && !self.y_touch
        &&& !self.trigger_touch && !self.thumbstick_touch
    }
}

impl Default for HandState {
    /// A hand that is not there: inactive, at the origin, nothing pressed.
    fn default() -> (hand: Self)
        ensures
            hand.absent(),
    {
        HandState {
            active: false,
            grip_pos: Vec3::zero(),
            grip_rot: Quat::identity(),
            aim_pos: Vec3::zero(),
            aim_dir: Vec3::zero(),
            trigger: Scalar { bits: 0 },
            squeeze: Scalar { bits: 0 },
            thumbstick: [Scalar { bits: 0 }, Scalar { bits: 0 }],
            a_click: false,
            b_click: false,
            x_click: false,
            y_click: false,
            menu_click: false,
            thumbstick_click: false,
            a_touch: false,
            b_touch: false,
            x_touch: false,
            y_touch: false,
            trigger_touch: false,
            thumbstick_touch: false,
        }
    }
}

/// Full controller state for both hands.
#[derive(Clone, Copy, Debug)]
pub struct ControllerState {
    pub left: HandState,
    pub right: HandState,
}

impl Default for ControllerState {
    /// Neither hand there.
    fn default() -> (state: Self)
        ensures
            state.left.absent(),
            state.right.absent(),
    {
        ControllerState { left: HandState::default(), right: HandState::default() }
    }
}

impl ControllerState {
    /// The state of one hand.
    pub open spec fn of_hand(self, hand: Hand) -> HandState {
        match hand {
            Hand::Left => self.left,
            Hand::Right => self.right,
        }
    }

    /// The state of one hand.
    pub fn hand(&self, hand: Hand) -> (state: &HandState)
        ensures
            *state == self.of_hand(hand),
    {
        match hand {
            Hand::Left => &self.left,
            Hand::Right => &self.right,
        }
    }

    /// The hand that panels follow: the right one if it is there, else the left.
    pub open spec fn leading(self) -> HandState {
        if self.right.active {
            self.right
        } else {
            self.left
        }
    }

    /// The hand that panels follow.
    pub fn leading_hand(&self) -> (state: &HandState)
        ensures
            *state == self.leading(),
    {
        if self.right.active {
            &self.right
        } else {
            &self.left
        }
    }
}

/// Where a pointer ray meets a panel: panel coordinates and distance.
#[derive(Clone, Copy, Debug, PartialEq, Eq, Structural)]
pub struct RayHit {
    pub u: Scalar,
    pub v: Scalar,
    pub distance: Scalar,
}

/// A panel offered to the dispatcher, with where each hand's ray meets it.
#[derive(Clone, Copy, Debug, PartialEq, Eq, Structural)]
pub struct PanelTarget {
    pub id: PanelId,
    pub grabbable: bool,
    pub left: Option<RayHit>,
    pub right: Option<RayHit>,
}

impl PanelTarget {
    /// A panel as both hands' rays meet it.
    pub open spec fn of_panel(id: PanelId, panel: PanelTransform, state: ControllerState) -> Self {
        PanelTarget {
            id,
            grabbable: panel.grabbable,
            left: panel.hit_by(state.left.aim_pos, state.left.aim_dir),
            right: panel.hit_by(state.right.aim_pos, state.right.aim_dir),
        }
    }

    /// A panel as both hands' rays meet it.
    pub fn aimed(id: PanelId, panel: &PanelTransform, state: &ControllerState) -> (target: Self)
        ensures
            target == PanelTarget::of_panel(id, *panel, *state),
    {
        PanelTarget {
            id,
            grabbable: panel.grabbable,
            left: panel.hit_test(state.left.aim_pos, state.left.aim_dir),
            right: panel.hit_test(state.right.aim_pos, state.right.aim_dir),
        }
    }

    /// Where this hand's ray meets the panel.
    pub open spec fn hit_by(self, hand: Hand) -> Option<RayHit> {
        match hand {
            Hand::Left => self.left,
            Hand::Right => self.right,
        }
    }

    /// Where this hand's ray meets the panel.
    pub fn hit(&self, hand: Hand) -> (hit: Option<RayHit>)
        ensures
            hit == self.hit_by(hand),
    {
        match hand {
            Hand::Left => self.left,
            Hand::Right => self.right,
        }
    }
}

/// A hit together with the panel that was hit.
#[derive(Clone, Copy, Debug, PartialEq, Eq, Structural)]
pub struct PanelHit {
    pub id: PanelId,
    pub at: RayHit,
}

/// Whether (u, v) lies in the margin along a panel's edges.
pub open spec fn within_grab_margin(u: Scalar, v: Scalar) -> bool {
    let near = Scalar { bits: GRAB_MARGIN };
    let far = Scalar { bits: GRAB_MARGIN_FAR };
    u.below(near) || far.below(u) || v.below(near) || far.below(v)
}

/// Whether (u, v) lies in the margin along a panel's edges.
pub fn in_grab_margin(u: Scalar, v: Scalar) -> (answer: bool)
    ensures
        answer == within_grab_margin(u, v),
{
    let near = Scalar { bits: GRAB_MARGIN };
    let far = Scalar { bits: GRAB_MARGIN_FAR };
    u.less(near) || u.greater(far) || v.less(near) || v.greater(far)
}

/// What a dispatcher remembers of one hand between frames.
#[derive(Clone, Copy, Debug, PartialEq, Eq, Structural)]
pub struct HandTracking {
    /// Whether the trigger was pressed.
    pub trigger: bool,
    /// Whether the grip was held.
    pub grip: bool,
    /// Whether the A button was pressed.
    pub a_click: bool,
    /// The panel that the hand is grabbing.
    pub grab_active: Option<PanelId>,
}

/// Panels as both hands' rays meet them, in order.
pub open spec fn targets_of(
    panels: Seq<(PanelId, &PanelTransform)>,
    state: ControllerState,
) -> Seq<PanelTarget> {
    Seq::new(panels.len(), |i: int| PanelTarget::of_panel(panels[i].0, *panels[i].1, state))
}

/// Panels as both hands' rays meet them, in order.
pub fn aim(state: &ControllerState, panels: &[(PanelId, &PanelTransform)]) -> (targets: Vec<
    PanelTarget,
>)
    ensures
        targets@ == targets_of(panels@, *state),
{
    let mut targets: Vec<PanelTarget> = Vec::new();
    let mut index: usize = 0;
    while index < panels.len()
        invariant
            index <= panels.len(),
            targets@ =~= targets_of(panels@, *state).take(index as int),
        decreases panels.len() - index,
    {
        let (id, panel) = panels[index];
        targets.push(PanelTarget::aimed(id, panel, state));
        index += 1;
    }
    assert(targets@ =~= targets_of(panels@, *state));
    targets
}

/// The event that a hand's ray moved over a panel.
pub open spec fn move_event(hand: Hand, hit: PanelHit) -> (PanelId, InputEvent) {
    (
        hit.id,
        InputEvent::PointerMove { hand, u: hit.at.u, v: hit.at.v, distance: hit.at.distance },
    )
}

proof fn lemma_concat<T>(a: Seq<T>, b: Seq<T>, c: Seq<T>, d: Seq<T>)
    ensures
        a + b + c + d == a + (b + c + d),
{
    assert(a + b + c + d =~= a + (b + c + d));
}

/// The click events at the panel aimed at: a press when the trigger goes down
/// and a release when it goes up.
pub open spec fn click_events(
    hand: Hand,
    aimed: Option<PanelHit>,
    before: bool,
    now: bool,
) -> Seq<(PanelId, InputEvent)> {
    match aimed {
        None => Seq::empty(),
        Some(hit) => if now && !before {
            seq![(hit.id, InputEvent::PointerDown { hand, u: hit.at.u, v: hit.at.v })]
        } else if !now && before {
            seq![(hit.id, InputEvent::PointerUp { hand, u: hit.at.u, v: hit.at.v })]
        } else {
            Seq::empty()
        },
    }
}

/// What a hand that grabs `grabbed` does to it: the A button going down, then
/// the thumbstick outside its dead zone.
pub open spec fn held_by(
    grabbed: Option<PanelId>,
    hand: Hand,
    now: HandState,
    a_before: bool,
) -> Seq<(PanelId, InputEvent)> {
    match grabbed {
        None => Seq::empty(),
        Some(id) => {
            let pressed = if now.a_click && !a_before {
                seq![(id, InputEvent::ButtonPress { hand, button: Button::A })]
            } else {
                Seq::empty()
            };
            let moved = if now.stick_moved() {
                let x = now.thumbstick@[0];
                let y = now.thumbstick@[1];
                seq![(id, InputEvent::ThumbstickMove { hand, x, y })]
            } else {
                Seq::empty()
            };
            pressed + moved
        },
    }
}

impl HandTracking {
    /// Nothing pressed, nothing grabbed.
    pub open spec fn idle_spec() -> HandTracking {
        HandTracking { trigger: false, grip: false, a_click: false, grab_active: None }
    }

    /// Nothing pressed, nothing grabbed.
    pub fn idle() -> (tracking: HandTracking)
        ensures
            tracking == HandTracking::idle_spec(),
    {
        HandTracking { trigger: false, grip: false, a_click: false, grab_active: None }
    }

    /// A panel is grabbed only while the grip is held.
    pub open spec fn wf(self) -> bool {
        self.grab_active is Some ==> self.grip
    }

    /// The panel grabbed after this frame, where `offered` is the panel that a
    /// fresh grip would take hold of.
    pub open spec fn grabbed_next(self, now: HandState, offered: Option<PanelId>) -> Option<
        PanelId,
    > {
        if now.gripping() && !self.grip && offered is Some {
            offered
        } else if !now.gripping() && self.grip {
            None
        } else {
            self.grab_active
        }
    }

    /// What is remembered after this frame.
    pub open spec fn next(self, now: HandState, offered: Option<PanelId>) -> HandTracking {
        HandTracking {
            trigger: now.trigger_down(),
            grip: now.gripping(),
            a_click: now.a_click,
            grab_active: self.grabbed_next(now, offered),
        }
    }

    /// The grab events of this frame: a start for a fresh grip on `offered`,
    /// moves while a grab is held, and an end when the grip is let go.
    pub open spec fn grab_events(
        self,
        hand: Hand,
        now: HandState,
        offered: Option<PanelId>,
    ) -> Seq<(PanelId, InputEvent)> {
        let grip_pos = now.grip_pos;
        let grip_rot = now.grip_rot;
        if now.gripping() && !self.grip {
            match offered {
                Some(id) => seq![(id, InputEvent::GrabStart { hand, grip_pos, grip_rot })],
                None => Seq::empty(),
            }
        } else {
            match self.grab_active {
                Some(id) => if now.gripping() && self.grip {
                    seq![(id, InputEvent::GrabMove { hand, grip_pos, grip_rot })]
                } else if self.grip {
                    seq![(id, InputEvent::GrabEnd { hand })]
                } else {
                    Seq::empty()
                },
                None => Seq::empty(),
            }
        }
    }

    /// The events that only a grabbing hand makes.
    pub open spec fn held_events(
        self,
        hand: Hand,
        now: HandState,
        offered: Option<PanelId>,
    ) -> Seq<(PanelId, InputEvent)> {
        held_by(self.grabbed_next(now, offered), hand, now, self.a_click)
    }

    /// Everything after the pointer moves: clicks, grabs, then what a grabbing
    /// hand does.
    pub open spec fn action_events(
        self,
        hand: Hand,
        now: HandState,
        aimed: Option<PanelHit>,
        offered: Option<PanelId>,
    ) -> Seq<(PanelId, InputEvent)> {
        click_events(hand, aimed, self.trigger, now.trigger_down()) + self.grab_events(
            hand,
            now,
            offered,
        ) + self.held_events(hand, now, offered)
    }

    /// Append the click events, and remember the trigger.
    fn advance_trigger(
        &mut self,
        hand: Hand,
        now: &HandState,
        aimed: Option<PanelHit>,
        events: &mut Vec<(PanelId, InputEvent)>,
    )
        ensures
            *final(self) == (HandTracking { trigger: now.trigger_down(), ..*old(self) }),
            final(events)@ == old(events)@ + click_events(
                hand,
                aimed,
                old(self).trigger,
                now.trigger_down(),
            ),
    {
        let trigger_now = now.trigger.reaches(Scalar { bits: TRIGGER_THRESHOLD });
        let trigger_prev = self.trigger;
        if let Some(hit) = aimed {
            // Trigger rising edge -> PointerDown
            if trigger_now && !trigger_prev {
                events.push((hit.id, InputEvent::PointerDown { hand, u: hit.at.u, v: hit.at.v }));
            }
            // Trigger falling edge -> PointerUp
            if !trigger_now && trigger_prev {
                events.push((hit.id, InputEvent::PointerUp { hand, u: hit.at.u, v: hit.at.v }));
            }
        }
        self.trigger = trigger_now;
    }

    /// Append the grab events, and remember the grip and what it holds.
    fn advance_grip(
        &mut self,
        hand: Hand,
        now: &HandState,
        offered: Option<PanelId>,
        events: &mut Vec<(PanelId, InputEvent)>,
    )
        ensures
            *final(self) == (HandTracking {
                grip: now.gripping(),
                grab_active: old(self).grabbed_next(*now, offered),
                ..*old(self)
            }),
            final(events)@ == old(events)@ + old(self).grab_events(hand, *now, offered),
    {
        let grip_now = now.squeeze.reaches(Scalar { bits: GRIP_THRESHOLD });
        let grip_prev = self.grip;
        let grip_pos = now.grip_pos;
        let grip_rot = now.grip_rot;
        if grip_now && !grip_prev {
            if let Some(id) = offered {
                self.grab_active = Some(id);
                events.push((id, InputEvent::GrabStart { hand, grip_pos, grip_rot }));
            }
        } else if grip_now && grip_prev {
            if let Some(id) = self.grab_active {
                events.push((id, InputEvent::GrabMove { hand, grip_pos, grip_rot }));
            }
        } else if !grip_now && grip_prev {
            if let Some(id) = self.grab_active {
                self.grab_active = None;
                events.push((id, InputEvent::GrabEnd { hand }));
            }
        }
        self.grip = grip_now;
    }

    /// Append what a grabbing hand does, and remember the A button.
    fn advance_held(
        &mut self,
        hand: Hand,
        now: &HandState,
        events: &mut Vec<(PanelId, InputEvent)>,
    )
        ensures
            *final(self) == (HandTracking { a_click: now.a_click, ..*old(self) }),
            final(events)@ == old(events)@ + held_by(
                old(self).grab_active,
                hand,
                *now,
                old(self).a_click,
            ),
    {
        let pressed = now.a_click && !self.a_click;
        self.a_click = now.a_click;
        if let Some(id) = self.grab_active {
            // A button rising edge while grabbing
            if pressed {
                events.push((id, InputEvent::ButtonPress { hand, button: Button::A }));
            }
            let x = now.thumbstick[0];
            let y = now.thumbstick[1];
            if y.abs().greater(Scalar { bits: THUMBSTICK_DEADZONE }) {
                events.push((id, InputEvent::ThumbstickMove { hand, x, y }));
            }
        }
    }

    /// Append the events of one active hand, after its pointer moves, and
    /// remember this frame.
    pub fn advance(
        &mut self,
        hand: Hand,
        now: &HandState,
        aimed: Option<PanelHit>,
        offered: Option<PanelId>,
        events: &mut Vec<(PanelId, InputEvent)>,
    )
        ensures
            *final(self) == old(self).next(*now, offered),
            final(events)@ == old(events)@ + old(self).action_events(hand, *now, aimed, offered),
    {
        self.advance_trigger(hand, now, aimed, events);
        self.advance_grip(hand, now, offered, events);
        self.advance_held(hand, now, events);
        proof {
            lemma_concat(
                old(events)@,
                click_events(hand, aimed, old(self).trigger, now.trigger_down()),
                old(self).grab_events(hand, *now, offered),
                old(self).held_events(hand, *now, offered),
            );
        }
    }
}

/// The frontmost panel that the hand's ray meets, panels being listed front to
/// back.
pub open spec fn first_hit(panels: Seq<PanelTarget>, hand: Hand) -> Option<PanelHit>
    decreases panels.len(),
{
    if panels.len() == 0 {
        None
    } else {
        match panels[0].hit_by(hand) {
            Some(at) => Some(PanelHit { id: panels[0].id, at }),
            None => first_hit(panels.drop_first(), hand),
        }
    }
}

/// The panel that a grip at this hit takes hold of: the one hit, in its margin.
pub open spec fn margin_offer(aimed: Option<PanelHit>) -> Option<PanelId> {
    match aimed {
        Some(hit) => if within_grab_margin(hit.at.u, hit.at.v) {
            Some(hit.id)
        } else {
            None
        },
        None => None,
    }
}

/// Dispatches controller input to the frontmost panel that each ray meets.
#[derive(Clone, Copy, Debug)]
pub struct InputDispatcher {
    pub left: HandTracking,
    pub right: HandTracking,
}

impl InputDispatcher {
    /// Whether neither hand grabs without gripping.
    pub open spec fn wf(self) -> bool {
        self.left.wf() && self.right.wf()
    }

    /// The events of one hand this frame.
    pub open spec fn hand_events(
        before: HandTracking,
        hand: Hand,
        now: HandState,
        panels: Seq<PanelTarget>,
    ) -> Seq<(PanelId, InputEvent)> {
        let aimed = first_hit(panels, hand);
        let moved = match aimed {
            Some(hit) => seq![move_event(hand, hit)],
            None => Seq::empty(),
        };
        if now.active {
            moved + before.action_events(hand, now, aimed, margin_offer(aimed))
        } else {
            Seq::empty()
        }
    }

    /// What is remembered of one hand after this frame.
    pub open spec fn hand_next(
        before: HandTracking,
        hand: Hand,
        now: HandState,
        panels: Seq<PanelTarget>,
    ) -> HandTracking {
        if now.active {
            before.next(now, margin_offer(first_hit(panels, hand)))
        } else {
            before
        }
    }

    /// A dispatcher that remembers nothing.
    pub fn new() -> (dispatcher: Self)
        ensures
            dispatcher.left == HandTracking::idle_spec(),
            dispatcher.right == HandTracking::idle_spec(),
            dispatcher.wf(),
    {
        InputDispatcher { left: HandTracking::idle(), right: HandTracking::idle() }
    }

    fn process_hand(
        tracking: &mut HandTracking,
        hand: Hand,
        now: &HandState,
        panels: &[PanelTarget],
        events: &mut Vec<(PanelId, InputEvent)>,
    )
        ensures
            *final(tracking) == Self::hand_next(*old(tracking), hand, *now, panels@),
            final(events)@ == old(events)@ + Self::hand_events(
                *old(tracking),
                hand,
                *now,
                panels@,
            ),
    {
        if !now.active {
            assert(events@ =~= old(events)@ + Seq::empty());
            return;
        }
        let mut aimed: Option<PanelHit> = None;
        let mut index: usize = 0;
        assert(panels@.skip(0) =~= panels@);
        while index < panels.len() && aimed.is_none()
            invariant
                index <= panels.len(),
                aimed is Some ==> aimed == first_hit(panels@, hand),
                aimed is None ==> first_hit(panels@, hand) == first_hit(
                    panels@.skip(index as int),
                    hand,
                ),
            decreases panels.len() - index,
        {
            assert(panels@.skip(index as int).drop_first() =~= panels@.skip(index + 1));
            assert(panels@.skip(index as int)[0] == panels@[index as int]);
            if let Some(at) = panels[index].hit(hand) {
                aimed = Some(PanelHit { id: panels[index].id, at });
            }
            index += 1;
        }
        assert(aimed == first_hit(panels@, hand));
        let ghost before = events@;
        let mut offered: Option<PanelId> = None;
        if let Some(hit) = aimed {
            events.push(
                (
                    hit.id,
                    InputEvent::PointerMove {
                        hand,
                        u: hit.at.u,
                        v: hit.at.v,
                        distance: hit.at.distance,
                    },
                ),
            );
            if in_grab_margin(hit.at.u, hit.at.v) {
                offered = Some(hit.id);
            }
        }
        tracking.advance(hand, now, aimed, offered, events);
        assert(events@ =~= before + Self::hand_events(*old(tracking), hand, *now, panels@));
    }

    /// Process one frame: the left hand's events, then the right hand's.
    ///
    /// `panels` should be in front-to-back order (first = closest/focused).
    /// Returns `(panel_id, event)` pairs to dispatch.
    pub fn process(
        &mut self,
        state: &ControllerState,
        panels: &[(PanelId, &PanelTransform)],
    ) -> (events: Vec<(PanelId, InputEvent)>)
        ensures
            ({
                let targets = targets_of(panels@, *state);
                let (left, right) = (old(self).left, old(self).right);
                &&& final(self).left == Self::hand_next(left, Hand::Left, state.left, targets)
                &&& final(self).right == Self::hand_next(right, Hand::Right, state.right, targets)
                &&& events@ == Self::hand_events(left, Hand::Left, state.left, targets)
                    + Self::hand_events(right, Hand::Right, state.right, targets)
            }),
    {
        let targets = aim(state, panels);
        self.dispatch(state, targets.as_slice())
    }

    /// Process one frame of panels that the rays were tested against.
    pub fn dispatch(
        &mut self,
        state: &ControllerState,
        panels: &[PanelTarget],
    ) -> (events: Vec<(PanelId, InputEvent)>)
        ensures
            final(self).left == Self::hand_next(old(self).left, Hand::Left, state.left, panels@),
            final(self).right == Self::hand_next(
                old(self).right,
                Hand::Right,
                state.right,
                panels@,
            ),
            events@ == Self::hand_events(old(self).left, Hand::Left, state.left, panels@)
                + Self::hand_events(old(self).right, Hand::Right, state.right, panels@),
    {
        let mut events: Vec<(PanelId, InputEvent)> = Vec::new();
        Self::process_hand(&mut self.left, Hand::Left, &state.left, panels, &mut events);
        let ghost left = events@;
        assert(left =~= Self::hand_events(old(self).left, Hand::Left, state.left, panels@));
        Self::process_hand(&mut self.right, Hand::Right, &state.right, panels, &mut events);
        events
    }
}

/// A hand grabs a panel only while it grips, whatever it does.
pub proof fn law_grab_needs_grip(before: HandTracking, now: HandState, offered: Option<PanelId>)
    requires
        before.wf(),
    ensures
        before.next(now, offered).wf(),
{
}

/// The dispatcher keeps that hands grab only while they grip.
pub proof fn law_dispatch_keeps_grabs_gripped(
    before: HandTracking,
    hand: Hand,
    now: HandState,
    panels: Seq<PanelTarget>,
)
    requires
        before.wf(),
    ensures
        InputDispatcher::hand_next(before, hand, now, panels).wf(),
{
}

/// A hand that is not there makes no events and forgets nothing.
pub proof fn law_inactive_hand_is_silent(
    before: HandTracking,
    hand: Hand,
    now: HandState,
    panels: Seq<PanelTarget>,
)
    requires
        !now.active,
    ensures
        InputDispatcher::hand_events(before, hand, now, panels).len() == 0,
        InputDispatcher::hand_next(before, hand, now, panels) == before,
{
}

/// One pull of the trigger clicks once: a frame that leaves the trigger as it
/// was presses and releases nothing, wherever the hand points meanwhile.
pub proof fn law_held_trigger_does_not_repeat(
    before: HandTracking,
    hand: Hand,
    now: HandState,
    later: HandState,
    offered: Option<PanelId>,
    aimed: Option<PanelHit>,
)
    requires
        later.trigger_down() == now.trigger_down(),
    ensures
        click_events(
            hand,
            aimed,
            before.next(now, offered).trigger,
            later.trigger_down(),
        ).len() == 0,
{
}

/// A press is followed by a release before the next press: after a frame with a
/// press the trigger counts as down, and after one with a release as up.
pub proof fn law_presses_and_releases_alternate(
    before: HandTracking,
    hand: Hand,
    now: HandState,
    hit: PanelHit,
    offered: Option<PanelId>,
)
    ensures
        ({
            let events = click_events(hand, Some(hit), before.trigger, now.trigger_down());
            let after = before.next(now, offered);
            &&& events.len() <= 1
            &&& (events.len() == 1 && events[0].1 is PointerDown) <==> (!before.trigger
                && after.trigger)
            &&& (events.len() == 1 && events[0].1 is PointerUp) <==> (before.trigger
                && !after.trigger)
        }),
{
}

/// The life of a grab: it starts with a start event on the panel taken hold of,
/// every further frame moves that same panel, and letting go ends it.
pub proof fn law_grab_lifecycle(
    before: HandTracking,
    hand: Hand,
    now: HandState,
    offered: Option<PanelId>,
)
    requires
        before.wf(),
    ensures
        ({
            let events = before.grab_events(hand, now, offered);
            match (before.grab_active, before.next(now, offered).grab_active) {
                (None, None) => events.len() == 0,
                (None, Some(taken)) => events.len() == 1 && events[0].0 == taken && events[0].1
                    is GrabStart,
                (Some(held), Some(kept)) => kept == held && events.len() == 1 && events[0].0 == held
                    && events[0].1 is GrabMove,
                (Some(held), None) => events.len() == 1 && events[0].0 == held && events[0].1
                    is GrabEnd,
            }
        }),
{
}

/// The frontmost panel hit really is hit, and no panel before it is.
pub proof fn law_first_hit_is_frontmost(panels: Seq<PanelTarget>, hand: Hand)
    ensures
        first_hit(panels, hand) is None <==> forall|i: int|
            0 <= i < panels.len() ==> (#[trigger] panels[i]).hit_by(hand) is None,
        forall|k: int|
            0 <= k < panels.len() && (forall|i: int|
                0 <= i < k ==> (#[trigger] panels[i]).hit_by(hand) is None)
                && (#[trigger] panels[k]).hit_by(hand) is Some ==> first_hit(panels, hand) == Some(
                PanelHit { id: panels[k].id, at: panels[k].hit_by(hand)->0 },
            ),
    decreases panels.len(),
{
    if panels.len() > 0 {
        let rest = panels.drop_first();
        law_first_hit_is_frontmost(rest, hand);
        assert forall|i: int| 0 <= i < rest.len() implies #[trigger] rest[i] == panels[i + 1] by {}
        if panels[0].hit_by(hand) is None {
            if first_hit(panels, hand) is None {
                assert forall|i: int| 0 <= i < panels.len() implies (#[trigger] panels[i]).hit_by(
                    hand,
                ) is None by {
                    if i > 0 {
                        assert(rest[i - 1] == panels[i]);
                    }
                }
            } else if forall|i: int|
                0 <= i < panels.len() ==> (#[trigger] panels[i]).hit_by(hand) is None {
                assert forall|i: int| 0 <= i < rest.len() implies (#[trigger] rest[i]).hit_by(
                    hand,
                ) is None by {
                    assert(rest[i] == panels[i + 1]);
                }
            }
            assert forall|k: int|
                0 <= k < panels.len() && (forall|i: int|
                    0 <= i < k ==> (#[trigger] panels[i]).hit_by(hand) is None)
                    && (#[trigger] panels[k]).hit_by(hand) is Some implies first_hit(panels, hand)
                == Some(PanelHit { id: panels[k].id, at: panels[k].hit_by(hand)->0 }) by {
                assert(k > 0);
                assert(rest[k - 1] == panels[k]);
                assert forall|i: int| 0 <= i < k - 1 implies (#[trigger] rest[i]).hit_by(
                    hand,
                ) is None by {
                    assert(rest[i] == panels[i + 1]);
                }
            }
        }
    }
}

/// Whether a trigger is pulled: at least half.
pub open spec fn is_pulled(now: HandState) -> bool {
    (Scalar { bits: 0x3f00_0000 }).at_most(now.trigger)
}

/// Whether a hand grips: by 0.7 at least.
pub open spec fn is_gripped(now: HandState) -> bool {
    (Scalar { bits: 0x3f33_3333 }).at_most(now.squeeze)
}

/// Whether a point lies within 0.15 of an edge of its panel.
pub open spec fn near_edge(at: RayHit) -> bool {
    let near = Scalar { bits: 0x3e19_999a };
    let far = Scalar { bits: 0x3f59_999a };
    at.u.below(near) || far.below(at.u) || at.v.below(near) || far.below(at.v)
}

/// Whether an event is what a hand does, beside pointing: it pulls the trigger at the panel
/// aimed at, or lets go of it there; it grips the panel offered; it carries the panel that
/// it holds, or lets it go; with a panel in its grip it presses A or pushes the thumbstick.
pub open spec fn does(
    before: HandTracking,
    hand: Hand,
    now: HandState,
    aimed: Option<PanelHit>,
    offered: Option<PanelId>,
    event: (PanelId, InputEvent),
) -> bool {
    let grip_pos = now.grip_pos;
    let grip_rot = now.grip_rot;
    let grips = is_gripped(now) && !before.grip && offered is Some;
    let holds = grips || (before.grab_active is Some && !(before.grip && !is_gripped(now)));
    let held = if grips {
        offered->0
    } else {
        before.grab_active->0
    };
    let stick = now.thumbstick@;
    ||| is_pulled(now) && !before.trigger && aimed is Some && event == (
        aimed->0.id,
        InputEvent::PointerDown { hand, u: aimed->0.at.u, v: aimed->0.at.v },
    )
    ||| !is_pulled(now) && before.trigger && aimed is Some && event == (
        aimed->0.id,
        InputEvent::PointerUp { hand, u: aimed->0.at.u, v: aimed->0.at.v },
    )
    ||| grips && event == (offered->0, InputEvent::GrabStart { hand, grip_pos, grip_rot })
    ||| is_gripped(now) && before.grip && before.grab_active is Some && event == (
        before.grab_active->0,
        InputEvent::GrabMove { hand, grip_pos, grip_rot },
    )
    ||| !is_gripped(now) && before.grip && before.grab_active is Some && event == (
        before.grab_active->0,
        InputEvent::GrabEnd { hand },
    )
    ||| holds && now.a_click && !before.a_click && event == (
        held,
        InputEvent::ButtonPress { hand, button: Button::A },
    )
    ||| holds && (Scalar { bits: 0x3e99_999a }).below(stick[1].unsigned()) && event == (
        held,
        InputEvent::ThumbstickMove { hand, x: stick[0], y: stick[1] },
    )
}

/// The events of a hand, beside its pointing, are what it does and nothing else, each once.
pub proof fn law_hands_do_what_they_do(
    before: HandTracking,
    hand: Hand,
    now: HandState,
    aimed: Option<PanelHit>,
    offered: Option<PanelId>,
    event: (PanelId, InputEvent),
)
    ensures
        before.action_events(hand, now, aimed, offered).contains(event) <==> does(
            before,
            hand,
            now,
            aimed,
            offered,
            event,
        ),
        before.action_events(hand, now, aimed, offered).no_duplicates(),
{
    let clicks = click_events(hand, aimed, before.trigger, now.trigger_down());
    let grabs = before.grab_events(hand, now, offered);
    let held = before.held_events(hand, now, offered);
    let all = before.action_events(hand, now, aimed, offered);
    assert(all =~= clicks + grabs + held);
    lemma_in_sum(clicks + grabs, held, event);
    lemma_in_sum(clicks, grabs, event);
    lemma_clicks(before, hand, now, aimed, event);
    lemma_grabs(before, hand, now, offered, event);
    lemma_held(before, hand, now, offered, event);
    assert forall|i: int, j: int| 0 <= i < j < all.len() implies all[i] != all[j] by {
        law_hands_act_in_turn(before, hand, now, aimed, offered, i, j);
    }
}

proof fn lemma_clicks(
    before: HandTracking,
    hand: Hand,
    now: HandState,
    aimed: Option<PanelHit>,
    event: (PanelId, InputEvent),
)
    ensures
        click_events(hand, aimed, before.trigger, now.trigger_down()).contains(event) <==> {
            ||| is_pulled(now) && !before.trigger && aimed is Some && event == (
                aimed->0.id,
                InputEvent::PointerDown { hand, u: aimed->0.at.u, v: aimed->0.at.v },
            )
            ||| !is_pulled(now) && before.trigger && aimed is Some && event == (
                aimed->0.id,
                InputEvent::PointerUp { hand, u: aimed->0.at.u, v: aimed->0.at.v },
            )
        },
{
    let clicks = click_events(hand, aimed, before.trigger, now.trigger_down());
    assert(clicks.len() <= 1);
    if clicks.len() == 1 {
        assert(clicks.contains(clicks[0]));
    }
}

proof fn lemma_grabs(
    before: HandTracking,
    hand: Hand,
    now: HandState,
    offered: Option<PanelId>,
    event: (PanelId, InputEvent),
)
    ensures
        before.grab_events(hand, now, offered).contains(event) <==> {
            let grip_pos = now.grip_pos;
            let grip_rot = now.grip_rot;
            ||| is_gripped(now) && !before.grip && offered is Some && event == (
                offered->0,
                InputEvent::GrabStart { hand, grip_pos, grip_rot },
            )
            ||| is_gripped(now) && before.grip && before.grab_active is Some && event == (
                before.grab_active->0,
                InputEvent::GrabMove { hand, grip_pos, grip_rot },
            )
            ||| !is_gripped(now) && before.grip && before.grab_active is Some && event == (
                before.grab_active->0,
                InputEvent::GrabEnd { hand },
            )
        },
{
    let grabs = before.grab_events(hand, now, offered);
    assert(grabs.len() <= 1);
    if grabs.len() == 1 {
        assert(grabs.contains(grabs[0]));
    }
}

proof fn lemma_held(
    before: HandTracking,
    hand: Hand,
    now: HandState,
    offered: Option<PanelId>,
    event: (PanelId, InputEvent),
)
    ensures
        before.held_events(hand, now, offered).contains(event) <==> {
            let grips = is_gripped(now) && !before.grip && offered is Some;
            let holds = grips || (before.grab_active is Some && !(before.grip && !is_gripped(
                now,
            )));
            let held = if grips {
                offered->0
            } else {
                before.grab_active->0
            };
            let stick = now.thumbstick@;
            ||| holds && now.a_click && !before.a_click && event == (
                held,
                InputEvent::ButtonPress { hand, button: Button::A },
            )
            ||| holds && (Scalar { bits: 0x3e99_999a }).below(stick[1].unsigned()) && event == (
                held,
                InputEvent::ThumbstickMove { hand, x: stick[0], y: stick[1] },
            )
        },
{
    let held = before.held_events(hand, now, offered);
    assert(held.len() <= 2);
    if held.len() >= 1 {
        assert(held.contains(held[0]));
    }
    if held.len() == 2 {
        assert(held.contains(held[1]));
    }
}

/// Two sequences put together hold what either of them holds.
pub proof fn lemma_in_sum<T>(a: Seq<T>, b: Seq<T>, x: T)
    ensures
        (a + b).contains(x) <==> a.contains(x) || b.contains(x),
{
    let all = a + b;
    if a.contains(x) {
        let i = choose|i: int| 0 <= i < a.len() && a[i] == x;
        assert(all[i] == x);
    }
    if b.contains(x) {
        let i = choose|i: int| 0 <= i < b.len() && b[i] == x;
        assert(all[a.len() + i] == x);
    }
    if all.contains(x) {
        let i = choose|i: int| 0 <= i < all.len() && all[i] == x;
        if i < a.len() {
            assert(a[i] == x);
        } else {
            assert(b[i - a.len()] == x);
        }
    }
}

/// What is remembered of a hand is what it did: whether its trigger was pulled, whether it
/// gripped, whether A was pressed, and the panel it took hold of and has not let go.
pub proof fn law_hands_are_remembered(
    before: HandTracking,
    now: HandState,
    offered: Option<PanelId>,
)
    ensures
        ({
            let after = before.next(now, offered);
            let fresh = is_gripped(now) && !before.grip && offered is Some;
            &&& after.trigger == is_pulled(now)
            &&& after.grip == is_gripped(now)
            &&& after.a_click == now.a_click
            &&& fresh ==> after.grab_active == offered
            &&& !is_gripped(now) && before.grip ==> after.grab_active is None
            &&& !fresh && !(!is_gripped(now) && before.grip) ==> after.grab_active
                == before.grab_active
        }),
{
}

/// The events of an active hand in front of panels listed front to back: it points at the
/// first panel that its ray meets, and everything that it does goes there, a grip only near
/// an edge.
pub proof fn law_frontmost_panel_is_served(
    before: HandTracking,
    hand: Hand,
    now: HandState,
    panels: Seq<PanelTarget>,
    k: int,
    event: (PanelId, InputEvent),
)
    requires
        now.active,
        0 <= k < panels.len(),
        panels[k].hit_by(hand) is Some,
        forall|i: int| 0 <= i < k ==> (#[trigger] panels[i]).hit_by(hand) is None,
    ensures
        ({
            let at = panels[k].hit_by(hand)->0;
            let id = panels[k].id;
            let aimed = Some(PanelHit { id, at });
            let offered = if near_edge(at) {
                Some(id)
            } else {
                None
            };
            let moved = (
                id,
                InputEvent::PointerMove { hand, u: at.u, v: at.v, distance: at.distance },
            );
            let events = InputDispatcher::hand_events(before, hand, now, panels);
            &&& events.contains(event) <==> event == moved || does(
                before,
                hand,
                now,
                aimed,
                offered,
                event,
            )
            &&& events[0] == moved
            &&& InputDispatcher::hand_next(before, hand, now, panels) == before.next(now, offered)
        }),
{
    law_first_hit_is_frontmost(panels, hand);
    let at = panels[k].hit_by(hand)->0;
    let id = panels[k].id;
    let aimed = Some(PanelHit { id, at });
    let offered = if near_edge(at) {
        Some(id)
    } else {
        None
    };
    assert(first_hit(panels, hand) == aimed);
    assert(margin_offer(aimed) == offered);
    let moved = (id, InputEvent::PointerMove { hand, u: at.u, v: at.v, distance: at.distance });
    let acted = before.action_events(hand, now, aimed, offered);
    assert(InputDispatcher::hand_events(before, hand, now, panels) =~= seq![moved] + acted);
    lemma_in_sum(seq![moved], acted, event);
    assert(seq![moved][0] == moved);
    assert(seq![moved].contains(moved));
    law_hands_do_what_they_do(before, hand, now, aimed, offered, event);
}

/// A panel is offered to the rays under its own id: the left hand's ray is tested from the
/// left hand, the right hand's from the right hand, in the order of the panels.
pub proof fn law_targets_are_their_panels(
    panels: Seq<(PanelId, &PanelTransform)>,
    state: ControllerState,
    i: int,
)
    requires
        0 <= i < panels.len(),
    ensures
        ({
            let target = targets_of(panels, state)[i];
            let panel = *panels[i].1;
            &&& targets_of(panels, state).len() == panels.len()
            &&& target.id == panels[i].0
            &&& target.grabbable == panel.grabbable
            &&& target.hit_by(Hand::Left) == panel.hit_by(state.left.aim_pos, state.left.aim_dir)
            &&& target.hit_by(Hand::Right) == panel.hit_by(
                state.right.aim_pos,
                state.right.aim_dir,
            )
            &&& target.left == target.hit_by(Hand::Left)
            &&& target.right == target.hit_by(Hand::Right)
        }),
{
}

/// Panels follow the right hand while it is there, else the left one.
pub proof fn law_right_hand_leads(state: ControllerState)
    ensures
        state.right.active ==> state.leading() == state.right,
        !state.right.active ==> state.leading() == state.left,
        state.of_hand(Hand::Left) == state.left,
        state.of_hand(Hand::Right) == state.right,
{
}

/// When an event has its turn within a frame: pointing first, then the trigger, then the
/// grip, then a button, then the thumbstick, then text.
pub open spec fn turn_of(event: InputEvent) -> int {
    match event {
        InputEvent::PointerMove { .. } => 0,
        InputEvent::PointerDown { .. } => 1,
        InputEvent::PointerUp { .. } => 1,
        InputEvent::GrabStart { .. } => 2,
        InputEvent::GrabMove { .. } => 2,
        InputEvent::GrabEnd { .. } => 2,
        InputEvent::ButtonPress { .. } => 3,
        InputEvent::ButtonRelease { .. } => 3,
        InputEvent::ThumbstickMove { .. } => 4,
        InputEvent::TextInput { .. } => 5,
    }
}

/// What a hand does comes in turn, and each turn at most once.
pub proof fn law_hands_act_in_turn(
    before: HandTracking,
    hand: Hand,
    now: HandState,
    aimed: Option<PanelHit>,
    offered: Option<PanelId>,
    i: int,
    j: int,
)
    requires
        0 <= i < j < before.action_events(hand, now, aimed, offered).len(),
    ensures
        ({
            let events = before.action_events(hand, now, aimed, offered);
            1 <= turn_of(events[i].1) < turn_of(events[j].1)
        }),
{
    let clicks = click_events(hand, aimed, before.trigger, now.trigger_down());
    let grabs = before.grab_events(hand, now, offered);
    let held = before.held_events(hand, now, offered);
    assert(clicks.len() <= 1 && grabs.len() <= 1 && held.len() <= 2);
    assert(clicks.len() == 1 ==> turn_of(clicks[0].1) == 1);
    assert(grabs.len() == 1 ==> turn_of(grabs[0].1) == 2);
    assert(held.len() >= 1 ==> turn_of(held[0].1) >= 3);
    assert(held.len() == 2 ==> turn_of(held[0].1) == 3 && turn_of(held[1].1) == 4);
    let all = before.action_events(hand, now, aimed, offered);
    assert(all =~= clicks + grabs + held);
}

/// An active hand in front of listed panels points first, and then acts in turn.
pub proof fn law_pointing_comes_first(
    before: HandTracking,
    hand: Hand,
    now: HandState,
    panels: Seq<PanelTarget>,
    i: int,
    j: int,
)
    requires
        0 <= i < j < InputDispatcher::hand_events(before, hand, now, panels).len(),
    ensures
        ({
            let events = InputDispatcher::hand_events(before, hand, now, panels);
            turn_of(events[i].1) < turn_of(events[j].1)
        }),
{
    let aimed = first_hit(panels, hand);
    let offered = margin_offer(aimed);
    let acted = before.action_events(hand, now, aimed, offered);
    let moved = match aimed {
        Some(hit) => seq![move_event(hand, hit)],
        None => Seq::empty(),
    };
    assert(InputDispatcher::hand_events(before, hand, now, panels) =~= moved + acted);
    let n = moved.len() as int;
    let clicks = click_events(hand, aimed, before.trigger, now.trigger_down());
    let grabs = before.grab_events(hand, now, offered);
    let held = before.held_events(hand, now, offered);
    assert(acted =~= clicks + grabs + held);
    assert(turn_of(acted[j - n].1) >= 1);
    if i >= n {
        law_hands_act_in_turn(before, hand, now, aimed, offered, i - n, j - n);
    }
}

/// A hand whose ray meets none of the listed panels points at none and clicks none, and a
/// fresh grip takes hold of nothing; it still carries what it holds.
pub proof fn law_pointing_at_nothing(
    before: HandTracking,
    hand: Hand,
    now: HandState,
    panels: Seq<PanelTarget>,
    event: (PanelId, InputEvent),
)
    requires
        now.active,
        forall|j: int| 0 <= j < panels.len() ==> (#[trigger] panels[j]).hit_by(hand) is None,
    ensures
        InputDispatcher::hand_events(before, hand, now, panels).contains(event) <==> does(
            before,
            hand,
            now,
            None,
            None,
            event,
        ),
        InputDispatcher::hand_next(before, hand, now, panels) == before.next(now, None),
{
    law_first_hit_is_frontmost(panels, hand);
    lemma_no_hit(panels, hand);
    law_hands_do_what_they_do(before, hand, now, None, None, event);
    assert(InputDispatcher::hand_events(before, hand, now, panels) =~= before.action_events(
        hand,
        now,
        None,
        None,
    ));
}

proof fn lemma_no_hit(panels: Seq<PanelTarget>, hand: Hand)
    requires
        forall|j: int| 0 <= j < panels.len() ==> (#[trigger] panels[j]).hit_by(hand) is None,
    ensures
        first_hit(panels, hand) is None,
    decreases panels.len(),
{
    if panels.len() > 0 {
        let rest = panels.drop_first();
        assert forall|j: int| 0 <= j < rest.len() implies (#[trigger] rest[j]).hit_by(
            hand,
        ) is None by {
            assert(rest[j] == panels[j + 1]);
        }
        lemma_no_hit(rest, hand);
        assert(panels[0].hit_by(hand) is None);
    }
}

/// A hand that is not there is at the origin, turned no way, with nothing pressed or touched;
/// of a hand that did nothing yet nothing is remembered.
pub proof fn law_absent_hands(hand: HandState)
    requires
        hand.absent(),
    ensures
        !hand.active,
        hand.grip_pos.x.bits == 0 && hand.grip_pos.y.bits == 0 && hand.grip_pos.z.bits == 0,
        hand.aim_pos.x.bits == 0 && hand.aim_pos.y.bits == 0 && hand.aim_pos.z.bits == 0,
        hand.aim_dir.x.bits == 0 && hand.aim_dir.y.bits == 0 && hand.aim_dir.z.bits == 0,
        hand.grip_rot.x.bits == 0 && hand.grip_rot.y.bits == 0 && hand.grip_rot.z.bits == 0,
        hand.grip_rot.w.bits == 0x3f80_0000,
        hand.trigger.bits == 0 && hand.squeeze.bits == 0,
        hand.thumbstick@.len() == 2,
        hand.thumbstick@[0].bits == 0 && hand.thumbstick@[1].bits == 0,
        !hand.a_click && !hand.b_click && !hand.x_click && !hand.y_click,
        !hand.menu_click && !hand.thumbstick_click,
        !hand.a_touch && !hand.b_touch && !hand.x_touch && !hand.y_touch,
        !hand.trigger_touch && !hand.thumbstick_touch,
        !HandTracking::idle_spec().trigger && !HandTracking::idle_spec().grip,
        !HandTracking::idle_spec().a_click && HandTracking::idle_spec().grab_active is None,
{
}

} // verus!
