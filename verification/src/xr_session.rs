//! The XR session: what is asked of the runtime, how the session starts and ends, and
//! the data of hands and controllers each frame.

use crate::geometry::{Quat, Vec3, Vec4, ONE_BITS};
use crate::input::{Hand, HandState};
use crate::renderer::{HAND_JOINTS, JOINT_COUNT};
use crate::scalar::Scalar;
use crate::shell::interaction::HapticPulse;
use crate::text::{decimal, numbered};
use vstd::prelude::*;
use vstd::string::*;

verus! {

/// 0.02, the radius that a controller's grip is drawn with.
pub const GRIP_RADIUS: u32 = 0x3ca3_d70a;

/// 0.8, the trigger or squeeze value above which a controller pulses.
pub const PULSE_THRESHOLD: u32 = 0x3f4c_cccd;

// ----------------------------------------------------------------------
// What is asked of the runtime
// ----------------------------------------------------------------------
/// Extensions of the runtime.
#[derive(Clone, Copy, Debug, PartialEq, Eq, Structural)]
pub struct Extensions {
    pub vulkan: bool,
    pub quad_views: bool,
    pub hand_tracking: bool,
    pub depth: bool,
}

/// The extensions to enable: rendering always, the others where they are available.
pub fn choose_extensions(available: Extensions) -> (enabled: Extensions)
    ensures
        enabled == (Extensions { vulkan: true, ..available }),
{
    Extensions {
        vulkan: true,
        quad_views: available.quad_views,
        hand_tracking: available.hand_tracking,
        depth: available.depth,
    }
}

/// How the eyes are rendered.
#[derive(Clone, Copy, Debug, PartialEq, Eq, Structural)]
pub enum ViewConfiguration {
    /// Two views per eye, the inner one finer.
    QuadVarjo,
    /// One view per eye.
    Stereo,
}

/// How the eyes are rendered: with quad views if the runtime has them and the device
/// supports them.
pub fn choose_views(has_quad_views: bool, quad_supported: bool) -> (views: ViewConfiguration)
    ensures
        views == if has_quad_views && quad_supported {
            ViewConfiguration::QuadVarjo
        } else {
            ViewConfiguration::Stereo
        },
{
    if has_quad_views && quad_supported {
        ViewConfiguration::QuadVarjo
    } else {
        ViewConfiguration::Stereo
    }
}

/// Check that there is a view for each eye.
pub fn check_views(count: usize) -> (checked: Result<(), String>)
    ensures
        checked is Ok <==> count >= 2,
        checked matches Err(message) ==> message@ == "Expected at least 2 views, got "@ + decimal(
            count as nat,
        ),
{
    if count >= 2 {
        return Ok(());
    }
    let message = numbered("Expected at least 2 views, got ", count as u128, "");
    proof {
        reveal_strlit("");
    }
    assert(message@ =~= "Expected at least 2 views, got "@ + decimal(count as nat));
    Err(message)
}

/// What a view is called.
pub open spec fn view_name(count: int, index: int) -> Seq<char> {
    if count == 4 {
        if index == 0 {
            "peripheral L"@
        } else if index == 1 {
            "peripheral R"@
        } else if index == 2 {
            "foveal L"@
        } else if index == 3 {
            "foveal R"@
        } else {
            "?"@
        }
    } else if index == 0 {
        "left"@
    } else if index == 1 {
        "right"@
    } else {
        "?"@
    }
}

/// What a view is called.
pub fn view_label(count: usize, index: usize) -> (label: &'static str)
    ensures
        label@ == view_name(count as int, index as int),
{
    if count == 4 {
        match index {
            0 => "peripheral L",
            1 => "peripheral R",
            2 => "foveal L",
            3 => "foveal R",
            _ => "?",
        }
    } else {
        match index {
            0 => "left",
            1 => "right",
            _ => "?",
        }
    }
}

// ----------------------------------------------------------------------
// How the session starts and ends
// ----------------------------------------------------------------------
/// Something that the runtime reports.
#[derive(Clone, Copy, Debug, PartialEq, Eq, Structural)]
pub enum SessionEvent {
    Ready,
    Stopping,
    LossPending,
    Exiting,
    /// Any other state of the session.
    OtherState,
    InstanceLossPending,
    EventsLost,
    Other,
}

/// What to do about it.
#[derive(Clone, Copy, Debug, PartialEq, Eq, Structural)]
pub enum SessionAction {
    Nothing,
    Begin,
    End,
    /// Leave the main loop.
    Leave,
}

/// What to do when the loop comes round.
#[derive(Clone, Copy, Debug, PartialEq, Eq, Structural)]
pub enum LoopAction {
    Continue,
    /// Ask the runtime to end the session.
    RequestExit,
    /// Leave the main loop.
    Leave,
}

/// What to do once the runtime's events are handled.
#[derive(Clone, Copy, Debug, PartialEq, Eq, Structural)]
pub enum FrameAction {
    /// Wait a moment for the session to run.
    Sleep,
    /// Wait for the next frame.
    Frame,
}

/// What to do with a frame.
#[derive(Clone, Copy, Debug, PartialEq, Eq, Structural)]
pub enum RenderAction {
    /// End it without a picture.
    EndEmpty,
    Render,
}

/// The main loop of a session.
#[derive(Clone, Copy, Debug, PartialEq, Eq, Structural)]
pub struct SessionLoop {
    pub running: bool,
}

impl SessionLoop {
    /// A session that has not begun.
    pub fn new() -> (session: SessionLoop)
        ensures
            !session.running,
    {
        SessionLoop { running: false }
    }

    /// What to do when the loop comes round: once the application is to stop, a session
    /// that runs is asked to end, and without one the loop ends.
    pub open spec fn round(self, keep_running: bool) -> LoopAction {
        if keep_running {
            LoopAction::Continue
        } else if self.running {
            LoopAction::RequestExit
        } else {
            LoopAction::Leave
        }
    }

    /// What to do when the loop comes round.
    pub fn begin_round(&self, keep_running: bool) -> (action: LoopAction)
        ensures
            action == self.round(keep_running),
    {
        if keep_running {
            LoopAction::Continue
        } else if self.running {
            LoopAction::RequestExit
        } else {
            LoopAction::Leave
        }
    }

    /// The loop after an event.
    pub open spec fn after(self, event: SessionEvent) -> SessionLoop {
        match event {
            SessionEvent::Ready => SessionLoop { running: true },
            SessionEvent::Stopping => SessionLoop { running: false },
            _ => self,
        }
    }

    /// What to do about an event.
    pub open spec fn reply(event: SessionEvent) -> SessionAction {
        match event {
            SessionEvent::Ready => SessionAction::Begin,
            SessionEvent::Stopping => SessionAction::End,
            SessionEvent::LossPending => SessionAction::Leave,
            SessionEvent::Exiting => SessionAction::Leave,
            SessionEvent::InstanceLossPending => SessionAction::Leave,
            _ => SessionAction::Nothing,
        }
    }

    /// Handle an event of the runtime.
    pub fn handle_event(&mut self, event: SessionEvent) -> (action: SessionAction)
        ensures
            *final(self) == old(self).after(event),
            action == SessionLoop::reply(event),
    {
        match event {
            SessionEvent::Ready => {
                self.running = true;
                SessionAction::Begin
            },
            SessionEvent::Stopping => {
                self.running = false;
                SessionAction::End
            },
            SessionEvent::LossPending | SessionEvent::Exiting | SessionEvent::InstanceLossPending => {
                SessionAction::Leave
            },
            SessionEvent::OtherState | SessionEvent::EventsLost | SessionEvent::Other => {
                SessionAction::Nothing
            },
        }
    }

    /// What to do once the events are handled.
    pub fn next_frame(&self) -> (action: FrameAction)
        ensures
            action == if self.running {
                FrameAction::Frame
            } else {
                FrameAction::Sleep
            },
    {
        if self.running {
            FrameAction::Frame
        } else {
            FrameAction::Sleep
        }
    }
}

/// What to do with a frame.
pub fn render_action(should_render: bool) -> (action: RenderAction)
    ensures
        action == if should_render {
            RenderAction::Render
        } else {
            RenderAction::EndEmpty
        },
{
    if should_render {
        RenderAction::Render
    } else {
        RenderAction::EndEmpty
    }
}

/// Whether depth is handed to the runtime: it is rendered, and there is depth for every
/// view.
pub fn submits_depth(has_depth: bool, depth_count: usize, view_count: usize) -> (answer: bool)
    ensures
        answer == (has_depth && depth_count == view_count),
{
    has_depth && depth_count == view_count
}

// ----------------------------------------------------------------------
// Hands and controllers
// ----------------------------------------------------------------------
/// Where a controller is held.
#[derive(Clone, Copy, Debug, PartialEq, Eq, Structural)]
pub struct GripPose {
    pub position: Vec3,
    pub right: Vec3,
    pub up: Vec3,
}

/// Where a controller points.
#[derive(Clone, Copy, Debug, PartialEq, Eq, Structural)]
pub struct AimPose {
    pub position: Vec3,
    pub forward: Vec3,
}

/// What was read of one controller.
#[derive(Clone, Copy, Debug, PartialEq, Eq, Structural)]
pub struct ControllerReading {
    pub active: bool,
    /// The grip, where position and orientation are valid.
    pub grip: Option<GripPose>,
    /// The aim, where position and orientation are valid.
    pub aim: Option<AimPose>,
    pub trigger: Scalar,
    pub squeeze: Scalar,
    pub stick_x: Scalar,
    pub stick_y: Scalar,
    /// Touch of the first button (X or A).
    pub first_touch: bool,
    /// Touch of the second button (Y or B).
    pub second_touch: bool,
    pub stick_click: bool,
    pub menu_click: bool,
    pub first_click: bool,
    pub second_click: bool,
    pub trigger_touch: bool,
    pub squeeze_touch: bool,
    pub stick_touch: bool,
}

impl ControllerReading {
    /// A controller that is not there: no poses, nothing pressed or touched.
    pub open spec fn absent_spec() -> ControllerReading {
        let zero = Scalar { bits: 0 };
        ControllerReading {
            active: false,
            grip: None,
            aim: None,
            trigger: zero,
            squeeze: zero,
            stick_x: zero,
            stick_y: zero,
            first_touch: false,
            second_touch: false,
            stick_click: false,
            menu_click: false,
            first_click: false,
            second_click: false,
            trigger_touch: false,
            squeeze_touch: false,
            stick_touch: false,
        }
    }

    /// A controller that is not there.
    pub fn absent() -> (reading: ControllerReading)
        ensures
            reading == ControllerReading::absent_spec(),
    {
        let zero = Scalar { bits: 0 };
        ControllerReading {
            active: false,
            grip: None,
            aim: None,
            trigger: zero,
            squeeze: zero,
            stick_x: zero,
            stick_y: zero,
            first_touch: false,
            second_touch: false,
            stick_click: false,
            menu_click: false,
            first_click: false,
            second_click: false,
            trigger_touch: false,
            squeeze_touch: false,
            stick_touch: false,
        }
    }

    /// Whether the hand state is that of this reading, for the left hand with its
    /// X and Y buttons or the right one with A and B: a hand is there while its
    /// controller is active with grip and aim both located.
    pub open spec fn seen_as(self, grip_rot: Quat, hand: Hand, state: HandState) -> bool {
        let left = hand == Hand::Left;
        match (self.grip, self.aim) {
            (Some(grip), Some(aim)) if self.active => {
                &&& state.active
                &&& state.grip_pos == grip.position
                &&& state.grip_rot == grip_rot
                &&& state.aim_pos == aim.position
                &&& state.aim_dir == aim.forward
                &&& state.trigger == self.trigger
                &&& state.squeeze == self.squeeze
                &&& state.thumbstick@ == seq![self.stick_x, self.stick_y]
                &&& state.x_click == (left && self.first_click)
                &&& state.y_click == (left && self.second_click)
                &&& state.a_click == (!left && self.first_click)
                &&& state.b_click == (!left && self.second_click)
                &&& state.menu_click == self.menu_click
                &&& state.thumbstick_click == self.stick_click
                &&& state.x_touch == (left && self.first_touch)
                &&& state.y_touch == (left && self.second_touch)
                &&& state.a_touch == (!left && self.first_touch)
                &&& state.b_touch == (!left && self.second_touch)
                &&& state.trigger_touch == self.trigger_touch
                &&& state.thumbstick_touch == self.stick_touch
            },
            _ => state.absent(),
        }
    }

    /// The state of the hand that holds this controller, with its grip turned so.
    pub fn hand_state(&self, grip_rot: Quat, hand: Hand) -> (state: HandState)
        ensures
            self.seen_as(grip_rot, hand, state),
    {
        let left = hand == Hand::Left;
        match (self.grip, self.aim) {
            (Some(grip), Some(aim)) if self.active => HandState {
                active: true,
                grip_pos: grip.position,
                grip_rot,
                aim_pos: aim.position,
                aim_dir: aim.forward,
                trigger: self.trigger,
                squeeze: self.squeeze,
                thumbstick: [self.stick_x, self.stick_y],
                a_click: !left && self.first_click,
                b_click: !left && self.second_click,
                x_click: left && self.first_click,
                y_click: left && self.second_click,
                menu_click: self.menu_click,
                thumbstick_click: self.stick_click,
                a_touch: !left && self.first_touch,
                b_touch: !left && self.second_touch,
                x_touch: left && self.first_touch,
                y_touch: left && self.second_touch,
                trigger_touch: self.trigger_touch,
                thumbstick_touch: self.stick_touch,
            },
            _ => HandState::default(),
        }
    }
}

/// A joint of a tracked hand.
#[derive(Clone, Copy, Debug, PartialEq, Eq, Structural)]
pub struct Joint {
    pub position: Vec3,
    pub radius: Scalar,
}

/// What the shaders are told of one controller.
#[derive(Clone, Copy, Debug, PartialEq, Eq, Structural)]
pub struct ControllerData {
    pub grip: Vec4,
    pub aim_pos: Vec4,
    pub aim_dir: Vec4,
    pub inputs: Vec4,
    pub buttons: Vec4,
    pub clicks: Vec4,
    pub touches: Vec4,
    pub grip_right: Vec4,
    pub grip_up: Vec4,
}

/// What the shaders are told of hands and controllers.
#[derive(Clone, Debug)]
pub struct HandData {
    /// The joints of the left hand, then those of the right.
    pub joints: Vec<Vec4>,
    /// Which are there: left hand, right hand, left controller, right controller.
    pub active: Vec4,
    pub left: ControllerData,
    pub right: ControllerData,
}

/// A flag as shaders take it.
pub open spec fn flag_value(on: bool) -> Scalar {
    if on {
        Scalar { bits: ONE_BITS }
    } else {
        Scalar { bits: 0 }
    }
}

fn flag(on: bool) -> (value: Scalar)
    ensures
        value == flag_value(on),
{
    if on {
        Scalar { bits: ONE_BITS }
    } else {
        Scalar { bits: 0 }
    }
}

impl ControllerData {
    /// A controller that is not there.
    pub open spec fn absent_spec() -> ControllerData {
        let zero = Vec4::zero_spec();
        ControllerData {
            grip: zero,
            aim_pos: zero,
            aim_dir: zero,
            inputs: zero,
            buttons: zero,
            clicks: zero,
            touches: zero,
            grip_right: zero,
            grip_up: zero,
        }
    }

    /// A controller that is not there.
    pub fn absent() -> (data: ControllerData)
        ensures
            data == ControllerData::absent_spec(),
    {
        let zero = Vec4::zero();
        ControllerData {
            grip: zero,
            aim_pos: zero,
            aim_dir: zero,
            inputs: zero,
            buttons: zero,
            clicks: zero,
            touches: zero,
            grip_right: zero,
            grip_up: zero,
        }
    }

    /// What a reading comes to: poses only where the controller is active and they are
    /// valid, inputs in any case.
    pub open spec fn of(reading: ControllerReading) -> ControllerData {
        let zero = Scalar { bits: 0 };
        let none = Vec4::zero_spec();
        let grip = if reading.active {
            reading.grip
        } else {
            None
        };
        let aim = if reading.active {
            reading.aim
        } else {
            None
        };
        ControllerData {
            grip: match grip {
                Some(pose) => Vec4::extended(pose.position, Scalar { bits: GRIP_RADIUS }),
                None => none,
            },
            grip_right: match grip {
                Some(pose) => Vec4::extended(pose.right, zero),
                None => none,
            },
            grip_up: match grip {
                Some(pose) => Vec4::extended(pose.up, zero),
                None => none,
            },
            aim_pos: match aim {
                Some(pose) => Vec4::extended(pose.position, zero),
                None => none,
            },
            aim_dir: match aim {
                Some(pose) => Vec4::extended(pose.forward, zero),
                None => none,
            },
            inputs: Vec4 {
                x: reading.trigger,
                y: reading.squeeze,
                z: reading.stick_x,
                w: reading.stick_y,
            },
            buttons: Vec4 {
                x: flag_value(reading.first_touch),
                y: flag_value(reading.second_touch),
                z: flag_value(reading.stick_click),
                w: flag_value(reading.menu_click),
            },
            clicks: Vec4 {
                x: flag_value(reading.first_click),
                y: flag_value(reading.second_click),
                z: zero,
                w: zero,
            },
            touches: Vec4 {
                x: flag_value(reading.trigger_touch),
                y: flag_value(reading.squeeze_touch),
                z: flag_value(reading.stick_touch),
                w: zero,
            },
        }
    }

    fn read(reading: &ControllerReading) -> (data: ControllerData)
        ensures
            data == ControllerData::of(*reading),
    {
        let zero = Scalar { bits: 0 };
        let mut data = ControllerData::absent();
        if reading.active {
            if let Some(pose) = reading.grip {
                data.grip = Vec4::extend(pose.position, Scalar { bits: GRIP_RADIUS });
                data.grip_right = Vec4::extend(pose.right, zero);
                data.grip_up = Vec4::extend(pose.up, zero);
            }
            if let Some(pose) = reading.aim {
                data.aim_pos = Vec4::extend(pose.position, zero);
                data.aim_dir = Vec4::extend(pose.forward, zero);
            }
        }
        data.inputs =
        Vec4 { x: reading.trigger, y: reading.squeeze, z: reading.stick_x, w: reading.stick_y };
        data.buttons =
        Vec4 {
            x: flag(reading.first_touch),
            y: flag(reading.second_touch),
            z: flag(reading.stick_click),
            w: flag(reading.menu_click),
        };
        data.clicks =
        Vec4 { x: flag(reading.first_click), y: flag(reading.second_click), z: zero, w: zero };
        data.touches =
        Vec4 {
            x: flag(reading.trigger_touch),
            y: flag(reading.squeeze_touch),
            z: flag(reading.stick_touch),
            w: zero,
        };
        data
    }
}

/// The joint data of both hands: the left hand's first, zero where a hand is not
/// tracked.
pub open spec fn joint_data(left: Option<Seq<Joint>>, right: Option<Seq<Joint>>) -> Seq<Vec4> {
    Seq::new(
        JOINT_COUNT as nat,
        |i: int|
            {
                let (hand, k) = if i < HAND_JOINTS {
                    (left, i)
                } else {
                    (right, i - HAND_JOINTS)
                };
                match hand {
                    Some(joints) => Vec4::extended(joints[k].position, joints[k].radius),
                    None => Vec4::zero_spec(),
                }
            },
    )
}

fn push_joints(all: &mut Vec<Vec4>, hand: &Option<Vec<Joint>>)
    requires
        hand matches Some(joints) ==> joints@.len() == HAND_JOINTS,
    ensures
        final(all)@.len() == old(all)@.len() + HAND_JOINTS,
        forall|i: int| 0 <= i < old(all)@.len() ==> #[trigger] final(all)@[i] == old(all)@[i],
        forall|k: int|
            0 <= k < HAND_JOINTS ==> #[trigger] final(all)@[old(all)@.len() + k] == match hand {
                Some(joints) => Vec4::extended(joints@[k].position, joints@[k].radius),
                None => Vec4::zero_spec(),
            },
{
    let ghost before = all@;
    let mut i: usize = 0;
    while i < HAND_JOINTS
        invariant
            i <= HAND_JOINTS,
            hand matches Some(joints) ==> joints@.len() == HAND_JOINTS,
            all@.len() == before.len() + i,
            forall|k: int| 0 <= k < before.len() ==> #[trigger] all@[k] == before[k],
            forall|k: int|
                0 <= k < i ==> #[trigger] all@[before.len() + k] == match hand {
                    Some(joints) => Vec4::extended(joints@[k].position, joints@[k].radius),
                    None => Vec4::zero_spec(),
                },
        decreases HAND_JOINTS - i,
    {
        let value = match hand {
            Some(joints) => Vec4::extend(joints[i].position, joints[i].radius),
            None => Vec4::zero(),
        };
        all.push(value);
        i += 1;
    }
}

/// What an optional list of joints holds.
pub open spec fn joint_seq(joints: Option<Vec<Joint>>) -> Option<Seq<Joint>> {
    match joints {
        Some(list) => Some(list@),
        None => None,
    }
}

/// The rows of both controllers as the shaders lay them out: of each value the left
/// one, then the right one.
pub open spec fn controller_rows(left: ControllerData, right: ControllerData) -> Seq<Vec4> {
    seq![
        left.grip,
        right.grip,
        left.aim_pos,
        right.aim_pos,
        left.aim_dir,
        right.aim_dir,
        left.inputs,
        right.inputs,
        left.buttons,
        right.buttons,
        left.clicks,
        right.clicks,
        left.touches,
        right.touches,
        left.grip_right,
        right.grip_right,
        left.grip_up,
        right.grip_up,
    ]
}

impl HandData {
    /// The rows of the shaders' uniform: the joints, which are there, then the
    /// controllers.
    pub fn rows(&self) -> (rows: Vec<Vec4>)
        ensures
            rows@ == self.joints@.push(self.active) + controller_rows(self.left, self.right),
    {
        let mut rows: Vec<Vec4> = Vec::new();
        let mut i: usize = 0;
        while i < self.joints.len()
            invariant
                i <= self.joints.len(),
                rows@ == self.joints@.take(i as int),
            decreases self.joints.len() - i,
        {
            rows.push(self.joints[i]);
            assert(self.joints@.take(i + 1) =~= self.joints@.take(i as int).push(
                self.joints@[i as int],
            ));
            i += 1;
        }
        assert(self.joints@.take(i as int) =~= self.joints@);
        rows.push(self.active);
        let (left, right) = (&self.left, &self.right);
        rows.push(left.grip);
        rows.push(right.grip);
        rows.push(left.aim_pos);
        rows.push(right.aim_pos);
        rows.push(left.aim_dir);
        rows.push(right.aim_dir);
        rows.push(left.inputs);
        rows.push(right.inputs);
        rows.push(left.buttons);
        rows.push(right.buttons);
        rows.push(left.clicks);
        rows.push(right.clicks);
        rows.push(left.touches);
        rows.push(right.touches);
        rows.push(left.grip_right);
        rows.push(right.grip_right);
        rows.push(left.grip_up);
        rows.push(right.grip_up);
        assert(rows@ =~= self.joints@.push(self.active) + controller_rows(self.left, self.right));
        rows
    }

    /// What the shaders are told while controllers are used: no hands.
    pub fn of_controllers(left: &ControllerReading, right: &ControllerReading) -> (data: HandData)
        ensures
            data.joints@ == joint_data(None, None),
            data.active == (Vec4 {
                x: flag_value(false),
                y: flag_value(false),
                z: flag_value(left.active && left.grip is Some),
                w: flag_value(right.active && right.grip is Some),
            }),
            data.left == ControllerData::of(*left),
            data.right == ControllerData::of(*right),
    {
        let mut joints: Vec<Vec4> = Vec::new();
        push_joints(&mut joints, &None);
        push_joints(&mut joints, &None);
        assert(joints@ =~= joint_data(None, None)) by {
            assert forall|i: int| 0 <= i < JOINT_COUNT implies #[trigger] joints@[i] == joint_data(
                None,
                None,
            )[i] by {
                if i >= HAND_JOINTS {
                    assert(joints@[HAND_JOINTS + (i - HAND_JOINTS)] == Vec4::zero_spec());
                } else {
                    assert(joints@[0 + i] == Vec4::zero_spec());
                }
            }
        }
        HandData {
            joints,
            active: Vec4 {
                x: flag(false),
                y: flag(false),
                z: flag(left.active && left.grip.is_some()),
                w: flag(right.active && right.grip.is_some()),
            },
            left: ControllerData::read(left),
            right: ControllerData::read(right),
        }
    }

    /// What the shaders are told while hands are tracked: no controllers.
    pub fn of_hands(left: &Option<Vec<Joint>>, right: &Option<Vec<Joint>>) -> (data: HandData)
        requires
            left matches Some(joints) ==> joints@.len() == HAND_JOINTS,
            right matches Some(joints) ==> joints@.len() == HAND_JOINTS,
        ensures
            data.joints@ == joint_data(joint_seq(*left), joint_seq(*right)),
            data.active == (Vec4 {
                x: flag_value(left is Some),
                y: flag_value(right is Some),
                z: flag_value(false),
                w: flag_value(false),
            }),
            data.left == ControllerData::absent_spec(),
            data.right == ControllerData::absent_spec(),
    {
        let mut joints: Vec<Vec4> = Vec::new();
        push_joints(&mut joints, left);
        let ghost first = joints@;
        push_joints(&mut joints, right);
        let ghost expected = joint_data(joint_seq(*left), joint_seq(*right));
        assert(joints@ =~= expected) by {
            assert forall|i: int| 0 <= i < JOINT_COUNT implies #[trigger] joints@[i]
                == expected[i] by {
                if i >= HAND_JOINTS {
                    assert(joints@[first.len() + (i - HAND_JOINTS)] == joints@[i]);
                } else {
                    assert(first[0 + i] == joints@[i]);
                }
            }
        }
        HandData {
            joints,
            active: Vec4 {
                x: flag(left.is_some()),
                y: flag(right.is_some()),
                z: flag(false),
                w: flag(false),
            },
            left: ControllerData::absent(),
            right: ControllerData::absent(),
        }
    }
}

/// Whether controllers are used: they could be asked, and one of them is there.
pub fn controllers_active(synced: bool, left: bool, right: bool) -> (active: bool)
    ensures
        active == (synced && (left || right)),
{
    synced && (left || right)
}

// ----------------------------------------------------------------------
// Haptic pulses
// ----------------------------------------------------------------------
/// Whether one controller's trigger and grip were pressed.
#[derive(Clone, Copy, Debug, PartialEq, Eq, Structural)]
pub struct PressState {
    pub trigger: bool,
    pub grip: bool,
}

/// What was pressed last frame, to pulse once per press.
#[derive(Clone, Copy, Debug, PartialEq, Eq, Structural)]
pub struct PressPulses {
    pub left: PressState,
    pub right: PressState,
}

/// The pulse of a trigger pull: 50 ms at 200 Hz, amplitude 0.5.
pub open spec fn trigger_pulse() -> HapticPulse {
    HapticPulse {
        duration_ms: 50,
        frequency: Scalar { bits: 0x4348_0000 },
        amplitude: Scalar { bits: 0x3f00_0000 },
    }
}

/// The pulse of a grip: 150 ms at 120 Hz, amplitude 0.8.
pub open spec fn grip_pulse() -> HapticPulse {
    HapticPulse {
        duration_ms: 150,
        frequency: Scalar { bits: 0x42f0_0000 },
        amplitude: Scalar { bits: 0x3f4c_cccd },
    }
}

/// What is pressed at these values.
pub open spec fn pressed(trigger: Scalar, squeeze: Scalar) -> PressState {
    let limit = Scalar { bits: PULSE_THRESHOLD };
    PressState { trigger: limit.below(trigger), grip: limit.below(squeeze) }
}

/// The pulses of one hand: a short one for a fresh trigger pull, then a longer one for a
/// fresh grip.
pub open spec fn hand_pulses(hand: Hand, before: PressState, now: PressState) -> Seq<
    (Hand, HapticPulse),
> {
    let trigger = if now.trigger && !before.trigger {
        seq![(hand, trigger_pulse())]
    } else {
        Seq::empty()
    };
    let grip = if now.grip && !before.grip {
        seq![(hand, grip_pulse())]
    } else {
        Seq::empty()
    };
    trigger + grip
}

fn push_pulses(
    pulses: &mut Vec<(Hand, HapticPulse)>,
    hand: Hand,
    before: &mut PressState,
    trigger: Scalar,
    squeeze: Scalar,
)
    ensures
        final(pulses)@ == old(pulses)@ + hand_pulses(hand, *old(before), pressed(trigger, squeeze)),
        *final(before) == pressed(trigger, squeeze),
{
    let limit = Scalar { bits: PULSE_THRESHOLD };
    let now = PressState { trigger: trigger.greater(limit), grip: squeeze.greater(limit) };
    if now.trigger && !before.trigger {
        pulses.push(
            (
                hand,
                HapticPulse {
                    duration_ms: 50,
                    frequency: Scalar { bits: 0x4348_0000 },
                    amplitude: Scalar { bits: 0x3f00_0000 },
                },
            ),
        );
    }
    if now.grip && !before.grip {
        pulses.push(
            (
                hand,
                HapticPulse {
                    duration_ms: 150,
                    frequency: Scalar { bits: 0x42f0_0000 },
                    amplitude: Scalar { bits: 0x3f4c_cccd },
                },
            ),
        );
    }
    assert(pulses@ =~= old(pulses)@ + hand_pulses(hand, *old(before), now));
    *before = now;
}

impl PressPulses {
    /// Nothing pressed.
    pub fn new() -> (pulses: PressPulses)
        ensures
            pulses.left == (PressState { trigger: false, grip: false }),
            pulses.right == (PressState { trigger: false, grip: false }),
    {
        let none = PressState { trigger: false, grip: false };
        PressPulses { left: none, right: none }
    }

    /// The pulses of a frame, left hand first.
    pub fn frame_pulses(&mut self, left: &ControllerReading, right: &ControllerReading) -> (pulses:
        Vec<(Hand, HapticPulse)>)
        ensures
            pulses@ == hand_pulses(
                Hand::Left,
                old(self).left,
                pressed(left.trigger, left.squeeze),
            ) + hand_pulses(Hand::Right, old(self).right, pressed(right.trigger, right.squeeze)),
            final(self).left == pressed(left.trigger, left.squeeze),
            final(self).right == pressed(right.trigger, right.squeeze),
    {
        let mut pulses: Vec<(Hand, HapticPulse)> = Vec::new();
        push_pulses(&mut pulses, Hand::Left, &mut self.left, left.trigger, left.squeeze);
        assert(pulses@ =~= hand_pulses(
            Hand::Left,
            old(self).left,
            pressed(left.trigger, left.squeeze),
        ));
        push_pulses(&mut pulses, Hand::Right, &mut self.right, right.trigger, right.squeeze);
        pulses
    }
}

// ----------------------------------------------------------------------
// The loader
// ----------------------------------------------------------------------
/// The list of places searched, one to a line.
pub open spec fn searched_lines(places: Seq<Seq<char>>) -> Seq<char>
    decreases places.len(),
{
    if places.len() == 0 {
        Seq::empty()
    } else if places.len() == 1 {
        "  - "@ + places[0]
    } else {
        searched_lines(places.drop_last()) + "\n"@ + "  - "@ + places.last()
    }
}

/// The message for a loader that was not found.
pub fn loader_not_found(places: &Vec<String>) -> (message: String)
    ensures
        message@ == "Could not find openxr_loader.dll.\n\nSearched:\n"@ + searched_lines(
            places@.map_values(|place: String| place@),
        )
            + "\n\nFix: copy openxr_loader.dll next to clear-xr.exe,\nor set OPENXR_LOADER_PATH=<path to the DLL>."@,
{
    let ghost views = places@.map_values(|place: String| place@);
    let mut lines = String::new();
    let mut i: usize = 0;
    assert(searched_lines(views.take(0)) =~= Seq::<char>::empty());
    while i < places.len()
        invariant
            i <= places.len(),
            views == places@.map_values(|place: String| place@),
            lines@ == searched_lines(views.take(i as int)),
        decreases places.len() - i,
    {
        let ghost next = views.take(i + 1);
        let ghost before = lines@;
        assert(next.drop_last() =~= views.take(i as int));
        assert(next.last() == places@[i as int]@);
        if i > 0 {
            lines.push_str("\n");
        }
        lines.push_str("  - ");
        lines.push_str(places[i].as_str());
        proof {
            if i == 0 {
                assert(next[0] == places@[0]@);
                assert(before =~= Seq::<char>::empty());
                assert(lines@ =~= "  - "@ + next[0]);
            } else {
                assert(lines@ =~= before + "\n"@ + "  - "@ + next.last());
            }
        }
        i += 1;
    }
    assert(views.take(i as int) =~= views);
    crate::text::joined(
        "Could not find openxr_loader.dll.\n\nSearched:\n",
        lines.as_str(),
        "\n\nFix: copy openxr_loader.dll next to clear-xr.exe,\nor set OPENXR_LOADER_PATH=<path to the DLL>.",
    )
}

// ----------------------------------------------------------------------
// Laws
// ----------------------------------------------------------------------
/// A press pulses once: with the same things pressed in the next frame there is no
/// pulse.
pub proof fn law_one_pulse_per_press(hand: Hand, now: PressState)
    ensures
        hand_pulses(hand, now, now).len() == 0,
        hand_pulses(hand, PressState { trigger: false, grip: false }, now).len() <= 2,
{
}

/// A hand that is not tracked has all its joints at zero, and says nothing of the other
/// hand's.
pub proof fn law_untracked_joints_are_zero(left: Option<Seq<Joint>>, right: Option<Seq<Joint>>, i: int)
    requires
        0 <= i < JOINT_COUNT,
    ensures
        i < HAND_JOINTS ==> joint_data(None, right)[i] == Vec4::zero_spec() && joint_data(
            left,
            None,
        )[i] == joint_data(left, right)[i],
        i >= HAND_JOINTS ==> joint_data(left, None)[i] == Vec4::zero_spec() && joint_data(
            None,
            right,
        )[i] == joint_data(left, right)[i],
{
}

/// The session runs exactly between becoming ready and stopping; nothing else starts or
/// stops it.
pub proof fn law_session_runs_between(session: SessionLoop, event: SessionEvent)
    ensures
        session.after(SessionEvent::Ready).running,
        !session.after(SessionEvent::Stopping).running,
        !(event is Ready) && !(event is Stopping) ==> session.after(event) == session,
        SessionLoop::reply(event) is Begin <==> event is Ready,
        SessionLoop::reply(event) is End <==> event is Stopping,
{
}

/// Asked to stop, the loop ends once the session does not run, and never before the
/// runtime had a chance to end it.
pub proof fn law_stopping_ends_the_loop(session: SessionLoop)
    ensures
        session.round(false) is Leave <==> !session.running,
        session.after(SessionEvent::Stopping).round(false) is Leave,
        session.round(true) is Continue,
{
}

/// The loop is left on an exit and on a loss that is coming, of the session or of the
/// instance, and on nothing else.
pub proof fn law_loop_is_left(event: SessionEvent)
    ensures
        SessionLoop::reply(event) is Leave <==> event is Exiting || event is LossPending || event
            is InstanceLossPending,
        SessionLoop::reply(event) is Nothing <==> event is OtherState || event is EventsLost
            || event is Other,
{
}

/// Views are named by their eye, the left one first: two of them by that alone, four with the
/// two of the periphery before the two of the fovea.
pub proof fn law_views_are_named_by_eye(count: int, index: int)
    ensures
        count != 4 && index == 0 ==> view_name(count, index) == "left"@,
        count != 4 && index == 1 ==> view_name(count, index) == "right"@,
        index == 0 ==> view_name(4, index) == "peripheral L"@,
        index == 1 ==> view_name(4, index) == "peripheral R"@,
        index == 2 ==> view_name(4, index) == "foveal L"@,
        index == 3 ==> view_name(4, index) == "foveal R"@,
        index < 0 || index >= 4 || (count != 4 && index >= 2) ==> view_name(count, index) == "?"@,
{
}

/// A hand is there exactly while its controller is active and both its grip and its aim are
/// located. The first two buttons are X and Y on the left and A and B on the right, and the
/// other hand's two are never pressed.
pub proof fn law_hands_are_their_controllers(
    reading: ControllerReading,
    grip_rot: Quat,
    hand: Hand,
    state: HandState,
)
    requires
        reading.seen_as(grip_rot, hand, state),
    ensures
        state.active <==> reading.active && reading.grip is Some && reading.aim is Some,
        state.active ==> {
            &&& state.grip_pos == reading.grip->0.position
            &&& state.grip_rot == grip_rot
            &&& state.aim_pos == reading.aim->0.position
            &&& state.aim_dir == reading.aim->0.forward
            &&& state.trigger == reading.trigger
            &&& state.squeeze == reading.squeeze
            &&& state.thumbstick@.len() == 2
            &&& state.thumbstick@[0] == reading.stick_x
            &&& state.thumbstick@[1] == reading.stick_y
            &&& state.menu_click == reading.menu_click
            &&& state.thumbstick_click == reading.stick_click
            &&& state.trigger_touch == reading.trigger_touch
            &&& state.thumbstick_touch == reading.stick_touch
        },
        state.active && hand is Left ==> {
            &&& state.x_click == reading.first_click
            &&& state.y_click == reading.second_click
            &&& state.x_touch == reading.first_touch
            &&& state.y_touch == reading.second_touch
        },
        state.active && hand is Right ==> {
            &&& state.a_click == reading.first_click
            &&& state.b_click == reading.second_click
            &&& state.a_touch == reading.first_touch
            &&& state.b_touch == reading.second_touch
        },
        hand is Left ==> !state.a_click && !state.b_click && !state.a_touch && !state.b_touch,
        hand is Right ==> !state.x_click && !state.y_click && !state.x_touch && !state.y_touch,
{
}

/// What the shaders are told of a controller's poses: the grip with a radius of two
/// centimetres and its directions while the controller is active with it located, the aim
/// while it is active with that located, each without the other, and zeros otherwise.
pub proof fn law_shaders_see_the_poses(reading: ControllerReading)
    ensures
        ({
            let data = ControllerData::of(reading);
            let (zero, radius) = (Scalar { bits: 0 }, Scalar { bits: 0x3ca3_d70a });
            let none = Vec4 { x: zero, y: zero, z: zero, w: zero };
            let at = |v: Vec3, w: Scalar| Vec4 { x: v.x, y: v.y, z: v.z, w };
            &&& reading.active && reading.grip is Some ==> {
                &&& data.grip == at(reading.grip->0.position, radius)
                &&& data.grip_right == at(reading.grip->0.right, zero)
                &&& data.grip_up == at(reading.grip->0.up, zero)
            }
            &&& !reading.active || reading.grip is None ==> data.grip == none && data.grip_right
                == none && data.grip_up == none
            &&& reading.active && reading.aim is Some ==> {
                &&& data.aim_pos == at(reading.aim->0.position, zero)
                &&& data.aim_dir == at(reading.aim->0.forward, zero)
            }
            &&& !reading.active || reading.aim is None ==> data.aim_pos == none && data.aim_dir
                == none
        }),
{
}

/// What the shaders are told of a controller's inputs, whether or not it is active: the
/// trigger, the squeeze and the stick; then of each flag one or zero.
pub proof fn law_shaders_see_the_inputs(reading: ControllerReading)
    ensures
        ({
            let data = ControllerData::of(reading);
            let on = |value: Scalar, flag: bool|
                value.bits == if flag {
                    0x3f80_0000u32
                } else {
                    0
                };
            &&& data.inputs.x == reading.trigger
            &&& data.inputs.y == reading.squeeze
            &&& data.inputs.z == reading.stick_x
            &&& data.inputs.w == reading.stick_y
            &&& on(data.buttons.x, reading.first_touch)
            &&& on(data.buttons.y, reading.second_touch)
            &&& on(data.buttons.z, reading.stick_click)
            &&& on(data.buttons.w, reading.menu_click)
            &&& on(data.clicks.x, reading.first_click)
            &&& on(data.clicks.y, reading.second_click)
            &&& on(data.clicks.z, false) && on(data.clicks.w, false)
            &&& on(data.touches.x, reading.trigger_touch)
            &&& on(data.touches.y, reading.squeeze_touch)
            &&& on(data.touches.z, reading.stick_touch)
            &&& on(data.touches.w, false)
        }),
{
}

/// A controller that is not there has nothing located, pressed or touched, and the shaders are
/// told zeros of it.
pub proof fn law_absent_controllers(reading: ControllerReading)
    requires
        reading == ControllerReading::absent_spec(),
    ensures
        !reading.active && reading.grip is None && reading.aim is None,
        reading.trigger.bits == 0 && reading.squeeze.bits == 0,
        reading.stick_x.bits == 0 && reading.stick_y.bits == 0,
        !reading.first_click && !reading.second_click && !reading.menu_click
            && !reading.stick_click,
        !reading.first_touch && !reading.second_touch && !reading.trigger_touch
            && !reading.squeeze_touch && !reading.stick_touch,
        ControllerData::of(reading) == ControllerData::absent_spec(),
{
}

/// The joints of both hands: twenty-six of the left one, then as many of the right one, each
/// at its place with its radius, and zeros for a hand that is not tracked.
pub proof fn law_joints_are_where_they_are(
    left: Option<Seq<Joint>>,
    right: Option<Seq<Joint>>,
    i: int,
)
    requires
        0 <= i < 26,
    ensures
        ({
            let joints = joint_data(left, right);
            let shown = |row: Vec4, joint: Joint|
                {
                    &&& row.x == joint.position.x
                    &&& row.y == joint.position.y
                    &&& row.z == joint.position.z
                    &&& row.w == joint.radius
                };
            let none = |row: Vec4|
                row.x.bits == 0 && row.y.bits == 0 && row.z.bits == 0 && row.w.bits == 0;
            &&& joints.len() == 52
            &&& left is Some ==> shown(joints[i], left->0[i])
            &&& left is None ==> none(joints[i])
            &&& right is Some ==> shown(joints[26 + i], right->0[i])
            &&& right is None ==> none(joints[26 + i])
        }),
{
}

/// The shaders' rows: of each value the left controller's in the even row and the right one's
/// in the odd row after it, in the order grip, aim, direction, inputs, buttons, clicks,
/// touches, and the grip's right and up. Exchanging the controllers exchanges the rows.
pub proof fn law_rows_pair_the_controllers(left: ControllerData, right: ControllerData, i: int)
    requires
        0 <= i < 9,
    ensures
        ({
            let rows = controller_rows(left, right);
            let swapped = controller_rows(right, left);
            &&& rows.len() == 18
            &&& rows[2 * i] == swapped[2 * i + 1]
            &&& rows[2 * i + 1] == swapped[2 * i]
            &&& rows[0] == left.grip
            &&& rows[2] == left.aim_pos
            &&& rows[4] == left.aim_dir
            &&& rows[6] == left.inputs
            &&& rows[8] == left.buttons
            &&& rows[10] == left.clicks
            &&& rows[12] == left.touches
            &&& rows[14] == left.grip_right
            &&& rows[16] == left.grip_up
        }),
{
}

/// Something is pressed once its value is more than 0.8, the trigger and the grip each by
/// their own.
pub proof fn law_presses_go_by_value(trigger: Scalar, squeeze: Scalar)
    ensures
        ({
            let limit = Scalar { bits: 0x3f4c_cccd };
            &&& pressed(trigger, squeeze).trigger <==> limit.below(trigger)
            &&& pressed(trigger, squeeze).grip <==> limit.below(squeeze)
        }),
{
}

/// A hand pulses when something is pressed that was not: for the trigger 50 ms at 200 Hz and
/// half strength, for the grip 150 ms at 120 Hz and 0.8 strength, in that order and in that
/// hand only.
pub proof fn law_presses_pulse(hand: Hand, before: PressState, now: PressState)
    ensures
        ({
            let pulses = hand_pulses(hand, before, now);
            let pulled = now.trigger && !before.trigger;
            let gripped = now.grip && !before.grip;
            let is_pulse = |
                pulse: (Hand, HapticPulse),
                duration: int,
                frequency: u32,
                strength: u32,
            |
                {
                    &&& pulse.0 == hand
                    &&& pulse.1.duration_ms == duration
                    &&& pulse.1.frequency.bits == frequency
                    &&& pulse.1.amplitude.bits == strength
                };
            &&& pulled ==> is_pulse(pulses[0], 50, 0x4348_0000, 0x3f00_0000)
            &&& gripped ==> is_pulse(pulses.last(), 150, 0x42f0_0000, 0x3f4c_cccd)
            &&& pulled && gripped ==> pulses.len() == 2
            &&& pulled != gripped ==> pulses.len() == 1
            &&& !pulled && !gripped ==> pulses.len() == 0
        }),
{
}

/// The places that were searched, each on a line of its own behind a dash, in order.
pub proof fn law_searched_places_are_listed(before: Seq<Seq<char>>, place: Seq<char>)
    ensures
        searched_lines(seq![place]) == "  - "@ + place,
        before.len() > 0 ==> searched_lines(before.push(place)) == searched_lines(before)
            + "\n  - "@ + place,
        searched_lines(Seq::empty()).len() == 0,
{
    assert(before.push(place).drop_last() =~= before);
    reveal_strlit("\n  - ");
    reveal_strlit("\n");
    reveal_strlit("  - ");
    assert("\n  - "@ =~= "\n"@ + "  - "@);
    if before.len() > 0 {
        assert(searched_lines(before.push(place)) =~= searched_lines(before) + "\n  - "@ + place);
    }
}

} // verus!
