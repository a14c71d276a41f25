//! Where the shell's panels are: beside the active panel, at a hand, or carried by one.

use super::FrameInput;
use crate::geometry::{Vec3, ONE_BITS};
use crate::input::ControllerState;
use crate::launcher_panel::LauncherPanel;
use crate::panel::{Placement, HALF_BITS, PANEL_OPACITY};
use crate::rounding::{law_opposites, law_plus_zero, law_sums_do_not_pass_numbers};
use crate::scalar::{lemma_small_units, lemma_units_monotone, Scalar};
use crate::seconds::law_times_one;
use vstd::prelude::*;

verus! {

/// 0.02, the gap between the active panel and the toolbar.
pub const TOOLBAR_GAP: u32 = 0x3ca3_d70a;

/// 0.01, the gap between the toolbar and the grab bar.
pub const GRAB_BAR_GAP: u32 = 0x3c23_d70a;

/// 0.04, the gap between the active panel and a notification.
pub const NOTIFICATION_GAP: u32 = 0x3d23_d70a;

/// 0.25, how far to the right a notification is, of the active panel's width.
pub const NOTIFICATION_ASIDE: u32 = 0x3e80_0000;

/// 0.22, how far below the active panel's edge the middle of the keyboard is.
pub const KEYBOARD_DROP: u32 = 0x3e61_47ae;

/// 0.8, the width of the keyboard.
pub const KEYBOARD_WIDTH: u32 = 0x3f4c_cccd;

/// 0.42, the height of the keyboard.
pub const KEYBOARD_HEIGHT: u32 = 0x3ed7_0a3d;

/// 0.3, how far ahead of the hand the tray is.
pub const TRAY_AHEAD: u32 = 0x3e99_999a;

/// 0.1, how far above the hand the tray is.
pub const TRAY_ABOVE: u32 = 0x3dcc_cccd;

/// 0.4, how far ahead of the hand the active panel floats.
pub const FLOAT_AHEAD: u32 = 0x3ecc_cccd;

/// 0.05, how much of the dashboard's height its tabs and its grab bar take up: 64 pixels
/// of 1280.
pub const STRIPS_SHARE: u32 = 0x3d4c_cccd;

/// How far apart the middles of two panels are that stand on each other with a gap.
pub open spec fn reach(lower: Scalar, upper: Scalar, gap: u32) -> Scalar {
    let half = Scalar { bits: HALF_BITS };
    lower.times(half).plus(upper.times(half)).plus(Scalar { bits: gap })
}

fn reach_of(lower: Scalar, upper: Scalar, gap: u32) -> (distance: Scalar)
    ensures
        distance == reach(lower, upper, gap),
{
    let half = Scalar { bits: HALF_BITS };
    lower.product(half).sum(upper.product(half)).sum(Scalar { bits: gap })
}

/// A panel turned like another, with its middle elsewhere.
pub open spec fn beside(panel: LauncherPanel, like: LauncherPanel, center: Vec3) -> LauncherPanel {
    LauncherPanel { center, right_dir: like.right_dir, up_dir: like.up_dir, ..panel }
}

/// A panel hung below another with a gap.
pub open spec fn hung(panel: LauncherPanel, upper: LauncherPanel, gap: u32) -> LauncherPanel {
    let distance = reach(upper.height, panel.height, gap);
    beside(panel, upper, upper.center.minus_spec(upper.up_dir.times_spec(distance)))
}

fn hang(panel: &mut LauncherPanel, upper: &LauncherPanel, gap: u32)
    ensures
        *final(panel) == hung(*old(panel), *upper, gap),
{
    let distance = reach_of(upper.height, panel.height, gap);
    panel.center = upper.center.minus(upper.up_dir.times(distance));
    panel.right_dir = upper.right_dir;
    panel.up_dir = upper.up_dir;
}

/// Hang the toolbar below the active panel, and the grab bar below the toolbar.
pub fn position_toolbar(
    active: &LauncherPanel,
    toolbar: &mut LauncherPanel,
    grab_bar: &mut LauncherPanel,
)
    ensures
        *final(toolbar) == hung(*old(toolbar), *active, TOOLBAR_GAP),
        *final(grab_bar) == hung(*old(grab_bar), *final(toolbar), GRAB_BAR_GAP),
{
    hang(toolbar, active, TOOLBAR_GAP);
    hang(grab_bar, toolbar, GRAB_BAR_GAP);
}

/// Where a notification is: above the active panel, to the right of its middle.
pub open spec fn notification_place(active: LauncherPanel, height: Scalar) -> Vec3 {
    active.center.plus_spec(
        active.up_dir.times_spec(reach(active.height, height, NOTIFICATION_GAP)),
    ).plus_spec(
        active.right_dir.times_spec(active.width.times(Scalar { bits: NOTIFICATION_ASIDE })),
    )
}

/// Put the notification above the active panel.
pub fn place_notification(active: &LauncherPanel, panel: &mut LauncherPanel)
    ensures
        *final(panel) == beside(
            *old(panel),
            *active,
            notification_place(*active, old(panel).height),
        ),
{
    let up = active.up_dir.times(reach_of(active.height, panel.height, NOTIFICATION_GAP));
    let aside = active.right_dir.times(
        active.width.product(Scalar { bits: NOTIFICATION_ASIDE }),
    );
    panel.center = active.center.plus(up).plus(aside);
    panel.right_dir = active.right_dir;
    panel.up_dir = active.up_dir;
}

/// Where the keyboard is: below the active panel.
pub open spec fn keyboard_place(active: LauncherPanel) -> Vec3 {
    let drop = active.height.times(Scalar { bits: HALF_BITS }).plus(Scalar { bits: KEYBOARD_DROP });
    active.center.minus_spec(active.up_dir.times_spec(drop))
}

/// Put a new keyboard below the active panel, at its size.
pub fn place_keyboard(active: &LauncherPanel, panel: &mut LauncherPanel)
    ensures
        *final(panel) == (LauncherPanel {
            width: Scalar { bits: KEYBOARD_WIDTH },
            height: Scalar { bits: KEYBOARD_HEIGHT },
            opacity: Scalar { bits: PANEL_OPACITY },
            ..beside(*old(panel), *active, keyboard_place(*active))
        }),
        final(panel).width.bits == 0x3f4c_cccd,
        final(panel).height.bits == 0x3ed7_0a3d,
        final(panel).opacity.bits == 0x3f73_3333,
{
    let half = Scalar { bits: HALF_BITS };
    let drop = active.height.product(half).sum(Scalar { bits: KEYBOARD_DROP });
    panel.center = active.center.minus(active.up_dir.times(drop));
    panel.right_dir = active.right_dir;
    panel.up_dir = active.up_dir;
    panel.width = Scalar { bits: KEYBOARD_WIDTH };
    panel.height = Scalar { bits: KEYBOARD_HEIGHT };
    panel.opacity = Scalar { bits: PANEL_OPACITY };
}

/// Where the tray is: ahead of a hand and above it.
pub open spec fn tray_place(grip_pos: Vec3, aim_dir: Vec3) -> Vec3 {
    grip_pos.plus_spec(aim_dir.times_spec(Scalar { bits: TRAY_AHEAD })).plus_spec(
        Vec3::up_spec().times_spec(Scalar { bits: TRAY_ABOVE }),
    )
}

/// Put the tray at the leading hand, if that is there.
pub fn place_tray(controller: &ControllerState, panel: &mut LauncherPanel)
    ensures
        ({
            let hand = controller.leading();
            *final(panel) == if hand.active {
                LauncherPanel { center: tray_place(hand.grip_pos, hand.aim_dir), ..*old(panel) }
            } else {
                *old(panel)
            }
        }),
{
    let hand = controller.leading_hand();
    if hand.active {
        let ahead = hand.aim_dir.times(Scalar { bits: TRAY_AHEAD });
        let above = Vec3::up().times(Scalar { bits: TRAY_ABOVE });
        panel.center = hand.grip_pos.plus(ahead).plus(above);
    }
}

/// A panel that floats ahead of a hand.
pub open spec fn floating(panel: LauncherPanel, grip_pos: Vec3, aim_dir: Vec3) -> LauncherPanel {
    LauncherPanel {
        center: grip_pos.plus_spec(aim_dir.times_spec(Scalar { bits: FLOAT_AHEAD })),
        ..panel
    }
}

/// A panel that took a place and its size.
pub open spec fn placed_at(panel: LauncherPanel, placed: Placement) -> LauncherPanel {
    LauncherPanel {
        center: placed.center,
        width: placed.width,
        height: placed.height,
        right_dir: placed.right_dir,
        up_dir: placed.up_dir,
        ..panel
    }
}

/// How far from the grip the middle of the held panel is, after a frame's input.
pub open spec fn offset_after(
    offset: Option<Vec3>,
    grab_start: Option<Vec3>,
    grip: Option<Vec3>,
    center: Vec3,
) -> Option<Vec3> {
    if grip is None {
        None
    } else {
        match grab_start {
            Some(start) => Some(center.minus_spec(start)),
            None => offset,
        }
    }
}

/// Carry the held panel along: a grab that starts keeps the panel's offset from the grip,
/// the panel keeps it while it is held, and a release forgets it. Returns the offset.
pub fn carry(offset: Option<Vec3>, input: &FrameInput, panel: &mut LauncherPanel) -> (next: Option<
    Vec3,
>)
    ensures
        next == offset_after(offset, input.grab_start, input.grip, old(panel).center),
        *final(panel) == match (input.grip, next) {
            (Some(grip), Some(offset)) => LauncherPanel {
                center: grip.plus_spec(offset),
                ..*old(panel)
            },
            _ => *old(panel),
        },
{
    let mut next = offset;
    if let Some(start) = input.grab_start {
        next = Some(panel.center.minus(start));
    }
    match (input.grip, next) {
        (Some(grip), Some(offset)) => {
            panel.center = grip.plus(offset);
            next
        },
        (Some(_), None) => next,
        (None, _) => None,
    }
}

/// The desktop's panel over the content of the dashboard's: all but the strips at its
/// lower edge.
pub open spec fn covering(screen: LauncherPanel, dashboard: LauncherPanel) -> LauncherPanel {
    let strips = Scalar { bits: STRIPS_SHARE };
    let raised = dashboard.height.times(strips).times(Scalar { bits: HALF_BITS });
    LauncherPanel {
        width: dashboard.width,
        height: dashboard.height.times(Scalar { bits: ONE_BITS }.minus(strips)),
        ..beside(
            screen,
            dashboard,
            dashboard.center.plus_spec(dashboard.up_dir.times_spec(raised)),
        )
    }
}

/// Put the desktop's panel over the content of the dashboard's.
pub fn cover_content(screen: &mut LauncherPanel, dashboard: &LauncherPanel)
    ensures
        *final(screen) == covering(*old(screen), *dashboard),
{
    let strips = Scalar { bits: STRIPS_SHARE };
    let raised = dashboard.height.product(strips).product(Scalar { bits: HALF_BITS });
    screen.center = dashboard.center.plus(dashboard.up_dir.times(raised));
    screen.width = dashboard.width;
    screen.height = dashboard.height.product(Scalar { bits: ONE_BITS }.difference(strips));
    screen.right_dir = dashboard.right_dir;
    screen.up_dir = dashboard.up_dir;
}

/// The toolbar and the grab bar turn with the active panel, wherever they were.
pub proof fn law_toolbar_turns_with_the_panel(
    active: LauncherPanel,
    toolbar: LauncherPanel,
    grab_bar: LauncherPanel,
)
    ensures
        ({
            let bar = hung(toolbar, active, TOOLBAR_GAP);
            let grip = hung(grab_bar, bar, GRAB_BAR_GAP);
            &&& bar.right_dir == active.right_dir && bar.up_dir == active.up_dir
            &&& grip.right_dir == active.right_dir && grip.up_dir == active.up_dir
            &&& bar.width == toolbar.width && bar.height == toolbar.height
            &&& grip.width == grab_bar.width && grip.height == grab_bar.height
        }),
{
}

/// A held panel follows the grip with the offset of the grab's start, until it is
/// released: however many frames pass, the offset stays.
pub proof fn law_held_panels_keep_their_offset(offset: Vec3, grip: Vec3, center: Vec3)
    ensures
        offset_after(Some(offset), None, Some(grip), center) == Some(offset),
        offset_after(Some(offset), None, None, center) is None,
{
}

/// The middles of two panels with a gap between them are half of each panel and the gap
/// apart.
pub proof fn law_panels_do_not_overlap(lower: Scalar, upper: Scalar, gap: u32)
    ensures
        ({
            let half = Scalar { bits: 0x3f00_0000 };
            reach(lower, upper, gap) == lower.times(half).plus(upper.times(half)).plus(
                Scalar { bits: gap },
            )
        }),
{
}

/// What hangs below the active panel and what stands above it: the toolbar two centimetres
/// below, the grab bar one centimetre below that, a notification four centimetres above and
/// a quarter of the width to the right, the keyboard's middle twenty-two centimetres below
/// the edge. Up is the active panel's own.
pub proof fn law_panels_around_the_active_one(
    active: LauncherPanel,
    panel: LauncherPanel,
    gap: u32,
)
    ensures
        TOOLBAR_GAP == 0x3ca3_d70a,
        GRAB_BAR_GAP == 0x3c23_d70a,
        ({
            let half = Scalar { bits: 0x3f00_0000 };
            let both = active.height.times(half).plus(panel.height.times(half));
            let below = active.up_dir.times_spec(both.plus(Scalar { bits: gap }));
            let above = active.up_dir.times_spec(both.plus(Scalar { bits: 0x3d23_d70a }));
            let aside = active.right_dir.times_spec(
                active.width.times(Scalar { bits: 0x3e80_0000 }),
            );
            let under = active.up_dir.times_spec(
                active.height.times(half).plus(Scalar { bits: 0x3e61_47ae }),
            );
            &&& hung(panel, active, gap).center == active.center.minus_spec(below)
            &&& hung(panel, active, gap).opacity == panel.opacity
            &&& notification_place(active, panel.height) == active.center.plus_spec(
                above,
            ).plus_spec(aside)
            &&& keyboard_place(active) == active.center.minus_spec(under)
        }),
{
}

/// What a hand holds out: the tray thirty centimetres ahead and ten above it, a floating
/// panel forty centimetres ahead, turned and sized as it was.
pub proof fn law_panels_ahead_of_a_hand(panel: LauncherPanel, grip_pos: Vec3, aim_dir: Vec3)
    ensures
        ({
            let up = Vec3::of_bits(0, 0x3f80_0000, 0);
            let ahead = grip_pos.plus_spec(aim_dir.times_spec(Scalar { bits: 0x3e99_999a }));
            let float = floating(panel, grip_pos, aim_dir);
            &&& tray_place(grip_pos, aim_dir) == ahead.plus_spec(
                up.times_spec(Scalar { bits: 0x3dcc_cccd }),
            )
            &&& float.center == grip_pos.plus_spec(
                aim_dir.times_spec(Scalar { bits: 0x3ecc_cccd }),
            )
            &&& float.right_dir == panel.right_dir
            &&& float.up_dir == panel.up_dir
            &&& float.width == panel.width
            &&& float.height == panel.height
            &&& float.opacity == panel.opacity
        }),
{
}

/// A panel that took a place is there, with its size and directions, and as opaque as before.
pub proof fn law_placed_panels(panel: LauncherPanel, placed: Placement)
    ensures
        ({
            let there = placed_at(panel, placed);
            &&& there.center == placed.center
            &&& there.right_dir == placed.right_dir
            &&& there.up_dir == placed.up_dir
            &&& there.width == placed.width
            &&& there.height == placed.height
            &&& there.opacity == panel.opacity
        }),
{
}

/// A grab that starts takes the panel's offset from where it started, whatever was held
/// before; with no grip there is none.
pub proof fn law_grabs_start_where_they_are(
    offset: Option<Vec3>,
    start: Vec3,
    grip: Vec3,
    center: Vec3,
)
    ensures
        offset_after(offset, Some(start), Some(grip), center) == Some(center.minus_spec(start)),
        offset_after(offset, Some(start), None, center) is None,
        offset_after(None, None, Some(grip), center) is None,
{
}

/// The desktop covers the dashboard but for the lower twentieth of its height: it is as wide,
/// its height is that much smaller, and its middle is half of that higher.
pub proof fn law_desktop_covers_the_content(screen: LauncherPanel, dashboard: LauncherPanel)
    ensures
        ({
            let over = covering(screen, dashboard);
            let twentieth = Scalar { bits: 0x3d4c_cccd };
            let left_over = (Scalar { bits: 0x3f80_0000 }).minus(twentieth);
            let raised = dashboard.height.times(twentieth).times(Scalar { bits: 0x3f00_0000 });
            &&& over.width == dashboard.width
            &&& over.height == dashboard.height.times(left_over)
            &&& over.center == dashboard.center.plus_spec(dashboard.up_dir.times_spec(raised))
            &&& over.right_dir == dashboard.right_dir
            &&& over.up_dir == dashboard.up_dir
            &&& over.opacity == screen.opacity
        }),
{
}

/// Around an upright panel, what hangs below is straight below and no higher, and a
/// notification is above and to the right: neither is nearer or farther than the panel.
pub proof fn law_panels_around_an_upright_one(
    active: LauncherPanel,
    panel: LauncherPanel,
    gap: u32,
)
    requires
        active.right_dir == Vec3::of_bits(0x3f80_0000, 0, 0),
        active.up_dir == Vec3::of_bits(0, 0x3f80_0000, 0),
        active.center.x.is_finite(),
        active.center.y.is_finite(),
        active.center.z.is_finite(),
        reach(active.height, panel.height, gap).is_finite(),
        !reach(active.height, panel.height, gap).signed(),
        reach(active.height, panel.height, NOTIFICATION_GAP).is_finite(),
        !reach(active.height, panel.height, NOTIFICATION_GAP).signed(),
        active.width.times(Scalar { bits: 0x3e80_0000 }).is_finite(),
        !active.width.times(Scalar { bits: 0x3e80_0000 }).signed(),
    ensures
        ({
            let below = hung(panel, active, gap).center;
            let above = notification_place(active, panel.height);
            let (x, y, z) = (active.center.x, active.center.y, active.center.z);
            &&& below.x.same_number(x)
            &&& below.y.same_number(y.minus(reach(active.height, panel.height, gap)))
            &&& below.y.at_most(y)
            &&& below.z.same_number(z)
            &&& x.at_most(above.x)
            &&& above.y.is_finite() ==> y.at_most(above.y)
            &&& above.z.same_number(z)
        }),
{
    let zero = Scalar { bits: 0 };
    let center = active.center;
    let down = reach(active.height, panel.height, gap);
    lemma_small_units(0);
    law_times_one(down);
    law_opposites(down, down);
    law_plus_zero(center.x, zero.negated());
    law_plus_zero(center.z, zero.negated());
    lemma_not_signed(down);
    law_sums_do_not_pass_numbers(center.y, down.negated(), center.y);
    let rise = reach(active.height, panel.height, NOTIFICATION_GAP);
    let aside = active.width.times(Scalar { bits: NOTIFICATION_ASIDE });
    law_times_one(rise);
    law_times_one(aside);
    lemma_not_signed(rise);
    lemma_not_signed(aside);
    law_plus_zero(center.x, zero);
    law_plus_zero(center.z, zero);
    let raised = center.plus_spec(active.up_dir.times_spec(rise));
    law_sums_do_not_pass_numbers(center.y, rise, center.y);
    law_sums_do_not_pass_numbers(raised.x, aside, center.x);
    law_plus_zero(raised.z, zero);
    if raised.y.is_finite() {
        law_plus_zero(raised.y, zero);
    }
}

proof fn lemma_not_signed(a: Scalar)
    requires
        a.is_finite(),
        !a.signed(),
    ensures
        0 <= a.units(),
{
    lemma_small_units(0);
    if a.magnitude() > 0 {
        lemma_units_monotone(0, a.magnitude());
    }
}

} // verus!
