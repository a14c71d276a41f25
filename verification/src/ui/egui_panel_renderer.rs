//! The input of a panel interface, and when it has to be painted.

use crate::scalar::Scalar;
use crate::shell::interaction::Uv;
use crate::text::chars_of;
use vstd::prelude::*;

verus! {

/// 0.01, the scroll amount up to which a thumbstick does not scroll.
pub const SCROLL_DEADZONE: u32 = 0x3c23_d70a;

/// What the virtual keyboard queues for its backspace key.
pub const BACKSPACE: char = '\u{8}';

/// A mouse button of an interface.
#[derive(Clone, Copy, Debug, PartialEq, Eq, Structural)]
pub enum PointerButton {
    Primary,
    Secondary,
}

/// An input event for an interface.
#[derive(Clone, Debug)]
pub enum UiEvent {
    PointerMoved(Uv),
    PointerButton { at: Uv, button: PointerButton, pressed: bool },
    /// Vertical scroll amount, in points.
    Scroll(Scalar),
    Backspace { pressed: bool },
    Text(String),
}

/// Whether a queued text is the backspace key.
pub open spec fn is_backspace(text: Seq<char>) -> bool {
    text == seq![BACKSPACE]
}

/// The events of the pointer: a move, then an instant click, then buttons that
/// changed.
pub open spec fn pointer_events(
    at: Uv,
    click: bool,
    primary: (bool, bool),
    secondary: (bool, bool),
) -> Seq<UiEvent> {
    let clicked = if click {
        seq![
            UiEvent::PointerButton { at, button: PointerButton::Primary, pressed: true },
            UiEvent::PointerButton { at, button: PointerButton::Primary, pressed: false },
        ]
    } else {
        Seq::empty()
    };
    let first = if primary.0 != primary.1 {
        seq![UiEvent::PointerButton { at, button: PointerButton::Primary, pressed: primary.1 }]
    } else {
        Seq::empty()
    };
    let second = if secondary.0 != secondary.1 {
        seq![UiEvent::PointerButton { at, button: PointerButton::Secondary, pressed: secondary.1 }]
    } else {
        Seq::empty()
    };
    seq![UiEvent::PointerMoved(at)] + clicked + first + second
}

/// The events of a scroll amount.
pub open spec fn scroll_events(amount: Scalar) -> Seq<UiEvent> {
    if (Scalar { bits: SCROLL_DEADZONE }).below(amount.unsigned()) {
        seq![UiEvent::Scroll(amount)]
    } else {
        Seq::empty()
    }
}

/// The events of queued texts: a press and a release for each backspace, and
/// every other text as it is.
pub open spec fn text_events(pending: Seq<String>) -> Seq<UiEvent>
    decreases pending.len(),
{
    if pending.len() == 0 {
        Seq::empty()
    } else {
        let before = text_events(pending.drop_last());
        if is_backspace(pending.last()@) {
            before.push(UiEvent::Backspace { pressed: true }).push(
                UiEvent::Backspace { pressed: false },
            )
        } else {
            before.push(UiEvent::Text(pending.last()))
        }
    }
}

fn backspace(text: &String) -> (answer: bool)
    ensures
        answer == is_backspace(text@),
{
    let chars = chars_of(text.as_str());
    if chars.len() == 1 && chars[0] == BACKSPACE {
        assert(chars@ =~= seq![BACKSPACE]);
        true
    } else {
        assert(is_backspace(text@) ==> chars@.len() == 1 && chars@[0] == seq![BACKSPACE][0]);
        false
    }
}

/// What is remembered of an interface's input between frames.
#[derive(Clone, Copy, Debug, PartialEq, Eq, Structural)]
pub struct PanelInput {
    /// Pointer position, in the interface's points.
    pub pointer_pos: Option<Uv>,
    /// Whether a frame has been painted.
    pub has_rendered: bool,
    pub prev_button_pressed: bool,
    pub prev_secondary_pressed: bool,
}

impl PanelInput {
    /// Nothing pointed at, nothing pressed, nothing painted.
    pub fn new() -> (input: PanelInput)
        ensures
            input == (PanelInput {
                pointer_pos: None,
                has_rendered: false,
                prev_button_pressed: false,
                prev_secondary_pressed: false,
            }),
    {
        PanelInput {
            pointer_pos: None,
            has_rendered: false,
            prev_button_pressed: false,
            prev_secondary_pressed: false,
        }
    }

    /// The pointer is at this point of a panel this wide and high.
    pub fn pointer_move(&mut self, at: Uv, width: u32, height: u32)
        ensures
            *final(self) == (PanelInput {
                pointer_pos: Some(at.scaled(width as int, height as int)),
                ..*old(self)
            }),
    {
        self.pointer_pos = Some(at.in_pixels(width, height));
    }

    /// The pointer is not on the panel.
    pub fn pointer_leave(&mut self)
        ensures
            *final(self) == (PanelInput { pointer_pos: None, ..*old(self) }),
    {
        self.pointer_pos = None;
    }

    /// Force the next frame to be painted.
    pub fn force_repaint(&mut self)
        ensures
            *final(self) == (PanelInput { has_rendered: false, ..*old(self) }),
    {
        self.has_rendered = false;
    }

    /// The events of a frame.
    pub open spec fn frame_events(
        self,
        click: bool,
        button_pressed: bool,
        secondary_pressed: bool,
        scroll_delta: Scalar,
        pending_text: Seq<String>,
    ) -> Seq<UiEvent> {
        let pointer = match self.pointer_pos {
            Some(at) => pointer_events(
                at,
                click,
                (self.prev_button_pressed, button_pressed),
                (self.prev_secondary_pressed, secondary_pressed),
            ),
            None => Seq::empty(),
        };
        pointer + scroll_events(scroll_delta) + text_events(pending_text)
    }

    fn push_pointer_events(
        &self,
        click: bool,
        button_pressed: bool,
        secondary_pressed: bool,
    ) -> (events: Vec<UiEvent>)
        ensures
            events@ == match self.pointer_pos {
                Some(at) => pointer_events(
                    at,
                    click,
                    (self.prev_button_pressed, button_pressed),
                    (self.prev_secondary_pressed, secondary_pressed),
                ),
                None => Seq::empty(),
            },
    {
        let mut events: Vec<UiEvent> = Vec::new();
        if let Some(at) = self.pointer_pos {
            events.push(UiEvent::PointerMoved(at));
            // Instant click: press+release in one frame (for buttons/tabs)
            if click {
                let button = PointerButton::Primary;
                events.push(UiEvent::PointerButton { at, button, pressed: true });
                events.push(UiEvent::PointerButton { at, button, pressed: false });
            }
            // Continuous primary button: press/release on state change (for drag/select)
            if button_pressed != self.prev_button_pressed {
                let button = PointerButton::Primary;
                events.push(UiEvent::PointerButton { at, button, pressed: button_pressed });
            }
            // Secondary button (right-click): press/release on state change
            if secondary_pressed != self.prev_secondary_pressed {
                let button = PointerButton::Secondary;
                events.push(UiEvent::PointerButton { at, button, pressed: secondary_pressed });
            }
        }
        events
    }

    /// The events of a frame, in order; the buttons are remembered even where no
    /// pointer tells of them.
    pub fn build_events(
        &mut self,
        click: bool,
        button_pressed: bool,
        secondary_pressed: bool,
        scroll_delta: Scalar,
        pending_text: &Vec<String>,
    ) -> (events: Vec<UiEvent>)
        ensures
            events@ == old(self).frame_events(
                click,
                button_pressed,
                secondary_pressed,
                scroll_delta,
                pending_text@,
            ),
            *final(self) == (PanelInput {
                prev_button_pressed: button_pressed,
                prev_secondary_pressed: secondary_pressed,
                ..*old(self)
            }),
    {
        let mut events = self.push_pointer_events(click, button_pressed, secondary_pressed);
        self.prev_button_pressed = button_pressed;
        self.prev_secondary_pressed = secondary_pressed;
        let ghost pointer = events@;
        if scroll_delta.abs().greater(Scalar { bits: SCROLL_DEADZONE }) {
            events.push(UiEvent::Scroll(scroll_delta));
        }
        let ghost scrolled = events@;
        assert(scrolled =~= pointer + scroll_events(scroll_delta));
        let mut i: usize = 0;
        assert(scrolled + text_events(pending_text@.take(0)) =~= scrolled);
        while i < pending_text.len()
            invariant
                i <= pending_text.len(),
                events@ == scrolled + text_events(pending_text@.take(i as int)),
            decreases pending_text.len() - i,
        {
            let ghost next = pending_text@.take(i + 1);
            assert(next.drop_last() =~= pending_text@.take(i as int));
            assert(next.last() == pending_text@[i as int]);
            if backspace(&pending_text[i]) {
                events.push(UiEvent::Backspace { pressed: true });
                events.push(UiEvent::Backspace { pressed: false });
            } else {
                events.push(UiEvent::Text(pending_text[i].clone()));
            }
            assert(events@ =~= scrolled + text_events(next));
            i += 1;
        }
        assert(pending_text@.take(i as int) =~= pending_text@);
        events
    }

    /// Whether painting is skipped: nothing changed since an earlier frame.
    pub open spec fn skips(self, needs_repaint: bool) -> bool {
        !needs_repaint && self.has_rendered
    }

    /// Whether painting is skipped.
    pub fn skip_paint(&self, needs_repaint: bool) -> (skip: bool)
        ensures
            skip == self.skips(needs_repaint),
    {
        !needs_repaint && self.has_rendered
    }

    /// Note how painting went. Returns whether the picture was updated.
    pub fn painted(&mut self, success: bool) -> (updated: bool)
        ensures
            updated == success,
            *final(self) == (PanelInput {
                has_rendered: old(self).has_rendered || success,
                ..*old(self)
            }),
    {
        if success {
            self.has_rendered = true;
        }
        success
    }
}

/// What to do about the framebuffer before painting.
#[derive(Clone, Copy, Debug, PartialEq, Eq, Structural)]
pub enum FramebufferPlan {
    /// It already targets the image.
    Keep,
    /// Make a new one, after destroying the old one if there is one.
    Make { destroy_old: bool },
}

/// The framebuffer of a panel: the image that it targets, if it exists.
#[derive(Clone, Copy, Debug, PartialEq, Eq, Structural)]
pub struct FramebufferSlot {
    pub target: Option<u64>,
}

impl FramebufferSlot {
    /// What to do to paint into this image.
    pub open spec fn plan_for(self, image: u64) -> FramebufferPlan {
        if self.target == Some(image) {
            FramebufferPlan::Keep
        } else {
            FramebufferPlan::Make { destroy_old: self.target is Some }
        }
    }

    /// What to do to paint into this image. An old framebuffer for another image
    /// is given up.
    pub fn ensure(&mut self, image: u64) -> (plan: FramebufferPlan)
        ensures
            plan == old(self).plan_for(image),
            final(self).target == if plan is Keep {
                old(self).target
            } else {
                None
            },
    {
        match self.target {
            Some(current) => if current == image {
                FramebufferPlan::Keep
            } else {
                self.target = None;
                FramebufferPlan::Make { destroy_old: true }
            },
            None => FramebufferPlan::Make { destroy_old: false },
        }
    }

    /// Note the framebuffer made for this image.
    pub fn made(&mut self, image: u64)
        ensures
            final(self).target == Some(image),
            final(self).plan_for(image) is Keep,
    {
        self.target = Some(image);
    }
}

/// A button that is held tells of it once: with the same buttons in the next
/// frame and no click, the pointer only moves.
pub proof fn law_held_buttons_are_silent(at: Uv, primary: bool, secondary: bool)
    ensures
        pointer_events(at, false, (primary, primary), (secondary, secondary)) == seq![
            UiEvent::PointerMoved(at),
        ],
{
    assert(pointer_events(at, false, (primary, primary), (secondary, secondary)) =~= seq![
        UiEvent::PointerMoved(at),
    ]);
}

/// The first frame is always painted, and after one was painted only a needed
/// repaint is.
pub proof fn law_first_frame_is_painted(input: PanelInput, needs_repaint: bool)
    ensures
        !input.has_rendered ==> !input.skips(needs_repaint),
        input.has_rendered ==> (input.skips(needs_repaint) <==> !needs_repaint),
{
}

/// What a pointer tells, in order: where it is, then the press and the release of a click,
/// then the first button if it changed, then the second if it changed, each at the same
/// point and with its new state. There is nothing else.
pub proof fn law_pointers_tell_changes(
    at: Uv,
    click: bool,
    primary: (bool, bool),
    secondary: (bool, bool),
)
    ensures
        ({
            let events = pointer_events(at, click, primary, secondary);
            let after_click: int = if click {
                3
            } else {
                1
            };
            let first_changed = primary.0 != primary.1;
            let second_changed = secondary.0 != secondary.1;
            let first = PointerButton::Primary;
            let second = PointerButton::Secondary;
            &&& events[0] == UiEvent::PointerMoved(at)
            &&& click ==> events[1] == UiEvent::PointerButton { at, button: first, pressed: true }
            &&& click ==> events[2] == UiEvent::PointerButton { at, button: first, pressed: false }
            &&& first_changed ==> events[after_click] == UiEvent::PointerButton {
                at,
                button: first,
                pressed: primary.1,
            }
            &&& second_changed ==> events.last() == UiEvent::PointerButton {
                at,
                button: second,
                pressed: secondary.1,
            }
            &&& events.len() == after_click + (if first_changed {
                1int
            } else {
                0
            }) + (if second_changed {
                1int
            } else {
                0
            })
        }),
{
}

/// A thumbstick scrolls by its own amount once that is more than a hundredth either way, and
/// not at all before; what is no number does not scroll.
pub proof fn law_scrolling_has_a_dead_zone(amount: Scalar)
    ensures
        ({
            let moved = (Scalar { bits: 0x3c23_d70a }).below(amount.unsigned());
            &&& moved ==> scroll_events(amount) == seq![UiEvent::Scroll(amount)]
            &&& !moved ==> scroll_events(amount).len() == 0
            &&& amount.is_nan() ==> !moved
        }),
{
    crate::scalar::law_unsigned(amount);
}

/// Texts come in order: those of two queues one after the other give the events of the first
/// and then those of the second. A backspace alone is pressed and released, any other text
/// stays as it is.
pub proof fn law_texts_come_in_order(first: Seq<String>, second: Seq<String>, only: String)
    ensures
        text_events(first + second) == text_events(first) + text_events(second),
        only@ == seq!['\u{8}'] ==> text_events(seq![only]) == seq![
            UiEvent::Backspace { pressed: true },
            UiEvent::Backspace { pressed: false },
        ],
        only@ != seq!['\u{8}'] ==> text_events(seq![only]) == seq![UiEvent::Text(only)],
        text_events(Seq::empty()).len() == 0,
    decreases second.len(),
{
    reveal_with_fuel(text_events, 2);
    assert(seq![only].drop_last() =~= Seq::<String>::empty());
    assert(is_backspace(only@) ==> text_events(seq![only]) =~= seq![
        UiEvent::Backspace { pressed: true },
        UiEvent::Backspace { pressed: false },
    ]);
    assert(!is_backspace(only@) ==> text_events(seq![only]) =~= seq![UiEvent::Text(only)]);
    if second.len() == 0 {
        assert(first + second =~= first);
        assert(text_events(first) + text_events(second) =~= text_events(first));
    } else {
        law_texts_come_in_order(first, second.drop_last(), only);
        assert((first + second).drop_last() =~= first + second.drop_last());
        assert((first + second).last() == second.last());
        assert(text_events(first + second) =~= text_events(first) + text_events(second));
    }
}

/// The events of a frame are those of the pointer, if it is on the panel, then the scroll,
/// then the texts. What the buttons changed by is told against the last frame, each button
/// against its own.
pub proof fn law_frames_tell_everything(
    input: PanelInput,
    click: bool,
    primary: bool,
    secondary: bool,
    scroll: Scalar,
    texts: Seq<String>,
)
    ensures
        ({
            let events = input.frame_events(click, primary, secondary, scroll, texts);
            let others = scroll_events(scroll) + text_events(texts);
            &&& input.pointer_pos is None ==> events == others
            &&& input.pointer_pos is Some ==> events == pointer_events(
                input.pointer_pos->0,
                click,
                (input.prev_button_pressed, primary),
                (input.prev_secondary_pressed, secondary),
            ) + others
        }),
{
    let events = input.frame_events(click, primary, secondary, scroll, texts);
    let others = scroll_events(scroll) + text_events(texts);
    if input.pointer_pos is None {
        assert(events =~= others);
    } else {
        assert(events =~= pointer_events(
            input.pointer_pos->0,
            click,
            (input.prev_button_pressed, primary),
            (input.prev_secondary_pressed, secondary),
        ) + others);
    }
}

/// A framebuffer is kept exactly where it targets the image. Otherwise one is made, and an
/// old one is destroyed if and only if there is one.
pub proof fn law_framebuffers_follow_the_image(slot: FramebufferSlot, image: u64)
    ensures
        slot.plan_for(image) is Keep <==> slot.target == Some(image),
        slot.plan_for(image) is Make ==> (slot.plan_for(image)->destroy_old <==> slot.target
            is Some),
{
}

} // verus!
