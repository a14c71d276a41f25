//! Desktop window mode: keys, mouse and the frames of the window.

use crate::mirror_window::Extent;
use vstd::prelude::*;

verus! {

/// Which movement keys are held.
#[derive(Clone, Copy, Debug, PartialEq, Eq, Structural)]
pub struct KeysHeld {
    pub forward: bool,
    pub back: bool,
    pub left: bool,
    pub right: bool,
    pub up: bool,
    pub down: bool,
}

/// A key that the window knows.
#[derive(Clone, Copy, Debug, PartialEq, Eq, Structural)]
pub enum Key {
    W,
    A,
    S,
    D,
    Space,
    Shift,
    Escape,
    Other,
}

/// Something that happened to the window.
#[derive(Clone, Copy, Debug, PartialEq, Eq, Structural)]
pub enum WindowInput {
    CloseRequested,
    Resized,
    Key { key: Key, pressed: bool },
    LeftMouse { pressed: bool },
    RedrawRequested,
    Other,
}

/// What the application has to do about it.
#[derive(Clone, Copy, Debug, PartialEq, Eq, Structural)]
pub enum WindowAction {
    Nothing,
    /// Stop running and leave the event loop.
    Exit,
    GrabCursor,
    ReleaseCursor,
    /// Move the camera, render a frame, and ask for the next.
    Render,
}

/// One step along each axis: forward, right, up.
#[derive(Clone, Copy, Debug, PartialEq, Eq, Structural)]
pub struct MoveDirection {
    pub forward: i8,
    pub right: i8,
    pub up: i8,
}

/// One way against the other.
pub open spec fn balance(plus: bool, minus: bool) -> int {
    if plus && !minus {
        1
    } else if minus && !plus {
        -1
    } else {
        0
    }
}

fn balanced(plus: bool, minus: bool) -> (step: i8)
    ensures
        step == balance(plus, minus),
{
    if plus && !minus {
        1
    } else if minus && !plus {
        -1
    } else {
        0
    }
}

impl KeysHeld {
    /// No key held.
    pub open spec fn none() -> KeysHeld {
        KeysHeld {
            forward: false,
            back: false,
            left: false,
            right: false,
            up: false,
            down: false,
        }
    }

    /// The keys after one was pressed or released.
    pub open spec fn after(self, key: Key, pressed: bool) -> KeysHeld {
        match key {
            Key::W => KeysHeld { forward: pressed, ..self },
            Key::S => KeysHeld { back: pressed, ..self },
            Key::A => KeysHeld { left: pressed, ..self },
            Key::D => KeysHeld { right: pressed, ..self },
            Key::Space => KeysHeld { up: pressed, ..self },
            Key::Shift => KeysHeld { down: pressed, ..self },
            Key::Escape => self,
            Key::Other => self,
        }
    }

    fn set(&mut self, key: Key, pressed: bool)
        ensures
            *final(self) == old(self).after(key, pressed),
    {
        match key {
            Key::W => {
                self.forward = pressed;
            },
            Key::S => {
                self.back = pressed;
            },
            Key::A => {
                self.left = pressed;
            },
            Key::D => {
                self.right = pressed;
            },
            Key::Space => {
                self.up = pressed;
            },
            Key::Shift => {
                self.down = pressed;
            },
            Key::Escape | Key::Other => {},
        }
    }

    /// Which way the held keys move the camera; opposite keys cancel.
    pub fn direction(&self) -> (direction: MoveDirection)
        ensures
            direction.forward == balance(self.forward, self.back),
            direction.right == balance(self.right, self.left),
            direction.up == balance(self.up, self.down),
    {
        MoveDirection {
            forward: balanced(self.forward, self.back),
            right: balanced(self.right, self.left),
            up: balanced(self.up, self.down),
        }
    }
}

/// The state of the desktop window.
#[derive(Clone, Copy, Debug, PartialEq, Eq, Structural)]
pub struct DesktopState {
    pub keys_held: KeysHeld,
    /// Whether the cursor is grabbed.
    pub mouse_captured: bool,
    pub mouse_clicking: bool,
    pub needs_swapchain_recreate: bool,
}

impl DesktopState {
    /// No key held, the cursor free.
    pub fn new() -> (state: DesktopState)
        ensures
            state == (DesktopState {
                keys_held: KeysHeld::none(),
                mouse_captured: false,
                mouse_clicking: false,
                needs_swapchain_recreate: false,
            }),
    {
        let keys_held = KeysHeld {
            forward: false,
            back: false,
            left: false,
            right: false,
            up: false,
            down: false,
        };
        DesktopState {
            keys_held,
            mouse_captured: false,
            mouse_clicking: false,
            needs_swapchain_recreate: false,
        }
    }

    /// The state after an input.
    pub open spec fn after(self, input: WindowInput) -> DesktopState {
        match input {
            WindowInput::Resized => DesktopState { needs_swapchain_recreate: true, ..self },
            WindowInput::Key { key: Key::Escape, pressed } => if pressed {
                DesktopState { mouse_captured: false, ..self }
            } else {
                self
            },
            WindowInput::Key { key, pressed } => DesktopState {
                keys_held: self.keys_held.after(key, pressed),
                ..self
            },
            WindowInput::LeftMouse { pressed } => if self.mouse_captured {
                DesktopState { mouse_clicking: pressed, ..self }
            } else if pressed {
                DesktopState { mouse_captured: true, ..self }
            } else {
                self
            },
            _ => self,
        }
    }

    /// What an input asks for: the first click grabs the cursor, escape lets it go,
    /// and escape with a free cursor leaves.
    pub open spec fn reply(self, input: WindowInput) -> WindowAction {
        match input {
            WindowInput::CloseRequested => WindowAction::Exit,
            WindowInput::Key { key: Key::Escape, pressed: true } => if self.mouse_captured {
                WindowAction::ReleaseCursor
            } else {
                WindowAction::Exit
            },
            WindowInput::LeftMouse { pressed: true } => if self.mouse_captured {
                WindowAction::Nothing
            } else {
                WindowAction::GrabCursor
            },
            WindowInput::RedrawRequested => WindowAction::Render,
            _ => WindowAction::Nothing,
        }
    }

    /// Handle an input.
    pub fn window_event(&mut self, input: WindowInput) -> (action: WindowAction)
        ensures
            *final(self) == old(self).after(input),
            action == old(self).reply(input),
    {
        match input {
            WindowInput::CloseRequested => WindowAction::Exit,
            WindowInput::Resized => {
                self.needs_swapchain_recreate = true;
                WindowAction::Nothing
            },
            WindowInput::Key { key, pressed } => {
                if key == Key::Escape {
                    if !pressed {
                        WindowAction::Nothing
                    } else if self.mouse_captured {
                        self.mouse_captured = false;
                        WindowAction::ReleaseCursor
                    } else {
                        WindowAction::Exit
                    }
                } else {
                    self.keys_held.set(key, pressed);
                    WindowAction::Nothing
                }
            },
            WindowInput::LeftMouse { pressed } => {
                if !self.mouse_captured && pressed {
                    self.mouse_captured = true;
                    WindowAction::GrabCursor
                } else if self.mouse_captured {
                    self.mouse_clicking = pressed;
                    WindowAction::Nothing
                } else {
                    WindowAction::Nothing
                }
            },
            WindowInput::RedrawRequested => WindowAction::Render,
            WindowInput::Other => WindowAction::Nothing,
        }
    }

    /// Take the request to make the window's images anew.
    pub fn take_recreate(&mut self) -> (recreate: bool)
        ensures
            recreate == old(self).needs_swapchain_recreate,
            *final(self) == (DesktopState { needs_swapchain_recreate: false, ..*old(self) }),
    {
        let recreate = self.needs_swapchain_recreate;
        self.needs_swapchain_recreate = false;
        recreate
    }
}

/// Whether a window of this size shows a frame.
pub fn shows_frame(extent: Extent) -> (answer: bool)
    ensures
        answer == (extent.width != 0 && extent.height != 0),
{
    extent.width != 0 && extent.height != 0
}

/// What drives the panel in the desktop window.
#[derive(Clone, Copy, Debug, PartialEq, Eq, Structural)]
pub enum PanelSource {
    Launcher,
    Screen,
}

/// What drives the panel, and the size of its texture.
pub fn panel_source(use_screen_capture: bool) -> (source: (PanelSource, u32, u32))
    ensures
        source == if use_screen_capture {
            (PanelSource::Screen, 1920u32, 1080u32)
        } else {
            (PanelSource::Launcher, 1024u32, 640u32)
        },
{
    if use_screen_capture {
        (PanelSource::Screen, 1920, 1080)
    } else {
        (PanelSource::Launcher, 1024, 640)
    }
}

/// How the application was asked to run.
#[derive(Clone, Copy, Debug, PartialEq, Eq, Structural)]
pub struct RunMode {
    pub desktop: bool,
    pub screen_capture: bool,
}

fn has_argument(args: &Vec<String>, name: &str) -> (answer: bool)
    ensures
        answer == exists|i: int| 0 <= i < args@.len() && (#[trigger] args@[i])@ == name@,
{
    let mut i: usize = 0;
    while i < args.len()
        invariant
            i <= args.len(),
            forall|k: int| 0 <= k < i ==> (#[trigger] args@[k])@ != name@,
        decreases args.len() - i,
    {
        if crate::text::same_text(args[i].as_str(), name) {
            return true;
        }
        i += 1;
    }
    false
}

/// How the application was asked to run: in a desktop window, with the captured
/// screen.
pub fn run_mode(args: &Vec<String>) -> (mode: RunMode)
    ensures
        mode.desktop == exists|i: int|
            0 <= i < args@.len() && (#[trigger] args@[i])@ == "--desktop"@,
        mode.screen_capture == exists|i: int|
            0 <= i < args@.len() && (#[trigger] args@[i])@ == "--screen"@,
{
    RunMode {
        desktop: has_argument(args, "--desktop"),
        screen_capture: has_argument(args, "--screen"),
    }
}

/// Escape always leads out: pressed twice it leaves, whatever went before.
pub proof fn law_escape_twice_leaves(state: DesktopState)
    ensures
        ({
            let escape = WindowInput::Key { key: Key::Escape, pressed: true };
            state.reply(escape) is Exit || state.after(escape).reply(escape) is Exit
        }),
{
}

/// A click that grabs the cursor is not a click on the panel.
pub proof fn law_grabbing_click_does_not_click(state: DesktopState)
    requires
        !state.mouse_captured,
    ensures
        state.after(WindowInput::LeftMouse { pressed: true }).mouse_clicking
            == state.mouse_clicking,
        state.after(WindowInput::LeftMouse { pressed: true }).mouse_captured,
{
}

/// Releasing a key undoes pressing it.
pub proof fn law_release_undoes_press(keys: KeysHeld, key: Key)
    ensures
        keys.after(key, true).after(key, false) == keys.after(key, false),
        keys == KeysHeld::none() ==> keys.after(key, true).after(key, false) == keys,
{
}

/// Each key moves its own way and no other: W forward, S back, A left, D right, space up and
/// shift down. No other key moves anything.
pub proof fn law_keys_move_their_own_way(keys: KeysHeld, key: Key, pressed: bool)
    ensures
        ({
            let after = keys.after(key, pressed);
            &&& after.forward == if key is W {
                pressed
            } else {
                keys.forward
            }
            &&& after.back == if key is S {
                pressed
            } else {
                keys.back
            }
            &&& after.left == if key is A {
                pressed
            } else {
                keys.left
            }
            &&& after.right == if key is D {
                pressed
            } else {
                keys.right
            }
            &&& after.up == if key is Space {
                pressed
            } else {
                keys.up
            }
            &&& after.down == if key is Shift {
                pressed
            } else {
                keys.down
            }
        }),
{
}

/// Opposite keys add up: one is a step its way, both or none are no step, and exchanging them
/// turns the step round.
pub proof fn law_opposite_keys_cancel(plus: bool, minus: bool)
    ensures
        balance(plus, minus) == (if plus {
            1int
        } else {
            0
        }) - (if minus {
            1int
        } else {
            0
        }),
        balance(minus, plus) == -balance(plus, minus),
{
}

/// What each input changes of the window: a resize asks for new images, a key other than
/// escape is held or not, escape frees the cursor, and the left button grabs a free cursor
/// or clicks with a grabbed one. Nothing else changes anything.
pub proof fn law_inputs_change_their_own(state: DesktopState, input: WindowInput)
    ensures
        ({
            let after = state.after(input);
            let escape = input == (WindowInput::Key { key: Key::Escape, pressed: true });
            let grab = input == (WindowInput::LeftMouse { pressed: true })
                && !state.mouse_captured;
            &&& after.needs_swapchain_recreate <==> state.needs_swapchain_recreate || input
                is Resized
            &&& after.mouse_captured <==> (state.mouse_captured && !escape) || grab
            &&& after.mouse_clicking == if input is LeftMouse && state.mouse_captured {
                input->LeftMouse_pressed
            } else {
                state.mouse_clicking
            }
            &&& after.keys_held == if input is Key {
                state.keys_held.after(input->key, input->Key_pressed)
            } else {
                state.keys_held
            }
        }),
{
}

/// When each action is asked for: leaving on a close request and on escape with a free cursor,
/// freeing the cursor on escape with a grabbed one, grabbing it on a press of the left button
/// with a free one, and drawing on a redraw request.
pub proof fn law_actions_answer_inputs(state: DesktopState, input: WindowInput)
    ensures
        ({
            let reply = state.reply(input);
            let escape = input == (WindowInput::Key { key: Key::Escape, pressed: true });
            let click = input == (WindowInput::LeftMouse { pressed: true });
            &&& reply is Exit <==> input is CloseRequested || (escape && !state.mouse_captured)
            &&& reply is ReleaseCursor <==> escape && state.mouse_captured
            &&& reply is GrabCursor <==> click && !state.mouse_captured
            &&& reply is Render <==> input is RedrawRequested
        }),
{
}

} // verus!
