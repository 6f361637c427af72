//! Which mouse buttons are held, as window events report them. The camera
//! orbits while the left button is held and zooms while the right one is.

use vstd::prelude::*;

verus! {

/// Whether a button went down or up.
#[derive(Clone, Copy, Debug, PartialEq, Eq)]
pub enum ElementState {
    Pressed,
    Released,
}

/// A mouse button.
#[derive(Clone, Copy, Debug, PartialEq, Eq)]
pub enum MouseButton {
    Left,
    Right,
    Middle,
    Back,
    Forward,
    Other(u16),
}

/// The part of a window event that the button state reads.
#[derive(Clone, Copy, Debug, PartialEq, Eq)]
pub enum WindowEvent {
    /// A mouse button went down or up.
    MouseInput { state: ElementState, button: MouseButton },
    /// Any other event.
    Other,
}

/// The held state of the left and right mouse buttons.
#[derive(Clone, Copy, Debug, PartialEq, Eq)]
pub struct InputState {
    pub lmb_pressed: bool,
    pub rmb_pressed: bool,
}

/// The button state after `event`.
pub open spec fn after_event(s: InputState, event: WindowEvent) -> InputState {
    match event {
        WindowEvent::MouseInput { state, button } => match button {
            MouseButton::Left => InputState { lmb_pressed: state == ElementState::Pressed, ..s },
            MouseButton::Right => InputState { rmb_pressed: state == ElementState::Pressed, ..s },
            _ => s,
        },
        WindowEvent::Other => s,
    }
}

impl Default for InputState {
    /// No button held.
    fn default() -> (s: Self)
        ensures
            !s.lmb_pressed,
            !s.rmb_pressed,
    {
        InputState { lmb_pressed: false, rmb_pressed: false }
    }
}

impl InputState {
    /// Takes the event into account: a left or right button event sets
    /// that button's state; any other event changes nothing.
    pub fn on_window_event(&mut self, event: &WindowEvent)
        ensures
            *final(self) == after_event(*old(self), *event),
    {
        if let WindowEvent::MouseInput { state, button } = event {
            let pressed = match state {
                ElementState::Pressed => true,
                ElementState::Released => false,
            };
            match button {
                MouseButton::Left => self.lmb_pressed = pressed,
                MouseButton::Right => self.rmb_pressed = pressed,
                _ => {},
            }
        }
    }
}

/// Law: the button state reflects the last event of each button: after
/// an event of a button, a second one of the same button gives what the
/// second alone would give.
pub proof fn law_last_event_wins(
    s: InputState,
    button: MouseButton,
    first: ElementState,
    second: ElementState,
)
    ensures
        after_event(
            after_event(s, WindowEvent::MouseInput { state: first, button }),
            WindowEvent::MouseInput { state: second, button },
        ) == after_event(s, WindowEvent::MouseInput { state: second, button }),
{
}

/// Law: taking an event into account twice is taking it once.
pub proof fn law_event_idempotent(s: InputState, event: WindowEvent)
    ensures
        after_event(after_event(s, event), event) == after_event(s, event),
{
}

/// Law: an event of one button leaves the other's state as it was, and
/// events of other buttons or of other kinds change nothing.
pub proof fn law_buttons_independent(s: InputState, state: ElementState, button: MouseButton)
    ensures
        button != MouseButton::Left ==> after_event(
            s,
            WindowEvent::MouseInput { state, button },
        ).lmb_pressed == s.lmb_pressed,
        button != MouseButton::Right ==> after_event(
            s,
            WindowEvent::MouseInput { state, button },
        ).rmb_pressed == s.rmb_pressed,
        after_event(s, WindowEvent::Other) == s,
{
}

/// Law: after a left-button event the left button is held exactly when the
/// event is a press, and after a right-button event the right button is
/// held exactly when the event is a press, whatever the state before,
/// the other button's included.
pub proof fn law_button_follows_its_event(s: InputState, state: ElementState)
    ensures
        after_event(s, WindowEvent::MouseInput { state, button: MouseButton::Left }).lmb_pressed
            <==> state == ElementState::Pressed,
        after_event(s, WindowEvent::MouseInput { state, button: MouseButton::Right }).rmb_pressed
            <==> state == ElementState::Pressed,
{
}

} // verus!
