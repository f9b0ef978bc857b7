//! The events a platform can report, and where each of them goes.

use vstd::prelude::*;

verus! {

/// The code of the key that ends the game: the platform's "cancel" key.
pub const CANCEL_KEY: i32 = 27;

/// A key, named by its platform key code.
#[derive(Debug, Clone, Copy, PartialEq, Eq, Structural)]
pub struct Keycode {
    pub code: i32,
}

impl Keycode {
    /// Whether this is the reserved key that ends the game.
    pub open spec fn spec_is_cancel(&self) -> bool {
        self.code == CANCEL_KEY
    }

    /// Whether this is the reserved key that ends the game.
    #[verifier::when_used_as_spec(spec_is_cancel)]
    pub fn is_cancel(&self) -> (b: bool)
        ensures
            b == self.spec_is_cancel(),
    {
        self.code == CANCEL_KEY
    }
}

/// One event of the platform layer, as plain values.
#[derive(Debug, Clone, Copy, PartialEq, Eq, Structural)]
pub enum Event {
    /// The platform asks the game to end.
    Quit,
    KeyDown { keycode: Option<Keycode>, modifiers: u16, repeat: bool },
    KeyUp { keycode: Option<Keycode>, modifiers: u16 },
    MouseButtonDown { button: u8, x: i32, y: i32 },
    MouseButtonUp { button: u8, x: i32, y: i32 },
    MouseMotion { x: i32, y: i32, dx: i32, dy: i32 },
    MouseWheel { dx: i32, dy: i32 },
    TextInput { ch: char },
    ControllerButtonDown { button: u8, device: u32 },
    ControllerButtonUp { button: u8, device: u32 },
    ControllerAxis { axis: u8, value: i16, device: u32 },
    FocusGained,
    FocusLost,
    Resize { width: u32, height: u32 },
    /// Any event kind the framework does not know.
    Other,
}

/// A callback of the game state that an event can be handed to.
#[derive(Debug, Clone, Copy, PartialEq, Eq, Structural)]
pub enum Callback {
    MouseButtonDown,
    MouseButtonUp,
    MouseMotion,
    MouseWheel,
    KeyDown,
    KeyUp,
    TextInput,
    ControllerButtonDown,
    ControllerButtonUp,
    ControllerAxis,
    /// The focus callback, with whether focus was gained.
    Focus(bool),
    Resize,
}

/// What the loop driver does with one event.
#[derive(Debug, Clone, Copy, PartialEq, Eq, Structural)]
pub enum Route {
    /// The driver ends the loop itself; no callback sees the event.
    Quit,
    /// The event goes to exactly this callback.
    Deliver(Callback),
    /// The event is dropped without a trace.
    Ignore,
}

impl Event {
    /// Whether the event ends the game: a platform quit, or a key-down of
    /// the cancel key.
    pub open spec fn spec_requests_quit(&self) -> bool {
        match *self {
            Event::Quit => true,
            Event::KeyDown { keycode: Some(key), .. } => key.spec_is_cancel(),
            _ => false,
        }
    }

    /// Whether the event ends the game.
    #[verifier::when_used_as_spec(spec_requests_quit)]
    pub fn requests_quit(&self) -> (b: bool)
        ensures
            b == self.spec_requests_quit(),
    {
        match self {
            Event::Quit => true,
            Event::KeyDown { keycode: Some(key), .. } => key.is_cancel(),
            _ => false,
        }
    }

    /// Where the event goes. Every event has exactly one route: the two that
    /// end the game are intercepted, an unknown kind is ignored, and every
    /// other event is delivered to the one callback of its kind, whatever
    /// its payload.
    pub open spec fn spec_route(&self) -> Route {
        match *self {
            Event::Quit => Route::Quit,
            Event::KeyDown { keycode, .. } => if self.spec_requests_quit() {
                Route::Quit
            } else {
                Route::Deliver(Callback::KeyDown)
            },
            Event::KeyUp { .. } => Route::Deliver(Callback::KeyUp),
            Event::MouseButtonDown { .. } => Route::Deliver(Callback::MouseButtonDown),
            Event::MouseButtonUp { .. } => Route::Deliver(Callback::MouseButtonUp),
            Event::MouseMotion { .. } => Route::Deliver(Callback::MouseMotion),
            Event::MouseWheel { .. } => Route::Deliver(Callback::MouseWheel),
            Event::TextInput { .. } => Route::Deliver(Callback::TextInput),
            Event::ControllerButtonDown { .. } => Route::Deliver(Callback::ControllerButtonDown),
            Event::ControllerButtonUp { .. } => Route::Deliver(Callback::ControllerButtonUp),
            Event::ControllerAxis { .. } => Route::Deliver(Callback::ControllerAxis),
            Event::FocusGained => Route::Deliver(Callback::Focus(true)),
            Event::FocusLost => Route::Deliver(Callback::Focus(false)),
            Event::Resize { .. } => Route::Deliver(Callback::Resize),
            Event::Other => Route::Ignore,
        }
    }

    /// Where the event goes.
    #[verifier::when_used_as_spec(spec_route)]
    pub fn route(&self) -> (r: Route)
        ensures
            r == self.spec_route(),
    {
        match self {
            Event::Quit => Route::Quit,
            Event::KeyDown { .. } => {
                if self.requests_quit() {
                    Route::Quit
                } else {
                    Route::Deliver(Callback::KeyDown)
                }
            },
            Event::KeyUp { .. } => Route::Deliver(Callback::KeyUp),
            Event::MouseButtonDown { .. } => Route::Deliver(Callback::MouseButtonDown),
            Event::MouseButtonUp { .. } => Route::Deliver(Callback::MouseButtonUp),
            Event::MouseMotion { .. } => Route::Deliver(Callback::MouseMotion),
            Event::MouseWheel { .. } => Route::Deliver(Callback::MouseWheel),
            Event::TextInput { .. } => Route::Deliver(Callback::TextInput),
            Event::ControllerButtonDown { .. } => Route::Deliver(Callback::ControllerButtonDown),
            Event::ControllerButtonUp { .. } => Route::Deliver(Callback::ControllerButtonUp),
            Event::ControllerAxis { .. } => Route::Deliver(Callback::ControllerAxis),
            Event::FocusGained => Route::Deliver(Callback::Focus(true)),
            Event::FocusLost => Route::Deliver(Callback::Focus(false)),
            Event::Resize { .. } => Route::Deliver(Callback::Resize),
            Event::Other => Route::Ignore,
        }
    }
}

/// Whether any event of a tick ends the game.
pub open spec fn spec_quit_observed(events: Seq<Event>) -> bool {
    exists|i: int| 0 <= i < events.len() && (#[trigger] events[i]).spec_requests_quit()
}

} // verus!
