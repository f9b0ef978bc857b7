//! The contract between the loop driver and the game it drives.

use vstd::prelude::*;
use crate::conf::Conf;
use crate::context::Context;
use crate::error::GameError;
use crate::event::{Callback, Event};

verus! {

/// A game, as the loop driver sees it.
///
/// `load`, `update` and `draw` have to be written; every event callback has
/// a default that does nothing. The driver promises an order: within one
/// tick every pending event has reached its callback before `update` runs,
/// and `update` has returned before `draw` runs. A failure of `load`,
/// `update` or `draw` ends whatever the driver was doing and reaches its
/// caller unchanged.
pub trait GameState: Sized {
    /// Creates the game from the context and the configuration.
    fn load(ctx: &mut Context, conf: &Conf) -> Result<Self, GameError>;

    /// Advances the game by `dt` nanoseconds: the time between the last two
    /// ticks.
    fn update(&mut self, ctx: &mut Context, dt: u64) -> Result<(), GameError>;

    /// Draws the game: submits draw calls to the context.
    fn draw(&mut self, ctx: &mut Context) -> Result<(), GameError>;

    fn mouse_button_down_event(&mut self, _evt: Event) {
    }

    fn mouse_button_up_event(&mut self, _evt: Event) {
    }

    fn mouse_motion_event(&mut self, _evt: Event) {
    }

    fn mouse_wheel_event(&mut self, _evt: Event) {
    }

    /// A key went down. The cancel key never gets here: it ends the game.
    fn key_down_event(&mut self, _evt: Event) {
    }

    fn key_up_event(&mut self, _evt: Event) {
    }

    fn text_input_event(&mut self, _evt: Event) {
    }

    fn controller_button_down_event(&mut self, _evt: Event) {
    }

    fn controller_button_up_event(&mut self, _evt: Event) {
    }

    fn controller_axis_event(&mut self, _evt: Event) {
    }

    fn resize_event(&mut self, _evt: Event) {
    }

    /// The window gained or lost focus.
    fn focus(&mut self, _gained: bool) {
    }

    /// The game is about to end. Called once, after the last `draw`.
    fn quit(&mut self) {
    }
}

/// Whether a call of the callback `callback` with `event` can do to the
/// state behind `state` what that reference says was done to it. The focus
/// callback is given whether focus was gained, every other callback the
/// event itself.
#[verifier::inline]
pub open spec fn called_back<S: GameState>(state: &mut S, callback: Callback, event: Event) -> bool {
    match callback {
        Callback::MouseButtonDown => call_ensures(S::mouse_button_down_event, (state, event), ()),
        Callback::MouseButtonUp => call_ensures(S::mouse_button_up_event, (state, event), ()),
        Callback::MouseMotion => call_ensures(S::mouse_motion_event, (state, event), ()),
        Callback::MouseWheel => call_ensures(S::mouse_wheel_event, (state, event), ()),
        Callback::KeyDown => call_ensures(S::key_down_event, (state, event), ()),
        Callback::KeyUp => call_ensures(S::key_up_event, (state, event), ()),
        Callback::TextInput => call_ensures(S::text_input_event, (state, event), ()),
        Callback::ControllerButtonDown => call_ensures(
            S::controller_button_down_event,
            (state, event),
            (),
        ),
        Callback::ControllerButtonUp => call_ensures(
            S::controller_button_up_event,
            (state, event),
            (),
        ),
        Callback::ControllerAxis => call_ensures(S::controller_axis_event, (state, event), ()),
        Callback::Focus(gained) => call_ensures(S::focus, (state, gained), ()),
        Callback::Resize => call_ensures(S::resize_event, (state, event), ()),
    }
}

} // verus!
