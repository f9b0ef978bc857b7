//! The context: the state that the loop driver owns and lends to every
//! callback.

use vstd::prelude::*;
use crate::conf::Conf;
use crate::draw::{call_views, DrawCall, DrawCallView};
use crate::error::GameError;
use crate::fonts::{spec_register, FontHandle, FontMetrics, FontRegistry, FontView};
use crate::timer::TimeContext;

verus! {

/// The frame timer, the font registry, the size of the screen and the draw
/// calls that wait for the graphics backend.
#[derive(Debug)]
pub struct Context {
    timer: TimeContext,
    fonts: FontRegistry,
    screen_width: u32,
    screen_height: u32,
    calls: Vec<DrawCall>,
}

/// The mathematical value of a [`Context`].
pub ghost struct ContextView {
    pub timer: TimeContext,
    pub fonts: Seq<FontView>,
    pub screen_width: u32,
    pub screen_height: u32,
    /// The draw calls submitted since the backend last took them, oldest
    /// first.
    pub calls: Seq<DrawCallView>,
}

impl View for Context {
    type V = ContextView;

    closed spec fn view(&self) -> ContextView {
        ContextView {
            timer: self.timer,
            fonts: self.fonts@,
            screen_width: self.screen_width,
            screen_height: self.screen_height,
            calls: call_views(self.calls@),
        }
    }
}

impl Context {
    /// The context of a game that starts with `conf`: a timer that has never
    /// ticked, the built-in font alone, a screen as large as the configured
    /// window, and nothing to draw.
    pub open spec fn spec_from_conf(conf: Conf) -> ContextView {
        ContextView {
            timer: TimeContext { last: 0, delta: 0, frames: 0, residual: 0 },
            fonts: Seq::empty(),
            screen_width: conf.window_width,
            screen_height: conf.window_height,
            calls: Seq::empty(),
        }
    }

    /// Creates the context of a game that starts with `conf`.
    pub fn from_conf(conf: &Conf) -> (ctx: Context)
        ensures
            ctx@ == Context::spec_from_conf(*conf),
    {
        let ctx = Context {
            timer: TimeContext::new(),
            fonts: FontRegistry::new(),
            screen_width: conf.window_width,
            screen_height: conf.window_height,
            calls: Vec::new(),
        };
        assert(ctx@.calls =~= Seq::empty());
        ctx
    }

    /// The frame timer.
    pub fn timer(&self) -> (timer: TimeContext)
        ensures
            timer == self@.timer,
    {
        self.timer
    }

    /// Advances the frame timer by one frame that starts at clock reading
    /// `now`. Nothing else changes.
    pub fn tick(&mut self, now: u64)
        ensures
            final(self)@ == (ContextView { timer: old(self)@.timer.ticked(now), ..old(self)@ }),
    {
        self.timer.tick(now);
    }

    /// Grants one fixed-step update if one is due; see
    /// [`TimeContext::check_update_time`].
    pub fn check_update_time(&mut self, fps: u32) -> (due: bool)
        ensures
            due == old(self)@.timer.update_due(fps),
            final(self)@ == (ContextView { timer: old(self)@.timer.stepped(fps), ..old(self)@ }),
    {
        self.timer.check_update_time(fps)
    }

    /// The font registry.
    pub fn fonts(&self) -> (fonts: &FontRegistry)
        ensures
            fonts@ == self@.fonts,
    {
        &self.fonts
    }

    /// Registers a font; see [`FontRegistry::register`]. Nothing but the
    /// registry changes.
    pub fn register_font(&mut self, font: FontMetrics) -> (outcome: Result<FontHandle, GameError>)
        ensures
            spec_register(old(self)@.fonts, font@, final(self)@.fonts, outcome),
            final(self)@ == (ContextView { fonts: final(self)@.fonts, ..old(self)@ }),
    {
        self.fonts.register(font)
    }

    /// The size of the screen, width first.
    pub fn screen_size(&self) -> (size: (u32, u32))
        ensures
            size == (self@.screen_width, self@.screen_height),
    {
        (self.screen_width, self.screen_height)
    }

    /// Records a new size of the screen. Nothing else changes.
    pub fn set_screen_size(&mut self, width: u32, height: u32)
        ensures
            final(self)@ == (ContextView {
                screen_width: width,
                screen_height: height,
                ..old(self)@
            }),
    {
        self.screen_width = width;
        self.screen_height = height;
    }

    /// The number of draw calls that wait for the backend.
    pub fn pending_draw_calls(&self) -> (n: usize)
        ensures
            n == self@.calls.len(),
    {
        self.calls.len()
    }

    /// Submits one draw call. Nothing but the list of draw calls changes.
    pub fn submit(&mut self, call: DrawCall)
        ensures
            final(self)@ == (ContextView { calls: old(self)@.calls.push(call@), ..old(self)@ }),
    {
        self.calls.push(call);
        assert(call_views(self.calls@) =~= call_views(old(self).calls@).push(call@));
    }

    /// Submits some draw calls, in their order. Nothing but the list of
    /// draw calls changes.
    pub fn submit_all(&mut self, calls: Vec<DrawCall>)
        ensures
            final(self)@ == (ContextView {
                calls: old(self)@.calls + call_views(calls@),
                ..old(self)@
            }),
    {
        let mut calls = calls;
        let ghost added = calls@;
        self.calls.append(&mut calls);
        assert(call_views(self.calls@) =~= call_views(old(self).calls@) + call_views(added));
    }

    /// Hands the waiting draw calls to the backend, oldest first, and leaves
    /// none behind. Nothing else changes.
    pub fn take_draw_calls(&mut self) -> (calls: Vec<DrawCall>)
        ensures
            call_views(calls@) == old(self)@.calls,
            final(self)@ == (ContextView { calls: Seq::empty(), ..old(self)@ }),
    {
        let mut calls: Vec<DrawCall> = Vec::new();
        core::mem::swap(&mut calls, &mut self.calls);
        assert(call_views(self.calls@) =~= Seq::empty());
        calls
    }
}

} // verus!
