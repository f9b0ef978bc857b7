//! The loop driver: it owns the context and the game state and runs the
//! poll, dispatch, update, draw cycle one tick at a time.
//!
//! The driver never waits for the platform. Whoever embeds it polls the
//! platform, hands each tick its clock reading and its pending events, and
//! stops calling once a tick says that the game has ended.

use vstd::prelude::*;
use crate::conf::{get_default_config, resolve_config, Conf};
use crate::context::{Context, ContextView};
use crate::error::GameError;
use crate::event::{spec_quit_observed, Callback, Event, Route};
use crate::state::{called_back, GameState};

verus! {

/// Whether the loop goes on after a tick.
#[derive(Debug, Clone, Copy, PartialEq, Eq, Structural)]
pub enum Flow {
    /// No event asked for the end; the loop goes on.
    Continue,
    /// An event asked for the end; the game has been told and the loop is
    /// over.
    Quit,
}

/// What the platform has to say at the start of one tick.
#[derive(Debug, Clone, PartialEq, Eq)]
pub struct Frame {
    /// The clock reading at the start of the tick, in nanoseconds.
    pub now: u64,
    /// The events that were pending, oldest first.
    pub events: Vec<Event>,
}

/// The configuration a game starts with: the one found at the configuration
/// resource if it is there and well-formed, the caller's default otherwise.
pub open spec fn spec_startup_config(
    found: Option<Result<Conf, GameError>>,
    default_config: Conf,
) -> Conf {
    match found {
        Some(Ok(conf)) => conf,
        _ => default_config,
    }
}

/// How a tick with these pending events ends, provided that `update` and
/// `draw` succeed.
pub open spec fn spec_flow(events: Seq<Event>) -> Flow {
    if spec_quit_observed(events) {
        Flow::Quit
    } else {
        Flow::Continue
    }
}

/// How a tick ends once `draw` has returned: with the failure of `draw`,
/// or else with the end of the game if an event asked for it.
pub open spec fn spec_conclude(quit: bool, drawn: Result<(), GameError>) -> Result<Flow, GameError> {
    match drawn {
        Ok(_) => if quit {
            Ok(Flow::Quit)
        } else {
            Ok(Flow::Continue)
        },
        Err(e) => Err(e),
    }
}

/// How a tick ends once `draw` has returned.
pub fn conclude(quit: bool, drawn: Result<(), GameError>) -> (outcome: Result<Flow, GameError>)
    ensures
        outcome == spec_conclude(quit, drawn),
{
    match drawn {
        Ok(_) => {
            if quit {
                Ok(Flow::Quit)
            } else {
                Ok(Flow::Continue)
            }
        },
        Err(e) => Err(e),
    }
}

/// Whether none of the first `n` frames holds an event that ends the game.
pub open spec fn no_quit_before(frames: Seq<Frame>, n: int) -> bool {
    forall|k: int| 0 <= k < n && k < frames.len() ==> !spec_quit_observed((#[trigger] frames[k]).events@)
}

/// How a run over these frames ends, provided that `update` and `draw`
/// succeed throughout: with the first frame that holds an event that ends
/// the game, or still going if there is no such frame.
pub open spec fn spec_run_flow(frames: Seq<Frame>) -> Flow {
    if no_quit_before(frames, frames.len() as int) {
        Flow::Continue
    } else {
        Flow::Quit
    }
}

/// Whether `outcome` and the state `after` are what putting `made` in
/// place of the state `before` gives: the made state in place, or else the
/// failure that made none and the state as it was.
pub open spec fn installs<S: GameState>(
    before: S,
    after: S,
    made: Result<S, GameError>,
    outcome: Result<(), GameError>,
) -> bool {
    match made {
        Ok(state) => outcome is Ok && after == state,
        Err(e) => outcome == Err::<(), GameError>(e) && after == before,
    }
}

/// The loop driver. It owns the configuration it was started with, the
/// context, and the game state, which can be replaced while the context
/// lives on.
#[derive(Debug)]
pub struct Game<S: GameState> {
    conf: Conf,
    state: S,
    context: Context,
}

impl<S: GameState> Game<S> {
    /// The configuration the game was started with.
    pub closed spec fn conf(&self) -> Conf {
        self.conf
    }

    /// The game state.
    pub closed spec fn state(&self) -> S {
        self.state
    }

    /// The context.
    pub closed spec fn context(&self) -> Context {
        self.context
    }

    /// Puts a driver together from its parts, or hands on the failure of
    /// the load that should have produced the state.
    pub fn assemble(conf: Conf, context: Context, loaded: Result<S, GameError>) -> (game: Result<
        Game<S>,
        GameError,
    >)
        ensures
            match loaded {
                Ok(state) => game matches Ok(g) && g.conf() == conf && g.context() == context
                    && g.state() == state,
                Err(e) => game matches Err(err) && err == e,
            },
    {
        match loaded {
            Ok(state) => Ok(Game { conf, state, context }),
            Err(e) => Err(e),
        }
    }

    /// Starts a game. `found` is what the embedding program found at the
    /// configuration resource: `None` if it is not there, else what reading
    /// and parsing it gave. The game runs with the configuration found, or
    /// with `default_config` where none was found or it was malformed. The
    /// context is created from that configuration and the state is loaded
    /// with both; a failed load is the only way this fails.
    ///
    /// In full: `load` is called once, with a context fresh from the
    /// configuration to run with and with that configuration. If it makes
    /// a state, the result is the driver of that state, that configuration
    /// and the context as `load` left it; if it fails, the result is its
    /// failure.
    pub fn new(default_config: Conf, found: Option<Result<Conf, GameError>>) -> (game: Result<
        Game<S>,
        GameError,
    >)
        ensures
            game matches Ok(g) ==> g.conf() == spec_startup_config(found, default_config),
            exists|ctx: &mut Context, made: Result<S, GameError>|
                (*ctx)@ == Context::spec_from_conf(spec_startup_config(found, default_config))
                    && call_ensures(
                    S::load,
                    (ctx, &spec_startup_config(found, default_config)),
                    made,
                ) && match made {
                    Ok(state) => game matches Ok(g) && g.state() == state && g.context()
                        == *final(ctx),
                    Err(e) => game == Err::<Game<S>, GameError>(e),
                },
    {
        let config = resolve_config(get_default_config(found), default_config);
        let mut context = Context::from_conf(&config);
        let loaded = S::load(&mut context, &config);
        Game::assemble(config, context, loaded)
    }

    /// Puts a freshly made state in place of the current one, or keeps the
    /// current one and hands on the failure that made none. The
    /// configuration and the context stay as they are.
    pub fn install(&mut self, made: Result<S, GameError>) -> (outcome: Result<(), GameError>)
        ensures
            final(self).conf() == old(self).conf(),
            final(self).context() == old(self).context(),
            installs(old(self).state(), final(self).state(), made, outcome),
    {
        match made {
            Ok(state) => {
                self.state = state;
                Ok(())
            },
            Err(e) => Err(e),
        }
    }

    /// Loads the state afresh, with the context as it is now and the
    /// configuration the game was started with. A failed load leaves the
    /// current state in place and the context alive.
    ///
    /// In full: `load` is called once, with the context and with the
    /// configuration of the game; the context ends as `load` left it, and
    /// what `load` came back with is installed.
    pub fn reload_state(&mut self) -> (outcome: Result<(), GameError>)
        ensures
            final(self).conf() == old(self).conf(),
            exists|ctx: &mut Context, made: Result<S, GameError>|
                *ctx == old(self).context() && *final(ctx) == final(self).context()
                    && call_ensures(S::load, (ctx, &old(self).conf()), made) && installs(
                    old(self).state(),
                    final(self).state(),
                    made,
                    outcome,
                ),
    {
        let made = S::load(&mut self.context, &self.conf);
        self.install(made)
    }

    /// Replaces the state with what `factory` makes of the context as it is
    /// now and the configuration the game was started with. A failure of
    /// the factory leaves the current state in place.
    ///
    /// In full: the factory is called once, with the context and with the
    /// configuration of the game; the context ends as the factory left it,
    /// and what the factory came back with is installed.
    pub fn replace_state_with<F>(&mut self, factory: &F) -> (outcome: Result<(), GameError>) where
        F: Fn(&mut Context, &Conf) -> Result<S, GameError>,

        requires
            forall|ctx: &mut Context, conf: &Conf| call_requires(factory, (ctx, conf)),
        ensures
            final(self).conf() == old(self).conf(),
            exists|ctx: &mut Context, made: Result<S, GameError>|
                *ctx == old(self).context() && *final(ctx) == final(self).context()
                    && call_ensures(factory, (ctx, &old(self).conf()), made) && installs(
                    old(self).state(),
                    final(self).state(),
                    made,
                    outcome,
                ),
    {
        let made = factory(&mut self.context, &self.conf);
        self.install(made)
    }

    /// Replaces the state. The configuration and the context stay as they
    /// are.
    pub fn replace_state(&mut self, state: S)
        ensures
            final(self).state() == state,
            final(self).conf() == old(self).conf(),
            final(self).context() == old(self).context(),
    {
        self.state = state;
    }

    /// The configuration the game was started with.
    pub fn config(&self) -> (conf: &Conf)
        ensures
            *conf == self.conf(),
    {
        &self.conf
    }

    /// The game state.
    pub fn state_ref(&self) -> (state: &S)
        ensures
            *state == self.state(),
    {
        &self.state
    }

    /// The context.
    pub fn context_ref(&self) -> (ctx: &Context)
        ensures
            *ctx == self.context(),
    {
        &self.context
    }

    /// The context, to change it between ticks. The configuration and the
    /// state stay as they are.
    pub fn context_mut(&mut self) -> (ctx: &mut Context)
        ensures
            *ctx == old(self).context(),
            final(self).context() == *final(ctx),
            final(self).conf() == old(self).conf(),
            final(self).state() == old(self).state(),
    {
        &mut self.context
    }

    /// Hands one event to where it belongs and says whether it ends the
    /// game. An event that ends the game, or one of an unknown kind, reaches
    /// no callback and changes nothing. No event changes the configuration
    /// or the context.
    ///
    /// In full: an event that is delivered reaches the one callback of its
    /// route, once, and the state ends as that callback left it.
    pub fn dispatch(&mut self, event: Event) -> (quit: bool)
        ensures
            quit == event.spec_requests_quit(),
            final(self).conf() == old(self).conf(),
            final(self).context() == old(self).context(),
            match event.spec_route() {
                Route::Deliver(callback) => exists|state: &mut S|
                    *state == old(self).state() && *final(state) == final(self).state()
                        && called_back(state, callback, event),
                _ => final(self).state() == old(self).state(),
            },
    {
        match event.route() {
            Route::Quit => true,
            Route::Ignore => false,
            Route::Deliver(callback) => {
                match callback {
                    Callback::MouseButtonDown => self.state.mouse_button_down_event(event),
                    Callback::MouseButtonUp => self.state.mouse_button_up_event(event),
                    Callback::MouseMotion => self.state.mouse_motion_event(event),
                    Callback::MouseWheel => self.state.mouse_wheel_event(event),
                    Callback::KeyDown => self.state.key_down_event(event),
                    Callback::KeyUp => self.state.key_up_event(event),
                    Callback::TextInput => self.state.text_input_event(event),
                    Callback::ControllerButtonDown => self.state.controller_button_down_event(
                        event,
                    ),
                    Callback::ControllerButtonUp => self.state.controller_button_up_event(event),
                    Callback::ControllerAxis => self.state.controller_axis_event(event),
                    Callback::Focus(gained) => self.state.focus(gained),
                    Callback::Resize => self.state.resize_event(event),
                }
                false
            },
        }
    }

    /// Hands every pending event of a tick to where it belongs, oldest
    /// first, and says whether any of them ends the game. An event that
    /// ends the game does not stop the others from being handed on.
    ///
    /// In full: the driver goes through one state for each event: the
    /// first is the state as it was, each next one is what `dispatch` made
    /// of the one before when given the next event, and the last is the
    /// state as it is left.
    pub fn drain(&mut self, events: &Vec<Event>) -> (quit: bool)
        ensures
            quit == spec_quit_observed(events@),
            final(self).conf() == old(self).conf(),
            final(self).context() == old(self).context(),
            exists|steps: Seq<Game<S>>|
                steps.len() == events@.len() + 1 && steps[0] == *old(self) && steps.last()
                    == *final(self) && forall|i: int|
                    0 <= i < events@.len() ==> exists|game: &mut Game<S>|
                        *game == #[trigger] steps[i] && *final(game) == steps[i + 1]
                            && call_ensures(
                            Game::<S>::dispatch,
                            (game, events@[i]),
                            events@[i].spec_requests_quit(),
                        ),
    {
        let mut quit = false;
        let mut i: usize = 0;
        let ghost mut steps: Seq<Game<S>> = seq![*self];
        while i < events.len()
            invariant
                i <= events.len(),
                quit == spec_quit_observed(events@.take(i as int)),
                self.conf() == old(self).conf(),
                self.context() == old(self).context(),
                steps.len() == i + 1,
                steps[0] == *old(self),
                steps.last() == *self,
                forall|k: int|
                    0 <= k < i ==> exists|game: &mut Game<S>|
                        *game == #[trigger] steps[k] && *final(game) == steps[k + 1]
                            && call_ensures(
                            Game::<S>::dispatch,
                            (game, events@[k]),
                            events@[k].spec_requests_quit(),
                        ),
            decreases events.len() - i,
        {
            let ghost before = steps;
            let ended = self.dispatch(events[i]);
            proof {
                steps = steps.push(*self);
                assert(exists|game: &mut Game<S>|
                    *game == steps[i as int] && *final(game) == steps[i as int + 1]
                        && call_ensures(
                        Game::<S>::dispatch,
                        (game, events@[i as int]),
                        events@[i as int].spec_requests_quit(),
                    ));
                assert forall|k: int| 0 <= k < i + 1 implies exists|game: &mut Game<S>|
                    *game == #[trigger] steps[k] && *final(game) == steps[k + 1] && call_ensures(
                        Game::<S>::dispatch,
                        (game, events@[k]),
                        events@[k].spec_requests_quit(),
                    ) by {
                    if k < i {
                        assert(steps[k] == before[k] && steps[k + 1] == before[k + 1]);
                    }
                }
            }
            proof {
                let before = events@.take(i as int);
                let after = events@.take(i as int + 1);
                if spec_quit_observed(before) {
                    let k = choose|k: int|
                        0 <= k < before.len() && (#[trigger] before[k]).spec_requests_quit();
                    assert(after[k].spec_requests_quit());
                }
                if ended {
                    assert(after[i as int].spec_requests_quit());
                }
                if spec_quit_observed(after) {
                    let k = choose|k: int|
                        0 <= k < after.len() && (#[trigger] after[k]).spec_requests_quit();
                    if k < i {
                        assert(before[k].spec_requests_quit());
                    }
                }
            }
            if ended {
                quit = true;
            }
            i += 1;
        }
        assert(events@.take(events.len() as int) == events@);
        quit
    }

    /// Runs one tick: advances the timer to clock reading `now`, hands every
    /// pending event to its callback, then calls `update` with the time
    /// since the last tick and then `draw`. If an event asked for the end,
    /// the tick is still completed; after its `draw` the game is told
    /// through `quit` and the result is `Flow::Quit`. A failure of `update`
    /// or `draw` ends the tick at once and is handed on.
    ///
    /// In full: the timer is ticked and nothing else in the context
    /// changes; `drain` is given the events; `update` is given the state
    /// and the context as `drain` left them and the delta of the ticked
    /// timer. If `update` fails, its failure is the result, and the state
    /// and the context stay as `update` left them. Otherwise `draw` is
    /// given the state and the context as `update` left them, and the
    /// result is concluded from what `draw` came back with; the context
    /// stays as `draw` left it, and so does the state, unless the game
    /// ends: then `quit` is given the state and has the last word on it.
    pub fn tick(&mut self, now: u64, events: &Vec<Event>) -> (outcome: Result<Flow, GameError>)
        ensures
            final(self).conf() == old(self).conf(),
            outcome matches Ok(flow) ==> flow == spec_flow(events@),
            exists|drained: &mut Game<S>, state: &mut S, ctx: &mut Context, updated: Result<
                (),
                GameError,
            >|
                drained.conf() == old(self).conf() && drained.state() == old(self).state()
                    && drained.context()@ == (ContextView {
                    timer: old(self).context()@.timer.ticked(now),
                    ..old(self).context()@
                }) && #[trigger] call_ensures(
                    Game::<S>::drain,
                    (drained, events),
                    spec_quit_observed(events@),
                ) && *state == final(drained).state() && *ctx == final(drained).context()
                    && #[trigger] call_ensures(
                    S::update,
                    (state, ctx, old(self).context()@.timer.ticked(now).delta),
                    updated,
                ) && match updated {
                    Err(e) => outcome == Err::<Flow, GameError>(e) && final(self).state()
                        == *final(state) && final(self).context() == *final(ctx),
                    Ok(_) => exists|state2: &mut S, ctx2: &mut Context, drawn: Result<
                        (),
                        GameError,
                    >|
                        *state2 == *final(state) && *ctx2 == *final(ctx) && #[trigger] call_ensures(
                            S::draw,
                            (state2, ctx2),
                            drawn,
                        ) && outcome == spec_conclude(spec_quit_observed(events@), drawn)
                            && final(self).context() == *final(ctx2) && if outcome == Ok::<
                            Flow,
                            GameError,
                        >(Flow::Quit) {
                            exists|state3: &mut S|
                                *state3 == *final(state2) && *final(state3) == final(self).state()
                                    && #[trigger] call_ensures(S::quit, (state3,), ())
                        } else {
                            final(self).state() == *final(state2)
                        },
                },
    {
        self.context.tick(now);
        let ghost ticked = *self;
        let quit = self.drain(events);
        let ghost drained = *self;
        assert(exists|game: &mut Game<S>|
            *game == ticked && *final(game) == drained && #[trigger] call_ensures(
                Game::<S>::drain,
                (game, events),
                spec_quit_observed(events@),
            ));
        let dt = self.context.timer().get_delta();
        assert(dt == old(self).context()@.timer.ticked(now).delta);
        let updated = self.state.update(&mut self.context, dt);
        let ghost moved = *self;
        assert(exists|state: &mut S, ctx: &mut Context|
            *state == drained.state() && *ctx == drained.context() && *final(state)
                == moved.state() && *final(ctx) == moved.context() && #[trigger] call_ensures(
                S::update,
                (state, ctx, dt),
                updated,
            ));
        match updated {
            Ok(()) => {},
            Err(e) => {
                return Err(e);
            },
        }
        let drawn = self.state.draw(&mut self.context);
        let outcome = conclude(quit, drawn);
        match outcome {
            Ok(Flow::Quit) => {
                self.state.quit();
            },
            _ => {},
        }
        outcome
    }

    /// Runs the loop over recorded frames, one tick each, oldest first,
    /// until a tick ends the game or fails. Frames after that tick are not
    /// looked at. `Flow::Continue` says that the frames ran out while the
    /// game was still going; that is also what a run over no frames says,
    /// which changes nothing.
    ///
    /// In full: the driver goes through one tick after the other, each
    /// given the next frame and the driver as the tick before left it.
    /// Every tick but the last says `Flow::Continue`; the result is what
    /// the last tick says, and unless that is something else, the last
    /// tick is that of the last frame.
    pub fn run(&mut self, frames: &Vec<Frame>) -> (outcome: Result<Flow, GameError>)
        ensures
            final(self).conf() == old(self).conf(),
            outcome matches Ok(flow) ==> flow == spec_run_flow(frames@),
            exists|steps: Seq<Game<S>>|
                1 <= steps.len() <= frames@.len() + 1 && steps[0] == *old(self) && steps.last()
                    == *final(self) && (forall|i: int|
                    0 <= i < steps.len() - 1 ==> exists|game: &mut Game<S>|
                        *game == #[trigger] steps[i] && *final(game) == steps[i + 1]
                            && call_ensures(
                            Game::<S>::tick,
                            (game, frames@[i].now, &frames@[i].events),
                            if i < steps.len() - 2 {
                                Ok::<Flow, GameError>(Flow::Continue)
                            } else {
                                outcome
                            },
                        )) && (steps.len() == 1 ==> outcome == Ok::<Flow, GameError>(
                    Flow::Continue,
                )) && (outcome == Ok::<Flow, GameError>(Flow::Continue) ==> steps.len()
                    == frames@.len() + 1),
    {
        let mut i: usize = 0;
        let ghost mut steps: Seq<Game<S>> = seq![*self];
        while i < frames.len()
            invariant
                i <= frames.len(),
                self.conf() == old(self).conf(),
                no_quit_before(frames@, i as int),
                steps.len() == i + 1,
                steps[0] == *old(self),
                steps.last() == *self,
                forall|k: int|
                    0 <= k < i ==> exists|game: &mut Game<S>|
                        *game == #[trigger] steps[k] && *final(game) == steps[k + 1]
                            && call_ensures(
                            Game::<S>::tick,
                            (game, frames@[k].now, &frames@[k].events),
                            Ok::<Flow, GameError>(Flow::Continue),
                        ),
            decreases frames.len() - i,
        {
            let ghost before = steps;
            let ticked = self.tick(frames[i].now, &frames[i].events);
            proof {
                steps = steps.push(*self);
                assert(exists|game: &mut Game<S>|
                    *game == steps[i as int] && *final(game) == steps[i as int + 1]
                        && call_ensures(
                        Game::<S>::tick,
                        (game, frames@[i as int].now, &frames@[i as int].events),
                        ticked,
                    ));
                assert forall|k: int| 0 <= k < steps.len() - 1 implies exists|game: &mut Game<S>|
                    *game == #[trigger] steps[k] && *final(game) == steps[k + 1] && call_ensures(
                        Game::<S>::tick,
                        (game, frames@[k].now, &frames@[k].events),
                        if k < steps.len() - 2 {
                            Ok::<Flow, GameError>(Flow::Continue)
                        } else {
                            ticked
                        },
                    ) by {
                    if k < i {
                        assert(steps[k] == before[k] && steps[k + 1] == before[k + 1]);
                    }
                }
            }
            match ticked {
                Ok(Flow::Continue) => {},
                Ok(Flow::Quit) => {
                    assert(spec_quit_observed(frames@[i as int].events@));
                    return Ok(Flow::Quit);
                },
                Err(e) => {
                    return Err(e);
                },
            }
            i += 1;
        }
        proof {
            assert forall|k: int| 0 <= k < steps.len() - 1 implies exists|game: &mut Game<S>|
                *game == #[trigger] steps[k] && *final(game) == steps[k + 1] && call_ensures(
                    Game::<S>::tick,
                    (game, frames@[k].now, &frames@[k].events),
                    if k < steps.len() - 2 {
                        Ok::<Flow, GameError>(Flow::Continue)
                    } else {
                        Ok::<Flow, GameError>(Flow::Continue)
                    },
                ) by {}
        }
        Ok(Flow::Continue)
    }
}

} // verus!
