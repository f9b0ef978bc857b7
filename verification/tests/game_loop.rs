use gamekit::conf::{conf_from_raw, get_default_config, resolve_config, Backend, Conf, RawConf};
use gamekit::context::Context;
use gamekit::error::GameError;
use gamekit::event::{Event, Keycode, Route, CANCEL_KEY};
use gamekit::game::{Flow, Frame, Game};
use gamekit::state::GameState;

/// A game state that writes down everything the driver does to it.
#[derive(Debug, Clone, PartialEq, Eq)]
struct Recorder {
    title: String,
    log: Vec<String>,
    deltas: Vec<u64>,
    fail_update_at: Option<usize>,
    fail_draw_at: Option<usize>,
    updates: usize,
    draws: usize,
}

impl Recorder {
    fn titled(title: &str) -> Recorder {
        Recorder {
            title: title.to_string(),
            log: Vec::new(),
            deltas: Vec::new(),
            fail_update_at: None,
            fail_draw_at: None,
            updates: 0,
            draws: 0,
        }
    }
}

impl GameState for Recorder {
    fn load(_ctx: &mut Context, conf: &Conf) -> Result<Recorder, GameError> {
        if conf.window_title == "broken" {
            return Err(GameError::LoadError("cannot load".to_string()));
        }
        Ok(Recorder::titled(&conf.window_title))
    }

    fn update(&mut self, _ctx: &mut Context, dt: u64) -> Result<(), GameError> {
        self.updates += 1;
        self.deltas.push(dt);
        self.log.push("update".to_string());
        if self.fail_update_at == Some(self.updates) {
            return Err(GameError::UpdateError("update failed".to_string()));
        }
        Ok(())
    }

    fn draw(&mut self, _ctx: &mut Context) -> Result<(), GameError> {
        self.draws += 1;
        self.log.push("draw".to_string());
        if self.fail_draw_at == Some(self.draws) {
            return Err(GameError::DrawError("draw failed".to_string()));
        }
        Ok(())
    }

    fn mouse_button_down_event(&mut self, _evt: Event) {
        self.log.push("mouse_button_down".to_string());
    }

    fn mouse_motion_event(&mut self, _evt: Event) {
        self.log.push("mouse_motion".to_string());
    }

    fn key_down_event(&mut self, evt: Event) {
        self.log.push(format!("key_down {:?}", evt));
    }

    fn key_up_event(&mut self, _evt: Event) {
        self.log.push("key_up".to_string());
    }

    fn focus(&mut self, gained: bool) {
        self.log.push(format!("focus {}", gained));
    }

    fn quit(&mut self) {
        self.log.push("quit".to_string());
    }
}

fn key_down(code: i32) -> Event {
    Event::KeyDown { keycode: Some(Keycode { code }), modifiers: 0, repeat: false }
}

fn started(title: &str) -> Game<Recorder> {
    Game::<Recorder>::new(Conf::new().with_title(title), None).unwrap()
}

#[test]
fn missing_config_falls_back_to_default() {
    let default_config = Conf::new().with_title("mine").with_dimensions(320, 200).with_resizable(true);
    let game = Game::<Recorder>::new(default_config.clone(), None).unwrap();
    assert_eq!(game.config(), &default_config);
    assert_eq!(game.state_ref().title, "mine");
    assert_eq!(game.context_ref().screen_size(), (320, 200));
}

#[test]
fn malformed_config_falls_back_to_default() {
    let default_config = Conf::new().with_title("mine");
    let found = Some(Err(GameError::ConfigError("bad toml".to_string())));
    let game = Game::<Recorder>::new(default_config.clone(), found).unwrap();
    assert_eq!(game.config(), &default_config);
}

#[test]
fn found_config_wins_over_default() {
    let found = Conf::new().with_title("from file").with_dimensions(1024, 768);
    let game = Game::<Recorder>::new(Conf::new().with_title("mine"), Some(Ok(found.clone()))).unwrap();
    assert_eq!(game.config(), &found);
    assert_eq!(game.state_ref().title, "from file");
    assert_eq!(game.context_ref().screen_size(), (1024, 768));
}

#[test]
fn failed_load_fails_construction() {
    let outcome = Game::<Recorder>::new(Conf::new().with_title("broken"), None);
    assert_eq!(outcome.err(), Some(GameError::LoadError("cannot load".to_string())));
}

#[test]
fn missing_resource_is_a_config_error() {
    assert_eq!(
        get_default_config(None),
        Err(GameError::ConfigError("Config file not found".to_string()))
    );
    let conf = Conf::new().with_title("x");
    assert_eq!(get_default_config(Some(Ok(conf.clone()))), Ok(conf));
    let broken = GameError::ConfigError("bad".to_string());
    assert_eq!(get_default_config(Some(Err(broken.clone()))), Err(broken));
}

#[test]
fn resolve_config_prefers_loaded() {
    let a = Conf::new().with_title("a");
    let b = Conf::new().with_title("b");
    assert_eq!(resolve_config(Ok(a.clone()), b.clone()), a);
    assert_eq!(resolve_config(Err(GameError::ConfigError("x".to_string())), b.clone()), b);
}

#[test]
fn default_conf_values() {
    let conf = Conf::default();
    assert_eq!(conf.window_title, "An easy, good game");
    assert_eq!((conf.window_width, conf.window_height), (800, 600));
    assert!(!conf.resizable);
    assert_eq!(conf, Conf::new());
}

#[test]
fn cancel_key_ends_the_loop_without_reaching_the_callback() {
    let mut game = started("g");
    let frames = vec![
        Frame { now: 10, events: vec![key_down(97)] },
        Frame { now: 25, events: vec![key_down(CANCEL_KEY), Event::MouseMotion { x: 1, y: 2, dx: 0, dy: 0 }] },
        Frame { now: 40, events: vec![key_down(98)] },
    ];
    assert_eq!(game.run(&frames), Ok(Flow::Quit));
    let state = game.state_ref();
    assert_eq!(
        state.log,
        vec![
            format!("key_down {:?}", key_down(97)),
            "update".to_string(),
            "draw".to_string(),
            "mouse_motion".to_string(),
            "update".to_string(),
            "draw".to_string(),
            "quit".to_string(),
        ]
    );
    assert_eq!(state.updates, 2);
    assert_eq!(state.draws, 2);
    assert_eq!(state.deltas, vec![10, 15]);
}

#[test]
fn platform_quit_ends_the_loop_after_the_tick() {
    let mut game = started("g");
    assert_eq!(game.tick(5, &vec![Event::Quit, Event::FocusGained]), Ok(Flow::Quit));
    assert_eq!(game.state_ref().log, vec!["focus true", "update", "draw", "quit"]);
}

#[test]
fn run_without_quit_keeps_going() {
    let mut game = started("g");
    let frames = vec![
        Frame { now: 1, events: vec![] },
        Frame { now: 2, events: vec![Event::Other, Event::FocusLost] },
    ];
    assert_eq!(game.run(&frames), Ok(Flow::Continue));
    assert_eq!(game.state_ref().log, vec!["update", "draw", "focus false", "update", "draw"]);
    assert_eq!(game.run(&Vec::new()), Ok(Flow::Continue));
}

#[test]
fn update_failure_ends_the_run() {
    let mut game = started("g");
    let mut state = Recorder::titled("g");
    state.fail_update_at = Some(2);
    game.replace_state(state);
    let frames = vec![
        Frame { now: 1, events: vec![] },
        Frame { now: 2, events: vec![Event::Quit] },
        Frame { now: 3, events: vec![] },
    ];
    assert_eq!(game.run(&frames), Err(GameError::UpdateError("update failed".to_string())));
    assert_eq!(game.state_ref().log, vec!["update", "draw", "update"]);
}

#[test]
fn draw_failure_ends_the_tick() {
    let mut game = started("g");
    let mut state = Recorder::titled("g");
    state.fail_draw_at = Some(1);
    game.replace_state(state);
    assert_eq!(
        game.tick(1, &vec![Event::Quit]),
        Err(GameError::DrawError("draw failed".to_string()))
    );
    assert_eq!(game.state_ref().log, vec!["update", "draw"]);
}

#[test]
fn reload_uses_the_starting_config() {
    let mut game = started("first");
    game.replace_state(Recorder::titled("replaced"));
    assert_eq!(game.state_ref().title, "replaced");
    assert_eq!(game.reload_state(), Ok(()));
    assert_eq!(game.state_ref().title, "first");
    assert!(game.state_ref().log.is_empty());
}

#[test]
fn replace_state_with_factory() {
    let mut game = started("first");
    let made = game.replace_state_with(&|_ctx: &mut Context, conf: &Conf| {
        Ok(Recorder::titled(&format!("{}!", conf.window_title)))
    });
    assert_eq!(made, Ok(()));
    assert_eq!(game.state_ref().title, "first!");
    let failed = game.replace_state_with(&|_ctx: &mut Context, _conf: &Conf| {
        Err(GameError::LoadError("no".to_string()))
    });
    assert_eq!(failed, Err(GameError::LoadError("no".to_string())));
    assert_eq!(game.state_ref().title, "first!");
}

#[test]
fn dispatch_routes_each_event_once() {
    let mut game = started("g");
    assert!(!game.dispatch(Event::MouseButtonDown { button: 1, x: 3, y: 4 }));
    assert!(!game.dispatch(Event::KeyUp { keycode: Some(Keycode { code: CANCEL_KEY }), modifiers: 0 }));
    assert!(!game.dispatch(Event::Other));
    assert!(game.dispatch(key_down(CANCEL_KEY)));
    assert!(game.dispatch(Event::Quit));
    assert!(!game.dispatch(Event::KeyDown { keycode: None, modifiers: 0, repeat: true }));
    assert_eq!(
        game.state_ref().log,
        vec![
            "mouse_button_down".to_string(),
            "key_up".to_string(),
            format!("key_down {:?}", Event::KeyDown { keycode: None, modifiers: 0, repeat: true }),
        ]
    );
}

#[test]
fn routes() {
    assert_eq!(Event::Quit.route(), Route::Quit);
    assert_eq!(key_down(27).route(), Route::Quit);
    assert_eq!(Event::Other.route(), Route::Ignore);
    assert!(key_down(27).requests_quit());
    assert!(!key_down(28).requests_quit());
    assert!(Keycode { code: 27 }.is_cancel());
}

#[test]
fn raw_fields_make_a_conf() {
    let empty = RawConf {
        window_title: None,
        window_width: None,
        window_height: None,
        resizable: None,
        backend: None,
        backend_major: None,
        backend_minor: None,
    };
    assert_eq!(conf_from_raw(empty.clone()), Ok(Conf::new()));
    let full = RawConf {
        window_title: Some("t".to_string()),
        window_width: Some(0),
        window_height: Some(u32::MAX as i64),
        resizable: Some(true),
        backend: Some("opengles".to_string()),
        backend_major: Some(3),
        backend_minor: None,
    };
    assert_eq!(
        conf_from_raw(full),
        Ok(Conf {
            window_title: "t".to_string(),
            window_width: 0,
            window_height: u32::MAX,
            resizable: true,
            backend: Backend::OpenGlEs { major: 3, minor: 0 },
        })
    );
    let gl = RawConf {
        backend: Some("opengl".to_string()),
        backend_major: Some(255),
        backend_minor: Some(2),
        ..empty.clone()
    };
    assert_eq!(conf_from_raw(gl).map(|c| c.backend), Ok(Backend::OpenGl { major: 255, minor: 2 }));
    let plain = RawConf { backend: Some("default".to_string()), backend_major: Some(-1), ..empty.clone() };
    assert_eq!(conf_from_raw(plain).map(|c| c.backend), Ok(Backend::Default));
    let malformed = vec![
        RawConf { window_width: Some(-1), ..empty.clone() },
        RawConf { window_height: Some(u32::MAX as i64 + 1), ..empty.clone() },
        RawConf { backend: Some("vulkan".to_string()), ..empty.clone() },
        RawConf { backend: Some("opengl".to_string()), backend_major: Some(256), ..empty.clone() },
        RawConf { backend: Some("opengles".to_string()), backend_minor: Some(-1), ..empty.clone() },
    ];
    for raw in malformed {
        assert!(matches!(conf_from_raw(raw), Err(GameError::ConfigError(_))));
    }
}

#[test]
fn malformed_fields_fall_back_to_the_default() {
    let raw = RawConf {
        window_title: Some("from file".to_string()),
        window_width: Some(-5),
        window_height: None,
        resizable: None,
        backend: None,
        backend_major: None,
        backend_minor: None,
    };
    let default_config = Conf::new().with_title("mine");
    let game = Game::<Recorder>::new(default_config.clone(), Some(conf_from_raw(raw))).unwrap();
    assert_eq!(game.config(), &default_config);
}

#[test]
fn context_can_change_between_ticks() {
    let mut game = started("g");
    game.context_mut().set_screen_size(1, 2);
    assert_eq!(game.context_ref().screen_size(), (1, 2));
    assert_eq!(game.tick(7, &Vec::new()), Ok(Flow::Continue));
    assert_eq!(game.context_ref().timer().get_ticks(), 1);
    assert_eq!(game.context_ref().timer().get_delta(), 7);
    assert_eq!(game.drain(&vec![Event::Other, Event::FocusGained]), false);
    assert_eq!(game.drain(&vec![Event::FocusLost, Event::Quit, Event::FocusGained]), true);
    assert_eq!(
        game.state_ref().log,
        vec!["update", "draw", "focus true", "focus false", "focus true"]
    );
    assert_eq!(Game::<Recorder>::assemble(Conf::new(), Context::from_conf(&Conf::new()), Err(GameError::LoadError("x".to_string()))).err(), Some(GameError::LoadError("x".to_string())));
    assert_eq!(game.install(Err(GameError::LoadError("y".to_string()))), Err(GameError::LoadError("y".to_string())));
    assert_eq!(game.install(Ok(Recorder::titled("z"))), Ok(()));
    assert_eq!(game.state_ref().title, "z");
}
