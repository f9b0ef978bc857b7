//! The configuration of a game: what the window looks like and which
//! graphics backend to ask for.
//!
//! The library never reads a file. The embedding program looks for the
//! configuration resource, parses it if it is there, and hands over what it
//! found; the rules for a missing or broken resource live here.

use vstd::prelude::*;
use crate::error::GameError;

verus! {

/// A hint as to which graphics backend the platform layer should create.
#[derive(Debug, Clone, Copy, PartialEq, Eq, Structural)]
pub enum Backend {
    /// Whatever the platform prefers.
    Default,
    /// Desktop OpenGL of at least this version.
    OpenGl { major: u8, minor: u8 },
    /// OpenGL ES of at least this version.
    OpenGlEs { major: u8, minor: u8 },
}

/// The settings a game starts with.
#[derive(Debug, Clone, PartialEq, Eq)]
pub struct Conf {
    pub window_title: String,
    pub window_width: u32,
    pub window_height: u32,
    pub resizable: bool,
    pub backend: Backend,
}

/// The mathematical value of a [`Conf`].
pub ghost struct ConfView {
    pub window_title: Seq<char>,
    pub window_width: u32,
    pub window_height: u32,
    pub resizable: bool,
    pub backend: Backend,
}

impl View for Conf {
    type V = ConfView;

    open spec fn view(&self) -> ConfView {
        ConfView {
            window_title: self.window_title@,
            window_width: self.window_width,
            window_height: self.window_height,
            resizable: self.resizable,
            backend: self.backend,
        }
    }
}

/// The settings of a game that configures nothing.
pub open spec fn default_conf() -> ConfView {
    ConfView {
        window_title: "An easy, good game"@,
        window_width: 800,
        window_height: 600,
        resizable: false,
        backend: Backend::Default,
    }
}

impl Conf {
    /// A configuration with the default settings.
    pub fn new() -> (conf: Conf)
        ensures
            conf@ == default_conf(),
    {
        Conf {
            window_title: "An easy, good game".to_owned(),
            window_width: 800,
            window_height: 600,
            resizable: false,
            backend: Backend::Default,
        }
    }

    /// The same configuration with another window title.
    pub fn with_title(self, title: &str) -> (conf: Conf)
        ensures
            conf@ == (ConfView { window_title: title@, ..self@ }),
    {
        Conf {
            window_title: title.to_owned(),
            window_width: self.window_width,
            window_height: self.window_height,
            resizable: self.resizable,
            backend: self.backend,
        }
    }

    /// The same configuration with other window dimensions.
    pub fn with_dimensions(self, width: u32, height: u32) -> (conf: Conf)
        ensures
            conf@ == (ConfView { window_width: width, window_height: height, ..self@ }),
    {
        Conf {
            window_title: self.window_title,
            window_width: width,
            window_height: height,
            resizable: self.resizable,
            backend: self.backend,
        }
    }

    /// The same configuration, resizable or not.
    pub fn with_resizable(self, resizable: bool) -> (conf: Conf)
        ensures
            conf@ == (ConfView { resizable: resizable, ..self@ }),
    {
        Conf {
            window_title: self.window_title,
            window_width: self.window_width,
            window_height: self.window_height,
            resizable,
            backend: self.backend,
        }
    }

    /// The same configuration with another backend hint.
    pub fn with_backend(self, backend: Backend) -> (conf: Conf)
        ensures
            conf@ == (ConfView { backend: backend, ..self@ }),
    {
        Conf {
            window_title: self.window_title,
            window_width: self.window_width,
            window_height: self.window_height,
            resizable: self.resizable,
            backend,
        }
    }
}

impl Default for Conf {
    fn default() -> (conf: Conf)
        ensures
            conf@ == default_conf(),
    {
        Conf::new()
    }
}

/// The fields of a configuration resource as they were read, before
/// anything is made of them. A field that the resource does not hold is
/// `None`.
#[derive(Debug, Clone, PartialEq, Eq)]
pub struct RawConf {
    pub window_title: Option<String>,
    pub window_width: Option<i64>,
    pub window_height: Option<i64>,
    pub resizable: Option<bool>,
    /// The name of the backend: `default`, `opengl` or `opengles`.
    pub backend: Option<String>,
    pub backend_major: Option<i64>,
    pub backend_minor: Option<i64>,
}

/// A window dimension as read: the fallback if the field is missing, the
/// number if it fits a `u32`, and nothing if it does not.
pub open spec fn spec_dimension(raw: Option<i64>, fallback: u32) -> Option<u32> {
    match raw {
        None => Some(fallback),
        Some(n) => if 0 <= n <= u32::MAX {
            Some(n as u32)
        } else {
            None
        },
    }
}

/// One part of a backend version as read: zero if the field is missing,
/// the number if it fits a `u8`, and nothing if it does not.
pub open spec fn spec_version_part(raw: Option<i64>) -> Option<u8> {
    match raw {
        None => Some(0u8),
        Some(n) => if 0 <= n <= u8::MAX {
            Some(n as u8)
        } else {
            None
        },
    }
}

/// The backend hint as read: the default backend if no name is given, the
/// named backend with its version otherwise, and nothing for a name that
/// is not known or a version that does not fit.
pub open spec fn spec_backend(name: Option<String>, major: Option<i64>, minor: Option<i64>) -> Option<
    Backend,
> {
    match name {
        None => Some(Backend::Default),
        Some(name) => if name@ == "default"@ {
            Some(Backend::Default)
        } else if name@ == "opengl"@ {
            match (spec_version_part(major), spec_version_part(minor)) {
                (Some(major), Some(minor)) => Some(Backend::OpenGl { major, minor }),
                _ => None,
            }
        } else if name@ == "opengles"@ {
            match (spec_version_part(major), spec_version_part(minor)) {
                (Some(major), Some(minor)) => Some(Backend::OpenGlEs { major, minor }),
                _ => None,
            }
        } else {
            None
        },
    }
}

/// The configuration that the fields of a resource stand for, or nothing
/// if one of them is malformed. A missing field has its default value.
pub open spec fn spec_conf_from_raw(raw: RawConf) -> Option<ConfView> {
    match (
        spec_dimension(raw.window_width, default_conf().window_width),
        spec_dimension(raw.window_height, default_conf().window_height),
        spec_backend(raw.backend, raw.backend_major, raw.backend_minor),
    ) {
        (Some(width), Some(height), Some(backend)) => Some(
            ConfView {
                window_title: match raw.window_title {
                    Some(title) => title@,
                    None => default_conf().window_title,
                },
                window_width: width,
                window_height: height,
                resizable: match raw.resizable {
                    Some(resizable) => resizable,
                    None => default_conf().resizable,
                },
                backend: backend,
            },
        ),
        _ => None,
    }
}

/// Computes [`spec_dimension`].
pub fn dimension(raw: Option<i64>, fallback: u32) -> (dim: Option<u32>)
    ensures
        dim == spec_dimension(raw, fallback),
{
    match raw {
        None => Some(fallback),
        Some(n) => {
            if 0 <= n && n <= 0xFFFF_FFFF {
                Some(n as u32)
            } else {
                None
            }
        },
    }
}

/// Computes [`spec_version_part`].
pub fn version_part(raw: Option<i64>) -> (part: Option<u8>)
    ensures
        part == spec_version_part(raw),
{
    match raw {
        None => Some(0),
        Some(n) => {
            if 0 <= n && n <= 255 {
                Some(n as u8)
            } else {
                None
            }
        },
    }
}

/// Computes [`spec_backend`].
pub fn backend_from_raw(name: Option<String>, major: Option<i64>, minor: Option<i64>) -> (backend:
    Option<Backend>)
    ensures
        backend == spec_backend(name, major, minor),
{
    match name {
        None => Some(Backend::Default),
        Some(name) => {
            if name == "default".to_owned() {
                Some(Backend::Default)
            } else if name == "opengl".to_owned() {
                match (version_part(major), version_part(minor)) {
                    (Some(major), Some(minor)) => Some(Backend::OpenGl { major, minor }),
                    _ => None,
                }
            } else if name == "opengles".to_owned() {
                match (version_part(major), version_part(minor)) {
                    (Some(major), Some(minor)) => Some(Backend::OpenGlEs { major, minor }),
                    _ => None,
                }
            } else {
                None
            }
        },
    }
}

/// Makes a configuration of the fields of a resource. A missing field has
/// its default value; a field that is malformed makes the whole resource
/// malformed, which is a `ConfigError`.
pub fn conf_from_raw(raw: RawConf) -> (loaded: Result<Conf, GameError>)
    ensures
        match spec_conf_from_raw(raw) {
            Some(view) => loaded matches Ok(conf) && conf@ == view,
            None => loaded matches Err(GameError::ConfigError(_)),
        },
{
    let defaults = Conf::new();
    let width = dimension(raw.window_width, defaults.window_width);
    let height = dimension(raw.window_height, defaults.window_height);
    let backend = backend_from_raw(raw.backend, raw.backend_major, raw.backend_minor);
    match (width, height, backend) {
        (Some(window_width), Some(window_height), Some(backend)) => Ok(
            Conf {
                window_title: match raw.window_title {
                    Some(title) => title,
                    None => defaults.window_title,
                },
                window_width,
                window_height,
                resizable: match raw.resizable {
                    Some(resizable) => resizable,
                    None => defaults.resizable,
                },
                backend,
            },
        ),
        _ => Err(GameError::ConfigError("Config file is malformed".to_owned())),
    }
}

/// The message of the error that stands for a missing configuration resource.
pub open spec fn not_found_message() -> Seq<char> {
    "Config file not found"@
}

/// What looking for the configuration resource amounts to: `None` stands for
/// a resource that is not there, `Some` carries what reading and parsing it
/// gave.
pub open spec fn spec_default_config(found: Option<Result<Conf, GameError>>, loaded: Result<
    Conf,
    GameError,
>) -> bool {
    match found {
        Some(outcome) => loaded == outcome,
        None => loaded matches Err(GameError::ConfigError(msg)) && msg@ == not_found_message(),
    }
}

/// Turns what the embedding program found at the configuration resource into
/// a result: a resource that is not there is a `ConfigError`, anything else
/// is handed on as it is.
pub fn get_default_config(found: Option<Result<Conf, GameError>>) -> (loaded: Result<
    Conf,
    GameError,
>)
    ensures
        spec_default_config(found, loaded),
{
    match found {
        Some(outcome) => outcome,
        None => Err(GameError::ConfigError("Config file not found".to_owned())),
    }
}

/// The configuration a game runs with: the loaded one where loading
/// succeeded, the caller's default on any failure.
pub open spec fn spec_resolve_config(loaded: Result<Conf, GameError>, default_config: Conf) -> Conf {
    match loaded {
        Ok(conf) => conf,
        Err(_) => default_config,
    }
}

/// Picks the configuration to run with. A missing or malformed resource is
/// never fatal: the caller's default takes its place, untouched.
pub fn resolve_config(loaded: Result<Conf, GameError>, default_config: Conf) -> (conf: Conf)
    ensures
        conf == spec_resolve_config(loaded, default_config),
{
    match loaded {
        Ok(conf) => conf,
        Err(_) => default_config,
    }
}

} // verus!
