//! The invocation: flags, method, URL and parameters.
use vstd::prelude::*;

use crate::config::Config;
use crate::errors::Error;
use crate::parameter::Parameter;
use crate::session::{make_safe_pathname, safe_pathname};

verus! {

/// One invocation of the client.
#[derive(Debug, Clone, PartialEq, Eq, Default)]
pub struct App {
    /// Quiet mode; overrides any verbose setting.
    pub quiet: bool,
    /// Verbosity, from 0 (no logging) up.
    pub verbose: u8,
    /// Form mode: the body is form-encoded, and file uploads are allowed.
    pub form: bool,
    /// Basic authentication, `username:password` or `username`.
    pub auth: Option<String>,
    /// Bearer token authentication.
    pub token: Option<String>,
    /// Session name.
    pub session: Option<String>,
    /// Where sessions are stored; set only when it names an existing directory.
    pub session_dir: Option<String>,
    /// Use the stored session, but do not change it.
    pub read_only: bool,
    /// Use https rather than http for URLs given without a scheme.
    pub secure: bool,
    /// The method subcommand, with its URL and parameters.
    pub cmd: Option<Method>,
    /// The URL, when no method subcommand is given.
    pub url: Option<String>,
    /// The configuration file; set only when it names an existing file.
    pub config: Option<String>,
    /// The parameters, when no method subcommand is given.
    pub parameters: Vec<Parameter>,
}

/// An HTTP method, with the URL and parameters of its request.
#[allow(non_camel_case_types, clippy::upper_case_acronyms)]
#[derive(Debug, Clone, PartialEq, Eq)]
pub enum Method {
    HEAD(MethodData),
    GET(MethodData),
    PUT(MethodData),
    POST(MethodData),
    PATCH(MethodData),
    DELETE(MethodData),
}

/// The URL and the parameters given to a method subcommand.
#[derive(Debug, Clone, PartialEq, Eq)]
pub struct MethodData {
    pub url: String,
    pub parameters: Vec<Parameter>,
}

impl Method {
    /// The data that every method carries.
    pub open spec fn data_of(self) -> MethodData {
        match self {
            Method::HEAD(x) => x,
            Method::GET(x) => x,
            Method::PUT(x) => x,
            Method::POST(x) => x,
            Method::PATCH(x) => x,
            Method::DELETE(x) => x,
        }
    }

    /// The URL and parameters of this method.
    pub fn data(&self) -> (r: &MethodData)
        ensures
            *r == self.data_of(),
    {
        match self {
            Method::HEAD(x) => x,
            Method::GET(x) => x,
            Method::PUT(x) => x,
            Method::POST(x) => x,
            Method::PATCH(x) => x,
            Method::DELETE(x) => x,
        }
    }
}

/// The logging level for a verbosity: none at 0 or in quiet mode, then
/// `error`, `warn`, `info`, `debug`, and `trace` from 5 up.
pub open spec fn log_level_of(quiet: bool, verbose: u8) -> Option<Seq<char>> {
    if quiet || verbose == 0 {
        None
    } else if verbose == 1 {
        Some("error"@)
    } else if verbose == 2 {
        Some("warn"@)
    } else if verbose == 3 {
        Some("info"@)
    } else if verbose == 4 {
        Some("debug"@)
    } else {
        Some("trace"@)
    }
}

/// The app after the configuration file's settings have filled what the
/// command line left unset: a verbosity of 0, a false flag, a missing
/// credential.
pub open spec fn with_config(app: App, config: Config) -> App {
    App {
        verbose: if app.verbose == 0 && config.verbose is Some {
            config.verbose->0
        } else {
            app.verbose
        },
        form: if !app.form && config.form is Some {
            config.form->0
        } else {
            app.form
        },
        secure: if !app.secure && config.secure is Some {
            config.secure->0
        } else {
            app.secure
        },
        auth: if app.auth is None {
            config.auth
        } else {
            app.auth
        },
        token: if app.token is None {
            config.token
        } else {
            app.token
        },
        ..app
    }
}

impl App {
    /// Whether the invocation names a URL, directly or through a method.
    pub open spec fn has_target(self) -> bool {
        self.cmd is Some || self.url is Some
    }

    /// The URL the invocation names: the direct one first.
    pub open spec fn target_url(self) -> Seq<char> {
        match self.url {
            Some(u) => u@,
            None => self.cmd->0.data_of().url@,
        }
    }

    /// Fails unless a URL or a method subcommand is given.
    pub fn validate(&mut self) -> (r: Result<(), Error>)
        ensures
            *final(self) == *old(self),
            r is Ok <==> old(self).has_target(),
            r matches Err(e) ==> e == Error::MissingUrlAndCommand,
    {
        if self.cmd.is_none() && self.url.is_none() {
            return Err(Error::MissingUrlAndCommand);
        }
        Ok(())
    }

    /// Fills the settings that the command line left unset from the
    /// configuration file, when there is one.
    pub fn process_config_file(&mut self, config: Option<Config>)
        ensures
            match config {
                Some(c) => *final(self) == with_config(*old(self), c),
                None => *final(self) == *old(self),
            },
    {
        if let Some(mut config) = config {
            if self.verbose == 0 {
                if let Some(v) = config.verbose {
                    self.verbose = v;
                }
            }
            if !self.form {
                if let Some(f) = config.form {
                    self.form = f;
                }
            }
            if !self.secure {
                if let Some(s) = config.secure {
                    self.secure = s;
                }
            }
            if self.auth.is_none() {
                self.auth = config.auth.take();
            }
            if self.token.is_none() {
                self.token = config.token.take();
            }
        }
    }

    /// The logging level that the verbosity asks for.
    pub fn log_level(&self) -> (r: Option<&'static str>)
        ensures
            match log_level_of(self.quiet, self.verbose) {
                Some(l) => r is Some && r->0@ == l,
                None => r is None,
            },
    {
        if self.quiet || self.verbose == 0 {
            return None;
        }
        match self.verbose {
            1 => Some("error"),
            2 => Some("warn"),
            3 => Some("info"),
            4 => Some("debug"),
            _ => Some("trace"),
        }
    }

    /// The target URL, made safe to use as a directory name.
    pub fn host(&self) -> (r: String)
        requires
            self.has_target(),
        ensures
            r@ == safe_pathname(self.target_url()),
    {
        if let Some(url) = &self.url {
            make_safe_pathname(url.as_str())
        } else {
            let cmd = self.cmd.as_ref().unwrap();
            make_safe_pathname(cmd.data().url.as_str())
        }
    }
}

} // verus!
