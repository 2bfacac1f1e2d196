//! The optional configuration file and where it is found.
use vstd::prelude::*;

use crate::app::App;
use crate::directories::Directories;
use crate::text::{join_path, path_join};

verus! {

/// Settings read from the configuration file; each fills the flag of the same
/// name where the command line left it unset.
#[derive(Debug, Clone, PartialEq, Eq, Default)]
pub struct Config {
    pub verbose: Option<u8>,
    pub form: Option<bool>,
    pub auth: Option<String>,
    pub token: Option<String>,
    pub secure: Option<bool>,
}

/// The path of the configuration file: the one given to the app, else
/// `config` in the configuration directory.
pub open spec fn config_file_path(app: App, dirs: Directories) -> Seq<char> {
    match app.config {
        Some(p) => p@,
        None => path_join(dirs.config_path(), "config"@),
    }
}

/// The configuration file to read.
pub fn config_file(app: &App, dirs: &Directories) -> (r: String)
    ensures
        r@ == config_file_path(*app, *dirs),
{
    match &app.config {
        Some(p) => p.clone(),
        None => join_path(dirs.config(), "config"),
    }
}

} // verus!
