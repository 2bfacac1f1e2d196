//! Where the client keeps its configuration and sessions.
use vstd::prelude::*;

use crate::text::{join_path, path_join};

verus! {

/// The client's configuration directory.
pub struct Directories {
    config: String,
}

impl Directories {
    /// The configuration directory's path.
    pub closed spec fn config_path(&self) -> Seq<char> {
        self.config@
    }

    /// The directories under the platform's configuration directory `base`;
    /// `None` when the platform has none.
    pub fn new(base: Option<String>) -> (r: Option<Directories>)
        ensures
            base is None <==> r is None,
            r matches Some(d) ==> d.config_path() == path_join(base->0@, "hurl"@),
    {
        match base {
            Some(b) => Some(Directories { config: join_path(b.as_str(), "hurl") }),
            None => None,
        }
    }

    /// The configuration directory.
    pub fn config(&self) -> (r: &str)
        ensures
            r@ == self.config_path(),
    {
        self.config.as_str()
    }
}

} // verus!
