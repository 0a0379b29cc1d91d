//! Debug switches. The one switch skips container removal after a run,
//! for inspecting what a run left behind; it defaults to off.

use vstd::prelude::*;

verus! {

/// Debug configuration.
#[derive(Clone, Copy, PartialEq, Eq, Structural, Debug)]
pub struct Config {
    /// When set, the terminating remove is skipped and the container
    /// lingers.
    pub keep_container: bool,
}

impl Default for Config {
    /// The default keeps nothing: containers are removed.
    fn default() -> (r: Config)
        ensures
            !r.keep_container,
    {
        Config { keep_container: false }
    }
}

} // verus!
