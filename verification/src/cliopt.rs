//! The parsed command-line options: what is left once the surrounding
//! program has read its arguments and loaded the configuration file.

use vstd::prelude::*;

use crate::config::Config;

verus! {

/// The result of option parsing: a fully resolved configuration.
pub struct ParsedOpt {
    pub config: Config,
}

} // verus!
