use vstd::prelude::*;

pub mod clock;
pub mod model;
pub mod pipeline;
pub mod prune;
pub mod retention;
pub mod text;

verus! {

/// The run's configuration: the plain values the command line supplies.
pub struct Args {
    pub registry: String,
    pub retention: u32,
    pub debug: bool,
    pub trace: bool,
    pub dry_run: bool,
}

impl Args {
    /// Bundles the values the command line supplies into one configuration.
    pub fn new(registry: String, retention: u32, debug: bool, trace: bool, dry_run: bool) -> (r: Args)
        ensures
            r.registry == registry,
            r.retention == retention,
            r.debug == debug,
            r.trace == trace,
            r.dry_run == dry_run,
    {
        Args { registry, retention, debug, trace, dry_run }
    }
}

} // verus!
