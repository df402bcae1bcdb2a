//! Settings with which the console is mounted.

use vstd::prelude::*;
use crate::storage::DEFAULT_MAX_EVENTS;

verus! {

/// The directives of the default filter of the logging pipeline, used where
/// the environment sets none: every level of every target, but nothing from
/// this crate and nothing from the `log` compatibility target.
pub open spec fn default_directives() -> Seq<char> {
    "trace,tracing_web_console=off,log=off"@
}

/// The default filter of the logging pipeline.
pub fn default_env_filter() -> (directives: String)
    ensures
        directives@ == default_directives(),
{
    "trace,tracing_web_console=off,log=off".to_owned()
}

/// Collects the settings of a console before it is mounted.
#[derive(Debug)]
pub struct TracingLayerBuilder {
    pub base_path: String,
    pub capacity: usize,
    pub initial_filter: String,
}

impl TracingLayerBuilder {
    /// Settings for a console under `base_path`, with the default capacity
    /// and a filter that lets every level through.
    pub fn new(base_path: &str) -> (builder: TracingLayerBuilder)
        ensures
            builder.base_path@ == base_path@,
            builder.capacity == DEFAULT_MAX_EVENTS,
            builder.initial_filter@ == "trace"@,
    {
        TracingLayerBuilder {
            base_path: base_path.to_owned(),
            capacity: DEFAULT_MAX_EVENTS,
            initial_filter: "trace".to_owned(),
        }
    }

    /// The same settings with another ring capacity.
    pub fn with_capacity(self, capacity: usize) -> (builder: TracingLayerBuilder)
        ensures
            builder.base_path@ == self.base_path@,
            builder.capacity == capacity,
            builder.initial_filter@ == self.initial_filter@,
    {
        TracingLayerBuilder {
            base_path: self.base_path,
            capacity,
            initial_filter: self.initial_filter,
        }
    }

    /// The same settings with another initial filter.
    pub fn with_filter(self, filter: &str) -> (builder: TracingLayerBuilder)
        ensures
            builder.base_path@ == self.base_path@,
            builder.capacity == self.capacity,
            builder.initial_filter@ == filter@,
    {
        TracingLayerBuilder {
            base_path: self.base_path,
            capacity: self.capacity,
            initial_filter: filter.to_owned(),
        }
    }
}

} // verus!
