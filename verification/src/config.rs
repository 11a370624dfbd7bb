//! File-based configuration, as plain data: the default gradiant and the
//! named template jobs. Reading the file itself is the caller's job; the
//! library only defines the shape and the defaults.

use std::collections::HashMap;
use vstd::prelude::*;

use crate::gradiant::Gradiant;

verus! {

/// One template job: where the template text comes from and where the
/// rendered result goes.
#[derive(Debug)]
pub struct TemplateConfig {
    /// Template source.
    pub template: String,
    /// Template render destination.
    pub target: String,
}

/// Configuration: the default gradiant for palette generation and the
/// template jobs, by name.
#[derive(Debug)]
pub struct Config {
    /// Default gradiant for palette generation.
    pub gradiant: Gradiant,
    /// Template configuration.
    pub templates: HashMap<String, TemplateConfig>,
}

impl Default for Config {
    /// The configuration used when no file is present: an `Auto`
    /// gradiant and no template jobs.
    fn default() -> (c: Self)
        ensures
            c.gradiant == Gradiant::Auto,
            c.templates@ == Map::<String, TemplateConfig>::empty(),
    {
        Config { gradiant: Gradiant::Auto, templates: HashMap::new() }
    }
}

} // verus!
