//! Command-line options of the migration run and phase selection.
use vstd::prelude::*;

verus! {

#[derive(Debug, Clone, Copy, PartialEq, Eq, Structural)]
pub enum Phase {
    Pre,
    UserImages,
    AdminUsers,
    Users,
    Authors,
    Articles,
    All,
}

#[derive(Debug, Clone)]
pub struct Cli {
    /// Path to config.json
    pub config: String,
    /// Path to pre-migration-config.json
    pub pre_config: String,
    /// Only run a single phase (skip everything else).
    pub only_phase: Phase,
    /// Limit number of articles to migrate (0 = no limit).
    pub max_articles: usize,
    /// Don't make destructive Strapi calls.
    pub dry_run: bool,
    /// Articles-phase page size for WP API.
    pub wp_per_page: i32,
}

impl Cli {
    /// A phase runs when every phase was selected or it is the selected one.
    pub fn should_run(&self, phase: Phase) -> (r: bool)
        ensures
            r == (self.only_phase == Phase::All || self.only_phase == phase),
    {
        self.only_phase == Phase::All || self.only_phase == phase
    }
}

} // verus!
