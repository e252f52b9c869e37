//! The article phase around the per-article pipeline: how many posts are
//! migrated, which are skipped as already done, and what is counted and
//! remembered after each one.
use vstd::prelude::*;

use crate::cache::ProcessedPostTracker;
use crate::config::Config;
use crate::models::WpPost;

verus! {

/// Settings of the article phase.
#[derive(Debug, Clone)]
pub struct MigrationRunner {
    pub cfg: Config,
    /// Nothing is written to Strapi and no post is remembered as migrated.
    pub dry_run: bool,
    /// At most this many posts are migrated; 0 means no limit.
    pub max_articles: usize,
    /// Page size of the posts read from WordPress.
    pub wp_per_page: i32,
}

/// Successes and failures of the article phase.
#[derive(Debug, Clone, Copy, PartialEq, Eq, Structural)]
pub struct RunTally {
    pub success: i32,
    pub failure: i32,
}

impl MigrationRunner {
    /// Defaults: no dry run, no limit, pages of 50 posts.
    pub fn new(cfg: Config) -> (r: Self)
        ensures
            r.cfg == cfg,
            !r.dry_run,
            r.max_articles == 0,
            r.wp_per_page == 50,
    {
        MigrationRunner { cfg, dry_run: false, max_articles: 0, wp_per_page: 50 }
    }

    pub fn with_dry_run(self, dry_run: bool) -> (r: Self)
        ensures
            r == (MigrationRunner { dry_run, ..self }),
    {
        MigrationRunner { dry_run, ..self }
    }

    pub fn with_max_articles(self, n: usize) -> (r: Self)
        ensures
            r == (MigrationRunner { max_articles: n, ..self }),
    {
        MigrationRunner { max_articles: n, ..self }
    }

    pub fn with_wp_per_page(self, n: i32) -> (r: Self)
        ensures
            r == (MigrationRunner { wp_per_page: n, ..self }),
    {
        MigrationRunner { wp_per_page: n, ..self }
    }

    /// Keeps the first `max_articles` posts when a limit is set.
    pub fn limit_posts(&self, posts: &mut Vec<WpPost>)
        ensures
            final(posts)@ == (if self.max_articles > 0 && old(posts)@.len() > self.max_articles {
                old(posts)@.take(self.max_articles as int)
            } else {
                old(posts)@
            }),
    {
        if self.max_articles > 0 && posts.len() > self.max_articles {
            posts.truncate(self.max_articles);
        }
    }

    /// Posts already migrated are skipped.
    pub fn should_migrate(tracker: &ProcessedPostTracker, post_id: i64) -> (r: bool)
        ensures
            r == !tracker.view().contains(post_id),
    {
        !tracker.contains(post_id)
    }

    /// Counts the outcome of one post; a migrated post is remembered unless this
    /// is a dry run. Returns whether the tracker changed (and must be saved).
    pub fn record_outcome(
        &self,
        tally: &mut RunTally,
        tracker: &mut ProcessedPostTracker,
        post_id: i64,
        ok: bool,
    ) -> (r: bool)
        requires
            old(tally).success < i32::MAX,
            old(tally).failure < i32::MAX,
        ensures
            ok ==> final(tally).success == old(tally).success + 1 && final(tally).failure == old(
                tally,
            ).failure,
            !ok ==> final(tally).failure == old(tally).failure + 1 && final(tally).success == old(
                tally,
            ).success,
            ok && !self.dry_run ==> final(tracker).view() == old(tracker).view().insert(post_id)
                && r == !old(tracker).view().contains(post_id),
            !(ok && !self.dry_run) ==> final(tracker).view() == old(tracker).view() && !r,
    {
        if ok {
            tally.success = tally.success + 1;
            if !self.dry_run {
                return tracker.mark_processed(post_id);
            }
        } else {
            tally.failure = tally.failure + 1;
        }
        false
    }
}

} // verus!
