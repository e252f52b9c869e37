//! Run configuration: endpoints and tokens, and the pre-migration feature flags.
use vstd::prelude::*;

verus! {

/// Base URLs and bearer tokens of the two systems.
#[derive(Debug, Clone)]
pub struct Config {
    pub wp_base_url: String,
    pub strapi_base_url: String,
    pub token: String,
    /// Token of the custom `/migration/*` routes; empty means "use `token`".
    pub migration_token: String,
}

impl Default for Config {
    fn default() -> (r: Self)
        ensures
            r.wp_base_url@.len() == 0,
            r.strapi_base_url@.len() == 0,
            r.token@.len() == 0,
            r.migration_token@.len() == 0,
    {
        Config {
            wp_base_url: String::new(),
            strapi_base_url: String::new(),
            token: String::new(),
            migration_token: String::new(),
        }
    }
}

pub open spec fn override_with(current: String, v: Option<String>) -> String {
    match v {
        Some(s) => s,
        None => current,
    }
}

impl Config {
    /// Applies the environment overrides read by the loader: each of
    /// `WP_BASE_URL`, `STRAPI_BASE_URL` and `STRAPI_TOKEN` that is set replaces the
    /// corresponding value from the file.
    pub fn with_env_overrides(
        self,
        wp_base_url: Option<String>,
        strapi_base_url: Option<String>,
        token: Option<String>,
    ) -> (r: Self)
        ensures
            r.wp_base_url == override_with(self.wp_base_url, wp_base_url),
            r.strapi_base_url == override_with(self.strapi_base_url, strapi_base_url),
            r.token == override_with(self.token, token),
            r.migration_token == self.migration_token,
    {
        let mut cfg = self;
        if let Some(v) = wp_base_url {
            cfg.wp_base_url = v;
        }
        if let Some(v) = strapi_base_url {
            cfg.strapi_base_url = v;
        }
        if let Some(v) = token {
            cfg.token = v;
        }
        cfg
    }
}

/// Default of the flags that are on unless configured otherwise.
pub fn t() -> (r: bool)
    ensures
        r,
{
    true
}

/// Default of the flags that are off unless configured otherwise.
pub fn f() -> (r: bool)
    ensures
        !r,
{
    false
}

/// Default admin-user batch size.
pub fn d_admin_batch() -> (r: i32)
    ensures
        r == 100,
{
    100
}

/// Default regular-user batch size.
pub fn d_user_batch() -> (r: i32)
    ensures
        r == 1000,
{
    1000
}

/// Feature flags and batch sizes of the pre-article phases.
#[derive(Debug, Clone)]
pub struct PreMigrationConfig {
    pub enabled: bool,
    pub migrate_performers: bool,
    pub migrate_studios: bool,
    pub migrate_categories: bool,
    pub migrate_sub_categories: bool,
    pub download_user_images: bool,
    pub upload_user_images: bool,
    pub migrate_admin_users: bool,
    pub migrate_users: bool,
    pub migrate_authors: bool,
    pub admin_user_batch_size: i32,
    pub user_batch_size: i32,
}

impl Default for PreMigrationConfig {
    fn default() -> (r: Self)
        ensures
            r == (PreMigrationConfig {
                enabled: true,
                migrate_performers: false,
                migrate_studios: false,
                migrate_categories: true,
                migrate_sub_categories: true,
                download_user_images: true,
                upload_user_images: true,
                migrate_admin_users: true,
                migrate_users: true,
                migrate_authors: true,
                admin_user_batch_size: 100,
                user_batch_size: 1000,
            }),
    {
        PreMigrationConfig {
            enabled: t(),
            migrate_performers: f(),
            migrate_studios: f(),
            migrate_categories: t(),
            migrate_sub_categories: t(),
            download_user_images: t(),
            upload_user_images: t(),
            migrate_admin_users: t(),
            migrate_users: t(),
            migrate_authors: t(),
            admin_user_batch_size: d_admin_batch(),
            user_batch_size: d_user_batch(),
        }
    }
}

} // verus!
