//! Configuration of the server, as read from its TOML file.
use vstd::prelude::*;

use crate::cli::Cli;

verus! {

/// The whole server configuration.
pub struct Config {
    /// Directory served as the static site.
    pub static_site_path: String,
    /// Location of the SQLite database.
    pub database_url: String,
    pub google: GoogleApiConfig,
    pub discord: DiscordConfig,
}

/// Credentials for Google's reCAPTCHA Enterprise API.
pub struct GoogleApiConfig {
    pub recaptcha_site_key: String,
    pub google_api_key: String,
    pub google_cloud_project_name: String,
}

/// Credentials and identifiers for the Discord bot.
pub struct DiscordConfig {
    pub bot_token: String,
    pub guild_id: u64,
    pub channel_id: u64,
}

/// Static site directory used when the configuration file names none.
pub fn default_static_site_path() -> (path: String)
    ensures
        path@ == "/var/sdnc/www"@,
{
    String::from_str("/var/sdnc/www")
}

/// Database location used when the configuration file names none.
pub fn default_database_url() -> (url: String)
    ensures
        url@ == "sdnc.sqlite"@,
{
    String::from_str("sdnc.sqlite")
}

/// The configuration file to read: the path given on the command line or, when
/// none is given, the current working directory.
pub fn config_file_path(args: &Cli, current_dir: String) -> (path: String)
    ensures
        path@ == match args.config_path {
            Some(p) => p@,
            None => current_dir@,
        },
{
    match &args.config_path {
        Some(p) => p.clone(),
        None => current_dir,
    }
}

} // verus!
