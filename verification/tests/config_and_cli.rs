use sdnc::cli::{Cli, CliSubcommands};
use sdnc::config::{config_file_path, default_database_url, default_static_site_path};

#[test]
fn static_site_path_defaults_to_var_sdnc_www() {
    assert_eq!(default_static_site_path(), "/var/sdnc/www");
}

#[test]
fn database_url_defaults_to_sdnc_sqlite() {
    assert_eq!(default_database_url(), "sdnc.sqlite");
}

#[test]
fn config_path_given_on_command_line_is_used() {
    let args = Cli { config_path: Some("./config.toml".to_string()), subcommand: None };
    assert_eq!(config_file_path(&args, "/home/club".to_string()), "./config.toml");
}

#[test]
fn config_path_falls_back_to_current_directory() {
    let args = Cli { config_path: None, subcommand: Some(CliSubcommands::InitDatabase) };
    assert_eq!(config_file_path(&args, "/home/club".to_string()), "/home/club");
}
