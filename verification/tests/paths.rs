//! Where private files are kept.
use aishell::config::Config;
use aishell::context::DATABASE_FILE_NAME;
use aishell::paths::{
    config_file, context_database_file, BaseVariable, Environment, Platform, Variable,
};

fn unix() -> Environment {
    Environment {
        platform: Platform::Unix,
        xdg_config_home: Variable::Missing,
        xdg_state_home: Variable::Missing,
        home: Variable::Absolute,
        local_app_data: Variable::Missing,
    }
}

#[test]
fn private_paths_have_distinct_stable_names() {
    let config = config_file(unix()).unwrap();
    assert!(config.components.ends_with(&["aishell".to_owned(), "config.toml".to_owned()]));
    let database = context_database_file(unix(), "history.sqlite3").unwrap();
    assert!(database.components.ends_with(&["aishell".to_owned(), "history.sqlite3".to_owned()]));
}

#[test]
fn files_stand_below_the_home_directory_by_default() {
    let config = Config::path(unix()).unwrap();
    assert_eq!(config.base, BaseVariable::Home);
    assert_eq!(config.components, vec![".config", "aishell", "config.toml"]);
    let database = context_database_file(unix(), DATABASE_FILE_NAME).unwrap();
    assert_eq!(database.base, BaseVariable::Home);
    assert_eq!(database.components, vec![".local", "state", "aishell", "history.sqlite3"]);
}

#[test]
fn absolute_base_directories_take_precedence() {
    let environment = Environment {
        xdg_config_home: Variable::Absolute,
        xdg_state_home: Variable::Relative,
        ..unix()
    };
    let config = config_file(environment).unwrap();
    assert_eq!(config.base, BaseVariable::XdgConfigHome);
    assert_eq!(config.components, vec!["aishell", "config.toml"]);
    let database = context_database_file(environment, "history.sqlite3").unwrap();
    assert_eq!(database.base, BaseVariable::Home);
}

#[test]
fn a_missing_home_is_reported() {
    let environment = Environment { home: Variable::Missing, ..unix() };
    assert_eq!(
        config_file(environment).unwrap_err().message(),
        "HOME is not set, so the configuration path cannot be determined"
    );
    assert_eq!(
        context_database_file(environment, "history.sqlite3").unwrap_err().message(),
        "HOME is not set, so the state path cannot be determined"
    );
}

#[test]
fn windows_uses_the_local_data_directory() {
    let environment = Environment {
        platform: Platform::Windows,
        local_app_data: Variable::Absolute,
        ..unix()
    };
    let config = config_file(environment).unwrap();
    assert_eq!(config.base, BaseVariable::LocalAppData);
    assert_eq!(config.components, vec!["aishell", "config.toml"]);
    let relative = Environment { local_app_data: Variable::Relative, ..environment };
    assert_eq!(
        config_file(relative).unwrap_err().message(),
        "LOCALAPPDATA is not set to an absolute path, so the private data path cannot be determined"
    );
}
