//! Where private files are kept.
use vstd::prelude::*;

use crate::error::Error;
use crate::text::{join3, texts};

verus! {

/// The family of the operating system.
#[derive(Clone, Copy, Debug, PartialEq, Eq, Structural)]
pub enum Platform {
    Unix,
    Windows,
}

/// What an environment variable holds.
#[derive(Clone, Copy, Debug, PartialEq, Eq, Structural)]
pub enum Variable {
    /// Nothing, or an empty text.
    Missing,
    /// A path that is not absolute.
    Relative,
    /// An absolute path.
    Absolute,
}

/// What the environment tells of the user's directories.
#[derive(Clone, Copy, Debug, PartialEq, Eq, Structural)]
pub struct Environment {
    pub platform: Platform,
    pub xdg_config_home: Variable,
    pub xdg_state_home: Variable,
    pub home: Variable,
    pub local_app_data: Variable,
}

/// An environment variable that a path starts with.
#[derive(Clone, Copy, Debug, PartialEq, Eq, Structural)]
pub enum BaseVariable {
    XdgConfigHome,
    XdgStateHome,
    Home,
    LocalAppData,
}

/// A path: what a variable holds, and the components after it.
#[derive(Clone, Debug, PartialEq, Eq)]
pub struct PrivatePath {
    pub base: BaseVariable,
    pub components: Vec<String>,
}

/// A path, with its components taken as characters.
#[verifier::ext_equal]
pub struct PathView {
    pub base: BaseVariable,
    pub components: Seq<Seq<char>>,
}

impl View for PrivatePath {
    type V = PathView;

    open spec fn view(&self) -> PathView {
        PathView { base: self.base, components: texts(self.components@) }
    }
}

/// A path with its parts taken by their views.
pub open spec fn path_view(r: Result<PrivatePath, Error>) -> Result<PathView, Seq<char>> {
    match r {
        Ok(path) => Ok(path@),
        Err(error) => Err(error@),
    }
}

/// The directory under which data is kept on Windows.
pub open spec fn windows_base(environment: Environment) -> Result<PathView, Seq<char>> {
    if environment.local_app_data == Variable::Absolute {
        Ok(PathView { base: BaseVariable::LocalAppData, components: seq![] })
    } else {
        Err(
            "LOCALAPPDATA is not set to an absolute path, so the private data path cannot be determined"@,
        )
    }
}

/// The directory under which data is kept elsewhere: what a variable holds where
/// it is an absolute path, or else a directory below the home directory.
pub open spec fn unix_base(
    variable: Variable,
    base: BaseVariable,
    home: Variable,
    fallback: Seq<Seq<char>>,
    description: Seq<char>,
) -> Result<PathView, Seq<char>> {
    if variable == Variable::Absolute {
        Ok(PathView { base, components: seq![] })
    } else if home == Variable::Missing {
        Err("HOME is not set, so the "@ + description + " path cannot be determined"@)
    } else {
        Ok(PathView { base: BaseVariable::Home, components: fallback })
    }
}

/// The directory under which configurations are kept.
pub open spec fn config_base(environment: Environment) -> Result<PathView, Seq<char>> {
    match environment.platform {
        Platform::Windows => windows_base(environment),
        Platform::Unix => unix_base(
            environment.xdg_config_home,
            BaseVariable::XdgConfigHome,
            environment.home,
            seq![".config"@],
            "configuration"@,
        ),
    }
}

/// The directory under which state is kept.
pub open spec fn state_base(environment: Environment) -> Result<PathView, Seq<char>> {
    match environment.platform {
        Platform::Windows => windows_base(environment),
        Platform::Unix => unix_base(
            environment.xdg_state_home,
            BaseVariable::XdgStateHome,
            environment.home,
            seq![".local"@, "state"@],
            "state"@,
        ),
    }
}

/// A file of this program in a directory.
pub open spec fn in_program_directory(
    base: Result<PathView, Seq<char>>,
    file_name: Seq<char>,
) -> Result<PathView, Seq<char>> {
    match base {
        Ok(path) => Ok(
            PathView {
                base: path.base,
                components: path.components + seq!["aishell"@, file_name],
            },
        ),
        Err(error) => Err(error),
    }
}

fn windows_local_data_base(environment: Environment) -> (r: Result<PrivatePath, Error>)
    ensures
        path_view(r) == windows_base(environment),
{
    if environment.local_app_data == Variable::Absolute {
        let components: Vec<String> = Vec::new();
        assert(texts(components@) =~= Seq::<Seq<char>>::empty());
        Ok(PrivatePath { base: BaseVariable::LocalAppData, components })
    } else {
        Err(
            Error::of(
                "LOCALAPPDATA is not set to an absolute path, so the private data path cannot be determined",
            ),
        )
    }
}

fn unix_base_path(
    variable: Variable,
    base: BaseVariable,
    home: Variable,
    fallback: Vec<String>,
    description: &str,
) -> (r: Result<PrivatePath, Error>)
    ensures
        path_view(r) == unix_base(variable, base, home, texts(fallback@), description@),
{
    if variable == Variable::Absolute {
        let components: Vec<String> = Vec::new();
        assert(texts(components@) =~= Seq::<Seq<char>>::empty());
        return Ok(PrivatePath { base, components });
    }
    if home == Variable::Missing {
        return Err(
            Error::new(join3("HOME is not set, so the ", description, " path cannot be determined")),
        );
    }
    Ok(PrivatePath { base: BaseVariable::Home, components: fallback })
}

fn platform_config_base(environment: Environment) -> (r: Result<PrivatePath, Error>)
    ensures
        path_view(r) == config_base(environment),
{
    match environment.platform {
        Platform::Windows => windows_local_data_base(environment),
        Platform::Unix => {
            let mut fallback: Vec<String> = Vec::new();
            fallback.push(".config".to_owned());
            assert(texts(fallback@) =~= seq![".config"@]);
            unix_base_path(
                environment.xdg_config_home,
                BaseVariable::XdgConfigHome,
                environment.home,
                fallback,
                "configuration",
            )
        },
    }
}

fn platform_state_base(environment: Environment) -> (r: Result<PrivatePath, Error>)
    ensures
        path_view(r) == state_base(environment),
{
    match environment.platform {
        Platform::Windows => windows_local_data_base(environment),
        Platform::Unix => {
            let mut fallback: Vec<String> = Vec::new();
            fallback.push(".local".to_owned());
            fallback.push("state".to_owned());
            assert(texts(fallback@) =~= seq![".local"@, "state"@]);
            unix_base_path(
                environment.xdg_state_home,
                BaseVariable::XdgStateHome,
                environment.home,
                fallback,
                "state",
            )
        },
    }
}

fn join_program_file(base: Result<PrivatePath, Error>, file_name: &str) -> (r: Result<
    PrivatePath,
    Error,
>)
    ensures
        path_view(r) == in_program_directory(path_view(base), file_name@),
{
    match base {
        Ok(path) => {
            let mut components = path.components;
            let ghost before = components@;
            components.push("aishell".to_owned());
            components.push(file_name.to_owned());
            assert(texts(components@) =~= texts(before) + seq!["aishell"@, file_name@]);
            Ok(PrivatePath { base: path.base, components })
        },
        Err(error) => Err(error),
    }
}

/// The path of the configuration.
pub fn config_file(environment: Environment) -> (r: Result<PrivatePath, Error>)
    ensures
        path_view(r) == in_program_directory(config_base(environment), "config.toml"@),
{
    join_program_file(platform_config_base(environment), "config.toml")
}

/// The path of the history database.
pub fn context_database_file(environment: Environment, file_name: &str) -> (r: Result<
    PrivatePath,
    Error,
>)
    ensures
        path_view(r) == in_program_directory(state_base(environment), file_name@),
{
    join_program_file(platform_state_base(environment), file_name)
}

/// The configuration and the history are never kept in one file.
pub proof fn private_paths_are_distinct(environment: Environment, file_name: Seq<char>)
    requires
        file_name != "config.toml"@,
    ensures
        in_program_directory(config_base(environment), "config.toml"@) is Ok ==> (
        in_program_directory(config_base(environment), "config.toml"@) != in_program_directory(
            state_base(environment),
            file_name,
        )),
{
    let config = in_program_directory(config_base(environment), "config.toml"@);
    let state = in_program_directory(state_base(environment), file_name);
    if config is Ok && state is Ok {
        assert(config->Ok_0.components.last() == "config.toml"@);
        assert(state->Ok_0.components.last() == file_name);
    }
}

/// The configuration is kept below the directory for configurations where the
/// environment names one by an absolute path, and below the home directory
/// otherwise. A relative path is as good as none. On Windows it is kept below the
/// local data directory, and nowhere else.
pub proof fn configurations_are_kept_where_the_system_keeps_them(environment: Environment)
    ensures
        ({
            let path = in_program_directory(config_base(environment), "config.toml"@);
            match environment.platform {
                Platform::Unix => if environment.xdg_config_home == Variable::Absolute {
                    path == Ok::<PathView, Seq<char>>(
                        PathView {
                            base: BaseVariable::XdgConfigHome,
                            components: seq!["aishell"@, "config.toml"@],
                        },
                    )
                } else if environment.home != Variable::Missing {
                    path == Ok::<PathView, Seq<char>>(
                        PathView {
                            base: BaseVariable::Home,
                            components: seq![".config"@, "aishell"@, "config.toml"@],
                        },
                    )
                } else {
                    path == Err::<PathView, Seq<char>>(
                        "HOME is not set, so the "@ + "configuration"@
                            + " path cannot be determined"@,
                    )
                },
                Platform::Windows => if environment.local_app_data == Variable::Absolute {
                    path == Ok::<PathView, Seq<char>>(
                        PathView {
                            base: BaseVariable::LocalAppData,
                            components: seq!["aishell"@, "config.toml"@],
                        },
                    )
                } else {
                    path is Err
                },
            }
        }),
{
    lemma_below_base("config.toml"@);
    assert(seq![".config"@] + seq!["aishell"@, "config.toml"@] =~= seq![
        ".config"@,
        "aishell"@,
        "config.toml"@,
    ]);
}

proof fn lemma_below_base(file_name: Seq<char>)
    ensures
        Seq::<Seq<char>>::empty() + seq!["aishell"@, file_name] == seq!["aishell"@, file_name],
{
    assert(Seq::<Seq<char>>::empty() + seq!["aishell"@, file_name] =~= seq!["aishell"@, file_name]);
}

/// The history is kept below the directory for state where the environment names
/// one by an absolute path, and below the home directory otherwise. On Windows it
/// is kept below the local data directory, and nowhere else.
pub proof fn the_history_is_kept_where_the_system_keeps_state(
    environment: Environment,
    file_name: Seq<char>,
)
    ensures
        ({
            let path = in_program_directory(state_base(environment), file_name);
            match environment.platform {
                Platform::Unix => if environment.xdg_state_home == Variable::Absolute {
                    path == Ok::<PathView, Seq<char>>(
                        PathView {
                            base: BaseVariable::XdgStateHome,
                            components: seq!["aishell"@, file_name],
                        },
                    )
                } else if environment.home != Variable::Missing {
                    path == Ok::<PathView, Seq<char>>(
                        PathView {
                            base: BaseVariable::Home,
                            components: seq![".local"@, "state"@, "aishell"@, file_name],
                        },
                    )
                } else {
                    path == Err::<PathView, Seq<char>>(
                        "HOME is not set, so the "@ + "state"@ + " path cannot be determined"@,
                    )
                },
                Platform::Windows => if environment.local_app_data == Variable::Absolute {
                    path == Ok::<PathView, Seq<char>>(
                        PathView {
                            base: BaseVariable::LocalAppData,
                            components: seq!["aishell"@, file_name],
                        },
                    )
                } else {
                    path == Err::<PathView, Seq<char>>(
                        "LOCALAPPDATA is not set to an absolute path, so the private data path cannot be determined"@,
                    )
                },
            }
        }),
{
    lemma_below_base(file_name);
    assert(seq![".local"@, "state"@] + seq!["aishell"@, file_name] =~= seq![
        ".local"@,
        "state"@,
        "aishell"@,
        file_name,
    ]);
}

} // verus!
