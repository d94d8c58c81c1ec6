//! The configuration and the values in it that name an environment variable.

use crate::text::{occurs_at, replace, replaced, starts_with, str_eq};
use vstd::prelude::*;
use vstd::string::*;

verus! {

/// A value that begins with this names an environment variable.
pub const ENV_PREFIX: &'static str = "env:";

/// The whole configuration.
#[derive(Debug)]
pub struct Config {
    /// The repositories to index, in order.
    pub git_repos: Vec<String>,
    pub index_server: IndexServerConfig,
    pub api: ApiConfig,
    pub trello: TrelloConfig,
}

/// The credentials for the Trello service.
#[derive(Debug)]
pub struct TrelloConfig {
    pub key: String,
    pub token: String,
}

/// Where the index lies.
#[derive(Debug)]
pub struct IndexServerConfig {
    pub db_path: String,
}

/// The HTTP surface.
#[derive(Debug)]
pub struct ApiConfig {
    pub port: u16,
    /// The secret that a request to rebuild the index must bring.
    pub internal_commands_secret: String,
}

/// A variable of the process environment.
#[derive(Debug)]
pub struct EnvVar {
    pub name: String,
    pub value: String,
}

/// The variable that a configured value names: the value without the
/// prefix, where it begins with the prefix.
pub open spec fn referenced(value: Seq<char>) -> Option<Seq<char>> {
    if occurs_at(value, ENV_PREFIX@, 0) {
        Some(replaced(value, ENV_PREFIX@, Seq::empty()))
    } else {
        None
    }
}

/// The value of the first variable with the given name.
pub open spec fn env_value(env: Seq<EnvVar>, name: Seq<char>) -> Option<Seq<char>>
    decreases env.len(),
{
    if env.len() == 0 {
        None
    } else if env[0].name@ == name {
        Some(env[0].value@)
    } else {
        env_value(env.drop_first(), name)
    }
}

/// Whether the value can be resolved: it names no variable, or one that
/// the environment has.
pub open spec fn resolvable(value: Seq<char>, env: Seq<EnvVar>) -> bool {
    referenced(value) matches Some(name) ==> env_value(env, name) is Some
}

/// The value after resolving: the variable's value where it names one, and
/// the value itself otherwise.
pub open spec fn resolved(value: Seq<char>, env: Seq<EnvVar>) -> Seq<char> {
    match referenced(value) {
        Some(name) => match env_value(env, name) {
            Some(found) => found,
            None => value,
        },
        None => value,
    }
}

/// Whether every value of the list can be resolved.
pub open spec fn all_resolvable(values: Seq<String>, env: Seq<EnvVar>) -> bool {
    forall|i: int| 0 <= i < values.len() ==> resolvable(#[trigger] values[i]@, env)
}

impl Config {
    /// Whether every value of the configuration can be resolved.
    pub open spec fn resolvable(&self, env: Seq<EnvVar>) -> bool {
        &&& all_resolvable(self.git_repos@, env)
        &&& resolvable(self.index_server.db_path@, env)
        &&& resolvable(self.api.internal_commands_secret@, env)
        &&& resolvable(self.trello.token@, env)
        &&& resolvable(self.trello.key@, env)
    }

    /// Whether `after` is this configuration with every value resolved.
    pub open spec fn resolves_to(&self, after: Config, env: Seq<EnvVar>) -> bool {
        &&& after.git_repos@.len() == self.git_repos@.len()
        &&& forall|i: int|
            0 <= i < self.git_repos@.len() ==> (#[trigger] after.git_repos@[i])@ == resolved(
                self.git_repos@[i]@,
                env,
            )
        &&& after.index_server.db_path@ == resolved(self.index_server.db_path@, env)
        &&& after.api.port == self.api.port
        &&& after.api.internal_commands_secret@ == resolved(
            self.api.internal_commands_secret@,
            env,
        )
        &&& after.trello.token@ == resolved(self.trello.token@, env)
        &&& after.trello.key@ == resolved(self.trello.key@, env)
    }
}

/// The value of the first variable with the given name.
pub fn lookup_env<'a>(env: &'a Vec<EnvVar>, name: &str) -> (value: Option<&'a String>)
    ensures
        match value {
            Some(found) => env_value(env@, name@) == Some(found@),
            None => env_value(env@, name@) is None,
        },
{
    let mut i: usize = 0;
    assert(env@.skip(0) =~= env@);
    while i < env.len()
        invariant
            i <= env.len(),
            env_value(env@, name@) == env_value(env@.skip(i as int), name@),
        decreases env.len() - i,
    {
        assert(env@.skip(i as int).drop_first() =~= env@.skip(i + 1));
        if str_eq(env[i].name.as_str(), name) {
            return Some(&env[i].value);
        }
        i += 1;
    }
    None
}

/// The name of the variable that a configured value names, if it names one.
pub fn variable_name(value: &str) -> (name: Option<String>)
    ensures
        match name {
            Some(found) => referenced(value@) == Some(found@),
            None => referenced(value@) is None,
        },
{
    if starts_with(value, ENV_PREFIX) {
        let name = replace(value, ENV_PREFIX, "");
        proof {
            reveal_strlit("");
            assert(""@ =~= Seq::<char>::empty());
        }
        Some(name)
    } else {
        None
    }
}

/// Whether the value names no variable, or one that the environment has.
pub fn can_resolve(value: &str, env: &Vec<EnvVar>) -> (possible: bool)
    ensures
        possible == resolvable(value@, env@),
{
    match variable_name(value) {
        Some(name) => lookup_env(env, name.as_str()).is_some(),
        None => true,
    }
}

/// Puts the variable's value in place of a value that names one.
pub fn _replace_string_with_env(value: &mut String, env: &Vec<EnvVar>)
    requires
        resolvable(old(value)@, env@),
    ensures
        final(value)@ == resolved(old(value)@, env@),
{
    match variable_name(value.as_str()) {
        Some(name) => {
            let found = lookup_env(env, name.as_str()).unwrap();
            *value = found.clone();
        },
        None => {},
    }
}

/// Whether every value of the configuration can be resolved in the
/// environment.
pub fn can_process(config: &Config, env: &Vec<EnvVar>) -> (possible: bool)
    ensures
        possible == config.resolvable(env@),
{
    let mut i: usize = 0;
    while i < config.git_repos.len()
        invariant
            i <= config.git_repos.len(),
            forall|j: int| 0 <= j < i ==> resolvable(#[trigger] config.git_repos@[j]@, env@),
        decreases config.git_repos.len() - i,
    {
        if !can_resolve(config.git_repos[i].as_str(), env) {
            return false;
        }
        i += 1;
    }
    can_resolve(config.index_server.db_path.as_str(), env) && can_resolve(
        config.api.internal_commands_secret.as_str(),
        env,
    ) && can_resolve(config.trello.token.as_str(), env) && can_resolve(
        config.trello.key.as_str(),
        env,
    )
}

/// Resolves every value of the configuration that names an environment
/// variable: the repositories, the index's path, the secret and the Trello
/// credentials.
pub fn process_config(config: &mut Config, env: &Vec<EnvVar>)
    requires
        old(config).resolvable(env@),
    ensures
        old(config).resolves_to(*final(config), env@),
{
    let mut i: usize = 0;
    while i < config.git_repos.len()
        invariant
            i <= config.git_repos.len(),
            config.git_repos@.len() == old(config).git_repos@.len(),
            forall|j: int|
                0 <= j < i ==> (#[trigger] config.git_repos@[j])@ == resolved(
                    old(config).git_repos@[j]@,
                    env@,
                ),
            forall|j: int|
                i <= j < config.git_repos@.len() ==> #[trigger] config.git_repos@[j] == old(
                    config,
                ).git_repos@[j],
            config.index_server == old(config).index_server,
            config.api == old(config).api,
            config.trello == old(config).trello,
            old(config).resolvable(env@),
        decreases config.git_repos.len() - i,
    {
        _replace_string_with_env(&mut config.git_repos[i], env);
        i += 1;
    }
    _replace_string_with_env(&mut config.index_server.db_path, env);
    _replace_string_with_env(&mut config.api.internal_commands_secret, env);
    _replace_string_with_env(&mut config.trello.token, env);
    _replace_string_with_env(&mut config.trello.key, env);
}

} // verus!
