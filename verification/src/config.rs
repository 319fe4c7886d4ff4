//! Configuration validation: the configuration file must supply the bot
//! token, the default command prefix, and the owner's numeric user id.
//! Reading and decoding the file happen outside the library, which is
//! handed the fields it found.

use vstd::prelude::*;

verus! {

/// The process configuration.
#[derive(Debug)]
pub struct Config {
    pub token: String,
    pub prefix: String,
    pub user_id: u64,
}

/// Why a configuration is rejected: the first required field, in
/// declaration order, that the file does not supply.
#[derive(Clone, Copy, Debug, PartialEq, Eq, Structural)]
pub enum ConfigError {
    MissingToken,
    MissingPrefix,
    MissingUserId,
}

/// Assemble the configuration from the fields the file supplied, verbatim;
/// reject it on the first missing field. There is no fallback and no
/// partial configuration.
pub fn config_from_fields(
    token: Option<String>,
    prefix: Option<String>,
    user_id: Option<u64>,
) -> (r: Result<Config, ConfigError>)
    ensures
        token is None ==> r == Result::<Config, ConfigError>::Err(ConfigError::MissingToken),
        token is Some && prefix is None ==> r == Result::<Config, ConfigError>::Err(
            ConfigError::MissingPrefix,
        ),
        token is Some && prefix is Some && user_id is None ==> r == Result::<
            Config,
            ConfigError,
        >::Err(ConfigError::MissingUserId),
        token is Some && prefix is Some && user_id is Some ==> (r is Ok && r->Ok_0.token == token->0
            && r->Ok_0.prefix == prefix->0 && r->Ok_0.user_id == user_id->0),
{
    match (token, prefix, user_id) {
        (Some(t), Some(p), Some(u)) => Ok(Config { token: t, prefix: p, user_id: u }),
        (None, _, _) => Err(ConfigError::MissingToken),
        (Some(_), None, _) => Err(ConfigError::MissingPrefix),
        (Some(_), Some(_), None) => Err(ConfigError::MissingUserId),
    }
}

} // verus!
