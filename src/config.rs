use vstd::prelude::*;
use crate::node::WalkError;

verus! {

/// The settings of one run: the credential and the block to start from.
#[derive(Debug, Clone, PartialEq, Eq)]
pub struct Config {
    pub token: String,
    pub root_id: String,
}

impl Config {
    /// Takes the two settings as they were found; both are required.
    pub fn from_settings(token: Option<String>, root_id: Option<String>) -> (r: Result<
        Config,
        WalkError,
    >)
        ensures
            (token is Some && root_id is Some) ==> r == Ok::<Config, WalkError>(
                Config { token: token.unwrap(), root_id: root_id.unwrap() },
            ),
            !(token is Some && root_id is Some) ==> r == Err::<Config, WalkError>(
                WalkError::Config,
            ),
    {
        match (token, root_id) {
            (Some(token), Some(root_id)) => Ok(Config { token, root_id }),
            _ => Err(WalkError::Config),
        }
    }
}

} // verus!
