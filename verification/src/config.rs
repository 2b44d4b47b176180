//! Settings read from the environment: which owner, repositories and window.
use vstd::prelude::*;

use crate::text::{comma_list, parse_comma_list, parse_u32, parse_u32_spec};
use crate::types::Config;

verus! {

/// Why the settings could not be formed.
#[derive(Debug, Clone, Copy, PartialEq, Eq, Structural)]
pub enum ConfigError {
    /// `GITHUB_TOKEN` is not set.
    TokenNotSet,
    /// `GITHUB_OWNER` is not set.
    OwnerNotSet,
}

/// Look-back window used when none is given or it does not parse.
pub const DEFAULT_LOOKBACK_DAYS: u32 = 90;

/// Look-back window from the text of `DEVFLOW_LOOKBACK_DAYS`: its value as a
/// `u32`, or 90 when it is absent or does not parse.
pub open spec fn lookback_from(value: Option<Seq<char>>) -> u32 {
    match value {
        Some(v) => match parse_u32_spec(v) {
            Some(n) => n,
            None => 90,
        },
        None => 90,
    }
}

/// Repository list from the text of `GITHUB_REPOS`: the trimmed, non-empty
/// comma-separated names; none when it is absent.
pub open spec fn repos_from(value: Option<Seq<char>>) -> Seq<Seq<char>> {
    match value {
        Some(v) => comma_list(v),
        None => Seq::empty(),
    }
}

pub open spec fn opt_view(v: Option<String>) -> Option<Seq<char>> {
    match v {
        Some(s) => Some(s@),
        None => None,
    }
}

/// Look-back window from the text of `DEVFLOW_LOOKBACK_DAYS`, if it is set.
pub fn parse_lookback_days(value: Option<&str>) -> (days: u32)
    ensures
        days == lookback_from(match value {
            Some(v) => Some(v@),
            None => None,
        }),
{
    match value {
        Some(v) => match parse_u32(v) {
            Some(n) => n,
            None => DEFAULT_LOOKBACK_DAYS,
        },
        None => DEFAULT_LOOKBACK_DAYS,
    }
}

/// Repository names from the text of `GITHUB_REPOS`, if it is set.
pub fn parse_repo_list(value: Option<&str>) -> (repos: Vec<String>)
    ensures
        repos@.map_values(|x: String| x@) == repos_from(match value {
            Some(v) => Some(v@),
            None => None,
        }),
{
    match value {
        Some(v) => parse_comma_list(v),
        None => Vec::new(),
    }
}

impl Config {
    /// Settings from the values of `GITHUB_TOKEN`, `GITHUB_OWNER`,
    /// `GITHUB_REPOS` and `DEVFLOW_LOOKBACK_DAYS` (`None` for a variable that is
    /// not set).  The token is checked before the owner.
    pub fn from_values(
        token: Option<String>,
        owner: Option<String>,
        repos: Option<String>,
        lookback_days: Option<String>,
    ) -> (r: Result<Config, ConfigError>)
        ensures
            token is None ==> r == Err::<Config, ConfigError>(ConfigError::TokenNotSet),
            token is Some && owner is None ==> r == Err::<Config, ConfigError>(
                ConfigError::OwnerNotSet,
            ),
            token is Some && owner is Some <==> r is Ok,
            r matches Ok(c) ==> {
                &&& c.token@ == token->0@
                &&& c.owner@ == owner->0@
                &&& c.repos@.map_values(|x: String| x@) == repos_from(opt_view(repos))
                &&& c.lookback_days == lookback_from(opt_view(lookback_days))
            },
    {
        let token = match token {
            Some(t) => t,
            None => return Err(ConfigError::TokenNotSet),
        };
        let owner = match owner {
            Some(o) => o,
            None => return Err(ConfigError::OwnerNotSet),
        };
        let repos = match &repos {
            Some(r) => parse_repo_list(Some(r.as_str())),
            None => parse_repo_list(None),
        };
        let lookback = match &lookback_days {
            Some(l) => parse_lookback_days(Some(l.as_str())),
            None => parse_lookback_days(None),
        };
        Ok(Config { token, owner, repos, lookback_days: lookback })
    }
}

} // verus!
