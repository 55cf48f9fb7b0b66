//! The supervisor's one setting, the passivation window, and how it is read
//! from a configuration.

use vstd::prelude::*;
use config::{Config, ConfigError};

verus! {

/// The configuration type of the `config` crate, as an opaque value.
#[verifier::external_type_specification]
#[verifier::external_body]
pub struct ExConfig(config::Config);

/// The error type of the `config` crate, as an opaque value.
#[verifier::external_type_specification]
#[verifier::external_body]
pub struct ExConfigError(config::ConfigError);

/// The integers that a configuration yields: the keys under which
/// `Config::get_int` finds a value that it can read as an integer, each with
/// that integer.
pub uninterp spec fn integer_settings(config: Config) -> Map<Seq<char>, i64>;

/// A key that names a setting by identifiers and dots alone, without a
/// subscript.
pub open spec fn plain_key(key: Seq<char>) -> bool {
    forall|i: int| 0 <= i < key.len() ==> key[i] != '['
}

/// `Config::get_int` looks `key` up in the values that the configuration has
/// cached and converts what it finds. The contract claims that the outcome
/// depends on the configuration and the key alone: it is `Ok` exactly for the
/// keys of [`integer_settings`], with the integer found there. Keys with a
/// subscript are left out, since a negative subscript beyond the length of
/// its array makes the lookup panic.
pub assume_specification[ Config::get_int ](config: &Config, key: &str) -> (read: Result<
    i64,
    ConfigError,
>)
    requires
        plain_key(key@),
    ensures
        read is Ok <==> integer_settings(*config).contains_key(key@),
        read matches Ok(value) ==> integer_settings(*config)[key@] == value,
;

/// The key of the passivation window, in seconds.
pub const SLEEP_AFTER_KEY: &'static str = "cqrs.sleep_after_secs";

/// Why a configuration gives no passivation window.
#[derive(Clone, Copy, Debug, PartialEq, Eq, Structural)]
pub enum ConfigFault {
    /// The configuration has no value under the key, or one that is no
    /// integer.
    Unreadable,
    /// The value under the key is a negative number of seconds.
    Negative,
}

/// The supervisor's settings: the passivation window in seconds, fixed for
/// the supervisor's lifetime.
#[derive(Clone, Copy, Debug, PartialEq, Eq, Structural)]
pub struct EntityActorConfig {
    pub sleep_after_secs: u64,
}

/// What a configuration yields under [`SLEEP_AFTER_KEY`].
pub open spec fn sleep_after_setting(config: Config) -> Option<i64> {
    if integer_settings(config).contains_key(SLEEP_AFTER_KEY@) {
        Some(integer_settings(config)[SLEEP_AFTER_KEY@])
    } else {
        None
    }
}

/// The settings that follow from what was found under the key.
pub open spec fn settings_of(found: Option<i64>) -> Result<EntityActorConfig, ConfigFault> {
    match found {
        None => Err(ConfigFault::Unreadable),
        Some(secs) => if secs < 0 {
            Err(ConfigFault::Negative)
        } else {
            Ok(EntityActorConfig { sleep_after_secs: secs as u64 })
        },
    }
}

/// What [`settings_of`] reads of a lookup: the integer, if there was one.
pub open spec fn found_in(read: Result<i64, ConfigError>) -> Option<i64> {
    match read {
        Ok(secs) => Some(secs),
        Err(_) => None,
    }
}

impl EntityActorConfig {
    /// The settings that follow from a lookup of the window: a non-negative
    /// integer is the window in seconds, a negative one and a failed lookup
    /// are faults.
    pub fn from_lookup(read: Result<i64, ConfigError>) -> (settings: Result<
        EntityActorConfig,
        ConfigFault,
    >)
        ensures
            settings == settings_of(found_in(read)),
    {
        match read {
            Ok(secs) => {
                if secs < 0 {
                    Err(ConfigFault::Negative)
                } else {
                    Ok(EntityActorConfig { sleep_after_secs: secs as u64 })
                }
            },
            Err(_) => Err(ConfigFault::Unreadable),
        }
    }

    /// Reads the settings from `config`.
    pub fn from_config(config: &Config) -> (settings: Result<EntityActorConfig, ConfigFault>)
        ensures
            settings == settings_of(sleep_after_setting(*config)),
    {
        proof {
            reveal_strlit("cqrs.sleep_after_secs");
        }
        let read = config.get_int(SLEEP_AFTER_KEY);
        Self::from_lookup(read)
    }
}

} // verus!
