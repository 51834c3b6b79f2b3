//! The configuration: one value, read by every procedure that needs it.

use crate::error::{RecordError, StoreFault};
use crate::keys::config_key;
use crate::kv::{Entries, Store};
use crate::model::{AppConfig, AppConfigView};
use crate::rows::{config_bytes, config_fields, config_of_bytes};
use crate::wire::fields_fit;
use vstd::prelude::*;
use vstd::string::*;

verus! {

/// The configuration in force: the stored one, or `fallback` where none is
/// stored; an error where what is stored cannot be read.
pub open spec fn config_in_force(m: Entries, fallback: AppConfigView) -> Result<
    AppConfigView,
    RecordError,
> {
    if !m.contains_key(config_key()) {
        Ok(fallback)
    } else {
        match config_of_bytes(m[config_key()]) {
            Some(c) => Ok(c),
            None => Err(RecordError::StoreFailure(StoreFault::Malformed)),
        }
    }
}

impl AppConfig {
    /// The configuration of a fresh installation that saves under
    /// `save_path`: the capture tool is found by its name and plans are polled
    /// every minute.
    pub fn with_save_path(save_path: String) -> (c: AppConfig)
        ensures
            c@ == (AppConfigView {
                ffmpeg_path: "ffmpeg"@,
                save_path: save_path@,
                live_info_check_interval: 60,
            }),
    {
        AppConfig {
            ffmpeg_path: String::from_str("ffmpeg"),
            save_path,
            live_info_check_interval: 60,
        }
    }
}

/// The configuration in force, from what was found under the key of the
/// configuration.
pub open spec fn chosen_config(entry: Option<Seq<u8>>, fallback: AppConfigView) -> Result<
    AppConfigView,
    RecordError,
> {
    match entry {
        None => Ok(fallback),
        Some(bytes) => match config_of_bytes(bytes) {
            Some(c) => Ok(c),
            None => Err(RecordError::StoreFailure(StoreFault::Malformed)),
        },
    }
}

/// The configuration in force, from what was found under the key of the
/// configuration: what was found, or `fallback` where nothing was.
pub fn choose_config(entry: Option<Vec<u8>>, fallback: AppConfig) -> (r: Result<
    AppConfig,
    RecordError,
>)
    ensures
        match r {
            Ok(c) => chosen_config(
                match entry {
                    Some(v) => Some(v@),
                    None => None,
                },
                fallback@,
            ) == Ok::<AppConfigView, RecordError>(c@),
            Err(e) => chosen_config(
                match entry {
                    Some(v) => Some(v@),
                    None => None,
                },
                fallback@,
            ) == Err::<AppConfigView, RecordError>(e),
        },
{
    match entry {
        Some(bytes) => match AppConfig::from_bytes(bytes.as_slice()) {
            Some(c) => Ok(c),
            None => Err(RecordError::StoreFailure(StoreFault::Malformed)),
        },
        None => Ok(fallback),
    }
}

/// The configuration in force: the stored one, or `fallback` where none is
/// stored. Fails where what is stored cannot be read as a configuration, and
/// where the store cannot be asked: a failure of the store is reported, not
/// papered over with the fallback.
pub fn get(store: &Store, fallback: AppConfig) -> (r: Result<AppConfig, RecordError>)
    ensures
        match r {
            Ok(c) => config_in_force(store@, fallback@) == Ok::<AppConfigView, RecordError>(c@),
            Err(e) => e.is_backend() || config_in_force(store@, fallback@) == Err::<
                AppConfigView,
                RecordError,
            >(e),
        },
{
    match store.read("config") {
        Ok(found) => choose_config(found, fallback),
        Err(e) => Err(e),
    }
}

/// Stores the configuration. What was stored is what `get` then finds: the
/// texts of a configuration are always short enough to be written.
pub fn set(store: &mut Store, config: &AppConfig) -> (r: Result<(), RecordError>)
    ensures
        match r {
            Ok(()) => final(store)@ == old(store)@.insert(config_key(), config_bytes(config@)),
            Err(e) => e.is_backend(),
        },
        fields_fit(config_fields(config@)),
{
    let value = config.to_bytes();
    store.write("config", value.as_slice())
}

} // verus!
