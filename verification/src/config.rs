//! How the store is opened: the options a caller sets, and the engine
//! configuration they stand for.
use crate::engine::{
    config_settings, default_settings, new_config, with_cache_capacity, with_compression,
    with_compression_factor, with_mode, with_profile_on_drop, ConfigSettings,
};
use vstd::prelude::*;

verus! {

/// The options with which the store is opened.
#[derive(Clone, Debug, PartialEq, Eq)]
pub struct DbOpts {
    /// if Some, enable compression and set factor to this
    pub compression_factor: Option<i32>,
    /// if true, print profile stats when database is dropped
    pub debug: bool,
    /// whether the engine should favour space or throughput
    pub mode: Option<DbMode>,
    /// where the store lives in the file system
    pub path: String,
    /// size of system page cache in bytes
    pub system_page_cache: Option<u64>,
}

/// What the engine should favour: little space on disk, or fast writes.
#[derive(Clone, Copy, Debug, PartialEq, Eq)]
pub enum DbMode {
    LowSpace,
    Fast,
}

impl Default for DbMode {
    fn default() -> (mode: Self)
        ensures
            mode == DbMode::Fast,
    {
        DbMode::Fast
    }
}

impl DbMode {
    /// The engine's mode that this mode stands for.
    pub open spec fn engine_mode_spec(self) -> sled::Mode {
        match self {
            DbMode::LowSpace => sled::Mode::LowSpace,
            DbMode::Fast => sled::Mode::HighThroughput,
        }
    }

    /// The engine's mode that this mode stands for.
    #[verifier::when_used_as_spec(engine_mode_spec)]
    pub fn engine_mode(self) -> (mode: sled::Mode)
        ensures
            mode == self.engine_mode_spec(),
    {
        match self {
            DbMode::LowSpace => sled::Mode::LowSpace,
            DbMode::Fast => sled::Mode::HighThroughput,
        }
    }
}

impl DbOpts {
    /// The engine settings that these options stand for. A page cache size
    /// or a compression factor that is not set leaves the engine's default in
    /// place; a compression factor also switches compression on; a mode that
    /// is not set stands for the default mode. What the options do not name
    /// keeps the engine's default.
    pub open spec fn settings(&self) -> ConfigSettings {
        let defaults = default_settings(self.path@);
        ConfigSettings {
            path: self.path@,
            cache_capacity: match self.system_page_cache {
                Some(cache) => cache,
                None => defaults.cache_capacity,
            },
            use_compression: self.compression_factor is Some,
            compression_factor: match self.compression_factor {
                Some(factor) => factor,
                None => defaults.compression_factor,
            },
            mode: match self.mode {
                Some(mode) => mode.engine_mode(),
                None => DbMode::Fast.engine_mode(),
            },
            print_profile_on_drop: self.debug,
            ..defaults
        }
    }

    /// Builds the engine configuration for these options.
    pub fn engine_config(&self) -> (config: sled::Config)
        ensures
            config_settings(config) == self.settings(),
    {
        let mut config = new_config(self.path.as_str());
        if let Some(cache) = self.system_page_cache {
            config = with_cache_capacity(config, cache);
        }
        if let Some(compression) = self.compression_factor {
            config = with_compression(config, true);
            config = with_compression_factor(config, compression);
        }
        let mode = match self.mode {
            Some(mode) => mode,
            None => DbMode::default(),
        };
        config = with_mode(config, mode.engine_mode());
        if self.debug {
            config = with_profile_on_drop(config, true);
        }
        config
    }
}

impl Default for DbOpts {
    fn default() -> (opts: Self)
        ensures
            opts.path@ == "test_infos.db"@,
            opts.system_page_cache is None,
            opts.compression_factor is None,
            opts.mode is None,
            !opts.debug,
    {
        DbOpts {
            path: "test_infos.db".to_string(),
            system_page_cache: None,
            compression_factor: None,
            mode: None,
            debug: false,
        }
    }
}

} // verus!
