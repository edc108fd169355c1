//! The in-memory configuration: general settings and the keymap. Reading
//! and parsing the configuration file is the program shell's work; what it
//! hands over is completed here with the built-in defaults.

use vstd::prelude::*;

use crate::keymap::default_blame_map;
use crate::keymap::default_diff_map;
use crate::keymap::default_global_map;
use crate::keymap::default_help_map;
use crate::keymap::KeymapConfig;

verus! {

/// The default name of the external diff-formatting program.
pub fn default_formatter() -> (r: String)
    ensures
        r@ == "delta"@,
{
    String::from_str("delta")
}

/// General settings: which external program formats diffs.
#[derive(Debug, Clone)]
pub struct GeneralConfig {
    pub diff_formatter: String,
}

impl Default for GeneralConfig {
    fn default() -> (r: Self)
        ensures
            r.diff_formatter@ == "delta"@,
    {
        GeneralConfig { diff_formatter: default_formatter() }
    }
}

/// The configuration value threaded into the navigator at startup:
/// read-only from the core's perspective.
#[derive(Debug, Clone)]
pub struct AppConfig {
    pub general: GeneralConfig,
    pub keymap: KeymapConfig,
}

impl Default for AppConfig {
    fn default() -> (r: Self)
        ensures
            r.general.diff_formatter@ == "delta"@,
            r.keymap.wf(),
            r.keymap.global_map() == default_global_map(),
            r.keymap.blame_map() == default_blame_map(),
            r.keymap.diff_map() == default_diff_map(),
            r.keymap.help_map() == default_help_map(),
    {
        AppConfig { general: GeneralConfig::default(), keymap: KeymapConfig::with_defaults() }
    }
}

/// Completes a configuration read from disk.
pub struct ConfigLoader;

impl ConfigLoader {
    /// Lays the built-in defaults under a loaded configuration: every
    /// binding the file resolves is kept, everything it leaves unresolved
    /// falls back to the default.
    pub fn finish(config: AppConfig) -> (r: AppConfig)
        requires
            config.keymap.wf(),
        ensures
            r.keymap.wf(),
            r.keymap.global_map() == default_global_map().union_prefer_right(
                config.keymap.global_map(),
            ),
            r.keymap.blame_map() == default_blame_map().union_prefer_right(
                config.keymap.blame_map(),
            ),
            r.keymap.diff_map() == default_diff_map().union_prefer_right(config.keymap.diff_map()),
            r.keymap.help_map() == default_help_map().union_prefer_right(config.keymap.help_map()),
            r.general == config.general,
    {
        let mut config = config;
        config.keymap.merge_defaults();
        config
    }
}

} // verus!
