//! The launcher's settings: their defaults, their repair, and what reading the
//! configuration file leads to.

use vstd::prelude::*;
use crate::threshold::{is_positive_finite, DEFAULT_IDLE_READ_THRESHOLD_BITS};

verus! {

/// The platform the launcher runs on; it decides the default process names
/// and the command that opens a `steam://` URL.
#[derive(Clone, Copy, Debug, PartialEq, Eq, Structural)]
pub enum Platform {
    Windows,
    Linux,
    MacOs,
}

/// The launcher's settings.
#[derive(Clone, Debug, PartialEq)]
pub struct Settings {
    /// Steam application id of the game, launched through the
    /// `steam://rungameid/<id>` protocol handler.
    pub steam_app_id: u32,
    /// Names matched (by substring) against running processes to detect and
    /// stop the game.
    pub process_names: Vec<String>,
    /// Read throughput, in MB/s, below which the game counts as loaded, held as
    /// the bit pattern of the configured IEEE-754 double.
    pub idle_read_threshold_mb_s_bits: u64,
}

/// What a [`Settings`] value holds, with its names as character sequences.
pub struct SettingsView {
    pub steam_app_id: u32,
    pub process_names: Seq<Seq<char>>,
    pub idle_read_threshold_mb_s_bits: u64,
}

impl View for Settings {
    type V = SettingsView;

    open spec fn view(&self) -> SettingsView {
        SettingsView {
            steam_app_id: self.steam_app_id,
            process_names: self.process_names@.map_values(|name: String| name@),
            idle_read_threshold_mb_s_bits: self.idle_read_threshold_mb_s_bits,
        }
    }
}

/// Steam's application id of Garry's Mod, the same on every platform.
pub const DEFAULT_STEAM_APP_ID: u32 = 4000;

/// The process names the game runs under on `platform`: `gmod.exe` on
/// Windows; `hl2_linux` (default 32-bit branch) and `gmod` (x86-64 branch)
/// on Linux; `hl2_osx` on macOS.
pub open spec fn default_process_names(platform: Platform) -> Seq<Seq<char>> {
    match platform {
        Platform::Windows => seq!["gmod.exe"@],
        Platform::Linux => seq!["hl2_linux"@, "gmod"@],
        Platform::MacOs => seq!["hl2_osx"@],
    }
}

/// The settings written when there is no usable configuration file.
pub open spec fn default_settings(platform: Platform) -> SettingsView {
    SettingsView {
        steam_app_id: DEFAULT_STEAM_APP_ID,
        process_names: default_process_names(platform),
        idle_read_threshold_mb_s_bits: DEFAULT_IDLE_READ_THRESHOLD_BITS,
    }
}

/// The threshold kept by [`Settings::normalize`]: a positive finite value
/// stays, anything else (zero, negative, infinite, NaN) becomes the default.
pub open spec fn normalized_threshold(bits: u64) -> u64 {
    if is_positive_finite(bits) {
        bits
    } else {
        DEFAULT_IDLE_READ_THRESHOLD_BITS
    }
}

/// `settings` with a nonsensical threshold replaced by the default.
pub open spec fn normalized(settings: SettingsView) -> SettingsView {
    SettingsView {
        idle_read_threshold_mb_s_bits: normalized_threshold(settings.idle_read_threshold_mb_s_bits),
        ..settings
    }
}

/// The default idle read threshold, 10.0 MB/s, as the bits of the double.
pub fn default_idle_read_threshold() -> (bits: u64)
    ensures
        bits == DEFAULT_IDLE_READ_THRESHOLD_BITS,
{
    DEFAULT_IDLE_READ_THRESHOLD_BITS
}

/// What reading the configuration file produced.
pub enum LoadedConfig {
    /// There is no configuration file.
    Missing,
    /// The file exists but does not parse as settings.
    Invalid,
    /// The file parsed into these settings.
    Parsed(Settings),
}

/// What to do with the result of reading the configuration file.
pub enum ConfigPlan {
    /// Use these settings.
    Use(Settings),
    /// Write these defaults to the configuration file and use them, after
    /// moving an unparsable file aside as a backup when `back_up_invalid`.
    Reset { defaults: Settings, back_up_invalid: bool },
}

fn name(s: &str) -> (owned: String)
    ensures
        owned@ == s@,
{
    s.to_owned()
}

impl Settings {
    /// The default settings on `platform`: app 4000, the platform's process
    /// names, and a threshold of 10.0 MB/s.
    pub fn default_for(platform: Platform) -> (settings: Settings)
        ensures
            settings@ == default_settings(platform),
            settings.steam_app_id == 4000,
            settings.idle_read_threshold_mb_s_bits == 0x4024_0000_0000_0000u64,
            platform == Platform::Linux ==> settings@.process_names == seq!["hl2_linux"@, "gmod"@],
            platform == Platform::Windows ==> settings@.process_names == seq!["gmod.exe"@],
            platform == Platform::MacOs ==> settings@.process_names == seq!["hl2_osx"@],
    {
        let mut names: Vec<String> = Vec::new();
        match platform {
            Platform::Windows => {
                names.push(name("gmod.exe"));
            },
            Platform::Linux => {
                names.push(name("hl2_linux"));
                names.push(name("gmod"));
            },
            Platform::MacOs => {
                names.push(name("hl2_osx"));
            },
        }
        let settings = Settings {
            steam_app_id: DEFAULT_STEAM_APP_ID,
            process_names: names,
            idle_read_threshold_mb_s_bits: default_idle_read_threshold(),
        };
        assert(settings@.process_names =~= default_process_names(platform));
        settings
    }

    /// Repairs a threshold that parses but makes no sense: one that is not a
    /// positive finite number of MB/s is replaced by the default. Nothing else
    /// changes.
    pub fn normalize(&mut self)
        ensures
            final(self)@ == normalized(old(self)@),
            final(self).steam_app_id == old(self).steam_app_id,
            final(self).process_names@ == old(self).process_names@,
            is_positive_finite(old(self).idle_read_threshold_mb_s_bits)
                ==> final(self).idle_read_threshold_mb_s_bits == old(self).idle_read_threshold_mb_s_bits,
            !is_positive_finite(old(self).idle_read_threshold_mb_s_bits)
                ==> final(self).idle_read_threshold_mb_s_bits == DEFAULT_IDLE_READ_THRESHOLD_BITS,
    {
        let bits = self.idle_read_threshold_mb_s_bits;
        if !(0 < bits && bits < crate::threshold::POSITIVE_INFINITY_BITS) {
            self.idle_read_threshold_mb_s_bits = default_idle_read_threshold();
        }
    }

    /// Decides what reading the configuration file leads to: parsed settings
    /// are used after [`Settings::normalize`]; a missing file is replaced by the
    /// defaults; an unparsable one is backed up, then replaced by the defaults,
    /// so that a stale configuration heals itself instead of stopping startup.
    pub fn resolve_config(loaded: LoadedConfig, platform: Platform) -> (plan: ConfigPlan)
        ensures
            match loaded {
                LoadedConfig::Parsed(settings) => plan matches ConfigPlan::Use(used) && used@
                    == normalized(settings@),
                LoadedConfig::Missing => plan matches ConfigPlan::Reset {
                    defaults,
                    back_up_invalid,
                } && defaults@ == default_settings(platform) && !back_up_invalid,
                LoadedConfig::Invalid => plan matches ConfigPlan::Reset {
                    defaults,
                    back_up_invalid,
                } && defaults@ == default_settings(platform) && back_up_invalid,
            },
    {
        match loaded {
            LoadedConfig::Parsed(settings) => {
                let mut settings = settings;
                settings.normalize();
                ConfigPlan::Use(settings)
            },
            LoadedConfig::Missing => ConfigPlan::Reset {
                defaults: Settings::default_for(platform),
                back_up_invalid: false,
            },
            LoadedConfig::Invalid => ConfigPlan::Reset {
                defaults: Settings::default_for(platform),
                back_up_invalid: true,
            },
        }
    }
}

/// Normalizing settings leaves a positive finite threshold, and normalizing
/// twice is the same as normalizing once.
pub proof fn lemma_normalize_idempotent(settings: SettingsView)
    ensures
        is_positive_finite(normalized(settings).idle_read_threshold_mb_s_bits),
        normalized(normalized(settings)) == normalized(settings),
        is_positive_finite(settings.idle_read_threshold_mb_s_bits) ==> normalized(settings)
            == settings,
{
}

/// A threshold that is not a positive finite number of MB/s is replaced by
/// the default 10.0, whatever it was: zero of either sign, any negative
/// number (sign bit set), infinity or NaN. A positive finite one is kept as
/// it is.
pub proof fn lemma_bad_threshold_becomes_default(bits: u64)
    ensures
        !is_positive_finite(bits) ==> normalized_threshold(bits) == DEFAULT_IDLE_READ_THRESHOLD_BITS,
        is_positive_finite(bits) ==> normalized_threshold(bits) == bits,
        bits == 0 ==> normalized_threshold(bits) == 0x4024_0000_0000_0000u64,
        bits >= 0x7FF0_0000_0000_0000u64 ==> normalized_threshold(bits)
            == 0x4024_0000_0000_0000u64,
        0 < bits < 0x7FF0_0000_0000_0000u64 ==> normalized_threshold(bits) == bits,
{
}

/// The defaults come back unchanged when read again: after a missing or
/// unparsable file is replaced by the defaults, reading those defaults uses
/// them as they are.
pub proof fn lemma_defaults_survive_reload(platform: Platform)
    ensures
        normalized(default_settings(platform)) == default_settings(platform),
{
}

} // verus!
