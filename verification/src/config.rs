use vstd::prelude::*;

verus! {

/// `std::io::Error`, carried as an opaque value.
#[verifier::external_type_specification]
#[verifier::external_body]
pub struct ExIoError(std::io::Error);

/// `toml::de::Error`, carried as an opaque value.
#[verifier::external_type_specification]
#[verifier::external_body]
pub struct ExTomlDeError(toml::de::Error);

/// Why a configuration file could not be loaded.
#[derive(Debug)]
pub enum ConfigError {
    /// The file could not be read.
    Io(std::io::Error),
    /// The file is not valid TOML for a configuration.
    Parse(toml::de::Error),
}

impl From<std::io::Error> for ConfigError {
    fn from(e: std::io::Error) -> (r: Self) {
        ConfigError::Io(e)
    }
}

impl vstd::std_specs::convert::FromSpecImpl<std::io::Error> for ConfigError {
    open spec fn obeys_from_spec() -> bool {
        true
    }

    open spec fn from_spec(e: std::io::Error) -> Self {
        ConfigError::Io(e)
    }
}

impl From<toml::de::Error> for ConfigError {
    fn from(e: toml::de::Error) -> (r: Self) {
        ConfigError::Parse(e)
    }
}

impl vstd::std_specs::convert::FromSpecImpl<toml::de::Error> for ConfigError {
    open spec fn obeys_from_spec() -> bool {
        true
    }

    open spec fn from_spec(e: toml::de::Error) -> Self {
        ConfigError::Parse(e)
    }
}

/// Smallest callout duration accepted, in milliseconds.
pub const MIN_CALLOUT_DURATION_MS: u32 = 1000;
/// Largest callout duration accepted, in milliseconds.
pub const MAX_CALLOUT_DURATION_MS: u32 = 10_000;
/// Smallest callout font size accepted, in points.
pub const MIN_FONT_SIZE_PT: u8 = 10;
/// Largest callout font size accepted, in points.
pub const MAX_FONT_SIZE_PT: u8 = 24;

/// `v` clamped into `[lo, hi]` (with `lo <= hi`).
pub open spec fn clamp_spec(v: int, lo: int, hi: int) -> int {
    if v < lo {
        lo
    } else if v > hi {
        hi
    } else {
        v
    }
}

/// Top-level configuration, as read from `config.toml`.
#[derive(Debug, Clone)]
pub struct Config {
    pub display: DisplayConfig,
    pub behavior: BehaviorConfig,
    pub autostart: AutostartConfig,
}

/// Display settings of the callout.
#[derive(Debug, Clone)]
pub struct DisplayConfig {
    /// How long (ms) the callout stays on screen before fading out. Clamped 1000–10000.
    pub callout_duration_ms: u32,
    /// Callout font size in points. Clamped 10–24.
    pub font_size_pt: u8,
}

/// Behaviour switches of the daemon.
#[derive(Debug, Clone)]
pub struct BehaviorConfig {
    /// When `true` the daemon is paused and emits no callouts.
    pub paused: bool,
    /// Executable names of apps that should never trigger callouts.
    pub excluded_apps: Vec<String>,
}

/// Login/autostart registration.
#[derive(Debug, Clone)]
pub struct AutostartConfig {
    /// Whether to register a login/autostart entry with the OS.
    pub enabled: bool,
}

impl Default for DisplayConfig {
    fn default() -> (d: Self)
        ensures
            d.callout_duration_ms == 3000,
            d.font_size_pt == 13,
    {
        DisplayConfig { callout_duration_ms: 3000, font_size_pt: 13 }
    }
}

impl Default for BehaviorConfig {
    fn default() -> (b: Self)
        ensures
            !b.paused,
            b.excluded_apps@.len() == 0,
    {
        BehaviorConfig { paused: false, excluded_apps: Vec::new() }
    }
}

impl Default for AutostartConfig {
    fn default() -> (a: Self)
        ensures
            a.enabled,
    {
        AutostartConfig { enabled: true }
    }
}

impl Default for Config {
    fn default() -> (c: Self)
        ensures
            c.display.callout_duration_ms == 3000,
            c.display.font_size_pt == 13,
            !c.behavior.paused,
            c.behavior.excluded_apps@.len() == 0,
            c.autostart.enabled,
    {
        Config {
            display: DisplayConfig::default(),
            behavior: BehaviorConfig::default(),
            autostart: AutostartConfig::default(),
        }
    }
}

impl Config {
    /// Every numeric field lies in its valid range.
    pub open spec fn is_valid(&self) -> bool {
        &&& MIN_CALLOUT_DURATION_MS <= self.display.callout_duration_ms <= MAX_CALLOUT_DURATION_MS
        &&& MIN_FONT_SIZE_PT <= self.display.font_size_pt <= MAX_FONT_SIZE_PT
    }

    /// The configuration that `validate` makes of `self`: the numeric fields
    /// clamped, everything else kept.
    pub open spec fn validated(self) -> Config {
        Config {
            display: DisplayConfig {
                callout_duration_ms: clamp_spec(
                    self.display.callout_duration_ms as int,
                    MIN_CALLOUT_DURATION_MS as int,
                    MAX_CALLOUT_DURATION_MS as int,
                ) as u32,
                font_size_pt: clamp_spec(
                    self.display.font_size_pt as int,
                    MIN_FONT_SIZE_PT as int,
                    MAX_FONT_SIZE_PT as int,
                ) as u8,
            },
            behavior: self.behavior,
            autostart: self.autostart,
        }
    }

    /// Clamp all numeric fields to their valid ranges.
    pub fn validate(&mut self)
        ensures
            *final(self) == old(self).validated(),
            final(self).is_valid(),
    {
        if self.display.callout_duration_ms < MIN_CALLOUT_DURATION_MS {
            self.display.callout_duration_ms = MIN_CALLOUT_DURATION_MS;
        } else if self.display.callout_duration_ms > MAX_CALLOUT_DURATION_MS {
            self.display.callout_duration_ms = MAX_CALLOUT_DURATION_MS;
        }
        if self.display.font_size_pt < MIN_FONT_SIZE_PT {
            self.display.font_size_pt = MIN_FONT_SIZE_PT;
        } else if self.display.font_size_pt > MAX_FONT_SIZE_PT {
            self.display.font_size_pt = MAX_FONT_SIZE_PT;
        }
    }
}

/// Validation clamps each numeric field: a callout duration below 1000 ms
/// becomes 1000 ms, one above 10000 ms becomes 10000 ms, one in between is
/// kept; a font size below 10 pt becomes 10 pt, one above 24 pt becomes
/// 24 pt, one in between is kept; the other settings are kept.
pub proof fn lemma_validate_clamps(c: Config)
    ensures
        c.display.callout_duration_ms < 1000 ==> c.validated().display.callout_duration_ms == 1000,
        c.display.callout_duration_ms > 10000 ==> c.validated().display.callout_duration_ms == 10000,
        1000 <= c.display.callout_duration_ms <= 10000 ==> c.validated().display.callout_duration_ms
            == c.display.callout_duration_ms,
        c.display.font_size_pt < 10 ==> c.validated().display.font_size_pt == 10,
        c.display.font_size_pt > 24 ==> c.validated().display.font_size_pt == 24,
        10 <= c.display.font_size_pt <= 24 ==> c.validated().display.font_size_pt == c.display.font_size_pt,
        c.validated().behavior == c.behavior,
        c.validated().autostart == c.autostart,
{
}

/// Validation is monotone in each numeric field: a longer duration or a
/// larger font never validates to a shorter or smaller one.
pub proof fn lemma_validate_monotone(a: Config, b: Config)
    ensures
        a.display.callout_duration_ms <= b.display.callout_duration_ms ==> a.validated().display.callout_duration_ms
            <= b.validated().display.callout_duration_ms,
        a.display.font_size_pt <= b.display.font_size_pt ==> a.validated().display.font_size_pt
            <= b.validated().display.font_size_pt,
{
}

/// Validating twice is the same as validating once.
pub proof fn lemma_validate_idempotent(c: Config)
    ensures
        c.validated().validated() == c.validated(),
{
}

/// A configuration whose values already lie in range is left unchanged.
pub proof fn lemma_validate_keeps_valid(c: Config)
    requires
        c.is_valid(),
    ensures
        c.validated() == c,
{
}

} // verus!
