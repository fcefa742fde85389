//! The configuration model: provider selection, display, notification and
//! raw-output settings, with their defaults.
//!
//! Coordinates are held as their decimal text; the application keeps the
//! floating-point values and converts.
use vstd::prelude::*;
use crate::text::owned;

verus! {

broadcast use vstd::string::group_string_axioms;

/// The salatmv island used when nothing else is configured.
pub const DEFAULT_MV_ISLAND_KEY: &'static str = "K. Male'";

/// Calculation method for the prayer-time calculator.
#[derive(Debug, Default, Clone, Copy, PartialEq, Eq, Structural)]
pub enum Method {
    #[default]
    MuslimWorldLeague,
    Egyptian,
    Karachi,
    UmmAlQura,
    Dubai,
    MoonsightingCommittee,
    NorthAmerica,
    Kuwait,
    Qatar,
    Singapore,
    Tehran,
    Turkey,
}

/// School of jurisprudence used for the Asr shadow ratio.
#[derive(Debug, Default, Clone, Copy, PartialEq, Eq, Structural)]
pub enum Madhab {
    #[default]
    Shafi,
    Hanafi,
}

/// Which source produces the prayer times.
#[derive(Debug, Default, Clone, Copy, PartialEq, Eq, Structural)]
pub enum ProviderKind {
    SalatMv,
    #[default]
    Calculation,
}

impl ProviderKind {
    /// The name shown in the settings editor.
    pub fn label(self) -> (s: &'static str)
        ensures
            s@ == provider_label(self),
    {
        match self {
            ProviderKind::SalatMv => "Salat MV",
            ProviderKind::Calculation => "Calculation",
        }
    }
}

pub open spec fn provider_label(k: ProviderKind) -> Seq<char> {
    match k {
        ProviderKind::SalatMv => "Salat MV"@,
        ProviderKind::Calculation => "Calculation"@,
    }
}

#[derive(Debug, Default, Clone, Copy, PartialEq, Eq, Structural)]
pub enum UIMode {
    #[default]
    Normal,
    Fancy,
    Text,
}

/// How a prayer time is rendered.
#[derive(Debug, Default, Clone, Copy, PartialEq, Eq, Structural)]
pub enum TimeFormat {
    #[default]
    Twelve,
    TwentyFour,
    Minutes,
}

/// How the current/next prayer is marked in the menu.
#[derive(Debug, Default, Clone, Copy, PartialEq, Eq, Structural)]
pub enum TimeIndicator {
    Empty,
    Current,
    #[default]
    Inbetween,
    Next,
}

/// Which part of the location the menu shows.
#[derive(Debug, Default, Clone, Copy, PartialEq, Eq, Structural)]
pub enum LocationDisplay {
    #[default]
    Hide,
    Country,
    City,
    CityCountry,
}

impl LocationDisplay {
    /// The name shown in the settings editor.
    pub fn name(self) -> (s: &'static str)
        ensures
            s@ == location_display_name(self),
    {
        match self {
            LocationDisplay::Hide => "Hide",
            LocationDisplay::Country => "Country",
            LocationDisplay::City => "City",
            LocationDisplay::CityCountry => "City, Country",
        }
    }
}

pub open spec fn location_display_name(l: LocationDisplay) -> Seq<char> {
    match l {
        LocationDisplay::Hide => "Hide"@,
        LocationDisplay::Country => "Country"@,
        LocationDisplay::City => "City"@,
        LocationDisplay::CityCountry => "City, Country"@,
    }
}

/// Shape of the `--output` text.
#[derive(Debug, Default, Clone, Copy, PartialEq, Eq, Structural)]
pub enum RawOutputMode {
    Array,
    Custom,
    #[default]
    PrettyJson,
    Json,
    RawData,
    TOML,
}

/// Settings of the calculation provider (its coordinates are a section of
/// their own, `Config::coordinates`).
#[derive(Debug, Clone)]
pub struct CalculationConfig {
    pub name: String,
    pub location: String,
    pub method: Method,
    pub madhab: Madhab,
}

impl Default for CalculationConfig {
    fn default() -> (c: Self)
        ensures
            c.name@ == "Default"@,
            c.location@ == "Kaaba"@,
            c.method == Method::MuslimWorldLeague,
            c.madhab == Madhab::Shafi,
    {
        CalculationConfig {
            name: owned("Default"),
            location: owned("Kaaba"),
            method: Method::MuslimWorldLeague,
            madhab: Madhab::Shafi,
        }
    }
}

/// Coordinates of the calculation provider, each held as the decimal text
/// that its floating-point value displays as (the application keeps the
/// numbers and checks every edit before it lands here).
#[derive(Debug, Clone)]
pub struct Coords {
    pub latitude: String,
    pub longitude: String,
}

impl Default for Coords {
    /// Latitude and longitude 0 (the coordinates a configuration holds by
    /// default are the Kaaba's, set by `Config::default`).
    fn default() -> (c: Self)
        ensures
            c.latitude@ == "0"@,
            c.longitude@ == "0"@,
    {
        Coords { latitude: owned("0"), longitude: owned("0") }
    }
}

/// Settings of the salatmv dataset provider.
#[derive(Debug, Clone)]
pub struct SalatMvConfig {
    /// island key, `"<atoll>. <island>"`
    pub island: String,
}

impl Default for SalatMvConfig {
    fn default() -> (c: Self)
        ensures
            c.island@ == DEFAULT_MV_ISLAND_KEY@,
    {
        SalatMvConfig { island: owned(DEFAULT_MV_ISLAND_KEY) }
    }
}

#[derive(Debug, Clone)]
pub struct Display {
    pub ui_mode: UIMode,
    pub format: TimeFormat,
    pub indicator: TimeIndicator,
    pub fullscreen: bool,
    pub show_raw_output: bool,
    pub seconds: bool,
    pub location: LocationDisplay,
    pub coordinates: bool,
}

impl Default for Display {
    fn default() -> (d: Self)
        ensures
            d.ui_mode == UIMode::Normal,
            d.format == TimeFormat::Twelve,
            d.indicator == TimeIndicator::Inbetween,
            !d.fullscreen,
            !d.show_raw_output,
            d.seconds,
            d.location == LocationDisplay::Hide,
            !d.coordinates,
    {
        Display {
            ui_mode: UIMode::Normal,
            format: TimeFormat::Twelve,
            indicator: TimeIndicator::Inbetween,
            fullscreen: false,
            show_raw_output: false,
            seconds: true,
            location: LocationDisplay::Hide,
            coordinates: false,
        }
    }
}

#[derive(Debug, Clone)]
pub struct Notifications {
    pub enabled: bool,
    /// minutes added to each prayer time; negative reminds early
    pub offset: i32,
}

impl Default for Notifications {
    fn default() -> (n: Self)
        ensures
            n.enabled,
            n.offset == 0,
    {
        Notifications { enabled: true, offset: 0 }
    }
}

#[derive(Debug, Clone)]
pub struct RawOutput {
    pub mode: RawOutputMode,
    pub pool: bool,
    pub raw_separator: String,
    pub custom_string: String,
}

/// The template that `RawOutputMode::Custom` expands by default.
pub const DEFAULT_CUSTOM_STRING: &'static str = "[%fh:mp, %sh:mp, %dh:mp, %ah:mp, %mh:mp, %ih:mp]";

impl RawOutput {
    /// Replaces the separator of `RawOutputMode::RawData`.
    pub fn set_separator(&mut self, sep: &str)
        ensures
            final(self).raw_separator@ == sep@,
            final(self).mode == old(self).mode,
            final(self).pool == old(self).pool,
            final(self).custom_string == old(self).custom_string,
    {
        self.raw_separator = owned(sep);
    }
}

impl Default for RawOutput {
    fn default() -> (r: Self)
        ensures
            r.mode == RawOutputMode::PrettyJson,
            !r.pool,
            r.raw_separator@ == "\n"@,
            r.custom_string@ == DEFAULT_CUSTOM_STRING@,
    {
        RawOutput {
            mode: RawOutputMode::PrettyJson,
            pool: false,
            raw_separator: owned("\n"),
            custom_string: owned(DEFAULT_CUSTOM_STRING),
        }
    }
}

/// The whole configuration (all provider sections are kept; `provider`
/// selects the active one).
#[derive(Debug, Clone)]
pub struct Config {
    pub provider: ProviderKind,
    pub calculation: CalculationConfig,
    pub coordinates: Coords,
    pub salatmv: SalatMvConfig,
    pub display: Display,
    pub notifications: Notifications,
    pub raw_output: RawOutput,
}

/// What `Config::default` holds.
pub open spec fn is_default_config(c: Config) -> bool {
    &&& c.provider == ProviderKind::Calculation
    &&& c.calculation.name@ == "Default"@
    &&& c.calculation.location@ == "Kaaba"@
    &&& c.calculation.method == Method::MuslimWorldLeague
    &&& c.calculation.madhab == Madhab::Shafi
    &&& c.coordinates.latitude@ == "21.4225"@
    &&& c.coordinates.longitude@ == "39.8262"@
    &&& c.salatmv.island@ == DEFAULT_MV_ISLAND_KEY@
    &&& c.display.ui_mode == UIMode::Normal
    &&& c.display.format == TimeFormat::Twelve
    &&& c.display.indicator == TimeIndicator::Inbetween
    &&& !c.display.fullscreen
    &&& !c.display.show_raw_output
    &&& c.display.seconds
    &&& c.display.location == LocationDisplay::Hide
    &&& !c.display.coordinates
    &&& c.notifications.enabled
    &&& c.notifications.offset == 0
    &&& c.raw_output.mode == RawOutputMode::PrettyJson
    &&& !c.raw_output.pool
    &&& c.raw_output.raw_separator@ == "\n"@
    &&& c.raw_output.custom_string@ == DEFAULT_CUSTOM_STRING@
}

impl Default for Config {
    fn default() -> (c: Self)
        ensures
            is_default_config(c),
    {
        Config {
            provider: ProviderKind::Calculation,
            calculation: CalculationConfig::default(),
            coordinates: Coords { latitude: owned("21.4225"), longitude: owned("39.8262") },
            salatmv: SalatMvConfig::default(),
            display: Display::default(),
            notifications: Notifications::default(),
            raw_output: RawOutput::default(),
        }
    }
}

} // verus!
