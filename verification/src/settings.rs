//! The settings editor's model: sections, the fields of each section, and
//! how each field reads, cycles, toggles, steps and accepts text.
use vstd::prelude::*;
use crate::conf::{
    location_display_name, provider_label, CalculationConfig, Config, Display, LocationDisplay,
    Madhab, Method, Notifications, ProviderKind, RawOutput, RawOutputMode, TimeFormat,
    TimeIndicator, UIMode,
};
use crate::text::{
    chars_of, i64_to_string, int_digits, int_error_message, lowercase, to_lowercase, int_error_text, owned, parse_i32, parse_int,
    push_str, trim, trimmed, Strip,
};

verus! {

broadcast use vstd::string::group_string_axioms;

/// The sections of the settings editor, in order.
pub const CATEGORIES: [&'static str; 4] = ["Provider", "Display", "Notifications", "Raw Output"];

#[derive(Debug, Clone, Copy, PartialEq, Eq, Structural)]
pub enum PopupKind {
    Location,
    Island,
}

#[derive(Debug, Clone, Copy, PartialEq, Eq, Structural)]
pub enum FieldId {
    ProviderType,
    ProviderLocation,
    ProviderMethod,
    ProviderMadhab,
    ProviderLatitude,
    ProviderLongitude,
    Island,
    UiMode,
    TimeFormat,
    Indicator,
    Fullscreen,
    Seconds,
    Location,
    NotifEnabled,
    NotifOffset,
    RawMode,
    RawPool,
    RawSeparator,
    RawCustomString,
}

#[derive(Debug, Clone, Copy, PartialEq, Eq, Structural)]
pub enum FieldKind {
    Toggle,
    Cycle,
    Text { numeric: bool },
    Pick(PopupKind),
}

#[derive(Debug, Clone, Copy)]
pub struct FieldRow {
    pub id: FieldId,
    pub label: &'static str,
    pub kind: FieldKind,
}

/// How each field is edited.
pub open spec fn kind_of(id: FieldId) -> FieldKind {
    match id {
        FieldId::ProviderType => FieldKind::Cycle,
        FieldId::ProviderLocation => FieldKind::Pick(PopupKind::Location),
        FieldId::ProviderMethod => FieldKind::Cycle,
        FieldId::ProviderMadhab => FieldKind::Cycle,
        FieldId::ProviderLatitude => FieldKind::Text { numeric: true },
        FieldId::ProviderLongitude => FieldKind::Text { numeric: true },
        FieldId::Island => FieldKind::Pick(PopupKind::Island),
        FieldId::UiMode => FieldKind::Cycle,
        FieldId::TimeFormat => FieldKind::Cycle,
        FieldId::Indicator => FieldKind::Cycle,
        FieldId::Fullscreen => FieldKind::Toggle,
        FieldId::Seconds => FieldKind::Toggle,
        FieldId::Location => FieldKind::Cycle,
        FieldId::NotifEnabled => FieldKind::Toggle,
        FieldId::NotifOffset => FieldKind::Text { numeric: true },
        FieldId::RawMode => FieldKind::Cycle,
        FieldId::RawPool => FieldKind::Toggle,
        FieldId::RawSeparator => FieldKind::Text { numeric: false },
        FieldId::RawCustomString => FieldKind::Text { numeric: false },
    }
}

/// The label each field is shown with.
pub open spec fn label_of(id: FieldId) -> Seq<char> {
    match id {
        FieldId::ProviderType => "type"@,
        FieldId::ProviderLocation => "location"@,
        FieldId::ProviderMethod => "method"@,
        FieldId::ProviderMadhab => "madhab"@,
        FieldId::ProviderLatitude => "latitude"@,
        FieldId::ProviderLongitude => "longitude"@,
        FieldId::Island => "island"@,
        FieldId::UiMode => "ui mode"@,
        FieldId::TimeFormat => "time format"@,
        FieldId::Indicator => "indicator"@,
        FieldId::Fullscreen => "start fullscreen"@,
        FieldId::Seconds => "show seconds"@,
        FieldId::Location => "location"@,
        FieldId::NotifEnabled => "enabled"@,
        FieldId::NotifOffset => "offset (min)"@,
        FieldId::RawMode => "mode"@,
        FieldId::RawPool => "pool"@,
        FieldId::RawSeparator => "separator"@,
        FieldId::RawCustomString => "custom string"@,
    }
}

/// The fields of section `category`: the provider section lists the
/// provider type and then the fields of the selected provider; sections past
/// the last have no fields.
pub open spec fn section_fields(category: int, provider: ProviderKind) -> Seq<FieldId> {
    if category == 0 {
        match provider {
            ProviderKind::Calculation => seq![
                FieldId::ProviderType,
                FieldId::ProviderLocation,
                FieldId::ProviderMethod,
                FieldId::ProviderMadhab,
                FieldId::ProviderLatitude,
                FieldId::ProviderLongitude,
            ],
            ProviderKind::SalatMv => seq![FieldId::ProviderType, FieldId::Island],
        }
    } else if category == 1 {
        seq![
            FieldId::UiMode,
            FieldId::TimeFormat,
            FieldId::Indicator,
            FieldId::Fullscreen,
            FieldId::Seconds,
            FieldId::Location,
        ]
    } else if category == 2 {
        seq![FieldId::NotifEnabled, FieldId::NotifOffset]
    } else if category == 3 {
        seq![FieldId::RawMode, FieldId::RawPool, FieldId::RawSeparator, FieldId::RawCustomString]
    } else {
        Seq::empty()
    }
}

/// `rows` lists exactly the fields `ids`, each with its label and kind.
pub open spec fn rows_match(rows: Seq<FieldRow>, ids: Seq<FieldId>) -> bool {
    &&& rows.len() == ids.len()
    &&& forall|i: int|
        0 <= i < rows.len() ==> (#[trigger] rows[i]).id == ids[i] && rows[i].kind == kind_of(ids[i])
            && rows[i].label@ == label_of(ids[i])
}

fn row(id: FieldId, label: &'static str, kind: FieldKind) -> (r: FieldRow)
    requires
        label@ == label_of(id),
        kind == kind_of(id),
    ensures
        r.id == id,
        r.label@ == label_of(id),
        r.kind == kind_of(id),
{
    FieldRow { id, label, kind }
}

/// The rows of section `category` for the given configuration.
pub fn fields_for(category: usize, config: &Config) -> (rows: Vec<FieldRow>)
    ensures
        rows_match(rows@, section_fields(category as int, config.provider)),
{
    let mut rows: Vec<FieldRow> = Vec::new();
    if category == 0 {
        rows.push(row(FieldId::ProviderType, "type", FieldKind::Cycle));
        match config.provider {
            ProviderKind::Calculation => {
                rows.push(
                    row(
                        FieldId::ProviderLocation,
                        "location",
                        FieldKind::Pick(PopupKind::Location),
                    ),
                );
                rows.push(row(FieldId::ProviderMethod, "method", FieldKind::Cycle));
                rows.push(row(FieldId::ProviderMadhab, "madhab", FieldKind::Cycle));
                rows.push(
                    row(FieldId::ProviderLatitude, "latitude", FieldKind::Text { numeric: true }),
                );
                rows.push(
                    row(FieldId::ProviderLongitude, "longitude", FieldKind::Text { numeric: true }),
                );
            },
            ProviderKind::SalatMv => {
                rows.push(row(FieldId::Island, "island", FieldKind::Pick(PopupKind::Island)));
            },
        }
    } else if category == 1 {
        rows.push(row(FieldId::UiMode, "ui mode", FieldKind::Cycle));
        rows.push(row(FieldId::TimeFormat, "time format", FieldKind::Cycle));
        rows.push(row(FieldId::Indicator, "indicator", FieldKind::Cycle));
        rows.push(row(FieldId::Fullscreen, "start fullscreen", FieldKind::Toggle));
        rows.push(row(FieldId::Seconds, "show seconds", FieldKind::Toggle));
        rows.push(row(FieldId::Location, "location", FieldKind::Cycle));
    } else if category == 2 {
        rows.push(row(FieldId::NotifEnabled, "enabled", FieldKind::Toggle));
        rows.push(row(FieldId::NotifOffset, "offset (min)", FieldKind::Text { numeric: true }));
    } else if category == 3 {
        rows.push(row(FieldId::RawMode, "mode", FieldKind::Cycle));
        rows.push(row(FieldId::RawPool, "pool", FieldKind::Toggle));
        rows.push(row(FieldId::RawSeparator, "separator", FieldKind::Text { numeric: false }));
        rows.push(
            row(FieldId::RawCustomString, "custom string", FieldKind::Text { numeric: false }),
        );
    }
    assert(rows_match(rows@, section_fields(category as int, config.provider)));
    rows
}

// ----- the value of each choice field, as an index into its options -----

pub open spec fn method_index(m: Method) -> int {
    match m {
        Method::MuslimWorldLeague => 0,
        Method::Egyptian => 1,
        Method::Karachi => 2,
        Method::UmmAlQura => 3,
        Method::Dubai => 4,
        Method::MoonsightingCommittee => 5,
        Method::NorthAmerica => 6,
        Method::Kuwait => 7,
        Method::Qatar => 8,
        Method::Singapore => 9,
        Method::Tehran => 10,
        Method::Turkey => 11,
    }
}

pub open spec fn method_at(i: int) -> Method {
    if i == 0 {
        Method::MuslimWorldLeague
    } else if i == 1 {
        Method::Egyptian
    } else if i == 2 {
        Method::Karachi
    } else if i == 3 {
        Method::UmmAlQura
    } else if i == 4 {
        Method::Dubai
    } else if i == 5 {
        Method::MoonsightingCommittee
    } else if i == 6 {
        Method::NorthAmerica
    } else if i == 7 {
        Method::Kuwait
    } else if i == 8 {
        Method::Qatar
    } else if i == 9 {
        Method::Singapore
    } else if i == 10 {
        Method::Tehran
    } else {
        Method::Turkey
    }
}

pub open spec fn madhab_index(m: Madhab) -> int {
    match m {
        Madhab::Shafi => 0,
        Madhab::Hanafi => 1,
    }
}

pub open spec fn madhab_at(i: int) -> Madhab {
    if i == 0 {
        Madhab::Shafi
    } else {
        Madhab::Hanafi
    }
}

pub open spec fn ui_mode_index(m: UIMode) -> int {
    match m {
        UIMode::Normal => 0,
        UIMode::Fancy => 1,
        UIMode::Text => 2,
    }
}

pub open spec fn ui_mode_at(i: int) -> UIMode {
    if i == 0 {
        UIMode::Normal
    } else if i == 1 {
        UIMode::Fancy
    } else {
        UIMode::Text
    }
}

pub open spec fn format_index(f: TimeFormat) -> int {
    match f {
        TimeFormat::Twelve => 0,
        TimeFormat::TwentyFour => 1,
        TimeFormat::Minutes => 2,
    }
}

pub open spec fn format_at(i: int) -> TimeFormat {
    if i == 0 {
        TimeFormat::Twelve
    } else if i == 1 {
        TimeFormat::TwentyFour
    } else {
        TimeFormat::Minutes
    }
}

pub open spec fn indicator_index(t: TimeIndicator) -> int {
    match t {
        TimeIndicator::Empty => 0,
        TimeIndicator::Current => 1,
        TimeIndicator::Inbetween => 2,
        TimeIndicator::Next => 3,
    }
}

pub open spec fn indicator_at(i: int) -> TimeIndicator {
    if i == 0 {
        TimeIndicator::Empty
    } else if i == 1 {
        TimeIndicator::Current
    } else if i == 2 {
        TimeIndicator::Inbetween
    } else {
        TimeIndicator::Next
    }
}

pub open spec fn location_index(l: LocationDisplay) -> int {
    match l {
        LocationDisplay::Hide => 0,
        LocationDisplay::Country => 1,
        LocationDisplay::City => 2,
        LocationDisplay::CityCountry => 3,
    }
}

pub open spec fn location_at(i: int) -> LocationDisplay {
    if i == 0 {
        LocationDisplay::Hide
    } else if i == 1 {
        LocationDisplay::Country
    } else if i == 2 {
        LocationDisplay::City
    } else {
        LocationDisplay::CityCountry
    }
}

pub open spec fn raw_mode_index(m: RawOutputMode) -> int {
    match m {
        RawOutputMode::Array => 0,
        RawOutputMode::Custom => 1,
        RawOutputMode::PrettyJson => 2,
        RawOutputMode::Json => 3,
        RawOutputMode::RawData => 4,
        RawOutputMode::TOML => 5,
    }
}

pub open spec fn raw_mode_at(i: int) -> RawOutputMode {
    if i == 0 {
        RawOutputMode::Array
    } else if i == 1 {
        RawOutputMode::Custom
    } else if i == 2 {
        RawOutputMode::PrettyJson
    } else if i == 3 {
        RawOutputMode::Json
    } else if i == 4 {
        RawOutputMode::RawData
    } else {
        RawOutputMode::TOML
    }
}

/// Number of options of a choice field; `None` for the other fields.
pub open spec fn options_count(id: FieldId) -> Option<int> {
    match id {
        FieldId::ProviderType => Some(2),
        FieldId::ProviderMethod => Some(12),
        FieldId::ProviderMadhab => Some(2),
        FieldId::UiMode => Some(3),
        FieldId::TimeFormat => Some(3),
        FieldId::Indicator => Some(4),
        FieldId::Location => Some(4),
        FieldId::RawMode => Some(6),
        _ => None,
    }
}

/// Position of a choice field's current value among its options.
pub open spec fn option_index(id: FieldId, c: Config) -> Option<int> {
    match id {
        FieldId::ProviderType => Some(
            match c.provider {
                ProviderKind::SalatMv => 0,
                ProviderKind::Calculation => 1,
            },
        ),
        FieldId::ProviderMethod => Some(method_index(c.calculation.method)),
        FieldId::ProviderMadhab => Some(madhab_index(c.calculation.madhab)),
        FieldId::UiMode => Some(ui_mode_index(c.display.ui_mode)),
        FieldId::TimeFormat => Some(format_index(c.display.format)),
        FieldId::Indicator => Some(indicator_index(c.display.indicator)),
        FieldId::Location => Some(location_index(c.display.location)),
        FieldId::RawMode => Some(raw_mode_index(c.raw_output.mode)),
        _ => None,
    }
}

/// `c` with choice field `id` set to its option `i` (the provider type is
/// switched elsewhere and stays).
pub open spec fn with_option(id: FieldId, c: Config, i: int) -> Config {
    match id {
        FieldId::ProviderMethod => Config {
            calculation: CalculationConfig { method: method_at(i), ..c.calculation },
            ..c
        },
        FieldId::ProviderMadhab => Config {
            calculation: CalculationConfig { madhab: madhab_at(i), ..c.calculation },
            ..c
        },
        FieldId::UiMode => Config { display: Display { ui_mode: ui_mode_at(i), ..c.display }, ..c },
        FieldId::TimeFormat => Config { display: Display { format: format_at(i), ..c.display }, ..c },
        FieldId::Indicator => Config {
            display: Display { indicator: indicator_at(i), ..c.display },
            ..c
        },
        FieldId::Location => Config {
            display: Display { location: location_at(i), ..c.display },
            ..c
        },
        FieldId::RawMode => Config {
            raw_output: RawOutput { mode: raw_mode_at(i), ..c.raw_output },
            ..c
        },
        _ => c,
    }
}

/// `c` after cycling choice field `id` by `delta` options, wrapping around
/// at both ends.
pub open spec fn cycled(id: FieldId, c: Config, delta: int) -> Config {
    match options_count(id) {
        None => c,
        Some(len) => with_option(id, c, (option_index(id, c).unwrap() + delta) % len),
    }
}

/// `c` with toggle field `id` flipped.
pub open spec fn toggled(id: FieldId, c: Config) -> Config {
    match id {
        FieldId::Fullscreen => Config {
            display: Display { fullscreen: !c.display.fullscreen, ..c.display },
            ..c
        },
        FieldId::Seconds => Config { display: Display { seconds: !c.display.seconds, ..c.display }, ..c },
        FieldId::NotifEnabled => Config {
            notifications: Notifications { enabled: !c.notifications.enabled, ..c.notifications },
            ..c
        },
        FieldId::RawPool => Config {
            raw_output: RawOutput { pool: !c.raw_output.pool, ..c.raw_output },
            ..c
        },
        _ => c,
    }
}

/// `v` limited to the range of `i32`.
pub open spec fn clamp_i32(v: int) -> i32 {
    if v < i32::MIN {
        i32::MIN
    } else if v > i32::MAX {
        i32::MAX
    } else {
        v as i32
    }
}

pub open spec fn bool_text(b: bool) -> Seq<char> {
    if b {
        "true"@
    } else {
        "false"@
    }
}

pub open spec fn method_text(m: Method) -> Seq<char> {
    match m {
        Method::MuslimWorldLeague => "MuslimWorldLeague"@,
        Method::Egyptian => "Egyptian"@,
        Method::Karachi => "Karachi"@,
        Method::UmmAlQura => "UmmAlQura"@,
        Method::Dubai => "Dubai"@,
        Method::MoonsightingCommittee => "MoonsightingCommittee"@,
        Method::NorthAmerica => "NorthAmerica"@,
        Method::Kuwait => "Kuwait"@,
        Method::Qatar => "Qatar"@,
        Method::Singapore => "Singapore"@,
        Method::Tehran => "Tehran"@,
        Method::Turkey => "Turkey"@,
    }
}

pub open spec fn madhab_text(m: Madhab) -> Seq<char> {
    match m {
        Madhab::Shafi => "Shafi"@,
        Madhab::Hanafi => "Hanafi"@,
    }
}

pub open spec fn ui_mode_text(m: UIMode) -> Seq<char> {
    match m {
        UIMode::Normal => "Normal"@,
        UIMode::Fancy => "Fancy"@,
        UIMode::Text => "Text"@,
    }
}

pub open spec fn format_text(f: TimeFormat) -> Seq<char> {
    match f {
        TimeFormat::Twelve => "Twelve"@,
        TimeFormat::TwentyFour => "TwentyFour"@,
        TimeFormat::Minutes => "Minutes"@,
    }
}

pub open spec fn indicator_text(t: TimeIndicator) -> Seq<char> {
    match t {
        TimeIndicator::Empty => "Empty"@,
        TimeIndicator::Current => "Current"@,
        TimeIndicator::Inbetween => "Inbetween"@,
        TimeIndicator::Next => "Next"@,
    }
}

pub open spec fn raw_mode_text(m: RawOutputMode) -> Seq<char> {
    match m {
        RawOutputMode::Array => "Array"@,
        RawOutputMode::Custom => "Custom"@,
        RawOutputMode::PrettyJson => "PrettyJson"@,
        RawOutputMode::Json => "Json"@,
        RawOutputMode::RawData => "RawData"@,
        RawOutputMode::TOML => "TOML"@,
    }
}

/// The text a field shows for its current value.
pub open spec fn field_value(id: FieldId, c: Config) -> Seq<char> {
    match id {
        FieldId::ProviderType => provider_label(c.provider),
        FieldId::ProviderLocation => c.calculation.location@,
        FieldId::ProviderMethod => method_text(c.calculation.method),
        FieldId::ProviderMadhab => madhab_text(c.calculation.madhab),
        FieldId::ProviderLatitude => c.coordinates.latitude@,
        FieldId::ProviderLongitude => c.coordinates.longitude@,
        FieldId::Island => c.salatmv.island@,
        FieldId::UiMode => ui_mode_text(c.display.ui_mode),
        FieldId::TimeFormat => format_text(c.display.format),
        FieldId::Indicator => indicator_text(c.display.indicator),
        FieldId::Fullscreen => bool_text(c.display.fullscreen),
        FieldId::Seconds => bool_text(c.display.seconds),
        FieldId::Location => location_display_name(c.display.location),
        FieldId::NotifEnabled => bool_text(c.notifications.enabled),
        FieldId::NotifOffset => int_digits(c.notifications.offset as int),
        FieldId::RawMode => raw_mode_text(c.raw_output.mode),
        FieldId::RawPool => bool_text(c.raw_output.pool),
        FieldId::RawSeparator => c.raw_output.raw_separator@,
        FieldId::RawCustomString => c.raw_output.custom_string@,
    }
}

/// The notification offset read from `text`: the trimmed text as an `i32`.
pub open spec fn offset_read(text: Seq<char>) -> Result<int, crate::text::IntErrorKind> {
    parse_int(trimmed(text, Strip::Space), i32::MIN as int, i32::MAX as int, true)
}

/// Whether committing `text` to field `id` succeeds, or the message that
/// refuses it: location, separator and custom string take any text, the
/// offset takes text that reads as an `i32`, and no other field takes text.
pub open spec fn commit_outcome(id: FieldId, text: Seq<char>) -> Result<(), Seq<char>> {
    if is_free_text(id) {
        Ok(())
    } else if id == FieldId::NotifOffset {
        match offset_read(text) {
            Ok(_) => Ok(()),
            Err(k) => Err("invalid offset: "@ + int_error_text(k)),
        }
    } else {
        Err("field is not editable as text"@)
    }
}

/// `c2` is `c` after committing `text` to field `id`: a string field holds
/// the text, the offset holds the number read, and a refused text leaves
/// `c` as it was.
pub open spec fn config_committed(id: FieldId, c: Config, c2: Config, text: Seq<char>) -> bool {
    if is_free_text(id) {
        text_stored(id, c, c2, text)
    } else if id == FieldId::NotifOffset {
        match offset_read(text) {
            Ok(v) => c2 == Config {
                notifications: Notifications { offset: v as i32, ..c.notifications },
                ..c
            },
            Err(_) => c2 == c,
        }
    } else {
        c2 == c
    }
}

/// Whether `c2` is `c` with the string field `id` replaced by `text`.
pub open spec fn text_stored(id: FieldId, c: Config, c2: Config, text: Seq<char>) -> bool {
    match id {
        FieldId::ProviderLocation => c2 == Config {
            calculation: CalculationConfig { location: c2.calculation.location, ..c.calculation },
            ..c
        } && c2.calculation.location@ == text,
        FieldId::RawSeparator => c2 == Config {
            raw_output: RawOutput { raw_separator: c2.raw_output.raw_separator, ..c.raw_output },
            ..c
        } && c2.raw_output.raw_separator@ == text,
        FieldId::RawCustomString => c2 == Config {
            raw_output: RawOutput { custom_string: c2.raw_output.custom_string, ..c.raw_output },
            ..c
        } && c2.raw_output.custom_string@ == text,
        _ => false,
    }
}

/// Whether the field is taken as free text (location, separator, custom
/// string).
pub open spec fn is_free_text(id: FieldId) -> bool {
    id == FieldId::ProviderLocation || id == FieldId::RawSeparator || id
        == FieldId::RawCustomString
}

impl FieldId {
    /// Fields that belong to the provider section (changing one reloads the
    /// prayer-time provider).
    pub fn is_provider(self) -> (b: bool)
        ensures
            b == (self == FieldId::ProviderType || self == FieldId::ProviderLocation || self
                == FieldId::ProviderMethod || self == FieldId::ProviderMadhab || self
                == FieldId::ProviderLatitude || self == FieldId::ProviderLongitude || self
                == FieldId::Island),
    {
        match self {
            FieldId::ProviderType | FieldId::ProviderLocation | FieldId::ProviderMethod
            | FieldId::ProviderMadhab | FieldId::ProviderLatitude | FieldId::ProviderLongitude
            | FieldId::Island => true,
            _ => false,
        }
    }

    /// Fields shown masked until selected (the coordinates).
    pub fn censored(self) -> (b: bool)
        ensures
            b == (self == FieldId::ProviderLatitude || self == FieldId::ProviderLongitude),
    {
        match self {
            FieldId::ProviderLatitude | FieldId::ProviderLongitude => true,
            _ => false,
        }
    }

    /// Fields whose value left/right steps (the notification offset).
    pub fn steppable(self) -> (b: bool)
        ensures
            b == (self == FieldId::NotifOffset),
    {
        match self {
            FieldId::NotifOffset => true,
            _ => false,
        }
    }

    /// Adds `delta` to the notification offset, saturating at the range of
    /// `i32`; other fields are left alone.
    pub fn step(self, config: &mut Config, delta: isize)
        requires
            self == FieldId::NotifOffset ==> isize::MIN <= old(config).notifications.offset + delta
                <= isize::MAX,
        ensures
            self == FieldId::NotifOffset ==> *final(config) == (Config {
                notifications: (Notifications {
                    offset: clamp_i32(old(config).notifications.offset + delta),
                    ..old(config).notifications
                }),
                ..*old(config)
            }),
            self != FieldId::NotifOffset ==> *final(config) == *old(config),
    {
        if self == FieldId::NotifOffset {
            let next = config.notifications.offset as isize + delta;
            let clamped: i32 = if next < i32::MIN as isize {
                i32::MIN
            } else if next > i32::MAX as isize {
                i32::MAX
            } else {
                next as i32
            };
            config.notifications.offset = clamped;
        }
    }

    /// The text the field shows for its current value.
    pub fn value_str(self, config: &Config) -> (s: String)
        ensures
            s@ == field_value(self, *config),
    {
        match self {
            FieldId::ProviderType => owned(config.provider.label()),
            FieldId::ProviderLocation => config.calculation.location.clone(),
            FieldId::ProviderMethod => owned(method_name(&config.calculation.method)),
            FieldId::ProviderMadhab => owned(
                match config.calculation.madhab {
                    Madhab::Shafi => "Shafi",
                    Madhab::Hanafi => "Hanafi",
                },
            ),
            FieldId::ProviderLatitude => config.coordinates.latitude.clone(),
            FieldId::ProviderLongitude => config.coordinates.longitude.clone(),
            FieldId::Island => config.salatmv.island.clone(),
            FieldId::UiMode => owned(
                match config.display.ui_mode {
                    UIMode::Normal => "Normal",
                    UIMode::Fancy => "Fancy",
                    UIMode::Text => "Text",
                },
            ),
            FieldId::TimeFormat => owned(
                match config.display.format {
                    TimeFormat::Twelve => "Twelve",
                    TimeFormat::TwentyFour => "TwentyFour",
                    TimeFormat::Minutes => "Minutes",
                },
            ),
            FieldId::Indicator => owned(
                match config.display.indicator {
                    TimeIndicator::Empty => "Empty",
                    TimeIndicator::Current => "Current",
                    TimeIndicator::Inbetween => "Inbetween",
                    TimeIndicator::Next => "Next",
                },
            ),
            FieldId::Fullscreen => owned(bool_str(config.display.fullscreen)),
            FieldId::Seconds => owned(bool_str(config.display.seconds)),
            FieldId::Location => owned(config.display.location.name()),
            FieldId::NotifEnabled => owned(bool_str(config.notifications.enabled)),
            FieldId::NotifOffset => i64_to_string(config.notifications.offset as i64),
            FieldId::RawMode => owned(
                match config.raw_output.mode {
                    RawOutputMode::Array => "Array",
                    RawOutputMode::Custom => "Custom",
                    RawOutputMode::PrettyJson => "PrettyJson",
                    RawOutputMode::Json => "Json",
                    RawOutputMode::RawData => "RawData",
                    RawOutputMode::TOML => "TOML",
                },
            ),
            FieldId::RawPool => owned(bool_str(config.raw_output.pool)),
            FieldId::RawSeparator => config.raw_output.raw_separator.clone(),
            FieldId::RawCustomString => config.raw_output.custom_string.clone(),
        }
    }

    /// Number of options of a choice field; `None` for the other fields.
    pub fn options_len(self) -> (n: Option<usize>)
        ensures
            n matches Some(k) ==> options_count(self) == Some(k as int),
            n is None ==> options_count(self) is None,
    {
        match self {
            FieldId::ProviderType => Some(2),
            FieldId::ProviderMethod => Some(12),
            FieldId::ProviderMadhab => Some(2),
            FieldId::UiMode => Some(3),
            FieldId::TimeFormat => Some(3),
            FieldId::Indicator => Some(4),
            FieldId::Location => Some(4),
            FieldId::RawMode => Some(6),
            _ => None,
        }
    }

    fn current_index(self, config: &Config) -> (i: Option<usize>)
        ensures
            i matches Some(k) ==> option_index(self, *config) == Some(k as int) && k < 12,
            i is None ==> option_index(self, *config) is None,
    {
        match self {
            FieldId::ProviderType => Some(
                match config.provider {
                    ProviderKind::SalatMv => 0,
                    ProviderKind::Calculation => 1,
                },
            ),
            FieldId::ProviderMethod => Some(
                match config.calculation.method {
                    Method::MuslimWorldLeague => 0,
                    Method::Egyptian => 1,
                    Method::Karachi => 2,
                    Method::UmmAlQura => 3,
                    Method::Dubai => 4,
                    Method::MoonsightingCommittee => 5,
                    Method::NorthAmerica => 6,
                    Method::Kuwait => 7,
                    Method::Qatar => 8,
                    Method::Singapore => 9,
                    Method::Tehran => 10,
                    Method::Turkey => 11,
                },
            ),
            FieldId::ProviderMadhab => Some(
                match config.calculation.madhab {
                    Madhab::Shafi => 0,
                    Madhab::Hanafi => 1,
                },
            ),
            FieldId::UiMode => Some(
                match config.display.ui_mode {
                    UIMode::Normal => 0,
                    UIMode::Fancy => 1,
                    UIMode::Text => 2,
                },
            ),
            FieldId::TimeFormat => Some(
                match config.display.format {
                    TimeFormat::Twelve => 0,
                    TimeFormat::TwentyFour => 1,
                    TimeFormat::Minutes => 2,
                },
            ),
            FieldId::Indicator => Some(
                match config.display.indicator {
                    TimeIndicator::Empty => 0,
                    TimeIndicator::Current => 1,
                    TimeIndicator::Inbetween => 2,
                    TimeIndicator::Next => 3,
                },
            ),
            FieldId::Location => Some(
                match config.display.location {
                    LocationDisplay::Hide => 0,
                    LocationDisplay::Country => 1,
                    LocationDisplay::City => 2,
                    LocationDisplay::CityCountry => 3,
                },
            ),
            FieldId::RawMode => Some(
                match config.raw_output.mode {
                    RawOutputMode::Array => 0,
                    RawOutputMode::Custom => 1,
                    RawOutputMode::PrettyJson => 2,
                    RawOutputMode::Json => 3,
                    RawOutputMode::RawData => 4,
                    RawOutputMode::TOML => 5,
                },
            ),
            _ => None,
        }
    }

    /// Moves a choice field `delta` options on, wrapping around (see
    /// `cycled`).
    #[verifier::rlimit(30)]
    pub fn cycle(self, config: &mut Config, delta: isize)
        requires
            option_index(self, *old(config)) matches Some(i) ==> i + delta <= isize::MAX,
        ensures
            *final(config) == cycled(self, *old(config), delta as int),
    {
        let len = match self.options_len() {
            Some(len) => len,
            None => return ,
        };
        let idx = match self.current_index(config) {
            Some(i) => i,
            None => 0,
        };
        let next = wrap_index(idx, delta, len);
        match self {
            FieldId::ProviderMethod => {
                config.calculation.method = method_variant(next);
            },
            FieldId::ProviderMadhab => {
                config.calculation.madhab = if next == 0 {
                    Madhab::Shafi
                } else {
                    Madhab::Hanafi
                };
            },
            FieldId::UiMode => {
                config.display.ui_mode = if next == 0 {
                    UIMode::Normal
                } else if next == 1 {
                    UIMode::Fancy
                } else {
                    UIMode::Text
                };
            },
            FieldId::TimeFormat => {
                config.display.format = if next == 0 {
                    TimeFormat::Twelve
                } else if next == 1 {
                    TimeFormat::TwentyFour
                } else {
                    TimeFormat::Minutes
                };
            },
            FieldId::Indicator => {
                config.display.indicator = if next == 0 {
                    TimeIndicator::Empty
                } else if next == 1 {
                    TimeIndicator::Current
                } else if next == 2 {
                    TimeIndicator::Inbetween
                } else {
                    TimeIndicator::Next
                };
            },
            FieldId::Location => {
                config.display.location = if next == 0 {
                    LocationDisplay::Hide
                } else if next == 1 {
                    LocationDisplay::Country
                } else if next == 2 {
                    LocationDisplay::City
                } else {
                    LocationDisplay::CityCountry
                };
            },
            FieldId::RawMode => {
                config.raw_output.mode = if next == 0 {
                    RawOutputMode::Array
                } else if next == 1 {
                    RawOutputMode::Custom
                } else if next == 2 {
                    RawOutputMode::PrettyJson
                } else if next == 3 {
                    RawOutputMode::Json
                } else if next == 4 {
                    RawOutputMode::RawData
                } else {
                    RawOutputMode::TOML
                };
            },
            _ => {},
        }
    }

    /// Flips a toggle field; other fields are left alone.
    pub fn toggle(self, config: &mut Config)
        ensures
            *final(config) == toggled(self, *old(config)),
    {
        match self {
            FieldId::Fullscreen => config.display.fullscreen = !config.display.fullscreen,
            FieldId::Seconds => config.display.seconds = !config.display.seconds,
            FieldId::NotifEnabled => config.notifications.enabled = !config.notifications.enabled,
            FieldId::RawPool => config.raw_output.pool = !config.raw_output.pool,
            _ => {},
        }
    }

    /// Stores `text` in the field: the offset takes it as an `i32` (after
    /// trimming), location, separator and custom string as it is; any other
    /// field refuses text. The coordinates are checked as floating point by
    /// the application and are not committed here.
    pub fn commit_text(self, config: &mut Config, text: &str) -> (r: Result<(), String>)
        requires
            !(self == FieldId::ProviderLatitude || self == FieldId::ProviderLongitude),
        ensures
            config_committed(self, *old(config), *final(config), text@),
            match commit_outcome(self, text@) {
                Ok(_) => r is Ok,
                Err(m) => r matches Err(e) && e@ == m,
            },
    {
        match self {
            FieldId::NotifOffset => {
                let t = trim(text);
                match parse_i32(t.as_str()) {
                    Ok(v) => {
                        config.notifications.offset = v;
                        Ok(())
                    },
                    Err(k) => {
                        let mut msg = owned("invalid offset: ");
                        push_str(&mut msg, int_error_message(k));
                        Err(msg)
                    },
                }
            },
            FieldId::ProviderLocation => {
                config.calculation.location = owned(text);
                Ok(())
            },
            FieldId::RawSeparator => {
                config.raw_output.raw_separator = owned(text);
                Ok(())
            },
            FieldId::RawCustomString => {
                config.raw_output.custom_string = owned(text);
                Ok(())
            },
            _ => Err(owned("field is not editable as text")),
        }
    }
}

fn bool_str(b: bool) -> (s: &'static str)
    ensures
        s@ == bool_text(b),
{
    if b {
        "true"
    } else {
        "false"
    }
}

fn method_variant(i: usize) -> (m: Method)
    ensures
        m == method_at(i as int),
{
    if i == 0 {
        Method::MuslimWorldLeague
    } else if i == 1 {
        Method::Egyptian
    } else if i == 2 {
        Method::Karachi
    } else if i == 3 {
        Method::UmmAlQura
    } else if i == 4 {
        Method::Dubai
    } else if i == 5 {
        Method::MoonsightingCommittee
    } else if i == 6 {
        Method::NorthAmerica
    } else if i == 7 {
        Method::Kuwait
    } else if i == 8 {
        Method::Qatar
    } else if i == 9 {
        Method::Singapore
    } else if i == 10 {
        Method::Tehran
    } else {
        Method::Turkey
    }
}

/// `(idx + delta)` taken modulo `len`, as a non-negative index.
fn wrap_index(idx: usize, delta: isize, len: usize) -> (r: usize)
    requires
        len > 0,
        idx < len,
        len <= 12,
    ensures
        r == (idx + delta) % (len as int),
        r < len,
{
    if delta >= 0 {
        let d = (delta as usize) % len;
        let r = (idx + d) % len;
        proof {
            vstd::arithmetic::div_mod::lemma_add_mod_noop(idx as int, delta as int, len as int);
            vstd::arithmetic::div_mod::lemma_small_mod(idx as nat, len as nat);
            vstd::arithmetic::div_mod::lemma_mod_twice((delta as int), len as int);
            vstd::arithmetic::div_mod::lemma_add_mod_noop(idx as int, d as int, len as int);
        }
        r
    } else {
        let mag: usize = if delta == isize::MIN {
            ((isize::MAX as usize) + 1) % len
        } else {
            ((-delta) as usize) % len
        };
        let r = (idx + len - mag) % len;
        proof {
            let m = -(delta as int);
            assert(mag == m % (len as int)) by {
                if delta == isize::MIN {
                    assert(m == isize::MAX + 1);
                }
            }
            vstd::arithmetic::div_mod::lemma_fundamental_div_mod(m, len as int);
            let q = m / (len as int);
            assert(idx + delta == (idx + len - mag) - (q + 1) * (len as int)) by (nonlinear_arith)
                requires
                    m == (len as int) * q + mag,
                    m == -(delta as int),
            ;
            vstd::arithmetic::div_mod::lemma_mod_sub_multiples_vanish(
                (idx + len - mag) as int,
                len as int,
            );
            vstd::arithmetic::div_mod::lemma_mod_multiples_vanish(
                -(q + 1),
                (idx + len - mag) as int,
                len as int,
            );
            assert((idx + delta) as int == (-(q + 1)) * (len as int) + (idx + len - mag) as int)
                by (nonlinear_arith)
                requires
                    idx + delta == (idx + len - mag) - (q + 1) * (len as int),
            ;
        }
        r
    }
}

/// The name a calculation method is shown with.
pub fn method_name(method: &Method) -> (s: &'static str)
    ensures
        s@ == method_text(*method),
{
    match method {
        Method::MuslimWorldLeague => "MuslimWorldLeague",
        Method::Egyptian => "Egyptian",
        Method::Karachi => "Karachi",
        Method::UmmAlQura => "UmmAlQura",
        Method::Dubai => "Dubai",
        Method::MoonsightingCommittee => "MoonsightingCommittee",
        Method::NorthAmerica => "NorthAmerica",
        Method::Kuwait => "Kuwait",
        Method::Qatar => "Qatar",
        Method::Singapore => "Singapore",
        Method::Tehran => "Tehran",
        Method::Turkey => "Turkey",
    }
}

proof fn lemma_index_roundtrips(j: int)
    ensures
        0 <= j < 12 ==> method_index(method_at(j)) == j,
        0 <= j < 2 ==> madhab_index(madhab_at(j)) == j,
        0 <= j < 3 ==> ui_mode_index(ui_mode_at(j)) == j,
        0 <= j < 3 ==> format_index(format_at(j)) == j,
        0 <= j < 4 ==> indicator_index(indicator_at(j)) == j,
        0 <= j < 4 ==> location_index(location_at(j)) == j,
        0 <= j < 6 ==> raw_mode_index(raw_mode_at(j)) == j,
{
}

proof fn lemma_value_roundtrips(c: Config)
    ensures
        method_at(method_index(c.calculation.method)) == c.calculation.method,
        madhab_at(madhab_index(c.calculation.madhab)) == c.calculation.madhab,
        ui_mode_at(ui_mode_index(c.display.ui_mode)) == c.display.ui_mode,
        format_at(format_index(c.display.format)) == c.display.format,
        indicator_at(indicator_index(c.display.indicator)) == c.display.indicator,
        location_at(location_index(c.display.location)) == c.display.location,
        raw_mode_at(raw_mode_index(c.raw_output.mode)) == c.raw_output.mode,
{
}

proof fn lemma_option_roundtrip(id: FieldId, c: Config, j: int, k: int)
    requires
        id != FieldId::ProviderType,
        options_count(id) matches Some(len) && 0 <= j < len && 0 <= k < len,
    ensures
        option_index(id, with_option(id, c, j)) == Some(j),
        with_option(id, with_option(id, c, j), k) == with_option(id, c, k),
        with_option(id, c, option_index(id, c).unwrap()) == c,
        0 <= option_index(id, c).unwrap() < options_count(id).unwrap(),
{
    lemma_index_roundtrips(j);
    lemma_value_roundtrips(c);
    match id {
        FieldId::ProviderMethod => {},
        FieldId::ProviderMadhab => {},
        FieldId::UiMode => {},
        FieldId::TimeFormat => {},
        FieldId::Indicator => {},
        FieldId::Location => {},
        FieldId::RawMode => {},
        _ => {},
    }
}

/// A choice field's current option lies among its options.
pub proof fn lemma_option_index_bound(id: FieldId, c: Config)
    ensures
        option_index(id, c) matches Some(i) ==> 0 <= i < options_count(id).unwrap() <= 12,
{
    if id != FieldId::ProviderType && options_count(id) is Some {
        lemma_option_roundtrip(id, c, 0, 0);
    }
}

/// Cycling a choice field back undoes cycling it forward.
pub proof fn lemma_cycle_inverse(id: FieldId, c: Config, delta: int)
    ensures
        cycled(id, cycled(id, c, delta), -delta) == c,
{
    match options_count(id) {
        None => {},
        Some(len) => {
            if id != FieldId::ProviderType {
                let i = option_index(id, c).unwrap();
                lemma_option_roundtrip(id, c, 0, 0);
                let j = (i + delta) % len;
                vstd::arithmetic::div_mod::lemma_mod_bound(i + delta, len);
                lemma_option_roundtrip(id, c, j, 0);
                let c1 = with_option(id, c, j);
                assert(option_index(id, c1) == Some(j));
                vstd::arithmetic::div_mod::lemma_add_mod_noop_right(-delta, i + delta, len);
                vstd::arithmetic::div_mod::lemma_small_mod(i as nat, len as nat);
                assert((j + (-delta)) % len == i);
                lemma_option_roundtrip(id, c, j, i);
            }
        },
    }
}

/// Cycling a choice field through all its options comes back to where it
/// started; the provider type (switched elsewhere) and the fields that are
/// no choice never change by cycling, and a cycle touches nothing but the
/// field's own setting.
pub proof fn lemma_cycle_full_period(id: FieldId, c: Config, delta: int)
    ensures
        options_count(id) matches Some(n) ==> cycled(id, c, n) == c,
        id == FieldId::ProviderType || options_count(id) is None ==> cycled(id, c, delta) == c,
        options_count(id) matches Some(n) ==> cycled(id, c, delta) == with_option(
            id,
            c,
            (option_index(id, c).unwrap() + delta) % n,
        ),
{
    match options_count(id) {
        None => {},
        Some(n) => {
            if id != FieldId::ProviderType {
                lemma_option_roundtrip(id, c, 0, 0);
                let i = option_index(id, c).unwrap();
                vstd::arithmetic::div_mod::lemma_mod_add_multiples_vanish(i, n);
                vstd::arithmetic::div_mod::lemma_small_mod(i as nat, n as nat);
                assert((i + n) % n == i);
            }
        },
    }
}

/// Cycling a choice field (other than the provider type) by `delta`
/// moves its option `delta` places on, wrapping around: backwards for a
/// negative `delta`.
pub proof fn lemma_cycled_index(id: FieldId, c: Config, delta: int)
    requires
        id != FieldId::ProviderType,
        options_count(id) is Some,
    ensures
        option_index(id, cycled(id, c, delta)) == Some(
            (option_index(id, c).unwrap() + delta) % options_count(id).unwrap(),
        ),
{
    let n = options_count(id).unwrap();
    let j = (option_index(id, c).unwrap() + delta) % n;
    lemma_option_roundtrip(id, c, j, 0);
}

/// Toggling a field twice restores the configuration.
pub proof fn lemma_toggle_twice(id: FieldId, c: Config)
    ensures
        toggled(id, toggled(id, c)) == c,
{
}

// ----- filtering by a typed pattern -----

/// `idx` places each character of `needle` on an equal character of `hay`,
/// at strictly increasing positions.
pub open spec fn is_embedding(idx: Seq<int>, needle: Seq<char>, hay: Seq<char>) -> bool {
    &&& idx.len() == needle.len()
    &&& forall|k: int|
        0 <= k < idx.len() ==> 0 <= #[trigger] idx[k] < hay.len() && hay[idx[k]] == needle[k]
    &&& forall|a: int, b: int| 0 <= a < b < idx.len() ==> idx[a] < idx[b]
}

/// `needle` occurs in `hay` as a subsequence: its characters appear in
/// `hay` in the same order, not necessarily next to each other.
pub open spec fn is_subsequence(needle: Seq<char>, hay: Seq<char>) -> bool {
    exists|idx: Seq<int>| #[trigger] is_embedding(idx, needle, hay)
}

proof fn lemma_embedding_prefix(idx: Seq<int>, needle: Seq<char>, hay: Seq<char>, k: int)
    requires
        is_embedding(idx, needle, hay),
        0 <= k <= needle.len(),
    ensures
        is_embedding(idx.take(k), needle.take(k), hay),
{
}

/// The fuzzy match sees its texts only through their lower case: texts
/// that lowercase alike match alike, whatever their case.
pub proof fn lemma_fuzzy_ignores_case(h1: Seq<char>, h2: Seq<char>, n1: Seq<char>, n2: Seq<char>)
    requires
        lowercase(h1) == lowercase(h2),
        lowercase(n1) == lowercase(n2),
    ensures
        is_subsequence(lowercase(n1), lowercase(h1)) == is_subsequence(lowercase(n2), lowercase(h2)),
{
}

/// Case-insensitive subsequence match ("ml'" finds "Male'"): whether the
/// lower-cased `needle` is a subsequence of the lower-cased `haystack`.
pub fn fuzzy(haystack: &str, needle: &str) -> (b: bool)
    ensures
        b == is_subsequence(lowercase(needle@), lowercase(haystack@)),
{
    let hay_s = to_lowercase(haystack);
    let nd_s = to_lowercase(needle);
    subsequence(hay_s.as_str(), nd_s.as_str())
}

/// Whether `needle_text` is a subsequence of `hay_text`, matching each
/// character of the needle at the first place left for it.
pub fn subsequence(hay_text: &str, needle_text: &str) -> (b: bool)
    ensures
        b == is_subsequence(needle_text@, hay_text@),
{
    let hay = chars_of(hay_text);
    let nd = chars_of(needle_text);
    let ghost h = hay@;
    let ghost n = nd@;
    let mut p: usize = 0;
    let ghost mut w: Seq<int> = Seq::empty();
    let mut k: usize = 0;
    while k < nd.len()
        invariant
            h == hay@,
            n == nd@,
            h == hay_text@,
            n == needle_text@,
            k <= nd.len(),
            k == 0 ==> p == 0,
            p <= hay.len(),
            is_embedding(w, n.take(k as int), h),
            forall|i: int| 0 <= i < w.len() ==> w[i] < p,
            forall|e: Seq<int>|
                #[trigger] is_embedding(e, n.take(k as int), h) ==> k == 0 || e[k - 1] + 1 >= p,
        decreases nd.len() - k,
    {
        let p0 = p;
        while p < hay.len() && hay[p] != nd[k]
            invariant
                h == hay@,
                n == nd@,
                k < nd.len(),
                p0 <= p <= hay.len(),
                k == 0 ==> p0 == 0,
                forall|q: int| p0 <= q < p ==> h[q] != n[k as int],
                is_embedding(w, n.take(k as int), h),
                forall|i: int| 0 <= i < w.len() ==> w[i] < p0,
                forall|e: Seq<int>|
                    #[trigger] is_embedding(e, n.take(k as int), h) ==> k == 0 || e[k - 1] + 1 >= p0,
            decreases hay.len() - p,
        {
            p = p + 1;
        }
        if p == hay.len() {
            proof {
                assert forall|e: Seq<int>| is_embedding(e, n, h) implies false by {
                    lemma_embedding_prefix(e, n, h, k + 1);
                    let e1 = e.take(k + 1);
                    assert(n.take(k + 1).take(k as int) =~= n.take(k as int));
                    lemma_embedding_prefix(e1, n.take(k + 1), h, k as int);
                    assert(e1.take(k as int) =~= e.take(k as int));
                    assert(is_embedding(e.take(k as int), n.take(k as int), h));
                    if k > 0 {
                        assert(e.take(k as int)[k - 1] == e[k - 1]);
                        assert(e[k - 1] < e[k as int]);
                    }
                    assert(n.take(k + 1)[k as int] == n[k as int]);
                    assert(h[e[k as int]] == n[k as int]);
                    assert(e[k as int] >= p0);
                    assert(!(p0 <= e[k as int] < p));
                }
            }
            return false;
        }
        proof {
            let w2 = w.push(p as int);
            assert(n.take(k + 1) =~= n.take(k as int).push(n[k as int]));
            assert(is_embedding(w2, n.take(k + 1), h)) by {
                assert forall|a: int, b: int| 0 <= a < b < w2.len() implies w2[a] < w2[b] by {
                    if b == w2.len() - 1 {
                        assert(w2[a] == w[a]);
                    } else {
                        assert(w2[a] == w[a] && w2[b] == w[b]);
                    }
                }
                assert forall|i: int| 0 <= i < w2.len() implies 0 <= #[trigger] w2[i] < h.len()
                    && h[w2[i]] == n.take(k + 1)[i] by {
                    if i < w.len() {
                        assert(w2[i] == w[i]);
                    }
                }
            }
            assert forall|e: Seq<int>| #[trigger] is_embedding(e, n.take(k + 1), h) implies e[k as int]
                + 1 >= p + 1 by {
                lemma_embedding_prefix(e, n.take(k + 1), h, k as int);
                assert(n.take(k + 1).take(k as int) =~= n.take(k as int));
                assert(is_embedding(e.take(k as int), n.take(k as int), h));
                if k > 0 {
                    assert(e.take(k as int)[k - 1] == e[k - 1]);
                    assert(e[k - 1] < e[k as int]);
                }
                assert(n.take(k + 1)[k as int] == n[k as int]);
                assert(h[e[k as int]] == n[k as int]);
                assert(e[k as int] >= p0);
                assert(!(p0 <= e[k as int] < p));
            }
            w = w2;
        }
        p = p + 1;
        k = k + 1;
    }
    proof {
        assert(n.take(n.len() as int) =~= n);
        assert(is_embedding(w, n, h));
    }
    true
}

/// Committing the notification offset's shown text leaves the
/// configuration as it was: what the editor shows, it reads back.
pub proof fn lemma_offset_text_roundtrip(c: Config)
    ensures
        commit_outcome(FieldId::NotifOffset, field_value(FieldId::NotifOffset, c)) is Ok,
        config_committed(FieldId::NotifOffset, c, c, field_value(FieldId::NotifOffset, c)),
{
    let o = c.notifications.offset as int;
    crate::text::lemma_int_digits_trimmed(o);
    crate::text::lemma_parse_int_digits(o, i32::MIN as int, i32::MAX as int);
}

} // verus!
