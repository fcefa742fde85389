//! Choosing the prayer-time provider from the configuration: the calculator
//! with the configured method and coordinates, or the salatmv timeset of the
//! configured island, falling back to the default island and then to the
//! default calculator.
use vstd::prelude::*;
use crate::conf::{Config, Coords, Madhab, Method, ProviderKind, DEFAULT_MV_ISLAND_KEY};
use crate::data::{first_island_row, table_of, timeset_ok, MVRawData, TimeSetData};
use crate::state::island_found;
use crate::text::{owned, parse_int, push_str};

verus! {

broadcast use vstd::string::group_string_axioms;

/// What the application builds its provider from.
#[derive(Debug)]
pub enum ProviderPlan {
    /// the timeset of a salatmv island
    DataSet(TimeSetData),
    /// the calculator with these settings (coordinates as decimal text)
    Calculation { method: Method, madhab: Madhab, coordinates: Coords },
}

/// The island index of the first island row with key `key`.
pub open spec fn found_index(mv: MVRawData, key: Seq<char>) -> usize {
    let isl = table_of(mv.island@);
    let i = first_island_row(isl, table_of(mv.atoll@), key, 0).unwrap();
    parse_int(isl[i][1], 0, usize::MAX as int, false)->Ok_0 as usize
}

/// `plan` holds the timeset that the island with key `key` reads to.
pub open spec fn island_plan(mv: MVRawData, key: Seq<char>, plan: ProviderPlan) -> bool {
    plan matches ProviderPlan::DataSet(t) && timeset_ok(mv, found_index(mv, key), t)
}

/// `plan` is the calculator with these settings.
pub open spec fn calc_plan(
    plan: ProviderPlan,
    method: Method,
    madhab: Madhab,
    lat: Seq<char>,
    lon: Seq<char>,
) -> bool {
    plan matches ProviderPlan::Calculation { method: m, madhab: h, coordinates: c } && m == method
        && h == madhab && c.latitude@ == lat && c.longitude@ == lon
}

/// The provider for `c`, with the warning to show: the configured island
/// when its data can be read; else the default island, with a warning
/// naming the island asked for; else the default calculator, with a
/// warning that the dataset is unavailable (default method and madhab,
/// coordinates 0, 0).
pub open spec fn plan_ok(c: Config, mv: MVRawData, plan: ProviderPlan, warning: Option<String>) -> bool {
    match c.provider {
        ProviderKind::Calculation => calc_plan(
            plan,
            c.calculation.method,
            c.calculation.madhab,
            c.coordinates.latitude@,
            c.coordinates.longitude@,
        ) && warning is None,
        ProviderKind::SalatMv => {
            let key = c.salatmv.island@;
            let fallback = DEFAULT_MV_ISLAND_KEY@;
            if island_found(mv, key) {
                island_plan(mv, key, plan) && warning is None
            } else if island_found(mv, fallback) {
                island_plan(mv, fallback, plan) && (warning matches Some(w) && w@ == "unknown island \""@
                    + key + "\", using "@ + fallback)
            } else {
                calc_plan(plan, Method::MuslimWorldLeague, Madhab::Shafi, "0"@, "0"@) && (
                warning matches Some(w) && w@ == "salatmv data unavailable"@)
            }
        },
    }
}

/// Chooses the provider for `config` (see `plan_ok`).
pub fn plan_provider(config: &Config, mv: &MVRawData) -> (r: (ProviderPlan, Option<String>))
    ensures
        plan_ok(*config, *mv, r.0, r.1),
        config.provider == ProviderKind::Calculation ==> r.1 is None && (r.0 matches
            ProviderPlan::Calculation { method: m, madhab: h, coordinates: k } && m
            == config.calculation.method && h == config.calculation.madhab && k.latitude@
            == config.coordinates.latitude@ && k.longitude@ == config.coordinates.longitude@),
{
    match config.provider {
        ProviderKind::Calculation => {
            let coordinates = Coords {
                latitude: config.coordinates.latitude.clone(),
                longitude: config.coordinates.longitude.clone(),
            };
            (
                ProviderPlan::Calculation {
                    method: config.calculation.method,
                    madhab: config.calculation.madhab,
                    coordinates,
                },
                None,
            )
        },
        ProviderKind::SalatMv => {
            match mv.timeset_for_island(config.salatmv.island.as_str()) {
                Some(t) => (ProviderPlan::DataSet(t), None),
                None => {
                    match mv.timeset_for_island(DEFAULT_MV_ISLAND_KEY) {
                        Some(t) => {
                            let mut w = owned("unknown island \"");
                            push_str(&mut w, config.salatmv.island.as_str());
                            push_str(&mut w, "\", using ");
                            push_str(&mut w, DEFAULT_MV_ISLAND_KEY);
                            (ProviderPlan::DataSet(t), Some(w))
                        },
                        None => {
                            let coordinates = Coords::default();
                            (
                                ProviderPlan::Calculation {
                                    method: Method::MuslimWorldLeague,
                                    madhab: Madhab::Shafi,
                                    coordinates,
                                },
                                Some(owned("salatmv data unavailable")),
                            )
                        },
                    }
                },
            }
        },
    }
}

/// With the calculator selected, the plan is the calculator with exactly
/// the configured method, madhab and coordinates, and there is no warning.
pub proof fn lemma_calculator_follows_config(
    c: Config,
    mv: MVRawData,
    plan: ProviderPlan,
    warning: Option<String>,
)
    requires
        plan_ok(c, mv, plan, warning),
        c.provider == ProviderKind::Calculation,
    ensures
        warning is None,
        plan matches ProviderPlan::Calculation { method: m, madhab: h, coordinates: k } && m
            == c.calculation.method && h == c.calculation.madhab && k.latitude@
            == c.coordinates.latitude@ && k.longitude@ == c.coordinates.longitude@,
{
}

} // verus!
