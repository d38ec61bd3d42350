//! Seasons and weekends as the provider lists them.
pub mod api_structs;
pub mod convert;

use vstd::prelude::*;
use vstd::string::*;
use crate::domain::F1Error;
use crate::ergast::{get, lemma_after_gets_push, lemma_leads_to_transitive, Ergast};
use crate::historical::api_structs::{
    ErgastCircuit, ErgastCircuitView, QualiResult, QualiResultView, RaceResult, RaceResultView,
};
use crate::json::{value_or_null, Json, JsonValue};
use crate::model::{result_view, result_views, views};
use crate::text::{chars_of, decimal, decimal_of, parse_i32, signed_of};

verus! {

/// What `get` gives for every resource path.
pub type World = Map<Seq<char>, Result<JsonValue, F1Error>>;

/// The list of races in a payload.
pub open spec fn races_of(payload: JsonValue) -> JsonValue {
    payload.field("RaceTable"@).field("Races"@)
}

/// The first race in a payload, null where it lists none.
pub open spec fn race_of(payload: JsonValue) -> JsonValue {
    races_of(payload).item(0)
}

/// The resource path of a season's list of rounds.
pub open spec fn season_path(year: int) -> Seq<char> {
    decimal_of(year)
}

/// The resource path of a weekend.
pub open spec fn weekend_path(year: int, round: int) -> Seq<char> {
    decimal_of(year) + "/"@ + decimal_of(round)
}

/// The resource path of a weekend's race results.
pub open spec fn results_path(year: int, round: int) -> Seq<char> {
    weekend_path(year, round) + "/results"@
}

/// The resource path of a weekend's qualifying results.
pub open spec fn qualifying_path(year: int, round: int) -> Seq<char> {
    weekend_path(year, round) + "/qualifying"@
}

/// The season and the round that an entry of a season's list names; `None`
/// where one of the two is missing, no text or no number.
pub open spec fn round_of(item: JsonValue) -> Option<(int, int)> {
    match (item.field("season"@).text(), item.field("round"@).text()) {
        (Some(season), Some(round)) => match (signed_of(season), signed_of(round)) {
            (Some(year), Some(number)) => Some((year as int, number as int)),
            _ => None,
        },
        _ => None,
    }
}

/// A weekend as the provider lists it: which one it is, its name and its circuit.
#[derive(Debug, Clone)]
pub struct ErgastWeekend {
    pub year: i32,
    pub round: i32,
    pub name: String,
    pub circuit: ErgastCircuit,
}

/// The mathematical value of an [`ErgastWeekend`].
pub struct ErgastWeekendView {
    pub year: int,
    pub round: int,
    pub name: Seq<char>,
    pub circuit: ErgastCircuitView,
}

impl View for ErgastWeekend {
    type V = ErgastWeekendView;

    open spec fn view(&self) -> ErgastWeekendView {
        ErgastWeekendView {
            year: self.year as int,
            round: self.round as int,
            name: self.name@,
            circuit: self.circuit@,
        }
    }
}

impl ErgastWeekendView {
    /// The weekend that a payload describes: the circuit of its first race,
    /// which must be there, and its name, empty where there is none.
    pub open spec fn described(year: int, round: int, payload: JsonValue) -> Result<
        ErgastWeekendView,
        F1Error,
    > {
        match ErgastCircuitView::decoded(race_of(payload).field("Circuit"@)) {
            Some(circuit) => Ok(
                ErgastWeekendView {
                    year,
                    round,
                    name: match race_of(payload).field("raceName"@).text() {
                        Some(name) => name,
                        None => Seq::empty(),
                    },
                    circuit,
                },
            ),
            None => Err(F1Error::JsonDeserialization),
        }
    }

    /// The weekend of a round in a world: the error of the fetch where it
    /// fails, else what the payload describes.
    pub open spec fn found(world: World, year: int, round: int) -> Result<
        ErgastWeekendView,
        F1Error,
    > {
        match world[weekend_path(year, round)] {
            Ok(payload) => ErgastWeekendView::described(year, round, payload),
            Err(error) => Err(error),
        }
    }

    /// The race results of the weekend in a world.
    pub open spec fn race_results(self, world: World) -> Result<Seq<RaceResultView>, F1Error> {
        match world[results_path(self.year, self.round)] {
            Ok(payload) => match RaceResultView::decoded_list(race_of(payload).field("Results"@)) {
                Some(results) => Ok(results),
                None => Err(F1Error::JsonDeserialization),
            },
            Err(error) => Err(error),
        }
    }

    /// The qualifying results of the weekend in a world.
    pub open spec fn qualifying_results(self, world: World) -> Result<
        Seq<QualiResultView>,
        F1Error,
    > {
        match world[qualifying_path(self.year, self.round)] {
            Ok(payload) => match QualiResultView::decoded_list(
                race_of(payload).field("QualifyingResults"@),
            ) {
                Some(results) => Ok(results),
                None => Err(F1Error::JsonDeserialization),
            },
            Err(error) => Err(error),
        }
    }
}

/// The weekends that the entries of a season's list name, in their order.
/// The first entry that names no round, or whose weekend cannot be had,
/// fails the whole season with its error.
pub open spec fn weekends_of(world: World, items: Seq<JsonValue>) -> Result<
    Seq<ErgastWeekendView>,
    F1Error,
>
    decreases items.len(),
{
    if items.len() == 0 {
        Ok(Seq::empty())
    } else {
        match weekends_of(world, items.drop_last()) {
            Ok(before) => match round_of(items.last()) {
                Some((year, round)) => match ErgastWeekendView::found(world, year, round) {
                    Ok(weekend) => Ok(before.push(weekend)),
                    Err(error) => Err(error),
                },
                None => Err(F1Error::JsonDeserialization),
            },
            Err(error) => Err(error),
        }
    }
}

/// The paths that are asked for while the weekends of a season's list are
/// had: that of each entry's weekend, up to the first entry that fails.
pub open spec fn rounds_requested(world: World, items: Seq<JsonValue>) -> Seq<Seq<char>>
    decreases items.len(),
{
    if items.len() == 0 {
        Seq::empty()
    } else {
        let before = rounds_requested(world, items.drop_last());
        match (weekends_of(world, items.drop_last()), round_of(items.last())) {
            (Ok(_), Some((year, round))) => before.push(weekend_path(year, round)),
            _ => before,
        }
    }
}

/// The paths that are asked for while the weekends of a season are had:
/// that of the season's list, then those of its rounds.
pub open spec fn season_requested(world: World, year: int) -> Seq<Seq<char>> {
    seq![season_path(year)] + match world[season_path(year)] {
        Ok(payload) => match races_of(payload).items() {
            Some(items) => rounds_requested(world, items),
            None => Seq::empty(),
        },
        Err(_) => Seq::empty(),
    }
}

/// The weekends of a season in a world.
pub open spec fn season_of(world: World, year: int) -> Result<Seq<ErgastWeekendView>, F1Error> {
    match world[season_path(year)] {
        Ok(payload) => match races_of(payload).items() {
            Some(items) => weekends_of(world, items),
            None => Err(F1Error::JsonDeserialization),
        },
        Err(error) => Err(error),
    }
}

/// The list of races in a payload.
fn races(payload: &Json) -> (found: Option<&Json>)
    ensures
        value_or_null(found) == races_of(payload@),
{
    match payload.member("RaceTable") {
        Some(table) => table.member("Races"),
        None => None,
    }
}

/// The field `key` of the first race in a payload.
fn race_field<'a>(payload: &'a Json, key: &str) -> (found: Option<&'a Json>)
    ensures
        value_or_null(found) == race_of(payload@).field(key@),
{
    match races(payload) {
        Some(list) => match list.element(0) {
            Some(race) => race.member(key),
            None => None,
        },
        None => None,
    }
}

/// The resource path of a weekend.
pub fn path_of_weekend(year: i32, round: i32) -> (path: String)
    ensures
        path@ == weekend_path(year as int, round as int),
{
    let mut path = decimal(year);
    path.append("/");
    path.append(decimal(round).as_str());
    path
}

/// Reads the season and the round that an entry of a season's list names.
pub fn round_in(item: &Json) -> (round: Option<(i32, i32)>)
    ensures
        match round {
            Some((year, number)) => round_of(item@) == Some((year as int, number as int)),
            None => round_of(item@).is_none(),
        },
{
    let season = match item.member("season") {
        Some(field) => field.as_str()?,
        None => {
            return None;
        },
    };
    let round = match item.member("round") {
        Some(field) => field.as_str()?,
        None => {
            return None;
        },
    };
    let year = parse_i32(&chars_of(season))?;
    let number = parse_i32(&chars_of(round))?;
    Some((year, number))
}

impl ErgastWeekend {
    /// Reads the weekend of a round out of the payload fetched for it.
    pub fn from_payload(year: i32, round: i32, payload: &Json) -> (weekend: Result<
        ErgastWeekend,
        F1Error,
    >)
        ensures
            result_view(weekend) == ErgastWeekendView::described(
                year as int,
                round as int,
                payload@,
            ),
    {
        let circuit = match race_field(payload, "Circuit") {
            Some(json) => match ErgastCircuit::decode(json) {
                Some(circuit) => circuit,
                None => {
                    return Err(F1Error::JsonDeserialization);
                },
            },
            None => {
                return Err(F1Error::JsonDeserialization);
            },
        };
        let name = match race_field(payload, "raceName") {
            Some(json) => match json.as_str() {
                Some(name) => String::from_str(name),
                None => String::new(),
            },
            None => String::new(),
        };
        Ok(ErgastWeekend { year, round, name, circuit })
    }

    /// Gets the weekend of a round. A weekend without identity cannot be
    /// had: a failed fetch and a payload without circuit are errors.
    pub fn new(client: &mut Ergast, year: i32, round: i32) -> (weekend: Result<
        ErgastWeekend,
        F1Error,
    >)
        ensures
            result_view(weekend) == ErgastWeekendView::found(
                old(client)@.world(),
                year as int,
                round as int,
            ),
            final(client)@ == old(client)@.after_get(weekend_path(year as int, round as int)),
            old(client)@.leads_to(final(client)@),
    {
        let payload = match get(client, path_of_weekend(year, round)) {
            Ok(payload) => payload,
            Err(error) => {
                return Err(error);
            },
        };
        ErgastWeekend::from_payload(year, round, &payload)
    }

    /// Gets the race results of the weekend.
    pub fn race_results(&self, client: &mut Ergast) -> (results: Result<Vec<RaceResult>, F1Error>)
        ensures
            result_views(results) == self@.race_results(old(client)@.world()),
            final(client)@ == old(client)@.after_get(results_path(self@.year, self@.round)),
            old(client)@.leads_to(final(client)@),
    {
        let mut path = path_of_weekend(self.year, self.round);
        path.append("/results");
        let payload = match get(client, path) {
            Ok(payload) => payload,
            Err(error) => {
                return Err(error);
            },
        };
        let decoded = match race_field(&payload, "Results") {
            Some(json) => RaceResult::decode_list(json),
            None => None,
        };
        match decoded {
            Some(list) => Ok(list),
            None => Err(F1Error::JsonDeserialization),
        }
    }

    /// Gets the qualifying results of the weekend.
    pub fn qualifying_results(&self, client: &mut Ergast) -> (results: Result<
        Vec<QualiResult>,
        F1Error,
    >)
        ensures
            result_views(results) == self@.qualifying_results(old(client)@.world()),
            final(client)@ == old(client)@.after_get(qualifying_path(self@.year, self@.round)),
            old(client)@.leads_to(final(client)@),
    {
        let mut path = path_of_weekend(self.year, self.round);
        path.append("/qualifying");
        let payload = match get(client, path) {
            Ok(payload) => payload,
            Err(error) => {
                return Err(error);
            },
        };
        let decoded = match race_field(&payload, "QualifyingResults") {
            Some(json) => QualiResult::decode_list(json),
            None => None,
        };
        match decoded {
            Some(list) => Ok(list),
            None => Err(F1Error::JsonDeserialization),
        }
    }
}

/// Gets the weekends of a season: the list of its rounds, then each round's
/// weekend in turn. There are no partial seasons: the first failure ends the
/// call with its error.
pub fn get_season(client: &mut Ergast, year: i32) -> (season: Result<Vec<ErgastWeekend>, F1Error>)
    ensures
        result_views(season) == season_of(old(client)@.world(), year as int),
        final(client)@ == old(client)@.after_gets(
            season_requested(old(client)@.world(), year as int),
        ),
        old(client)@.leads_to(final(client)@),
{
    let ghost world = client@.world();
    let ghost first = seq![season_path(year as int)];
    proof {
        assert(Seq::<Seq<char>>::empty().push(season_path(year as int)) == first);
        assert(first + Seq::<Seq<char>>::empty() == first);
        lemma_after_gets_push(client@, Seq::empty(), season_path(year as int));
    }
    let payload = match get(client, decimal(year)) {
        Ok(payload) => payload,
        Err(error) => {
            return Err(error);
        },
    };
    let items = match races(&payload) {
        Some(list) => match list.as_array() {
            Some(items) => items,
            None => {
                return Err(F1Error::JsonDeserialization);
            },
        },
        None => {
            return Err(F1Error::JsonDeserialization);
        },
    };
    let ghost entries = races_of(payload@).items()->0;
    let mut weekends: Vec<ErgastWeekend> = Vec::new();
    let mut i: usize = 0;
    proof {
        assert(entries.take(0).len() == 0);
        assert(views(weekends@) == Seq::<ErgastWeekendView>::empty());
        assert(first + rounds_requested(world, entries.take(0)) == first);
    }
    while i < items.len()
        invariant
            i <= items.len(),
            entries == views(items@),
            old(client)@.leads_to(client@),
            world == old(client)@.world(),
            season_of(world, year as int) == weekends_of(world, entries),
            first == seq![season_path(year as int)],
            season_requested(world, year as int) == first + rounds_requested(world, entries),
            client@ == old(client)@.after_gets(
                first + rounds_requested(world, entries.take(i as int)),
            ),
            weekends_of(world, entries.take(i as int)) == Ok::<Seq<ErgastWeekendView>, F1Error>(
                views(weekends@),
            ),
        decreases items.len() - i,
    {
        proof {
            assert(entries.take(i as int + 1).drop_last() == entries.take(i as int));
            assert(entries.take(i as int + 1).last() == items@[i as int]@);
        }
        let (season, round) = match round_in(&items[i]) {
            Some(found) => found,
            None => {
                proof {
                    lemma_weekends_fail_for_good(world, entries, i as int + 1);
                }
                return Err(F1Error::JsonDeserialization);
            },
        };
        let ghost before = client@;
        proof {
            let asked = first + rounds_requested(world, entries.take(i as int));
            let path = weekend_path(season as int, round as int);
            assert(first + rounds_requested(world, entries.take(i as int + 1)) == asked.push(path));
            lemma_after_gets_push(old(client)@, asked, path);
        }
        match ErgastWeekend::new(client, season, round) {
            Ok(weekend) => {
                proof {
                    assert(views(weekends@.push(weekend)) == views(weekends@).push(weekend@));
                    lemma_leads_to_transitive(old(client)@, before, client@);
                }
                weekends.push(weekend);
            },
            Err(error) => {
                proof {
                    lemma_weekends_fail_for_good(world, entries, i as int + 1);
                }
                return Err(error);
            },
        }
        i += 1;
    }
    proof {
        assert(entries.take(i as int) == entries);
    }
    Ok(weekends)
}

/// Once the first entries of a season's list have failed, the whole list
/// fails with the same error, and nothing more is asked for.
pub proof fn lemma_weekends_fail_for_good(world: World, items: Seq<JsonValue>, k: int)
    requires
        0 <= k <= items.len(),
        weekends_of(world, items.take(k)) is Err,
    ensures
        weekends_of(world, items) == weekends_of(world, items.take(k)),
        rounds_requested(world, items) == rounds_requested(world, items.take(k)),
    decreases items.len() - k,
{
    if k == items.len() {
        assert(items.take(k) == items);
    } else {
        assert(items.drop_last().take(k) == items.take(k));
        lemma_weekends_fail_for_good(world, items.drop_last(), k);
    }
}

} // verus!
