//! The provider's records, and their decoding from JSON. A record is decoded
//! whole or not at all: every field but the optional ones must be present
//! and be a text.
use vstd::prelude::*;
use vstd::string::*;
use crate::json::{Json, JsonValue};
use crate::model::{option_view, option_views, views};

verus! {

/// The text in field `key` of an object; `None` where the field is missing or no text.
pub open spec fn required_text_of(value: JsonValue, key: Seq<char>) -> Option<Seq<char>> {
    match value.member(key) {
        Some(field) => field.text(),
        None => None,
    }
}

/// The text in field `key` of an object, the empty text where the field is
/// missing; `None` where it is present and no text.
pub open spec fn optional_text_of(value: JsonValue, key: Seq<char>) -> Option<Seq<char>> {
    match value.member(key) {
        Some(field) => field.text(),
        None => Some(Seq::empty()),
    }
}

/// Reads the text in field `key` of `json`.
pub fn required_text(json: &Json, key: &str) -> (text: Option<String>)
    ensures
        match text {
            Some(s) => required_text_of(json@, key@) == Some(s@),
            None => required_text_of(json@, key@).is_none(),
        },
{
    match json.member(key) {
        Some(field) => match field.as_str() {
            Some(s) => Some(String::from_str(s)),
            None => None,
        },
        None => None,
    }
}

/// Reads the text in field `key` of `json`, the empty text where the field is missing.
pub fn optional_text(json: &Json, key: &str) -> (text: Option<String>)
    ensures
        match text {
            Some(s) => optional_text_of(json@, key@) == Some(s@),
            None => optional_text_of(json@, key@).is_none(),
        },
{
    match json.member(key) {
        Some(field) => match field.as_str() {
            Some(s) => Some(String::from_str(s)),
            None => None,
        },
        None => Some(String::new()),
    }
}

/// A driver as the provider describes one.
#[derive(Debug, Clone)]
pub struct ErgastDriver {
    pub driver_id: String,
    pub permanent_number: String,
    pub code: String,
    pub given_name: String,
    pub family_name: String,
    pub date_of_birth: String,
    pub nationality: String,
}

/// The mathematical value of an [`ErgastDriver`].
pub struct ErgastDriverView {
    pub driver_id: Seq<char>,
    pub permanent_number: Seq<char>,
    pub code: Seq<char>,
    pub given_name: Seq<char>,
    pub family_name: Seq<char>,
    pub date_of_birth: Seq<char>,
    pub nationality: Seq<char>,
}

impl View for ErgastDriver {
    type V = ErgastDriverView;

    open spec fn view(&self) -> ErgastDriverView {
        ErgastDriverView {
            driver_id: self.driver_id@,
            permanent_number: self.permanent_number@,
            code: self.code@,
            given_name: self.given_name@,
            family_name: self.family_name@,
            date_of_birth: self.date_of_birth@,
            nationality: self.nationality@,
        }
    }
}

impl ErgastDriverView {
    /// The driver that a JSON value describes.
    pub open spec fn decoded(value: JsonValue) -> Option<ErgastDriverView> {
        match (
            required_text_of(value, "driverId"@),
            required_text_of(value, "permanentNumber"@),
            required_text_of(value, "code"@),
            required_text_of(value, "givenName"@),
            required_text_of(value, "familyName"@),
            required_text_of(value, "dateOfBirth"@),
            required_text_of(value, "nationality"@),
        ) {
            (
                Some(driver_id),
                Some(permanent_number),
                Some(code),
                Some(given_name),
                Some(family_name),
                Some(date_of_birth),
                Some(nationality),
            ) => Some(
                ErgastDriverView {
                    driver_id,
                    permanent_number,
                    code,
                    given_name,
                    family_name,
                    date_of_birth,
                    nationality,
                },
            ),
            _ => None,
        }
    }
}

impl ErgastDriver {
    /// Decodes a driver.
    pub fn decode(json: &Json) -> (record: Option<ErgastDriver>)
        ensures
            option_view(record) == ErgastDriverView::decoded(json@),
    {
        let driver_id = required_text(json, "driverId")?;
        let permanent_number = required_text(json, "permanentNumber")?;
        let code = required_text(json, "code")?;
        let given_name = required_text(json, "givenName")?;
        let family_name = required_text(json, "familyName")?;
        let date_of_birth = required_text(json, "dateOfBirth")?;
        let nationality = required_text(json, "nationality")?;
        Some(
            ErgastDriver {
                driver_id,
                permanent_number,
                code,
                given_name,
                family_name,
                date_of_birth,
                nationality,
            },
        )
    }
}

/// A team as the provider describes one.
#[derive(Debug, Clone)]
pub struct ErgastConstructor {
    pub constructor_id: String,
    pub name: String,
    pub nationality: String,
}

/// The mathematical value of an [`ErgastConstructor`].
pub struct ErgastConstructorView {
    pub constructor_id: Seq<char>,
    pub name: Seq<char>,
    pub nationality: Seq<char>,
}

impl View for ErgastConstructor {
    type V = ErgastConstructorView;

    open spec fn view(&self) -> ErgastConstructorView {
        ErgastConstructorView {
            constructor_id: self.constructor_id@,
            name: self.name@,
            nationality: self.nationality@,
        }
    }
}

impl ErgastConstructorView {
    /// The team that a JSON value describes.
    pub open spec fn decoded(value: JsonValue) -> Option<ErgastConstructorView> {
        match (
            required_text_of(value, "constructorId"@),
            required_text_of(value, "name"@),
            required_text_of(value, "nationality"@),
        ) {
            (Some(constructor_id), Some(name), Some(nationality)) => Some(
                ErgastConstructorView { constructor_id, name, nationality },
            ),
            _ => None,
        }
    }
}

impl ErgastConstructor {
    /// Decodes a team.
    pub fn decode(json: &Json) -> (record: Option<ErgastConstructor>)
        ensures
            option_view(record) == ErgastConstructorView::decoded(json@),
    {
        let constructor_id = required_text(json, "constructorId")?;
        let name = required_text(json, "name")?;
        let nationality = required_text(json, "nationality")?;
        Some(ErgastConstructor { constructor_id, name, nationality })
    }
}

/// Where a circuit lies, as the provider describes it.
#[derive(Debug, Clone)]
pub struct Location {
    pub lat: String,
    pub long: String,
    pub locality: String,
    pub country: String,
}

/// The mathematical value of a [`Location`].
pub struct LocationView {
    pub lat: Seq<char>,
    pub long: Seq<char>,
    pub locality: Seq<char>,
    pub country: Seq<char>,
}

impl View for Location {
    type V = LocationView;

    open spec fn view(&self) -> LocationView {
        LocationView {
            lat: self.lat@,
            long: self.long@,
            locality: self.locality@,
            country: self.country@,
        }
    }
}

impl LocationView {
    /// The location that a JSON value describes.
    pub open spec fn decoded(value: JsonValue) -> Option<LocationView> {
        match (
            required_text_of(value, "lat"@),
            required_text_of(value, "long"@),
            required_text_of(value, "locality"@),
            required_text_of(value, "country"@),
        ) {
            (Some(lat), Some(long), Some(locality), Some(country)) => Some(
                LocationView { lat, long, locality, country },
            ),
            _ => None,
        }
    }

    /// The location of which nothing is known.
    pub open spec fn empty() -> LocationView {
        LocationView {
            lat: Seq::empty(),
            long: Seq::empty(),
            locality: Seq::empty(),
            country: Seq::empty(),
        }
    }
}

impl Location {
    /// Decodes a location.
    pub fn decode(json: &Json) -> (record: Option<Location>)
        ensures
            option_view(record) == LocationView::decoded(json@),
    {
        let lat = required_text(json, "lat")?;
        let long = required_text(json, "long")?;
        let locality = required_text(json, "locality")?;
        let country = required_text(json, "country")?;
        Some(Location { lat, long, locality, country })
    }
}

impl Default for Location {
    fn default() -> (location: Location)
        ensures
            location@ == LocationView::empty(),
    {
        Location {
            lat: String::new(),
            long: String::new(),
            locality: String::new(),
            country: String::new(),
        }
    }
}

/// A circuit as the provider describes one.
#[derive(Debug, Clone)]
pub struct ErgastCircuit {
    pub id: String,
    pub name: String,
    pub location: Location,
}

/// The mathematical value of an [`ErgastCircuit`].
pub struct ErgastCircuitView {
    pub id: Seq<char>,
    pub name: Seq<char>,
    pub location: LocationView,
}

impl View for ErgastCircuit {
    type V = ErgastCircuitView;

    open spec fn view(&self) -> ErgastCircuitView {
        ErgastCircuitView { id: self.id@, name: self.name@, location: self.location@ }
    }
}

impl ErgastCircuitView {
    /// The circuit that a JSON value describes.
    pub open spec fn decoded(value: JsonValue) -> Option<ErgastCircuitView> {
        match (
            required_text_of(value, "circuitId"@),
            required_text_of(value, "circuitName"@),
            LocationView::decoded(value.field("Location"@)),
        ) {
            (Some(id), Some(name), Some(location)) => Some(ErgastCircuitView { id, name, location }),
            _ => None,
        }
    }

    /// The circuit of which nothing is known.
    pub open spec fn empty() -> ErgastCircuitView {
        ErgastCircuitView { id: Seq::empty(), name: Seq::empty(), location: LocationView::empty() }
    }
}

impl ErgastCircuit {
    /// Decodes a circuit.
    pub fn decode(json: &Json) -> (record: Option<ErgastCircuit>)
        ensures
            option_view(record) == ErgastCircuitView::decoded(json@),
    {
        let id = required_text(json, "circuitId")?;
        let name = required_text(json, "circuitName")?;
        let location = Location::decode(json.member("Location")?)?;
        Some(ErgastCircuit { id, name, location })
    }
}

impl Default for ErgastCircuit {
    fn default() -> (circuit: ErgastCircuit)
        ensures
            circuit@ == ErgastCircuitView::empty(),
    {
        ErgastCircuit { id: String::new(), name: String::new(), location: Location::default() }
    }
}

/// A lap time as the provider writes it.
#[derive(Debug, Clone)]
pub struct Time {
    pub time: String,
}

/// The mathematical value of a [`Time`].
pub struct TimeView {
    pub time: Seq<char>,
}

impl View for Time {
    type V = TimeView;

    open spec fn view(&self) -> TimeView {
        TimeView { time: self.time@ }
    }
}

impl TimeView {
    /// The time that a JSON value describes.
    pub open spec fn decoded(value: JsonValue) -> Option<TimeView> {
        match required_text_of(value, "time"@) {
            Some(time) => Some(TimeView { time }),
            None => None,
        }
    }

    /// The time that was not set.
    pub open spec fn empty() -> TimeView {
        TimeView { time: Seq::empty() }
    }
}

impl Time {
    /// Decodes a time.
    pub fn decode(json: &Json) -> (record: Option<Time>)
        ensures
            option_view(record) == TimeView::decoded(json@),
    {
        let time = required_text(json, "time")?;
        Some(Time { time })
    }
}

impl Default for Time {
    fn default() -> (time: Time)
        ensures
            time@ == TimeView::empty(),
    {
        Time { time: String::new() }
    }
}

/// The fastest lap of a driver in a race. Its time is optional.
#[derive(Debug, Clone)]
pub struct FastestLap {
    pub time: Time,
}

/// The mathematical value of a [`FastestLap`].
pub struct FastestLapView {
    pub time: TimeView,
}

impl View for FastestLap {
    type V = FastestLapView;

    open spec fn view(&self) -> FastestLapView {
        FastestLapView { time: self.time@ }
    }
}

impl FastestLapView {
    /// The fastest lap that a JSON value describes: an object, whose field
    /// `Time` is a time where it is present.
    pub open spec fn decoded(value: JsonValue) -> Option<FastestLapView> {
        if value is Object {
            match value.member("Time"@) {
                Some(field) => match TimeView::decoded(field) {
                    Some(time) => Some(FastestLapView { time }),
                    None => None,
                },
                None => Some(FastestLapView::empty()),
            }
        } else {
            None
        }
    }

    /// The fastest lap that was not set.
    pub open spec fn empty() -> FastestLapView {
        FastestLapView { time: TimeView::empty() }
    }
}

impl FastestLap {
    /// Decodes a fastest lap.
    pub fn decode(json: &Json) -> (record: Option<FastestLap>)
        ensures
            option_view(record) == FastestLapView::decoded(json@),
    {
        if !json.is_object() {
            return None;
        }
        match json.member("Time") {
            Some(field) => {
                let time = Time::decode(field)?;
                Some(FastestLap { time })
            },
            None => Some(FastestLap::default()),
        }
    }
}

impl Default for FastestLap {
    fn default() -> (lap: FastestLap)
        ensures
            lap@ == FastestLapView::empty(),
    {
        FastestLap { time: Time::default() }
    }
}

/// One driver's result in qualifying. The three segment times are optional:
/// a driver who did not reach a segment has the empty text for it.
#[derive(Debug, Clone)]
pub struct QualiResult {
    pub number: String,
    pub position: String,
    pub driver: ErgastDriver,
    pub constructor: ErgastConstructor,
    pub q1_time: String,
    pub q2_time: String,
    pub q3_time: String,
}

/// The mathematical value of a [`QualiResult`].
pub struct QualiResultView {
    pub number: Seq<char>,
    pub position: Seq<char>,
    pub driver: ErgastDriverView,
    pub constructor: ErgastConstructorView,
    pub q1_time: Seq<char>,
    pub q2_time: Seq<char>,
    pub q3_time: Seq<char>,
}

impl View for QualiResult {
    type V = QualiResultView;

    open spec fn view(&self) -> QualiResultView {
        QualiResultView {
            number: self.number@,
            position: self.position@,
            driver: self.driver@,
            constructor: self.constructor@,
            q1_time: self.q1_time@,
            q2_time: self.q2_time@,
            q3_time: self.q3_time@,
        }
    }
}

impl QualiResultView {
    /// The qualifying result that a JSON value describes.
    pub open spec fn decoded(value: JsonValue) -> Option<QualiResultView> {
        match (
            required_text_of(value, "number"@),
            required_text_of(value, "position"@),
            ErgastDriverView::decoded(value.field("Driver"@)),
            ErgastConstructorView::decoded(value.field("Constructor"@)),
            optional_text_of(value, "Q1"@),
            optional_text_of(value, "Q2"@),
            optional_text_of(value, "Q3"@),
        ) {
            (
                Some(number),
                Some(position),
                Some(driver),
                Some(constructor),
                Some(q1_time),
                Some(q2_time),
                Some(q3_time),
            ) => Some(
                QualiResultView { number, position, driver, constructor, q1_time, q2_time, q3_time },
            ),
            _ => None,
        }
    }

    /// The qualifying results that a JSON value lists: an array of which
    /// every element describes one.
    pub open spec fn decoded_list(value: JsonValue) -> Option<Seq<QualiResultView>> {
        match value.items() {
            Some(items) => if forall|i: int|
                0 <= i < items.len() ==> (#[trigger] QualiResultView::decoded(items[i])) is Some {
                Some(Seq::new(items.len(), |i: int| QualiResultView::decoded(items[i])->0))
            } else {
                None
            },
            None => None,
        }
    }
}

impl QualiResult {
    /// Decodes a qualifying result.
    pub fn decode(json: &Json) -> (record: Option<QualiResult>)
        ensures
            option_view(record) == QualiResultView::decoded(json@),
    {
        let number = required_text(json, "number")?;
        let position = required_text(json, "position")?;
        let driver = ErgastDriver::decode(json.member("Driver")?)?;
        let constructor = ErgastConstructor::decode(json.member("Constructor")?)?;
        let q1_time = optional_text(json, "Q1")?;
        let q2_time = optional_text(json, "Q2")?;
        let q3_time = optional_text(json, "Q3")?;
        Some(QualiResult { number, position, driver, constructor, q1_time, q2_time, q3_time })
    }

    /// Decodes a list of qualifying results. One element that is no result
    /// fails the whole list.
    pub fn decode_list(json: &Json) -> (records: Option<Vec<QualiResult>>)
        ensures
            option_views(records) == QualiResultView::decoded_list(json@),
    {
        let items = json.as_array()?;
        let ghost values = json@.items()->0;
        let mut records: Vec<QualiResult> = Vec::new();
        let mut i: usize = 0;
        while i < items.len()
            invariant
                i <= items.len(),
                json@.items() == Some(values),
                values == views(items@),
                records@.len() == i,
                forall|k: int|
                    0 <= k < i ==> QualiResultView::decoded(values[k]) == Some(
                        #[trigger] records@[k]@,
                    ),
            decreases items.len() - i,
        {
            match QualiResult::decode(&items[i]) {
                Some(record) => {
                    records.push(record);
                },
                None => {
                    assert(QualiResultView::decoded(values[i as int]).is_none());
                    return None;
                },
            }
            i += 1;
        }
        assert forall|k: int| 0 <= k < values.len() implies (#[trigger] QualiResultView::decoded(
            values[k],
        )) is Some by {
            assert(QualiResultView::decoded(values[k]) == Some(records@[k]@));
        }
        assert(views(records@) =~= Seq::new(
            values.len(),
            |k: int| QualiResultView::decoded(values[k])->0,
        ));
        Some(records)
    }
}

/// One driver's result in a race. The fastest lap is optional.
#[derive(Debug, Clone)]
pub struct RaceResult {
    pub number: String,
    pub position: String,
    pub driver: ErgastDriver,
    pub constructor: ErgastConstructor,
    pub fastest_lap: FastestLap,
}

/// The mathematical value of a [`RaceResult`].
pub struct RaceResultView {
    pub number: Seq<char>,
    pub position: Seq<char>,
    pub driver: ErgastDriverView,
    pub constructor: ErgastConstructorView,
    pub fastest_lap: FastestLapView,
}

impl View for RaceResult {
    type V = RaceResultView;

    open spec fn view(&self) -> RaceResultView {
        RaceResultView {
            number: self.number@,
            position: self.position@,
            driver: self.driver@,
            constructor: self.constructor@,
            fastest_lap: self.fastest_lap@,
        }
    }
}

impl RaceResultView {
    /// The fastest lap in a race result: the one in field `FastestLap`, and
    /// the lap that was not set where the field is missing.
    pub open spec fn decoded_fastest_lap(value: JsonValue) -> Option<FastestLapView> {
        match value.member("FastestLap"@) {
            Some(field) => FastestLapView::decoded(field),
            None => Some(FastestLapView::empty()),
        }
    }

    /// The race result that a JSON value describes.
    pub open spec fn decoded(value: JsonValue) -> Option<RaceResultView> {
        match (
            required_text_of(value, "number"@),
            required_text_of(value, "position"@),
            ErgastDriverView::decoded(value.field("Driver"@)),
            ErgastConstructorView::decoded(value.field("Constructor"@)),
            RaceResultView::decoded_fastest_lap(value),
        ) {
            (Some(number), Some(position), Some(driver), Some(constructor), Some(fastest_lap)) => Some(
                RaceResultView { number, position, driver, constructor, fastest_lap },
            ),
            _ => None,
        }
    }

    /// The race results that a JSON value lists: an array of which every
    /// element describes one.
    pub open spec fn decoded_list(value: JsonValue) -> Option<Seq<RaceResultView>> {
        match value.items() {
            Some(items) => if forall|i: int|
                0 <= i < items.len() ==> (#[trigger] RaceResultView::decoded(items[i])) is Some {
                Some(Seq::new(items.len(), |i: int| RaceResultView::decoded(items[i])->0))
            } else {
                None
            },
            None => None,
        }
    }
}

impl RaceResult {
    /// Decodes a race result.
    pub fn decode(json: &Json) -> (record: Option<RaceResult>)
        ensures
            option_view(record) == RaceResultView::decoded(json@),
    {
        let number = required_text(json, "number")?;
        let position = required_text(json, "position")?;
        let driver = ErgastDriver::decode(json.member("Driver")?)?;
        let constructor = ErgastConstructor::decode(json.member("Constructor")?)?;
        let fastest_lap = match json.member("FastestLap") {
            Some(field) => FastestLap::decode(field)?,
            None => FastestLap::default(),
        };
        Some(RaceResult { number, position, driver, constructor, fastest_lap })
    }

    /// Decodes a list of race results. One element that is no result fails
    /// the whole list.
    pub fn decode_list(json: &Json) -> (records: Option<Vec<RaceResult>>)
        ensures
            option_views(records) == RaceResultView::decoded_list(json@),
    {
        let items = json.as_array()?;
        let ghost values = json@.items()->0;
        let mut records: Vec<RaceResult> = Vec::new();
        let mut i: usize = 0;
        while i < items.len()
            invariant
                i <= items.len(),
                json@.items() == Some(values),
                values == views(items@),
                records@.len() == i,
                forall|k: int|
                    0 <= k < i ==> RaceResultView::decoded(values[k]) == Some(
                        #[trigger] records@[k]@,
                    ),
            decreases items.len() - i,
        {
            match RaceResult::decode(&items[i]) {
                Some(record) => {
                    records.push(record);
                },
                None => {
                    assert(RaceResultView::decoded(values[i as int]).is_none());
                    return None;
                },
            }
            i += 1;
        }
        assert forall|k: int| 0 <= k < values.len() implies (#[trigger] RaceResultView::decoded(
            values[k],
        )) is Some by {
            assert(RaceResultView::decoded(values[k]) == Some(records@[k]@));
        }
        assert(views(records@) =~= Seq::new(
            values.len(),
            |k: int| RaceResultView::decoded(values[k])->0,
        ));
        Some(records)
    }
}

} // verus!
