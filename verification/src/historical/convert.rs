//! From the provider's records to the domain model. Every conversion is
//! total: a field that cannot be read falls back to zero or midnight.
use vstd::prelude::*;
use vstd::std_specs::convert::FromSpecImpl;
use crate::domain::{
    Circuit, CircuitView, Constructor, ConstructorView, Driver, DriverView, Session, SessionType,
    SessionView, Standing, StandingView,
};
use crate::historical::api_structs::{
    ErgastCircuit, ErgastCircuitView, ErgastConstructor, ErgastConstructorView, ErgastDriver,
    ErgastDriverView, QualiResult, QualiResultView, RaceResult, RaceResultView,
};
use crate::laptime::{
    best_qualifying_time, best_qualifying_time_of, lap_time_or_midnight_of, lemma_lap_time_valid,
    LapTime,
};
use crate::model::views;
use crate::text::{chars_of, parse_i32, signed_of};

verus! {

/// The position that a text writes, and 0 for a text that writes none.
pub open spec fn position_of(text: Seq<char>) -> int {
    match signed_of(text) {
        Some(position) => position as int,
        None => 0,
    }
}

/// Reads a position, and gives 0 for a text that writes none.
pub fn position_or_zero(text: &str) -> (position: i32)
    ensures
        position == position_of(text@),
{
    match parse_i32(&chars_of(text)) {
        Some(position) => position,
        None => 0,
    }
}

impl ConstructorView {
    /// The team that a provider's record describes.
    pub open spec fn of(record: ErgastConstructorView) -> ConstructorView {
        ConstructorView { id: record.constructor_id, name: record.name }
    }
}

impl DriverView {
    /// The driver that a provider's record describes.
    pub open spec fn of(record: ErgastDriverView) -> DriverView {
        DriverView {
            id: record.driver_id,
            first_name: record.given_name,
            last_name: record.family_name,
            screen_name: record.code,
        }
    }
}

impl CircuitView {
    /// The circuit that a provider's record describes.
    pub open spec fn of(record: ErgastCircuitView) -> CircuitView {
        CircuitView {
            id: record.id,
            name: record.name,
            latitude: record.location.lat,
            longitude: record.location.long,
            locality: record.location.locality,
            country: record.location.country,
        }
    }
}

impl StandingView {
    /// The standing that a race result gives: the lap time is that of the
    /// fastest lap.
    pub open spec fn of_race(record: RaceResultView) -> StandingView {
        StandingView {
            driver: DriverView::of(record.driver),
            constructor: ConstructorView::of(record.constructor),
            position: position_of(record.position),
            lap_time: lap_time_or_midnight_of(record.fastest_lap.time.time),
        }
    }

    /// The standing that a qualifying result gives: the lap time is that of
    /// the last segment in which the driver set one.
    pub open spec fn of_qualifying(record: QualiResultView) -> StandingView {
        StandingView {
            driver: DriverView::of(record.driver),
            constructor: ConstructorView::of(record.constructor),
            position: position_of(record.position),
            lap_time: lap_time_or_midnight_of(
                best_qualifying_time_of(record.q1_time, record.q2_time, record.q3_time),
            ),
        }
    }
}

impl SessionView {
    /// The finished race with one standing for each result, in the order of
    /// the results.
    pub open spec fn of_race(records: Seq<RaceResultView>) -> SessionView {
        SessionView {
            session_type: SessionType::Race,
            finished: true,
            standings: records.map_values(|record: RaceResultView| StandingView::of_race(record)),
        }
    }

    /// The finished qualifying with one standing for each result, in the
    /// order of the results.
    pub open spec fn of_qualifying(records: Seq<QualiResultView>) -> SessionView {
        SessionView {
            session_type: SessionType::Qualifying,
            finished: true,
            standings: records.map_values(
                |record: QualiResultView| StandingView::of_qualifying(record),
            ),
        }
    }
}

/// A session made of race results is a finished race with exactly one
/// standing for each result, in the order of the results.
pub proof fn lemma_race_session_keeps_results(records: Seq<RaceResultView>)
    ensures
        SessionView::of_race(records).session_type == SessionType::Race,
        SessionView::of_race(records).finished,
        SessionView::of_race(records).standings.len() == records.len(),
        forall|i: int|
            0 <= i < records.len() ==> #[trigger] SessionView::of_race(records).standings[i]
                == StandingView::of_race(records[i]),
{
}

/// A session made of qualifying results is a finished qualifying with
/// exactly one standing for each result, in the order of the results.
pub proof fn lemma_qualifying_session_keeps_results(records: Seq<QualiResultView>)
    ensures
        SessionView::of_qualifying(records).session_type == SessionType::Qualifying,
        SessionView::of_qualifying(records).finished,
        SessionView::of_qualifying(records).standings.len() == records.len(),
        forall|i: int|
            0 <= i < records.len() ==> #[trigger] SessionView::of_qualifying(records).standings[i]
                == StandingView::of_qualifying(records[i]),
{
}

/// Every standing made of a result has a lap time that is a time of day
/// within the first hour.
pub proof fn lemma_standing_lap_time_valid(race: RaceResultView, qualifying: QualiResultView)
    ensures
        StandingView::of_race(race).lap_time.valid(),
        StandingView::of_race(race).lap_time.hour == 0,
        StandingView::of_qualifying(qualifying).lap_time.valid(),
        StandingView::of_qualifying(qualifying).lap_time.hour == 0,
{
    lemma_lap_time_valid(race.fastest_lap.time.time);
    lemma_lap_time_valid(
        best_qualifying_time_of(qualifying.q1_time, qualifying.q2_time, qualifying.q3_time),
    );
}

impl From<ErgastConstructor> for Constructor {
    fn from(c: ErgastConstructor) -> (constructor: Constructor)
        ensures
            constructor@ == ConstructorView::of(c@),
    {
        Constructor { name: c.name, id: c.constructor_id }
    }
}

impl FromSpecImpl<ErgastConstructor> for Constructor {
    open spec fn obeys_from_spec() -> bool {
        true
    }

    open spec fn from_spec(c: ErgastConstructor) -> Constructor {
        Constructor { name: c.name, id: c.constructor_id }
    }
}

impl From<ErgastDriver> for Driver {
    fn from(d: ErgastDriver) -> (driver: Driver)
        ensures
            driver@ == DriverView::of(d@),
    {
        Driver {
            id: d.driver_id,
            first_name: d.given_name,
            last_name: d.family_name,
            screen_name: d.code,
        }
    }
}

impl FromSpecImpl<ErgastDriver> for Driver {
    open spec fn obeys_from_spec() -> bool {
        true
    }

    open spec fn from_spec(d: ErgastDriver) -> Driver {
        Driver {
            id: d.driver_id,
            first_name: d.given_name,
            last_name: d.family_name,
            screen_name: d.code,
        }
    }
}

impl From<ErgastCircuit> for Circuit {
    fn from(c: ErgastCircuit) -> (circuit: Circuit)
        ensures
            circuit@ == CircuitView::of(c@),
    {
        Circuit {
            latitude: c.location.lat,
            longitude: c.location.long,
            locality: c.location.locality,
            country: c.location.country,
            id: c.id,
            name: c.name,
        }
    }
}

impl FromSpecImpl<ErgastCircuit> for Circuit {
    open spec fn obeys_from_spec() -> bool {
        true
    }

    open spec fn from_spec(c: ErgastCircuit) -> Circuit {
        Circuit {
            latitude: c.location.lat,
            longitude: c.location.long,
            locality: c.location.locality,
            country: c.location.country,
            id: c.id,
            name: c.name,
        }
    }
}

impl From<RaceResult> for Standing {
    fn from(r: RaceResult) -> (standing: Standing)
        ensures
            standing@ == StandingView::of_race(r@),
    {
        let lap_time = LapTime::parse_or_midnight(r.fastest_lap.time.time.as_str());
        let position = position_or_zero(r.position.as_str());
        proof {
            lap_time.lemma_of_view();
        }
        Standing {
            driver: Driver::from(r.driver),
            constructor: Constructor::from(r.constructor),
            position,
            lap_time,
        }
    }
}

impl FromSpecImpl<RaceResult> for Standing {
    open spec fn obeys_from_spec() -> bool {
        true
    }

    open spec fn from_spec(r: RaceResult) -> Standing {
        Standing {
            driver: Driver {
                id: r.driver.driver_id,
                first_name: r.driver.given_name,
                last_name: r.driver.family_name,
                screen_name: r.driver.code,
            },
            constructor: Constructor { name: r.constructor.name, id: r.constructor.constructor_id },
            position: position_of(r.position@) as i32,
            lap_time: LapTime::of(lap_time_or_midnight_of(r.fastest_lap.time.time@)),
        }
    }
}

impl From<QualiResult> for Standing {
    fn from(r: QualiResult) -> (standing: Standing)
        ensures
            standing@ == StandingView::of_qualifying(r@),
    {
        let lap_time = LapTime::parse_or_midnight(
            best_qualifying_time(r.q1_time.as_str(), r.q2_time.as_str(), r.q3_time.as_str()),
        );
        let position = position_or_zero(r.position.as_str());
        proof {
            lap_time.lemma_of_view();
        }
        Standing {
            driver: Driver::from(r.driver),
            constructor: Constructor::from(r.constructor),
            position,
            lap_time,
        }
    }
}

impl FromSpecImpl<QualiResult> for Standing {
    open spec fn obeys_from_spec() -> bool {
        true
    }

    open spec fn from_spec(r: QualiResult) -> Standing {
        Standing {
            driver: Driver {
                id: r.driver.driver_id,
                first_name: r.driver.given_name,
                last_name: r.driver.family_name,
                screen_name: r.driver.code,
            },
            constructor: Constructor { name: r.constructor.name, id: r.constructor.constructor_id },
            position: position_of(r.position@) as i32,
            lap_time: LapTime::of(
                lap_time_or_midnight_of(
                    best_qualifying_time_of(r.q1_time@, r.q2_time@, r.q3_time@),
                ),
            ),
        }
    }
}

impl From<Vec<RaceResult>> for Session {
    fn from(v: Vec<RaceResult>) -> (session: Session)
        ensures
            session@ == SessionView::of_race(views(v@)),
    {
        let mut standings: Vec<Standing> = Vec::new();
        for r in it: v.into_iter()
            invariant
                it.seq() == v@,
                standings@.len() == it.index(),
                forall|i: int|
                    0 <= i < it.index() ==> (#[trigger] standings@[i])@ == StandingView::of_race(
                        v@[i]@,
                    ),
        {
            standings.push(Standing::from(r));
        }
        // The provider's data is historical, so the session is over.
        let session = Session { session_type: SessionType::Race, finished: true, standings };
        assert(session@.standings =~= SessionView::of_race(views(v@)).standings);
        session
    }
}

impl FromSpecImpl<Vec<RaceResult>> for Session {
    open spec fn obeys_from_spec() -> bool {
        false
    }

    open spec fn from_spec(v: Vec<RaceResult>) -> Session {
        choose|session: Session| session@ == SessionView::of_race(views(v@))
    }
}

impl From<Vec<QualiResult>> for Session {
    fn from(v: Vec<QualiResult>) -> (session: Session)
        ensures
            session@ == SessionView::of_qualifying(views(v@)),
    {
        let mut standings: Vec<Standing> = Vec::new();
        for r in it: v.into_iter()
            invariant
                it.seq() == v@,
                standings@.len() == it.index(),
                forall|i: int|
                    0 <= i < it.index() ==> (#[trigger] standings@[i])@
                        == StandingView::of_qualifying(v@[i]@),
        {
            standings.push(Standing::from(r));
        }
        // The provider's data is historical, so the session is over.
        let session = Session { session_type: SessionType::Qualifying, finished: true, standings };
        assert(session@.standings =~= SessionView::of_qualifying(views(v@)).standings);
        session
    }
}

impl FromSpecImpl<Vec<QualiResult>> for Session {
    open spec fn obeys_from_spec() -> bool {
        false
    }

    open spec fn from_spec(v: Vec<QualiResult>) -> Session {
        choose|session: Session| session@ == SessionView::of_qualifying(views(v@))
    }
}

} // verus!
