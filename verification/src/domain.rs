//! The domain model: what a season, a weekend, a session and a standing are.
use vstd::prelude::*;
use vstd::string::*;
use crate::laptime::{Clock, LapTime};
use crate::model::views;

verus! {

/// Why a request for provider data failed.
#[derive(Debug, Clone, Copy, PartialEq, Eq, Structural)]
pub enum F1Error {
    /// The payload does not have the expected shape.
    JsonDeserialization,
    /// The provider could not be reached.
    ApiNotReachable,
    /// The response cache could not be locked.
    Cache,
}

impl F1Error {
    /// The text that describes the error.
    pub open spec fn message(self) -> Seq<char> {
        match self {
            F1Error::JsonDeserialization => "API JSON deserialization problem"@,
            F1Error::ApiNotReachable => "API not reachable"@,
            F1Error::Cache => "Cache Error"@,
        }
    }

    /// Describes the error in words.
    pub fn to_string(&self) -> (text: String)
        ensures
            text@ == self.message(),
    {
        match self {
            F1Error::JsonDeserialization => String::from_str("API JSON deserialization problem"),
            F1Error::ApiNotReachable => String::from_str("API not reachable"),
            F1Error::Cache => String::from_str("Cache Error"),
        }
    }
}

/// The kinds of on-track activity of a weekend.
#[derive(Debug, Clone, Copy, PartialEq, Eq, Structural)]
pub enum SessionType {
    Practice1,
    Practice2,
    Practice3,
    Qualifying,
    Sprint,
    Race,
}

impl SessionType {
    /// The name of the session type.
    pub open spec fn name(self) -> Seq<char> {
        match self {
            SessionType::Practice1 => "Practice1"@,
            SessionType::Practice2 => "Practice2"@,
            SessionType::Practice3 => "Practice3"@,
            SessionType::Qualifying => "Qualifying"@,
            SessionType::Sprint => "Sprint"@,
            SessionType::Race => "Race"@,
        }
    }

    /// Names the session type.
    pub fn to_string(&self) -> (text: String)
        ensures
            text@ == self.name(),
    {
        match self {
            SessionType::Practice1 => String::from_str("Practice1"),
            SessionType::Practice2 => String::from_str("Practice2"),
            SessionType::Practice3 => String::from_str("Practice3"),
            SessionType::Qualifying => String::from_str("Qualifying"),
            SessionType::Sprint => String::from_str("Sprint"),
            SessionType::Race => String::from_str("Race"),
        }
    }
}

impl Default for SessionType {
    fn default() -> (kind: SessionType)
        ensures
            kind == SessionType::Race,
    {
        SessionType::Race
    }
}

/// A team.
#[derive(Debug, Clone)]
pub struct Constructor {
    pub id: String,
    pub name: String,
}

/// The mathematical value of a [`Constructor`].
pub struct ConstructorView {
    pub id: Seq<char>,
    pub name: Seq<char>,
}

impl View for Constructor {
    type V = ConstructorView;

    open spec fn view(&self) -> ConstructorView {
        ConstructorView { id: self.id@, name: self.name@ }
    }
}

impl ConstructorView {
    /// The constructor without id and name.
    pub open spec fn empty() -> ConstructorView {
        ConstructorView { id: Seq::empty(), name: Seq::empty() }
    }
}

impl Default for Constructor {
    fn default() -> (constructor: Constructor)
        ensures
            constructor@ == ConstructorView::empty(),
    {
        Constructor { id: String::new(), name: String::new() }
    }
}

/// A driver. `id` is the provider's stable identifier, `screen_name` the
/// short code shown on timing screens.
#[derive(Debug, Clone)]
pub struct Driver {
    pub id: String,
    pub first_name: String,
    pub last_name: String,
    pub screen_name: String,
}

/// The mathematical value of a [`Driver`].
pub struct DriverView {
    pub id: Seq<char>,
    pub first_name: Seq<char>,
    pub last_name: Seq<char>,
    pub screen_name: Seq<char>,
}

impl View for Driver {
    type V = DriverView;

    open spec fn view(&self) -> DriverView {
        DriverView {
            id: self.id@,
            first_name: self.first_name@,
            last_name: self.last_name@,
            screen_name: self.screen_name@,
        }
    }
}

impl DriverView {
    /// The driver without id and names.
    pub open spec fn empty() -> DriverView {
        DriverView {
            id: Seq::empty(),
            first_name: Seq::empty(),
            last_name: Seq::empty(),
            screen_name: Seq::empty(),
        }
    }
}

impl Default for Driver {
    fn default() -> (driver: Driver)
        ensures
            driver@ == DriverView::empty(),
    {
        Driver {
            id: String::new(),
            first_name: String::new(),
            last_name: String::new(),
            screen_name: String::new(),
        }
    }
}

/// One competitor's result within a session.
#[derive(Debug, Clone)]
pub struct Standing {
    pub driver: Driver,
    pub constructor: Constructor,
    pub position: i32,
    pub lap_time: LapTime,
}

/// The mathematical value of a [`Standing`].
pub struct StandingView {
    pub driver: DriverView,
    pub constructor: ConstructorView,
    pub position: int,
    pub lap_time: Clock,
}

impl View for Standing {
    type V = StandingView;

    open spec fn view(&self) -> StandingView {
        StandingView {
            driver: self.driver@,
            constructor: self.constructor@,
            position: self.position as int,
            lap_time: self.lap_time@,
        }
    }
}

impl Default for Standing {
    fn default() -> (standing: Standing)
        ensures
            standing@ == (StandingView {
                driver: DriverView::empty(),
                constructor: ConstructorView::empty(),
                position: 0,
                lap_time: Clock::midnight(),
            }),
    {
        Standing {
            driver: Driver::default(),
            constructor: Constructor::default(),
            position: 0,
            lap_time: LapTime::midnight(),
        }
    }
}

/// One on-track activity of a weekend and its classification.
#[derive(Debug, Clone)]
pub struct Session {
    pub session_type: SessionType,
    pub finished: bool,
    pub standings: Vec<Standing>,
}

/// The mathematical value of a [`Session`].
pub struct SessionView {
    pub session_type: SessionType,
    pub finished: bool,
    pub standings: Seq<StandingView>,
}

impl View for Session {
    type V = SessionView;

    open spec fn view(&self) -> SessionView {
        SessionView {
            session_type: self.session_type,
            finished: self.finished,
            standings: views(self.standings@),
        }
    }
}

impl Default for Session {
    fn default() -> (session: Session)
        ensures
            session@ == (SessionView {
                session_type: SessionType::Race,
                finished: false,
                standings: Seq::empty(),
            }),
    {
        let session = Session {
            session_type: SessionType::Race,
            finished: false,
            standings: Vec::new(),
        };
        assert(views(session.standings@) == Seq::<StandingView>::empty());
        session
    }
}

/// Where a weekend takes place. Latitude and longitude are kept as the
/// decimal texts that the provider sends.
#[derive(Debug, Clone)]
pub struct Circuit {
    pub id: String,
    pub name: String,
    pub latitude: String,
    pub longitude: String,
    pub locality: String,
    pub country: String,
}

/// The mathematical value of a [`Circuit`].
pub struct CircuitView {
    pub id: Seq<char>,
    pub name: Seq<char>,
    pub latitude: Seq<char>,
    pub longitude: Seq<char>,
    pub locality: Seq<char>,
    pub country: Seq<char>,
}

impl View for Circuit {
    type V = CircuitView;

    open spec fn view(&self) -> CircuitView {
        CircuitView {
            id: self.id@,
            name: self.name@,
            latitude: self.latitude@,
            longitude: self.longitude@,
            locality: self.locality@,
            country: self.country@,
        }
    }
}

impl CircuitView {
    /// The circuit of which nothing is known.
    pub open spec fn empty() -> CircuitView {
        CircuitView {
            id: Seq::empty(),
            name: Seq::empty(),
            latitude: Seq::empty(),
            longitude: Seq::empty(),
            locality: Seq::empty(),
            country: Seq::empty(),
        }
    }
}

impl Default for Circuit {
    fn default() -> (circuit: Circuit)
        ensures
            circuit@ == CircuitView::empty(),
    {
        Circuit {
            id: String::new(),
            name: String::new(),
            latitude: String::new(),
            longitude: String::new(),
            locality: String::new(),
            country: String::new(),
        }
    }
}

} // verus!
