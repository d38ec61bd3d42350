//! A race weekend: its name, its circuit and its sessions.
use vstd::prelude::*;
use crate::domain::{Circuit, CircuitView, F1Error, Session, SessionType, SessionView};
use crate::ergast::{
    lemma_after_gets_concat, lemma_after_gets_push, lemma_leads_to_transitive, Ergast,
};
use crate::historical::api_structs::{QualiResult, RaceResult};
use crate::historical::{
    qualifying_path, results_path, weekend_path, ErgastWeekend, ErgastWeekendView, World,
};
use crate::model::{result_view, views};

verus! {

/// One racing event within a season. It has two sessions: qualifying, then
/// the race.
#[derive(Debug, Clone)]
pub struct Weekend {
    pub name: String,
    pub sessions: Vec<Session>,
    pub circuit: Circuit,
}

/// The mathematical value of a [`Weekend`].
pub struct WeekendView {
    pub name: Seq<char>,
    pub sessions: Seq<SessionView>,
    pub circuit: CircuitView,
}

impl View for Weekend {
    type V = WeekendView;

    open spec fn view(&self) -> WeekendView {
        WeekendView { name: self.name@, sessions: views(self.sessions@), circuit: self.circuit@ }
    }
}

impl WeekendView {
    /// The qualifying of a weekend in a world. Results that cannot be had
    /// leave the session without standings.
    pub open spec fn qualifying(world: World, weekend: ErgastWeekendView) -> SessionView {
        SessionView::of_qualifying(
            match weekend.qualifying_results(world) {
                Ok(results) => results,
                Err(_) => Seq::empty(),
            },
        )
    }

    /// The race of a weekend in a world. Results that cannot be had leave
    /// the session without standings.
    pub open spec fn race(world: World, weekend: ErgastWeekendView) -> SessionView {
        SessionView::of_race(
            match weekend.race_results(world) {
                Ok(results) => results,
                Err(_) => Seq::empty(),
            },
        )
    }

    /// The weekend that the provider's weekend stands for in a world: its
    /// name and circuit, with qualifying and race as its sessions.
    pub open spec fn of(world: World, weekend: ErgastWeekendView) -> WeekendView {
        WeekendView {
            name: weekend.name,
            sessions: seq![
                WeekendView::qualifying(world, weekend),
                WeekendView::race(world, weekend),
            ],
            circuit: CircuitView::of(weekend.circuit),
        }
    }

    /// The weekend of a round in a world: the error with which the
    /// provider's weekend cannot be had, else the weekend that it stands for.
    pub open spec fn found(world: World, year: int, round: int) -> Result<WeekendView, F1Error> {
        match ErgastWeekendView::found(world, year, round) {
            Ok(weekend) => Ok(WeekendView::of(world, weekend)),
            Err(error) => Err(error),
        }
    }

    /// The paths that are asked for while the sessions of a weekend are
    /// had: that of its qualifying results, then that of its race results.
    pub open spec fn sessions_requested(weekend: ErgastWeekendView) -> Seq<Seq<char>> {
        seq![
            qualifying_path(weekend.year, weekend.round),
            results_path(weekend.year, weekend.round),
        ]
    }

    /// The paths that are asked for while the weekend of a round is had:
    /// that of the round, and those of its sessions where the provider's
    /// weekend can be had.
    pub open spec fn requested(world: World, year: int, round: int) -> Seq<Seq<char>> {
        seq![weekend_path(year, round)] + match ErgastWeekendView::found(world, year, round) {
            Ok(weekend) => WeekendView::sessions_requested(weekend),
            Err(_) => Seq::empty(),
        }
    }

    /// The weekend without name, sessions and circuit.
    pub open spec fn empty() -> WeekendView {
        WeekendView { name: Seq::empty(), sessions: Seq::empty(), circuit: CircuitView::empty() }
    }
}

/// A weekend always has exactly two sessions, both finished: qualifying
/// first, then the race.
pub proof fn lemma_weekend_sessions(world: World, weekend: ErgastWeekendView)
    ensures
        WeekendView::of(world, weekend).sessions.len() == 2,
        WeekendView::of(world, weekend).sessions[0].session_type == SessionType::Qualifying,
        WeekendView::of(world, weekend).sessions[1].session_type == SessionType::Race,
        WeekendView::of(world, weekend).sessions[0].finished,
        WeekendView::of(world, weekend).sessions[1].finished,
{
}

impl Weekend {
    /// Completes the provider's weekend with its sessions. A weekend
    /// without results is still a weekend: where qualifying or race results
    /// cannot be fetched or decoded, that session has no standings.
    pub fn from_ergast(client: &mut Ergast, w: ErgastWeekend) -> (weekend: Weekend)
        ensures
            weekend@ == WeekendView::of(old(client)@.world(), w@),
            final(client)@ == old(client)@.after_gets(WeekendView::sessions_requested(w@)),
            old(client)@.leads_to(final(client)@),
    {
        proof {
            let first = qualifying_path(w@.year, w@.round);
            let second = results_path(w@.year, w@.round);
            assert(WeekendView::sessions_requested(w@) == Seq::<Seq<char>>::empty().push(
                first,
            ).push(second));
            lemma_after_gets_push(client@, Seq::empty(), first);
            lemma_after_gets_push(client@, Seq::<Seq<char>>::empty().push(first), second);
        }
        let qualifying: Vec<QualiResult> = match w.qualifying_results(client) {
            Ok(results) => results,
            Err(_) => Vec::new(),
        };
        let ghost between = client@;
        let race: Vec<RaceResult> = match w.race_results(client) {
            Ok(results) => results,
            Err(_) => Vec::new(),
        };
        proof {
            lemma_leads_to_transitive(old(client)@, between, client@);
            assert(views(qualifying@) == match w@.qualifying_results(old(client)@.world()) {
                Ok(results) => results,
                Err(_) => Seq::empty(),
            });
            assert(views(race@) == match w@.race_results(old(client)@.world()) {
                Ok(results) => results,
                Err(_) => Seq::empty(),
            });
        }
        let mut sessions: Vec<Session> = Vec::new();
        sessions.push(Session::from(qualifying));
        sessions.push(Session::from(race));
        let weekend = Weekend { name: w.name, sessions, circuit: Circuit::from(w.circuit) };
        assert(weekend@.sessions == WeekendView::of(old(client)@.world(), w@).sessions);
        weekend
    }

    /// Gets the weekend of a round with its sessions. Fails where the
    /// provider's weekend cannot be had.
    pub fn new(client: &mut Ergast, year: i32, round: i32) -> (weekend: Result<Weekend, F1Error>)
        ensures
            result_view(weekend) == WeekendView::found(
                old(client)@.world(),
                year as int,
                round as int,
            ),
            final(client)@ == old(client)@.after_gets(
                WeekendView::requested(old(client)@.world(), year as int, round as int),
            ),
            old(client)@.leads_to(final(client)@),
    {
        let ghost first = seq![weekend_path(year as int, round as int)];
        proof {
            assert(Seq::<Seq<char>>::empty().push(weekend_path(year as int, round as int))
                == first);
            assert(first + Seq::<Seq<char>>::empty() == first);
            lemma_after_gets_push(client@, Seq::empty(), weekend_path(year as int, round as int));
        }
        let found = match ErgastWeekend::new(client, year, round) {
            Ok(found) => found,
            Err(error) => {
                return Err(error);
            },
        };
        let ghost between = client@;
        proof {
            lemma_after_gets_concat(old(client)@, first, WeekendView::sessions_requested(found@));
        }
        let weekend = Weekend::from_ergast(client, found);
        proof {
            lemma_leads_to_transitive(old(client)@, between, client@);
        }
        Ok(weekend)
    }
}

impl Default for Weekend {
    fn default() -> (weekend: Weekend)
        ensures
            weekend@ == WeekendView::empty(),
    {
        let weekend = Weekend {
            name: String::new(),
            sessions: Vec::new(),
            circuit: Circuit::default(),
        };
        assert(weekend@.sessions == Seq::<SessionView>::empty());
        weekend
    }
}

} // verus!
