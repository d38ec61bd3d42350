//! A season: a year and its weekends.
use vstd::prelude::*;
use crate::domain::F1Error;
use crate::ergast::{lemma_after_gets_concat, lemma_leads_to_transitive, Ergast};
use crate::historical::{get_season, season_of, season_requested, ErgastWeekendView, World};
use crate::model::{result_view, views};
use crate::weekend::{Weekend, WeekendView};

verus! {

/// The weekends of one year, in the order in which the provider lists its rounds.
pub struct Season {
    pub year: i32,
    pub weekends: Vec<Weekend>,
}

/// The mathematical value of a [`Season`].
pub struct SeasonView {
    pub year: int,
    pub weekends: Seq<WeekendView>,
}

impl View for Season {
    type V = SeasonView;

    open spec fn view(&self) -> SeasonView {
        SeasonView { year: self.year as int, weekends: views(self.weekends@) }
    }
}

/// The paths that are asked for while the sessions of some weekends are
/// had, weekend by weekend.
pub open spec fn sessions_requested(weekends: Seq<ErgastWeekendView>) -> Seq<Seq<char>>
    decreases weekends.len(),
{
    if weekends.len() == 0 {
        Seq::empty()
    } else {
        sessions_requested(weekends.drop_last()) + WeekendView::sessions_requested(weekends.last())
    }
}

impl SeasonView {
    /// The paths that are asked for while the season of a year is had:
    /// those for the list of its weekends, then those of each weekend's
    /// sessions where the list can be had.
    pub open spec fn requested(world: World, year: int) -> Seq<Seq<char>> {
        season_requested(world, year) + match season_of(world, year) {
            Ok(weekends) => sessions_requested(weekends),
            Err(_) => Seq::empty(),
        }
    }

    /// The season of a year in a world: the error with which its weekends
    /// cannot be listed, else one weekend for each that the provider lists,
    /// in the same order.
    pub open spec fn found(world: World, year: int) -> Result<SeasonView, F1Error> {
        match season_of(world, year) {
            Ok(weekends) => Ok(
                SeasonView {
                    year,
                    weekends: weekends.map_values(
                        |weekend: ErgastWeekendView| WeekendView::of(world, weekend),
                    ),
                },
            ),
            Err(error) => Err(error),
        }
    }
}

impl Season {
    /// Gets the season of a year with all its weekends. There are no
    /// partial seasons: it fails where the list of rounds or the identity of
    /// one round cannot be had.
    pub fn new(client: &mut Ergast, year: i32) -> (season: Result<Season, F1Error>)
        ensures
            result_view(season) == SeasonView::found(old(client)@.world(), year as int),
            final(client)@ == old(client)@.after_gets(
                SeasonView::requested(old(client)@.world(), year as int),
            ),
            old(client)@.leads_to(final(client)@),
    {
        let ghost world = client@.world();
        let ghost first = season_requested(world, year as int);
        proof {
            assert(first + Seq::<Seq<char>>::empty() == first);
        }
        let listed = match get_season(client, year) {
            Ok(listed) => listed,
            Err(error) => {
                return Err(error);
            },
        };
        proof {
            assert(views(listed@).take(0).len() == 0);
            assert(first + sessions_requested(views(listed@).take(0)) == first);
        }
        let mut weekends: Vec<Weekend> = Vec::new();
        for w in it: listed.into_iter()
            invariant
                it.seq() == listed@,
                old(client)@.leads_to(client@),
                world == old(client)@.world(),
                first == season_requested(world, year as int),
                client@ == old(client)@.after_gets(
                    first + sessions_requested(views(listed@).take(it.index())),
                ),
                weekends@.len() == it.index(),
                forall|i: int|
                    0 <= i < it.index() ==> (#[trigger] weekends@[i])@ == WeekendView::of(
                        world,
                        listed@[i]@,
                    ),
        {
            let ghost before = client@;
            proof {
                let done = views(listed@).take(it.index());
                let next = views(listed@).take(it.index() + 1);
                assert(next.drop_last() == done);
                assert(next.last() == w@);
                let asked = first + sessions_requested(done);
                assert(first + sessions_requested(next) == asked + WeekendView::sessions_requested(
                    w@,
                ));
                lemma_after_gets_concat(old(client)@, asked, WeekendView::sessions_requested(w@));
            }
            let weekend = Weekend::from_ergast(client, w);
            proof {
                lemma_leads_to_transitive(old(client)@, before, client@);
            }
            weekends.push(weekend);
        }
        proof {
            assert(views(listed@).take(listed@.len() as int) == views(listed@));
        }
        let season = Season { year, weekends };
        assert(season@.weekends == views(listed@).map_values(
            |weekend: ErgastWeekendView| WeekendView::of(world, weekend),
        ));
        Ok(season)
    }
}

} // verus!
