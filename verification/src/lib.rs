//! Historical Formula 1 data: seasons, weekends, sessions and standings, read
//! from the responses of the Ergast statistics provider.
pub mod domain;
pub mod ergast;
pub mod historical;
pub mod json;
pub mod laptime;
pub mod model;
pub mod season;
pub mod text;
pub mod weekend;

pub use domain::{Circuit, Constructor, Driver, F1Error, Session, SessionType, Standing};
pub use season::Season;
pub use weekend::Weekend;

use chrono::Datelike;
use vstd::prelude::*;

verus! {

/// The first season there is data for.
pub const EARLIEST_SEASON: i32 = 1950;

/// Whether `seasons` are the years from `year` down to the earliest season.
pub open spec fn seasons_down_from(seasons: Seq<i32>, year: int) -> bool {
    &&& seasons.len() == if year >= EARLIEST_SEASON {
        year - EARLIEST_SEASON + 1
    } else {
        0
    }
    &&& forall|i: int| 0 <= i < seasons.len() ==> #[trigger] seasons[i] == year - i
}

/// The year of the current date in UTC, by `chrono::Utc::now()` and
/// `Datelike::year`. Which year that is depends on the clock. `Utc::now`
/// does not return for a clock set before 1970, so the year is 1970 at least.
#[verifier::external_body]
fn current_year() -> (year: i32)
    ensures
        year >= 1970,
{
    chrono::Utc::now().year()
}

/// The seasons from `year` back to the earliest, latest first; none for a
/// year before the earliest season.
pub fn seasons_through(year: i32) -> (seasons: Vec<i32>)
    ensures
        seasons_down_from(seasons@, year as int),
{
    let mut seasons: Vec<i32> = Vec::new();
    let mut next: i32 = year;
    while next >= EARLIEST_SEASON
        invariant
            EARLIEST_SEASON - 1 <= next <= year || (next == year && year < EARLIEST_SEASON),
            seasons@.len() == year - next,
            forall|i: int| 0 <= i < seasons@.len() ==> #[trigger] seasons@[i] == year - i,
        decreases next - EARLIEST_SEASON + 1,
    {
        seasons.push(next);
        next -= 1;
    }
    seasons
}

/// The seasons there is data for: from the current year back to 1950,
/// latest first.
pub fn get_available_seasons() -> (seasons: Vec<i32>)
    ensures
        seasons@.len() > 0,
        seasons@[0] >= 1970,
        seasons_down_from(seasons@, seasons@[0] as int),
        seasons@.last() == EARLIEST_SEASON,
{
    seasons_through(current_year())
}

} // verus!
