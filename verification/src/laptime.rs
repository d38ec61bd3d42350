//! Lap times: a time of day with millisecond precision, and the reading of
//! the provider's `M:SS.mmm` texts.
use vstd::prelude::*;
use crate::model::{option_view, views};
use crate::text::{
    chars_of, is_digit, is_number, lemma_split_at_last_separator, lemma_split_without_separator,
    lemma_unsigned_of_number, number_value, parse_u32, split, split_on, unsigned_of,
};

verus! {

/// The mathematical value of a [`LapTime`].
pub struct Clock {
    pub hour: int,
    pub minute: int,
    pub second: int,
    pub milli: int,
}

impl Clock {
    /// Whether the four fields name a time of day.
    pub open spec fn valid(self) -> bool {
        &&& 0 <= self.hour < 24
        &&& 0 <= self.minute < 60
        &&& 0 <= self.second < 60
        &&& 0 <= self.milli < 1000
    }

    /// 00:00:00.000.
    pub open spec fn midnight() -> Clock {
        Clock { hour: 0, minute: 0, second: 0, milli: 0 }
    }
}

/// A time of day with millisecond precision. Every value is a valid time:
/// hours below 24, minutes and seconds below 60, milliseconds below 1000.
#[derive(Clone, Copy, Debug, PartialEq, Eq)]
pub struct LapTime {
    hour: u32,
    minute: u32,
    second: u32,
    milli: u32,
}

impl View for LapTime {
    type V = Clock;

    closed spec fn view(&self) -> Clock {
        Clock {
            hour: self.hour as int,
            minute: self.minute as int,
            second: self.second as int,
            milli: self.milli as int,
        }
    }
}

/// The minutes of a lap time text, before seconds are carried over: the
/// number before the first `:`, or 0 where there is no `:` or no number.
pub open spec fn written_minutes(text: Seq<char>) -> int {
    let parts = split_on(text, ':');
    if parts.len() >= 2 {
        number_or_zero_of(parts[0])
    } else {
        0
    }
}

/// The part of a lap time text that holds seconds and milliseconds: what
/// follows the last `:`, or the whole text where there is no `:`.
pub open spec fn seconds_part(text: Seq<char>) -> Seq<char> {
    split_on(text, ':').last()
}

/// The seconds of a lap time text, before they are carried over: the number
/// in front of the first `.` of the seconds part, or 0 where it is no number.
pub open spec fn written_seconds(text: Seq<char>) -> int {
    number_or_zero_of(split_on(seconds_part(text), '.')[0])
}

/// The milliseconds of a lap time text: the number between the first and the
/// second `.` of the seconds part, or 0 where there is no `.` or no number.
pub open spec fn written_millis(text: Seq<char>) -> int {
    let parts = split_on(seconds_part(text), '.');
    if parts.len() >= 2 {
        number_or_zero_of(parts[1])
    } else {
        0
    }
}

/// The number that `text` writes, and 0 for a text that writes none.
pub open spec fn number_or_zero_of(text: Seq<char>) -> int {
    match unsigned_of(text) {
        Some(n) => n as int,
        None => 0,
    }
}

/// The time of day that minutes, seconds and milliseconds give once whole
/// minutes are carried out of the seconds; `None` where the minutes then
/// reach 60 or the milliseconds reach 1000.
pub open spec fn carried(minutes: int, seconds: int, millis: int) -> Option<Clock> {
    if minutes + seconds / 60 < 60 && millis < 1000 {
        Some(Clock { hour: 0, minute: minutes + seconds / 60, second: seconds % 60, milli: millis })
    } else {
        None
    }
}

/// The time of day that a lap time text stands for.
pub open spec fn lap_time_of(text: Seq<char>) -> Option<Clock> {
    carried(written_minutes(text), written_seconds(text), written_millis(text))
}

/// The time of day that a lap time text stands for, midnight where it stands for none.
pub open spec fn lap_time_or_midnight_of(text: Seq<char>) -> Clock {
    match lap_time_of(text) {
        Some(clock) => clock,
        None => Clock::midnight(),
    }
}

/// The qualifying time that counts: the one of the last segment that the
/// driver set a time in.
pub open spec fn best_qualifying_time_of(q1: Seq<char>, q2: Seq<char>, q3: Seq<char>) -> Seq<char> {
    if q3.len() > 0 {
        q3
    } else if q2.len() > 0 {
        q2
    } else {
        q1
    }
}

impl LapTime {
    #[verifier::type_invariant]
    spec fn in_range(self) -> bool {
        self.hour < 24 && self.minute < 60 && self.second < 60 && self.milli < 1000
    }

    /// Some lap time whose value is `clock`; for a valid time of day, the one.
    pub closed spec fn of(clock: Clock) -> LapTime {
        LapTime {
            hour: clock.hour as u32,
            minute: clock.minute as u32,
            second: clock.second as u32,
            milli: clock.milli as u32,
        }
    }

    /// A lap time is the one that its value names.
    pub proof fn lemma_of_view(self)
        ensures
            LapTime::of(self@) == self,
    {
    }

    /// Two lap times with the same value are the same lap time.
    pub proof fn lemma_view_injective(self, other: LapTime)
        requires
            self@ == other@,
        ensures
            self == other,
    {
    }

    /// 00:00:00.000.
    pub fn midnight() -> (time: LapTime)
        ensures
            time@ == Clock::midnight(),
    {
        LapTime { hour: 0, minute: 0, second: 0, milli: 0 }
    }

    /// The time of day with the given fields, or `None` where a field is out
    /// of its range.
    pub fn from_hms_milli_opt(hour: u32, minute: u32, second: u32, milli: u32) -> (time: Option<
        LapTime,
    >)
        ensures
            time is Some <==> hour < 24 && minute < 60 && second < 60 && milli < 1000,
            time matches Some(t) ==> t@ == (Clock {
                hour: hour as int,
                minute: minute as int,
                second: second as int,
                milli: milli as int,
            }),
    {
        if hour < 24 && minute < 60 && second < 60 && milli < 1000 {
            Some(LapTime { hour, minute, second, milli })
        } else {
            None
        }
    }

    /// The time within the first hour that minutes, seconds and milliseconds
    /// give once whole minutes are carried out of the seconds. Rejects what
    /// is no time of day after that.
    pub fn normalized(minutes: u32, seconds: u32, millis: u32) -> (time: Option<LapTime>)
        ensures
            option_view(time) == carried(minutes as int, seconds as int, millis as int),
    {
        let carry: u32 = seconds / 60;
        if minutes < 60 && carry < 60 && minutes + carry < 60 && millis < 1000 {
            Some(LapTime { hour: 0, minute: minutes + carry, second: seconds % 60, milli: millis })
        } else {
            None
        }
    }

    /// Reads a lap time of the shape `M:SS.mmm` or `SS.mmm`. A part that is
    /// no number counts as 0, so the empty text is midnight. Rejects a text
    /// whose numbers give no time of day.
    pub fn parse(text: &str) -> (time: Option<LapTime>)
        ensures
            option_view(time) == lap_time_of(text@),
    {
        let chars = chars_of(text);
        let parts = split(&chars, ':');
        let minutes: u32 = if parts.len() >= 2 {
            number_or_zero(&parts[0])
        } else {
            0
        };
        let last = &parts[parts.len() - 1];
        assert(last@ == seconds_part(text@)) by {
            assert(views(parts@).last() == parts@.last()@);
        }
        assert(parts.len() >= 2 ==> parts@[0]@ == views(parts@)[0]);
        let fields = split(last, '.');
        assert(fields@[0]@ == views(fields@)[0]);
        let seconds: u32 = number_or_zero(&fields[0]);
        let millis: u32 = if fields.len() >= 2 {
            assert(fields@[1]@ == views(fields@)[1]);
            number_or_zero(&fields[1])
        } else {
            0
        };
        LapTime::normalized(minutes, seconds, millis)
    }

    /// Reads a lap time as [`LapTime::parse`] does, and gives midnight for a
    /// text that it rejects.
    pub fn parse_or_midnight(text: &str) -> (time: LapTime)
        ensures
            time@ == lap_time_or_midnight_of(text@),
    {
        match LapTime::parse(text) {
            Some(time) => time,
            None => LapTime::midnight(),
        }
    }

    /// The hour of the time, within its range.
    pub fn hour(&self) -> (hour: u32)
        ensures
            hour == self@.hour,
            self@.valid(),
    {
        proof {
            use_type_invariant(self);
        }
        self.hour
    }

    /// The minute of the time, within its range.
    pub fn minute(&self) -> (minute: u32)
        ensures
            minute == self@.minute,
            self@.valid(),
    {
        proof {
            use_type_invariant(self);
        }
        self.minute
    }

    /// The second of the time, within its range.
    pub fn second(&self) -> (second: u32)
        ensures
            second == self@.second,
            self@.valid(),
    {
        proof {
            use_type_invariant(self);
        }
        self.second
    }

    /// The millisecond of the time, within its range.
    pub fn millisecond(&self) -> (milli: u32)
        ensures
            milli == self@.milli,
            self@.valid(),
    {
        proof {
            use_type_invariant(self);
        }
        self.milli
    }
}

/// Whatever the text, the time read from it is a time of day within the
/// first hour.
pub proof fn lemma_lap_time_valid(text: Seq<char>)
    ensures
        lap_time_of(text) matches Some(time) ==> time.valid() && time.hour == 0,
        lap_time_or_midnight_of(text).valid(),
        lap_time_or_midnight_of(text).hour == 0,
{
}

/// The empty text stands for midnight.
pub proof fn lemma_empty_text_is_midnight()
    ensures
        lap_time_of(Seq::<char>::empty()) == Some(Clock::midnight()),
{
    let empty = Seq::<char>::empty();
    lemma_split_without_separator(empty, ':');
    lemma_split_without_separator(empty, '.');
    assert(seq![empty].last() == empty);
    assert(unsigned_of(empty) is None);
}

/// A text `m:s.ms` of three numbers stands for the time with `m + s / 60`
/// minutes, `s % 60` seconds and `ms` milliseconds: whole minutes are
/// carried out of the seconds, which end up below 60. The text is rejected
/// exactly where the minutes then reach 60 or `ms` reaches 1000.
pub proof fn lemma_seconds_carry_into_minutes(minutes: Seq<char>, seconds: Seq<char>, millis: Seq<char>)
    requires
        is_number(minutes) && number_value(minutes) <= u32::MAX,
        is_number(seconds) && number_value(seconds) <= u32::MAX,
        is_number(millis) && number_value(millis) <= u32::MAX,
    ensures
        lap_time_of(minutes + seq![':'] + seconds + seq!['.'] + millis) == carried(
            number_value(minutes),
            number_value(seconds),
            number_value(millis),
        ),
        lap_time_of(minutes + seq![':'] + seconds + seq!['.'] + millis) matches Some(time) ==> {
            &&& time.minute == number_value(minutes) + number_value(seconds) / 60
            &&& time.second == number_value(seconds) % 60
            &&& 0 <= time.second <= 59
            &&& time.milli == number_value(millis)
        },
{
    let rest = seconds + seq!['.'] + millis;
    let text = minutes + seq![':'] + seconds + seq!['.'] + millis;
    assert(text == minutes + seq![':'] + rest);
    assert forall|i: int| 0 <= i < rest.len() implies rest[i] != ':' by {
        if i < seconds.len() {
            assert(is_digit(seconds[i]));
        } else if i > seconds.len() {
            assert(is_digit(millis[i - seconds.len() - 1]));
        }
    }
    assert forall|i: int| 0 <= i < minutes.len() implies minutes[i] != ':' by {
        assert(is_digit(minutes[i]));
    }
    lemma_split_at_last_separator(minutes, rest, ':');
    lemma_split_without_separator(minutes, ':');
    assert(split_on(text, ':') == seq![minutes, rest]);
    assert forall|i: int| 0 <= i < millis.len() implies millis[i] != '.' by {
        assert(is_digit(millis[i]));
    }
    assert forall|i: int| 0 <= i < seconds.len() implies seconds[i] != '.' by {
        assert(is_digit(seconds[i]));
    }
    lemma_split_at_last_separator(seconds, millis, '.');
    lemma_split_without_separator(seconds, '.');
    assert(split_on(rest, '.') == seq![seconds, millis]);
    lemma_unsigned_of_number(minutes);
    lemma_unsigned_of_number(seconds);
    lemma_unsigned_of_number(millis);
}

/// Reads an unsigned number, and gives 0 for a text that writes none.
pub fn number_or_zero(text: &Vec<char>) -> (number: u32)
    ensures
        number == number_or_zero_of(text@),
{
    match parse_u32(text) {
        Some(n) => n,
        None => 0,
    }
}

/// Picks the qualifying time that counts: Q3 where it is set, else Q2 where
/// it is set, else Q1.
pub fn best_qualifying_time<'a>(q1: &'a str, q2: &'a str, q3: &'a str) -> (best: &'a str)
    ensures
        best@ == best_qualifying_time_of(q1@, q2@, q3@),
{
    if !q3.is_empty() {
        q3
    } else if !q2.is_empty() {
        q2
    } else {
        q1
    }
}

} // verus!
