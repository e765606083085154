//! The publishing schedule: posts go out on Mondays, Wednesdays and Fridays
//! at seven in the morning.

use crate::error::PostError;
use chrono::NaiveDate;
use vstd::prelude::*;

verus! {

/// A day of the week.
#[derive(Clone, Copy, Debug, PartialEq, Eq, Structural)]
pub enum Weekday {
    Mon,
    Tue,
    Wed,
    Thu,
    Fri,
    Sat,
    Sun,
}

/// Number of the first day that a [`CalendarDay`] can hold: 1 January of the
/// year -262143.
pub const MIN_DAY: i32 = -95_746_129;

/// Number of the last day that a [`CalendarDay`] can hold: 31 December of the
/// year 262142.
pub const MAX_DAY: i32 = 95_745_399;

/// Number of 1 January 1970.
pub const EPOCH_DAY: i32 = 719_163;

/// Hour of the day at which posts are published.
pub const POST_HOUR: u32 = 7;

/// Length of a day in seconds, leap seconds not counted.
pub const SECONDS_PER_DAY: i64 = 86_400;

/// Length of an hour in seconds.
pub const SECONDS_PER_HOUR: i64 = 3_600;

/// The weekday of the day with number `day`, where day 1 is Monday,
/// 1 January of the year 1 in the proleptic Gregorian calendar.
pub open spec fn weekday_of(day: int) -> Weekday {
    let r = (day - 1) % 7;
    if r == 0 {
        Weekday::Mon
    } else if r == 1 {
        Weekday::Tue
    } else if r == 2 {
        Weekday::Wed
    } else if r == 3 {
        Weekday::Thu
    } else if r == 4 {
        Weekday::Fri
    } else if r == 5 {
        Weekday::Sat
    } else {
        Weekday::Sun
    }
}

/// Whether posts are published on this weekday.
pub open spec fn publishing_day(weekday: Weekday) -> bool {
    weekday == Weekday::Mon || weekday == Weekday::Wed || weekday == Weekday::Fri
}

/// Days from a post on `weekday` to the next post. Other weekdays carry no
/// post and have no step.
pub open spec fn step_after(weekday: Weekday) -> int {
    match weekday {
        Weekday::Mon | Weekday::Wed => 2,
        Weekday::Fri => 3,
        _ => 0,
    }
}

/// The day of the post that follows the post of `day`.
pub open spec fn next_post_day(day: int) -> int {
    day + step_after(weekday_of(day))
}

/// The day of the `n`-th post after the post of `day`.
pub open spec fn nth_post_day(day: int, n: nat) -> int
    decreases n,
{
    if n == 0 {
        day
    } else {
        next_post_day(nth_post_day(day, (n - 1) as nat))
    }
}

/// Seconds from 1 January 1970, 00:00:00, to the publishing hour of `day`,
/// leap seconds not counted.
pub open spec fn post_timestamp(day: int) -> int {
    (day - EPOCH_DAY) * SECONDS_PER_DAY + POST_HOUR * SECONDS_PER_HOUR
}

/// How `chrono` writes a date and time of day with `{:?}`: the date of the
/// day with this number, `T`, and the time.
pub uninterp spec fn rendered_date_time(
    days_from_ce: int,
    hour: int,
    minute: int,
    second: int,
) -> Seq<char>;

/// Builds the `chrono::NaiveDateTime` of the day numbered `days_from_ce`
/// (`NaiveDate::from_num_days_from_ce_opt`, which accepts exactly the numbers
/// from `MIN_DAY` to `MAX_DAY`) at the given time of day
/// (`NaiveDate::and_hms_opt`, which accepts exactly hours below 24 and
/// minutes and seconds below 60), and writes it with its `Debug` form.
#[verifier::external_body]
fn render_date_time(days_from_ce: i32, hour: u32, minute: u32, second: u32) -> (text: String)
    requires
        MIN_DAY <= days_from_ce <= MAX_DAY,
        hour < 24,
        minute < 60,
        second < 60,
    ensures
        text@ == rendered_date_time(days_from_ce as int, hour as int, minute as int, second as int),
{
    let date = NaiveDate::from_num_days_from_ce_opt(days_from_ce).unwrap();
    format!("{:?}", date.and_hms_opt(hour, minute, second).unwrap())
}

/// A day of the proleptic Gregorian calendar, held as its number: day 1 is
/// 1 January of the year 1.
#[derive(Clone, Copy, Debug, PartialEq, Eq)]
pub struct CalendarDay {
    days_from_ce: i32,
}

impl View for CalendarDay {
    type V = int;

    closed spec fn view(&self) -> int {
        self.days_from_ce as int
    }
}

impl CalendarDay {
    #[verifier::type_invariant]
    spec fn in_range(self) -> bool {
        MIN_DAY <= self.days_from_ce <= MAX_DAY
    }

    /// The day with the given number, if there is one.
    pub fn from_days_from_ce(days: i32) -> (day: Option<CalendarDay>)
        ensures
            day is Some <==> MIN_DAY <= days <= MAX_DAY,
            day is Some ==> day->0@ == days,
    {
        if MIN_DAY <= days && days <= MAX_DAY {
            Some(CalendarDay { days_from_ce: days })
        } else {
            None
        }
    }

    /// The number of this day.
    pub fn days_from_ce(&self) -> (days: i32)
        ensures
            days == self@,
            MIN_DAY <= days <= MAX_DAY,
    {
        proof {
            use_type_invariant(self);
        }
        self.days_from_ce
    }

    /// The weekday of this day.
    pub fn weekday(&self) -> (weekday: Weekday)
        ensures
            weekday == weekday_of(self@),
    {
        proof {
            use_type_invariant(self);
        }
        let r: i32 = (self.days_from_ce - MIN_DAY + 3) % 7;
        if r == 0 {
            Weekday::Mon
        } else if r == 1 {
            Weekday::Tue
        } else if r == 2 {
            Weekday::Wed
        } else if r == 3 {
            Weekday::Thu
        } else if r == 4 {
            Weekday::Fri
        } else if r == 5 {
            Weekday::Sat
        } else {
            Weekday::Sun
        }
    }
}

/// The cursor of a run: the day of the next post. It always stands on a
/// Monday, a Wednesday or a Friday.
#[derive(Clone, Copy, Debug, PartialEq, Eq)]
pub struct PostSchedule {
    day: CalendarDay,
}

impl View for PostSchedule {
    type V = int;

    closed spec fn view(&self) -> int {
        self.day@
    }
}

impl PostSchedule {
    #[verifier::type_invariant]
    spec fn on_cadence(self) -> bool {
        &&& MIN_DAY <= self.day.days_from_ce <= MAX_DAY
        &&& publishing_day(weekday_of(self.day.days_from_ce as int))
    }

    /// A schedule that starts on `date`, which has to be a Monday, a
    /// Wednesday or a Friday.
    pub fn validate_start(date: CalendarDay) -> (started: Result<PostSchedule, PostError>)
        ensures
            publishing_day(weekday_of(date@)) ==> started is Ok && started->Ok_0@ == date@,
            !publishing_day(weekday_of(date@)) ==> started is Err && started->Err_0
                == PostError::InvalidStartDate,
    {
        let weekday = date.weekday();
        if weekday == Weekday::Mon || weekday == Weekday::Wed || weekday == Weekday::Fri {
            proof {
                use_type_invariant(&date);
            }
            Ok(PostSchedule { day: date })
        } else {
            Err(PostError::InvalidStartDate)
        }
    }

    /// The day of the next post.
    pub fn day(&self) -> (day: CalendarDay)
        ensures
            day@ == self@,
            publishing_day(weekday_of(self@)),
            MIN_DAY <= self@ <= MAX_DAY,
    {
        proof {
            use_type_invariant(self);
        }
        self.day
    }

    /// Whether the post after this one still falls on a day that a
    /// [`CalendarDay`] can hold.
    pub fn can_advance(&self) -> (possible: bool)
        ensures
            possible == (next_post_day(self@) <= MAX_DAY),
    {
        proof {
            use_type_invariant(self);
        }
        self.day.days_from_ce <= MAX_DAY - 3 || (self.day.days_from_ce <= MAX_DAY - 2
            && self.day.weekday() != Weekday::Fri)
    }

    /// Moves to the day of the following post: two days on from a Monday or a
    /// Wednesday, three days on from a Friday.
    pub fn advance(&mut self)
        requires
            next_post_day(old(self)@) <= MAX_DAY,
        ensures
            final(self)@ == next_post_day(old(self)@),
    {
        proof {
            use_type_invariant(&*self);
            lemma_cadence_step(self@);
        }
        let step: i32 = if self.day.weekday() == Weekday::Fri {
            3
        } else {
            2
        };
        self.day = CalendarDay { days_from_ce: self.day.days_from_ce + step };
    }

    /// Unix time of the post: seconds from 1 January 1970, 00:00:00, to the
    /// publishing hour of the scheduled day.
    pub fn upload_timestamp(&self) -> (seconds: i64)
        ensures
            seconds == post_timestamp(self@),
    {
        proof {
            use_type_invariant(self);
        }
        let days: i64 = (self.day.days_from_ce - EPOCH_DAY) as i64;
        days * SECONDS_PER_DAY + (POST_HOUR as i64) * SECONDS_PER_HOUR
    }

    /// The scheduled date and time as text, such as `2024-01-01T07:00:00`.
    pub fn date_time_text(&self) -> (text: String)
        ensures
            text@ == rendered_date_time(self@, POST_HOUR as int, 0, 0),
    {
        proof {
            use_type_invariant(self);
        }
        render_date_time(self.day.days_from_ce, POST_HOUR, 0, 0)
    }
}

/// One step of the cadence: Monday is followed by the Wednesday two days
/// later, Wednesday by the Friday two days later, Friday by the Monday three
/// days later.
pub proof fn lemma_cadence_step(day: int)
    requires
        publishing_day(weekday_of(day)),
    ensures
        weekday_of(day) == Weekday::Mon ==> next_post_day(day) == day + 2 && weekday_of(
            next_post_day(day),
        ) == Weekday::Wed,
        weekday_of(day) == Weekday::Wed ==> next_post_day(day) == day + 2 && weekday_of(
            next_post_day(day),
        ) == Weekday::Fri,
        weekday_of(day) == Weekday::Fri ==> next_post_day(day) == day + 3 && weekday_of(
            next_post_day(day),
        ) == Weekday::Mon,
        publishing_day(weekday_of(next_post_day(day))),
{
}

/// However often the schedule advances, it stands on a Monday, a Wednesday
/// or a Friday.
pub proof fn lemma_cadence_is_closed(day: int, n: nat)
    requires
        publishing_day(weekday_of(day)),
    ensures
        publishing_day(weekday_of(nth_post_day(day, n))),
    decreases n,
{
    if n > 0 {
        lemma_cadence_is_closed(day, (n - 1) as nat);
        lemma_cadence_step(nth_post_day(day, (n - 1) as nat));
    }
}

/// Three steps of the cadence make one week.
pub proof fn lemma_cadence_period(day: int)
    requires
        publishing_day(weekday_of(day)),
    ensures
        nth_post_day(day, 3) == day + 7,
{
    reveal_with_fuel(nth_post_day, 4);
    lemma_cadence_step(day);
    lemma_cadence_step(next_post_day(day));
    lemma_cadence_step(next_post_day(next_post_day(day)));
}

} // verus!
