use chrono::{Datelike, NaiveDate};
use photo_blog::error::PostError;
use photo_blog::schedule::{CalendarDay, PostSchedule, Weekday, EPOCH_DAY, MAX_DAY, MIN_DAY};

fn day_of(year: i32, month: u32, day: u32) -> CalendarDay {
    let date = NaiveDate::from_ymd_opt(year, month, day).unwrap();
    CalendarDay::from_days_from_ce(date.num_days_from_ce()).unwrap()
}

fn chrono_weekday(days: i32) -> Weekday {
    match NaiveDate::from_num_days_from_ce_opt(days).unwrap().weekday() {
        chrono::Weekday::Mon => Weekday::Mon,
        chrono::Weekday::Tue => Weekday::Tue,
        chrono::Weekday::Wed => Weekday::Wed,
        chrono::Weekday::Thu => Weekday::Thu,
        chrono::Weekday::Fri => Weekday::Fri,
        chrono::Weekday::Sat => Weekday::Sat,
        chrono::Weekday::Sun => Weekday::Sun,
    }
}

#[test]
fn day_numbers_span_the_calendar_of_chrono() {
    assert_eq!(NaiveDate::MIN.num_days_from_ce(), MIN_DAY);
    assert_eq!(NaiveDate::MAX.num_days_from_ce(), MAX_DAY);
    assert_eq!(NaiveDate::from_ymd_opt(1970, 1, 1).unwrap().num_days_from_ce(), EPOCH_DAY);
    assert!(NaiveDate::from_num_days_from_ce_opt(MIN_DAY - 1).is_none());
    assert!(NaiveDate::from_num_days_from_ce_opt(MAX_DAY + 1).is_none());
}

#[test]
fn calendar_day_exists_exactly_within_the_range() {
    assert!(CalendarDay::from_days_from_ce(MIN_DAY).is_some());
    assert!(CalendarDay::from_days_from_ce(MAX_DAY).is_some());
    assert!(CalendarDay::from_days_from_ce(MIN_DAY - 1).is_none());
    assert!(CalendarDay::from_days_from_ce(MAX_DAY + 1).is_none());
    assert!(CalendarDay::from_days_from_ce(i32::MIN).is_none());
    assert!(CalendarDay::from_days_from_ce(i32::MAX).is_none());
    assert_eq!(CalendarDay::from_days_from_ce(1).unwrap().days_from_ce(), 1);
    assert_eq!(CalendarDay::from_days_from_ce(-5).unwrap().days_from_ce(), -5);
}

#[test]
fn weekday_agrees_with_chrono() {
    let mut samples: Vec<i32> = Vec::new();
    samples.extend(-800..800);
    samples.extend(738_000..740_000);
    samples.extend(MIN_DAY..MIN_DAY + 30);
    samples.extend(MAX_DAY - 30..=MAX_DAY);
    for days in samples {
        let day = CalendarDay::from_days_from_ce(days).unwrap();
        assert_eq!(day.weekday(), chrono_weekday(days), "day {}", days);
    }
}

#[test]
fn weekday_of_known_dates() {
    assert_eq!(day_of(1, 1, 1).weekday(), Weekday::Mon);
    assert_eq!(day_of(1970, 1, 1).weekday(), Weekday::Thu);
    assert_eq!(day_of(2024, 1, 1).weekday(), Weekday::Mon);
    assert_eq!(day_of(2015, 9, 8).weekday(), Weekday::Tue);
    assert_eq!(day_of(-308, 3, 14).weekday(), Weekday::Fri);
}

#[test]
fn start_is_accepted_exactly_on_publishing_days() {
    let monday = NaiveDate::from_ymd_opt(2024, 1, 1).unwrap().num_days_from_ce();
    let expected = [true, false, true, false, true, false, false];
    for week in 0..3 {
        for offset in 0..7 {
            let days = monday + 7 * week + offset;
            let date = CalendarDay::from_days_from_ce(days).unwrap();
            let started = PostSchedule::validate_start(date);
            if expected[offset as usize] {
                assert_eq!(started.unwrap().day().days_from_ce(), days);
            } else {
                assert_eq!(started, Err(PostError::InvalidStartDate));
            }
        }
    }
}

#[test]
fn start_on_a_tuesday_is_refused() {
    let tuesday = day_of(2024, 1, 2);
    assert_eq!(tuesday.weekday(), Weekday::Tue);
    assert_eq!(PostSchedule::validate_start(tuesday), Err(PostError::InvalidStartDate));
}

#[test]
fn start_is_accepted_or_refused_as_chrono_sees_the_weekday() {
    for days in (MIN_DAY..MIN_DAY + 14).chain(-7..7).chain(MAX_DAY - 14..=MAX_DAY) {
        let date = CalendarDay::from_days_from_ce(days).unwrap();
        let publishing = matches!(
            NaiveDate::from_num_days_from_ce_opt(days).unwrap().weekday(),
            chrono::Weekday::Mon | chrono::Weekday::Wed | chrono::Weekday::Fri
        );
        assert_eq!(PostSchedule::validate_start(date).is_ok(), publishing, "day {}", days);
    }
}

#[test]
fn advance_follows_the_cadence() {
    let mut schedule = PostSchedule::validate_start(day_of(2024, 1, 1)).unwrap();
    assert_eq!(schedule.day().weekday(), Weekday::Mon);
    schedule.advance();
    assert_eq!(schedule.day(), day_of(2024, 1, 3));
    assert_eq!(schedule.day().weekday(), Weekday::Wed);
    schedule.advance();
    assert_eq!(schedule.day(), day_of(2024, 1, 5));
    assert_eq!(schedule.day().weekday(), Weekday::Fri);
    schedule.advance();
    assert_eq!(schedule.day(), day_of(2024, 1, 8));
    assert_eq!(schedule.day().weekday(), Weekday::Mon);
}

#[test]
fn advance_from_wednesday_and_friday_starts() {
    let mut from_wednesday = PostSchedule::validate_start(day_of(2024, 2, 28)).unwrap();
    from_wednesday.advance();
    assert_eq!(from_wednesday.day(), day_of(2024, 3, 1));
    let mut from_friday = PostSchedule::validate_start(day_of(2023, 12, 29)).unwrap();
    from_friday.advance();
    assert_eq!(from_friday.day(), day_of(2024, 1, 1));
}

#[test]
fn advance_never_leaves_the_publishing_days() {
    let mut schedule = PostSchedule::validate_start(day_of(2024, 1, 5)).unwrap();
    let first = schedule.day().days_from_ce();
    for step in 1..=300 {
        assert!(schedule.can_advance());
        schedule.advance();
        let weekday = schedule.day().weekday();
        assert!(matches!(weekday, Weekday::Mon | Weekday::Wed | Weekday::Fri));
        assert_eq!(weekday, chrono_weekday(schedule.day().days_from_ce()));
        if step % 3 == 0 {
            assert_eq!(schedule.day().days_from_ce(), first + 7 * (step / 3));
        }
    }
}

#[test]
fn advance_stops_at_the_end_of_the_calendar() {
    let mut last_publishing_day = MAX_DAY;
    while PostSchedule::validate_start(CalendarDay::from_days_from_ce(last_publishing_day).unwrap())
        .is_err()
    {
        last_publishing_day -= 1;
    }
    let last =
        PostSchedule::validate_start(CalendarDay::from_days_from_ce(last_publishing_day).unwrap())
            .unwrap();
    assert!(!last.can_advance());
    let mut earlier = PostSchedule::validate_start(
        CalendarDay::from_days_from_ce(last_publishing_day - 7).unwrap(),
    )
    .unwrap();
    let mut steps = 0;
    while earlier.can_advance() {
        earlier.advance();
        steps += 1;
    }
    assert_eq!(steps, 3);
    assert_eq!(earlier.day().days_from_ce(), last_publishing_day);
}

#[test]
fn upload_timestamp_is_seven_in_the_morning() {
    let schedule = PostSchedule::validate_start(day_of(2024, 1, 1)).unwrap();
    assert_eq!(schedule.upload_timestamp(), 1_704_092_400);
    let epoch_week = PostSchedule::validate_start(day_of(1970, 1, 2)).unwrap();
    assert_eq!(epoch_week.upload_timestamp(), 86_400 + 25_200);
    let before_epoch = PostSchedule::validate_start(day_of(1969, 12, 31)).unwrap();
    assert_eq!(before_epoch.upload_timestamp(), -86_400 + 25_200);
}

#[test]
fn upload_timestamp_agrees_with_chrono() {
    for days in (MIN_DAY..MIN_DAY + 10).chain(719_100..719_200).chain(MAX_DAY - 10..=MAX_DAY) {
        let date = CalendarDay::from_days_from_ce(days).unwrap();
        if let Ok(schedule) = PostSchedule::validate_start(date) {
            let expected = NaiveDate::from_num_days_from_ce_opt(days)
                .unwrap()
                .and_hms_opt(7, 0, 0)
                .unwrap()
                .and_utc()
                .timestamp();
            assert_eq!(schedule.upload_timestamp(), expected, "day {}", days);
        }
    }
}

#[test]
fn date_time_text_is_date_then_time() {
    let schedule = PostSchedule::validate_start(day_of(2024, 1, 1)).unwrap();
    assert_eq!(schedule.date_time_text(), "2024-01-01T07:00:00");
    let leap_day = PostSchedule::validate_start(day_of(2016, 2, 29)).unwrap();
    assert_eq!(leap_day.date_time_text(), "2016-02-29T07:00:00");
}

#[test]
fn date_time_text_at_the_ends_of_the_calendar() {
    let mut rendered = 0;
    for days in (MIN_DAY..MIN_DAY + 7).chain(MAX_DAY - 6..=MAX_DAY) {
        let date = CalendarDay::from_days_from_ce(days).unwrap();
        if let Ok(schedule) = PostSchedule::validate_start(date) {
            let text = schedule.date_time_text();
            assert!(text.ends_with("T07:00:00"), "{}", text);
            assert!(text.starts_with("-26214") || text.starts_with("+26214"), "{}", text);
            rendered += 1;
        }
    }
    assert_eq!(rendered, 6);
}
