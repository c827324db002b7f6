//! Schedule parsing, rendering and fire instants.

use blkcapt::schedule::{
    next_delay, next_fire, parse_schedule, render_schedule, schedule_next_delay, Schedule,
    ScheduleError,
};
use blkcapt::time::CivilDateTime;

const START: i64 = 1704067200; // 2024-01-01T00:00:00Z

#[test]
fn quarter_hour_duration_parses_to_a_periodic_schedule() {
    let s = parse_schedule("15m").unwrap();
    match &s {
        Schedule::Periodic { period_secs } => assert_eq!(*period_secs, 900),
        Schedule::Cron { .. } => panic!("a duration must parse as periodic"),
    }
    assert_eq!(render_schedule(&s), "15m");
}

#[test]
fn two_hour_duration_parses_and_renders_back() {
    let s = parse_schedule("2h").unwrap();
    match &s {
        Schedule::Periodic { period_secs } => assert_eq!(*period_secs, 7200),
        Schedule::Cron { .. } => panic!("a duration must parse as periodic"),
    }
    assert_eq!(render_schedule(&s), "2h");
}

#[test]
fn awkward_minutes_render_in_their_largest_unit() {
    // 120 minutes is clean because two hours divide a day.
    let s = parse_schedule("120m").unwrap();
    assert_eq!(render_schedule(&s), "2h");
    let again = parse_schedule(&render_schedule(&s)).unwrap();
    match (s, again) {
        (Schedule::Periodic { period_secs: a }, Schedule::Periodic { period_secs: b }) => {
            assert_eq!(a, b)
        },
        _ => panic!("both forms must stay periodic"),
    }
}

#[test]
fn uneven_duration_is_rejected_towards_cron() {
    assert_eq!(parse_schedule("45m").unwrap_err(), ScheduleError::DurationNotClean);
}

#[test]
fn garbled_duration_is_rejected() {
    assert_eq!(parse_schedule("abc").unwrap_err(), ScheduleError::DurationInvalid);
    assert_eq!(parse_schedule("15x").unwrap_err(), ScheduleError::DurationInvalid);
    assert_eq!(parse_schedule("m").unwrap_err(), ScheduleError::DurationInvalid);
}

#[test]
fn whitespace_routes_to_the_cron_crate() {
    let s = parse_schedule("0 0/15 * * * *").unwrap();
    match &s {
        Schedule::Cron { expr } => assert_eq!(expr, "0 0/15 * * * *"),
        Schedule::Periodic { .. } => panic!("whitespace means cron"),
    }
    assert_eq!(render_schedule(&s), "0 0/15 * * * *");
}

#[test]
fn nonsense_cron_is_rejected() {
    assert_eq!(
        parse_schedule("cheese 0 0 * * *").unwrap_err(),
        ScheduleError::CronInvalid
    );
}

#[test]
fn periodic_fire_instants_land_on_epoch_multiples() {
    let s = parse_schedule("15m").unwrap();
    assert_eq!(next_fire(&s, START).unwrap(), START + 900);
    assert_eq!(next_fire(&s, START + 1).unwrap(), START + 900);
    assert_eq!(next_fire(&s, START + 900).unwrap(), START + 1800);
    assert_eq!(next_delay(&s, START).unwrap(), 900);
}

#[test]
fn cron_fire_instants_come_from_the_cron_crate() {
    // Every quarter hour: the instant after midnight is a quarter past.
    let d = schedule_next_delay("0 0/15 * * * *", START).unwrap();
    assert_eq!(d, 900);
    let d2 = schedule_next_delay("0 0/15 * * * *", START + 1).unwrap();
    assert_eq!(d2, 899);
    // An hourly schedule fires on the hour.
    let d3 = schedule_next_delay("0 0 * * * *", START + 60).unwrap();
    assert_eq!(d3, 3540);
}

#[test]
fn snapshot_cadence_over_fortysix_minutes() {
    // A dataset on a quarter-hour schedule, started at midnight: after 46
    // simulated minutes the list holds the start snapshot and three more.
    let s = parse_schedule("15m").unwrap();
    let start = CivilDateTime::new(2024, 1, 1, 0, 0, 0).to_epoch_secs();
    assert_eq!(start, START);
    let horizon = start + 46 * 60;
    let mut taken = vec![start];
    let mut now = start;
    while let Some(fire) = next_fire(&s, now) {
        if fire > horizon {
            break;
        }
        taken.push(fire);
        now = fire;
    }
    assert_eq!(taken, vec![START, START + 900, START + 1800, START + 2700]);
}

#[test]
fn fire_instants_strictly_advance_when_chained() {
    let s = parse_schedule("1h").unwrap();
    let f1 = next_fire(&s, START + 123).unwrap();
    let f2 = next_fire(&s, f1).unwrap();
    let f3 = next_fire(&s, f2).unwrap();
    assert!(START + 123 < f1 && f1 < f2 && f2 < f3);
    assert_eq!(f1, START + 3600);
    assert_eq!(f2, START + 7200);
    assert_eq!(f3, START + 10800);
}

#[test]
fn one_day_duration_is_clean() {
    let s = parse_schedule("1d").unwrap();
    match &s {
        Schedule::Periodic { period_secs } => assert_eq!(*period_secs, 86400),
        Schedule::Cron { .. } => panic!("a duration must parse as periodic"),
    }
}

#[test]
fn zero_duration_is_rejected() {
    assert_eq!(parse_schedule("0m").unwrap_err(), ScheduleError::DurationNotClean);
}
