use petto::app::{current_time_context, time_context};
use petto::clock::{clock_nanos, nanos_of, LocalMoment};

fn at(hour: u32, clock: &str, weekday: &str) -> LocalMoment {
    LocalMoment { hour, minute: 5, clock: clock.to_string(), weekday: weekday.to_string() }
}

#[test]
fn nanoseconds_stay_below_a_second() {
    for _ in 0..1000 {
        assert!(clock_nanos() < 1_000_000_000);
    }
}

#[test]
fn clock_before_1970_gives_no_nanoseconds() {
    assert_eq!(nanos_of(Some(123_456_789)), 123_456_789);
    assert_eq!(nanos_of(None), 0);
}

#[test]
fn nanoseconds_follow_the_clock() {
    let first = clock_nanos();
    let moved = (0..1_000_000).any(|_| clock_nanos() != first);
    assert!(moved);
}

#[test]
fn time_note_is_written_out() {
    assert_eq!(
        time_context(&at(21, "09:05 PM", "Friday")),
        "[System note: the real-world time right now is 09:05 PM (late at night), on Friday. \
         Weave this in naturally only if it genuinely fits — noticing \
         it's late, commenting on a weekend, etc. Don't recite the time \
         like a clock, don't treat this as something the user said, and \
         never mention receiving this note.]"
    );
}

#[test]
fn parts_of_the_day() {
    for hour in 0..24 {
        let part = match hour {
            5..=11 => "(morning)",
            12..=16 => "(afternoon)",
            17..=20 => "(evening)",
            _ => "(late at night)",
        };
        assert!(time_context(&at(hour, "x", "y")).contains(part));
    }
}

#[test]
fn current_time_note_shows_a_clock_and_a_day() {
    let note = current_time_context();
    let start = "[System note: the real-world time right now is ";
    assert!(note.starts_with(start));
    let rest: Vec<char> = note[start.len()..].chars().collect();
    assert!(rest[0].is_ascii_digit() && rest[1].is_ascii_digit());
    assert_eq!(rest[2], ':');
    assert!(rest[3].is_ascii_digit() && rest[4].is_ascii_digit());
    assert_eq!(rest[5], ' ');
    assert!(rest[6] == 'A' || rest[6] == 'P');
    assert_eq!(rest[7], 'M');
    assert!(note.contains("day. Weave"));
}
