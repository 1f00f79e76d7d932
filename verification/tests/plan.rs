use clonk::dispatch::{plan, Action, Format, ParseError, Plan};
use clonk::timestamp::Timestamp;

fn bytes(s: &str) -> Vec<u8> {
    s.as_bytes().to_vec()
}

#[test]
fn get_never_reaches_the_write_path() {
    for f in [Format::Timestamp, Format::Rfc2822, Format::Rfc3339] {
        assert_eq!(plan(Action::Get, f, None), Plan::GetOnly);
        let d = bytes("2024-01-01T00:00:00+00:00");
        assert_eq!(plan(Action::Get, f, Some(&d)), Plan::GetOnly);
    }
}

#[test]
fn set_with_epoch_format_is_rejected() {
    let d = bytes("12345");
    assert_eq!(
        plan(Action::SetClock, Format::Timestamp, Some(&d)),
        Plan::Reject { error: ParseError::UnsupportedSetFormat }
    );
}

#[test]
fn set_with_unparsable_datetime_is_rejected() {
    let d = bytes("not a datetime");
    assert_eq!(
        plan(Action::SetClock, Format::Rfc3339, Some(&d)),
        Plan::Reject { error: ParseError::InvalidDatetime }
    );
    let d = bytes("2024-01-01T00:00:00+00:00");
    assert_eq!(
        plan(Action::SetClock, Format::Rfc2822, Some(&d)),
        Plan::Reject { error: ParseError::InvalidDatetime }
    );
}

#[test]
fn set_without_datetime_is_rejected() {
    assert_eq!(
        plan(Action::SetClock, Format::Rfc3339, None),
        Plan::Reject { error: ParseError::MissingDatetime }
    );
}

#[test]
fn set_with_good_datetime_reaches_the_write_path() {
    let d = bytes("Thu, 1 Jan 1970 00:00:00 +0000");
    let expected = Timestamp {
        year: 1970,
        month: 1,
        day: 1,
        hour: 0,
        minute: 0,
        second: 0,
        nanosecond: 0,
        offset_seconds: 0,
    };
    assert_eq!(
        plan(Action::SetClock, Format::Rfc2822, Some(&d)),
        Plan::SetThenGet { target: expected }
    );
    let d = bytes("2024-01-01T00:00:00+00:00");
    match plan(Action::SetClock, Format::Rfc3339, Some(&d)) {
        Plan::SetThenGet { target } => assert_eq!(target.to_epoch_seconds(), 1704067200),
        other => panic!("unexpected plan: {:?}", other),
    }
}
