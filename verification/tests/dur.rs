use fsgc::dur::Duration;
use fsgc::dur::ErrorKind;

fn sec(n: u64) -> Duration {
    Duration::from_secs(n)
}

fn min(n: u64) -> Duration {
    Duration::from_secs(n * 60)
}

fn hour(n: u64) -> Duration {
    Duration::from_secs(n * 3600)
}

fn day(n: u64) -> Duration {
    Duration::from_secs(n * 24 * 3600)
}

#[test]
fn parse() {
    let tests = &[
        ("55s", sec(55)),
        ("4h2m", sec(4 * 3600 + 2 * 60)),
        (
            "1y 5hours 10 min",
            day(365).saturating_add(hour(5)).saturating_add(min(10)),
        ),
        (
            "1w2s 3ms",
            day(7).saturating_add(sec(2)).saturating_add(Duration::from_millis(3)),
        ),
        ("5", sec(5)),
        ("1s2s3s4s5s", sec(15)),
        (
            "4nanos 4weeks4µs",
            day(28)
                .saturating_add(Duration::from_micros(4))
                .saturating_add(Duration::from_nanos(4)),
        ),
    ];

    for (s, expected) in tests {
        let got = fsgc::dur::parse(s).unwrap();
        assert_eq!(*expected, got);
    }
}

#[test]
fn parse_fail() {
    fn unknown(s: &str) -> ErrorKind {
        ErrorKind::UnknownUnit(s.to_string())
    }
    fn unexpected(expected: &'static str, got: &'static str) -> ErrorKind {
        ErrorKind::UnexpectedToken { expected, got }
    }

    let tests = &[
        ("5lmao", unknown("lmao")),
        ("sec", unexpected("Number", "Unit")),
        ("-2s", ErrorKind::IllegalChar('-')),
        ("2d 5p", unknown("p")),
        ("", ErrorKind::Empty),
    ];

    for (s, expected) in tests {
        let got = fsgc::dur::parse(s).unwrap_err();
        assert_eq!(expected, &got.kind);
    }
}

#[test]
fn parse_units_case_insensitive() {
    assert_eq!(fsgc::dur::parse("55S").unwrap(), sec(55));
    assert_eq!(fsgc::dur::parse("4H2M").unwrap(), sec(4 * 3600 + 2 * 60));
    assert_eq!(fsgc::dur::parse("1Y").unwrap(), day(365));
    assert_eq!(fsgc::dur::parse("5HOURS").unwrap(), hour(5));
    assert_eq!(fsgc::dur::parse("3Days").unwrap(), day(3));
    assert_eq!(fsgc::dur::parse("7mInS").unwrap(), min(7));
}

#[test]
fn parse_unit_spellings() {
    assert_eq!(fsgc::dur::parse("1ns").unwrap(), fsgc::dur::parse("1nanosecond").unwrap());
    assert_eq!(fsgc::dur::parse("2nanos").unwrap(), fsgc::dur::parse("2nanoseconds").unwrap());
    assert_eq!(fsgc::dur::parse("3µs").unwrap(), fsgc::dur::parse("3micros").unwrap());
    assert_eq!(fsgc::dur::parse("3microsecond").unwrap(), fsgc::dur::parse("3microseconds").unwrap());
    assert_eq!(fsgc::dur::parse("4ms").unwrap(), fsgc::dur::parse("4millis").unwrap());
    assert_eq!(fsgc::dur::parse("4millisecond").unwrap(), fsgc::dur::parse("4milliseconds").unwrap());
    assert_eq!(fsgc::dur::parse("5s").unwrap(), fsgc::dur::parse("5secs").unwrap());
    assert_eq!(fsgc::dur::parse("5sec").unwrap(), fsgc::dur::parse("5seconds").unwrap());
    assert_eq!(fsgc::dur::parse("5second").unwrap(), sec(5));
    assert_eq!(fsgc::dur::parse("6m").unwrap(), fsgc::dur::parse("6minutes").unwrap());
    assert_eq!(fsgc::dur::parse("6minute").unwrap(), fsgc::dur::parse("6mins").unwrap());
    assert_eq!(fsgc::dur::parse("7h").unwrap(), fsgc::dur::parse("7hr").unwrap());
    assert_eq!(fsgc::dur::parse("7hour").unwrap(), fsgc::dur::parse("7hours").unwrap());
    assert_eq!(fsgc::dur::parse("8d").unwrap(), fsgc::dur::parse("8day").unwrap());
    assert_eq!(fsgc::dur::parse("8days").unwrap(), day(8));
    assert_eq!(fsgc::dur::parse("9w").unwrap(), fsgc::dur::parse("9week").unwrap());
    assert_eq!(fsgc::dur::parse("9weeks").unwrap(), day(63));
    assert_eq!(fsgc::dur::parse("1yr").unwrap(), fsgc::dur::parse("1years").unwrap());
    assert_eq!(fsgc::dur::parse("1year").unwrap(), day(365));
}

#[test]
fn parse_error_positions() {
    let e = fsgc::dur::parse("2d 5p").unwrap_err();
    assert_eq!((e.line, e.col), (0, 4));

    let e = fsgc::dur::parse("\n-2s").unwrap_err();
    assert_eq!(e.kind, ErrorKind::IllegalChar('-'));
    assert_eq!((e.line, e.col), (1, 0));

    let e = fsgc::dur::parse("  sec").unwrap_err();
    assert_eq!(
        e.kind,
        ErrorKind::UnexpectedToken { expected: "Number", got: "Unit" }
    );
    assert_eq!((e.line, e.col), (0, 2));

    let e = fsgc::dur::parse("").unwrap_err();
    assert_eq!((e.line, e.col), (0, 0));
}

#[test]
fn parse_number_where_unit_expected() {
    let e = fsgc::dur::parse("5 6 7").unwrap_err();
    assert_eq!(
        e.kind,
        ErrorKind::UnexpectedToken { expected: "Unit", got: "Number" }
    );
    assert_eq!((e.line, e.col), (0, 2));
}

#[test]
fn parse_saturates_instead_of_overflowing() {
    let got = fsgc::dur::parse("999999999999999999999999999999999999999y").unwrap();
    assert_eq!(got.as_nanos(), u128::MAX);

    let a = Duration::from_secs(u64::MAX);
    assert_eq!(
        a.saturating_add(a).as_nanos(),
        2 * (u64::MAX as u128) * 1_000_000_000
    );
}

#[test]
fn duration_constructors() {
    assert_eq!(Duration::zero().as_nanos(), 0);
    assert_eq!(Duration::from_nanos(7).as_nanos(), 7);
    assert_eq!(Duration::from_micros(7).as_nanos(), 7_000);
    assert_eq!(Duration::from_millis(7).as_nanos(), 7_000_000);
    assert_eq!(Duration::from_secs(7).as_nanos(), 7_000_000_000);
}
