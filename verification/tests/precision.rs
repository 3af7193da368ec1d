use influxc::error::InfluxError;
use influxc::Precision;

#[test]
fn codes_of_all_precisions() {
    assert_eq!(Precision::Nanoseconds.to_string(), "ns");
    assert_eq!(Precision::Microseconds.to_string(), "us");
    assert_eq!(Precision::Milliseconds.to_string(), "ms");
    assert_eq!(Precision::Seconds.to_string(), "s");
    assert_eq!(Precision::Minutes.to_string(), "m");
    assert_eq!(Precision::Hours.to_string(), "h");
    assert_eq!(Precision::Hours.as_str(), "h");
}

#[test]
fn parse_reads_every_code_back() {
    for p in [
        Precision::Nanoseconds,
        Precision::Microseconds,
        Precision::Milliseconds,
        Precision::Seconds,
        Precision::Minutes,
        Precision::Hours,
    ] {
        assert_eq!(Precision::parse(&p.to_string()), Ok(p));
        assert_eq!(p.to_string().parse::<Precision>(), Ok(p));
    }
}

#[test]
fn parse_refuses_other_text() {
    for s in ["", "u", "n", "NS", "ns ", "sec", "hs"] {
        assert_eq!(
            Precision::parse(s),
            Err(InfluxError::Error(format!("Invalid precision: {}", s)))
        );
    }
}

#[test]
fn default_precision_is_nanoseconds() {
    assert_eq!(Precision::default(), Precision::Nanoseconds);
}
