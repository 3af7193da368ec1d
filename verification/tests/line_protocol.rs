use influxc::error::InfluxError;
use influxc::value::Float;
use influxc::Measurement;
use influxc::Precision;
use influxc::Record;
use influxc::Timestamp;
use influxc::Value;

#[test]
fn line_has_name_tags_fields_and_time() {
    let m = Measurement::new("sensor1")
        .add_tag("floor", "second")
        .add_tag("exposure", "west")
        .add_field("temp", Value::Integer(123))
        .add_field("brightness", Value::Integer(500))
        .timestamp(Timestamp::new(1, 500_000_000));
    assert_eq!(
        m.to_line(&Precision::Milliseconds),
        "sensor1,exposure=west,floor=second brightness=500,temp=123 1500"
    );
}

#[test]
fn line_without_tags_has_no_comma() {
    let m = Measurement::new("cpu").add_field("load", Value::Integer(7));
    assert_eq!(m.to_line(&Precision::Nanoseconds), "cpu load=7");
}

#[test]
fn line_without_fields_is_name_and_tags() {
    let m = Measurement::new("cpu").add_tag("host", "a");
    assert_eq!(m.to_line(&Precision::Seconds), "cpu,host=a");
}

#[test]
fn line_of_bare_name() {
    assert_eq!(Measurement::new("cpu").to_line(&Precision::Seconds), "cpu");
}

#[test]
fn field_values_render_by_kind() {
    let m = Measurement::new("m")
        .add_field("a", Value::Integer(-42))
        .add_field("b", Value::Float(Float::new(1.5f64.to_bits(), 1.5f64.to_string())))
        .add_field("c", Value::String("hello world".to_string()))
        .add_field("d", Value::Boolean(true))
        .add_field("e", Value::Boolean(false));
    assert_eq!(
        m.to_line(&Precision::Seconds),
        "m a=-42,b=1.5,c=hello world,d=true,e=false"
    );
}

#[test]
fn value_text_of_integers_matches_std() {
    for v in [0i64, 1, 9, 10, 11, 99, 100, 101, -1, -10, 1234567890, i64::MAX, i64::MIN] {
        assert_eq!(Value::Integer(v).to_string(), v.to_string());
    }
}

#[test]
fn decimal_string_matches_std_at_the_limits() {
    for v in [0i128, -1, 10, i128::MAX, i128::MIN, i128::MIN + 1, 1_000_000_000_000_000_000_000] {
        assert_eq!(influxc::text::decimal_string(v), v.to_string());
    }
}

#[test]
fn value_from_plain_values() {
    assert_eq!(Value::from(5i64), Value::Integer(5));
    assert_eq!(Value::from(true), Value::Boolean(true));
    assert_eq!(Value::from("x".to_string()), Value::String("x".to_string()));
    let f = Float::new(2.0f64.to_bits(), "2".to_string());
    assert_eq!(Value::from(f.clone()), Value::Float(f));
}

#[test]
fn add_field_replaces_the_value_of_a_key() {
    let m = Measurement::new("m")
        .add_field("a", Value::Integer(1))
        .add_field("b", Value::Integer(2))
        .add_field("a", Value::Integer(3));
    assert_eq!(m.fields.len(), 2);
    assert_eq!(m.to_line(&Precision::Seconds), "m a=3,b=2");
}

#[test]
fn add_tag_replaces_the_value_of_a_key() {
    let m = Measurement::new("m")
        .add_tag("k", "old")
        .add_tag("j", "x")
        .add_tag("k", "new");
    assert_eq!(m.tags.len(), 2);
    assert_eq!(m.to_line(&Precision::Seconds), "m,j=x,k=new");
}

#[test]
fn tags_are_ordered_by_code_point() {
    let m = Measurement::new("m")
        .add_tag("b", "2")
        .add_tag("B", "1")
        .add_tag("ab", "4")
        .add_tag("a", "3")
        .add_tag("", "0")
        .add_tag("é", "5");
    assert_eq!(m.to_line(&Precision::Seconds), "m,=0,B=1,a=3,ab=4,b=2,é=5");
}

#[test]
fn timestamp_at_each_precision() {
    let ts = Timestamp::new(7_322, 123_456_789);
    let m = Measurement::new("m").add_field("v", Value::Integer(1)).timestamp(ts);
    assert_eq!(m.to_line(&Precision::Nanoseconds), "m v=1 7322123456789");
    assert_eq!(m.to_line(&Precision::Microseconds), "m v=1 7322123456789000");
    assert_eq!(m.to_line(&Precision::Milliseconds), "m v=1 7322123");
    assert_eq!(m.to_line(&Precision::Seconds), "m v=1 7322");
    assert_eq!(m.to_line(&Precision::Minutes), "m v=1 122");
    assert_eq!(m.to_line(&Precision::Hours), "m v=1 2");
}

#[test]
fn timestamp_before_the_epoch_divides_toward_zero() {
    let ts = Timestamp::new(-61, 0);
    assert_eq!(ts.scaled(Precision::Seconds), -61);
    assert_eq!(ts.scaled(Precision::Minutes), -1);
    assert_eq!(ts.scaled(Precision::Hours), 0);
    assert_eq!(ts.scaled(Precision::Milliseconds), -61_000);
    assert_eq!(ts.scaled(Precision::Nanoseconds), -61_000_000_000);
    assert_eq!(ts.scaled(Precision::Microseconds), -61_000_000_000_000);
}

#[test]
fn microseconds_of_a_late_instant_do_not_overflow() {
    let ts = Timestamp::new(i64::MAX, 999_999_999);
    let nanos = i64::MAX as i128 * 1_000_000_000 + 999_999_999;
    assert_eq!(ts.scaled(Precision::Nanoseconds), nanos);
    assert_eq!(ts.scaled(Precision::Microseconds), nanos * 1000);
}

#[test]
fn timestamp_agrees_with_chrono() {
    for (secs, nanos) in [(0i64, 0u32), (1, 1), (1_600_000_000, 987_654_321), (-1, 999_999_999), (-86_400, 5)] {
        let dt = chrono::DateTime::from_timestamp(secs, nanos).unwrap();
        let ts = Timestamp::new(dt.timestamp(), dt.timestamp_subsec_nanos());
        assert_eq!(ts.scaled(Precision::Nanoseconds), dt.timestamp_nanos_opt().unwrap() as i128);
        assert_eq!(ts.scaled(Precision::Milliseconds), dt.timestamp_millis() as i128);
        assert_eq!(ts.scaled(Precision::Seconds), dt.timestamp() as i128);
        assert_eq!(ts.scaled(Precision::Minutes), (dt.timestamp() / 60) as i128);
        assert_eq!(ts.scaled(Precision::Hours), (dt.timestamp() / 3600) as i128);
    }
}

#[test]
fn record_joins_lines_in_insertion_order() {
    let mut rec = Record::new("org", "bucket").precision(Precision::Milliseconds);
    {
        let m = rec.measurement("sensor2");
        m.tag("floor", "second");
        m.field("temp", Value::Integer(321));
    }
    {
        let m = rec.measurement("sensor1");
        m.field("temp", Value::Integer(123));
    }
    assert_eq!(rec.to_lines(), vec!["sensor2,floor=second temp=321", "sensor1 temp=123"]);
    assert_eq!(rec.to_line_buffer(), "sensor2,floor=second temp=321\nsensor1 temp=123");
}

#[test]
fn empty_record_has_an_empty_buffer() {
    let rec = Record::new("o", "b");
    assert_eq!(rec.to_lines().len(), 0);
    assert_eq!(rec.to_line_buffer(), "");
    assert_eq!(rec.precision, Precision::Nanoseconds);
    assert_eq!(rec.measurements().len(), 0);
}

#[test]
fn measurement_without_name_is_refused() {
    let m = Measurement::new("").add_field("v", Value::Integer(1));
    assert_eq!(m.check(), Err(InfluxError::Encoding("measurement without a name".to_string())));
}

#[test]
fn measurement_with_delimiter_in_name_is_refused() {
    for name in ["a b", "a,b", " ", ","] {
        let m = Measurement::new(name).add_field("v", Value::Integer(1));
        assert_eq!(
            m.check(),
            Err(InfluxError::Encoding(format!("comma or space in the name of measurement: {}", name)))
        );
    }
}

#[test]
fn measurement_without_fields_is_refused() {
    let m = Measurement::new("cpu").add_tag("a", "b");
    assert_eq!(m.check(), Err(InfluxError::Encoding("no fields in measurement: cpu".to_string())));
}

#[test]
fn valid_measurement_passes_the_check() {
    let m = Measurement::new("cpu").add_field("v", Value::Integer(1));
    assert_eq!(m.check(), Ok(()));
}

#[test]
fn record_check_names_the_first_defect() {
    let mut rec = Record::new("o", "b");
    rec.measurement("good").field("v", Value::Integer(1));
    rec.measurement("bad one").field("v", Value::Integer(1));
    rec.measurement("");
    assert_eq!(
        rec.check(),
        Err(InfluxError::Encoding("comma or space in the name of measurement: bad one".to_string()))
    );
    let mut fine = Record::new("o", "b");
    fine.measurement("good").field("v", Value::Integer(1));
    assert_eq!(fine.check(), Ok(()));
    assert_eq!(Record::new("o", "b").check(), Ok(()));
}

#[test]
fn tags_and_fields_chain_on_a_measurement_of_a_record() {
    let mut rec = Record::new("org", "bucket").precision(Precision::Milliseconds);
    rec.measurement("sensor1")
        .tag("floor", "second")
        .tag("exposure", "west")
        .field("temp", Value::from(123))
        .field("brightness", Value::from(500));
    rec.measurement("sensor2")
        .tag("floor", "second")
        .tag("exposure", "east")
        .field("temp", Value::from(321))
        .field("brightness", Value::from(999));
    assert_eq!(
        rec.to_line_buffer(),
        "sensor1,exposure=west,floor=second brightness=500,temp=123\nsensor2,exposure=east,floor=second brightness=999,temp=321"
    );
}

#[test]
fn record_describes_itself() {
    let mut rec = Record::new("org", "bucket").precision(Precision::Seconds);
    rec.measurement("sensor1").tag("floor", "second").tag("exposure", "west").field("temp", Value::from(123));
    rec.measurement("sensor2").field("a", Value::from(true)).field("b", Value::from(2));
    rec.measurements[1].timestamp = Some(Timestamp::new(90, 0));
    assert_eq!(
        rec.to_string(),
        "Record(org=org, bucket=bucket, precision=s)\n\tmeasurement=sensor1 exposure:west floor:second temp=123 \n\tmeasurement=sensor2  a=true b=2 90"
    );
    assert_eq!(Record::new("o", "b").to_string(), "Record(org=o, bucket=b, precision=ns)\n");
    assert_eq!(Measurement::new("m").describe(&Precision::Hours), "\tmeasurement=m   ");
}
