use std::str::FromStr;

use chrono::{Datelike, TimeZone, Timelike, Utc};
use rust_decimal::Decimal;

use pgimporter::query::{timestamp_from_unix_seconds, to_literal, ColumnValue, Timestamp};
use pgimporter::text::parse_i64;

#[test]
fn bool_literals() {
    assert_eq!(to_literal(&ColumnValue::Bool(true)), "true");
    assert_eq!(to_literal(&ColumnValue::Bool(false)), "false");
}

#[test]
fn integer_literals() {
    assert_eq!(to_literal(&ColumnValue::Int2(0)), "0");
    assert_eq!(to_literal(&ColumnValue::Int2(-7)), "-7");
    assert_eq!(to_literal(&ColumnValue::Int4(123456)), "123456");
    assert_eq!(to_literal(&ColumnValue::Int8(-9000000000)), "-9000000000");
    assert_eq!(
        to_literal(&ColumnValue::Int8(i64::MIN)),
        "-9223372036854775808"
    );
    assert_eq!(
        to_literal(&ColumnValue::Int8(i64::MAX)),
        "9223372036854775807"
    );
}

#[test]
fn integer_round_trip() {
    for v in [0i64, 1, -1, 42, -4200, i64::MIN, i64::MAX] {
        let lit = to_literal(&ColumnValue::Int8(v));
        assert_eq!(parse_i64(&lit), Some(v));
    }
    for v in [0i16, -3, i16::MIN, i16::MAX] {
        let lit = to_literal(&ColumnValue::Int2(v));
        assert_eq!(parse_i64(&lit), Some(v as i64));
    }
}

#[test]
fn parse_i64_rejects_malformed_text() {
    assert_eq!(parse_i64(""), None);
    assert_eq!(parse_i64("+"), None);
    assert_eq!(parse_i64("-"), None);
    assert_eq!(parse_i64("12a"), None);
    assert_eq!(parse_i64("9223372036854775808"), None);
    assert_eq!(parse_i64("-9223372036854775809"), None);
    assert_eq!(parse_i64("-9223372036854775808"), Some(i64::MIN));
    assert_eq!(parse_i64("+17"), Some(17));
    assert_eq!(parse_i64("00042"), Some(42));
}

#[test]
fn text_doubles_embedded_quote() {
    assert_eq!(
        to_literal(&ColumnValue::Text(String::from("O'Brien"))),
        "'O''Brien'"
    );
}

#[test]
fn text_literals() {
    assert_eq!(to_literal(&ColumnValue::Text(String::from(""))), "''");
    assert_eq!(to_literal(&ColumnValue::Text(String::from("'"))), "''''");
    assert_eq!(
        to_literal(&ColumnValue::Text(String::from("plain text"))),
        "'plain text'"
    );
}

#[test]
fn text_round_trip_through_sql_unquoting() {
    let original = "it's a 'quoted' value";
    let lit = to_literal(&ColumnValue::Text(String::from(original)));
    assert!(lit.starts_with('\'') && lit.ends_with('\''));
    let inner = &lit[1..lit.len() - 1];
    assert_eq!(inner.replace("''", "'"), original);
}

#[test]
fn null_and_unsupported_degrade_to_null() {
    assert_eq!(to_literal(&ColumnValue::Null), "NULL");
    assert_eq!(
        to_literal(&ColumnValue::Unsupported(String::from("jsonb"))),
        "NULL"
    );
}

#[test]
fn float_round_trip() {
    let v: f32 = 1.5;
    let lit = to_literal(&ColumnValue::Float4(v.to_string()));
    assert_eq!(lit, "1.5");
    assert_eq!(lit.parse::<f32>().unwrap(), v);
    let w: f32 = -0.25;
    let lit = to_literal(&ColumnValue::Float4(w.to_string()));
    assert_eq!(lit.parse::<f32>().unwrap(), w);
}

#[test]
fn decimal_round_trip() {
    for text in ["123.45", "-0.001", "1.10", "0", "79228162514264337593543950335"] {
        let d = Decimal::from_str(text).unwrap();
        let cell = ColumnValue::numeric(d.mantissa(), d.scale()).unwrap();
        let lit = to_literal(&cell);
        assert_eq!(Decimal::from_str(&lit).unwrap(), d);
        assert_eq!(lit, d.to_string());
    }
}

#[test]
fn decimal_literals_keep_scale_and_leading_zero() {
    for (text, expected) in [
        ("1.10", "1.10"),
        ("-0.001", "-0.001"),
        ("0.00", "0.00"),
        ("123", "123"),
        ("-45.6", "-45.6"),
    ] {
        let d = Decimal::from_str(text).unwrap();
        let cell = ColumnValue::numeric(d.mantissa(), d.scale()).unwrap();
        assert_eq!(to_literal(&cell), expected);
    }
}

#[test]
fn decimal_rejects_parts_outside_96_bits() {
    assert!(ColumnValue::numeric(1, 29).is_none());
    assert!(ColumnValue::numeric(i128::MAX, 0).is_none());
    assert!(ColumnValue::numeric(i128::MIN, 0).is_none());
    assert!(ColumnValue::numeric(79228162514264337593543950335, 28).is_some());
}

#[test]
fn timestamp_of_epoch() {
    let t = timestamp_from_unix_seconds(0).unwrap();
    assert_eq!(
        t,
        Timestamp { year: 1970, month: 1, day: 1, hour: 0, minute: 0, second: 0 }
    );
    assert_eq!(
        to_literal(&ColumnValue::TimestampTz(t)),
        "'1970-01-01 00:00:00'"
    );
}

#[test]
fn timestamp_literal_zero_pads() {
    let dt = Utc.with_ymd_and_hms(2021, 3, 5, 7, 9, 1).unwrap();
    let t = timestamp_from_unix_seconds(dt.timestamp()).unwrap();
    assert_eq!(
        to_literal(&ColumnValue::TimestampTz(t)),
        "'2021-03-05 07:09:01'"
    );
}

#[test]
fn timestamp_round_trip() {
    let dt = Utc.with_ymd_and_hms(1999, 12, 31, 23, 59, 59).unwrap();
    let t = timestamp_from_unix_seconds(dt.timestamp()).unwrap();
    let lit = to_literal(&ColumnValue::TimestampTz(t));
    let inner = &lit[1..lit.len() - 1];
    let parsed = chrono::NaiveDateTime::parse_from_str(inner, "%Y-%m-%d %H:%M:%S").unwrap();
    assert_eq!(parsed.and_utc(), dt);
}

#[test]
fn timestamp_parts_match_chrono() {
    let secs: i64 = 1234567890;
    let t = timestamp_from_unix_seconds(secs).unwrap();
    let dt = chrono::DateTime::<Utc>::from_timestamp(secs, 0).unwrap();
    assert_eq!(t.year, dt.year());
    assert_eq!(t.month, dt.month());
    assert_eq!(t.day, dt.day());
    assert_eq!(t.hour, dt.hour());
    assert_eq!(t.minute, dt.minute());
    assert_eq!(t.second, dt.second());
}
