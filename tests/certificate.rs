use chrono::{Datelike, Timelike};
use hurl_certificate::attributes::{parse_attribute, parse_attributes, AttributeMap};
use hurl_certificate::certificate::{
    parse_expire_date, parse_issuer, parse_serial_number, parse_start_date, parse_subject,
    CertInfo, Certificate,
};
use hurl_certificate::date::{date_from_parse, parse_date, UtcDateTime};

fn utc(d: chrono::DateTime<chrono::Utc>) -> UtcDateTime {
    UtcDateTime {
        year: d.year(),
        month: d.month(),
        day: d.day(),
        hour: d.hour(),
        minute: d.minute(),
        second: d.second(),
        nanosecond: d.nanosecond(),
    }
}

fn rfc2822(s: &str) -> UtcDateTime {
    utc(chrono::DateTime::parse_from_rfc2822(s)
        .unwrap()
        .with_timezone(&chrono::Utc))
}

fn lines(v: &[&str]) -> Vec<String> {
    v.iter().map(|s| s.to_string()).collect()
}

#[test]
fn test_parse_start_date() {
    let mut attributes = AttributeMap::new();
    attributes.insert(
        "start date".to_string(),
        "Jan 10 08:29:52 2023 GMT".to_string(),
    );
    assert_eq!(
        parse_start_date(&attributes).unwrap(),
        rfc2822("Tue, 10 Jan 2023 08:29:52 GMT")
    );

    let mut attributes = AttributeMap::new();
    attributes.insert(
        "start date".to_string(),
        "2023-01-10 08:29:52 GMT".to_string(),
    );
    assert_eq!(
        parse_start_date(&attributes).unwrap(),
        rfc2822("Tue, 10 Jan 2023 08:29:52 GMT")
    )
}

#[test]
fn test_try_from() {
    assert_eq!(
        Certificate::try_from(CertInfo {
            data: vec![
                "Subject:C = US, ST = Denial, L = Springfield, O = Dis, CN = localhost".to_string(),
                "Issuer:C = US, ST = Denial, L = Springfield, O = Dis, CN = localhost".to_string(),
                "Serial Number:1ee8b17f1b64d8d6b3de870103d2a4f533535ab0".to_string(),
                "Start date:Jan 10 08:29:52 2023 GMT".to_string(),
                "Expire date:Oct 30 08:29:52 2025 GMT".to_string(),
            ]
        })
        .unwrap(),
        Certificate {
            subject: "C = US, ST = Denial, L = Springfield, O = Dis, CN = localhost".to_string(),
            issuer: "C = US, ST = Denial, L = Springfield, O = Dis, CN = localhost".to_string(),
            start_date: rfc2822("Tue, 10 Jan 2023 08:29:52 GMT"),
            expire_date: rfc2822("Thu, 30 Oct 2025 08:29:52 GMT"),
            serial_number: "1ee8b17f1b64d8d6b3de870103d2a4f533535ab0".to_string()
        }
    );
    assert_eq!(
        Certificate::try_from(CertInfo { data: vec![] }).err().unwrap(),
        "missing Subject attribute in {}".to_string()
    );
}

#[test]
fn lines_without_colon_give_no_attribute() {
    let data = lines(&["no colon here", "", "  continuation"]);
    let map = parse_attributes(&data);
    assert_eq!(parse_subject(&map), Err("missing Subject attribute in {}".to_string()));
    assert_eq!(parse_issuer(&map), Err("missing issuer attribute in {}".to_string()));
    assert_eq!(
        parse_start_date(&map),
        Err("missing start date attribute in {}".to_string())
    );
    assert_eq!(
        parse_expire_date(&map),
        Err("missing expire date attribute".to_string())
    );
    assert_eq!(
        parse_serial_number(&map),
        Err("Missing serial number attribute in {}".to_string())
    );
    assert_eq!(
        Certificate::try_from(CertInfo { data }).err().unwrap(),
        "missing Subject attribute in {}".to_string()
    );
}

#[test]
fn tokenizing_twice_gives_the_same_map() {
    let data = lines(&["Subject:a", "Issuer: b", "junk", "subject:c"]);
    let first = parse_attributes(&data);
    let second = parse_attributes(&data);
    assert_eq!(first.render(), second.render());
    assert_eq!(first.render(), "{\"subject\": \"c\", \"issuer\": \" b\"}");
}

#[test]
fn later_line_wins_across_case() {
    let data = lines(&["Start date:Jan 10 08:29:52 2023 GMT", "START DATE:2024-02-11 09:30:53 GMT"]);
    let map = parse_attributes(&data);
    assert_eq!(
        map.get("start date"),
        Some(&"2024-02-11 09:30:53 GMT".to_string())
    );
    assert_eq!(
        parse_start_date(&map).unwrap(),
        UtcDateTime { year: 2024, month: 2, day: 11, hour: 9, minute: 30, second: 53, nanosecond: 0 }
    );
}

#[test]
fn both_date_formats_give_the_same_instant() {
    let expected = UtcDateTime {
        year: 2023,
        month: 1,
        day: 10,
        hour: 8,
        minute: 29,
        second: 52,
        nanosecond: 0,
    };
    assert_eq!(parse_date("Jan 10 08:29:52 2023 GMT"), Ok(expected));
    assert_eq!(parse_date("2023-01-10 08:29:52 GMT"), Ok(expected));
}

#[test]
fn unknown_date_format_is_rejected() {
    assert_eq!(
        parse_date("10/01/2023"),
        Err("can not parse date <10/01/2023>".to_string())
    );
    assert_eq!(parse_date(""), Err("can not parse date <>".to_string()));
}

#[test]
fn date_from_parse_uses_the_parts_or_names_the_value() {
    assert_eq!(
        date_from_parse("x", Some((2025, 10, 30, 8, 29, 52, 0))),
        Ok(UtcDateTime { year: 2025, month: 10, day: 30, hour: 8, minute: 29, second: 52, nanosecond: 0 })
    );
    assert_eq!(
        date_from_parse("Oct 30", None),
        Err("can not parse date <Oct 30>".to_string())
    );
}

#[test]
fn short_certificate_scenario() {
    let cert = Certificate::try_from(CertInfo {
        data: lines(&[
            "Subject:CN=localhost",
            "Issuer:CN=localhost",
            "Serial Number:1ee8b1",
            "Start date:Jan 10 08:29:52 2023 GMT",
            "Expire date:Oct 30 08:29:52 2025 GMT",
        ]),
    })
    .unwrap();
    assert_eq!(cert.subject, "CN=localhost");
    assert_eq!(cert.issuer, "CN=localhost");
    assert_eq!(cert.serial_number, "1ee8b1");
    assert_eq!(
        cert.start_date,
        UtcDateTime { year: 2023, month: 1, day: 10, hour: 8, minute: 29, second: 52, nanosecond: 0 }
    );
    assert_eq!(
        cert.expire_date,
        UtcDateTime { year: 2025, month: 10, day: 30, hour: 8, minute: 29, second: 52, nanosecond: 0 }
    );
}

#[test]
fn empty_input_names_the_subject() {
    let err = Certificate::try_from(CertInfo { data: vec![] }).err().unwrap();
    assert_eq!(err, "missing Subject attribute in {}");
}

#[test]
fn missing_expire_date_fails_before_serial_number() {
    let data = lines(&[
        "Subject:CN=localhost",
        "Issuer:CN=localhost",
        "Start date:Jan 10 08:29:52 2023 GMT",
    ]);
    assert_eq!(
        Certificate::try_from(CertInfo { data }).err().unwrap(),
        "missing expire date attribute"
    );
    let data = lines(&[
        "Subject:CN=localhost",
        "Issuer:CN=localhost",
        "Start date:Jan 10 08:29:52 2023 GMT",
        "Serial Number:1ee8b1",
    ]);
    assert_eq!(
        Certificate::try_from(CertInfo { data }).err().unwrap(),
        "missing expire date attribute"
    );
}

#[test]
fn unreadable_start_date_is_reported() {
    let data = lines(&["Subject:s", "Issuer:i", "Start date:10/01/2023"]);
    assert_eq!(
        Certificate::try_from(CertInfo { data }).err().unwrap(),
        "can not parse date <10/01/2023>"
    );
}

#[test]
fn missing_issuer_dumps_the_map() {
    let data = lines(&["Subject:CN=\"a\"", "Start Date:x"]);
    assert_eq!(
        Certificate::try_from(CertInfo { data }).err().unwrap(),
        "missing issuer attribute in {\"subject\": \"CN=\\\"a\\\"\", \"start date\": \"x\"}"
    );
}

#[test]
fn missing_serial_number_dumps_the_map() {
    let data = lines(&[
        "Subject:s",
        "Issuer:i",
        "Start date:2023-01-10 08:29:52 GMT",
        "Expire date:2023-01-11 08:29:52 GMT",
    ]);
    assert_eq!(
        Certificate::try_from(CertInfo { data }).err().unwrap(),
        "Missing serial number attribute in {\"subject\": \"s\", \"issuer\": \"i\", \
         \"start date\": \"2023-01-10 08:29:52 GMT\", \"expire date\": \"2023-01-11 08:29:52 GMT\"}"
    );
}

#[test]
fn missing_start_date_dumps_the_map() {
    let data = lines(&["Subject:s", "Issuer:i"]);
    assert_eq!(
        Certificate::try_from(CertInfo { data }).err().unwrap(),
        "missing start date attribute in {\"subject\": \"s\", \"issuer\": \"i\"}"
    );
}

#[test]
fn attribute_splits_at_first_colon() {
    assert_eq!(
        parse_attribute("Subject: a:b"),
        Some(("Subject".to_string(), " a:b".to_string()))
    );
    assert_eq!(parse_attribute(":"), Some((String::new(), String::new())));
    assert_eq!(parse_attribute("none"), None);
}

#[test]
fn insert_replaces_in_place() {
    let mut map = AttributeMap::new();
    map.insert("a".to_string(), "1".to_string());
    map.insert("b".to_string(), "2".to_string());
    map.insert("a".to_string(), "3".to_string());
    assert_eq!(map.get("a"), Some(&"3".to_string()));
    assert_eq!(map.get("c"), None);
    assert_eq!(map.render(), "{\"a\": \"3\", \"b\": \"2\"}");
}
