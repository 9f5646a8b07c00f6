use tempmonitor::dates::parse_date;
use tempmonitor::doc::Node;
use tempmonitor::num::{parse_offset, parse_temperature};
use tempmonitor::parser::parse_document;
use tempmonitor::{Error, Reading};

fn text(s: &str) -> Node {
    Node::Text(s.to_owned())
}

fn rep(offset: &str, temperature: &str) -> Node {
    Node::Object(vec![
        ("$".to_owned(), text(offset)),
        ("F".to_owned(), text(temperature)),
    ])
}

fn period(date: &str, reps: Vec<Node>) -> Node {
    Node::Object(vec![
        ("value".to_owned(), text(date)),
        ("Rep".to_owned(), Node::List(reps)),
    ])
}

fn document(periods: Vec<Node>) -> Node {
    Node::Object(vec![(
        "SiteRep".to_owned(),
        Node::Object(vec![(
            "DV".to_owned(),
            Node::Object(vec![(
                "Location".to_owned(),
                Node::Object(vec![("Period".to_owned(), Node::List(periods))]),
            )]),
        )]),
    )])
}

#[test]
fn observation_time_reconstruction() {
    let doc = document(vec![period(
        "2016-01-01Z",
        vec![rep("180", "5"), rep("0", "6"), rep("1439", "7")],
    )]);
    let out = parse_document(&doc, 42).unwrap();
    assert_eq!(out[0].observation_time, 1451617200); // 2016-01-01T03:00:00Z
    assert_eq!(out[1].observation_time, 1451606400); // 2016-01-01T00:00:00Z
    assert_eq!(out[2].observation_time, 1451692740); // 2016-01-01T23:59:00Z
}

#[test]
fn one_reading_per_rep() {
    let doc = document(vec![
        period("2016-01-01Z", vec![rep("0", "1"), rep("180", "2")]),
        period("2016-01-02Z", vec![rep("0", "3"), rep("180", "4"), rep("360", "5")]),
    ]);
    let out = parse_document(&doc, 9).unwrap();
    assert_eq!(out.len(), 5);
}

#[test]
fn readings_carry_fields_in_document_order() {
    let doc = document(vec![period("2016-01-01Z", vec![rep("60", "-3"), rep("120", "21")])]);
    let out = parse_document(&doc, 1650000000).unwrap();
    assert_eq!(
        out,
        vec![
            Reading {
                observation_time: 1451610000,
                temperature: -3,
                ingestion_time: 1650000000,
            },
            Reading {
                observation_time: 1451613600,
                temperature: 21,
                ingestion_time: 1650000000,
            },
        ]
    );
}

#[test]
fn period_missing_date_is_structure_error() {
    let doc = document(vec![Node::Object(vec![(
        "Rep".to_owned(),
        Node::List(vec![rep("0", "1")]),
    )])]);
    assert_eq!(parse_document(&doc, 0), Err(Error::StructureError));
}

#[test]
fn offset_abc_is_format_error() {
    let doc = document(vec![period("2016-01-01Z", vec![rep("abc", "1")])]);
    assert_eq!(parse_document(&doc, 0), Err(Error::FormatError));
}

#[test]
fn date_not_matching_format_is_format_error() {
    let doc = document(vec![period("01/01/2016", vec![rep("0", "1")])]);
    assert_eq!(parse_document(&doc, 0), Err(Error::FormatError));
}

#[test]
fn missing_period_collection_is_structure_error() {
    let doc = Node::Object(vec![("SiteRep".to_owned(), Node::Object(vec![]))]);
    assert_eq!(parse_document(&doc, 0), Err(Error::StructureError));
    let doc2 = Node::Object(vec![]);
    assert_eq!(parse_document(&doc2, 0), Err(Error::StructureError));
}

#[test]
fn non_array_period_collection_is_structure_error() {
    let doc = Node::Object(vec![(
        "SiteRep".to_owned(),
        Node::Object(vec![(
            "DV".to_owned(),
            Node::Object(vec![(
                "Location".to_owned(),
                Node::Object(vec![("Period".to_owned(), text("not an array"))]),
            )]),
        )]),
    )]);
    assert_eq!(parse_document(&doc, 0), Err(Error::StructureError));
}

#[test]
fn non_string_offset_is_structure_error() {
    let bad_rep = Node::Object(vec![
        ("$".to_owned(), Node::Other),
        ("F".to_owned(), text("1")),
    ]);
    let doc = document(vec![period("2016-01-01Z", vec![bad_rep])]);
    assert_eq!(parse_document(&doc, 0), Err(Error::StructureError));
}

#[test]
fn missing_temperature_is_structure_error() {
    let bad_rep = Node::Object(vec![("$".to_owned(), text("0"))]);
    let doc = document(vec![period("2016-01-01Z", vec![bad_rep])]);
    assert_eq!(parse_document(&doc, 0), Err(Error::StructureError));
}

#[test]
fn unparseable_temperature_is_format_error() {
    let doc = document(vec![period("2016-01-01Z", vec![rep("0", "warm")])]);
    assert_eq!(parse_document(&doc, 0), Err(Error::FormatError));
}

#[test]
fn empty_period_list_yields_no_readings() {
    let doc = document(vec![]);
    assert_eq!(parse_document(&doc, 0), Ok(vec![]));
}

#[test]
fn parse_date_epoch_values() {
    assert_eq!(parse_date("1970-01-01Z"), Some(0));
    assert_eq!(parse_date("2016-01-01Z"), Some(1451606400));
    assert_eq!(parse_date("2016-02-29Z"), Some(1456704000)); // leap day
    assert_eq!(parse_date("2000-02-29Z"), Some(951782400)); // century leap day
    assert_eq!(parse_date("1969-12-31Z"), Some(-86400));
}

#[test]
fn parse_date_rejects_bad_shapes() {
    assert_eq!(parse_date("2015-02-29Z"), None); // not a leap year
    assert_eq!(parse_date("1900-02-29Z"), None); // century non-leap
    assert_eq!(parse_date("2016-13-01Z"), None);
    assert_eq!(parse_date("2016-00-01Z"), None);
    assert_eq!(parse_date("2016-01-00Z"), None);
    assert_eq!(parse_date("2016-01-32Z"), None);
    assert_eq!(parse_date("2016-1-01Z"), None);
    assert_eq!(parse_date("2016-01-01"), None);
    assert_eq!(parse_date("2016-01-01x"), None);
    assert_eq!(parse_date(""), None);
    assert_eq!(parse_date("2016\u{e9}01-01Z"), None);
}

#[test]
fn parse_offset_accepts_digits_only() {
    assert_eq!(parse_offset("0"), Some(0));
    assert_eq!(parse_offset("180"), Some(180));
    assert_eq!(parse_offset("1439"), Some(1439));
    assert_eq!(parse_offset("2000"), Some(2000)); // out-of-day values pass, by design
    assert_eq!(parse_offset("4294967295"), Some(4294967295));
    assert_eq!(parse_offset("4294967296"), None);
    assert_eq!(parse_offset("abc"), None);
    assert_eq!(parse_offset("-5"), None);
    assert_eq!(parse_offset("+5"), None);
    assert_eq!(parse_offset(""), None);
    assert_eq!(parse_offset("12 "), None);
}

#[test]
fn parse_temperature_accepts_signed_integers() {
    assert_eq!(parse_temperature("0"), Some(0));
    assert_eq!(parse_temperature("21"), Some(21));
    assert_eq!(parse_temperature("-12"), Some(-12));
    assert_eq!(parse_temperature("+7"), Some(7));
    assert_eq!(parse_temperature("9223372036854775807"), Some(i64::MAX));
    assert_eq!(parse_temperature("-9223372036854775808"), Some(i64::MIN));
    assert_eq!(parse_temperature("9223372036854775808"), None);
    assert_eq!(parse_temperature("-9223372036854775809"), None);
    assert_eq!(parse_temperature("warm"), None);
    assert_eq!(parse_temperature("-"), None);
    assert_eq!(parse_temperature("+"), None);
    assert_eq!(parse_temperature(""), None);
    assert_eq!(parse_temperature("1.5"), None);
}
