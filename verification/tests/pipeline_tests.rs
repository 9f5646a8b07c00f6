use tempmonitor::doc::Node;
use tempmonitor::pipeline::{ingest, ingest_text, readings_from_text};
use tempmonitor::store::Store;
use tempmonitor::Error;

fn fresh_store() -> Store {
    let mut store = Store::open(":memory:").unwrap();
    store.ensure_schema().unwrap();
    store
}

fn text(s: &str) -> Node {
    Node::Text(s.to_owned())
}

fn rep(offset: &str, temperature: &str) -> Node {
    Node::Object(vec![
        ("$".to_owned(), text(offset)),
        ("F".to_owned(), text(temperature)),
    ])
}

fn period(date: &str, reps: Vec<Node>) -> Node {
    Node::Object(vec![
        ("value".to_owned(), text(date)),
        ("Rep".to_owned(), Node::List(reps)),
    ])
}

fn document(periods: Vec<Node>) -> Node {
    Node::Object(vec![(
        "SiteRep".to_owned(),
        Node::Object(vec![(
            "DV".to_owned(),
            Node::Object(vec![(
                "Location".to_owned(),
                Node::Object(vec![("Period".to_owned(), Node::List(periods))]),
            )]),
        )]),
    )])
}

#[test]
fn two_periods_of_two_reps_make_four_increasing_rows() {
    let mut store = fresh_store();
    let doc = document(vec![
        period("2016-01-01Z", vec![rep("0", "4"), rep("180", "5")]),
        period("2016-01-02Z", vec![rep("0", "6"), rep("180", "7")]),
    ]);
    let stamp = 1650000000;
    assert_eq!(ingest(&mut store, &doc, stamp), Ok(4));
    let rows = store.rows().unwrap();
    assert_eq!(rows.len(), 4);
    for pair in rows.windows(2) {
        assert!(pair[0].observation_time < pair[1].observation_time);
    }
    for row in &rows {
        assert_eq!(row.ingestion_time, stamp);
    }
    assert_eq!(
        rows.iter().map(|r| r.temperature).collect::<Vec<i64>>(),
        vec![4, 5, 6, 7]
    );
}

#[test]
fn faulty_document_writes_no_row() {
    let mut store = fresh_store();
    let doc = document(vec![
        period("2016-01-01Z", vec![rep("0", "4")]),
        period("2016-01-02Z", vec![rep("abc", "5")]),
    ]);
    assert_eq!(ingest(&mut store, &doc, 1), Err(Error::FormatError));
    assert_eq!(store.rows().unwrap(), vec![]);
}

#[test]
fn ingest_text_runs_end_to_end() {
    let mut store = fresh_store();
    let body = r#"{
        "SiteRep": {
            "DV": {
                "Location": {
                    "Period": [
                        {
                            "value": "2016-01-01Z",
                            "Rep": [
                                {"$": "180", "F": "-2", "W": "7"},
                                {"$": "360", "F": "3", "W": "8"}
                            ]
                        }
                    ]
                }
            }
        }
    }"#;
    assert_eq!(ingest_text(&mut store, body, 99), Ok(2));
    let rows = store.rows().unwrap();
    assert_eq!(rows[0].observation_time, 1451617200);
    assert_eq!(rows[0].temperature, -2);
    assert_eq!(rows[0].ingestion_time, 99);
    assert_eq!(rows[1].observation_time, 1451628000);
    assert_eq!(rows[1].temperature, 3);
}

#[test]
fn readings_from_text_parses_without_a_store() {
    let body = r#"{"SiteRep":{"DV":{"Location":{"Period":[
        {"value":"1970-01-01Z","Rep":[{"$":"1","F":"0"}]}
    ]}}}}"#;
    let out = readings_from_text(body, 5).unwrap();
    assert_eq!(out.len(), 1);
    assert_eq!(out[0].observation_time, 60);
    assert_eq!(out[0].temperature, 0);
    assert_eq!(out[0].ingestion_time, 5);
}

#[test]
fn malformed_json_is_format_error() {
    let mut store = fresh_store();
    assert_eq!(
        ingest_text(&mut store, "this is not json", 0),
        Err(Error::FormatError)
    );
    assert_eq!(store.rows().unwrap(), vec![]);
}

#[test]
fn json_without_site_rep_is_structure_error() {
    let mut store = fresh_store();
    assert_eq!(ingest_text(&mut store, "{}", 0), Err(Error::StructureError));
    assert_eq!(store.rows().unwrap(), vec![]);
}

#[test]
fn write_fault_surfaces_as_store_write_error() {
    // The schema was never created, so the first insert of the run fails
    // and the run aborts with a write error.
    let mut store = Store::open(":memory:").unwrap();
    let doc = document(vec![period("2016-01-01Z", vec![rep("0", "1")])]);
    assert_eq!(ingest(&mut store, &doc, 1), Err(Error::StoreWriteError));
}

#[test]
fn numeric_offset_value_is_structure_error() {
    // The document carries offsets as strings; a bare number is the
    // wrong shape for the field, not a format fault in its text.
    let body = r#"{"SiteRep":{"DV":{"Location":{"Period":[
        {"value":"1970-01-01Z","Rep":[{"$":1,"F":"0"}]}
    ]}}}}"#;
    assert_eq!(readings_from_text(body, 0), Err(Error::StructureError));
}
