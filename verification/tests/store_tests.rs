use tempmonitor::store::Store;
use tempmonitor::{Error, Reading};

fn fresh_store() -> Store {
    let mut store = Store::open(":memory:").unwrap();
    store.ensure_schema().unwrap();
    store
}

#[test]
fn round_trip_preserves_fields() {
    let mut store = fresh_store();
    let reading = Reading {
        observation_time: 1451617200,
        temperature: -3,
        ingestion_time: 1650000000,
    };
    store.insert(&reading).unwrap();
    assert_eq!(store.rows().unwrap(), vec![reading]);
}

#[test]
fn ensure_schema_is_idempotent() {
    let mut store = Store::open(":memory:").unwrap();
    store.ensure_schema().unwrap();
    store.ensure_schema().unwrap();
    assert_eq!(store.predictions_table_count().unwrap(), 1);
}

#[test]
fn recreate_then_ensure_yields_empty_table() {
    let mut store = fresh_store();
    let reading = Reading {
        observation_time: 100,
        temperature: 1,
        ingestion_time: 200,
    };
    store.insert(&reading).unwrap();
    store.insert(&reading).unwrap();
    assert_eq!(store.rows().unwrap().len(), 2);
    store.recreate_schema().unwrap();
    store.ensure_schema().unwrap();
    assert_eq!(store.rows().unwrap(), vec![]);
    assert_eq!(store.predictions_table_count().unwrap(), 1);
}

#[test]
fn recreate_schema_is_safe_on_a_store_without_the_table() {
    let mut store = Store::open(":memory:").unwrap();
    store.recreate_schema().unwrap();
    assert_eq!(store.predictions_table_count().unwrap(), 1);
    assert_eq!(store.rows().unwrap(), vec![]);
}

#[test]
fn duplicate_inserts_make_two_rows() {
    let mut store = fresh_store();
    let reading = Reading {
        observation_time: 7,
        temperature: 7,
        ingestion_time: 7,
    };
    store.insert(&reading).unwrap();
    store.insert(&reading).unwrap();
    assert_eq!(store.rows().unwrap(), vec![reading, reading]);
}

#[test]
fn rows_come_back_in_insertion_order() {
    let mut store = fresh_store();
    for k in [5i64, 3, 9] {
        store
            .insert(&Reading {
                observation_time: k,
                temperature: k,
                ingestion_time: 1,
            })
            .unwrap();
    }
    let times: Vec<i64> = store.rows().unwrap().iter().map(|r| r.observation_time).collect();
    assert_eq!(times, vec![5, 3, 9]);
}

#[test]
fn unusable_path_is_store_open_error() {
    // A directory cannot be opened as a database file.
    assert_eq!(Store::open("/").err(), Some(Error::StoreOpenError));
}

#[test]
fn insert_without_schema_is_store_write_error() {
    let mut store = Store::open(":memory:").unwrap();
    let reading = Reading {
        observation_time: 1,
        temperature: 2,
        ingestion_time: 3,
    };
    assert_eq!(store.insert(&reading), Err(Error::StoreWriteError));
}
