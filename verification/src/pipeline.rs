//! One ingestion run: decode, parse, persist.
//!
//! The surrounding process supplies the document text, the store, and
//! the run's single ingestion stamp (captured once, before parsing, so
//! every reading of the run shares it). A run either commits every row
//! or commits nothing: the writes sit in one transaction, and any parse
//! fault is found before the first insert.

use vstd::prelude::*;

use crate::doc::Node;
use crate::json::{decode_document, json_doc_of};
use crate::parser::{parse_document, readings_of};
use crate::store::Store;
use crate::{reading_views, Error, Reading};

verus! {

/// Decode a document text and parse it into the readings of one run,
/// without touching any store.
pub fn readings_from_text(text: &str, stamp: i64) -> (r: Result<Vec<Reading>, Error>)
    ensures
        match json_doc_of(text@) {
            Some(doc) => match readings_of(doc, stamp as int) {
                Ok(s) => r matches Ok(v) && reading_views(v@) == s,
                Err(e) => r == Err::<Vec<Reading>, Error>(e),
            },
            None => r == Err::<Vec<Reading>, Error>(Error::FormatError),
        },
{
    match decode_document(text) {
        Ok(doc) => parse_document(&doc, stamp),
        Err(e) => Err(e),
    }
}

/// Write every reading of one parsed document into the store, in
/// document order, inside one transaction: a faulty document aborts
/// before the first insert with its parse error, and a write fault rolls
/// the run's rows back. On success the count of inserted rows comes
/// back, one per Rep node of the document.
pub fn ingest(store: &mut Store, doc: &Node, stamp: i64) -> (r: Result<usize, Error>)
    ensures
        match readings_of(*doc, stamp as int) {
            Ok(s) => (r matches Ok(n) && n as int == s.len()) || r == Err::<usize, Error>(
                Error::StoreWriteError,
            ),
            Err(e) => r == Err::<usize, Error>(e),
        },
{
    let readings = match parse_document(doc, stamp) {
        Ok(v) => v,
        Err(e) => {
            return Err(e);
        },
    };
    match store.begin_run() {
        Ok(_) => {},
        Err(e) => {
            return Err(e);
        },
    }
    let n = readings.len();
    let mut i: usize = 0;
    while i < n
        invariant
            0 <= i <= n,
            n == readings@.len(),
            readings_of(*doc, stamp as int) matches Ok(s) && s.len() == n as int,
        decreases n - i,
    {
        match store.insert(&readings[i]) {
            Ok(_) => {},
            Err(e) => {
                let _ = store.rollback_run();
                return Err(e);
            },
        }
        i = i + 1;
    }
    match store.commit_run() {
        Ok(_) => Ok(n),
        Err(e) => Err(e),
    }
}

/// One whole run on a document text: decode, parse, persist.
pub fn ingest_text(store: &mut Store, text: &str, stamp: i64) -> (r: Result<usize, Error>)
    ensures
        match json_doc_of(text@) {
            Some(doc) => match readings_of(doc, stamp as int) {
                Ok(s) => (r matches Ok(n) && n as int == s.len()) || r == Err::<usize, Error>(
                    Error::StoreWriteError,
                ),
                Err(e) => r == Err::<usize, Error>(e),
            },
            None => r == Err::<usize, Error>(Error::FormatError),
        },
{
    match decode_document(text) {
        Ok(doc) => ingest(store, &doc, stamp),
        Err(e) => Err(e),
    }
}

} // verus!
