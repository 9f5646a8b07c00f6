use vstd::prelude::*;

pub mod dates;
pub mod doc;
pub mod json;
pub mod num;
pub mod parser;
pub mod pipeline;
pub mod store;

verus! {

/// Why an ingestion run aborted. Every failure is a hard stop: no partial
/// success, no retry.
#[derive(Clone, Copy, Debug, PartialEq, Eq, Structural)]
pub enum Error {
    /// The document lacks an expected field, or a field has the wrong shape.
    StructureError,
    /// A field has the right shape but does not parse as the expected scalar.
    FormatError,
    /// The backing store cannot be opened.
    StoreOpenError,
    /// A schema or insert statement failed.
    StoreWriteError,
}

/// One normalized observation: the moment a forecast applies to, the
/// forecast temperature in integer degrees, and the moment the ingestion
/// run executed. Both times are UTC epoch seconds.
#[derive(Clone, Copy, Debug, PartialEq, Eq, Structural)]
pub struct Reading {
    pub observation_time: i64,
    pub temperature: i64,
    pub ingestion_time: i64,
}

/// The mathematical value of a `Reading`: the same three fields as
/// unbounded integers.
pub ghost struct ReadingModel {
    pub observation_time: int,
    pub temperature: int,
    pub ingestion_time: int,
}

impl View for Reading {
    type V = ReadingModel;

    open spec fn view(&self) -> ReadingModel {
        ReadingModel {
            observation_time: self.observation_time as int,
            temperature: self.temperature as int,
            ingestion_time: self.ingestion_time as int,
        }
    }
}

/// The models of a sequence of readings, in order.
pub open spec fn reading_views(s: Seq<Reading>) -> Seq<ReadingModel> {
    s.map_values(|r: Reading| r@)
}

} // verus!
