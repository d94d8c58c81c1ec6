//! What every source has in common: it is collected into a bucket, and the
//! bucket is flattened into the records that the index takes.

pub use crate::bucket::{Bucket, BucketView, Value, ValueView};
use vstd::prelude::*;

verus! {

/// One document for the index.
#[derive(Debug)]
pub struct FlatData {
    pub title: String,
    pub body: String,
    pub ref_link: String,
}

/// What a [`FlatData`] holds, as a mathematical value.
pub struct FlatDataView {
    pub title: Seq<char>,
    pub body: Seq<char>,
    pub ref_link: Seq<char>,
}

impl DeepView for FlatData {
    type V = FlatDataView;

    open spec fn deep_view(&self) -> FlatDataView {
        FlatDataView { title: self.title@, body: self.body@, ref_link: self.ref_link@ }
    }
}

impl View for FlatData {
    type V = FlatDataView;

    open spec fn view(&self) -> FlatDataView {
        self.deep_view()
    }
}

/// What a collection cycle found at a source.
#[derive(Debug)]
pub enum CollectResult {
    /// Data that has not been indexed before.
    New(Bucket),
    /// An update of data that has been indexed before; it is handled as
    /// new data is.
    Incremental(Bucket),
    /// The source has not changed: nothing is to be indexed.
    Nop,
}

/// The source cannot be used in this cycle.
#[derive(Debug)]
pub enum CollectError {
    General,
}

impl CollectResult {
    /// The bucket that the result brings, if it brings one.
    pub open spec fn bucket(&self) -> Option<Bucket> {
        match self {
            CollectResult::New(bucket) => Some(*bucket),
            CollectResult::Incremental(bucket) => Some(*bucket),
            CollectResult::Nop => None,
        }
    }
}

/// A source of documents.
pub trait Collector {
    /// What reading the source hands over.
    type Source;

    /// The records that a bucket flattens into. What a bucket holds beside
    /// what `collect` puts into one brings no record.
    spec fn flat_data(&self, bucket: &Bucket) -> Seq<FlatDataView>;

    /// Flattens a bucket that `collect` gave into records for the index.
    fn convert_to_flat_data(&self, bucket: &Bucket) -> (records: Vec<FlatData>)
        ensures
            records.deep_view() == self.flat_data(bucket),
    ;

    /// Puts what was read from the source into one bucket. A source that
    /// could not be read gives `CollectError::General` and no bucket.
    fn collect(&self, source: &Self::Source) -> (outcome: Result<CollectResult, CollectError>);
}

} // verus!
