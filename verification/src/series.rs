//! The per-symbol time-series store: ordered OHLCV samples under a declared
//! granularity and validity window. Whole-series replace is the only
//! mutation; readers take an immutable snapshot and compute on that.

use vstd::prelude::*;

verus! {

/// One OHLCV price sample.
///
/// Prices are integer minor units (for instance cents); the timestamp is
/// milliseconds since the Unix epoch, UTC. The usual shape
/// `low <= min(open, close) <= max(open, close) <= high` is what a trusted
/// feed produces, but it is not enforced on ingest.
#[derive(Clone, Copy, PartialEq, Eq, Structural, Debug)]
pub struct Sample {
    pub timestamp_ms: i64,
    pub open: i64,
    pub high: i64,
    pub low: i64,
    pub close: i64,
    pub volume: u64,
}

/// The declared aggregation granularity of a series.
#[derive(Clone, Copy, PartialEq, Eq, Structural, Debug)]
pub enum Granularity {
    Minute,
    Hour,
    Day,
    Week,
}

/// The mathematical value of a [`TimeSeries`].
pub ghost struct SeriesModel {
    pub granularity: Granularity,
    pub start_ms: i64,
    pub end_ms: i64,
    pub samples: Seq<Sample>,
}

/// An ordered sequence of samples (ascending timestamps assumed, not
/// re-sorted) with a granularity and a validity window `[start_ms, end_ms)`.
///
/// An empty sequence is valid at any time and means "no data yet".
pub struct TimeSeries {
    granularity: Granularity,
    start_ms: i64,
    end_ms: i64,
    samples: Vec<Sample>,
}

impl View for TimeSeries {
    type V = SeriesModel;

    closed spec fn view(&self) -> SeriesModel {
        SeriesModel {
            granularity: self.granularity,
            start_ms: self.start_ms,
            end_ms: self.end_ms,
            samples: self.samples@,
        }
    }
}

impl TimeSeries {
    /// A series built from parts, as a refresh payload hands them over.
    pub fn new(granularity: Granularity, start_ms: i64, end_ms: i64, samples: Vec<Sample>) -> (r:
        TimeSeries)
        ensures
            r@ == (SeriesModel { granularity, start_ms, end_ms, samples: samples@ }),
    {
        TimeSeries { granularity, start_ms, end_ms, samples }
    }

    /// The "no data yet" series a fresh session starts with.
    pub fn empty() -> (r: TimeSeries)
        ensures
            r@ == (SeriesModel {
                granularity: Granularity::Day,
                start_ms: 0,
                end_ms: 0,
                samples: Seq::<Sample>::empty(),
            }),
    {
        TimeSeries {
            granularity: Granularity::Day,
            start_ms: 0,
            end_ms: 0,
            samples: Vec::new(),
        }
    }

    pub fn granularity(&self) -> (r: Granularity)
        ensures
            r == self@.granularity,
    {
        self.granularity
    }

    pub fn start_ms(&self) -> (r: i64)
        ensures
            r == self@.start_ms,
    {
        self.start_ms
    }

    pub fn end_ms(&self) -> (r: i64)
        ensures
            r == self@.end_ms,
    {
        self.end_ms
    }

    pub fn len(&self) -> (r: usize)
        ensures
            r == self@.samples.len(),
    {
        self.samples.len()
    }

    pub fn is_empty(&self) -> (r: bool)
        ensures
            r == (self@.samples.len() == 0),
    {
        self.samples.len() == 0
    }

    /// Atomically swaps the stored sample sequence; granularity and window
    /// stay as they are. Replacing with an empty sequence is valid.
    pub fn replace(&mut self, samples: Vec<Sample>)
        ensures
            final(self)@ == (SeriesModel { samples: samples@, ..old(self)@ }),
    {
        self.samples = samples;
    }

    /// An immutable copy of the current samples, for a reader to compute on
    /// without holding the store.
    pub fn snapshot(&self) -> (r: Vec<Sample>)
        ensures
            r@ == self@.samples,
    {
        let mut r: Vec<Sample> = Vec::new();
        let mut i: usize = 0;
        while i < self.samples.len()
            invariant
                i <= self.samples.len(),
                r@ =~= self.samples@.subrange(0, i as int),
            decreases self.samples.len() - i,
        {
            r.push(self.samples[i]);
            i = i + 1;
        }
        proof {
            assert(r@ =~= self@.samples);
        }
        r
    }
}

/// `replace` followed by `snapshot` hands back exactly the samples that were
/// passed to `replace`, in the same order; intervening reads cannot change
/// that, since every read borrows the store immutably.
///
/// `after_replace` is what `replace` guarantees of the store and `snap` is
/// what `snapshot` then returns.
pub proof fn lemma_replace_then_snapshot(
    before: SeriesModel,
    after_replace: SeriesModel,
    replaced: Seq<Sample>,
    snap: Seq<Sample>,
)
    requires
        after_replace == (SeriesModel { samples: replaced, ..before }),
        snap == after_replace.samples,
    ensures
        snap == replaced,
{
}

} // verus!
