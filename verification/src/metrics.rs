//! The sink-side metrics reporter: counts ingress events and decides when the
//! periodic metrics flush window has elapsed.

use vstd::prelude::*;

verus! {

/// The mathematical content of a metrics reporter.
pub ghost struct MetricsReporterView {
    pub interval_ns: Option<u64>,
    pub last_flush_ns: u64,
    pub count_in: u64,
}

/// The ingress counter after one more event, wrapping at the counter width.
pub open spec fn spec_increment(m: MetricsReporterView) -> MetricsReporterView {
    MetricsReporterView {
        count_in: if m.count_in == u64::MAX {
            0u64
        } else {
            (m.count_in + 1) as u64
        },
        ..m
    }
}

/// Whether the periodic flush window has elapsed at the given timestamp.
pub open spec fn spec_flush_due(m: MetricsReporterView, ingest_ns: u64) -> bool {
    match m.interval_ns {
        Some(interval) => ingest_ns >= m.last_flush_ns + interval,
        None => false,
    }
}

/// The reporter after a flush decision at the given timestamp.
pub open spec fn spec_after_flush(m: MetricsReporterView, ingest_ns: u64) -> MetricsReporterView {
    if spec_flush_due(m, ingest_ns) {
        MetricsReporterView { last_flush_ns: ingest_ns, ..m }
    } else {
        m
    }
}

/// Counts events into a sink and schedules the periodic metrics flush.
pub struct MetricsSinkReporter {
    interval_ns: Option<u64>,
    last_flush_ns: u64,
    count_in: u64,
}

impl View for MetricsSinkReporter {
    type V = MetricsReporterView;

    closed spec fn view(&self) -> MetricsReporterView {
        MetricsReporterView {
            interval_ns: self.interval_ns,
            last_flush_ns: self.last_flush_ns,
            count_in: self.count_in,
        }
    }
}

impl MetricsSinkReporter {
    /// A reporter that flushes every `interval_ns` nanoseconds, or never.
    pub fn new(interval_ns: Option<u64>) -> (r: Self)
        ensures
            r@ == (MetricsReporterView { interval_ns, last_flush_ns: 0u64, count_in: 0u64 }),
    {
        MetricsSinkReporter { interval_ns, last_flush_ns: 0, count_in: 0 }
    }

    /// Counts one ingress event.
    pub fn increment_in(&mut self)
        ensures
            final(self)@ == spec_increment(old(self)@),
    {
        self.count_in = self.count_in.wrapping_add(1);
    }

    /// Returns the flush timestamp when the periodic window has elapsed, and
    /// starts the next window.
    pub fn periodic_flush(&mut self, ingest_ns: u64) -> (r: Option<u64>)
        ensures
            r == if spec_flush_due(old(self)@, ingest_ns) {
                Some(ingest_ns)
            } else {
                None::<u64>
            },
            final(self)@ == spec_after_flush(old(self)@, ingest_ns),
    {
        match self.interval_ns {
            Some(interval) => {
                if ingest_ns >= self.last_flush_ns && ingest_ns - self.last_flush_ns >= interval {
                    self.last_flush_ns = ingest_ns;
                    Some(ingest_ns)
                } else {
                    None
                }
            },
            None => None,
        }
    }

    /// The number of events counted so far.
    pub fn count_in(&self) -> (r: u64)
        ensures
            r == self@.count_in,
    {
        self.count_in
    }
}

} // verus!
