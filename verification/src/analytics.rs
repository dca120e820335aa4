//! Analytics: the history of global metric snapshots and the windows of it
//! that trend reports read.

use vstd::prelude::*;
use crate::utils::{CommonsResult, Timestamp};

verus! {

/// A snapshot of global metrics; the carbon offset is kept by the bit
/// pattern of its double.
#[derive(Debug, Clone, Copy, PartialEq, Eq, Structural)]
pub struct GlobalMetrics {
    pub total_members: usize,
    pub total_projects: usize,
    pub revenue_usd: u128,
    pub carbon_offset_tons_bits: u64,
    pub timestamp: Timestamp,
}

pub struct AnalyticsSystem {
    metrics_history: Vec<GlobalMetrics>,
}

/// The last `n` snapshots of `h`, or all of them when there are fewer.
pub open spec fn last_n(h: Seq<GlobalMetrics>, n: int) -> Seq<GlobalMetrics> {
    if h.len() <= n {
        h
    } else {
        h.subrange(h.len() - n, h.len() as int)
    }
}

impl AnalyticsSystem {
    /// The recorded snapshots, oldest first.
    pub closed spec fn history(&self) -> Seq<GlobalMetrics> {
        self.metrics_history@
    }

    pub fn new() -> (r: CommonsResult<AnalyticsSystem>)
        ensures
            r matches Ok(a) && a.history().len() == 0,
    {
        Ok(AnalyticsSystem { metrics_history: Vec::new() })
    }

    /// Record a metrics snapshot.
    pub fn record_metrics(&mut self, metrics: GlobalMetrics)
        ensures
            final(self).history() == old(self).history().push(metrics),
    {
        self.metrics_history.push(metrics);
    }

    /// The last `n` snapshots, oldest first; all of them when fewer exist.
    pub fn get_trends(&self, n: usize) -> (r: Vec<&GlobalMetrics>)
        ensures
            r@.map_values(|m: &GlobalMetrics| *m) == last_n(self.history(), n as int),
    {
        let len = self.metrics_history.len();
        let start: usize = if len <= n {
            0
        } else {
            len - n
        };
        let mut r: Vec<&GlobalMetrics> = Vec::new();
        let mut i: usize = start;
        while i < len
            invariant
                start <= i <= len,
                len == self.metrics_history@.len(),
                r@.len() == i - start,
                forall|k: int| 0 <= k < r@.len() ==> *#[trigger] r@[k] == self.metrics_history@[start + k],
            decreases len - i,
        {
            r.push(&self.metrics_history[i]);
            i = i + 1;
        }
        assert(r@.map_values(|m: &GlobalMetrics| *m) =~= last_n(self.metrics_history@, n as int));
        r
    }

    /// The revenue of the first and of the last snapshot, which growth is
    /// measured between; `None` until two snapshots exist.
    pub fn growth_endpoints(&self) -> (r: Option<(u128, u128)>)
        ensures
            match r {
                Some((first, last)) => self.history().len() >= 2 && first
                    == self.history()[0].revenue_usd && last == self.history().last().revenue_usd,
                None => self.history().len() < 2,
            },
    {
        let len = self.metrics_history.len();
        if len < 2 {
            None
        } else {
            Some((self.metrics_history[0].revenue_usd, self.metrics_history[len - 1].revenue_usd))
        }
    }
}

impl Default for AnalyticsSystem {
    fn default() -> (r: AnalyticsSystem)
        ensures
            r.history().len() == 0,
    {
        AnalyticsSystem { metrics_history: Vec::new() }
    }
}

} // verus!
