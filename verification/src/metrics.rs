//! The counter metric type: the one metric the error-accounting
//! subsystem is built on.

use vstd::prelude::*;

use crate::common::{spec_identifier, CommonMetricData};
use crate::glean::{adds_counter, find_cell, Glean};

verus! {

/// A metric that accumulates a numeric count.
#[derive(Clone, Debug)]
pub struct CounterMetric {
    /// The metadata of this counter.
    pub meta: CommonMetricData,
}

impl CounterMetric {
    /// The full identifier this counter is stored under.
    pub open spec fn spec_id(&self) -> Seq<char> {
        spec_identifier(self.meta.category@, self.meta.name@)
    }

    /// Creates a new counter metric from its metadata.
    pub fn new(meta: CommonMetricData) -> (metric: CounterMetric)
        ensures
            metric.meta == meta,
    {
        CounterMetric { meta }
    }

    /// Access the metadata of this counter.
    pub fn meta(&self) -> (meta: &CommonMetricData)
        ensures
            meta == &self.meta,
    {
        &self.meta
    }

    /// Adds `amount` to this counter, saturating at the `i32` bounds,
    /// in every ping the metric is sent in.  A disabled metric records
    /// nothing; the catalog of ping types is never touched.  The
    /// metric's routing is an ordered set, so it must not name a ping
    /// twice.
    pub fn add(&self, glean: &mut Glean, amount: i32)
        requires
            self.meta.send_in_pings.deep_view().no_duplicates(),
        ensures
            final(glean).ping_types == old(glean).ping_types,
            self.meta.disabled ==> final(glean).store == old(glean).store,
            !self.meta.disabled ==> adds_counter(
                old(glean).store@,
                final(glean).store@,
                self.meta.send_in_pings.deep_view(),
                self.spec_id(),
                amount as int,
            ),
    {
        if self.meta.disabled {
            return ;
        }
        let id = self.meta.identifier();
        let ghost pviews = self.meta.send_in_pings.deep_view();
        let ghost old_store = glean.store@;
        let n = self.meta.send_in_pings.len();
        let mut i: usize = 0;
        proof {
            assert(pviews.take(0) =~= Seq::<Seq<char>>::empty());
        }
        while i < n
            invariant
                i <= n,
                n == self.meta.send_in_pings@.len(),
                pviews == self.meta.send_in_pings.deep_view(),
                pviews.no_duplicates(),
                id@ == self.spec_id(),
                glean.ping_types == old(glean).ping_types,
                old_store == old(glean).store@,
                adds_counter(old_store, glean.store@, pviews.take(i as int), id@, amount as int),
            decreases n - i,
        {
            let ghost mid_store = glean.store@;
            glean.add_counter(self.meta.send_in_pings[i].as_str(), id.as_str(), amount);
            proof {
                assert(pviews[i as int] == self.meta.send_in_pings@[i as int]@);
                crate::glean::lemma_adds_counter_step(
                    old_store,
                    mid_store,
                    glean.store@,
                    pviews,
                    i as int,
                    id@,
                    amount as int,
                );
            }
            i += 1;
        }
        proof {
            assert(pviews.take(n as int) =~= pviews);
        }
    }

    /// Reads the current count of this counter in the named ping, or
    /// nothing when it was never recorded there.
    pub fn test_get_value(&self, glean: &Glean, ping_name: &str) -> (value: Option<i32>)
        ensures
            value == find_cell(glean.store@, ping_name@, self.spec_id()),
    {
        let id = self.meta.identifier();
        glean.counter_value(ping_name, id.as_str())
    }
}

} // verus!
