//! Error recording.
//!
//! The library keeps track of errors that occurred due to invalid
//! labels or invalid values when recording other metrics.  Error counts
//! are stored in counters in the `glean.error` category, routed to the
//! pings of the erring metric plus the implicit `metrics` ping.

use vstd::prelude::*;
use vstd::string::StringExecFns;

use crate::common::{
    base_identifier, clone_string_vec, spec_identifier, str_eq, CommonMetricData, Lifetime,
};
use crate::glean::{adds_counter, counter_count, find_cell, sat_i32, Glean};
use crate::metrics::CounterMetric;

verus! {

/// The possible error types for metric recording.
#[derive(Copy, Clone, Debug, PartialEq, Eq, Structural)]
pub enum ErrorType {
    /// For when the value to be recorded does not match the
    /// metric-specific restrictions.
    InvalidValue,
    /// For when the label of a labeled metric does not match the
    /// restrictions.
    InvalidLabel,
}

/// The fixed token of each error type, used in the names of the
/// counters that account for it.
pub open spec fn error_token(error: ErrorType) -> Seq<char> {
    match error {
        ErrorType::InvalidValue => "invalid_value"@,
        ErrorType::InvalidLabel => "invalid_label"@,
    }
}

impl ErrorType {
    /// The error type's metric name.
    pub fn to_string(&self) -> (token: &'static str)
        ensures
            token@ == error_token(*self),
    {
        match self {
            ErrorType::InvalidValue => "invalid_value",
            ErrorType::InvalidLabel => "invalid_label",
        }
    }
}

/// The identifier of the counter that accounts for errors of kind
/// `error` on the metric described by `category` and `name`: category
/// `glean.error`, name `<token>/<base>`, with any `/label` suffix split
/// off the erring metric's identifier first.
pub open spec fn error_metric_id(category: Seq<char>, name: Seq<char>, error: ErrorType) -> Seq<
    char,
> {
    spec_identifier(
        "glean.error"@,
        error_token(error) + "/"@ + base_identifier(spec_identifier(category, name)),
    )
}

/// The identifier the test query looks under: built from the **full**
/// identifier of the erring metric, keeping any `/label` suffix.  This
/// asymmetry with recording, which strips the label, is intentional:
/// errors accumulate per base metric but are queried per exact labeled
/// instance.
pub open spec fn test_error_metric_id(
    category: Seq<char>,
    name: Seq<char>,
    error: ErrorType,
) -> Seq<char> {
    spec_identifier("glean.error"@, error_token(error) + "/"@ + spec_identifier(category, name))
}

/// The routing of error accounting: the pings of the erring metric in
/// their original order, with the implicit `metrics` destination
/// appended once if it is not already among them.
pub open spec fn error_routing(pings: Seq<Seq<char>>) -> Seq<Seq<char>> {
    if pings.contains("metrics"@) {
        pings
    } else {
        pings.push("metrics"@)
    }
}

/// The error routing always contains the `metrics` destination, never
/// introduces a duplicate destination, and keeps every destination the
/// erring metric already had.
pub proof fn lemma_error_routing_includes_metrics(pings: Seq<Seq<char>>)
    requires
        pings.no_duplicates(),
    ensures
        error_routing(pings).contains("metrics"@),
        error_routing(pings).no_duplicates(),
        forall|p: Seq<char>| pings.contains(p) ==> error_routing(pings).contains(p),
{
    let r = error_routing(pings);
    if pings.contains("metrics"@) {
    } else {
        assert(r[pings.len() as int] == "metrics"@);
        assert(r.no_duplicates()) by {
            assert forall|i: int, j: int|
                0 <= i < r.len() && 0 <= j < r.len() && i != j implies r[i] != r[j] by {
                if i < pings.len() && j < pings.len() {
                    assert(pings[i] != pings[j]);
                } else if i < pings.len() {
                    assert(r[j] == "metrics"@);
                    if pings[i] == "metrics"@ {
                        assert(pings.contains("metrics"@));
                    }
                } else {
                    assert(r[i] == "metrics"@);
                    if pings[j] == "metrics"@ {
                        assert(pings.contains("metrics"@));
                    }
                }
            }
        }
    }
    assert forall|p: Seq<char>| pings.contains(p) implies r.contains(p) by {
        let j = choose|j: int| 0 <= j < pings.len() && pings[j] == p;
        assert(r[j] == p);
    }
}

/// Whether one of the strings in `v` reads as `s`.
fn pings_contain(v: &Vec<String>, s: &str) -> (found: bool)
    ensures
        found == v.deep_view().contains(s@),
{
    let n = v.len();
    let mut i: usize = 0;
    while i < n
        invariant
            i <= n,
            n == v@.len(),
            forall|j: int| 0 <= j < i ==> v.deep_view()[j] != s@,
        decreases n - i,
    {
        if str_eq(v[i].as_str(), s) {
            proof {
                assert(v.deep_view()[i as int] == s@);
            }
            return true;
        }
        i += 1;
    }
    proof {
        if v.deep_view().contains(s@) {
            let j = choose|j: int| 0 <= j < v.deep_view().len() && v.deep_view()[j] == s@;
            assert(v.deep_view()[j] != s@);
        }
    }
    false
}

/// Records an error into the engine.
///
/// Errors are recorded as counters in the `glean.error` category, in
/// the pings the erring metric is in as well as the `metrics` ping.
/// Each recording is one `+1` event on the accounting counter, never
/// idempotent.  The message is diagnostic only: it is never sent with a
/// ping, and emitting it on a side channel is left to the embedder.
/// The erring metric's routing is an ordered set, so it must not name
/// a ping twice.
#[allow(unused_variables)]
pub fn record_error(glean: &mut Glean, meta: &CommonMetricData, error: ErrorType, message: &str)
    requires
        meta.send_in_pings.deep_view().no_duplicates(),
    ensures
        final(glean).ping_types == old(glean).ping_types,
        adds_counter(
            old(glean).store@,
            final(glean).store@,
            error_routing(meta.send_in_pings.deep_view()),
            error_metric_id(meta.category@, meta.name@, error),
            1,
        ),
{
    let ghost pviews = meta.send_in_pings.deep_view();
    // Split off any label of the identifier.
    let identifier = meta.identifier();
    let base = crate::common::strip_label(identifier.as_str());

    // Record errors in the pings the metric is in, as well as the
    // metrics ping.
    let mut send_in_pings = clone_string_vec(&meta.send_in_pings);
    proof {
        assert(send_in_pings.deep_view() =~= pviews);
    }
    if !pings_contain(&send_in_pings, "metrics") {
        send_in_pings.push(String::from_str("metrics"));
        proof {
            assert(send_in_pings.deep_view() =~= pviews.push("metrics"@));
        }
    }
    proof {
        assert(send_in_pings.deep_view() == error_routing(pviews));
        lemma_error_routing_includes_metrics(pviews);
    }

    let mut name = String::from_str(error.to_string());
    name.append("/");
    name.append(base);

    let metric = CounterMetric::new(
        CommonMetricData {
            name,
            category: String::from_str("glean.error"),
            lifetime: Lifetime::Ping,
            send_in_pings,
            disabled: false,
        },
    );
    proof {
        assert(metric.spec_id() == error_metric_id(meta.category@, meta.name@, error));
    }
    metric.add(glean, 1);
}

/// The descriptive text reported when no error was recorded for a
/// metric in a store.
pub open spec fn no_error_message(id: Seq<char>, ping: Seq<char>) -> Seq<char> {
    "No error recorded for "@ + id + " in '"@ + ping + "' store"@
}

/// Gets the number of recorded errors for the given metric and error
/// type, from the snapshot of the named ping; when no ping is named,
/// the metric's first configured ping is used.
///
/// This is a test-only API.  The counter is looked up under the full
/// identifier of the metric, keeping any `/label` suffix; a missing
/// counter is reported as a descriptive "no error recorded" condition.
pub fn test_get_num_recorded_errors(
    glean: &Glean,
    meta: &CommonMetricData,
    error: ErrorType,
    ping_name: Option<&str>,
) -> (result: Result<i32, String>)
    requires
        ping_name is None ==> meta.send_in_pings@.len() > 0,
    ensures
        ({
            let ping = match ping_name {
                Some(p) => p@,
                None => meta.send_in_pings.deep_view()[0],
            };
            let id = test_error_metric_id(meta.category@, meta.name@, error);
            match find_cell(glean.store@, ping, id) {
                Some(v) => result == Ok::<i32, String>(v),
                None => result matches Err(m) && m@ == no_error_message(id, ping),
            }
        }),
{
    let use_ping_name: &str = match ping_name {
        Some(p) => p,
        None => meta.send_in_pings[0].as_str(),
    };
    proof {
        if ping_name is None {
            assert(meta.send_in_pings.deep_view()[0] == meta.send_in_pings@[0]@);
        }
    }
    let identifier = meta.identifier();
    let mut name = String::from_str(error.to_string());
    name.append("/");
    name.append(identifier.as_str());

    let metric = CounterMetric::new(
        CommonMetricData {
            name,
            category: String::from_str("glean.error"),
            lifetime: Lifetime::Ping,
            send_in_pings: clone_string_vec(&meta.send_in_pings),
            disabled: meta.disabled,
        },
    );

    match metric.test_get_value(glean, use_ping_name) {
        Some(count) => Ok(count),
        None => {
            let id = metric.meta().identifier();
            let mut message = String::from_str("No error recorded for ");
            message.append(id.as_str());
            message.append(" in '");
            message.append(use_ping_name);
            message.append("' store");
            Err(message)
        },
    }
}

/// Error accounting is cumulative, never idempotent: two recordings of
/// the same error on the same metric leave, in every destination of its
/// routing, a count greater by two than before the first recording (as
/// long as the counter stays below its saturation bound).
pub proof fn lemma_error_recording_accumulates(
    s0: Seq<crate::glean::StoreCell>,
    s1: Seq<crate::glean::StoreCell>,
    s2: Seq<crate::glean::StoreCell>,
    pings: Seq<Seq<char>>,
    id: Seq<char>,
    p: Seq<char>,
)
    requires
        adds_counter(s0, s1, pings, id, 1),
        adds_counter(s1, s2, pings, id, 1),
        pings.contains(p),
        counter_count(s0, p, id) + 2 <= i32::MAX,
    ensures
        find_cell(s2, p, id) == Some((counter_count(s0, p, id) + 2) as i32),
{
    assert(find_cell(s1, p, id) == Some(sat_i32(counter_count(s0, p, id) + 1)));
    assert(counter_count(s1, p, id) == counter_count(s0, p, id) + 1);
    assert(find_cell(s2, p, id) == Some(sat_i32(counter_count(s1, p, id) + 1)));
}

} // verus!
