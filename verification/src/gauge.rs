use prometheus_client::metrics::gauge::Gauge;
use std::sync::atomic::AtomicI64;
use vstd::prelude::*;

verus! {

/// A gauge of the metrics library: a shared cell that holds one number.
#[verifier::external_type_specification]
#[verifier::external_body]
#[verifier::reject_recursive_types(N)]
#[verifier::reject_recursive_types(A)]
pub struct ExGauge<N, A>(Gauge<N, A>);

/// The number that a gauge shows: what was last stored in it. This library
/// writes to its gauges through `gauge_set` alone, and hands them out only to
/// be read.
pub uninterp spec fn gauge_value(gauge: Gauge<i64, AtomicI64>) -> i64;

/// `Gauge::default`: a fresh gauge, which shows zero.
#[verifier::external_body]
pub(crate) fn gauge_new() -> (gauge: Gauge<i64, AtomicI64>)
    ensures
        gauge_value(gauge) == 0,
{
    Gauge::default()
}

/// `Gauge::set`: stores `value` in the gauge, which shows it from then on.
/// The gauge is taken by `&mut` so that a value read before the call is not
/// taken for the one shown after it.
#[verifier::external_body]
pub(crate) fn gauge_set(gauge: &mut Gauge<i64, AtomicI64>, value: i64)
    ensures
        gauge_value(*final(gauge)) == value,
{
    gauge.set(value);
}

/// `Gauge::get`: reads the number that the gauge shows.
#[verifier::external_body]
pub(crate) fn gauge_get(gauge: &Gauge<i64, AtomicI64>) -> (value: i64)
    ensures
        value == gauge_value(*gauge),
{
    gauge.get()
}

} // verus!
