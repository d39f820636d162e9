//! Metric registration: puts the application-info gauge, labelled with the
//! crate version and the git hash, into the process's metrics registry.

use vstd::prelude::*;

verus! {

#[verifier::external_type_specification]
#[verifier::external_body]
pub struct ExRegistry(prometheus::Registry);

/// Relies on prometheus's `GaugeVec::new` and `Registry::register`: builds a
/// gauge vector under the given name and help text with the two given label
/// names, and registers it as a collector of `registry`; true exactly when
/// the registry accepted it.
#[verifier::external_body]
fn register_gauge(
    registry: &prometheus::Registry,
    name: &str,
    help: &str,
    label_a: &str,
    label_b: &str,
) -> (r: bool)
{
    let gauge = match prometheus::GaugeVec::new(prometheus::Opts::new(name, help), &[
        label_a,
        label_b,
    ]) {
        Ok(g) => g,
        Err(_) => return false,
    };
    registry.register(Box::new(gauge)).is_ok()
}

/// Registers the application-info gauge. False when the registry refuses it,
/// as it does when the gauge was already registered.
pub fn register_metrics(registry: &prometheus::Registry) -> (r: bool) {
    register_gauge(
        registry,
        "tolerable_app_info",
        "static app labels that potentially only change at restart",
        "crate_version",
        "git_hash",
    )
}

} // verus!
