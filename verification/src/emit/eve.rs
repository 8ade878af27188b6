//! The EVE severity scale.

use vstd::prelude::*;

use crate::event::Severity;

verus! {

/// Suricata's numeric severity: 1 for critical down to 4 for
/// informational.
pub open spec fn eve_severity(s: Severity) -> u8 {
    match s {
        Severity::Critical => 1,
        Severity::Error => 2,
        Severity::Warning => 3,
        Severity::Info => 4,
    }
}

/// The default EVE severity: `Critical=1, Error=2, Warning=3, Info=4`,
/// lower being more severe.
pub fn default_severity_numeric(s: Severity) -> (n: u8)
    ensures
        n == eve_severity(s),
        1 <= n <= 4,
{
    match s {
        Severity::Critical => 1,
        Severity::Error => 2,
        Severity::Warning => 3,
        Severity::Info => 4,
    }
}

} // verus!
