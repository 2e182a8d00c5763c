//! How a reading is to be shown: whether it calls for a warning.

use crate::reading::{Ratio, Reading};
use vstd::prelude::*;

verus! {

/// How alarming a reading is.
#[derive(Clone, Copy, Debug, PartialEq, Eq, Structural)]
pub enum Alert {
    Normal,
    Warning,
    Critical,
}

/// The alert for a reading, given the whole numbers from which a warning and
/// a critical alert start.
pub open spec fn alert_of(r: Ratio, warning: int, critical: int) -> Alert {
    if r.at_least(critical) {
        Alert::Critical
    } else if r.at_least(warning) {
        Alert::Warning
    } else {
        Alert::Normal
    }
}

fn alert_for(r: &Reading, warning: u8, critical: u8) -> (a: Alert)
    ensures
        a == alert_of(r@, warning as int, critical as int),
{
    if r.is_at_least(critical) {
        Alert::Critical
    } else if r.is_at_least(warning) {
        Alert::Warning
    } else {
        Alert::Normal
    }
}

/// The alert for a temperature: critical from 60 degrees, a warning from 40.
pub fn temperature_alert(r: &Reading) -> (a: Alert)
    ensures
        a == alert_of(r@, 40, 60),
{
    alert_for(r, 40, 60)
}

/// The alert for a usage in percent: critical from 90, a warning from 70.
pub fn usage_alert(r: &Reading) -> (a: Alert)
    ensures
        a == alert_of(r@, 70, 90),
{
    alert_for(r, 70, 90)
}

} // verus!
