//! The inhibition gate: one control value can short-circuit the whole run.

use vstd::prelude::*;

verus! {

/// What the control variable asks of the run.
#[derive(Clone, Copy, PartialEq, Eq, Structural, Debug)]
pub enum InhibitAction {
    /// No value is set: probe normally.
    Proceed,
    /// Emit one warning and return without probing; the build goes on.
    Skip,
    /// End the build step successfully at once, without probing.
    Stop,
    /// End the build step with a failure signal.
    Fail,
    /// An unrecognised value: abort, so a typo never probes silently.
    Abort,
}

/// The view of an optional string.
pub open spec fn opt_view(v: Option<String>) -> Option<Seq<char>> {
    match v {
        Option::None => Option::None,
        Option::Some(s) => Option::Some(s@),
    }
}

/// The action each control value demands.
pub open spec fn inhibit_spec(value: Option<Seq<char>>) -> InhibitAction {
    match value {
        Option::None => InhibitAction::Proceed,
        Option::Some(v) => if v == "skip"@ {
            InhibitAction::Skip
        } else if v == "stop"@ {
            InhibitAction::Stop
        } else if v == "fail"@ {
            InhibitAction::Fail
        } else {
            InhibitAction::Abort
        },
    }
}

/// Reads the control value: absent means proceed, the three known words have
/// their named effects, and anything else aborts.
pub fn classify_inhibit(value: &Option<String>) -> (r: InhibitAction)
    ensures
        r == inhibit_spec(opt_view(*value)),
{
    match value {
        Option::None => InhibitAction::Proceed,
        Option::Some(v) => {
            if v.eq(&String::from_str("skip")) {
                InhibitAction::Skip
            } else if v.eq(&String::from_str("stop")) {
                InhibitAction::Stop
            } else if v.eq(&String::from_str("fail")) {
                InhibitAction::Fail
            } else {
                InhibitAction::Abort
            }
        },
    }
}

} // verus!
