//! Pure pieces of the sequential fleet driver: the enable/disable
//! marker decision and the end-of-scan summary counts.

use vstd::prelude::*;

verus! {

/// What an enable or disable command does with the marker file.
#[derive(Clone, Copy, Debug, PartialEq, Eq, Structural)]
pub enum ToggleDecision {
    /// Create or remove the marker so that its presence becomes
    /// `want_present`.
    Apply,
    /// The marker already is as wanted: touch nothing, report it.
    AlreadyInDesiredState,
}

/// Enable and disable act only when they would change anything.
pub fn toggle_decision(marker_present: bool, want_present: bool) -> (d: ToggleDecision)
    ensures
        d == (if marker_present != want_present {
            ToggleDecision::Apply
        } else {
            ToggleDecision::AlreadyInDesiredState
        }),
{
    if marker_present != want_present {
        ToggleDecision::Apply
    } else {
        ToggleDecision::AlreadyInDesiredState
    }
}

/// Per-instance snapshot the driver collects during a fleet scan.
#[derive(Clone, Copy, Debug, PartialEq, Eq, Structural)]
pub struct InstanceStatus {
    pub running: bool,
    pub disabled: bool,
}

/// How many of the scanned instances were running.
pub open spec fn count_running(s: Seq<InstanceStatus>) -> int
    decreases s.len(),
{
    if s.len() == 0 {
        0
    } else {
        count_running(s.drop_last()) + (if s.last().running {
            1int
        } else {
            0int
        })
    }
}

/// How many of the scanned instances were disabled.
pub open spec fn count_disabled(s: Seq<InstanceStatus>) -> int
    decreases s.len(),
{
    if s.len() == 0 {
        0
    } else {
        count_disabled(s.drop_last()) + (if s.last().disabled {
            1int
        } else {
            0int
        })
    }
}

/// The "X of Y online, Z disabled" summary of a complete scan.
pub fn summarize(statuses: &Vec<InstanceStatus>) -> (r: (usize, usize))
    ensures
        r.0 == count_running(statuses@),
        r.1 == count_disabled(statuses@),
{
    let mut online: usize = 0;
    let mut disabled: usize = 0;
    let mut i: usize = 0;
    while i < statuses.len()
        invariant
            i <= statuses@.len(),
            online <= i,
            disabled <= i,
            online == count_running(statuses@.subrange(0, i as int)),
            disabled == count_disabled(statuses@.subrange(0, i as int)),
        decreases statuses@.len() - i,
    {
        proof {
            let pre = statuses@.subrange(0, i as int);
            let post = statuses@.subrange(0, i as int + 1);
            assert(post.drop_last() =~= pre);
            assert(post.last() == statuses@[i as int]);
        }
        if statuses[i].running {
            online = online + 1;
        }
        if statuses[i].disabled {
            disabled = disabled + 1;
        }
        i = i + 1;
    }
    proof {
        assert(statuses@.subrange(0, statuses@.len() as int) =~= statuses@);
    }
    (online, disabled)
}

} // verus!
