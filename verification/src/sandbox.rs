use vstd::prelude::*;
use crate::time::Duration;

verus! {

/// The resource usage a child's post-mortem reports: CPU time split into
/// user and system parts, and the peak resident set size in kilobytes,
/// as the kernel's accounting delivers them.
#[derive(Clone, Copy, Debug, PartialEq, Eq, Structural)]
pub struct RusageInfo {
    pub user_time: Duration,
    pub system_time: Duration,
    pub max_rss: i64,
}

impl RusageInfo {
    pub open spec fn wf(&self) -> bool {
        self.user_time.wf() && self.system_time.wf()
    }
}

/// Resource usage with every field zeroed, the value a post-mortem
/// starts from before the kernel's numbers are filled in.
pub fn get_default_rusage() -> (r: RusageInfo)
    ensures
        r.wf(),
        r.user_time.as_nanos() == 0,
        r.system_time.as_nanos() == 0,
        r.max_rss == 0,
{
    RusageInfo {
        user_time: Duration::zero(),
        system_time: Duration::zero(),
        max_rss: 0,
    }
}

/// A child's post-mortem: how it exited and what it consumed.
#[derive(Clone, Copy, Debug, PartialEq, Eq, Structural)]
pub struct SandboxExitInfo {
    /// The raw wait status of the child.
    pub exit_status: i32,
    /// Wall-clock time from spawn to exit.
    pub real_time_cost: Duration,
    pub resource_usage: RusageInfo,
}

impl SandboxExitInfo {
    pub open spec fn wf(&self) -> bool {
        self.real_time_cost.wf() && self.resource_usage.wf()
    }
}

/// Total CPU time of a post-mortem, user plus system, in nanoseconds.
pub open spec fn run_time_nanos(info: SandboxExitInfo) -> int {
    info.resource_usage.user_time.as_nanos() + info.resource_usage.system_time.as_nanos()
}

/// Whether the total CPU time of a post-mortem fits a single `Duration`.
pub open spec fn run_time_fits(info: SandboxExitInfo) -> bool {
    run_time_nanos(info) <= crate::time::max_duration_nanos()
}

} // verus!
