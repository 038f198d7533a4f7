use vstd::prelude::*;
use crate::config::JudgeConfig;
use crate::sandbox::{run_time_fits, run_time_nanos, SandboxExitInfo};
use crate::time::Duration;

verus! {

/// The closed set of verdicts a run can end in.
#[derive(Clone, Copy, Debug, PartialEq, Eq, Structural)]
pub enum JudgeVerdict {
    Accepted,
    WrongAnswer,
    TimeLimitExceeded,
    IdlenessLimitExceeded,
    RuntimeError,
    PartialScore,
    SystemError,
}

impl JudgeVerdict {
    /// The verdict's name, for reports.
    pub fn name(&self) -> (r: &'static str)
        ensures
            r@ == match *self {
                JudgeVerdict::Accepted => "Accepted"@,
                JudgeVerdict::WrongAnswer => "WrongAnswer"@,
                JudgeVerdict::TimeLimitExceeded => "TimeLimitExceeded"@,
                JudgeVerdict::IdlenessLimitExceeded => "IdlenessLimitExceeded"@,
                JudgeVerdict::RuntimeError => "RuntimeError"@,
                JudgeVerdict::PartialScore => "PartialScore"@,
                JudgeVerdict::SystemError => "SystemError"@,
            },
    {
        match *self {
            JudgeVerdict::Accepted => "Accepted",
            JudgeVerdict::WrongAnswer => "WrongAnswer",
            JudgeVerdict::TimeLimitExceeded => "TimeLimitExceeded",
            JudgeVerdict::IdlenessLimitExceeded => "IdlenessLimitExceeded",
            JudgeVerdict::RuntimeError => "RuntimeError",
            JudgeVerdict::PartialScore => "PartialScore",
            JudgeVerdict::SystemError => "SystemError",
        }
    }
}

/// The final record of a run: the verdict together with the measured
/// cost and the exit statuses it was derived from.
#[derive(Clone, Copy, Debug, PartialEq, Eq, Structural)]
pub struct JudgeResultInfo {
    pub verdict: JudgeVerdict,
    pub time_usage: Duration,
    pub memory_usage_bytes: i64,
    pub exit_status: i32,
    pub checker_exit_status: i32,
}

/// Total CPU time of a post-mortem: user time plus system time.
pub fn get_run_time(raw_info: &SandboxExitInfo) -> (r: Duration)
    requires
        raw_info.wf(),
        run_time_fits(*raw_info),
    ensures
        r.wf(),
        r.as_nanos() == run_time_nanos(*raw_info),
{
    let rusage = &raw_info.resource_usage;
    let sum = rusage.user_time.checked_add(&rusage.system_time);
    match sum {
        Some(d) => d,
        None => {
            proof {
                assert(false);
            }
            Duration::zero()
        }
    }
}

/// Peak resident set size of a post-mortem.
pub fn get_max_mem(raw_info: &SandboxExitInfo) -> (r: i64)
    ensures
        r == raw_info.resource_usage.max_rss,
{
    let rusage = &raw_info.resource_usage;
    rusage.max_rss
}

/// The verdict the user's post-mortem alone decides, before any checker
/// runs: over the CPU cap means `TimeLimitExceeded` whatever the exit
/// status, a nonzero exit status means `RuntimeError`, and a clean exit
/// within the cap decides nothing.
pub open spec fn preliminary_verdict(config: JudgeConfig, info: SandboxExitInfo) -> Option<
    JudgeVerdict,
> {
    if config.rlimit.spec_cpu_limit_duration() matches Some(limit) && run_time_nanos(info)
        > limit.as_nanos() {
        Some(JudgeVerdict::TimeLimitExceeded)
    } else if info.exit_status != 0 {
        Some(JudgeVerdict::RuntimeError)
    } else {
        None
    }
}

/// Judge the user's post-mortem on its own.
///
/// Exceeding the configured CPU soft limit takes precedence over every
/// other observation; a clean exit within the limit yields `None` and
/// leaves the verdict to the checker.
pub fn check_user_result(config: &JudgeConfig, raw_info: &SandboxExitInfo) -> (r: Option<
    JudgeVerdict,
>)
    requires
        raw_info.wf(),
        run_time_fits(*raw_info),
    ensures
        r == preliminary_verdict(*config, *raw_info),
        (config.rlimit.spec_cpu_limit_duration() matches Some(limit) && run_time_nanos(*raw_info)
            > limit.as_nanos()) ==> r == Some(JudgeVerdict::TimeLimitExceeded),
{
    if let Some(time_limit) = config.rlimit.get_cpu_limit_duration() {
        let run_time = get_run_time(raw_info);
        if run_time.gt(&time_limit) {
            return Some(JudgeVerdict::TimeLimitExceeded);
        }
    }
    let exit_status = raw_info.exit_status;
    match exit_status {
        0 => None,
        _ => Some(JudgeVerdict::RuntimeError),
    }
}

/// The verdict a checker's exit status encodes: 0 for `Accepted`, the
/// shifted status 256 for `WrongAnswer`, anything else for
/// `SystemError`.
pub open spec fn checker_verdict(exit_status: i32) -> JudgeVerdict {
    if exit_status == 0 {
        JudgeVerdict::Accepted
    } else if exit_status == 256 {
        JudgeVerdict::WrongAnswer
    } else {
        JudgeVerdict::SystemError
    }
}

/// Map the checker's post-mortem to its verdict.
pub fn check_checker_result(raw_info: &SandboxExitInfo) -> (r: JudgeVerdict)
    ensures
        r == checker_verdict(raw_info.exit_status),
{
    let exit_status = raw_info.exit_status;
    match exit_status {
        0 => JudgeVerdict::Accepted,
        256 => JudgeVerdict::WrongAnswer,
        _ => JudgeVerdict::SystemError,
    }
}

} // verus!
