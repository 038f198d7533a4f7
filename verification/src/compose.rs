use vstd::prelude::*;
use crate::config::JudgeConfig;
use crate::error::JudgeError;
use crate::event_loop::InteractState;
use crate::result::{
    check_checker_result, check_user_result, checker_verdict, preliminary_verdict, JudgeResultInfo,
    JudgeVerdict,
};
use crate::sandbox::{run_time_fits, SandboxExitInfo};
use crate::time::Duration;

verus! {

/// What the user's post-mortem alone decides: either the run's final
/// record, or the user post-mortem that the checker stage must judge.
#[derive(Debug)]
pub enum Disposition {
    /// The verdict is settled without the checker.
    Done(JudgeResultInfo),
    /// The user exited cleanly within its limits; the checker decides.
    NeedChecker(SandboxExitInfo),
}

/// The record of a run whose user never reported: idleness is imputed
/// and every measured field is zero.
pub open spec fn idleness_result() -> JudgeResultInfo {
    JudgeResultInfo {
        verdict: JudgeVerdict::IdlenessLimitExceeded,
        time_usage: Duration { secs: 0, nanos: 0 },
        memory_usage_bytes: 0,
        exit_status: 0,
        checker_exit_status: 0,
    }
}

/// The record a preliminary verdict settles: the measured wall time and
/// peak memory, the user's exit status, and no checker run.
pub open spec fn preliminary_result(verdict: JudgeVerdict, info: SandboxExitInfo) -> JudgeResultInfo {
    JudgeResultInfo {
        verdict,
        time_usage: info.real_time_cost,
        memory_usage_bytes: info.resource_usage.max_rss,
        exit_status: info.exit_status,
        checker_exit_status: 0,
    }
}

/// Compose as much of the verdict as the event loop's evidence decides.
///
/// A verdict is produced only from a terminated loop: the `requires`
/// admits no state still waiting for an exit report. Where the user
/// never reported, idleness is imputed; where the user's post-mortem
/// decides on its own, that record is final; otherwise the checker must
/// be consulted, and a configuration without one cannot judge the run.
pub fn compose_preliminary(config: &JudgeConfig, state: &InteractState) -> (r: Result<
    Disposition,
    JudgeError,
>)
    requires
        state.wf(),
        state.spec_done(),
        state.user_result matches Some(info) ==> run_time_fits(info),
    ensures
        state.user_result is None ==> r == Ok::<Disposition, JudgeError>(
            Disposition::Done(idleness_result()),
        ),
        state.user_result matches Some(info) ==> {
            &&& (preliminary_verdict(*config, info) matches Some(v) ==> r == Ok::<
                Disposition,
                JudgeError,
            >(Disposition::Done(preliminary_result(v, info))))
            &&& (preliminary_verdict(*config, info) is None && config.has_checker ==> r == Ok::<
                Disposition,
                JudgeError,
            >(Disposition::NeedChecker(info)))
            &&& (preliminary_verdict(*config, info) is None && !config.has_checker ==> r == Err::<
                Disposition,
                JudgeError,
            >(JudgeError::ConfigInvalid))
        },
        (r matches Ok(d) && d is NeedChecker) <==> (state.user_result matches Some(info)
            && preliminary_verdict(*config, info) is None && config.has_checker),
{
    match &state.user_result {
        Some(info) => {
            let option_user_verdict = check_user_result(config, info);
            if let Some(verdict) = option_user_verdict {
                Ok(
                    Disposition::Done(
                        JudgeResultInfo {
                            verdict,
                            time_usage: info.real_time_cost,
                            memory_usage_bytes: info.resource_usage.max_rss,
                            exit_status: info.exit_status,
                            checker_exit_status: 0,
                        },
                    ),
                )
            } else if config.has_checker {
                Ok(Disposition::NeedChecker(*info))
            } else {
                Err(JudgeError::ConfigInvalid)
            }
        },
        None => Ok(
            Disposition::Done(
                JudgeResultInfo {
                    verdict: JudgeVerdict::IdlenessLimitExceeded,
                    time_usage: Duration::zero(),
                    memory_usage_bytes: 0,
                    exit_status: 0,
                    checker_exit_status: 0,
                },
            ),
        ),
    }
}

/// The record the checker's post-mortem settles for a user that exited
/// cleanly within its limits.
pub open spec fn checked_result(user_info: SandboxExitInfo, checker_info: SandboxExitInfo) -> JudgeResultInfo {
    JudgeResultInfo {
        verdict: checker_verdict(checker_info.exit_status),
        time_usage: user_info.real_time_cost,
        memory_usage_bytes: user_info.resource_usage.max_rss,
        exit_status: user_info.exit_status,
        checker_exit_status: checker_info.exit_status,
    }
}

/// Fold the checker's post-mortem into the final record.
pub fn compose_with_checker(user_info: &SandboxExitInfo, checker_info: &SandboxExitInfo) -> (r:
    JudgeResultInfo)
    ensures
        r == checked_result(*user_info, *checker_info),
{
    let verdict = check_checker_result(checker_info);
    JudgeResultInfo {
        verdict,
        time_usage: user_info.real_time_cost,
        memory_usage_bytes: user_info.resource_usage.max_rss,
        exit_status: user_info.exit_status,
        checker_exit_status: checker_info.exit_status,
    }
}

} // verus!
