use vstd::prelude::*;
use crate::time::Duration;

verus! {

/// A soft and a hard value for one resource cap.
#[derive(Clone, Copy, Debug, PartialEq, Eq, Structural)]
pub struct LimitPair {
    pub soft: u64,
    pub hard: u64,
}

/// Resource caps for a sandboxed child. Each cap is a soft and a hard
/// value, or `None` for unlimited.
///
/// The CPU soft limit doubles as the time-limit reference the verdict
/// is judged against.
#[derive(Clone, Copy, Debug, PartialEq, Eq, Structural)]
pub struct RlimitConfig {
    /// Stack size in bytes.
    pub stack_limit: Option<LimitPair>,
    /// Address-space size in bytes.
    pub as_limit: Option<LimitPair>,
    /// CPU time in seconds.
    pub cpu_limit: Option<LimitPair>,
    /// Number of processes.
    pub nproc_limit: Option<LimitPair>,
    /// Size of files the child may create, in bytes.
    pub fsize_limit: Option<LimitPair>,
}

impl RlimitConfig {
    /// The CPU soft limit as a time span, where one is configured.
    pub open spec fn spec_cpu_limit_duration(&self) -> Option<Duration> {
        match self.cpu_limit {
            Some(caps) => Some(Duration { secs: caps.soft, nanos: 0 }),
            None => None,
        }
    }

    pub fn get_cpu_limit_duration(&self) -> (r: Option<Duration>)
        ensures
            r == self.spec_cpu_limit_duration(),
            r matches Some(d) ==> d.wf(),
    {
        match self.cpu_limit {
            Some(caps) => Some(Duration::from_secs(caps.soft)),
            None => None,
        }
    }
}

/// The relaxed cap profile a trusted helper program runs under: ample
/// memory and CPU, no cap on processes or file size.
pub fn script_limit_config() -> (r: RlimitConfig)
    ensures
        r.cpu_limit == Some(LimitPair { soft: 3600u64, hard: 3600u64 }),
        r.stack_limit == Some(LimitPair { soft: 16_777_216u64, hard: 16_777_216u64 }),
        r.as_limit == Some(LimitPair { soft: 1_073_741_824u64, hard: 1_073_741_824u64 }),
        r.nproc_limit is None,
        r.fsize_limit is None,
{
    RlimitConfig {
        stack_limit: Some(LimitPair { soft: 16_777_216, hard: 16_777_216 }),
        as_limit: Some(LimitPair { soft: 1_073_741_824, hard: 1_073_741_824 }),
        cpu_limit: Some(LimitPair { soft: 3600, hard: 3600 }),
        nproc_limit: None,
        fsize_limit: None,
    }
}

/// Everything the judging core reads from its configuration: the data
/// files of the problem, the user's resource caps, and whether a
/// checker stage is configured.
pub struct JudgeConfig {
    /// The caps the user program runs under.
    pub rlimit: RlimitConfig,
    /// The problem's input file, handed to the interactor.
    pub input_file_path: String,
    /// Where the user program's output is collected.
    pub output_file_path: String,
    /// The expected-answer file.
    pub answer_file_path: String,
    /// The checker's auxiliary file.
    pub check_file_path: String,
    /// Whether a checker stage is configured.
    pub has_checker: bool,
}

/// The argument list a spawned interactor receives: an empty program
/// name placeholder, then the input, user-output and answer paths.
pub fn interactor_args(config: &JudgeConfig) -> (r: Vec<String>)
    ensures
        r@.len() == 4,
        r@[0]@ == Seq::<char>::empty(),
        r@[1]@ == config.input_file_path@,
        r@[2]@ == config.output_file_path@,
        r@[3]@ == config.answer_file_path@,
{
    let mut args: Vec<String> = Vec::new();
    args.push(String::new());
    args.push(config.input_file_path.clone());
    args.push(config.output_file_path.clone());
    args.push(config.answer_file_path.clone());
    args
}

/// The argument list a spawned checker receives: the interactor's, plus
/// the checker's auxiliary file.
pub fn checker_args(config: &JudgeConfig) -> (r: Vec<String>)
    ensures
        r@.len() == 5,
        r@[0]@ == Seq::<char>::empty(),
        r@[1]@ == config.input_file_path@,
        r@[2]@ == config.output_file_path@,
        r@[3]@ == config.answer_file_path@,
        r@[4]@ == config.check_file_path@,
{
    let mut args: Vec<String> = interactor_args(config);
    args.push(config.check_file_path.clone());
    args
}

} // verus!
