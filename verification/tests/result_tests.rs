use judge_core::config::{JudgeConfig, LimitPair, RlimitConfig};
use judge_core::result::{
    check_checker_result, check_user_result, get_max_mem, get_run_time, JudgeVerdict,
};
use judge_core::sandbox::{get_default_rusage, RusageInfo, SandboxExitInfo};
use judge_core::time::Duration;

fn limits(cpu_secs: Option<u64>) -> RlimitConfig {
    RlimitConfig {
        stack_limit: None,
        as_limit: None,
        cpu_limit: cpu_secs.map(|s| LimitPair { soft: s, hard: s + 1 }),
        nproc_limit: None,
        fsize_limit: None,
    }
}

fn config(cpu_secs: Option<u64>, has_checker: bool) -> JudgeConfig {
    JudgeConfig {
        rlimit: limits(cpu_secs),
        input_file_path: String::from("in.txt"),
        output_file_path: String::from("out.txt"),
        answer_file_path: String::from("ans.txt"),
        check_file_path: String::from("chk.txt"),
        has_checker,
    }
}

fn info(exit_status: i32, user_secs: u64, user_nanos: u32, sys_secs: u64, sys_nanos: u32) -> SandboxExitInfo {
    SandboxExitInfo {
        exit_status,
        real_time_cost: Duration::new(user_secs + sys_secs, 0),
        resource_usage: RusageInfo {
            user_time: Duration::new(user_secs, user_nanos),
            system_time: Duration::new(sys_secs, sys_nanos),
            max_rss: 1024,
        },
    }
}

#[test]
fn run_time_is_user_plus_system() {
    let i = info(0, 1, 600_000_000, 0, 500_000_000);
    let t = get_run_time(&i);
    assert_eq!(t.secs, 2);
    assert_eq!(t.nanos, 100_000_000);
}

#[test]
fn max_mem_reads_rss() {
    let i = info(0, 0, 0, 0, 0);
    assert_eq!(get_max_mem(&i), 1024);
}

#[test]
fn default_rusage_is_zeroed() {
    let r = get_default_rusage();
    assert_eq!(r.user_time.secs, 0);
    assert_eq!(r.user_time.nanos, 0);
    assert_eq!(r.system_time.secs, 0);
    assert_eq!(r.system_time.nanos, 0);
    assert_eq!(r.max_rss, 0);
}

#[test]
fn clean_exit_within_limit_decides_nothing() {
    let cfg = config(Some(2), true);
    let i = info(0, 1, 0, 0, 500_000_000);
    assert_eq!(check_user_result(&cfg, &i), None);
}

#[test]
fn over_cpu_limit_is_tle() {
    let cfg = config(Some(1), true);
    // User plus system time just over one second.
    let i = info(0, 0, 900_000_000, 0, 200_000_000);
    assert_eq!(
        check_user_result(&cfg, &i),
        Some(JudgeVerdict::TimeLimitExceeded)
    );
}

#[test]
fn tle_takes_precedence_over_exit_status() {
    let cfg = config(Some(1), true);
    let i = info(137, 2, 0, 0, 1);
    assert_eq!(
        check_user_result(&cfg, &i),
        Some(JudgeVerdict::TimeLimitExceeded)
    );
}

#[test]
fn exactly_at_limit_is_not_tle() {
    let cfg = config(Some(1), true);
    let i = info(0, 1, 0, 0, 0);
    assert_eq!(check_user_result(&cfg, &i), None);
}

#[test]
fn nonzero_exit_is_runtime_error() {
    let cfg = config(Some(10), true);
    let i = info(139, 0, 1000, 0, 1000);
    assert_eq!(check_user_result(&cfg, &i), Some(JudgeVerdict::RuntimeError));
}

#[test]
fn no_cpu_limit_skips_tle() {
    let cfg = config(None, true);
    let i = info(0, 100_000, 0, 100_000, 0);
    assert_eq!(check_user_result(&cfg, &i), None);
}

#[test]
fn checker_status_zero_is_accepted() {
    let i = info(0, 0, 0, 0, 0);
    assert_eq!(check_checker_result(&i), JudgeVerdict::Accepted);
}

#[test]
fn checker_status_shifted_is_wrong_answer() {
    let i = info(256, 0, 0, 0, 0);
    assert_eq!(check_checker_result(&i), JudgeVerdict::WrongAnswer);
}

#[test]
fn checker_other_status_is_system_error() {
    let i = info(1, 0, 0, 0, 0);
    assert_eq!(check_checker_result(&i), JudgeVerdict::SystemError);
}

#[test]
fn duration_checked_add_carries() {
    let a = Duration::new(1, 800_000_000);
    let b = Duration::new(2, 700_000_000);
    let c = a.checked_add(&b).unwrap();
    assert_eq!(c.secs, 4);
    assert_eq!(c.nanos, 500_000_000);
}

#[test]
fn duration_checked_add_overflows_to_none() {
    let a = Duration::new(u64::MAX, 0);
    let b = Duration::new(1, 0);
    assert!(a.checked_add(&b).is_none());
}

#[test]
fn duration_gt_compares_totals() {
    let a = Duration::new(1, 1);
    let b = Duration::new(1, 0);
    assert!(a.gt(&b));
    assert!(!b.gt(&a));
    assert!(!a.gt(&a));
}

#[test]
fn verdict_names() {
    assert_eq!(JudgeVerdict::Accepted.name(), "Accepted");
    assert_eq!(JudgeVerdict::WrongAnswer.name(), "WrongAnswer");
    assert_eq!(
        JudgeVerdict::IdlenessLimitExceeded.name(),
        "IdlenessLimitExceeded"
    );
}
