use judge_core::compose::{compose_preliminary, compose_with_checker, Disposition};
use judge_core::config::{JudgeConfig, LimitPair, RlimitConfig};
use judge_core::error::JudgeError;
use judge_core::event_loop::{InteractEvent, InteractState, StepAction};
use judge_core::exit_report::{
    encode_exit_message, ProcessExitMessage, INTERACTOR_EXIT_SIGNAL, USER_EXIT_SIGNAL,
};
use judge_core::result::JudgeVerdict;
use judge_core::sandbox::{RusageInfo, SandboxExitInfo};
use judge_core::time::Duration;

fn config(cpu_secs: u64, has_checker: bool) -> JudgeConfig {
    JudgeConfig {
        rlimit: RlimitConfig {
            stack_limit: Some(LimitPair {
                soft: 16_777_216,
                hard: 16_777_216,
            }),
            as_limit: None,
            cpu_limit: Some(LimitPair {
                soft: cpu_secs,
                hard: cpu_secs + 1,
            }),
            nproc_limit: None,
            fsize_limit: None,
        },
        input_file_path: String::from("1.in"),
        output_file_path: String::from("1.out"),
        answer_file_path: String::from("1.ans"),
        check_file_path: String::from("1.chk"),
        has_checker,
    }
}

fn exit_info(exit_status: i32, user_ms: u64, sys_ms: u64, max_rss: i64) -> SandboxExitInfo {
    SandboxExitInfo {
        exit_status,
        real_time_cost: Duration::new((user_ms + sys_ms) / 1000, 0),
        resource_usage: RusageInfo {
            user_time: Duration::new(user_ms / 1000, ((user_ms % 1000) * 1_000_000) as u32),
            system_time: Duration::new(sys_ms / 1000, ((sys_ms % 1000) * 1_000_000) as u32),
            max_rss,
        },
    }
}

fn exit_report(id: u8, result: Option<SandboxExitInfo>) -> Vec<u8> {
    encode_exit_message(&ProcessExitMessage {
        id,
        option_run_result: result,
    })
}

#[test]
fn a_plus_b_happy_path() {
    let cfg = config(1, true);
    let mut st = InteractState::new();

    // The interactor hands the user its input; the loop forwards it.
    let act = st
        .step(InteractEvent::InteractorChunk(b"3 4\n".to_vec()))
        .unwrap();
    match act {
        StepAction::ForwardToUser(bytes) => assert_eq!(bytes, b"3 4\n".to_vec()),
        _ => panic!("interactor bytes must be forwarded to the user"),
    }

    // The user answers; the loop forwards the answer back.
    let act = st
        .step(InteractEvent::UserChunk(b"7\n".to_vec()))
        .unwrap();
    match act {
        StepAction::ForwardToInteractor(bytes) => assert_eq!(bytes, b"7\n".to_vec()),
        _ => panic!("user bytes must be forwarded to the interactor"),
    }
    assert!(!st.done());

    let user_info = exit_info(0, 10, 5, 2048);
    st.step(InteractEvent::InteractorExitReport(exit_report(
        INTERACTOR_EXIT_SIGNAL,
        Some(exit_info(0, 3, 1, 1024)),
    )))
    .unwrap();
    assert!(!st.done());
    st.step(InteractEvent::UserExitReport(exit_report(
        USER_EXIT_SIGNAL,
        Some(user_info),
    )))
    .unwrap();
    assert!(st.done());

    // A clean exit within the limit leaves the verdict to the checker.
    let user_info = match compose_preliminary(&cfg, &st).unwrap() {
        Disposition::NeedChecker(info) => info,
        Disposition::Done(_) => panic!("checker must be consulted"),
    };
    let checker_info = exit_info(0, 1, 1, 512);
    let result = compose_with_checker(&user_info, &checker_info);
    assert_eq!(result.verdict, JudgeVerdict::Accepted);
    assert_eq!(result.checker_exit_status, 0);
    assert_eq!(result.exit_status, 0);
    assert_eq!(result.memory_usage_bytes, 2048);
}

#[test]
fn user_runtime_error() {
    let cfg = config(1, true);
    let mut st = InteractState::new();
    st.step(InteractEvent::InteractorChunk(b"3 4\n".to_vec()))
        .unwrap();
    st.step(InteractEvent::InteractorExitReport(exit_report(
        INTERACTOR_EXIT_SIGNAL,
        Some(exit_info(0, 3, 1, 1024)),
    )))
    .unwrap();
    st.step(InteractEvent::UserExitReport(exit_report(
        USER_EXIT_SIGNAL,
        Some(exit_info(134, 10, 5, 2048)),
    )))
    .unwrap();
    assert!(st.done());

    // The verdict is settled without the checker.
    let result = match compose_preliminary(&cfg, &st).unwrap() {
        Disposition::Done(r) => r,
        Disposition::NeedChecker(_) => panic!("checker must not be consulted"),
    };
    assert_eq!(result.verdict, JudgeVerdict::RuntimeError);
    assert_ne!(result.exit_status, 0);
    assert_eq!(result.checker_exit_status, 0);
}

#[test]
fn user_time_limit_exceeded() {
    let cfg = config(1, true);
    let mut st = InteractState::new();
    st.step(InteractEvent::InteractorExitReport(exit_report(
        INTERACTOR_EXIT_SIGNAL,
        Some(exit_info(0, 3, 1, 1024)),
    )))
    .unwrap();
    // Killed by the CPU rlimit: user plus system time exceeds one second.
    st.step(InteractEvent::UserExitReport(exit_report(
        USER_EXIT_SIGNAL,
        Some(exit_info(137, 900, 200, 2048)),
    )))
    .unwrap();
    assert!(st.done());

    let result = match compose_preliminary(&cfg, &st).unwrap() {
        Disposition::Done(r) => r,
        Disposition::NeedChecker(_) => panic!("checker must not be consulted"),
    };
    assert_eq!(result.verdict, JudgeVerdict::TimeLimitExceeded);
}

#[test]
fn interactor_first_user_silent() {
    let cfg = config(1, true);
    let mut st = InteractState::new();
    // The interactor exits at once without printing anything; the
    // user's sandbox reports without a post-mortem.
    st.step(InteractEvent::InteractorExitReport(exit_report(
        INTERACTOR_EXIT_SIGNAL,
        Some(exit_info(0, 0, 0, 512)),
    )))
    .unwrap();
    st.step(InteractEvent::UserExitReport(exit_report(
        USER_EXIT_SIGNAL,
        None,
    )))
    .unwrap();
    assert!(st.done());

    let result = match compose_preliminary(&cfg, &st).unwrap() {
        Disposition::Done(r) => r,
        Disposition::NeedChecker(_) => panic!("checker must not be consulted"),
    };
    assert_eq!(result.verdict, JudgeVerdict::IdlenessLimitExceeded);
    assert_eq!(result.time_usage, Duration::new(0, 0));
    assert_eq!(result.memory_usage_bytes, 0);
    assert_eq!(result.exit_status, 0);
    assert_eq!(result.checker_exit_status, 0);
}

#[test]
fn checker_reports_wrong_answer() {
    let cfg = config(1, true);
    let mut st = InteractState::new();
    st.step(InteractEvent::InteractorChunk(b"3 4\n".to_vec()))
        .unwrap();
    st.step(InteractEvent::UserChunk(b"8\n".to_vec())).unwrap();
    st.step(InteractEvent::InteractorExitReport(exit_report(
        INTERACTOR_EXIT_SIGNAL,
        Some(exit_info(0, 3, 1, 1024)),
    )))
    .unwrap();
    st.step(InteractEvent::UserExitReport(exit_report(
        USER_EXIT_SIGNAL,
        Some(exit_info(0, 10, 5, 2048)),
    )))
    .unwrap();

    let user_info = match compose_preliminary(&cfg, &st).unwrap() {
        Disposition::NeedChecker(info) => info,
        Disposition::Done(_) => panic!("checker must be consulted"),
    };
    let result = compose_with_checker(&user_info, &exit_info(256, 1, 1, 512));
    assert_eq!(result.verdict, JudgeVerdict::WrongAnswer);
    assert_eq!(result.checker_exit_status, 256);
}

#[test]
fn missing_checker_is_config_error() {
    let cfg = config(1, false);
    let mut st = InteractState::new();
    st.step(InteractEvent::InteractorExitReport(exit_report(
        INTERACTOR_EXIT_SIGNAL,
        Some(exit_info(0, 3, 1, 1024)),
    )))
    .unwrap();
    st.step(InteractEvent::UserExitReport(exit_report(
        USER_EXIT_SIGNAL,
        Some(exit_info(0, 10, 5, 2048)),
    )))
    .unwrap();
    assert_eq!(
        compose_preliminary(&cfg, &st).unwrap_err(),
        JudgeError::ConfigInvalid
    );
}

#[test]
fn large_bidirectional_transcript() {
    let mut st = InteractState::new();
    let chunk_len = 1024usize;
    let rounds = 1024usize;
    let mut from_user: Vec<u8> = Vec::new();
    let mut from_interactor: Vec<u8> = Vec::new();
    let mut to_user: Vec<u8> = Vec::new();
    let mut to_interactor: Vec<u8> = Vec::new();
    let mut transcript_len = 0usize;
    for round in 0..rounds {
        let ichunk: Vec<u8> = vec![(round % 251) as u8; chunk_len];
        from_interactor.extend_from_slice(&ichunk);
        match st.step(InteractEvent::InteractorChunk(ichunk)).unwrap() {
            StepAction::ForwardToUser(bytes) => {
                transcript_len += bytes.len();
                to_user.extend_from_slice(&bytes);
            }
            _ => panic!("interactor bytes must be forwarded to the user"),
        }
        let uchunk: Vec<u8> = vec![(round % 241) as u8; chunk_len];
        from_user.extend_from_slice(&uchunk);
        match st.step(InteractEvent::UserChunk(uchunk)).unwrap() {
            StepAction::ForwardToInteractor(bytes) => {
                transcript_len += bytes.len();
                to_interactor.extend_from_slice(&bytes);
            }
            _ => panic!("user bytes must be forwarded to the interactor"),
        }
    }
    // Two mebibytes crossed the bridge; each side received exactly what
    // the other wrote, in order.
    assert_eq!(transcript_len, 2 * 1024 * 1024);
    assert_eq!(to_user, from_interactor);
    assert_eq!(to_interactor, from_user);
    assert!(!st.done());
}

#[test]
fn empty_chunk_is_end_of_stream_and_does_not_finish_loop() {
    let mut st = InteractState::new();
    match st.step(InteractEvent::UserChunk(Vec::new())).unwrap() {
        StepAction::ForwardToInteractor(bytes) => assert!(bytes.is_empty()),
        _ => panic!("an empty chunk still names its direction"),
    }
    assert!(!st.done());
}

#[test]
fn malformed_exit_report_is_protocol_violation() {
    let mut st = InteractState::new();
    let err = st
        .step(InteractEvent::UserExitReport(b"{broken".to_vec()))
        .unwrap_err();
    assert_eq!(err, JudgeError::ProtocolViolation);
    assert!(!st.done());
}

#[test]
fn second_exit_report_is_protocol_violation() {
    let mut st = InteractState::new();
    st.step(InteractEvent::UserExitReport(exit_report(
        USER_EXIT_SIGNAL,
        None,
    )))
    .unwrap();
    let err = st
        .step(InteractEvent::UserExitReport(exit_report(
            USER_EXIT_SIGNAL,
            None,
        )))
        .unwrap_err();
    assert_eq!(err, JudgeError::ProtocolViolation);
}
