use judge_core::exit_report::{encode_exit_message, parse_exit_message, ProcessExitMessage};
use judge_core::sandbox::{RusageInfo, SandboxExitInfo};
use judge_core::time::Duration;

fn sample_info() -> SandboxExitInfo {
    SandboxExitInfo {
        exit_status: 0,
        real_time_cost: Duration::new(1, 500_000_000),
        resource_usage: RusageInfo {
            user_time: Duration::new(0, 750_000_000),
            system_time: Duration::new(0, 250_000_000),
            max_rss: 4096,
        },
    }
}

#[test]
fn encode_null_result_is_exact() {
    let m = ProcessExitMessage {
        id: 41,
        option_run_result: None,
    };
    let bytes = encode_exit_message(&m);
    assert_eq!(
        String::from_utf8(bytes).unwrap(),
        "{\"id\":41,\"option_run_result\":null}\n"
    );
}

#[test]
fn encode_full_result_is_exact() {
    let m = ProcessExitMessage {
        id: 42,
        option_run_result: Some(sample_info()),
    };
    let bytes = encode_exit_message(&m);
    assert_eq!(
        String::from_utf8(bytes).unwrap(),
        "{\"id\":42,\"option_run_result\":{\"exit_status\":0,\"real_time_cost\":{\"secs\":1,\"nanos\":500000000},\"resource_usage\":{\"user_time\":{\"secs\":0,\"nanos\":750000000},\"system_time\":{\"secs\":0,\"nanos\":250000000},\"max_rss\":4096}}}\n"
    );
}

#[test]
fn round_trip_null() {
    let m = ProcessExitMessage {
        id: 7,
        option_run_result: None,
    };
    let bytes = encode_exit_message(&m);
    let back = parse_exit_message(&bytes).unwrap();
    assert_eq!(back.id, 7);
    assert!(back.option_run_result.is_none());
}

#[test]
fn round_trip_full() {
    let m = ProcessExitMessage {
        id: 42,
        option_run_result: Some(sample_info()),
    };
    let bytes = encode_exit_message(&m);
    let back = parse_exit_message(&bytes).unwrap();
    assert_eq!(back.id, 42);
    let info = back.option_run_result.unwrap();
    assert_eq!(info.exit_status, 0);
    assert_eq!(info.real_time_cost.secs, 1);
    assert_eq!(info.real_time_cost.nanos, 500_000_000);
    assert_eq!(info.resource_usage.user_time.nanos, 750_000_000);
    assert_eq!(info.resource_usage.system_time.nanos, 250_000_000);
    assert_eq!(info.resource_usage.max_rss, 4096);
}

#[test]
fn round_trip_negative_and_extreme_values() {
    let m = ProcessExitMessage {
        id: 255,
        option_run_result: Some(SandboxExitInfo {
            exit_status: -9,
            real_time_cost: Duration::new(u64::MAX, 999_999_999),
            resource_usage: RusageInfo {
                user_time: Duration::new(0, 0),
                system_time: Duration::new(0, 0),
                max_rss: i64::MIN,
            },
        }),
    };
    let bytes = encode_exit_message(&m);
    let back = parse_exit_message(&bytes).unwrap();
    let info = back.option_run_result.unwrap();
    assert_eq!(info.exit_status, -9);
    assert_eq!(info.real_time_cost.secs, u64::MAX);
    assert_eq!(info.real_time_cost.nanos, 999_999_999);
    assert_eq!(info.resource_usage.max_rss, i64::MIN);
}

#[test]
fn parse_without_trailing_newline() {
    let bytes: Vec<u8> = b"{\"id\":41,\"option_run_result\":null}".to_vec();
    let m = parse_exit_message(&bytes).unwrap();
    assert_eq!(m.id, 41);
    assert!(m.option_run_result.is_none());
}

#[test]
fn parse_rejects_empty_input() {
    let bytes: Vec<u8> = Vec::new();
    assert!(parse_exit_message(&bytes).is_err());
}

#[test]
fn parse_rejects_garbage() {
    let bytes: Vec<u8> = b"not json at all\n".to_vec();
    assert!(parse_exit_message(&bytes).is_err());
}

#[test]
fn parse_rejects_truncated_message() {
    let m = ProcessExitMessage {
        id: 41,
        option_run_result: Some(sample_info()),
    };
    let mut bytes = encode_exit_message(&m);
    bytes.truncate(bytes.len() - 10);
    assert!(parse_exit_message(&bytes).is_err());
}

#[test]
fn parse_rejects_trailing_garbage() {
    let m = ProcessExitMessage {
        id: 41,
        option_run_result: None,
    };
    let mut bytes = encode_exit_message(&m);
    bytes.extend_from_slice(b"x");
    assert!(parse_exit_message(&bytes).is_err());
}

#[test]
fn parse_rejects_id_out_of_range() {
    let bytes: Vec<u8> = b"{\"id\":256,\"option_run_result\":null}\n".to_vec();
    assert!(parse_exit_message(&bytes).is_err());
}

#[test]
fn parse_rejects_leading_zero() {
    let bytes: Vec<u8> = b"{\"id\":041,\"option_run_result\":null}\n".to_vec();
    assert!(parse_exit_message(&bytes).is_err());
}

#[test]
fn parse_rejects_overlong_nanos() {
    let bytes: Vec<u8> = b"{\"id\":41,\"option_run_result\":{\"exit_status\":0,\"real_time_cost\":{\"secs\":0,\"nanos\":1000000000},\"resource_usage\":{\"user_time\":{\"secs\":0,\"nanos\":0},\"system_time\":{\"secs\":0,\"nanos\":0},\"max_rss\":0}}}\n".to_vec();
    assert!(parse_exit_message(&bytes).is_err());
}
