use vstd::prelude::*;
use crate::codec::{
    dec_digits, enc_i64, match_lit, parse_i64, parse_u64, push_i64_digits, push_u64_digits,
    spec_match_lit, spec_parse_i64, spec_parse_u64,
};
use crate::error::JudgeError;
use crate::sandbox::{RusageInfo, SandboxExitInfo};
use crate::time::{Duration, NANOS_PER_SEC};

verus! {

/// The identifier byte the user program's exit reporter writes.
pub const USER_EXIT_SIGNAL: u8 = 41;

/// The identifier byte the interactor's exit reporter writes.
pub const INTERACTOR_EXIT_SIGNAL: u8 = 42;

/// The envelope a child's exit reporter sends over its exit-report
/// pipe: the listener's identifier byte and, where the sandbox reached
/// the exec stage, the child's post-mortem.
#[derive(Clone, Copy, Debug, PartialEq, Eq, Structural)]
pub struct ProcessExitMessage {
    pub id: u8,
    pub option_run_result: Option<SandboxExitInfo>,
}

impl ProcessExitMessage {
    pub open spec fn wf(&self) -> bool {
        match self.option_run_result {
            Some(info) => info.wf(),
            None => true,
        }
    }
}

// The exit-report wire format is one newline-terminated JSON line. The
// byte sequences below are its fixed fragments; each spec function
// lists the ASCII codes and the matching exec function builds the same
// bytes.
/// The bytes of `{"id":`.
pub open spec fn lit_msg_id() -> Seq<u8> {
    seq![123u8, 34u8, 105u8, 100u8, 34u8, 58u8]
}

fn lit_msg_id_vec() -> (r: Vec<u8>)
    ensures
        r@ == lit_msg_id(),
{
    let mut v: Vec<u8> = Vec::new();
    v.push(123);
    v.push(34);
    v.push(105);
    v.push(100);
    v.push(34);
    v.push(58);
    proof {
        assert(v@ =~= lit_msg_id());
    }
    v
}

/// The bytes of `,"option_run_result":`.
pub open spec fn lit_msg_opt() -> Seq<u8> {
    seq![
        44u8, 34u8, 111u8, 112u8, 116u8, 105u8, 111u8, 110u8, 95u8, 114u8, 117u8, 110u8, 95u8,
        114u8, 101u8, 115u8, 117u8, 108u8, 116u8, 34u8, 58u8,
    ]
}

fn lit_msg_opt_vec() -> (r: Vec<u8>)
    ensures
        r@ == lit_msg_opt(),
{
    let mut v: Vec<u8> = Vec::new();
    v.push(44);
    v.push(34);
    v.push(111);
    v.push(112);
    v.push(116);
    v.push(105);
    v.push(111);
    v.push(110);
    v.push(95);
    v.push(114);
    v.push(117);
    v.push(110);
    v.push(95);
    v.push(114);
    v.push(101);
    v.push(115);
    v.push(117);
    v.push(108);
    v.push(116);
    v.push(34);
    v.push(58);
    proof {
        assert(v@ =~= lit_msg_opt());
    }
    v
}

/// The bytes of `null`.
pub open spec fn lit_null() -> Seq<u8> {
    seq![110u8, 117u8, 108u8, 108u8]
}

fn lit_null_vec() -> (r: Vec<u8>)
    ensures
        r@ == lit_null(),
{
    let mut v: Vec<u8> = Vec::new();
    v.push(110);
    v.push(117);
    v.push(108);
    v.push(108);
    proof {
        assert(v@ =~= lit_null());
    }
    v
}

/// The bytes of `{"exit_status":`.
pub open spec fn lit_info_status() -> Seq<u8> {
    seq![
        123u8, 34u8, 101u8, 120u8, 105u8, 116u8, 95u8, 115u8, 116u8, 97u8, 116u8, 117u8, 115u8,
        34u8, 58u8,
    ]
}

fn lit_info_status_vec() -> (r: Vec<u8>)
    ensures
        r@ == lit_info_status(),
{
    let mut v: Vec<u8> = Vec::new();
    v.push(123);
    v.push(34);
    v.push(101);
    v.push(120);
    v.push(105);
    v.push(116);
    v.push(95);
    v.push(115);
    v.push(116);
    v.push(97);
    v.push(116);
    v.push(117);
    v.push(115);
    v.push(34);
    v.push(58);
    proof {
        assert(v@ =~= lit_info_status());
    }
    v
}

/// The bytes of `,"real_time_cost":`.
pub open spec fn lit_info_time() -> Seq<u8> {
    seq![
        44u8, 34u8, 114u8, 101u8, 97u8, 108u8, 95u8, 116u8, 105u8, 109u8, 101u8, 95u8, 99u8,
        111u8, 115u8, 116u8, 34u8, 58u8,
    ]
}

fn lit_info_time_vec() -> (r: Vec<u8>)
    ensures
        r@ == lit_info_time(),
{
    let mut v: Vec<u8> = Vec::new();
    v.push(44);
    v.push(34);
    v.push(114);
    v.push(101);
    v.push(97);
    v.push(108);
    v.push(95);
    v.push(116);
    v.push(105);
    v.push(109);
    v.push(101);
    v.push(95);
    v.push(99);
    v.push(111);
    v.push(115);
    v.push(116);
    v.push(34);
    v.push(58);
    proof {
        assert(v@ =~= lit_info_time());
    }
    v
}

/// The bytes of `,"resource_usage":`.
pub open spec fn lit_info_rusage() -> Seq<u8> {
    seq![
        44u8, 34u8, 114u8, 101u8, 115u8, 111u8, 117u8, 114u8, 99u8, 101u8, 95u8, 117u8, 115u8,
        97u8, 103u8, 101u8, 34u8, 58u8,
    ]
}

fn lit_info_rusage_vec() -> (r: Vec<u8>)
    ensures
        r@ == lit_info_rusage(),
{
    let mut v: Vec<u8> = Vec::new();
    v.push(44);
    v.push(34);
    v.push(114);
    v.push(101);
    v.push(115);
    v.push(111);
    v.push(117);
    v.push(114);
    v.push(99);
    v.push(101);
    v.push(95);
    v.push(117);
    v.push(115);
    v.push(97);
    v.push(103);
    v.push(101);
    v.push(34);
    v.push(58);
    proof {
        assert(v@ =~= lit_info_rusage());
    }
    v
}

/// The bytes of `{"secs":`.
pub open spec fn lit_dur_secs() -> Seq<u8> {
    seq![123u8, 34u8, 115u8, 101u8, 99u8, 115u8, 34u8, 58u8]
}

fn lit_dur_secs_vec() -> (r: Vec<u8>)
    ensures
        r@ == lit_dur_secs(),
{
    let mut v: Vec<u8> = Vec::new();
    v.push(123);
    v.push(34);
    v.push(115);
    v.push(101);
    v.push(99);
    v.push(115);
    v.push(34);
    v.push(58);
    proof {
        assert(v@ =~= lit_dur_secs());
    }
    v
}

/// The bytes of `,"nanos":`.
pub open spec fn lit_dur_nanos() -> Seq<u8> {
    seq![44u8, 34u8, 110u8, 97u8, 110u8, 111u8, 115u8, 34u8, 58u8]
}

fn lit_dur_nanos_vec() -> (r: Vec<u8>)
    ensures
        r@ == lit_dur_nanos(),
{
    let mut v: Vec<u8> = Vec::new();
    v.push(44);
    v.push(34);
    v.push(110);
    v.push(97);
    v.push(110);
    v.push(111);
    v.push(115);
    v.push(34);
    v.push(58);
    proof {
        assert(v@ =~= lit_dur_nanos());
    }
    v
}

/// The bytes of `{"user_time":`.
pub open spec fn lit_ru_user() -> Seq<u8> {
    seq![123u8, 34u8, 117u8, 115u8, 101u8, 114u8, 95u8, 116u8, 105u8, 109u8, 101u8, 34u8, 58u8]
}

fn lit_ru_user_vec() -> (r: Vec<u8>)
    ensures
        r@ == lit_ru_user(),
{
    let mut v: Vec<u8> = Vec::new();
    v.push(123);
    v.push(34);
    v.push(117);
    v.push(115);
    v.push(101);
    v.push(114);
    v.push(95);
    v.push(116);
    v.push(105);
    v.push(109);
    v.push(101);
    v.push(34);
    v.push(58);
    proof {
        assert(v@ =~= lit_ru_user());
    }
    v
}

/// The bytes of `,"system_time":`.
pub open spec fn lit_ru_system() -> Seq<u8> {
    seq![
        44u8, 34u8, 115u8, 121u8, 115u8, 116u8, 101u8, 109u8, 95u8, 116u8, 105u8, 109u8, 101u8,
        34u8, 58u8,
    ]
}

fn lit_ru_system_vec() -> (r: Vec<u8>)
    ensures
        r@ == lit_ru_system(),
{
    let mut v: Vec<u8> = Vec::new();
    v.push(44);
    v.push(34);
    v.push(115);
    v.push(121);
    v.push(115);
    v.push(116);
    v.push(101);
    v.push(109);
    v.push(95);
    v.push(116);
    v.push(105);
    v.push(109);
    v.push(101);
    v.push(34);
    v.push(58);
    proof {
        assert(v@ =~= lit_ru_system());
    }
    v
}

/// The bytes of `,"max_rss":`.
pub open spec fn lit_ru_maxrss() -> Seq<u8> {
    seq![44u8, 34u8, 109u8, 97u8, 120u8, 95u8, 114u8, 115u8, 115u8, 34u8, 58u8]
}

fn lit_ru_maxrss_vec() -> (r: Vec<u8>)
    ensures
        r@ == lit_ru_maxrss(),
{
    let mut v: Vec<u8> = Vec::new();
    v.push(44);
    v.push(34);
    v.push(109);
    v.push(97);
    v.push(120);
    v.push(95);
    v.push(114);
    v.push(115);
    v.push(115);
    v.push(34);
    v.push(58);
    proof {
        assert(v@ =~= lit_ru_maxrss());
    }
    v
}

/// The bytes of a closing brace.
pub open spec fn lit_rbrace() -> Seq<u8> {
    seq![125u8]
}

fn lit_rbrace_vec() -> (r: Vec<u8>)
    ensures
        r@ == lit_rbrace(),
{
    let mut v: Vec<u8> = Vec::new();
    v.push(125);
    proof {
        assert(v@ =~= lit_rbrace());
    }
    v
}

// ---------------------------------------------------------------------
// Encoding
// ---------------------------------------------------------------------
/// The encoding of a time span: `{"secs":S,"nanos":N}`.
pub open spec fn enc_duration(d: Duration) -> Seq<u8> {
    lit_dur_secs() + dec_digits(d.secs as nat) + lit_dur_nanos() + dec_digits(d.nanos as nat)
        + lit_rbrace()
}

/// The encoding of a resource-usage record:
/// `{"user_time":U,"system_time":S,"max_rss":M}`.
pub open spec fn enc_rusage(r: RusageInfo) -> Seq<u8> {
    lit_ru_user() + enc_duration(r.user_time) + lit_ru_system() + enc_duration(r.system_time)
        + lit_ru_maxrss() + enc_i64(r.max_rss as int) + lit_rbrace()
}

/// The encoding of a post-mortem:
/// `{"exit_status":E,"real_time_cost":T,"resource_usage":R}`.
pub open spec fn enc_exit_info(info: SandboxExitInfo) -> Seq<u8> {
    lit_info_status() + enc_i64(info.exit_status as int) + lit_info_time() + enc_duration(
        info.real_time_cost,
    ) + lit_info_rusage() + enc_rusage(info.resource_usage) + lit_rbrace()
}

/// An absent post-mortem encodes as `null`.
pub open spec fn enc_opt_exit_info(o: Option<SandboxExitInfo>) -> Seq<u8> {
    match o {
        Some(info) => enc_exit_info(info),
        None => lit_null(),
    }
}

/// The encoding of a whole exit message, without the terminating
/// newline: `{"id":I,"option_run_result":O}`.
pub open spec fn enc_exit_message(m: ProcessExitMessage) -> Seq<u8> {
    lit_msg_id() + dec_digits(m.id as nat) + lit_msg_opt() + enc_opt_exit_info(
        m.option_run_result,
    ) + lit_rbrace()
}

/// The newline-terminated line the exit reporter writes.
pub open spec fn enc_exit_message_line(m: ProcessExitMessage) -> Seq<u8> {
    enc_exit_message(m) + seq![10u8]
}

fn push_duration(out: &mut Vec<u8>, d: &Duration)
    ensures
        final(out)@ == old(out)@ + enc_duration(*d),
{
    let mut lit = lit_dur_secs_vec();
    out.append(&mut lit);
    push_u64_digits(out, d.secs);
    let mut lit = lit_dur_nanos_vec();
    out.append(&mut lit);
    push_u64_digits(out, d.nanos as u64);
    out.push(125);
    proof {
        assert(out@ =~= old(out)@ + enc_duration(*d));
    }
}

fn push_rusage(out: &mut Vec<u8>, r: &RusageInfo)
    ensures
        final(out)@ == old(out)@ + enc_rusage(*r),
{
    let mut lit = lit_ru_user_vec();
    out.append(&mut lit);
    push_duration(out, &r.user_time);
    let mut lit = lit_ru_system_vec();
    out.append(&mut lit);
    push_duration(out, &r.system_time);
    let mut lit = lit_ru_maxrss_vec();
    out.append(&mut lit);
    push_i64_digits(out, r.max_rss);
    out.push(125);
    proof {
        assert(out@ =~= old(out)@ + enc_rusage(*r));
    }
}

fn push_exit_info(out: &mut Vec<u8>, info: &SandboxExitInfo)
    ensures
        final(out)@ == old(out)@ + enc_exit_info(*info),
{
    let mut lit = lit_info_status_vec();
    out.append(&mut lit);
    push_i64_digits(out, info.exit_status as i64);
    let mut lit = lit_info_time_vec();
    out.append(&mut lit);
    push_duration(out, &info.real_time_cost);
    let mut lit = lit_info_rusage_vec();
    out.append(&mut lit);
    push_rusage(out, &info.resource_usage);
    out.push(125);
    proof {
        assert(out@ =~= old(out)@ + enc_exit_info(*info));
    }
}

/// Serialize an exit message as the one newline-terminated line its
/// exit-report pipe carries.
pub fn encode_exit_message(m: &ProcessExitMessage) -> (r: Vec<u8>)
    ensures
        r@ == enc_exit_message_line(*m),
{
    let mut out: Vec<u8> = Vec::new();
    let mut lit = lit_msg_id_vec();
    out.append(&mut lit);
    push_u64_digits(&mut out, m.id as u64);
    let mut lit = lit_msg_opt_vec();
    out.append(&mut lit);
    match &m.option_run_result {
        Some(info) => push_exit_info(&mut out, info),
        None => {
            let mut lit = lit_null_vec();
            out.append(&mut lit);
        },
    }
    out.push(125);
    out.push(10);
    proof {
        assert(out@ =~= enc_exit_message_line(*m));
    }
    out
}

// ---------------------------------------------------------------------
// Parsing
// ---------------------------------------------------------------------
/// Parse a time span at `pos`. A nanosecond part of a second or more is
/// rejected, so every parsed span is well-formed.
pub open spec fn spec_parse_duration(s: Seq<u8>, pos: int) -> Option<(Duration, int)> {
    match spec_match_lit(s, pos, lit_dur_secs()) {
        Some(p1) => match spec_parse_u64(s, p1) {
            Some((secs, p2)) => match spec_match_lit(s, p2, lit_dur_nanos()) {
                Some(p3) => match spec_parse_u64(s, p3) {
                    Some((nanos, p4)) => if nanos < NANOS_PER_SEC as u64 {
                        match spec_match_lit(s, p4, lit_rbrace()) {
                            Some(p5) => Some((Duration { secs, nanos: nanos as u32 }, p5)),
                            None => None,
                        }
                    } else {
                        None
                    },
                    None => None,
                },
                None => None,
            },
            None => None,
        },
        None => None,
    }
}

fn parse_duration(input: &Vec<u8>, pos: usize) -> (r: Option<(Duration, usize)>)
    requires
        pos <= input@.len(),
    ensures
        match r {
            Some(vp) => spec_parse_duration(input@, pos as int) == Some((vp.0, vp.1 as int))
                && vp.0.wf() && vp.1 <= input@.len(),
            None => spec_parse_duration(input@, pos as int) is None,
        },
{
    let lit = lit_dur_secs_vec();
    let p1 = match match_lit(input, pos, &lit) {
        Some(p) => p,
        None => {
            return None;
        },
    };
    let (secs, p2) = match parse_u64(input, p1) {
        Some(vp) => vp,
        None => {
            return None;
        },
    };
    let lit = lit_dur_nanos_vec();
    let p3 = match match_lit(input, p2, &lit) {
        Some(p) => p,
        None => {
            return None;
        },
    };
    let (nanos, p4) = match parse_u64(input, p3) {
        Some(vp) => vp,
        None => {
            return None;
        },
    };
    if !(nanos < NANOS_PER_SEC as u64) {
        return None;
    }
    let lit = lit_rbrace_vec();
    let p5 = match match_lit(input, p4, &lit) {
        Some(p) => p,
        None => {
            return None;
        },
    };
    Some((Duration { secs, nanos: nanos as u32 }, p5))
}

/// Parse a resource-usage record at `pos`.
pub open spec fn spec_parse_rusage(s: Seq<u8>, pos: int) -> Option<(RusageInfo, int)> {
    match spec_match_lit(s, pos, lit_ru_user()) {
        Some(p1) => match spec_parse_duration(s, p1) {
            Some((user_time, p2)) => match spec_match_lit(s, p2, lit_ru_system()) {
                Some(p3) => match spec_parse_duration(s, p3) {
                    Some((system_time, p4)) => match spec_match_lit(s, p4, lit_ru_maxrss()) {
                        Some(p5) => match spec_parse_i64(s, p5) {
                            Some((max_rss, p6)) => match spec_match_lit(s, p6, lit_rbrace()) {
                                Some(p7) => Some(
                                    (RusageInfo { user_time, system_time, max_rss }, p7),
                                ),
                                None => None,
                            },
                            None => None,
                        },
                        None => None,
                    },
                    None => None,
                },
                None => None,
            },
            None => None,
        },
        None => None,
    }
}

fn parse_rusage(input: &Vec<u8>, pos: usize) -> (r: Option<(RusageInfo, usize)>)
    requires
        pos <= input@.len(),
    ensures
        match r {
            Some(vp) => spec_parse_rusage(input@, pos as int) == Some((vp.0, vp.1 as int))
                && vp.0.wf() && vp.1 <= input@.len(),
            None => spec_parse_rusage(input@, pos as int) is None,
        },
{
    let lit = lit_ru_user_vec();
    let p1 = match match_lit(input, pos, &lit) {
        Some(p) => p,
        None => {
            return None;
        },
    };
    let (user_time, p2) = match parse_duration(input, p1) {
        Some(vp) => vp,
        None => {
            return None;
        },
    };
    let lit = lit_ru_system_vec();
    let p3 = match match_lit(input, p2, &lit) {
        Some(p) => p,
        None => {
            return None;
        },
    };
    let (system_time, p4) = match parse_duration(input, p3) {
        Some(vp) => vp,
        None => {
            return None;
        },
    };
    let lit = lit_ru_maxrss_vec();
    let p5 = match match_lit(input, p4, &lit) {
        Some(p) => p,
        None => {
            return None;
        },
    };
    let (max_rss, p6) = match parse_i64(input, p5) {
        Some(vp) => vp,
        None => {
            return None;
        },
    };
    let lit = lit_rbrace_vec();
    let p7 = match match_lit(input, p6, &lit) {
        Some(p) => p,
        None => {
            return None;
        },
    };
    Some((RusageInfo { user_time, system_time, max_rss }, p7))
}

/// Parse a post-mortem at `pos`.
pub open spec fn spec_parse_exit_info(s: Seq<u8>, pos: int) -> Option<(SandboxExitInfo, int)> {
    match spec_match_lit(s, pos, lit_info_status()) {
        Some(p1) => match spec_parse_i64(s, p1) {
            Some((status, p2)) => if i32::MIN <= status <= i32::MAX {
                match spec_match_lit(s, p2, lit_info_time()) {
                    Some(p3) => match spec_parse_duration(s, p3) {
                        Some((real_time_cost, p4)) => match spec_match_lit(s, p4, lit_info_rusage(),
                        ) {
                            Some(p5) => match spec_parse_rusage(s, p5) {
                                Some((resource_usage, p6)) => match spec_match_lit(
                                    s,
                                    p6,
                                    lit_rbrace(),
                                ) {
                                    Some(p7) => Some(
                                        (
                                            SandboxExitInfo {
                                                exit_status: status as i32,
                                                real_time_cost,
                                                resource_usage,
                                            },
                                            p7,
                                        ),
                                    ),
                                    None => None,
                                },
                                None => None,
                            },
                            None => None,
                        },
                        None => None,
                    },
                    None => None,
                }
            } else {
                None
            },
            None => None,
        },
        None => None,
    }
}

fn parse_exit_info(input: &Vec<u8>, pos: usize) -> (r: Option<(SandboxExitInfo, usize)>)
    requires
        pos <= input@.len(),
    ensures
        match r {
            Some(vp) => spec_parse_exit_info(input@, pos as int) == Some((vp.0, vp.1 as int))
                && vp.0.wf() && vp.1 <= input@.len(),
            None => spec_parse_exit_info(input@, pos as int) is None,
        },
{
    let lit = lit_info_status_vec();
    let p1 = match match_lit(input, pos, &lit) {
        Some(p) => p,
        None => {
            return None;
        },
    };
    let (status, p2) = match parse_i64(input, p1) {
        Some(vp) => vp,
        None => {
            return None;
        },
    };
    if !(i32::MIN as i64 <= status && status <= i32::MAX as i64) {
        return None;
    }
    let lit = lit_info_time_vec();
    let p3 = match match_lit(input, p2, &lit) {
        Some(p) => p,
        None => {
            return None;
        },
    };
    let (real_time_cost, p4) = match parse_duration(input, p3) {
        Some(vp) => vp,
        None => {
            return None;
        },
    };
    let lit = lit_info_rusage_vec();
    let p5 = match match_lit(input, p4, &lit) {
        Some(p) => p,
        None => {
            return None;
        },
    };
    let (resource_usage, p6) = match parse_rusage(input, p5) {
        Some(vp) => vp,
        None => {
            return None;
        },
    };
    let lit = lit_rbrace_vec();
    let p7 = match match_lit(input, p6, &lit) {
        Some(p) => p,
        None => {
            return None;
        },
    };
    Some((SandboxExitInfo { exit_status: status as i32, real_time_cost, resource_usage }, p7))
}

/// Parse an optional post-mortem: `null`, or the record itself.
pub open spec fn spec_parse_opt_exit_info(s: Seq<u8>, pos: int) -> Option<
    (Option<SandboxExitInfo>, int),
> {
    match spec_match_lit(s, pos, lit_null()) {
        Some(p) => Some((Option::<SandboxExitInfo>::None, p)),
        None => match spec_parse_exit_info(s, pos) {
            Some((info, p)) => Some((Some(info), p)),
            None => None,
        },
    }
}

fn parse_opt_exit_info(input: &Vec<u8>, pos: usize) -> (r: Option<
    (Option<SandboxExitInfo>, usize),
>)
    requires
        pos <= input@.len(),
    ensures
        match r {
            Some(vp) => spec_parse_opt_exit_info(input@, pos as int) == Some((vp.0, vp.1 as int))
                && (vp.0 matches Some(info) ==> info.wf()) && vp.1 <= input@.len(),
            None => spec_parse_opt_exit_info(input@, pos as int) is None,
        },
{
    let lit = lit_null_vec();
    match match_lit(input, pos, &lit) {
        Some(p) => Some((None, p)),
        None => match parse_exit_info(input, pos) {
            Some((info, p)) => Some((Some(info), p)),
            None => None,
        },
    }
}

/// Parse a whole exit-message line: the envelope, then the end of the
/// input, with at most one trailing newline.
pub open spec fn spec_parse_exit_message(s: Seq<u8>) -> Option<ProcessExitMessage> {
    match spec_match_lit(s, 0, lit_msg_id()) {
        Some(p1) => match spec_parse_u64(s, p1) {
            Some((id, p2)) => if id <= u8::MAX as u64 {
                match spec_match_lit(s, p2, lit_msg_opt()) {
                    Some(p3) => match spec_parse_opt_exit_info(s, p3) {
                        Some((opt, p4)) => match spec_match_lit(s, p4, lit_rbrace()) {
                            Some(p5) => if p5 == s.len() || (p5 == s.len() - 1 && s[p5] == 10) {
                                Some(ProcessExitMessage { id: id as u8, option_run_result: opt })
                            } else {
                                None
                            },
                            None => None,
                        },
                        None => None,
                    },
                    None => None,
                }
            } else {
                None
            },
            None => None,
        },
        None => None,
    }
}

/// A piece of an encoding that stands at `pos` stands at its offset.
proof fn lemma_piece(s: Seq<u8>, pos: int, whole: Seq<u8>, off: int, mid: Seq<u8>)
    requires
        0 <= pos,
        pos + whole.len() <= s.len(),
        s.subrange(pos, pos + whole.len() as int) == whole,
        0 <= off,
        off + mid.len() <= whole.len(),
        whole.subrange(off, off + mid.len() as int) == mid,
    ensures
        s.subrange(pos + off, pos + off + mid.len() as int) == mid,
{
    assert(s.subrange(pos + off, pos + off + mid.len() as int) =~= mid) by {
        assert forall|i: int|
            0 <= i < mid.len() implies s.subrange(pos + off, pos + off + mid.len() as int)[i]
            == mid[i] by {
            assert(s.subrange(pos, pos + whole.len() as int)[off + i] == s[pos + off + i]);
            assert(whole.subrange(off, off + mid.len() as int)[i] == whole[off + i]);
        }
    }
}

/// A well-formed time span's encoding, standing at `pos`, parses back
/// to the same span.
proof fn lemma_parse_duration_at(s: Seq<u8>, pos: int, d: Duration)
    requires
        d.wf(),
        0 <= pos,
        pos + enc_duration(d).len() <= s.len(),
        s.subrange(pos, pos + enc_duration(d).len() as int) == enc_duration(d),
    ensures
        spec_parse_duration(s, pos) == Some((d, pos + enc_duration(d).len() as int)),
{
    let e = enc_duration(d);
    let a = lit_dur_secs();
    let b = dec_digits(d.secs as nat);
    let c = lit_dur_nanos();
    let dd = dec_digits(d.nanos as nat);
    let p2 = a + b;
    let p3 = p2 + c;
    let p4 = p3 + dd;
    let o1 = pos + a.len();
    let o2 = o1 + b.len();
    let o3 = o2 + c.len();
    let o4 = o3 + dd.len();
    let end = o4 + 1;
    assert(e == p4 + lit_rbrace());
    assert(e.subrange(0, p4.len() as int) =~= p4);
    lemma_piece(s, pos, e, 0, p4);
    assert(e.subrange(p4.len() as int, e.len() as int) =~= lit_rbrace());
    lemma_piece(s, pos, e, p4.len() as int, lit_rbrace());
    assert(p4.subrange(0, p3.len() as int) =~= p3);
    lemma_piece(s, pos, p4, 0, p3);
    assert(p4.subrange(p3.len() as int, p4.len() as int) =~= dd);
    lemma_piece(s, pos, p4, p3.len() as int, dd);
    assert(p3.subrange(0, p2.len() as int) =~= p2);
    lemma_piece(s, pos, p3, 0, p2);
    assert(p3.subrange(p2.len() as int, p3.len() as int) =~= c);
    lemma_piece(s, pos, p3, p2.len() as int, c);
    assert(p2.subrange(0, a.len() as int) =~= a);
    lemma_piece(s, pos, p2, 0, a);
    assert(p2.subrange(a.len() as int, p2.len() as int) =~= b);
    lemma_piece(s, pos, p2, a.len() as int, b);
    crate::codec::lemma_match_lit_at(s, pos, a);
    assert(s[o2] == 44) by {
        assert(s.subrange(o2, o3)[0] == s[o2]);
    }
    crate::codec::lemma_parse_u64_at(s, o1, d.secs);
    crate::codec::lemma_match_lit_at(s, o2, c);
    assert(s[o4] == 125) by {
        assert(s.subrange(o4, end)[0] == s[o4]);
    }
    assert(dec_digits((d.nanos as u64) as nat) == dd);
    crate::codec::lemma_parse_u64_at(s, o3, d.nanos as u64);
    crate::codec::lemma_match_lit_at(s, o4, lit_rbrace());
    assert((Duration { secs: d.secs, nanos: (d.nanos as u64) as u32 }) == d);
}

/// A well-formed resource-usage record's encoding, standing at `pos`,
/// parses back to the same record.
#[verifier::rlimit(100)]
#[verifier::spinoff_prover]
proof fn lemma_parse_rusage_at(s: Seq<u8>, pos: int, r: RusageInfo)
    requires
        r.wf(),
        0 <= pos,
        pos + enc_rusage(r).len() <= s.len(),
        s.subrange(pos, pos + enc_rusage(r).len() as int) == enc_rusage(r),
    ensures
        spec_parse_rusage(s, pos) == Some((r, pos + enc_rusage(r).len() as int)),
{
    let e = enc_rusage(r);
    let a = lit_ru_user();
    let b = enc_duration(r.user_time);
    let c = lit_ru_system();
    let d = enc_duration(r.system_time);
    let f = lit_ru_maxrss();
    let g = enc_i64(r.max_rss as int);
    let p2 = a + b;
    let p3 = p2 + c;
    let p4 = p3 + d;
    let p5 = p4 + f;
    let p6 = p5 + g;
    let o1 = pos + a.len();
    let o2 = o1 + b.len();
    let o3 = o2 + c.len();
    let o4 = o3 + d.len();
    let o5 = o4 + f.len();
    let o6 = o5 + g.len();
    let end = o6 + 1;
    assert(e == p6 + lit_rbrace());
    assert(e.subrange(0, p6.len() as int) =~= p6);
    lemma_piece(s, pos, e, 0, p6);
    assert(e.subrange(p6.len() as int, e.len() as int) =~= lit_rbrace());
    lemma_piece(s, pos, e, p6.len() as int, lit_rbrace());
    assert(p6.subrange(0, p5.len() as int) =~= p5);
    lemma_piece(s, pos, p6, 0, p5);
    assert(p6.subrange(p5.len() as int, p6.len() as int) =~= g);
    lemma_piece(s, pos, p6, p5.len() as int, g);
    assert(p5.subrange(0, p4.len() as int) =~= p4);
    lemma_piece(s, pos, p5, 0, p4);
    assert(p5.subrange(p4.len() as int, p5.len() as int) =~= f);
    lemma_piece(s, pos, p5, p4.len() as int, f);
    assert(p4.subrange(0, p3.len() as int) =~= p3);
    lemma_piece(s, pos, p4, 0, p3);
    assert(p4.subrange(p3.len() as int, p4.len() as int) =~= d);
    lemma_piece(s, pos, p4, p3.len() as int, d);
    assert(p3.subrange(0, p2.len() as int) =~= p2);
    lemma_piece(s, pos, p3, 0, p2);
    assert(p3.subrange(p2.len() as int, p3.len() as int) =~= c);
    lemma_piece(s, pos, p3, p2.len() as int, c);
    assert(p2.subrange(0, a.len() as int) =~= a);
    lemma_piece(s, pos, p2, 0, a);
    assert(p2.subrange(a.len() as int, p2.len() as int) =~= b);
    lemma_piece(s, pos, p2, a.len() as int, b);
    crate::codec::lemma_match_lit_at(s, pos, a);
    lemma_parse_duration_at(s, o1, r.user_time);
    crate::codec::lemma_match_lit_at(s, o2, c);
    lemma_parse_duration_at(s, o3, r.system_time);
    crate::codec::lemma_match_lit_at(s, o4, f);
    assert(s[o6] == 125) by {
        assert(s.subrange(o6, end)[0] == s[o6]);
    }
    crate::codec::lemma_parse_i64_at(s, o5, r.max_rss);
    crate::codec::lemma_match_lit_at(s, o6, lit_rbrace());
}

/// A well-formed post-mortem's encoding, standing at `pos`, parses
/// back to the same post-mortem.
#[verifier::rlimit(100)]
#[verifier::spinoff_prover]
proof fn lemma_parse_exit_info_at(s: Seq<u8>, pos: int, info: SandboxExitInfo)
    requires
        info.wf(),
        0 <= pos,
        pos + enc_exit_info(info).len() <= s.len(),
        s.subrange(pos, pos + enc_exit_info(info).len() as int) == enc_exit_info(info),
    ensures
        spec_parse_exit_info(s, pos) == Some((info, pos + enc_exit_info(info).len() as int)),
        s[pos] == 123,
{
    let e = enc_exit_info(info);
    let a = lit_info_status();
    let b = enc_i64(info.exit_status as int);
    let c = lit_info_time();
    let d = enc_duration(info.real_time_cost);
    let f = lit_info_rusage();
    let g = enc_rusage(info.resource_usage);
    let p2 = a + b;
    let p3 = p2 + c;
    let p4 = p3 + d;
    let p5 = p4 + f;
    let p6 = p5 + g;
    let o1 = pos + a.len();
    let o2 = o1 + b.len();
    let o3 = o2 + c.len();
    let o4 = o3 + d.len();
    let o5 = o4 + f.len();
    let o6 = o5 + g.len();
    let end = o6 + 1;
    assert(e == p6 + lit_rbrace());
    assert(e.subrange(0, p6.len() as int) =~= p6);
    lemma_piece(s, pos, e, 0, p6);
    assert(e.subrange(p6.len() as int, e.len() as int) =~= lit_rbrace());
    lemma_piece(s, pos, e, p6.len() as int, lit_rbrace());
    assert(p6.subrange(0, p5.len() as int) =~= p5);
    lemma_piece(s, pos, p6, 0, p5);
    assert(p6.subrange(p5.len() as int, p6.len() as int) =~= g);
    lemma_piece(s, pos, p6, p5.len() as int, g);
    assert(p5.subrange(0, p4.len() as int) =~= p4);
    lemma_piece(s, pos, p5, 0, p4);
    assert(p5.subrange(p4.len() as int, p5.len() as int) =~= f);
    lemma_piece(s, pos, p5, p4.len() as int, f);
    assert(p4.subrange(0, p3.len() as int) =~= p3);
    lemma_piece(s, pos, p4, 0, p3);
    assert(p4.subrange(p3.len() as int, p4.len() as int) =~= d);
    lemma_piece(s, pos, p4, p3.len() as int, d);
    assert(p3.subrange(0, p2.len() as int) =~= p2);
    lemma_piece(s, pos, p3, 0, p2);
    assert(p3.subrange(p2.len() as int, p3.len() as int) =~= c);
    lemma_piece(s, pos, p3, p2.len() as int, c);
    assert(p2.subrange(0, a.len() as int) =~= a);
    lemma_piece(s, pos, p2, 0, a);
    assert(p2.subrange(a.len() as int, p2.len() as int) =~= b);
    lemma_piece(s, pos, p2, a.len() as int, b);
    crate::codec::lemma_match_lit_at(s, pos, a);
    assert(s[pos] == 123) by {
        assert(s.subrange(pos, o1)[0] == s[pos]);
    }
    assert(s[o2] == 44) by {
        assert(s.subrange(o2, o3)[0] == s[o2]);
    }
    crate::codec::lemma_parse_i64_at(s, o1, info.exit_status as i64);
    assert(enc_i64((info.exit_status as i64) as int) == b);
    crate::codec::lemma_match_lit_at(s, o2, c);
    lemma_parse_duration_at(s, o3, info.real_time_cost);
    crate::codec::lemma_match_lit_at(s, o4, f);
    lemma_parse_rusage_at(s, o5, info.resource_usage);
    crate::codec::lemma_match_lit_at(s, o6, lit_rbrace());
    assert((SandboxExitInfo {
        exit_status: ((info.exit_status as i64) as i32),
        real_time_cost: info.real_time_cost,
        resource_usage: info.resource_usage,
    }) == info);
}

/// A well-formed optional post-mortem's encoding, standing at `pos`,
/// parses back to the same value.
proof fn lemma_parse_opt_at(s: Seq<u8>, pos: int, o: Option<SandboxExitInfo>)
    requires
        o matches Some(info) ==> info.wf(),
        0 <= pos,
        pos + enc_opt_exit_info(o).len() <= s.len(),
        s.subrange(pos, pos + enc_opt_exit_info(o).len() as int) == enc_opt_exit_info(o),
    ensures
        spec_parse_opt_exit_info(s, pos) == Some((o, pos + enc_opt_exit_info(o).len() as int)),
{
    match o {
        None => {
            crate::codec::lemma_match_lit_at(s, pos, lit_null());
        },
        Some(info) => {
            lemma_parse_exit_info_at(s, pos, info);
            assert(spec_match_lit(s, pos, lit_null()) is None) by {
                if pos + lit_null().len() <= s.len() {
                    assert(s.subrange(pos, pos + lit_null().len() as int)[0] == s[pos]);
                    assert(s[pos] == 123);
                    assert(lit_null()[0] == 110);
                }
            }
        },
    }
}

/// Two adjacent pieces of `s` stand together as their concatenation.
proof fn lemma_glue(s: Seq<u8>, pos: int, mid1: Seq<u8>, mid2: Seq<u8>)
    requires
        0 <= pos,
        pos + mid1.len() + mid2.len() <= s.len(),
        s.subrange(pos, pos + mid1.len() as int) == mid1,
        s.subrange(pos + mid1.len() as int, pos + mid1.len() + mid2.len() as int) == mid2,
    ensures
        s.subrange(pos, pos + mid1.len() + mid2.len() as int) == mid1 + mid2,
{
    let l1 = mid1.len() as int;
    let l2 = mid2.len() as int;
    assert(s.subrange(pos, pos + l1 + l2) =~= mid1 + mid2) by {
        assert forall|k: int|
            0 <= k < l1 + l2 implies s.subrange(pos, pos + l1 + l2)[k] == (mid1 + mid2)[k] by {
            if k < l1 {
                assert(s.subrange(pos, pos + l1)[k] == s[pos + k]);
            } else {
                assert(s.subrange(pos + l1, pos + l1 + l2)[k - l1] == s[pos + k]);
            }
        }
    }
}

/// What a time-span parse accepted was exactly the encoding of the
/// span it returned.
proof fn lemma_parse_duration_enc(s: Seq<u8>, pos: int, d: Duration, p: int)
    requires
        0 <= pos <= s.len(),
        spec_parse_duration(s, pos) == Some((d, p)),
    ensures
        pos < p <= s.len(),
        s.subrange(pos, p) == enc_duration(d),
        d.wf(),
{
    let a = lit_dur_secs();
    let c = lit_dur_nanos();
    let p1 = pos + a.len() as int;
    assert(spec_match_lit(s, pos, a) == Some(p1));
    let run1 = crate::codec::digit_run_len(s, p1) as int;
    let p2 = p1 + run1;
    assert(spec_parse_u64(s, p1) == Some((d.secs, p2)));
    crate::codec::lemma_parse_u64_enc(s, p1, d.secs, p2);
    let p3 = p2 + c.len() as int;
    assert(spec_match_lit(s, p2, c) == Some(p3));
    let run2 = crate::codec::digit_run_len(s, p3) as int;
    let p4 = p3 + run2;
    assert(spec_parse_u64(s, p3) == Some((d.nanos as u64, p4)));
    crate::codec::lemma_parse_u64_enc(s, p3, d.nanos as u64, p4);
    assert(dec_digits((d.nanos as u64) as nat) == dec_digits(d.nanos as nat));
    let p5 = p4 + 1;
    assert(spec_match_lit(s, p4, lit_rbrace()) == Some(p5));
    assert(p == p5);
    let dd1 = dec_digits(d.secs as nat);
    let dd2 = dec_digits(d.nanos as nat);
    lemma_glue(s, pos, a, dd1);
    lemma_glue(s, pos, a + dd1, c);
    lemma_glue(s, pos, (a + dd1) + c, dd2);
    lemma_glue(s, pos, ((a + dd1) + c) + dd2, lit_rbrace());
}

/// What a resource-usage parse accepted was exactly the encoding of
/// the record it returned.
#[verifier::rlimit(100)]
#[verifier::spinoff_prover]
proof fn lemma_parse_rusage_enc(s: Seq<u8>, pos: int, r: RusageInfo, p: int)
    requires
        0 <= pos <= s.len(),
        spec_parse_rusage(s, pos) == Some((r, p)),
    ensures
        pos < p <= s.len(),
        s.subrange(pos, p) == enc_rusage(r),
        r.wf(),
{
    let a = lit_ru_user();
    let c = lit_ru_system();
    let f = lit_ru_maxrss();
    let p1 = pos + a.len() as int;
    assert(spec_match_lit(s, pos, a) == Some(p1));
    let p2 = spec_parse_duration(s, p1)->Some_0.1;
    assert(spec_parse_duration(s, p1) == Some((r.user_time, p2)));
    lemma_parse_duration_enc(s, p1, r.user_time, p2);
    let p3 = p2 + c.len() as int;
    assert(spec_match_lit(s, p2, c) == Some(p3));
    let p4 = spec_parse_duration(s, p3)->Some_0.1;
    assert(spec_parse_duration(s, p3) == Some((r.system_time, p4)));
    lemma_parse_duration_enc(s, p3, r.system_time, p4);
    let p5 = p4 + f.len() as int;
    assert(spec_match_lit(s, p4, f) == Some(p5));
    let p6 = spec_parse_i64(s, p5)->Some_0.1;
    assert(spec_parse_i64(s, p5) == Some((r.max_rss, p6)));
    crate::codec::lemma_parse_i64_enc(s, p5, r.max_rss, p6);
    let p7 = p6 + 1;
    assert(spec_match_lit(s, p6, lit_rbrace()) == Some(p7));
    assert(p == p7);
    let b = enc_duration(r.user_time);
    let d = enc_duration(r.system_time);
    let g = enc_i64(r.max_rss as int);
    lemma_glue(s, pos, a, b);
    lemma_glue(s, pos, a + b, c);
    lemma_glue(s, pos, (a + b) + c, d);
    lemma_glue(s, pos, ((a + b) + c) + d, f);
    lemma_glue(s, pos, (((a + b) + c) + d) + f, g);
    lemma_glue(s, pos, ((((a + b) + c) + d) + f) + g, lit_rbrace());
}

/// What a post-mortem parse accepted was exactly the encoding of the
/// post-mortem it returned.
#[verifier::rlimit(100)]
#[verifier::spinoff_prover]
proof fn lemma_parse_exit_info_enc(s: Seq<u8>, pos: int, info: SandboxExitInfo, p: int)
    requires
        0 <= pos <= s.len(),
        spec_parse_exit_info(s, pos) == Some((info, p)),
    ensures
        pos < p <= s.len(),
        s.subrange(pos, p) == enc_exit_info(info),
        info.wf(),
{
    let a = lit_info_status();
    let c = lit_info_time();
    let f = lit_info_rusage();
    let p1 = pos + a.len() as int;
    assert(spec_match_lit(s, pos, a) == Some(p1));
    let p2 = spec_parse_i64(s, p1)->Some_0.1;
    assert(spec_parse_i64(s, p1) == Some((info.exit_status as i64, p2)));
    crate::codec::lemma_parse_i64_enc(s, p1, info.exit_status as i64, p2);
    assert(enc_i64((info.exit_status as i64) as int) == enc_i64(info.exit_status as int));
    let p3 = p2 + c.len() as int;
    assert(spec_match_lit(s, p2, c) == Some(p3));
    let p4 = spec_parse_duration(s, p3)->Some_0.1;
    assert(spec_parse_duration(s, p3) == Some((info.real_time_cost, p4)));
    lemma_parse_duration_enc(s, p3, info.real_time_cost, p4);
    let p5 = p4 + f.len() as int;
    assert(spec_match_lit(s, p4, f) == Some(p5));
    let p6 = spec_parse_rusage(s, p5)->Some_0.1;
    assert(spec_parse_rusage(s, p5) == Some((info.resource_usage, p6)));
    lemma_parse_rusage_enc(s, p5, info.resource_usage, p6);
    let p7 = p6 + 1;
    assert(spec_match_lit(s, p6, lit_rbrace()) == Some(p7));
    assert(p == p7);
    let b = enc_i64(info.exit_status as int);
    let d = enc_duration(info.real_time_cost);
    let g = enc_rusage(info.resource_usage);
    lemma_glue(s, pos, a, b);
    lemma_glue(s, pos, a + b, c);
    lemma_glue(s, pos, (a + b) + c, d);
    lemma_glue(s, pos, ((a + b) + c) + d, f);
    lemma_glue(s, pos, (((a + b) + c) + d) + f, g);
    lemma_glue(s, pos, ((((a + b) + c) + d) + f) + g, lit_rbrace());
}

/// What an optional-post-mortem parse accepted was exactly the
/// encoding of the value it returned.
proof fn lemma_parse_opt_enc(s: Seq<u8>, pos: int, o: Option<SandboxExitInfo>, p: int)
    requires
        0 <= pos <= s.len(),
        spec_parse_opt_exit_info(s, pos) == Some((o, p)),
    ensures
        pos < p <= s.len(),
        s.subrange(pos, p) == enc_opt_exit_info(o),
        o matches Some(info) ==> info.wf(),
{
    match spec_match_lit(s, pos, lit_null()) {
        Some(_) => {
            assert(o is None);
        },
        None => {
            let info = o->Some_0;
            lemma_parse_exit_info_enc(s, pos, info, p);
        },
    }
}

/// Inversion: any input the parser accepts is the encoding of the
/// message it returns, with at most the trailing newline added; the
/// wire format has no other inhabitants.
#[verifier::rlimit(100)]
#[verifier::spinoff_prover]
pub proof fn lemma_exit_message_parse_inverts(s: Seq<u8>, m: ProcessExitMessage)
    requires
        spec_parse_exit_message(s) == Some(m),
    ensures
        m.wf(),
        s == enc_exit_message(m) || s == enc_exit_message_line(m),
{
    let a = lit_msg_id();
    let c = lit_msg_opt();
    let p1 = a.len() as int;
    assert(spec_match_lit(s, 0, a) == Some(p1));
    let run1 = crate::codec::digit_run_len(s, p1) as int;
    let p2 = p1 + run1;
    assert(spec_parse_u64(s, p1) == Some((m.id as u64, p2)));
    crate::codec::lemma_parse_u64_enc(s, p1, m.id as u64, p2);
    assert(dec_digits((m.id as u64) as nat) == dec_digits(m.id as nat));
    let p3 = p2 + c.len() as int;
    assert(spec_match_lit(s, p2, c) == Some(p3));
    let p4 = spec_parse_opt_exit_info(s, p3)->Some_0.1;
    assert(spec_parse_opt_exit_info(s, p3) == Some((m.option_run_result, p4)));
    lemma_parse_opt_enc(s, p3, m.option_run_result, p4);
    let p5 = p4 + 1;
    assert(spec_match_lit(s, p4, lit_rbrace()) == Some(p5));
    let b = dec_digits(m.id as nat);
    let d = enc_opt_exit_info(m.option_run_result);
    lemma_glue(s, 0, a, b);
    lemma_glue(s, 0, a + b, c);
    lemma_glue(s, 0, (a + b) + c, d);
    lemma_glue(s, 0, ((a + b) + c) + d, lit_rbrace());
    assert(s.subrange(0, p5) == enc_exit_message(m));
    if p5 == s.len() {
        assert(s.subrange(0, p5) =~= s);
    } else {
        assert(p5 == s.len() - 1 && s[p5] == 10);
        assert(s =~= enc_exit_message(m) + seq![10u8]) by {
            assert(forall|k: int|
                0 <= k < p5 ==> s[k] == #[trigger] s.subrange(0, p5)[k]);
        }
    }
}

/// Round trip: the line the exit reporter writes for a well-formed
/// message parses back to exactly that message.
#[verifier::rlimit(100)]
#[verifier::spinoff_prover]
pub proof fn lemma_exit_message_round_trip(m: ProcessExitMessage)
    requires
        m.wf(),
    ensures
        spec_parse_exit_message(enc_exit_message_line(m)) == Some(m),
{
    let s = enc_exit_message_line(m);
    let e = enc_exit_message(m);
    let a = lit_msg_id();
    let b = dec_digits(m.id as nat);
    let c = lit_msg_opt();
    let d = enc_opt_exit_info(m.option_run_result);
    let p2 = a + b;
    let p3 = p2 + c;
    let p4 = p3 + d;
    let o1 = a.len() as int;
    let o2 = o1 + b.len();
    let o3 = o2 + c.len();
    let o4 = o3 + d.len();
    let end = o4 + 1;
    assert(e == p4 + lit_rbrace());
    assert(s == e + seq![10u8]);
    assert(s.subrange(0, e.len() as int) =~= e);
    assert(e.subrange(0, p4.len() as int) =~= p4);
    lemma_piece(s, 0, e, 0, p4);
    assert(e.subrange(p4.len() as int, e.len() as int) =~= lit_rbrace());
    lemma_piece(s, 0, e, p4.len() as int, lit_rbrace());
    assert(p4.subrange(0, p3.len() as int) =~= p3);
    lemma_piece(s, 0, p4, 0, p3);
    assert(p4.subrange(p3.len() as int, p4.len() as int) =~= d);
    lemma_piece(s, 0, p4, p3.len() as int, d);
    assert(p3.subrange(0, p2.len() as int) =~= p2);
    lemma_piece(s, 0, p3, 0, p2);
    assert(p3.subrange(p2.len() as int, p3.len() as int) =~= c);
    lemma_piece(s, 0, p3, p2.len() as int, c);
    assert(p2.subrange(0, a.len() as int) =~= a);
    lemma_piece(s, 0, p2, 0, a);
    assert(p2.subrange(a.len() as int, p2.len() as int) =~= b);
    lemma_piece(s, 0, p2, a.len() as int, b);
    crate::codec::lemma_match_lit_at(s, 0, a);
    assert(s[o2] == 44) by {
        assert(s.subrange(o2, o3)[0] == s[o2]);
    }
    assert(dec_digits((m.id as u64) as nat) == b);
    crate::codec::lemma_parse_u64_at(s, o1, m.id as u64);
    crate::codec::lemma_match_lit_at(s, o2, c);
    lemma_parse_opt_at(s, o3, m.option_run_result);
    crate::codec::lemma_match_lit_at(s, o4, lit_rbrace());
    assert(s[end] == 10) by {
        assert(s == e + seq![10u8]);
        assert(end == e.len());
    }
    assert((ProcessExitMessage {
        id: ((m.id as u64) as u8),
        option_run_result: m.option_run_result,
    }) == m);
}

/// Parse the single line an exit-report pipe delivered.
///
/// Exactly the lines of the wire format parse; anything else is the
/// protocol violation the event loop treats as fatal.
pub fn parse_exit_message(input: &Vec<u8>) -> (r: Result<ProcessExitMessage, JudgeError>)
    ensures
        match r {
            Ok(m) => spec_parse_exit_message(input@) == Some(m) && m.wf(),
            Err(e) => spec_parse_exit_message(input@) is None && e
                == JudgeError::ProtocolViolation,
        },
{
    let lit = lit_msg_id_vec();
    let p1 = match match_lit(input, 0, &lit) {
        Some(p) => p,
        None => {
            return Err(JudgeError::ProtocolViolation);
        },
    };
    let (id, p2) = match parse_u64(input, p1) {
        Some(vp) => vp,
        None => {
            return Err(JudgeError::ProtocolViolation);
        },
    };
    if !(id <= u8::MAX as u64) {
        return Err(JudgeError::ProtocolViolation);
    }
    let lit = lit_msg_opt_vec();
    let p3 = match match_lit(input, p2, &lit) {
        Some(p) => p,
        None => {
            return Err(JudgeError::ProtocolViolation);
        },
    };
    let (opt, p4) = match parse_opt_exit_info(input, p3) {
        Some(vp) => vp,
        None => {
            return Err(JudgeError::ProtocolViolation);
        },
    };
    let lit = lit_rbrace_vec();
    let p5 = match match_lit(input, p4, &lit) {
        Some(p) => p,
        None => {
            return Err(JudgeError::ProtocolViolation);
        },
    };
    if p5 == input.len() || (p5 == input.len() - 1 && input[p5] == 10) {
        Ok(ProcessExitMessage { id: id as u8, option_run_result: opt })
    } else {
        Err(JudgeError::ProtocolViolation)
    }
}

} // verus!
