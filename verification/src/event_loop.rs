use vstd::prelude::*;
use crate::error::JudgeError;
use crate::exit_report::{parse_exit_message, spec_parse_exit_message};
use crate::sandbox::SandboxExitInfo;

verus! {

/// One observation the readiness multiplexer surfaced: bytes read from
/// a child's stdout until it would block, or the drained contents of an
/// exit-report pipe.
///
/// A zero-length chunk records an end-of-stream observation; it neither
/// moves bytes nor ends the loop.
pub enum InteractEvent {
    /// Bytes the user program wrote to its stdout.
    UserChunk(Vec<u8>),
    /// Bytes the interactor wrote to its stdout.
    InteractorChunk(Vec<u8>),
    /// The drained contents of the user's exit-report pipe.
    UserExitReport(Vec<u8>),
    /// The drained contents of the interactor's exit-report pipe.
    InteractorExitReport(Vec<u8>),
}

/// The bytes an event moves across the bridge.
pub open spec fn chunk_bytes(ev: InteractEvent) -> Seq<u8> {
    match ev {
        InteractEvent::UserChunk(b) => b@,
        InteractEvent::InteractorChunk(b) => b@,
        _ => Seq::<u8>::empty(),
    }
}

/// The bytes an event carries from the user towards the interactor.
pub open spec fn user_chunk_bytes(ev: InteractEvent) -> Seq<u8> {
    match ev {
        InteractEvent::UserChunk(b) => b@,
        _ => Seq::<u8>::empty(),
    }
}

/// The bytes an event carries from the interactor towards the user.
pub open spec fn interactor_chunk_bytes(ev: InteractEvent) -> Seq<u8> {
    match ev {
        InteractEvent::InteractorChunk(b) => b@,
        _ => Seq::<u8>::empty(),
    }
}

/// Every byte that crossed the bridge, in the order the events were
/// observed.
pub open spec fn transcript_bytes(tr: Seq<InteractEvent>) -> Seq<u8>
    decreases tr.len(),
{
    if tr.len() == 0 {
        Seq::<u8>::empty()
    } else {
        transcript_bytes(tr.drop_last()) + chunk_bytes(tr.last())
    }
}

/// Every byte the user wrote, in order.
pub open spec fn user_bytes(tr: Seq<InteractEvent>) -> Seq<u8>
    decreases tr.len(),
{
    if tr.len() == 0 {
        Seq::<u8>::empty()
    } else {
        user_bytes(tr.drop_last()) + user_chunk_bytes(tr.last())
    }
}

/// Every byte the interactor wrote, in order.
pub open spec fn interactor_bytes(tr: Seq<InteractEvent>) -> Seq<u8>
    decreases tr.len(),
{
    if tr.len() == 0 {
        Seq::<u8>::empty()
    } else {
        interactor_bytes(tr.drop_last()) + interactor_chunk_bytes(tr.last())
    }
}

/// How many user exit reports the trace holds.
pub open spec fn user_exit_count(tr: Seq<InteractEvent>) -> nat
    decreases tr.len(),
{
    if tr.len() == 0 {
        0
    } else {
        user_exit_count(tr.drop_last()) + (if tr.last() matches InteractEvent::UserExitReport(_) {
            1nat
        } else {
            0nat
        })
    }
}

/// How many interactor exit reports the trace holds.
pub open spec fn interactor_exit_count(tr: Seq<InteractEvent>) -> nat
    decreases tr.len(),
{
    if tr.len() == 0 {
        0
    } else {
        interactor_exit_count(tr.drop_last()) + (if tr.last()
            matches InteractEvent::InteractorExitReport(_) {
            1nat
        } else {
            0nat
        })
    }
}

/// The user post-mortem the latest user exit report carried, if any.
pub open spec fn stored_user_result(tr: Seq<InteractEvent>) -> Option<SandboxExitInfo>
    decreases tr.len(),
{
    if tr.len() == 0 {
        None
    } else {
        match tr.last() {
            InteractEvent::UserExitReport(raw) => match spec_parse_exit_message(raw@) {
                Some(m) => m.option_run_result,
                None => None,
            },
            _ => stored_user_result(tr.drop_last()),
        }
    }
}

/// Every exit report in the trace parses as a wire-format line.
pub open spec fn reports_parse(tr: Seq<InteractEvent>) -> bool {
    forall|i: int|
        0 <= i < tr.len() ==> match #[trigger] tr[i] {
            InteractEvent::UserExitReport(raw) => spec_parse_exit_message(raw@) is Some,
            InteractEvent::InteractorExitReport(raw) => spec_parse_exit_message(raw@) is Some,
            _ => true,
        }
}

/// What the driver must do after a step: forward the pumped bytes to
/// the named side's stdin and append them to the transcript file, or
/// nothing for an exit report.
#[derive(Debug)]
pub enum StepAction {
    ForwardToUser(Vec<u8>),
    ForwardToInteractor(Vec<u8>),
    NoForward,
}

/// The event loop's state: the two exit flags and the stored user
/// post-mortem, together with the history they were computed from.
///
/// The ghost trace records every accepted event; the ghost byte streams
/// are what the loop has appended to the transcript file and written to
/// each side's stdin. Well-formedness ties all of them to the trace.
pub struct InteractState {
    pub user_exited: bool,
    pub interactor_exited: bool,
    pub user_result: Option<SandboxExitInfo>,
    pub trace: Ghost<Seq<InteractEvent>>,
    pub transcript: Ghost<Seq<u8>>,
    pub sent_to_user: Ghost<Seq<u8>>,
    pub sent_to_interactor: Ghost<Seq<u8>>,
}

impl InteractState {
    pub open spec fn wf(&self) -> bool {
        &&& self.transcript@ == transcript_bytes(self.trace@)
        &&& self.sent_to_interactor@ == user_bytes(self.trace@)
        &&& self.sent_to_user@ == interactor_bytes(self.trace@)
        &&& self.user_exited == (user_exit_count(self.trace@) == 1)
        &&& self.interactor_exited == (interactor_exit_count(self.trace@) == 1)
        &&& user_exit_count(self.trace@) <= 1
        &&& interactor_exit_count(self.trace@) <= 1
        &&& self.user_result == stored_user_result(self.trace@)
        &&& reports_parse(self.trace@)
        &&& (self.user_result matches Some(info) ==> info.wf())
    }

    /// The loop may stop: both sides have reported their exit.
    pub open spec fn spec_done(&self) -> bool {
        self.user_exited && self.interactor_exited
    }

    /// The state before any event: nothing observed, nothing sent.
    pub fn new() -> (r: InteractState)
        ensures
            r.wf(),
            r.trace@ == Seq::<InteractEvent>::empty(),
            !r.user_exited,
            !r.interactor_exited,
            r.user_result is None,
            r.transcript@ == Seq::<u8>::empty(),
            r.sent_to_user@ == Seq::<u8>::empty(),
            r.sent_to_interactor@ == Seq::<u8>::empty(),
    {
        InteractState {
            user_exited: false,
            interactor_exited: false,
            user_result: None,
            trace: Ghost(Seq::empty()),
            transcript: Ghost(Seq::empty()),
            sent_to_user: Ghost(Seq::empty()),
            sent_to_interactor: Ghost(Seq::empty()),
        }
    }

    /// The loop's exit test.
    pub fn done(&self) -> (r: bool)
        ensures
            r == self.spec_done(),
    {
        self.user_exited && self.interactor_exited
    }

    /// Apply one observed event.
    ///
    /// A data chunk is recorded in the transcript and handed back to be
    /// forwarded to the peer. An exit report is parsed and latches the
    /// side's exit flag; a report that does not parse, or a second
    /// report on a channel that already delivered one, is the fatal
    /// protocol violation, and the state is left unchanged.
    pub fn step(&mut self, event: InteractEvent) -> (r: Result<StepAction, JudgeError>)
        requires
            old(self).wf(),
        ensures
            final(self).wf(),
            match r {
                Ok(action) => {
                    &&& final(self).trace@ == old(self).trace@.push(event)
                    &&& final(self).transcript@ == old(self).transcript@ + chunk_bytes(event)
                    &&& (event matches InteractEvent::UserChunk(data) ==> action
                        matches StepAction::ForwardToInteractor(fwd) && fwd@ == data@)
                    &&& (event matches InteractEvent::InteractorChunk(data) ==> action
                        matches StepAction::ForwardToUser(fwd) && fwd@ == data@)
                    &&& (event matches InteractEvent::UserExitReport(raw) ==> {
                        &&& action is NoForward
                        &&& !old(self).user_exited
                        &&& spec_parse_exit_message(raw@) matches Some(m)
                            && final(self).user_result == m.option_run_result
                        &&& final(self).user_exited
                    })
                    &&& (event matches InteractEvent::InteractorExitReport(raw) ==> {
                        &&& action is NoForward
                        &&& !old(self).interactor_exited
                        &&& spec_parse_exit_message(raw@) is Some
                        &&& final(self).interactor_exited
                    })
                    &&& final(self).user_exited == (old(self).user_exited || event
                        matches InteractEvent::UserExitReport(_))
                    &&& final(self).interactor_exited == (old(self).interactor_exited || event
                        matches InteractEvent::InteractorExitReport(_))
                },
                Err(e) => {
                    &&& *final(self) == *old(self)
                    &&& e == JudgeError::ProtocolViolation
                    &&& match event {
                        InteractEvent::UserExitReport(raw) => old(self).user_exited
                            || spec_parse_exit_message(raw@) is None,
                        InteractEvent::InteractorExitReport(raw) => old(self).interactor_exited
                            || spec_parse_exit_message(raw@) is None,
                        _ => false,
                    }
                },
            },
    {
        let ghost tr = self.trace@;
        match event {
            InteractEvent::UserChunk(data) => {
                proof {
                    lemma_trace_push(tr, InteractEvent::UserChunk(data));
                    lemma_reports_parse_push(tr, InteractEvent::UserChunk(data));
                    assert(user_bytes(tr.push(InteractEvent::UserChunk(data))) =~= user_bytes(tr)
                        + data@);
                    assert(interactor_bytes(tr.push(InteractEvent::UserChunk(data)))
                        =~= interactor_bytes(tr));
                    assert(transcript_bytes(tr.push(InteractEvent::UserChunk(data)))
                        =~= transcript_bytes(tr) + data@);
                }
                self.trace = Ghost(tr.push(InteractEvent::UserChunk(data)));
                self.transcript = Ghost(self.transcript@ + data@);
                self.sent_to_interactor = Ghost(self.sent_to_interactor@ + data@);
                Ok(StepAction::ForwardToInteractor(data))
            },
            InteractEvent::InteractorChunk(data) => {
                proof {
                    lemma_trace_push(tr, InteractEvent::InteractorChunk(data));
                    lemma_reports_parse_push(tr, InteractEvent::InteractorChunk(data));
                    assert(interactor_bytes(tr.push(InteractEvent::InteractorChunk(data)))
                        =~= interactor_bytes(tr) + data@);
                    assert(user_bytes(tr.push(InteractEvent::InteractorChunk(data))) =~= user_bytes(
                        tr,
                    ));
                    assert(transcript_bytes(tr.push(InteractEvent::InteractorChunk(data)))
                        =~= transcript_bytes(tr) + data@);
                }
                self.trace = Ghost(tr.push(InteractEvent::InteractorChunk(data)));
                self.transcript = Ghost(self.transcript@ + data@);
                self.sent_to_user = Ghost(self.sent_to_user@ + data@);
                Ok(StepAction::ForwardToUser(data))
            },
            InteractEvent::UserExitReport(raw) => {
                if self.user_exited {
                    return Err(JudgeError::ProtocolViolation);
                }
                match parse_exit_message(&raw) {
                    Ok(msg) => {
                        proof {
                            let ev = InteractEvent::UserExitReport(raw);
                            lemma_trace_push(tr, ev);
                            lemma_reports_parse_push(tr, ev);
                            assert(user_bytes(tr.push(ev)) =~= user_bytes(tr));
                            assert(interactor_bytes(tr.push(ev)) =~= interactor_bytes(tr));
                            assert(transcript_bytes(tr.push(ev)) =~= transcript_bytes(tr));
                        }
                        self.user_exited = true;
                        self.user_result = msg.option_run_result;
                        self.trace = Ghost(tr.push(InteractEvent::UserExitReport(raw)));
                        Ok(StepAction::NoForward)
                    },
                    Err(e) => Err(e),
                }
            },
            InteractEvent::InteractorExitReport(raw) => {
                if self.interactor_exited {
                    return Err(JudgeError::ProtocolViolation);
                }
                match parse_exit_message(&raw) {
                    Ok(_msg) => {
                        proof {
                            let ev = InteractEvent::InteractorExitReport(raw);
                            lemma_trace_push(tr, ev);
                            lemma_reports_parse_push(tr, ev);
                            assert(user_bytes(tr.push(ev)) =~= user_bytes(tr));
                            assert(interactor_bytes(tr.push(ev)) =~= interactor_bytes(tr));
                            assert(transcript_bytes(tr.push(ev)) =~= transcript_bytes(tr));
                        }
                        self.interactor_exited = true;
                        self.trace = Ghost(tr.push(InteractEvent::InteractorExitReport(raw)));
                        Ok(StepAction::NoForward)
                    },
                    Err(e) => Err(e),
                }
            },
        }
    }
}

/// How each per-trace fold changes when one event is appended.
proof fn lemma_trace_push(tr: Seq<InteractEvent>, ev: InteractEvent)
    ensures
        transcript_bytes(tr.push(ev)) == transcript_bytes(tr) + chunk_bytes(ev),
        user_bytes(tr.push(ev)) == user_bytes(tr) + user_chunk_bytes(ev),
        interactor_bytes(tr.push(ev)) == interactor_bytes(tr) + interactor_chunk_bytes(ev),
        user_exit_count(tr.push(ev)) == user_exit_count(tr) + (if ev
            matches InteractEvent::UserExitReport(_) {
            1nat
        } else {
            0nat
        }),
        interactor_exit_count(tr.push(ev)) == interactor_exit_count(tr) + (if ev
            matches InteractEvent::InteractorExitReport(_) {
            1nat
        } else {
            0nat
        }),
        stored_user_result(tr.push(ev)) == (match ev {
            InteractEvent::UserExitReport(raw) => match spec_parse_exit_message(raw@) {
                Some(m) => m.option_run_result,
                None => None,
            },
            _ => stored_user_result(tr),
        }),
{
    assert(tr.push(ev).drop_last() =~= tr);
    assert(tr.push(ev).last() == ev);
}

/// Appending an event whose report parses keeps every report parsing.
proof fn lemma_reports_parse_push(tr: Seq<InteractEvent>, ev: InteractEvent)
    requires
        reports_parse(tr),
        match ev {
            InteractEvent::UserExitReport(raw) => spec_parse_exit_message(raw@) is Some,
            InteractEvent::InteractorExitReport(raw) => spec_parse_exit_message(raw@) is Some,
            _ => true,
        },
    ensures
        reports_parse(tr.push(ev)),
{
    let t2 = tr.push(ev);
    assert forall|i: int| 0 <= i < t2.len() implies match #[trigger] t2[i] {
        InteractEvent::UserExitReport(raw) => spec_parse_exit_message(raw@) is Some,
        InteractEvent::InteractorExitReport(raw) => spec_parse_exit_message(raw@) is Some,
        _ => true,
    } by {
        if i < tr.len() {
            assert(t2[i] == tr[i]);
        } else {
            assert(t2[i] == ev);
        }
    }
}

/// Transcript faithfulness: the transcript file's contents are exactly
/// the bytes that crossed the bridge, in the order the multiplexer
/// observed them, and their count is the count of user bytes plus
/// interactor bytes.
pub proof fn lemma_transcript_faithful(st: InteractState)
    requires
        st.wf(),
    ensures
        st.transcript@ == transcript_bytes(st.trace@),
        st.transcript@.len() == user_bytes(st.trace@).len() + interactor_bytes(st.trace@).len(),
{
    lemma_transcript_len(st.trace@);
}

/// The transcript's length splits into the two directions' lengths.
proof fn lemma_transcript_len(tr: Seq<InteractEvent>)
    ensures
        transcript_bytes(tr).len() == user_bytes(tr).len() + interactor_bytes(tr).len(),
    decreases tr.len(),
{
    if tr.len() > 0 {
        lemma_transcript_len(tr.drop_last());
    }
}

/// Bidirectional delivery: what was written to one side's stdin is
/// exactly what the other side wrote to its stdout, byte for byte and
/// in order.
pub proof fn lemma_bidirectional_delivery(st: InteractState)
    requires
        st.wf(),
    ensures
        st.sent_to_interactor@ == user_bytes(st.trace@),
        st.sent_to_user@ == interactor_bytes(st.trace@),
{
}

/// Termination: the loop's exit test holds exactly when each
/// exit-report channel has delivered exactly one parsed message.
pub proof fn lemma_termination(st: InteractState)
    requires
        st.wf(),
    ensures
        st.spec_done() <==> (user_exit_count(st.trace@) == 1 && interactor_exit_count(st.trace@)
            == 1),
        st.spec_done() ==> reports_parse(st.trace@),
{
}

} // verus!
