use vstd::prelude::*;

verus! {

/// The closed set of fatal error kinds of the judging core.
///
/// Errors are disjoint from user-visible verdicts: a user program that
/// crashes yields a `RuntimeError` verdict, while a failure of the core
/// itself (a syscall, a malformed exit report, a bad configuration)
/// surfaces as one of these.
#[derive(Clone, Copy, Debug, PartialEq, Eq, Structural)]
pub enum JudgeError {
    /// A read or write on a pipe or the transcript file failed.
    Io,
    /// A write found the peer's pipe already closed.
    PipeClosed,
    /// Encoding an exit report failed.
    SerializationError,
    /// Building a sandbox failed before the child could be spawned.
    SandboxSetup,
    /// Spawning a child process failed.
    ChildSpawn,
    /// An exit-report channel carried a malformed message, or delivered
    /// more than one message.
    ProtocolViolation,
    /// The configuration cannot support the requested run, for example a
    /// missing checker where one is required.
    ConfigInvalid,
}

} // verus!
