//! What happens to the application.
use vstd::prelude::*;
use vstd::string::StringExecFns;
use crate::text::{dec, push_dec};

verus! {

#[derive(Clone, Copy, Debug, PartialEq, Eq, Structural)]
pub enum ProcessSignal {
    Hangup,
    Interrupt,
    Terminate,
}

#[derive(Clone, Copy, Debug, PartialEq, Eq, Structural)]
pub struct UnsupportedProcessSignal(pub i32);

impl UnsupportedProcessSignal {
    pub open spec fn text(self) -> Seq<char> {
        "unsupported process signal "@ + if self.0 < 0 {
            "-"@ + dec((-self.0) as nat)
        } else {
            dec(self.0 as nat)
        }
    }

    /// What the error says.
    pub fn message(&self) -> (result: String)
        ensures
            result@ == self.text(),
    {
        let mut out = String::from_str("unsupported process signal ");
        if self.0 < 0 {
            out.append("-");
            push_dec(&mut out, (-(self.0 as i64)) as u64);
        } else {
            push_dec(&mut out, self.0 as u64);
        }
        assert(out@ =~= self.text());
        out
    }
}

impl ProcessSignal {
    /// The number of the signal.
    pub open spec fn code(self) -> i32 {
        match self {
            ProcessSignal::Hangup => 1,
            ProcessSignal::Interrupt => 2,
            ProcessSignal::Terminate => 15,
        }
    }

    /// The number of the signal: that of `SIGHUP`, `SIGINT` or `SIGTERM`.
    pub fn number(self) -> (result: i32)
        ensures
            result == self.code(),
    {
        match self {
            ProcessSignal::Hangup => 1,
            ProcessSignal::Interrupt => 2,
            ProcessSignal::Terminate => 15,
        }
    }

    /// The exit code of a process that ends on the signal: 128 and its number.
    pub fn exit_code(self) -> (result: u8)
        ensures
            result == 128 + self.code(),
    {
        match self {
            ProcessSignal::Hangup => 129,
            ProcessSignal::Interrupt => 130,
            ProcessSignal::Terminate => 143,
        }
    }
}

impl TryFrom<i32> for ProcessSignal {
    type Error = UnsupportedProcessSignal;

    fn try_from(value: i32) -> (result: Result<ProcessSignal, UnsupportedProcessSignal>) {
        if value == 1 {
            Ok(ProcessSignal::Hangup)
        } else if value == 2 {
            Ok(ProcessSignal::Interrupt)
        } else if value == 15 {
            Ok(ProcessSignal::Terminate)
        } else {
            Err(UnsupportedProcessSignal(value))
        }
    }
}

impl vstd::std_specs::convert::TryFromSpecImpl<i32> for ProcessSignal {
    open spec fn obeys_try_from_spec() -> bool {
        true
    }

    open spec fn try_from_spec(value: i32) -> Result<ProcessSignal, UnsupportedProcessSignal> {
        if value == 1 {
            Ok(ProcessSignal::Hangup)
        } else if value == 2 {
            Ok(ProcessSignal::Interrupt)
        } else if value == 15 {
            Ok(ProcessSignal::Terminate)
        } else {
            Err(UnsupportedProcessSignal(value))
        }
    }
}

#[derive(Clone, Copy, Debug, PartialEq, Eq, Structural)]
pub enum ShutdownReason {
    SkeletonComplete,
    UserRequested,
    ChildExited,
    PlatformFailure,
    StartupFailure,
    EventIngressDisconnected,
    Signal(ProcessSignal),
}

#[derive(Clone, Copy, Debug, PartialEq, Eq, Structural)]
pub enum ChildExit {
    Code(i32),
    Signaled { signal: i32, core_dumped: bool },
    Other { raw_status: i32 },
}

#[derive(Clone, Debug, PartialEq, Eq)]
pub struct PtyFailure {
    pub message: String,
}

#[derive(Clone, Copy, Debug, PartialEq, Eq, Structural)]
pub enum BatchError {
    Empty,
    TooLarge(usize),
}

impl BatchError {
    pub open spec fn text(self) -> Seq<char> {
        match self {
            BatchError::Empty => "PTY output batches cannot be empty"@,
            BatchError::TooLarge(length) => batch_text(length),
        }
    }

    /// What the error says.
    pub fn message(&self) -> (result: String)
        ensures
            result@ == self.text(),
    {
        match *self {
            BatchError::Empty => String::from_str("PTY output batches cannot be empty"),
            BatchError::TooLarge(length) => describe_batch(length),
        }
    }
}

/// What is said of a batch that is too long.
pub open spec fn batch_text(length: usize) -> Seq<char> {
    "PTY output batch is "@ + dec(length as nat) + " bytes; the limit is 65536"@
}

pub(crate) fn describe_batch(length: usize) -> (result: String)
    ensures
        result@ == batch_text(length),
{
    let mut out = String::from_str("PTY output batch is ");
    push_dec(&mut out, length as u64);
    out.append(" bytes; the limit is 65536");
    out
}

/// A bounded, non-empty batch of output.
#[derive(Debug, PartialEq, Eq)]
pub struct ByteBatch(Vec<u8>);

impl View for ByteBatch {
    type V = Seq<u8>;

    closed spec fn view(&self) -> Seq<u8> {
        self.0@
    }
}

impl Clone for ByteBatch {
    fn clone(&self) -> (result: ByteBatch)
        ensures
            result@ == self@,
    {
        proof {
            use_type_invariant(self);
        }
        ByteBatch(vstd::slice::slice_to_vec(self.0.as_slice()))
    }
}

impl ByteBatch {
    pub const MAX_LEN: usize = 65_536;

    #[verifier::type_invariant]
    closed spec fn bounded(&self) -> bool {
        1 <= self.0@.len() <= 65_536
    }

    /// Creates a bounded, non-empty batch.
    pub fn new(bytes: Vec<u8>) -> (result: Result<ByteBatch, BatchError>)
        ensures
            match result {
                Ok(batch) => 1 <= bytes@.len() <= ByteBatch::MAX_LEN && batch@ == bytes@,
                Err(BatchError::Empty) => bytes@.len() == 0,
                Err(BatchError::TooLarge(len)) => len == bytes@.len() && bytes@.len()
                    > ByteBatch::MAX_LEN,
            },
    {
        if bytes.len() == 0 {
            return Err(BatchError::Empty);
        }
        if bytes.len() > Self::MAX_LEN {
            return Err(BatchError::TooLarge(bytes.len()));
        }
        Ok(ByteBatch(bytes))
    }

    pub fn len(&self) -> (result: usize)
        ensures
            result == self@.len(),
            1 <= result <= ByteBatch::MAX_LEN,
    {
        proof {
            use_type_invariant(self);
        }
        self.0.len()
    }

    /// A batch is never empty.
    pub fn is_empty(&self) -> (result: bool)
        ensures
            !result,
            self@.len() > 0,
    {
        proof {
            use_type_invariant(self);
        }
        false
    }

    pub fn as_slice(&self) -> (result: &[u8])
        ensures
            result@ == self@,
    {
        self.0.as_slice()
    }
}

#[derive(Clone, Debug, PartialEq, Eq)]
pub enum PtyEvent {
    Output(ByteBatch),
    Exited(ChildExit),
    Failed(PtyFailure),
    ReadClosed,
    Writable,
}

/// What is urgent.
#[derive(Clone, Debug, PartialEq, Eq)]
pub enum ControlEvent {
    Shutdown(ShutdownReason),
    PtyExited(ChildExit),
    PtyFailed(PtyFailure),
    PtyWritable,
}

/// What comes in quantity.
#[derive(Clone, Debug, PartialEq, Eq)]
pub enum BulkEvent {
    PtyOutput(ByteBatch),
    PtyReadClosed,
}

#[derive(Clone, Debug, PartialEq, Eq)]
pub enum AppEvent {
    Pty(PtyEvent),
    ShutdownRequested(ShutdownReason),
}

/// A signal is recognised by its own number and by no other.
pub proof fn signal_numbers_round_trip(signal: ProcessSignal, number: i32)
    ensures
        <ProcessSignal as vstd::std_specs::convert::TryFromSpec<i32>>::try_from_spec(number) == Ok::<
            ProcessSignal,
            UnsupportedProcessSignal,
        >(signal) <==> number == signal.code(),
{
}

/// The signals are those with which a terminal is hung up, interrupted and ended, by their numbers,
/// and each number is that of one signal.
pub proof fn signals_go_by_their_numbers(a: ProcessSignal, b: ProcessSignal)
    ensures
        ProcessSignal::Hangup.code() == 1,
        ProcessSignal::Interrupt.code() == 2,
        ProcessSignal::Terminate.code() == 15,
        a.code() == b.code() ==> a == b,
        <ProcessSignal as vstd::std_specs::convert::TryFromSpec<i32>>::try_from_spec(a.code()) == Ok::<
            ProcessSignal,
            UnsupportedProcessSignal,
        >(a),
{
}

} // verus!
