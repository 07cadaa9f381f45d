//! Limits on what a program on the terminal may ask for.
use vstd::prelude::*;
use crate::time::Instant;
use vstd::utf8::encode_utf8;

verus! {

pub const MAX_TITLE_BYTES: usize = 1_024;

pub const MAX_URI_BYTES: usize = 4_096;

pub const MAX_CLIPBOARD_BYTES: usize = 8_388_608;

pub const MAX_PTY_REPLY_BYTES: usize = 65_536;

pub const MAX_HYPERLINKS: usize = 4_096;

pub const MAX_HYPERLINK_BYTES: usize = 4_096;

pub const MAX_ZERO_WIDTH_PER_CELL: usize = 64;

pub const MAX_ZERO_WIDTH_TOTAL: usize = 65_536;

pub const INTERACTIVE_INPUT_RESERVE: usize = 65_536;

/// How long one window of the audit log lasts, in nanoseconds.
pub const AUDIT_LOG_WINDOW: u64 = 60_000_000_000;

/// How many audit records one window may emit.
pub const AUDIT_LOG_BURST: u8 = 5;

#[derive(Clone, Copy, Debug, PartialEq, Eq, Structural)]
pub enum AuditLogDecision {
    Emit { previously_suppressed: u64 },
    Suppress,
}

/// Lets a few audit records through in each window of time, and counts the others.
#[derive(Debug)]
pub struct MetadataRateLimiter {
    window_started: Option<Instant>,
    emitted: u8,
    suppressed: u64,
}

/// The state of a limiter.
pub struct LimiterModel {
    pub window_started: Option<Instant>,
    pub emitted: u8,
    pub suppressed: u64,
}

impl LimiterModel {
    pub open spec fn initial() -> LimiterModel {
        LimiterModel { window_started: None, emitted: 0, suppressed: 0 }
    }

    pub open spec fn wf(self) -> bool {
        self.emitted <= AUDIT_LOG_BURST
    }

    /// Whether a record at `now` opens a new window.
    pub open spec fn opens_window(self, now: Instant) -> bool {
        match self.window_started {
            None => true,
            Some(started) => now.nanos - started.nanos >= AUDIT_LOG_WINDOW,
        }
    }

    /// What becomes of a record at `now`.
    pub open spec fn decision(self, now: Instant) -> AuditLogDecision {
        if self.opens_window(now) {
            AuditLogDecision::Emit { previously_suppressed: self.suppressed }
        } else if self.emitted < AUDIT_LOG_BURST {
            AuditLogDecision::Emit { previously_suppressed: 0 }
        } else {
            AuditLogDecision::Suppress
        }
    }

    /// The limiter after a record at `now`.
    pub open spec fn after(self, now: Instant) -> LimiterModel {
        if self.opens_window(now) {
            LimiterModel { window_started: Some(now), emitted: 1, suppressed: 0 }
        } else if self.emitted < AUDIT_LOG_BURST {
            LimiterModel { emitted: (self.emitted + 1) as u8, ..self }
        } else {
            LimiterModel {
                suppressed: if self.suppressed < u64::MAX {
                    (self.suppressed + 1) as u64
                } else {
                    self.suppressed
                },
                ..self
            }
        }
    }
}

impl View for MetadataRateLimiter {
    type V = LimiterModel;

    closed spec fn view(&self) -> LimiterModel {
        LimiterModel {
            window_started: self.window_started,
            emitted: self.emitted,
            suppressed: self.suppressed,
        }
    }
}

impl Default for MetadataRateLimiter {
    fn default() -> (result: MetadataRateLimiter)
        ensures
            result@ == LimiterModel::initial(),
    {
        MetadataRateLimiter { window_started: None, emitted: 0, suppressed: 0 }
    }
}

impl MetadataRateLimiter {
    /// Decides on a record at `now`.
    pub fn record(&mut self, now: Instant) -> (result: AuditLogDecision)
        ensures
            result == old(self)@.decision(now),
            final(self)@ == old(self)@.after(now),
    {
        let new_window = match self.window_started {
            None => true,
            Some(started) => now.saturating_duration_since(started).nanos >= AUDIT_LOG_WINDOW,
        };
        if new_window {
            let previously_suppressed: u64 = self.suppressed;
            self.suppressed = 0;
            self.window_started = Some(now);
            self.emitted = 1;
            return AuditLogDecision::Emit { previously_suppressed };
        }
        if self.emitted < AUDIT_LOG_BURST {
            self.emitted += 1;
            AuditLogDecision::Emit { previously_suppressed: 0 }
        } else {
            self.suppressed = self.suppressed.saturating_add(1);
            AuditLogDecision::Suppress
        }
    }
}

/// The limiter after records at the given times.
pub open spec fn limited(m: LimiterModel, times: Seq<Instant>) -> LimiterModel
    decreases times.len(),
{
    if times.len() == 0 {
        m
    } else {
        limited(m, times.drop_last()).after(times.last())
    }
}

/// How many of the records at the given times are emitted.
pub open spec fn emissions(m: LimiterModel, times: Seq<Instant>) -> nat
    decreases times.len(),
{
    if times.len() == 0 {
        0
    } else {
        emissions(m, times.drop_last()) + if limited(m, times.drop_last()).decision(
            times.last(),
        ) is Emit {
            1nat
        } else {
            0
        }
    }
}

/// While no record opens a new window, at most a burst of them is emitted, and each of the others
/// is counted, to be reported by the record that opens the next window.
pub proof fn a_window_emits_a_burst(m: LimiterModel, times: Seq<Instant>)
    requires
        m.wf(),
        forall|i: int|
            0 <= i < times.len() ==> !limited(m, #[trigger] times.take(i)).opens_window(times[i]),
        m.suppressed + times.len() <= u64::MAX,
    ensures
        m.emitted + emissions(m, times) <= AUDIT_LOG_BURST,
        limited(m, times).emitted == m.emitted + emissions(m, times),
        limited(m, times).suppressed == m.suppressed + (times.len() - emissions(m, times)),
        forall|now: Instant|
            limited(m, times).opens_window(now) ==> (#[trigger] limited(m, times).decision(now))
                == (AuditLogDecision::Emit {
                previously_suppressed: (m.suppressed + (times.len() - emissions(
                    m,
                    times,
                ))) as u64,
            }),
    decreases times.len(),
{
    if times.len() > 0 {
        let init = times.drop_last();
        assert forall|i: int| 0 <= i < init.len() implies !limited(
            m,
            #[trigger] init.take(i),
        ).opens_window(init[i]) by {
            assert(init.take(i) =~= times.take(i));
        }
        a_window_emits_a_burst(m, init);
        assert(times.take(times.len() - 1) =~= init);
    }
}

#[derive(Clone, Copy, Debug, PartialEq, Eq, Structural)]
pub enum RiskReason {
    MultilinePaste,
    ControlCharacters,
}

#[derive(Clone, Copy, Debug, PartialEq, Eq, Structural)]
pub enum RejectReason {
    Empty,
    TooLarge { limit: usize, observed: usize },
    Nul,
    InvalidUtf8,
    Unsupported,
    DisallowedScheme,
    StaleGeneration,
}

/// What a policy makes of a value.
#[derive(Clone, Debug, PartialEq, Eq)]
pub enum PolicyDecision<T> {
    Allow(T),
    Confirm { value: T, reason: RiskReason },
    Reject { reason: RejectReason },
}

#[derive(Clone, Copy, Debug, PartialEq, Eq, Structural)]
pub enum FaultClass {
    RejectedInput,
    CapacityPressure,
    TransientWsi,
    SessionFailure,
    FatalPlatform,
    FatalDevice,
    InternalInvariant,
}

/// Why a title is refused, if it is. Its length counts in bytes.
pub open spec fn title_error(title: Seq<char>) -> Option<RejectReason> {
    if title.contains('\0') {
        Some(RejectReason::Nul)
    } else if encode_utf8(title).len() > MAX_TITLE_BYTES {
        Some(
            RejectReason::TooLarge {
                limit: MAX_TITLE_BYTES,
                observed: encode_utf8(title).len() as usize,
            },
        )
    } else {
        None
    }
}

/// Takes a title that holds no NUL and is not too long, as it is.
pub fn validate_title(value: &str) -> (result: PolicyDecision<String>)
    ensures
        match title_error(value@) {
            Some(reason) => result == (PolicyDecision::<String>::Reject { reason }),
            None => result is Allow && result->Allow_0@ == value@,
        },
{
    let mut has_nul = false;
    for c in it: value.chars()
        invariant
            it.seq() == value@,
            has_nul == value@.take(it.index() as int).contains('\0'),
    {
        proof {
            let i = it.index() as int;
            assert(value@.take(i + 1) =~= value@.take(i).push(c));
            if value@.take(i).contains('\0') {
                let k = value@.take(i).index_of('\0');
                assert(value@.take(i + 1)[k] == '\0');
            }
            if c == '\0' {
                assert(value@.take(i + 1)[i] == '\0');
            }
            if value@.take(i + 1).contains('\0') && c != '\0' {
                let k = value@.take(i + 1).index_of('\0');
                assert(value@.take(i)[k] == '\0');
            }
        }
        if c == '\0' {
            has_nul = true;
        }
    }
    assert(value@.take(value@.len() as int) =~= value@);
    if has_nul {
        return PolicyDecision::Reject { reason: RejectReason::Nul };
    }
    let observed: usize = value.as_bytes().len();
    if observed > MAX_TITLE_BYTES {
        return PolicyDecision::Reject {
            reason: RejectReason::TooLarge { limit: MAX_TITLE_BYTES, observed },
        };
    }
    PolicyDecision::Allow(value.to_owned())
}

} // verus!
