//! Follows the keyboard protocols that a program switches on and off in its output.
use vstd::prelude::*;
use crate::terminal::snapshot::{KeyboardProtocolState, KittyKeyboardFlags, ModifyOtherKeysLevel};
use crate::text::{all_digits, decimal, decimal_value, push_decimal};

pub mod laws;

verus! {

/// The most bytes that a control sequence may have between its introducer and its final byte.
pub const MAX_SEQUENCE_BYTES: usize = 64;

/// The most keyboard states that a screen can save.
pub const MAX_KEYBOARD_STACK_DEPTH: usize = 16;

/// What one pass over output bytes did to the keyboard protocols.
#[derive(Clone, Copy, Debug, PartialEq, Eq, Structural)]
pub struct ProtocolAudit {
    pub changes: u32,
    pub queries: u32,
    pub rejected: u32,
    pub unknown_flags: u32,
    pub stack_overflow: u32,
}

impl ProtocolAudit {
    pub open spec fn none() -> ProtocolAudit {
        ProtocolAudit { changes: 0, queries: 0, rejected: 0, unknown_flags: 0, stack_overflow: 0 }
    }
}

impl Default for ProtocolAudit {
    fn default() -> (result: ProtocolAudit)
        ensures
            result == ProtocolAudit::none(),
    {
        ProtocolAudit { changes: 0, queries: 0, rejected: 0, unknown_flags: 0, stack_overflow: 0 }
    }
}

struct ScreenKeyboardState {
    active: KittyKeyboardFlags,
    saved: Vec<KittyKeyboardFlags>,
}

enum ScanState {
    Ground,
    Escape,
    Csi(Vec<u8>),
    Text,
    TextEscape,
}

/// Keeps the keyboard protocols of both screens up to date with a stream of output bytes.
pub struct KeyboardProtocolTracker {
    main: ScreenKeyboardState,
    alt: ScreenKeyboardState,
    alternate: bool,
    modify_other_keys: ModifyOtherKeysLevel,
    scan: ScanState,
}

/// Where in a control sequence the stream of bytes stands.
pub enum ScanModel {
    Ground,
    Escape,
    Csi(Seq<u8>),
    Text,
    TextEscape,
}

/// The active flags of a screen and the flags saved below them, oldest first.
pub struct ScreenModel {
    pub active: KittyKeyboardFlags,
    pub saved: Seq<KittyKeyboardFlags>,
}

/// The state of both screens, and of the scan.
pub struct TrackerModel {
    pub main: ScreenModel,
    pub alt: ScreenModel,
    pub alternate: bool,
    pub mok: ModifyOtherKeysLevel,
    pub scan: ScanModel,
}

/// A tracker's state, the audit so far and the replies so far, each with the offset of the byte
/// that completed its query.
pub struct RunModel {
    pub tracker: TrackerModel,
    pub audit: ProtocolAudit,
    pub replies: Seq<(int, Seq<u8>)>,
}

/// One more, unless the counter is full.
pub open spec fn bump(count: u32) -> u32 {
    if count < u32::MAX {
        (count + 1) as u32
    } else {
        count
    }
}

impl ScreenModel {
    pub open spec fn initial() -> ScreenModel {
        ScreenModel { active: KittyKeyboardFlags { bits: 0 }, saved: Seq::empty() }
    }

    /// Only known flags occur, and the stack is within its limit.
    pub open spec fn wf(self) -> bool {
        &&& self.active.wf()
        &&& self.saved.len() <= MAX_KEYBOARD_STACK_DEPTH
        &&& forall|i: int| 0 <= i < self.saved.len() ==> (#[trigger] self.saved[i]).wf()
    }

    /// Saves the active flags and replaces them.
    pub open spec fn push(self, flags: KittyKeyboardFlags) -> ScreenModel {
        ScreenModel { active: flags, saved: self.saved.push(self.active) }
    }

    /// Takes `count` saved states off the stack; the last one taken becomes active, and taking
    /// more than there are leaves the initial state.
    pub open spec fn pop(self, count: nat) -> ScreenModel {
        if count > self.saved.len() {
            ScreenModel::initial()
        } else if count == 0 {
            self
        } else {
            let depth = self.saved.len() - count;
            ScreenModel { active: self.saved[depth], saved: self.saved.take(depth) }
        }
    }
}

impl TrackerModel {
    pub open spec fn initial() -> TrackerModel {
        TrackerModel {
            main: ScreenModel::initial(),
            alt: ScreenModel::initial(),
            alternate: false,
            mok: ModifyOtherKeysLevel::Disabled,
            scan: ScanModel::Ground,
        }
    }

    pub open spec fn wf(self) -> bool {
        &&& self.main.wf()
        &&& self.alt.wf()
        &&& self.scan is Csi ==> self.scan->Csi_0.len() <= MAX_SEQUENCE_BYTES
    }

    /// The keyboard state of the screen that is shown.
    pub open spec fn current(self) -> ScreenModel {
        if self.alternate {
            self.alt
        } else {
            self.main
        }
    }

    pub open spec fn with_current(self, screen: ScreenModel) -> TrackerModel {
        if self.alternate {
            TrackerModel { alt: screen, ..self }
        } else {
            TrackerModel { main: screen, ..self }
        }
    }

    pub open spec fn at(self, scan: ScanModel) -> TrackerModel {
        TrackerModel { scan, ..self }
    }

    /// What the keyboard protocols are now.
    pub open spec fn state(self) -> KeyboardProtocolState {
        KeyboardProtocolState { kitty: self.current().active, modify_other_keys: self.mok }
    }
}

/// The parts of `bytes` between the semicolons.
pub open spec fn fields(bytes: Seq<u8>) -> Seq<Seq<u8>>
    decreases bytes.len(),
{
    if bytes.len() == 0 {
        seq![Seq::empty()]
    } else {
        let before = fields(bytes.drop_last());
        if bytes.last() == 59 {
            before.push(Seq::empty())
        } else {
            before.drop_last().push(before.last().push(bytes.last()))
        }
    }
}

/// A field is readable if it is empty or writes a `u32` in decimal.
pub open spec fn readable(field: Seq<u8>) -> bool {
    all_digits(field) && decimal_value(field) <= u32::MAX
}

/// The number that a readable field writes; an empty field is a default.
pub open spec fn field_value(field: Seq<u8>) -> Option<u32> {
    if field.len() == 0 {
        None
    } else {
        Some(decimal_value(field) as u32)
    }
}

/// The parameters of a control sequence, if each of them is readable.
pub open spec fn parameters_of(bytes: Seq<u8>) -> Option<Seq<Option<u32>>> {
    if bytes.len() == 0 {
        Some(Seq::empty())
    } else if forall|i: int| 0 <= i < fields(bytes).len() ==> readable(#[trigger] fields(bytes)[i]) {
        Some(fields(bytes).map_values(|f: Seq<u8>| field_value(f)))
    } else {
        None
    }
}

/// The parameter at `index`, or its default where it is missing or empty.
pub open spec fn parameter_at(parameters: Seq<Option<u32>>, index: int, default: u32) -> u32 {
    if 0 <= index < parameters.len() && parameters[index] is Some {
        parameters[index]->0
    } else {
        default
    }
}

/// Whether a mode number switches between the main and the alternate screen.
pub open spec fn is_screen_mode(value: u32) -> bool {
    value == 47 || value == 1047 || value == 1049
}

/// A tracker, its audit and the reply of one step.
pub struct StepModel {
    pub tracker: TrackerModel,
    pub audit: ProtocolAudit,
    pub reply: Option<Seq<u8>>,
}

/// `CSI = flags ; behaviour u`: replaces, adds or removes flags.
pub open spec fn set_flags(t: TrackerModel, a: ProtocolAudit, p: Seq<Option<u32>>) -> (
    TrackerModel,
    ProtocolAudit,
) {
    let value = parameter_at(p, 0, 0);
    let behavior = parameter_at(p, 1, 1);
    let now = t.current();
    if value >= 32 {
        (t, ProtocolAudit { unknown_flags: bump(a.unknown_flags), ..a })
    } else if behavior < 1 || behavior > 3 {
        (t, ProtocolAudit { rejected: bump(a.rejected), ..a })
    } else {
        let bits = if behavior == 1 {
            value as u8
        } else if behavior == 2 {
            now.active.bits | value as u8
        } else {
            now.active.bits & !(value as u8)
        };
        (
            t.with_current(ScreenModel { active: KittyKeyboardFlags { bits }, ..now }),
            ProtocolAudit { changes: bump(a.changes), ..a },
        )
    }
}

/// `CSI > flags u`: saves the active flags and replaces them.
pub open spec fn push_flags(t: TrackerModel, a: ProtocolAudit, p: Seq<Option<u32>>) -> (
    TrackerModel,
    ProtocolAudit,
) {
    let value = parameter_at(p, 0, 0);
    if value >= 32 {
        (t, ProtocolAudit { unknown_flags: bump(a.unknown_flags), ..a })
    } else if t.current().saved.len() == MAX_KEYBOARD_STACK_DEPTH {
        (t, ProtocolAudit { stack_overflow: bump(a.stack_overflow), ..a })
    } else {
        (
            t.with_current(t.current().push(KittyKeyboardFlags { bits: value as u8 })),
            ProtocolAudit { changes: bump(a.changes), ..a },
        )
    }
}

/// `CSI < count u`: takes saved flags back.
pub open spec fn pop_flags(t: TrackerModel, a: ProtocolAudit, p: Seq<Option<u32>>) -> (
    TrackerModel,
    ProtocolAudit,
) {
    (
        t.with_current(t.current().pop(parameter_at(p, 0, 1) as nat)),
        ProtocolAudit { changes: bump(a.changes), ..a },
    )
}

/// `CSI > 4 ; level m`: sets the `modifyOtherKeys` level.
pub open spec fn set_level(t: TrackerModel, a: ProtocolAudit, p: Seq<Option<u32>>) -> (
    TrackerModel,
    ProtocolAudit,
) {
    let level = parameter_at(p, 1, 0);
    if parameter_at(p, 0, 0) != 4 {
        (t, a)
    } else if level > 2 {
        (t, ProtocolAudit { rejected: bump(a.rejected), ..a })
    } else {
        let mok = if level == 0 {
            ModifyOtherKeysLevel::Disabled
        } else if level == 1 {
            ModifyOtherKeysLevel::ExceptWellDefined
        } else {
            ModifyOtherKeysLevel::All
        };
        (TrackerModel { mok, ..t }, ProtocolAudit { changes: bump(a.changes), ..a })
    }
}

/// `CSI ? modes h` and `CSI ? modes l`: may show the other screen.
pub open spec fn show_screen(t: TrackerModel, p: Seq<Option<u32>>, alternate: bool) -> TrackerModel {
    if exists|i: int| 0 <= i < p.len() && (#[trigger] p[i]) is Some && is_screen_mode(p[i]->0) {
        TrackerModel { alternate, ..t }
    } else {
        t
    }
}

/// The number by which a level is reported.
pub open spec fn level_number(level: ModifyOtherKeysLevel) -> nat {
    match level {
        ModifyOtherKeysLevel::Disabled => 0,
        ModifyOtherKeysLevel::ExceptWellDefined => 1,
        ModifyOtherKeysLevel::All => 2,
    }
}

/// What a complete control sequence does.
pub open spec fn control_sequence(
    t: TrackerModel,
    a: ProtocolAudit,
    body: Seq<u8>,
    last: u8,
) -> StepModel {
    if last == 117 && body == seq![63u8] {
        // `CSI ? u` asks for the active flags.
        StepModel {
            tracker: t,
            audit: ProtocolAudit { queries: bump(a.queries), ..a },
            reply: Some(
                seq![27u8, 91, 63] + decimal(t.current().active.bits as nat) + seq![117u8],
            ),
        }
    } else if last == 109 && body == seq![63u8, 52] {
        // `CSI ? 4 m` asks for the `modifyOtherKeys` level.
        StepModel {
            tracker: t,
            audit: ProtocolAudit { queries: bump(a.queries), ..a },
            reply: Some(seq![27u8, 91, 62, 52, 59] + decimal(level_number(t.mok)) + seq![109u8]),
        }
    } else if body.len() == 0 {
        StepModel { tracker: t, audit: a, reply: None }
    } else {
        match parameters_of(body.skip(1)) {
            None => StepModel {
                tracker: t,
                audit: ProtocolAudit { rejected: bump(a.rejected), ..a },
                reply: None,
            },
            Some(p) => {
                let (tracker, audit) = if body[0] == 61 && last == 117 {
                    set_flags(t, a, p)
                } else if body[0] == 62 && last == 117 {
                    push_flags(t, a, p)
                } else if body[0] == 60 && last == 117 {
                    pop_flags(t, a, p)
                } else if body[0] == 62 && last == 109 {
                    set_level(t, a, p)
                } else if body[0] == 63 && last == 104 {
                    (show_screen(t, p, true), a)
                } else if body[0] == 63 && last == 108 {
                    (show_screen(t, p, false), a)
                } else {
                    (t, a)
                };
                StepModel { tracker, audit, reply: None }
            },
        }
    }
}

/// What one byte does.
pub open spec fn step(t: TrackerModel, a: ProtocolAudit, byte: u8) -> StepModel {
    let stay = |scan: ScanModel| StepModel { tracker: t.at(scan), audit: a, reply: None };
    match t.scan {
        ScanModel::Ground => if byte == 0x1b {
            stay(ScanModel::Escape)
        } else if byte == 0x9b {
            stay(ScanModel::Csi(Seq::empty()))
        } else {
            stay(ScanModel::Ground)
        },
        ScanModel::Escape => if byte == 91 {
            stay(ScanModel::Csi(Seq::empty()))
        } else if byte == 93 || byte == 80 || byte == 94 || byte == 95 {
            stay(ScanModel::Text)
        } else if byte == 99 {
            StepModel {
                tracker: TrackerModel::initial(),
                audit: ProtocolAudit { changes: bump(a.changes), ..a },
                reply: None,
            }
        } else if byte == 0x1b {
            stay(ScanModel::Escape)
        } else {
            stay(ScanModel::Ground)
        },
        ScanModel::Text => if byte == 7 || byte == 0x9c {
            stay(ScanModel::Ground)
        } else if byte == 0x1b {
            stay(ScanModel::TextEscape)
        } else {
            stay(ScanModel::Text)
        },
        ScanModel::TextEscape => if byte == 92 {
            stay(ScanModel::Ground)
        } else if byte == 0x1b {
            stay(ScanModel::TextEscape)
        } else {
            stay(ScanModel::Text)
        },
        ScanModel::Csi(body) => if 0x40 <= byte <= 0x7e {
            control_sequence(t.at(ScanModel::Ground), a, body, byte)
        } else if body.len() < MAX_SEQUENCE_BYTES {
            stay(ScanModel::Csi(body.push(byte)))
        } else {
            StepModel {
                tracker: t.at(ScanModel::Ground),
                audit: ProtocolAudit { rejected: bump(a.rejected), ..a },
                reply: None,
            }
        },
    }
}

/// What a string of bytes does, one byte after the other.
pub open spec fn run(t: TrackerModel, bytes: Seq<u8>) -> RunModel
    decreases bytes.len(),
{
    if bytes.len() == 0 {
        RunModel { tracker: t, audit: ProtocolAudit::none(), replies: Seq::empty() }
    } else {
        let before = run(t, bytes.drop_last());
        let next = step(before.tracker, before.audit, bytes.last());
        RunModel {
            tracker: next.tracker,
            audit: next.audit,
            replies: match next.reply {
                Some(reply) => before.replies.push((bytes.len() - 1, reply)),
                None => before.replies,
            },
        }
    }
}

/// Replies as vectors of bytes with the offsets that the model gives them.
pub open spec fn replies_match(replies: Seq<(usize, Vec<u8>)>, model: Seq<(int, Seq<u8>)>) -> bool {
    &&& replies.len() == model.len()
    &&& forall|i: int|
        0 <= i < replies.len() ==> (#[trigger] replies[i]).0 == model[i].0 && replies[i].1@
            == model[i].1
}

impl ScanState {
    closed spec fn model(&self) -> ScanModel {
        match *self {
            ScanState::Ground => ScanModel::Ground,
            ScanState::Escape => ScanModel::Escape,
            ScanState::Csi(body) => ScanModel::Csi(body@),
            ScanState::Text => ScanModel::Text,
            ScanState::TextEscape => ScanModel::TextEscape,
        }
    }
}

impl ScreenKeyboardState {
    closed spec fn model(&self) -> ScreenModel {
        ScreenModel { active: self.active, saved: self.saved@ }
    }

    fn initial() -> (result: ScreenKeyboardState)
        ensures
            result.model() == ScreenModel::initial(),
    {
        let result = ScreenKeyboardState {
            active: KittyKeyboardFlags::default(),
            saved: Vec::new(),
        };
        assert(result.model().saved =~= Seq::empty());
        result
    }

    fn push(&mut self, flags: KittyKeyboardFlags)
        ensures
            final(self).model() == old(self).model().push(flags),
    {
        self.saved.push(self.active);
        self.active = flags;
    }

    fn pop(&mut self, count: u32)
        ensures
            final(self).model() == old(self).model().pop(count as nat),
    {
        let count: usize = count as usize;
        if count > self.saved.len() {
            self.saved.clear();
            self.active = KittyKeyboardFlags::default();
            assert(self.saved@ =~= Seq::empty());
        } else if count != 0 {
            let depth: usize = self.saved.len() - count;
            self.active = self.saved[depth];
            self.saved.truncate(depth);
            assert(self.saved@ =~= old(self).saved@.take(depth as int));
        }
    }
}

impl Default for KeyboardProtocolTracker {
    fn default() -> (result: KeyboardProtocolTracker)
        ensures
            result@ == TrackerModel::initial(),
    {
        KeyboardProtocolTracker {
            main: ScreenKeyboardState::initial(),
            alt: ScreenKeyboardState::initial(),
            alternate: false,
            modify_other_keys: ModifyOtherKeysLevel::Disabled,
            scan: ScanState::Ground,
        }
    }
}

impl View for KeyboardProtocolTracker {
    type V = TrackerModel;

    closed spec fn view(&self) -> TrackerModel {
        TrackerModel {
            main: self.main.model(),
            alt: self.alt.model(),
            alternate: self.alternate,
            mok: self.modify_other_keys,
            scan: self.scan.model(),
        }
    }
}

impl KeyboardProtocolTracker {
    /// What the keyboard protocols are now.
    pub fn state(&self) -> (result: KeyboardProtocolState)
        ensures
            result == self@.state(),
    {
        KeyboardProtocolState {
            kitty: self.active(),
            modify_other_keys: self.modify_other_keys,
        }
    }

    fn active(&self) -> (result: KittyKeyboardFlags)
        ensures
            result == self@.current().active,
    {
        if self.alternate {
            self.alt.active
        } else {
            self.main.active
        }
    }

    /// Follows `bytes`. Each reply comes with the offset of the byte that completed its query.
    pub fn advance(&mut self, bytes: &[u8]) -> (result: (Vec<(usize, Vec<u8>)>, ProtocolAudit))
        ensures
            final(self)@ == run(old(self)@, bytes@).tracker,
            replies_match(result.0@, run(old(self)@, bytes@).replies),
            result.1 == run(old(self)@, bytes@).audit,
            old(self)@.wf() ==> final(self)@.wf(),
    {
        let mut replies: Vec<(usize, Vec<u8>)> = Vec::new();
        let mut audit = ProtocolAudit::default();
        let mut offset: usize = 0;
        while offset < bytes.len()
            invariant
                offset <= bytes@.len(),
                self@ == run(old(self)@, bytes@.take(offset as int)).tracker,
                replies_match(replies@, run(old(self)@, bytes@.take(offset as int)).replies),
                audit == run(old(self)@, bytes@.take(offset as int)).audit,
                old(self)@.wf() ==> self@.wf(),
            decreases bytes@.len() - offset,
        {
            let reply = self.advance_byte(bytes[offset], &mut audit);
            proof {
                let next = bytes@.take(offset + 1);
                assert(next.drop_last() =~= bytes@.take(offset as int));
                assert(next.last() == bytes@[offset as int]);
            }
            if let Some(reply) = reply {
                replies.push((offset, reply));
            }
            offset += 1;
        }
        assert(bytes@.take(offset as int) =~= bytes@);
        (replies, audit)
    }

    fn advance_byte(&mut self, byte: u8, audit: &mut ProtocolAudit) -> (result: Option<Vec<u8>>)
        ensures
            ({
                let next = step(old(self)@, *old(audit), byte);
                &&& final(self)@ == next.tracker
                &&& *final(audit) == next.audit
                &&& result is Some <==> next.reply is Some
                &&& result is Some ==> result->0@ == next.reply->0
            }),
            old(self)@.wf() ==> final(self)@.wf(),
    {
        let mut state = ScanState::Ground;
        core::mem::swap(&mut self.scan, &mut state);
        match state {
            ScanState::Ground => {
                if byte == 0x1b {
                    self.scan = ScanState::Escape;
                } else if byte == 0x9b {
                    let body: Vec<u8> = Vec::new();
                    assert(body@ =~= Seq::empty());
                    self.scan = ScanState::Csi(body);
                }
                None
            },
            ScanState::Escape => {
                if byte == 91 {
                    let body: Vec<u8> = Vec::new();
                    assert(body@ =~= Seq::empty());
                    self.scan = ScanState::Csi(body);
                } else if byte == 93 || byte == 80 || byte == 94 || byte == 95 {
                    self.scan = ScanState::Text;
                } else if byte == 99 {
                    self.reset();
                    audit.changes = audit.changes.saturating_add(1);
                } else if byte == 0x1b {
                    self.scan = ScanState::Escape;
                }
                None
            },
            ScanState::Text => {
                if byte == 7 || byte == 0x9c {
                } else if byte == 0x1b {
                    self.scan = ScanState::TextEscape;
                } else {
                    self.scan = ScanState::Text;
                }
                None
            },
            ScanState::TextEscape => {
                if byte == 92 {
                } else if byte == 0x1b {
                    self.scan = ScanState::TextEscape;
                } else {
                    self.scan = ScanState::Text;
                }
                None
            },
            ScanState::Csi(body) => {
                if 0x40 <= byte && byte <= 0x7e {
                    self.handle_csi(&body, byte, audit)
                } else if body.len() < MAX_SEQUENCE_BYTES {
                    let mut body = body;
                    body.push(byte);
                    self.scan = ScanState::Csi(body);
                    None
                } else {
                    audit.rejected = audit.rejected.saturating_add(1);
                    None
                }
            },
        }
    }

    fn handle_csi(&mut self, body: &Vec<u8>, last: u8, audit: &mut ProtocolAudit) -> (result: Option<
        Vec<u8>,
    >)
        ensures
            ({
                let next = control_sequence(old(self)@, *old(audit), body@, last);
                &&& final(self)@ == next.tracker
                &&& *final(audit) == next.audit
                &&& result is Some <==> next.reply is Some
                &&& result is Some ==> result->0@ == next.reply->0
            }),
            old(self)@.wf() ==> final(self)@.wf(),
            final(self)@.scan == old(self)@.scan,
    {
        if last == 117 && body.len() == 1 && body[0] == 63 {
            assert(body@ =~= seq![63u8]);
            let mut reply: Vec<u8> = vec![27, 91, 63];
            push_decimal(&mut reply, self.active().bits() as u64);
            reply.push(117);
            audit.queries = audit.queries.saturating_add(1);
            assert(reply@ =~= seq![27u8, 91, 63] + decimal(self@.current().active.bits as nat)
                + seq![117u8]);
            return Some(reply);
        }
        assert(last == 117 ==> body@ != seq![63u8]);
        if last == 109 && body.len() == 2 && body[0] == 63 && body[1] == 52 {
            assert(body@ =~= seq![63u8, 52]);
            let level: u64 = match self.modify_other_keys {
                ModifyOtherKeysLevel::Disabled => 0,
                ModifyOtherKeysLevel::ExceptWellDefined => 1,
                ModifyOtherKeysLevel::All => 2,
            };
            let mut reply: Vec<u8> = vec![27, 91, 62, 52, 59];
            push_decimal(&mut reply, level);
            reply.push(109);
            audit.queries = audit.queries.saturating_add(1);
            assert(reply@ =~= seq![27u8, 91, 62, 52, 59] + decimal(level_number(self@.mok))
                + seq![109u8]);
            return Some(reply);
        }
        assert(last == 109 ==> body@ != seq![63u8, 52]);
        if body.len() == 0 {
            return None;
        }
        match parse_parameters(body, 1) {
            None => {
                audit.rejected = audit.rejected.saturating_add(1);
            },
            Some(parameters) => {
                let prefix: u8 = body[0];
                if prefix == 61 && last == 117 {
                    self.set_kitty(&parameters, audit);
                } else if prefix == 62 && last == 117 {
                    self.push_kitty(&parameters, audit);
                } else if prefix == 60 && last == 117 {
                    self.pop_kitty(&parameters, audit);
                } else if prefix == 62 && last == 109 {
                    self.set_mok(&parameters, audit);
                } else if prefix == 63 && last == 104 {
                    self.switch_screen(&parameters, true);
                } else if prefix == 63 && last == 108 {
                    self.switch_screen(&parameters, false);
                }
            },
        }
        None
    }

    fn set_kitty(&mut self, parameters: &Vec<Option<u32>>, audit: &mut ProtocolAudit)
        ensures
            (final(self)@, *final(audit)) == set_flags(old(self)@, *old(audit), parameters@),
            old(self)@.wf() ==> final(self)@.wf(),
            final(self)@.scan == old(self)@.scan,
    {
        let flags = match validated_flags(parameter(parameters, 0, 0), audit) {
            Some(flags) => flags,
            None => {
                return ;
            },
        };
        let behavior: u32 = parameter(parameters, 1, 1);
        let now = self.active();
        let next = if behavior == 1 {
            flags
        } else if behavior == 2 {
            now.union(flags)
        } else if behavior == 3 {
            now.difference(flags)
        } else {
            audit.rejected = audit.rejected.saturating_add(1);
            return ;
        };
        if self.alternate {
            self.alt.active = next;
        } else {
            self.main.active = next;
        }
        audit.changes = audit.changes.saturating_add(1);
    }

    fn push_kitty(&mut self, parameters: &Vec<Option<u32>>, audit: &mut ProtocolAudit)
        ensures
            (final(self)@, *final(audit)) == push_flags(old(self)@, *old(audit), parameters@),
            old(self)@.wf() ==> final(self)@.wf(),
            final(self)@.scan == old(self)@.scan,
    {
        let flags = match validated_flags(parameter(parameters, 0, 0), audit) {
            Some(flags) => flags,
            None => {
                return ;
            },
        };
        let depth: usize = if self.alternate {
            self.alt.saved.len()
        } else {
            self.main.saved.len()
        };
        if depth == MAX_KEYBOARD_STACK_DEPTH {
            audit.stack_overflow = audit.stack_overflow.saturating_add(1);
            return ;
        }
        if self.alternate {
            self.alt.push(flags);
        } else {
            self.main.push(flags);
        }
        audit.changes = audit.changes.saturating_add(1);
    }

    fn pop_kitty(&mut self, parameters: &Vec<Option<u32>>, audit: &mut ProtocolAudit)
        ensures
            (final(self)@, *final(audit)) == pop_flags(old(self)@, *old(audit), parameters@),
            old(self)@.wf() ==> final(self)@.wf(),
            final(self)@.scan == old(self)@.scan,
    {
        let count: u32 = parameter(parameters, 0, 1);
        if self.alternate {
            self.alt.pop(count);
        } else {
            self.main.pop(count);
        }
        audit.changes = audit.changes.saturating_add(1);
    }

    fn set_mok(&mut self, parameters: &Vec<Option<u32>>, audit: &mut ProtocolAudit)
        ensures
            (final(self)@, *final(audit)) == set_level(old(self)@, *old(audit), parameters@),
            old(self)@.wf() ==> final(self)@.wf(),
            final(self)@.scan == old(self)@.scan,
    {
        if parameter(parameters, 0, 0) != 4 {
            return ;
        }
        let level: u32 = parameter(parameters, 1, 0);
        if level == 0 {
            self.modify_other_keys = ModifyOtherKeysLevel::Disabled;
        } else if level == 1 {
            self.modify_other_keys = ModifyOtherKeysLevel::ExceptWellDefined;
        } else if level == 2 {
            self.modify_other_keys = ModifyOtherKeysLevel::All;
        } else {
            audit.rejected = audit.rejected.saturating_add(1);
            return ;
        }
        audit.changes = audit.changes.saturating_add(1);
    }

    fn switch_screen(&mut self, parameters: &Vec<Option<u32>>, alternate: bool)
        ensures
            final(self)@ == show_screen(old(self)@, parameters@, alternate),
            old(self)@.wf() ==> final(self)@.wf(),
            final(self)@.scan == old(self)@.scan,
    {
        let mut i: usize = 0;
        while i < parameters.len()
            invariant
                i <= parameters@.len(),
                *self == *old(self),
                forall|k: int|
                    0 <= k < i && (#[trigger] parameters@[k]) is Some ==> !is_screen_mode(
                        parameters@[k]->0,
                    ),
            decreases parameters@.len() - i,
        {
            if let Some(value) = parameters[i] {
                if value == 47 || value == 1047 || value == 1049 {
                    assert(parameters@[i as int] is Some);
                    self.alternate = alternate;
                    return ;
                }
            }
            i += 1;
        }
    }

    /// Switches both protocols off on both screens. The scan goes on where it stands.
    pub fn reset(&mut self)
        ensures
            final(self)@ == TrackerModel::initial().at(old(self)@.scan),
    {
        self.main = ScreenKeyboardState::initial();
        self.alt = ScreenKeyboardState::initial();
        self.alternate = false;
        self.modify_other_keys = ModifyOtherKeysLevel::Disabled;
    }
}

fn validated_flags(value: u32, audit: &mut ProtocolAudit) -> (result: Option<KittyKeyboardFlags>)
    ensures
        result == (if value < 32 {
            Some(KittyKeyboardFlags { bits: value as u8 })
        } else {
            None
        }),
        *final(audit) == (if value < 32 {
            *old(audit)
        } else {
            ProtocolAudit { unknown_flags: bump(old(audit).unknown_flags), ..*old(audit) }
        }),
{
    if value > 255 {
        audit.unknown_flags = audit.unknown_flags.saturating_add(1);
        return None;
    }
    let flags = KittyKeyboardFlags::from_valid_bits(value as u8);
    if flags.is_none() {
        audit.unknown_flags = audit.unknown_flags.saturating_add(1);
    }
    flags
}

fn parameter(parameters: &Vec<Option<u32>>, index: usize, default: u32) -> (result: u32)
    ensures
        result == parameter_at(parameters@, index as int, default),
{
    if index < parameters.len() {
        match parameters[index] {
            Some(value) => value,
            None => default,
        }
    } else {
        default
    }
}

proof fn fields_nonempty(bytes: Seq<u8>)
    ensures
        fields(bytes).len() >= 1,
    decreases bytes.len(),
{
    if bytes.len() > 0 {
        fields_nonempty(bytes.drop_last());
    }
}

/// Splits `bytes`, from index `from` on, at the semicolons.
fn split_fields(bytes: &Vec<u8>, from: usize) -> (result: Vec<Vec<u8>>)
    requires
        from <= bytes@.len(),
    ensures
        result@.len() == fields(bytes@.skip(from as int)).len(),
        forall|i: int|
            0 <= i < result@.len() ==> (#[trigger] result@[i])@ == fields(
                bytes@.skip(from as int),
            )[i],
{
    let mut done: Vec<Vec<u8>> = Vec::new();
    let mut field: Vec<u8> = Vec::new();
    let mut i: usize = from;
    let ghost rest = bytes@.skip(from as int);
    assert(rest.take(0) =~= Seq::empty());
    assert(field@ =~= fields(rest.take(0)).last());
    while i < bytes.len()
        invariant
            from <= i <= bytes@.len(),
            rest == bytes@.skip(from as int),
            done@.len() + 1 == fields(rest.take(i - from)).len(),
            forall|k: int|
                0 <= k < done@.len() ==> (#[trigger] done@[k])@ == fields(rest.take(i - from))[k],
            field@ == fields(rest.take(i - from)).last(),
        decreases bytes@.len() - i,
    {
        proof {
            fields_nonempty(rest.take(i - from));
            assert(rest.take(i + 1 - from).drop_last() =~= rest.take(i - from));
            assert(rest.take(i + 1 - from).last() == bytes@[i as int]);
        }
        if bytes[i] == 59 {
            done.push(field);
            field = Vec::new();
            assert(field@ =~= Seq::empty());
        } else {
            field.push(bytes[i]);
        }
        i += 1;
    }
    assert(rest.take(i - from) =~= rest);
    done.push(field);
    done
}

proof fn value_grows(digits: Seq<u8>, n: int)
    requires
        0 <= n <= digits.len(),
    ensures
        decimal_value(digits.take(n)) <= decimal_value(digits),
    decreases digits.len() - n,
{
    if n < digits.len() {
        value_grows(digits, n + 1);
        assert(digits.take(n + 1).drop_last() =~= digits.take(n));
    } else {
        assert(digits.take(n) =~= digits);
    }
}

fn parse_field(field: &Vec<u8>) -> (result: Option<Option<u32>>)
    ensures
        result == (if readable(field@) {
            Some(field_value(field@))
        } else {
            None
        }),
{
    if field.len() == 0 {
        return Some(None);
    }
    let mut value: u32 = 0;
    let mut i: usize = 0;
    while i < field.len()
        invariant
            i <= field@.len(),
            all_digits(field@.take(i as int)),
            value == decimal_value(field@.take(i as int)),
        decreases field@.len() - i,
    {
        let byte: u8 = field[i];
        if byte < 48 || byte > 57 {
            assert(!all_digits(field@));
            return None;
        }
        proof {
            assert(field@.take(i + 1).drop_last() =~= field@.take(i as int));
            value_grows(field@, i + 1);
        }
        match value.checked_mul(10) {
            Some(scaled) => match scaled.checked_add((byte - 48) as u32) {
                Some(next) => {
                    value = next;
                },
                None => {
                    return None;
                },
            },
            None => {
                return None;
            },
        }
        i += 1;
    }
    assert(field@.take(i as int) =~= field@);
    Some(Some(value))
}

fn parse_parameters(bytes: &Vec<u8>, from: usize) -> (result: Option<Vec<Option<u32>>>)
    requires
        from <= bytes@.len(),
    ensures
        match parameters_of(bytes@.skip(from as int)) {
            Some(p) => result is Some && result->0@ == p,
            None => result is None,
        },
{
    let mut values: Vec<Option<u32>> = Vec::new();
    if from == bytes.len() {
        assert(values@ =~= Seq::empty());
        return Some(values);
    }
    let parts = split_fields(bytes, from);
    let ghost model = fields(bytes@.skip(from as int));
    let mut i: usize = 0;
    while i < parts.len()
        invariant
            i <= parts@.len(),
            from < bytes@.len(),
            model == fields(bytes@.skip(from as int)),
            parts@.len() == model.len(),
            forall|k: int| 0 <= k < parts@.len() ==> (#[trigger] parts@[k])@ == model[k],
            values@.len() == i,
            forall|k: int|
                0 <= k < i ==> readable(#[trigger] model[k]) && values@[k] == field_value(model[k]),
        decreases parts@.len() - i,
    {
        match parse_field(&parts[i]) {
            Some(value) => {
                values.push(value);
            },
            None => {
                assert(!readable(model[i as int]));
                return None;
            },
        }
        i += 1;
    }
    assert(values@ =~= model.map_values(|f: Seq<u8>| field_value(f)));
    Some(values)
}

/// Output may be cut anywhere: following two parts in turn leaves the same state as following
/// them in one piece, makes the same replies, with the offsets of the second part counted from
/// its own start, and, short of a full counter, the audits add up.
pub proof fn run_in_parts(t: TrackerModel, first: Seq<u8>, second: Seq<u8>)
    ensures
        run(t, first + second).tracker == run(run(t, first).tracker, second).tracker,
        run(t, first + second).replies == run(t, first).replies + run(
            run(t, first).tracker,
            second,
        ).replies.map_values(|r: (int, Seq<u8>)| (r.0 + first.len(), r.1)),
        forall|f: spec_fn(ProtocolAudit) -> u32|
            is_counter(f) ==> #[trigger] f(run(t, first + second).audit) == add_capped(
                f(run(t, first).audit),
                f(run(run(t, first).tracker, second).audit),
            ),
    decreases second.len(),
{
    let moved = |r: (int, Seq<u8>)| (r.0 + first.len(), r.1);
    if second.len() == 0 {
        assert(first + second =~= first);
        assert(run(run(t, first).tracker, second).replies.map_values(moved) =~= Seq::empty());
        assert(run(t, first).replies + Seq::<(int, Seq<u8>)>::empty() =~= run(t, first).replies);
    } else {
        let whole = first + second;
        let init = second.drop_last();
        run_in_parts(t, first, init);
        assert(whole.drop_last() =~= first + init);
        assert(whole.last() == second.last());
        let a = run(t, first + init);
        let b = run(run(t, first).tracker, init);
        step_counts(a.tracker, a.audit, b.audit, second.last());
        let ra = run(t, whole).replies;
        let rb = run(run(t, first).tracker, second).replies;
        assert(ra =~= run(t, first).replies + rb.map_values(moved));
        assert forall|f: spec_fn(ProtocolAudit) -> u32| is_counter(f) implies #[trigger] f(
            run(t, first + second).audit,
        ) == add_capped(
            f(run(t, first).audit),
            f(run(run(t, first).tracker, second).audit),
        ) by {
            assert(f(a.audit) == add_capped(f(run(t, first).audit), f(b.audit)));
        }
    }
}

/// One of the five counters of an audit.
pub open spec fn is_counter(f: spec_fn(ProtocolAudit) -> u32) -> bool {
    ||| f == |a: ProtocolAudit| a.changes
    ||| f == |a: ProtocolAudit| a.queries
    ||| f == |a: ProtocolAudit| a.rejected
    ||| f == |a: ProtocolAudit| a.unknown_flags
    ||| f == |a: ProtocolAudit| a.stack_overflow
}

/// A sum that stops at the largest `u32`.
pub open spec fn add_capped(a: u32, b: u32) -> u32 {
    if a + b <= u32::MAX {
        (a + b) as u32
    } else {
        u32::MAX
    }
}

/// A step changes the state and replies in a way that does not depend on the audit, and raises
/// the same counters by one whatever they held.
proof fn step_counts(t: TrackerModel, a: ProtocolAudit, b: ProtocolAudit, byte: u8)
    ensures
        step(t, a, byte).tracker == step(t, b, byte).tracker,
        step(t, a, byte).reply == step(t, b, byte).reply,
        forall|f: spec_fn(ProtocolAudit) -> u32|
            is_counter(f) ==> {
                ||| #[trigger] f(step(t, a, byte).audit) == f(a) && f(step(t, b, byte).audit) == f(b)
                ||| f(step(t, a, byte).audit) == bump(f(a)) && f(step(t, b, byte).audit) == bump(
                    f(b),
                )
            },
{
}

/// Popping one state right after a push restores the screen as it was before the push.
pub proof fn pop_undoes_push(screen: ScreenModel, flags: KittyKeyboardFlags)
    ensures
        screen.push(flags).pop(1) == screen,
{
    assert(screen.push(flags).saved.take(screen.saved.len() as int) =~= screen.saved);
}

/// Whatever a program does to the keyboard state on one screen, the other screen keeps its own.
pub proof fn screens_are_independent(t: TrackerModel, a: ProtocolAudit, p: Seq<Option<u32>>)
    ensures
        t.alternate ==> {
            &&& set_flags(t, a, p).0.main == t.main
            &&& push_flags(t, a, p).0.main == t.main
            &&& pop_flags(t, a, p).0.main == t.main
        },
        !t.alternate ==> {
            &&& set_flags(t, a, p).0.alt == t.alt
            &&& push_flags(t, a, p).0.alt == t.alt
            &&& pop_flags(t, a, p).0.alt == t.alt
        },
        forall|alternate: bool|
            {
                let shown = #[trigger] show_screen(t, p, alternate);
                shown.main == t.main && shown.alt == t.alt && shown.mok == t.mok
            },
{
}

/// Flags that are not known change nothing but the count of such flags.
pub proof fn unknown_flags_change_nothing(t: TrackerModel, a: ProtocolAudit, p: Seq<Option<u32>>)
    requires
        parameter_at(p, 0, 0) >= 32,
    ensures
        set_flags(t, a, p).0 == t,
        push_flags(t, a, p).0 == t,
        set_flags(t, a, p).1 == (ProtocolAudit { unknown_flags: bump(a.unknown_flags), ..a }),
        push_flags(t, a, p).1 == (ProtocolAudit { unknown_flags: bump(a.unknown_flags), ..a }),
{
}

/// A full reset (`ESC c`) from anywhere outside a sequence switches everything off.
pub proof fn full_reset_switches_everything_off(t: TrackerModel)
    requires
        t.scan is Ground,
    ensures
        run(t, seq![0x1bu8, 99]).tracker == TrackerModel::initial(),
        TrackerModel::initial().state() == KeyboardProtocolState::off(),
{
    let bytes = seq![0x1bu8, 99];
    assert(bytes.drop_last() =~= seq![0x1bu8]);
    assert(bytes.drop_last().drop_last() =~= Seq::empty());
    reveal_with_fuel(run, 3);
}

/// No byte string drives a tracker past its limits: only known flags are ever active or saved,
/// and no stack and no pending sequence outgrows its bound.
pub proof fn run_keeps_limits(t: TrackerModel, bytes: Seq<u8>)
    requires
        t.wf(),
    ensures
        run(t, bytes).tracker.wf(),
    decreases bytes.len(),
{
    if bytes.len() > 0 {
        run_keeps_limits(t, bytes.drop_last());
        let before = run(t, bytes.drop_last());
        let now = before.tracker.current();
        assert forall|x: u8, y: u8| x < 32 && y < 32 implies #[trigger] (x | y) < 32 by {
            assert(x < 32 && y < 32 ==> (x | y) < 32) by (bit_vector);
        }
        assert forall|x: u8, y: u8| x < 32 implies #[trigger] (x & !y) < 32 by {
            assert(x < 32 ==> (x & !y) < 32) by (bit_vector);
        }
    }
}

} // verus!
