//! Working-directory reports (OSC 7): finding them in the output and validating them.
use vstd::prelude::*;
use vstd::slice::slice_subrange;
use vstd::utf8::{encode_utf8, valid_utf8};
use crate::text::{
    ascii_bytes, eq_ignore_case, first_index, is_ascii_slice, lower, lower_byte,
    position, same_ignoring_case, string_of, utf8_str, without_final_dot,
};

verus! {

/// The longest URI that a report may carry.
pub const MAX_OSC7_URI_BYTES: usize = 4096;

#[derive(Clone, Copy, Debug, PartialEq, Eq, Structural)]
pub enum CwdRejectReason {
    TooLong,
    InvalidEncoding,
    InvalidUri,
    UnsupportedScheme,
    RemoteAuthority,
    InvalidPath,
}

impl CwdRejectReason {
    /// The stable name of the reason.
    pub fn as_str(self) -> (result: &'static str)
        ensures
            result@ == match self {
                CwdRejectReason::TooLong => "too_long"@,
                CwdRejectReason::InvalidEncoding => "invalid_encoding"@,
                CwdRejectReason::InvalidUri => "invalid_uri"@,
                CwdRejectReason::UnsupportedScheme => "unsupported_scheme"@,
                CwdRejectReason::RemoteAuthority => "remote_authority"@,
                CwdRejectReason::InvalidPath => "invalid_path"@,
            },
    {
        match self {
            CwdRejectReason::TooLong => "too_long",
            CwdRejectReason::InvalidEncoding => "invalid_encoding",
            CwdRejectReason::InvalidUri => "invalid_uri",
            CwdRejectReason::UnsupportedScheme => "unsupported_scheme",
            CwdRejectReason::RemoteAuthority => "remote_authority",
            CwdRejectReason::InvalidPath => "invalid_path",
        }
    }
}

/// A report that the tracker has completed.
#[derive(Clone, Debug, PartialEq, Eq)]
pub enum CwdReport {
    Uri(Vec<u8>),
    Invalid(CwdRejectReason),
}

/// A report over its bytes.
pub enum ReportModel {
    Uri(Seq<u8>),
    Invalid(CwdRejectReason),
}

impl View for CwdReport {
    type V = ReportModel;

    open spec fn view(&self) -> ReportModel {
        match *self {
            CwdReport::Uri(uri) => ReportModel::Uri(uri@),
            CwdReport::Invalid(reason) => ReportModel::Invalid(reason),
        }
    }
}

/// An absolute path on this machine, as its raw bytes.
#[derive(Clone, Debug, PartialEq, Eq)]
pub struct LocalCwdHint {
    pub path: Vec<u8>,
}

/// What this machine calls itself.
#[derive(Clone, Debug, PartialEq, Eq)]
pub struct LocalIdentity {
    pub hostname: Option<String>,
}

/// The host name without its final dot and in lower case, if it is ASCII and not empty.
pub open spec fn normalized_hostname(raw: Seq<u8>) -> Option<Seq<char>> {
    let name = without_final_dot(raw);
    if name.len() > 0 && ascii_bytes(name) {
        Some(name.map_values(|b: u8| lower(b) as char))
    } else {
        None
    }
}

/// The view of an optional string.
pub open spec fn opt_view(s: Option<String>) -> Option<Seq<char>> {
    match s {
        Some(s) => Some(s@),
        None => None,
    }
}

/// The node name that the kernel reports, by `rustix::system::uname`. Which bytes it holds
/// depends on the machine, so nothing is stated of them.
#[verifier::external_body]
fn node_name() -> (result: Vec<u8>) {
    rustix::system::uname().nodename().to_bytes().to_vec()
}

impl LocalIdentity {
    /// The identity of the machine that this runs on.
    pub fn capture() -> (result: LocalIdentity)
        ensures
            exists|raw: Seq<u8>|
                opt_view(result.hostname) == #[trigger] normalized_hostname(raw),
    {
        let raw = node_name();
        LocalIdentity::from_node_name(&raw)
    }

    /// The identity of a machine whose kernel reports the given node name.
    pub fn from_node_name(raw: &Vec<u8>) -> (result: LocalIdentity)
        ensures
            opt_view(result.hostname) == normalized_hostname(raw@),
    {
        LocalIdentity { hostname: normalize_hostname(raw.as_slice()) }
    }

    /// The identity of a machine with the given name.
    pub fn new(hostname: Option<String>) -> (result: LocalIdentity)
        ensures
            opt_view(result.hostname) == match hostname {
                Some(name) => normalized_hostname(encode_utf8(name@)),
                None => None,
            },
    {
        match hostname {
            Some(name) => LocalIdentity {
                hostname: normalize_hostname(name.as_str().as_bytes()),
            },
            None => LocalIdentity { hostname: None },
        }
    }
}

fn normalize_hostname(raw: &[u8]) -> (result: Option<String>)
    ensures
        opt_view(result) == normalized_hostname(raw@),
{
    let mut end: usize = raw.len();
    if end > 0 && raw[end - 1] == 46 {
        end = end - 1;
    }
    let name = slice_subrange(raw, 0, end);
    assert(name@ =~= without_final_dot(raw@));
    if name.len() == 0 || !is_ascii_slice(name) {
        return None;
    }
    let mut chars: Vec<char> = Vec::new();
    let mut i: usize = 0;
    while i < name.len()
        invariant
            i <= name@.len(),
            chars@.len() == i,
            forall|k: int| 0 <= k < i ==> chars@[k] == lower(#[trigger] name@[k]) as char,
        decreases name@.len() - i,
    {
        chars.push(lower_byte(name[i]) as char);
        i += 1;
    }
    assert(chars@ =~= name@.map_values(|b: u8| lower(b) as char));
    Some(string_of(&chars))
}

/// Where in a control sequence the stream of bytes stands.
#[derive(Clone, Copy, Debug, PartialEq, Eq, Structural)]
pub enum TrackerState {
    Ground,
    Escape,
    OscCommand,
    OscSeven,
    IgnoreOsc,
    IgnoreOscEscape,
    Uri,
    UriEscape,
    Discard,
    DiscardEscape,
}

/// Finds working-directory reports in a stream of output bytes and keeps the latest.
pub struct CwdTracker {
    state: TrackerState,
    uri: Vec<u8>,
    pending: Option<CwdReport>,
    overwritten: u64,
}

/// The state of a tracker.
pub struct CwdModel {
    pub state: TrackerState,
    pub uri: Seq<u8>,
    pub pending: Option<ReportModel>,
    pub overwritten: u64,
}

impl CwdModel {
    pub open spec fn initial() -> CwdModel {
        CwdModel {
            state: TrackerState::Ground,
            uri: Seq::empty(),
            pending: None,
            overwritten: 0,
        }
    }

    /// A report becomes the pending one; one that was still pending is lost and counted.
    pub open spec fn publish(self, report: ReportModel) -> CwdModel {
        CwdModel {
            state: TrackerState::Ground,
            uri: Seq::empty(),
            pending: Some(report),
            overwritten: if self.pending is Some && self.overwritten < u64::MAX {
                (self.overwritten + 1) as u64
            } else {
                self.overwritten
            },
        }
    }

    /// The report being read is dropped.
    pub open spec fn abandon(self) -> CwdModel {
        CwdModel { state: TrackerState::Ground, uri: Seq::empty(), ..self }
    }

    pub open spec fn at(self, state: TrackerState) -> CwdModel {
        CwdModel { state, ..self }
    }

    /// A URI that is being collected is within its limit, and one that has been given up is over
    /// it by one byte.
    pub open spec fn wf(self) -> bool {
        &&& (self.state is Uri || self.state is UriEscape) ==> self.uri.len() <= MAX_OSC7_URI_BYTES
        &&& self.uri.len() <= MAX_OSC7_URI_BYTES + 1
        &&& match self.pending {
            Some(ReportModel::Uri(uri)) => uri.len() <= MAX_OSC7_URI_BYTES,
            _ => true,
        }
    }
}

/// The bytes that cancel a control sequence.
pub open spec fn cancels(byte: u8) -> bool {
    byte == 0x18 || byte == 0x1a
}

/// What one byte does.
pub open spec fn step(m: CwdModel, byte: u8) -> CwdModel {
    let ignored = if byte == 7 || cancels(byte) {
        TrackerState::Ground
    } else if byte == 0x1b {
        TrackerState::IgnoreOscEscape
    } else {
        TrackerState::IgnoreOsc
    };
    match m.state {
        TrackerState::Ground => if byte == 0x1b {
            m.at(TrackerState::Escape)
        } else {
            m
        },
        TrackerState::Escape => if byte == 93 {
            m.at(TrackerState::OscCommand)
        } else if byte == 0x1b {
            m
        } else {
            m.at(TrackerState::Ground)
        },
        TrackerState::OscCommand => if byte == 55 {
            m.at(TrackerState::OscSeven)
        } else {
            m.at(ignored)
        },
        TrackerState::OscSeven => if byte == 59 {
            CwdModel { state: TrackerState::Uri, uri: Seq::empty(), ..m }
        } else {
            m.at(ignored)
        },
        TrackerState::IgnoreOsc => m.at(ignored),
        TrackerState::IgnoreOscEscape => m.at(TrackerState::Ground),
        TrackerState::Uri => if byte == 7 {
            m.publish(ReportModel::Uri(m.uri))
        } else if cancels(byte) {
            m.abandon()
        } else if byte == 0x1b {
            m.at(TrackerState::UriEscape)
        } else {
            CwdModel {
                state: if m.uri.len() < MAX_OSC7_URI_BYTES {
                    TrackerState::Uri
                } else {
                    TrackerState::Discard
                },
                uri: m.uri.push(byte),
                ..m
            }
        },
        TrackerState::UriEscape => if byte == 92 {
            m.publish(ReportModel::Uri(m.uri))
        } else {
            m.abandon()
        },
        TrackerState::Discard => if byte == 7 {
            m.publish(ReportModel::Invalid(CwdRejectReason::TooLong))
        } else if cancels(byte) {
            m.abandon()
        } else if byte == 0x1b {
            m.at(TrackerState::DiscardEscape)
        } else {
            m
        },
        TrackerState::DiscardEscape => if byte == 92 {
            m.publish(ReportModel::Invalid(CwdRejectReason::TooLong))
        } else {
            m.abandon()
        },
    }
}

/// What a string of bytes does, one byte after the other.
pub open spec fn run(m: CwdModel, bytes: Seq<u8>) -> CwdModel
    decreases bytes.len(),
{
    if bytes.len() == 0 {
        m
    } else {
        step(run(m, bytes.drop_last()), bytes.last())
    }
}

/// The view of an optional report.
pub open spec fn pending_view(report: Option<CwdReport>) -> Option<ReportModel> {
    match report {
        Some(report) => Some(report@),
        None => None,
    }
}

impl View for CwdTracker {
    type V = CwdModel;

    closed spec fn view(&self) -> CwdModel {
        CwdModel {
            state: self.state,
            uri: self.uri@,
            pending: pending_view(self.pending),
            overwritten: self.overwritten,
        }
    }
}

impl Default for CwdTracker {
    fn default() -> (result: CwdTracker)
        ensures
            result@ == CwdModel::initial(),
    {
        let result = CwdTracker {
            state: TrackerState::Ground,
            uri: Vec::new(),
            pending: None,
            overwritten: 0,
        };
        assert(result@.uri =~= Seq::empty());
        result
    }
}

impl CwdTracker {
    /// Follows `bytes`.
    pub fn advance(&mut self, bytes: &[u8])
        ensures
            final(self)@ == run(old(self)@, bytes@),
            old(self)@.wf() ==> final(self)@.wf(),
    {
        let mut i: usize = 0;
        while i < bytes.len()
            invariant
                i <= bytes@.len(),
                self@ == run(old(self)@, bytes@.take(i as int)),
                old(self)@.wf() ==> self@.wf(),
            decreases bytes@.len() - i,
        {
            self.advance_byte(bytes[i]);
            assert(bytes@.take(i + 1).drop_last() =~= bytes@.take(i as int));
            i += 1;
        }
        assert(bytes@.take(i as int) =~= bytes@);
    }

    /// Hands the latest report out.
    pub fn take_report(&mut self) -> (result: Option<CwdReport>)
        ensures
            pending_view(result) == old(self)@.pending,
            final(self)@ == (CwdModel { pending: None, ..old(self)@ }),
    {
        self.pending.take()
    }

    /// How many bytes of a report are held.
    pub fn storage_len(&self) -> (result: usize)
        ensures
            result == self@.uri.len(),
    {
        self.uri.len()
    }

    /// How many reports were replaced before they were taken.
    pub fn overwritten_reports(&self) -> (result: u64)
        ensures
            result == self@.overwritten,
    {
        self.overwritten
    }

    fn publish(&mut self, report: CwdReport)
        ensures
            final(self)@ == old(self)@.publish(report@),
    {
        if self.pending.is_some() {
            self.overwritten = self.overwritten.saturating_add(1);
        }
        self.pending = Some(report);
        self.uri.clear();
        self.state = TrackerState::Ground;
        assert(self.uri@ =~= Seq::empty());
    }

    fn abandon(&mut self)
        ensures
            final(self)@ == old(self)@.abandon(),
    {
        self.uri.clear();
        self.state = TrackerState::Ground;
        assert(self.uri@ =~= Seq::empty());
    }

    fn take_uri(&mut self) -> (result: Vec<u8>)
        ensures
            result@ == old(self)@.uri,
            final(self)@ == (CwdModel { uri: Seq::empty(), ..old(self)@ }),
    {
        let mut uri: Vec<u8> = Vec::new();
        core::mem::swap(&mut self.uri, &mut uri);
        assert(self.uri@ =~= Seq::empty());
        uri
    }

    fn advance_byte(&mut self, byte: u8)
        ensures
            final(self)@ == step(old(self)@, byte),
            old(self)@.wf() ==> final(self)@.wf(),
    {
        let ignored = if byte == 7 || byte == 0x18 || byte == 0x1a {
            TrackerState::Ground
        } else if byte == 0x1b {
            TrackerState::IgnoreOscEscape
        } else {
            TrackerState::IgnoreOsc
        };
        match self.state {
            TrackerState::Ground => {
                if byte == 0x1b {
                    self.state = TrackerState::Escape;
                }
            },
            TrackerState::Escape => {
                if byte == 93 {
                    self.state = TrackerState::OscCommand;
                } else if byte != 0x1b {
                    self.state = TrackerState::Ground;
                }
            },
            TrackerState::OscCommand => {
                if byte == 55 {
                    self.state = TrackerState::OscSeven;
                } else {
                    self.state = ignored;
                }
            },
            TrackerState::OscSeven => {
                if byte == 59 {
                    self.uri.clear();
                    assert(self.uri@ =~= Seq::empty());
                    self.state = TrackerState::Uri;
                } else {
                    self.state = ignored;
                }
            },
            TrackerState::IgnoreOsc => {
                self.state = ignored;
            },
            TrackerState::IgnoreOscEscape => {
                self.state = TrackerState::Ground;
            },
            TrackerState::Uri => {
                if byte == 7 {
                    let uri = self.take_uri();
                    self.publish(CwdReport::Uri(uri));
                } else if byte == 0x18 || byte == 0x1a {
                    self.abandon();
                } else if byte == 0x1b {
                    self.state = TrackerState::UriEscape;
                } else {
                    self.uri.push(byte);
                    if self.uri.len() > MAX_OSC7_URI_BYTES {
                        self.state = TrackerState::Discard;
                    }
                }
            },
            TrackerState::UriEscape => {
                if byte == 92 {
                    let uri = self.take_uri();
                    self.publish(CwdReport::Uri(uri));
                } else {
                    self.abandon();
                }
            },
            TrackerState::Discard => {
                if byte == 7 {
                    self.publish(CwdReport::Invalid(CwdRejectReason::TooLong));
                } else if byte == 0x18 || byte == 0x1a {
                    self.abandon();
                } else if byte == 0x1b {
                    self.state = TrackerState::DiscardEscape;
                }
            },
            TrackerState::DiscardEscape => {
                if byte == 92 {
                    self.publish(CwdReport::Invalid(CwdRejectReason::TooLong));
                } else {
                    self.abandon();
                }
            },
        }
    }
}

/// The value of a hexadecimal digit.
pub open spec fn hex_value(byte: u8) -> Option<u8> {
    if 48 <= byte <= 57 {
        Some((byte - 48) as u8)
    } else if 97 <= byte <= 102 {
        Some((byte - 87) as u8)
    } else if 65 <= byte <= 70 {
        Some((byte - 55) as u8)
    } else {
        None
    }
}

/// The bytes that a percent-encoded path stands for. Controls, blanks, `?` and `#` may not stand
/// in it, nor may an encoded NUL.
pub open spec fn decoded_path(raw: Seq<u8>) -> Option<Seq<u8>>
    decreases raw.len(),
{
    if raw.len() == 0 {
        Some(Seq::empty())
    } else if raw[0] == 37 {
        if raw.len() < 3 || hex_value(raw[1]) is None || hex_value(raw[2]) is None {
            None
        } else {
            let value = (hex_value(raw[1])->0 * 16 + hex_value(raw[2])->0) as u8;
            match decoded_path(raw.skip(3)) {
                Some(rest) if value != 0 => Some(seq![value] + rest),
                _ => None,
            }
        }
    } else if raw[0] <= 0x20 || raw[0] == 0x7f || raw[0] == 63 || raw[0] == 35 {
        None
    } else {
        match decoded_path(raw.skip(1)) {
            Some(rest) => Some(seq![raw[0]] + rest),
            None => None,
        }
    }
}

/// The bytes that may not stand in an authority.
pub open spec fn bad_in_authority(byte: u8) -> bool {
    byte <= 0x20 || byte >= 0x7f || byte == 37 || byte == 64 || byte == 58 || byte == 91 || byte
        == 93 || byte == 63 || byte == 35 || byte == 92
}

/// Whether an authority names this machine: it is empty, `localhost` or the host name, up to
/// case and one final dot.
pub open spec fn is_local(authority: Seq<u8>, hostname: Option<Seq<char>>) -> bool {
    let name = without_final_dot(authority);
    ||| name.len() == 0
    ||| same_ignoring_case(name, seq![108u8, 111, 99, 97, 108, 104, 111, 115, 116])
    ||| hostname is Some && same_ignoring_case(name, encode_utf8(hostname->0))
}

/// The path of a `file` URI on this machine, or why there is none.
pub open spec fn local_path(uri: Seq<u8>, hostname: Option<Seq<char>>) -> Result<
    Seq<u8>,
    CwdRejectReason,
> {
    if !valid_utf8(uri) {
        Err(CwdRejectReason::InvalidEncoding)
    } else {
        match first_index(uri, 58) {
            None => Err(CwdRejectReason::InvalidUri),
            Some(colon) => if !same_ignoring_case(uri.take(colon), seq![102u8, 105, 108, 101]) {
                Err(CwdRejectReason::UnsupportedScheme)
            } else if uri.len() < colon + 3 || uri[colon + 1] != 47 || uri[colon + 2] != 47 {
                Err(CwdRejectReason::InvalidUri)
            } else {
                let rest = uri.skip(colon + 3);
                match first_index(rest, 47) {
                    None => Err(CwdRejectReason::InvalidPath),
                    Some(slash) => {
                        let authority = rest.take(slash);
                        if exists|i: int|
                            0 <= i < authority.len() && bad_in_authority(#[trigger] authority[i]) {
                            Err(CwdRejectReason::InvalidUri)
                        } else if !is_local(authority, hostname) {
                            Err(CwdRejectReason::RemoteAuthority)
                        } else {
                            match decoded_path(rest.skip(slash)) {
                                Some(path) => Ok(path),
                                None => Err(CwdRejectReason::InvalidPath),
                            }
                        }
                    },
                }
            },
        }
    }
}

/// Validates a completed tracker report against the frozen local identity.
pub fn validate_report(report: CwdReport, identity: &LocalIdentity) -> (result: Result<
    LocalCwdHint,
    CwdRejectReason,
>)
    ensures
        match report@ {
            ReportModel::Invalid(reason) => result == Err::<LocalCwdHint, CwdRejectReason>(reason),
            ReportModel::Uri(uri) => match local_path(uri, opt_view(identity.hostname)) {
                Ok(path) => result is Ok && result->Ok_0.path@ == path,
                Err(reason) => result == Err::<LocalCwdHint, CwdRejectReason>(reason),
            },
        },
{
    match report {
        CwdReport::Uri(uri) => validate_uri(uri.as_slice(), identity),
        CwdReport::Invalid(reason) => Err(reason),
    }
}

fn validate_uri(uri: &[u8], identity: &LocalIdentity) -> (result: Result<
    LocalCwdHint,
    CwdRejectReason,
>)
    ensures
        match local_path(uri@, opt_view(identity.hostname)) {
            Ok(path) => result is Ok && result->Ok_0.path@ == path,
            Err(reason) => result == Err::<LocalCwdHint, CwdRejectReason>(reason),
        },
{
    if utf8_str(uri).is_none() {
        return Err(CwdRejectReason::InvalidEncoding);
    }
    let colon: usize = match position(uri, 58) {
        Some(colon) => colon,
        None => {
            return Err(CwdRejectReason::InvalidUri);
        },
    };
    let file: [u8; 4] = [102, 105, 108, 101];
    assert(file@ =~= seq![102u8, 105, 108, 101]);
    let scheme = slice_subrange(uri, 0, colon);
    assert(scheme@ =~= uri@.take(colon as int));
    if !eq_ignore_case(scheme, &file) {
        return Err(CwdRejectReason::UnsupportedScheme);
    }
    if uri.len() - colon < 3 || uri[colon + 1] != 47 || uri[colon + 2] != 47 {
        return Err(CwdRejectReason::InvalidUri);
    }
    let rest = slice_subrange(uri, colon + 3, uri.len());
    assert(rest@ =~= uri@.skip(colon + 3));
    let slash: usize = match position(rest, 47) {
        Some(slash) => slash,
        None => {
            return Err(CwdRejectReason::InvalidPath);
        },
    };
    let authority = slice_subrange(rest, 0, slash);
    assert(authority@ =~= rest@.take(slash as int));
    match validate_authority(authority, identity) {
        Ok(_) => {},
        Err(reason) => {
            return Err(reason);
        },
    }
    let raw = slice_subrange(rest, slash, rest.len());
    assert(raw@ =~= rest@.skip(slash as int));
    match decode_path(raw) {
        Ok(path) => Ok(LocalCwdHint { path }),
        Err(reason) => Err(reason),
    }
}

fn validate_authority(authority: &[u8], identity: &LocalIdentity) -> (result: Result<
    (),
    CwdRejectReason,
>)
    ensures
        result == (if exists|i: int|
            0 <= i < authority@.len() && bad_in_authority(#[trigger] authority@[i]) {
            Err(CwdRejectReason::InvalidUri)
        } else if !is_local(authority@, opt_view(identity.hostname)) {
            Err(CwdRejectReason::RemoteAuthority)
        } else {
            Ok(())
        }),
{
    let mut i: usize = 0;
    while i < authority.len()
        invariant
            i <= authority@.len(),
            forall|k: int| 0 <= k < i ==> !bad_in_authority(#[trigger] authority@[k]),
        decreases authority@.len() - i,
    {
        let byte: u8 = authority[i];
        if byte <= 0x20 || byte >= 0x7f || byte == 37 || byte == 64 || byte == 58 || byte == 91
            || byte == 93 || byte == 63 || byte == 35 || byte == 92 {
            assert(bad_in_authority(authority@[i as int]));
            return Err(CwdRejectReason::InvalidUri);
        }
        i += 1;
    }
    let mut end: usize = authority.len();
    if end > 0 && authority[end - 1] == 46 {
        end = end - 1;
    }
    let name = slice_subrange(authority, 0, end);
    assert(name@ =~= without_final_dot(authority@));
    let localhost: [u8; 9] = [108, 111, 99, 97, 108, 104, 111, 115, 116];
    assert(localhost@ =~= seq![108u8, 111, 99, 97, 108, 104, 111, 115, 116]);
    if name.len() == 0 || eq_ignore_case(name, &localhost) {
        return Ok(());
    }
    match &identity.hostname {
        Some(hostname) => {
            if eq_ignore_case(name, hostname.as_str().as_bytes()) {
                return Ok(());
            }
        },
        None => {},
    }
    Err(CwdRejectReason::RemoteAuthority)
}

fn decode_path(raw: &[u8]) -> (result: Result<Vec<u8>, CwdRejectReason>)
    ensures
        match decoded_path(raw@) {
            Some(path) => result is Ok && result->Ok_0@ == path,
            None => result == Err::<Vec<u8>, CwdRejectReason>(CwdRejectReason::InvalidPath),
        },
{
    let mut decoded: Vec<u8> = Vec::new();
    let mut index: usize = 0;
    assert(raw@.skip(0) =~= raw@);
    assert(decoded@ =~= Seq::empty());
    proof {
        if decoded_path(raw@) is Some {
            assert(decoded@ + decoded_path(raw@)->0 =~= decoded_path(raw@)->0);
        }
    }
    while index < raw.len()
        invariant
            index <= raw@.len(),
            decoded_path(raw@) == match decoded_path(raw@.skip(index as int)) {
                Some(rest) => Some(decoded@ + rest),
                None => None,
            },
        decreases raw@.len() - index,
    {
        let byte: u8 = raw[index];
        let ghost here = raw@.skip(index as int);
        let ghost before = decoded@;
        if byte == 37 {
            if raw.len() - index < 3 {
                return Err(CwdRejectReason::InvalidPath);
            }
            assert(here.skip(3) =~= raw@.skip(index + 3));
            match (hex(raw[index + 1]), hex(raw[index + 2])) {
                (Some(high), Some(low)) => {
                    let value: u8 = high * 16 + low;
                    if value == 0 {
                        return Err(CwdRejectReason::InvalidPath);
                    }
                    decoded.push(value);
                    proof {
                        if decoded_path(here.skip(3)) is Some {
                            let rest = decoded_path(here.skip(3))->0;
                            assert(before + (seq![value] + rest) =~= decoded@ + rest);
                        }
                    }
                    index += 3;
                },
                _ => {
                    return Err(CwdRejectReason::InvalidPath);
                },
            }
        } else {
            if byte <= 0x20 || byte == 0x7f || byte == 63 || byte == 35 {
                return Err(CwdRejectReason::InvalidPath);
            }
            assert(here.skip(1) =~= raw@.skip(index + 1));
            decoded.push(byte);
            proof {
                if decoded_path(here.skip(1)) is Some {
                    let rest = decoded_path(here.skip(1))->0;
                    assert(before + (seq![byte] + rest) =~= decoded@ + rest);
                }
            }
            index += 1;
        }
    }
    assert(decoded@ + Seq::<u8>::empty() =~= decoded@);
    Ok(decoded)
}

fn hex(byte: u8) -> (result: Option<u8>)
    ensures
        result == hex_value(byte),
        result is Some ==> result->0 < 16,
{
    if 48 <= byte && byte <= 57 {
        Some(byte - 48)
    } else if 97 <= byte && byte <= 102 {
        Some(byte - 87)
    } else if 65 <= byte && byte <= 70 {
        Some(byte - 55)
    } else {
        None
    }
}

/// A path of the environment, as its raw bytes, is taken if it is absolute and holds no NUL.
pub open spec fn absolute_path(path: Seq<u8>) -> bool {
    path.len() > 0 && path[0] == 47 && !path.contains(0)
}

/// Keeps a path that is absolute and holds no NUL.
pub fn valid_absolute_env_path(value: Option<Vec<u8>>) -> (result: Option<Vec<u8>>)
    ensures
        match value {
            Some(path) if absolute_path(path@) => result is Some && result->0@ == path@,
            _ => result is None,
        },
{
    match value {
        None => None,
        Some(path) => {
            if path.len() == 0 || path[0] != 47 {
                return None;
            }
            if position(path.as_slice(), 0).is_some() {
                proof {
                    first_index_finds(path@, 0);
                }
                return None;
            }
            proof {
                first_index_finds(path@, 0);
            }
            Some(path)
        },
    }
}

proof fn first_index_finds(bytes: Seq<u8>, byte: u8)
    ensures
        first_index(bytes, byte) is Some <==> bytes.contains(byte),
    decreases bytes.len(),
{
    if bytes.len() > 0 {
        first_index_finds(bytes.skip(1), byte);
        if bytes[0] != byte {
            if bytes.contains(byte) {
                let i = choose|i: int| 0 <= i < bytes.len() && bytes[i] == byte;
                assert(bytes.skip(1)[i - 1] == byte);
            }
            if bytes.skip(1).contains(byte) {
                let i = choose|i: int| 0 <= i < bytes.skip(1).len() && bytes.skip(1)[i] == byte;
                assert(bytes[i + 1] == byte);
            }
        }
    }
}

/// Output may be cut anywhere: following two parts in turn leaves what following them in one
/// piece leaves.
pub proof fn run_in_parts(m: CwdModel, first: Seq<u8>, second: Seq<u8>)
    ensures
        run(m, first + second) == run(run(m, first), second),
    decreases second.len(),
{
    if second.len() == 0 {
        assert(first + second =~= first);
    } else {
        run_in_parts(m, first, second.drop_last());
        assert((first + second).drop_last() =~= first + second.drop_last());
    }
}

/// Whatever the output holds, the tracker never holds more than one byte over the limit of a
/// URI, and never reports a longer URI than that limit.
pub proof fn run_keeps_limits(m: CwdModel, bytes: Seq<u8>)
    requires
        m.wf(),
    ensures
        run(m, bytes).wf(),
    decreases bytes.len(),
{
    if bytes.len() > 0 {
        run_keeps_limits(m, bytes.drop_last());
    }
}

/// The bytes that may stand inside a report.
pub open spec fn plain(uri: Seq<u8>) -> bool {
    forall|i: int|
        0 <= i < uri.len() ==> #[trigger] uri[i] != 7 && uri[i] != 0x1b && !cancels(uri[i])
}

proof fn collects(m: CwdModel, uri: Seq<u8>)
    requires
        m.state is Uri,
        m.uri.len() == 0,
        plain(uri),
        uri.len() <= MAX_OSC7_URI_BYTES,
    ensures
        run(m, uri) == (CwdModel { uri, ..m }),
    decreases uri.len(),
{
    if uri.len() == 0 {
        assert(m.uri =~= uri);
    } else {
        collects(m, uri.drop_last());
        assert(uri.drop_last().push(uri.last()) =~= uri);
    }
}

/// A report of up to the limit, ended by BEL or by ST, becomes the pending report as it stands.
pub proof fn complete_report_is_published(m: CwdModel, uri: Seq<u8>)
    requires
        m.state is Ground,
        plain(uri),
        uri.len() <= MAX_OSC7_URI_BYTES,
    ensures
        run(m, seq![0x1bu8, 93, 55, 59] + uri + seq![7u8]) == m.publish(ReportModel::Uri(uri)),
        run(m, seq![0x1bu8, 93, 55, 59] + uri + seq![0x1bu8, 92]) == m.publish(
            ReportModel::Uri(uri),
        ),
{
    let intro = seq![0x1bu8, 93, 55, 59];
    let started = CwdModel { state: TrackerState::Uri, uri: Seq::empty(), ..m };
    assert(run(m, intro) == started) by {
        reveal_with_fuel(run, 5);
        assert(intro.drop_last() =~= seq![0x1bu8, 93, 55]);
        assert(intro.drop_last().drop_last() =~= seq![0x1bu8, 93]);
        assert(intro.drop_last().drop_last().drop_last() =~= seq![0x1bu8]);
        assert(intro.drop_last().drop_last().drop_last().drop_last() =~= Seq::empty());
    }
    run_in_parts(m, intro, uri);
    collects(started, uri);
    let read = run(m, intro + uri);
    run_in_parts(m, intro + uri, seq![7u8]);
    run_in_parts(m, intro + uri, seq![0x1bu8, 92]);
    assert(seq![7u8].drop_last() =~= Seq::empty());
    assert(seq![0x1bu8, 92].drop_last() =~= seq![0x1bu8]);
    assert(seq![0x1bu8].drop_last() =~= Seq::empty());
    reveal_with_fuel(run, 3);
}

/// A report that is cancelled before its end leaves the pending report alone.
pub proof fn cancelled_report_changes_nothing(m: CwdModel, uri: Seq<u8>, cancel: u8)
    requires
        m.state is Ground,
        m.uri.len() == 0,
        plain(uri),
        uri.len() <= MAX_OSC7_URI_BYTES,
        cancels(cancel),
    ensures
        run(m, seq![0x1bu8, 93, 55, 59] + uri + seq![cancel]) == m,
{
    let intro = seq![0x1bu8, 93, 55, 59];
    let started = CwdModel { state: TrackerState::Uri, uri: Seq::empty(), ..m };
    assert(run(m, intro) == started) by {
        reveal_with_fuel(run, 5);
        assert(intro.drop_last() =~= seq![0x1bu8, 93, 55]);
        assert(intro.drop_last().drop_last() =~= seq![0x1bu8, 93]);
        assert(intro.drop_last().drop_last().drop_last() =~= seq![0x1bu8]);
        assert(intro.drop_last().drop_last().drop_last().drop_last() =~= Seq::empty());
    }
    run_in_parts(m, intro, uri);
    collects(started, uri);
    run_in_parts(m, intro + uri, seq![cancel]);
    assert(seq![cancel].drop_last() =~= Seq::empty());
    reveal_with_fuel(run, 2);
    assert(m.uri =~= Seq::empty());
}

/// A path that was accepted is absolute and holds no NUL.
pub proof fn accepted_path_is_absolute(uri: Seq<u8>, hostname: Option<Seq<char>>)
    ensures
        local_path(uri, hostname) is Ok ==> absolute_path(local_path(uri, hostname)->Ok_0),
{
    if local_path(uri, hostname) is Ok {
        let colon = first_index(uri, 58)->0;
        let rest = uri.skip(colon + 3);
        let slash = first_index(rest, 47)->0;
        first_index_is_there(rest, 47);
        let raw = rest.skip(slash);
        assert(raw[0] == 47);
        decoded_has_no_nul(raw);
        assert(decoded_path(raw)->0[0] == 47);
    }
}

proof fn first_index_is_there(bytes: Seq<u8>, byte: u8)
    ensures
        first_index(bytes, byte) is Some ==> 0 <= first_index(bytes, byte)->0 < bytes.len()
            && bytes[first_index(bytes, byte)->0] == byte,
    decreases bytes.len(),
{
    if bytes.len() > 0 {
        first_index_is_there(bytes.skip(1), byte);
    }
}

proof fn decoded_has_no_nul(raw: Seq<u8>)
    ensures
        decoded_path(raw) is Some ==> !decoded_path(raw)->0.contains(0),
    decreases raw.len(),
{
    if raw.len() > 0 && decoded_path(raw) is Some {
        let head = decoded_path(raw)->0[0];
        if raw[0] == 37 {
            decoded_has_no_nul(raw.skip(3));
            let rest = decoded_path(raw.skip(3))->0;
            assert forall|i: int| 0 <= i < (seq![head] + rest).len() implies (seq![head] + rest)[i]
                != 0 by {
                if i > 0 {
                    assert(rest.contains(rest[i - 1]));
                }
            }
        } else {
            decoded_has_no_nul(raw.skip(1));
            let rest = decoded_path(raw.skip(1))->0;
            assert forall|i: int| 0 <= i < (seq![head] + rest).len() implies (seq![head] + rest)[i]
                != 0 by {
                if i > 0 {
                    assert(rest.contains(rest[i - 1]));
                }
            }
        }
    }
}

/// A digit of a number to the base of sixteen.
pub open spec fn hex_digit(value: int) -> u8 {
    if value < 10 {
        (48 + value) as u8
    } else {
        (55 + value) as u8
    }
}

/// A path with each of its bytes written as `%` and two digits.
pub open spec fn escaped(path: Seq<u8>) -> Seq<u8>
    decreases path.len(),
{
    if path.len() == 0 {
        Seq::empty()
    } else {
        seq![37u8, hex_digit(path[0] as int / 16), hex_digit(path[0] as int % 16)] + escaped(
            path.skip(1),
        )
    }
}

/// A path is read as it was written: bytes that may stand in it stand for themselves, and any byte
/// but NUL can be written as `%` and two digits.
pub proof fn paths_are_read_as_they_were_written(path: Seq<u8>)
    ensures
        (forall|i: int|
            0 <= i < path.len() ==> #[trigger] path[i] > 0x20 && path[i] != 0x7f && path[i] != 37
                && path[i] != 63 && path[i] != 35) ==> decoded_path(path) == Some(path),
        (forall|i: int| 0 <= i < path.len() ==> #[trigger] path[i] != 0) ==> decoded_path(
            escaped(path),
        ) == Some(path),
    decreases path.len(),
{
    if path.len() > 0 {
        let rest = path.skip(1);
        paths_are_read_as_they_were_written(rest);
        assert(seq![path[0]] + rest =~= path);
        if forall|i: int|
            0 <= i < path.len() ==> #[trigger] path[i] > 0x20 && path[i] != 0x7f && path[i] != 37
                && path[i] != 63 && path[i] != 35 {
            assert forall|i: int| 0 <= i < rest.len() implies #[trigger] rest[i] > 0x20 && rest[i]
                != 0x7f && rest[i] != 37 && rest[i] != 63 && rest[i] != 35 by {
                assert(rest[i] == path[i + 1]);
            }
        }
        if forall|i: int| 0 <= i < path.len() ==> #[trigger] path[i] != 0 {
            assert forall|i: int| 0 <= i < rest.len() implies #[trigger] rest[i] != 0 by {
                assert(rest[i] == path[i + 1]);
            }
            let all = escaped(path);
            assert(all.skip(3) =~= escaped(rest));
            let high = path[0] as int / 16;
            let low = path[0] as int % 16;
            assert(hex_value(all[1]) == Some(high as u8));
            assert(hex_value(all[2]) == Some(low as u8));
            assert(path[0] != 0);
        }
    } else {
        assert(escaped(path) =~= Seq::empty());
        assert(path =~= Seq::empty());
    }
}

/// `file://`
pub open spec fn file_head() -> Seq<u8> {
    seq![102u8, 105, 108, 101, 58, 47, 47]
}

/// A `file` URI with no host, with `localhost` or with the name of this machine leads to its path. One
/// with another host is refused as remote, and so is a path that cannot be read as a bad one.
pub proof fn local_files_lead_to_their_paths(
    host: Seq<u8>,
    raw: Seq<u8>,
    hostname: Option<Seq<char>>,
)
    requires
        vstd::utf8::valid_utf8(file_head() + host + raw),
        raw.len() > 0,
        raw[0] == 47,
        forall|i: int| 0 <= i < host.len() ==> host[i] != 47 && !bad_in_authority(#[trigger] host[i]),
    ensures
        ({
            let result = local_path(file_head() + host + raw, hostname);
            let here = host.len() == 0 || host == seq![108u8, 111, 99, 97, 108, 104, 111, 115, 116]
                || (hostname is Some && host == encode_utf8(hostname->0) && host.last() != 46);
            &&& here && decoded_path(raw) is Some ==> result == Ok::<Seq<u8>, CwdRejectReason>(
                decoded_path(raw)->0,
            )
            &&& here && decoded_path(raw) is None ==> result is Err && result->Err_0 is InvalidPath
            &&& !is_local(host, hostname) ==> result is Err && result->Err_0 is RemoteAuthority
        }),
{
    let uri = file_head() + host + raw;
    index_is(uri, 58, 4);
    assert(uri.take(4) =~= seq![102u8, 105, 108, 101]);
    let rest = uri.skip(7);
    assert(rest =~= host + raw);
    index_is(rest, 47, host.len() as int);
    assert(rest.take(host.len() as int) =~= host);
    assert(rest.skip(host.len() as int) =~= raw);
}

proof fn index_is(bytes: Seq<u8>, byte: u8, at: int)
    requires
        0 <= at < bytes.len(),
        bytes[at] == byte,
        forall|i: int| 0 <= i < at ==> #[trigger] bytes[i] != byte,
    ensures
        first_index(bytes, byte) == Some(at),
    decreases at,
{
    if at > 0 {
        let rest = bytes.skip(1);
        assert forall|i: int| 0 <= i < at - 1 implies #[trigger] rest[i] != byte by {
            assert(rest[i] == bytes[i + 1]);
        }
        index_is(rest, byte, at - 1);
        assert(bytes[0] != byte);
    }
}

/// The name of this machine is known in lower case and without a dot at its end, so that it is
/// recognised however it is written.
pub proof fn hosts_are_known_in_lower_case(raw: Seq<u8>, i: int)
    requires
        normalized_hostname(raw) is Some,
        0 <= i < normalized_hostname(raw)->0.len(),
    ensures
        ({
            let name = normalized_hostname(raw)->0;
            &&& !(65 <= name[i] as u32 <= 90)
            &&& 97 <= raw[i] <= 122 ==> name[i] as u32 == raw[i]
            &&& 65 <= raw[i] <= 90 ==> name[i] as u32 == raw[i] + 32
            &&& raw.last() == 46 ==> name.len() == raw.len() - 1
            &&& raw.last() != 46 ==> name.len() == raw.len()
        }),
{
    let name = without_final_dot(raw);
    assert(name[i] == raw[i]);
    assert(ascii_bytes(name));
}

} // verus!
