//! Which addresses may be opened on the desktop.
use vstd::prelude::*;
use vstd::utf8::encode_utf8;
use crate::security::MAX_URI_BYTES;
use crate::text::{
    chars_of, is_control, is_control_char, is_text, lower_text, lowered, string_of,
};

verus! {

#[derive(Clone, Copy, Debug, PartialEq, Eq, Structural)]
pub enum DesktopError {
    InvalidUri,
    DisallowedScheme,
    QueueFull,
    WorkerStopped,
}

impl DesktopError {
    pub fn message(&self) -> (result: &'static str)
        ensures
            result@ == match *self {
                DesktopError::InvalidUri => "URI is not a bounded absolute URI"@,
                DesktopError::DisallowedScheme => "URI scheme is not allowed"@,
                DesktopError::QueueFull => "desktop opener queue is full"@,
                DesktopError::WorkerStopped => "desktop opener worker has stopped"@,
            },
    {
        match self {
            DesktopError::InvalidUri => "URI is not a bounded absolute URI",
            DesktopError::DisallowedScheme => "URI scheme is not allowed",
            DesktopError::QueueFull => "desktop opener queue is full",
            DesktopError::WorkerStopped => "desktop opener worker has stopped",
        }
    }
}

/// What the queue of the opener answered when it was given an address.
#[derive(Clone, Copy, Debug, PartialEq, Eq, Structural)]
pub enum QueueAnswer {
    Taken,
    Full,
    Stopped,
}

/// The first colon.
pub open spec fn first_colon(uri: Seq<char>) -> Option<int>
    decreases uri.len(),
{
    if uri.len() == 0 {
        None
    } else if uri[0] == ':' {
        Some(0)
    } else {
        match first_colon(uri.skip(1)) {
            Some(i) => Some(i + 1),
            None => None,
        }
    }
}

pub open spec fn is_letter(c: char) -> bool {
    65 <= c as u32 <= 90 || 97 <= c as u32 <= 122
}

/// Whether a character may stand in a scheme: a letter, and after the first place also a digit or
/// one of `+`, `-` and `.`.
pub open spec fn in_scheme(c: char, first: bool) -> bool {
    is_letter(c) || (!first && (48 <= c as u32 <= 57 || c == '+' || c == '-' || c == '.'))
}

/// Whether an address can be opened: it is a bounded URI of an allowed scheme.
pub open spec fn uri_error(uri: Seq<char>) -> Option<DesktopError> {
    if uri.len() == 0 || encode_utf8(uri).len() > MAX_URI_BYTES || (exists|i: int|
        0 <= i < uri.len() && is_control(#[trigger] uri[i])) {
        Some(DesktopError::InvalidUri)
    } else {
        match first_colon(uri) {
            None => Some(DesktopError::InvalidUri),
            Some(colon) => {
                let scheme = uri.take(colon);
                if colon + 1 == uri.len() || (exists|i: int|
                    0 <= i < scheme.len() && !in_scheme(#[trigger] scheme[i], i == 0)) {
                    Some(DesktopError::InvalidUri)
                } else if lower_text(scheme) == "http"@ || lower_text(scheme) == "https"@
                    || lower_text(scheme) == "mailto"@ {
                    None
                } else {
                    Some(DesktopError::DisallowedScheme)
                }
            },
        }
    }
}

fn any_control(chars: &Vec<char>) -> (result: bool)
    ensures
        result == exists|i: int| 0 <= i < chars@.len() && is_control(#[trigger] chars@[i]),
{
    let mut i: usize = 0;
    while i < chars.len()
        invariant
            i <= chars@.len(),
            forall|k: int| 0 <= k < i ==> !is_control(#[trigger] chars@[k]),
        decreases chars@.len() - i,
    {
        if is_control_char(chars[i]) {
            assert(is_control(chars@[i as int]));
            return true;
        }
        i += 1;
    }
    false
}

fn find_colon(chars: &Vec<char>) -> (result: Option<usize>)
    ensures
        match first_colon(chars@) {
            Some(i) => result is Some && result->0 == i && 0 <= i < chars@.len(),
            None => result is None,
        },
{
    let mut i: usize = 0;
    assert(chars@.skip(0) =~= chars@);
    while i < chars.len()
        invariant
            i <= chars@.len(),
            first_colon(chars@) == match first_colon(chars@.skip(i as int)) {
                Some(k) => Some(k + i),
                None => None,
            },
        decreases chars@.len() - i,
    {
        assert(chars@.skip(i as int).skip(1) =~= chars@.skip(i + 1));
        if chars[i] == ':' {
            return Some(i);
        }
        i += 1;
    }
    None
}

fn scheme_is_plain(scheme: &Vec<char>) -> (result: bool)
    ensures
        result == !exists|i: int|
            0 <= i < scheme@.len() && !in_scheme(#[trigger] scheme@[i], i == 0),
{
    let mut i: usize = 0;
    while i < scheme.len()
        invariant
            i <= scheme@.len(),
            forall|k: int| 0 <= k < i ==> in_scheme(#[trigger] scheme@[k], k == 0),
        decreases scheme@.len() - i,
    {
        let c = scheme[i];
        let code: u32 = c as u32;
        let letter = (65 <= code && code <= 90) || (97 <= code && code <= 122);
        if !(letter || (i != 0 && ((48 <= code && code <= 57) || c == '+' || c == '-' || c == '.'))) {
            assert(!in_scheme(scheme@[i as int], i == 0));
            return false;
        }
        i += 1;
    }
    true
}

/// What became of an address that was to be opened: one that is not let through is refused, whatever
/// the queue answered.
pub fn open_result(uri: &str, answer: QueueAnswer) -> (result: Result<(), DesktopError>)
    ensures
        result == match (uri_error(uri@), answer) {
            (Some(error), _) => Err::<(), DesktopError>(error),
            (None, QueueAnswer::Taken) => Ok(()),
            (None, QueueAnswer::Full) => Err(DesktopError::QueueFull),
            (None, QueueAnswer::Stopped) => Err(DesktopError::WorkerStopped),
        },
{
    match validate_uri(uri) {
        Ok(_) => match answer {
            QueueAnswer::Taken => Ok(()),
            QueueAnswer::Full => Err(DesktopError::QueueFull),
            QueueAnswer::Stopped => Err(DesktopError::WorkerStopped),
        },
        Err(error) => Err(error),
    }
}

/// Lets an address through that can be opened.
pub fn validate_uri(uri: &str) -> (result: Result<&str, DesktopError>)
    ensures
        match uri_error(uri@) {
            None => result is Ok && result->Ok_0@ == uri@,
            Some(error) => result is Err && result->Err_0 == error,
        },
{
    let chars = chars_of(uri);
    if chars.len() == 0 || uri.as_bytes().len() > MAX_URI_BYTES || any_control(&chars) {
        return Err(DesktopError::InvalidUri);
    }
    let colon: usize = match find_colon(&chars) {
        Some(colon) => colon,
        None => {
            return Err(DesktopError::InvalidUri);
        },
    };
    let last = colon + 1 == chars.len();
    let mut scheme = chars;
    scheme.truncate(colon);
    assert(scheme@ =~= uri@.take(colon as int));
    if last || !scheme_is_plain(&scheme) {
        return Err(DesktopError::InvalidUri);
    }
    let name = lowered(string_of(&scheme).as_str());
    if is_text(&name, "http") || is_text(&name, "https") || is_text(&name, "mailto") {
        Ok(uri)
    } else {
        Err(DesktopError::DisallowedScheme)
    }
}

/// An address that can be opened starts with one of the three allowed schemes, in any case, and a
/// colon, and holds no control character.
pub proof fn only_allowed_schemes_pass(uri: Seq<char>)
    requires
        uri_error(uri) is None,
    ensures
        exists|colon: int|
            {
                let scheme = #[trigger] uri.take(colon);
                &&& 0 <= colon < uri.len() - 1
                &&& uri[colon] == ':'
                &&& lower_text(scheme) == "http"@ || lower_text(scheme) == "https"@ || lower_text(
                    scheme,
                ) == "mailto"@
            },
        forall|i: int| 0 <= i < uri.len() ==> !is_control(#[trigger] uri[i]),
{
    let colon = first_colon(uri)->0;
    colon_is_there(uri);
    let scheme = uri.take(colon);
    assert(uri[colon] == ':');
}

proof fn colon_is_there(uri: Seq<char>)
    ensures
        first_colon(uri) is Some ==> 0 <= first_colon(uri)->0 < uri.len() && uri[first_colon(
            uri,
        )->0] == ':',
    decreases uri.len(),
{
    if uri.len() > 0 {
        colon_is_there(uri.skip(1));
    }
}

/// An address of one of the three schemes passes as it is written, in either case, if something
/// follows the colon and it is neither too long nor holds a control. Another scheme does not.
pub proof fn addresses_pass_by_their_scheme(scheme: Seq<char>, rest: Seq<char>)
    requires
        rest.len() > 0,
        scheme.len() > 0,
        forall|i: int| 0 <= i < scheme.len() ==> is_letter(#[trigger] scheme[i]),
        forall|i: int| 0 <= i < rest.len() ==> !is_control(#[trigger] rest[i]),
        encode_utf8(scheme + seq![':'] + rest).len() <= 4_096,
    ensures
        ({
            let error = uri_error(scheme + seq![':'] + rest);
            &&& lower_text(scheme) == "http"@ || lower_text(scheme) == "https"@ || lower_text(scheme)
                == "mailto"@ ==> error is None
            &&& lower_text(scheme) != "http"@ && lower_text(scheme) != "https"@ && lower_text(scheme)
                != "mailto"@ ==> error == Some(DesktopError::DisallowedScheme)
        }),
{
    let uri = scheme + seq![':'] + rest;
    let n = scheme.len() as int;
    colon_is(uri, n);
    assert(uri.take(n) =~= scheme);
    assert forall|i: int| 0 <= i < uri.len() implies !is_control(#[trigger] uri[i]) by {
        if i < n {
            assert(is_letter(scheme[i]));
        } else if i > n {
            assert(uri[i] == rest[i - n - 1]);
        }
    }
    assert(forall|i: int| 0 <= i < scheme.len() ==> in_scheme(#[trigger] scheme[i], i == 0));
}

proof fn colon_is(uri: Seq<char>, at: int)
    requires
        0 <= at < uri.len(),
        uri[at] == ':',
        forall|i: int| 0 <= i < at ==> #[trigger] uri[i] != ':',
    ensures
        first_colon(uri) == Some(at),
    decreases at,
{
    if at > 0 {
        let rest = uri.skip(1);
        assert forall|i: int| 0 <= i < at - 1 implies #[trigger] rest[i] != ':' by {
            assert(rest[i] == uri[i + 1]);
        }
        colon_is(rest, at - 1);
        assert(uri[0] != ':');
    }
}

} // verus!
