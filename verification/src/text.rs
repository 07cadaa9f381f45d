//! Building and reading text and byte strings.
use vstd::prelude::*;
use vstd::slice::slice_to_vec;
use vstd::utf8::{encode_utf8, is_scalar, valid_utf8};

verus! {

/// `String::push` appends one character.
pub assume_specification[ String::push ](s: &mut String, c: char)
    ensures
        final(s)@ == old(s)@.push(c),
;

/// `char::from_u32` gives the character with a code, if and only if the code is a Unicode scalar
/// value.
pub assume_specification[ core::char::from_u32 ](code: u32) -> (result: Option<char>)
    ensures
        result is Some <==> is_scalar(code),
        result is Some ==> result->0 as u32 == code,
;

/// The characters of a string.
pub fn chars_of(s: &str) -> (result: Vec<char>)
    ensures
        result@ == s@,
{
    let mut out: Vec<char> = Vec::new();
    for c in it: s.chars()
        invariant
            it.seq() == s@,
            out@ == s@.take(it.index() as int),
    {
        out.push(c);
    }
    out
}

/// The string of the given characters.
pub fn string_of(chars: &Vec<char>) -> (result: String)
    ensures
        result@ == chars@,
{
    let mut out: String = String::new();
    let mut i: usize = 0;
    while i < chars.len()
        invariant
            i <= chars.len(),
            out@ == chars@.take(i as int),
        decreases chars.len() - i,
    {
        out.push(chars[i]);
        i += 1;
        assert(chars@.take(i as int) =~= chars@.take(i - 1).push(chars@[i - 1]));
    }
    assert(chars@.take(i as int) =~= chars@);
    out
}

/// The UTF-8 encoding of one character.
pub fn char_bytes(c: char) -> (result: Vec<u8>)
    ensures
        result@ == encode_utf8(seq![c]),
{
    let mut s: String = String::new();
    s.push(c);
    assert(s@ =~= seq![c]);
    slice_to_vec(s.as_str().as_bytes())
}

/// The UTF-8 encoding of a string.
pub fn string_bytes(s: &str) -> (result: Vec<u8>)
    ensures
        result@ == encode_utf8(s@),
{
    slice_to_vec(s.as_bytes())
}

/// Appends a slice of bytes.
pub fn push_all(out: &mut Vec<u8>, more: &[u8])
    ensures
        final(out)@ == old(out)@ + more@,
{
    let mut i: usize = 0;
    while i < more.len()
        invariant
            i <= more@.len(),
            out@ == old(out)@ + more@.take(i as int),
        decreases more@.len() - i,
    {
        out.push(more[i]);
        i += 1;
        assert(more@.take(i as int) =~= more@.take(i - 1).push(more@[i - 1]));
        assert(out@ =~= old(out)@ + more@.take(i as int));
    }
    assert(more@.take(i as int) =~= more@);
}

/// Whether two byte strings are equal.
pub fn bytes_eq(a: &[u8], b: &[u8]) -> (result: bool)
    ensures
        result == (a@ == b@),
{
    if a.len() != b.len() {
        return false;
    }
    let mut i: usize = 0;
    while i < a.len()
        invariant
            i <= a@.len(),
            a@.len() == b@.len(),
            forall|k: int| 0 <= k < i ==> a@[k] == b@[k],
        decreases a@.len() - i,
    {
        if a[i] != b[i] {
            assert(a@[i as int] != b@[i as int]);
            return false;
        }
        i += 1;
    }
    assert(a@ =~= b@);
    true
}

/// The digits of `n` in base ten, as ASCII bytes, without leading zeros.
pub open spec fn decimal(n: nat) -> Seq<u8>
    decreases n,
{
    if n < 10 {
        seq![(48 + n) as u8]
    } else {
        decimal(n / 10).push((48 + n % 10) as u8)
    }
}

/// Appends the decimal digits of `n`.
pub fn push_decimal(out: &mut Vec<u8>, n: u64)
    ensures
        final(out)@ == old(out)@ + decimal(n as nat),
    decreases n,
{
    if n < 10 {
        out.push(48 + n as u8);
        assert(out@ =~= old(out)@ + decimal(n as nat));
    } else {
        push_decimal(out, n / 10);
        out.push(48 + (n % 10) as u8);
        assert(out@ =~= old(out)@ + decimal(n as nat));
    }
}

/// The number that a string of ASCII digits writes in base ten.
pub open spec fn decimal_value(digits: Seq<u8>) -> nat
    decreases digits.len(),
{
    if digits.len() == 0 {
        0
    } else {
        decimal_value(digits.drop_last()) * 10 + (digits.last() - 48) as nat
    }
}

/// Whether every byte is an ASCII digit.
pub open spec fn all_digits(bytes: Seq<u8>) -> bool {
    forall|i: int| 0 <= i < bytes.len() ==> 48 <= #[trigger] bytes[i] <= 57
}

/// Writing a number in base ten and reading it back gives the number.
pub proof fn decimal_reads_back(n: nat)
    ensures
        all_digits(decimal(n)),
        decimal(n).len() > 0,
        decimal_value(decimal(n)) == n,
    decreases n,
{
    if n < 10 {
        let d = decimal(n);
        assert(d.drop_last() =~= Seq::<u8>::empty());
        assert(decimal_value(d.drop_last()) == 0);
    } else {
        decimal_reads_back(n / 10);
        let d = decimal(n);
        assert(d.drop_last() =~= decimal(n / 10));
        assert forall|i: int| 0 <= i < d.len() implies 48 <= #[trigger] d[i] <= 57 by {
            if i < d.len() - 1 {
                assert(d[i] == decimal(n / 10)[i]);
            }
        }
    }
}

/// Whether a character is a control code: U+0000 to U+001F and U+007F to U+009F.
pub open spec fn is_control(c: char) -> bool {
    c as u32 <= 0x1f || 0x7f <= c as u32 <= 0x9f
}

/// Decides [`is_control`].
pub fn is_control_char(c: char) -> (result: bool)
    ensures
        result == is_control(c),
{
    let code: u32 = c as u32;
    code <= 0x1f || (0x7f <= code && code <= 0x9f)
}

/// The lower-case form of an ASCII byte; other bytes are kept.
pub open spec fn lower(b: u8) -> u8 {
    if 65 <= b <= 90 {
        (b + 32) as u8
    } else {
        b
    }
}

/// Computes [`lower`].
pub fn lower_byte(b: u8) -> (result: u8)
    ensures
        result == lower(b),
{
    if 65 <= b && b <= 90 {
        b + 32
    } else {
        b
    }
}

/// Whether two byte strings are equal up to ASCII case.
pub open spec fn same_ignoring_case(a: Seq<u8>, b: Seq<u8>) -> bool {
    a.map_values(|x: u8| lower(x)) == b.map_values(|x: u8| lower(x))
}

/// Decides [`same_ignoring_case`].
pub fn eq_ignore_case(a: &[u8], b: &[u8]) -> (result: bool)
    ensures
        result == same_ignoring_case(a@, b@),
{
    let ghost la = a@.map_values(|x: u8| lower(x));
    let ghost lb = b@.map_values(|x: u8| lower(x));
    if a.len() != b.len() {
        assert(la.len() != lb.len());
        return false;
    }
    let mut i: usize = 0;
    while i < a.len()
        invariant
            i <= a@.len(),
            a@.len() == b@.len(),
            la == a@.map_values(|x: u8| lower(x)),
            lb == b@.map_values(|x: u8| lower(x)),
            forall|k: int| 0 <= k < i ==> la[k] == lb[k],
        decreases a@.len() - i,
    {
        if lower_byte(a[i]) != lower_byte(b[i]) {
            assert(la[i as int] != lb[i as int]);
            return false;
        }
        i += 1;
    }
    assert(la =~= lb);
    true
}

/// `core::str::from_utf8`: the string that the bytes encode, if and only if they are valid UTF-8.
#[verifier::external_body]
pub(crate) fn utf8_str(bytes: &[u8]) -> (result: Option<&str>)
    ensures
        result is Some <==> valid_utf8(bytes@),
        result is Some ==> encode_utf8(result->0@) == bytes@,
{
    core::str::from_utf8(bytes).ok()
}

/// The index of the first occurrence of a byte.
pub open spec fn first_index(bytes: Seq<u8>, byte: u8) -> Option<int>
    decreases bytes.len(),
{
    if bytes.len() == 0 {
        None
    } else if bytes[0] == byte {
        Some(0)
    } else {
        match first_index(bytes.skip(1), byte) {
            Some(i) => Some(i + 1),
            None => None,
        }
    }
}

/// Computes [`first_index`].
pub fn position(bytes: &[u8], byte: u8) -> (result: Option<usize>)
    ensures
        match first_index(bytes@, byte) {
            Some(i) => result is Some && result->0 == i && 0 <= i < bytes@.len(),
            None => result is None,
        },
{
    let mut i: usize = 0;
    assert(bytes@.skip(0) =~= bytes@);
    while i < bytes.len()
        invariant
            i <= bytes@.len(),
            first_index(bytes@, byte) == match first_index(bytes@.skip(i as int), byte) {
                Some(k) => Some(k + i),
                None => None,
            },
        decreases bytes@.len() - i,
    {
        assert(bytes@.skip(i as int).skip(1) =~= bytes@.skip(i + 1));
        if bytes[i] == byte {
            return Some(i);
        }
        i += 1;
    }
    None
}

/// Every byte is an ASCII code.
pub open spec fn ascii_bytes(bytes: Seq<u8>) -> bool {
    forall|i: int| 0 <= i < bytes.len() ==> #[trigger] bytes[i] < 128
}

/// Decides [`ascii_bytes`].
pub fn is_ascii_slice(bytes: &[u8]) -> (result: bool)
    ensures
        result == ascii_bytes(bytes@),
{
    let mut i: usize = 0;
    while i < bytes.len()
        invariant
            i <= bytes@.len(),
            forall|k: int| 0 <= k < i ==> #[trigger] bytes@[k] < 128,
        decreases bytes@.len() - i,
    {
        if bytes[i] >= 128 {
            assert(bytes@[i as int] >= 128);
            return false;
        }
        i += 1;
    }
    true
}

/// Bytes without one final `.`, if there is one.
pub open spec fn without_final_dot(bytes: Seq<u8>) -> Seq<u8> {
    if bytes.len() > 0 && bytes.last() == 46 {
        bytes.drop_last()
    } else {
        bytes
    }
}

/// The encoding of two strings in turn is the encoding of the one after that of the other.
pub proof fn encode_concat(a: Seq<char>, b: Seq<char>)
    ensures
        encode_utf8(a + b) == encode_utf8(a) + encode_utf8(b),
    decreases a.len(),
{
    if a.len() == 0 {
        assert(a + b =~= b);
        assert(encode_utf8(a) + encode_utf8(b) =~= encode_utf8(b));
    } else {
        encode_concat(a.drop_first(), b);
        assert((a + b).drop_first() =~= a.drop_first() + b);
        assert(encode_utf8(a + b) =~= encode_utf8(a) + encode_utf8(b));
    }
}

/// The number of bytes that encode the first `i` characters of a string.
pub open spec fn byte_offset(text: Seq<char>, i: int) -> nat {
    encode_utf8(text.take(i)).len()
}

/// The length of one character's encoding.
pub fn utf8_len(c: char) -> (result: usize)
    ensures
        result == encode_utf8(seq![c]).len(),
        1 <= result <= 4,
{
    reveal_with_fuel(encode_utf8, 2);
    assert(seq![c].drop_first() =~= Seq::empty());
    let code: u32 = c as u32;
    if code < 0x80 {
        1
    } else if code < 0x800 {
        2
    } else if code < 0x10000 {
        3
    } else {
        4
    }
}

/// The next character starts right after the encoding of this one.
pub proof fn byte_offset_next(text: Seq<char>, i: int)
    requires
        0 <= i < text.len(),
    ensures
        byte_offset(text, i + 1) == byte_offset(text, i) + encode_utf8(seq![text[i]]).len(),
        encode_utf8(seq![text[i]]).len() >= 1,
{
    assert(text.take(i + 1) =~= text.take(i) + seq![text[i]]);
    encode_concat(text.take(i), seq![text[i]]);
    reveal_with_fuel(encode_utf8, 2);
}

/// Later characters have later offsets.
pub proof fn byte_offset_grows(text: Seq<char>, i: int, j: int)
    requires
        0 <= i < j <= text.len(),
    ensures
        byte_offset(text, i) < byte_offset(text, j),
    decreases j - i,
{
    byte_offset_next(text, j - 1);
    if i < j - 1 {
        byte_offset_grows(text, i, j - 1);
    }
}

/// The digits of `n` in base ten, without leading zeros.
pub open spec fn dec(n: nat) -> Seq<char>
    decreases n,
{
    if n < 10 {
        seq![(48 + n) as u8 as char]
    } else {
        dec(n / 10).push((48 + n % 10) as u8 as char)
    }
}

/// Appends the decimal digits of `n`.
pub fn push_dec(out: &mut String, n: u64)
    ensures
        final(out)@ == old(out)@ + dec(n as nat),
    decreases n,
{
    if n >= 10 {
        push_dec(out, n / 10);
    }
    out.push((48 + (n % 10) as u8) as char);
    assert(out@ =~= old(out)@ + dec(n as nat));
}

/// A hexadecimal digit.
pub open spec fn hex_digit(n: nat, upper: bool) -> char {
    if n < 10 {
        (48 + n) as u8 as char
    } else if upper {
        (55 + n) as u8 as char
    } else {
        (87 + n) as u8 as char
    }
}

/// The digits of `n` in base sixteen, with leading zeros up to a width.
pub open spec fn hex_padded(n: nat, width: nat, upper: bool) -> Seq<char>
    decreases n + width,
{
    if n < 16 && width <= 1 {
        seq![hex_digit(n, upper)]
    } else {
        hex_padded(
            n / 16,
            if width > 0 {
                (width - 1) as nat
            } else {
                0
            },
            upper,
        ).push(hex_digit(n % 16, upper))
    }
}

/// Appends the hexadecimal digits of `n`.
pub fn push_hex(out: &mut String, n: u64, width: u32, upper: bool)
    ensures
        final(out)@ == old(out)@ + hex_padded(n as nat, width as nat, upper),
    decreases n + width,
{
    if n >= 16 || width > 1 {
        push_hex(
            out,
            n / 16,
            if width > 0 {
                width - 1
            } else {
                0
            },
            upper,
        );
    }
    let d: u8 = (n % 16) as u8;
    let code: u8 = if d < 10 {
        48 + d
    } else if upper {
        55 + d
    } else {
        87 + d
    };
    out.push(code as char);
    assert(out@ =~= old(out)@ + hex_padded(n as nat, width as nat, upper));
}

/// The lower-case form of an ASCII letter; other characters are kept.
pub open spec fn lower_char(c: char) -> char {
    if 65 <= c as u32 <= 90 {
        (c as u32 + 32) as u8 as char
    } else {
        c
    }
}

/// Computes [`lower_char`].
pub fn to_lower(c: char) -> (result: char)
    ensures
        result == lower_char(c),
{
    let code: u32 = c as u32;
    if 65 <= code && code <= 90 {
        (code as u8 + 32) as char
    } else {
        c
    }
}

/// A text with its ASCII letters in lower case.
pub open spec fn lower_text(s: Seq<char>) -> Seq<char> {
    s.map_values(|c: char| lower_char(c))
}

/// Computes [`lower_text`].
pub fn lowered(s: &str) -> (result: String)
    ensures
        result@ == lower_text(s@),
{
    let chars = chars_of(s);
    let mut out: String = String::new();
    let mut i: usize = 0;
    while i < chars.len()
        invariant
            i <= chars@.len(),
            chars@ == s@,
            out@ == lower_text(s@).take(i as int),
        decreases chars@.len() - i,
    {
        out.push(to_lower(chars[i]));
        i += 1;
        assert(lower_text(s@).take(i as int) =~= lower_text(s@).take(i - 1).push(
            lower_text(s@)[i - 1],
        ));
    }
    assert(lower_text(s@).take(i as int) =~= lower_text(s@));
    out
}

/// Whether a string is the given text.
pub fn is_text(s: &String, text: &str) -> (result: bool)
    ensures
        result == (s@ == text@),
{
    *s == text.to_owned()
}

/// Whether every character is an ASCII digit.
pub open spec fn digit_chars(s: Seq<char>) -> bool {
    forall|i: int| 0 <= i < s.len() ==> 48 <= (#[trigger] s[i]) as u32 <= 57
}

/// The number that ASCII digits write in base ten.
pub open spec fn digits_value(s: Seq<char>) -> nat
    decreases s.len(),
{
    if s.len() == 0 {
        0
    } else {
        digits_value(s.drop_last()) * 10 + (s.last() as u32 - 48) as nat
    }
}

/// The digits of a number that may have a plus sign before it.
pub open spec fn unsigned(s: Seq<char>) -> Seq<char> {
    if s.len() > 0 && s[0] == '+' {
        s.skip(1)
    } else {
        s
    }
}

/// The number that a text writes: digits, with or without a plus sign before them.
pub open spec fn number_of(s: Seq<char>) -> Option<nat> {
    let digits = unsigned(s);
    if digits.len() > 0 && digit_chars(digits) {
        Some(digits_value(digits))
    } else {
        None
    }
}

proof fn digits_grow(s: Seq<char>, n: int)
    requires
        0 <= n <= s.len(),
    ensures
        digits_value(s.take(n)) <= digits_value(s),
    decreases s.len() - n,
{
    if n < s.len() {
        digits_grow(s, n + 1);
        assert(s.take(n + 1).drop_last() =~= s.take(n));
    } else {
        assert(s.take(n) =~= s);
    }
}

/// Reads a number that fits an `u64`.
pub fn parse_u64(s: &Vec<char>) -> (result: Option<u64>)
    ensures
        match number_of(s@) {
            Some(n) => result is Some <==> n <= u64::MAX,
            None => result is None,
        },
        result is Some ==> result->0 == number_of(s@)->0,
{
    let mut i: usize = 0;
    if s.len() > 0 && s[0] == '+' {
        i = 1;
    }
    let ghost digits = unsigned(s@);
    let ghost start = i as int;
    if i == s.len() {
        return None;
    }
    let mut value: u64 = 0;
    assert(digits.take(0) =~= Seq::empty());
    while i < s.len()
        invariant
            start <= i <= s@.len(),
            start == 0 || start == 1,
            digits == unsigned(s@),
            digits == s@.skip(start),
            digits.len() > 0,
            digit_chars(digits.take(i - start)),
            value == digits_value(digits.take(i - start)),
        decreases s@.len() - i,
    {
        let code: u32 = s[i] as u32;
        assert(digits[i - start] == s@[i as int]);
        if code < 48 || code > 57 {
            assert(!digit_chars(digits));
            return None;
        }
        proof {
            assert(digits.take(i + 1 - start).drop_last() =~= digits.take(i - start));
            digits_grow(digits, i + 1 - start);
        }
        match value.checked_mul(10) {
            Some(tens) => match tens.checked_add((code - 48) as u64) {
                Some(next) => {
                    value = next;
                },
                None => {
                    return None;
                },
            },
            None => {
                return None;
            },
        }
        i += 1;
    }
    assert(digits.take(i - start) =~= digits);
    Some(value)
}

/// Reads a number that fits an `u32`.
pub fn parse_u32(s: &Vec<char>) -> (result: Option<u32>)
    ensures
        match number_of(s@) {
            Some(n) => result is Some <==> n <= u32::MAX,
            None => result is None,
        },
        result is Some ==> result->0 == number_of(s@)->0,
{
    match parse_u64(s) {
        Some(n) => if n <= 0xffff_ffff {
            Some(n as u32)
        } else {
            None
        },
        None => None,
    }
}

/// Whether a character is white space, as Unicode has it.
pub open spec fn is_space(c: char) -> bool {
    let n = c as u32;
    9 <= n <= 13 || n == 0x20 || n == 0x85 || n == 0xa0 || n == 0x1680 || 0x2000 <= n <= 0x200a
        || n == 0x2028 || n == 0x2029 || n == 0x202f || n == 0x205f || n == 0x3000
}

/// Decides [`is_space`].
pub fn is_space_char(c: char) -> (result: bool)
    ensures
        result == is_space(c),
{
    let n: u32 = c as u32;
    (9 <= n && n <= 13) || n == 0x20 || n == 0x85 || n == 0xa0 || n == 0x1680 || (0x2000 <= n && n
        <= 0x200a) || n == 0x2028 || n == 0x2029 || n == 0x202f || n == 0x205f || n == 0x3000
}

/// A text without the white space at its start.
pub open spec fn trim_start(s: Seq<char>) -> Seq<char>
    decreases s.len(),
{
    if s.len() > 0 && is_space(s[0]) {
        trim_start(s.skip(1))
    } else {
        s
    }
}

/// A text without the white space at its end.
pub open spec fn trim_end(s: Seq<char>) -> Seq<char>
    decreases s.len(),
{
    if s.len() > 0 && is_space(s.last()) {
        trim_end(s.drop_last())
    } else {
        s
    }
}

/// A text without the white space around it.
pub open spec fn trimmed(s: Seq<char>) -> Seq<char> {
    trim_end(trim_start(s))
}

/// The characters of a text without the white space at its start.
pub fn drop_leading(s: &Vec<char>) -> (result: Vec<char>)
    ensures
        result@ == trim_start(s@),
{
    let mut i: usize = 0;
    assert(s@.skip(0) =~= s@);
    while i < s.len() && is_space_char(s[i])
        invariant
            i <= s@.len(),
            trim_start(s@) == trim_start(s@.skip(i as int)),
        decreases s@.len() - i,
    {
        assert(s@.skip(i as int).skip(1) =~= s@.skip(i + 1));
        i += 1;
    }
    let rest = vstd::slice::slice_subrange(s.as_slice(), i, s.len());
    assert(rest@ =~= s@.skip(i as int));
    vstd::slice::slice_to_vec(rest)
}

/// The characters of a text without the white space around it.
pub fn trim_chars(s: &Vec<char>) -> (result: Vec<char>)
    ensures
        result@ == trimmed(s@),
{
    let mut rest = drop_leading(s);
    let ghost start = rest@;
    let mut n: usize = rest.len();
    assert(start.take(n as int) =~= start);
    while n > 0 && is_space_char(rest[n - 1])
        invariant
            n <= rest@.len(),
            rest@ == start,
            trim_end(start) == trim_end(start.take(n as int)),
        decreases n,
    {
        assert(start.take(n as int).drop_last() =~= start.take(n - 1));
        n -= 1;
    }
    rest.truncate(n);
    assert(rest@ =~= start.take(n as int));
    rest
}

/// A line without a carriage return at its end.
pub open spec fn without_return(line: Seq<char>) -> Seq<char> {
    if line.len() > 0 && line.last() == '\r' {
        line.drop_last()
    } else {
        line
    }
}

/// The lines of a text that end in a newline, without their line ends.
pub open spec fn ended_lines(s: Seq<char>) -> Seq<Seq<char>>
    decreases s.len(),
{
    if s.len() == 0 {
        Seq::empty()
    } else {
        let before = ended_lines(s.drop_last());
        if s.last() == '\n' {
            before.push(without_return(open_line(s.drop_last())))
        } else {
            before
        }
    }
}

/// What follows the last newline of a text.
pub open spec fn open_line(s: Seq<char>) -> Seq<char>
    decreases s.len(),
{
    if s.len() == 0 {
        Seq::empty()
    } else if s.last() == '\n' {
        Seq::empty()
    } else {
        open_line(s.drop_last()).push(s.last())
    }
}

/// The lines of a text.
pub open spec fn lines_of(s: Seq<char>) -> Seq<Seq<char>> {
    if open_line(s).len() == 0 {
        ended_lines(s)
    } else {
        ended_lines(s).push(open_line(s))
    }
}

/// The lines of vectors of characters.
pub open spec fn texts_view(lines: Seq<Vec<char>>) -> Seq<Seq<char>> {
    lines.map_values(|v: Vec<char>| v@)
}

/// Splits a text into its lines.
pub fn split_lines(s: &Vec<char>) -> (result: Vec<Vec<char>>)
    ensures
        texts_view(result@) == lines_of(s@),
{
    let mut lines: Vec<Vec<char>> = Vec::new();
    let mut line: Vec<char> = Vec::new();
    let mut i: usize = 0;
    assert(s@.take(0) =~= Seq::empty());
    assert(texts_view(lines@) =~= Seq::empty());
    assert(line@ =~= Seq::empty());
    while i < s.len()
        invariant
            i <= s@.len(),
            texts_view(lines@) == ended_lines(s@.take(i as int)),
            line@ == open_line(s@.take(i as int)),
        decreases s@.len() - i,
    {
        let ghost done = lines@;
        let ghost here = line@;
        assert(s@.take(i + 1).drop_last() =~= s@.take(i as int));
        if s[i] == '\n' {
            let n: usize = line.len();
            if n > 0 && line[n - 1] == '\r' {
                line.truncate(n - 1);
                assert(line@ =~= here.drop_last());
            }
            lines.push(line);
            line = Vec::new();
            assert(texts_view(lines@) =~= texts_view(done).push(without_return(here)));
            assert(line@ =~= Seq::empty());
        } else {
            line.push(s[i]);
        }
        i += 1;
    }
    assert(s@.take(i as int) =~= s@);
    if line.len() > 0 {
        let ghost done = lines@;
        let ghost here = line@;
        lines.push(line);
        assert(texts_view(lines@) =~= texts_view(done).push(here));
    }
    lines
}

/// Whether a text starts with another.
pub open spec fn has_prefix(s: Seq<char>, prefix: Seq<char>) -> bool {
    prefix.len() <= s.len() && s.take(prefix.len() as int) == prefix
}

/// Decides [`has_prefix`].
pub fn starts_with(s: &Vec<char>, prefix: &str) -> (result: bool)
    ensures
        result == has_prefix(s@, prefix@),
{
    let wanted = chars_of(prefix);
    assert(s@.skip(0) =~= s@);
    matches_at(s, &wanted, 0)
}

fn matches_at(s: &Vec<char>, wanted: &Vec<char>, at: usize) -> (result: bool)
    requires
        at <= s@.len(),
    ensures
        result == has_prefix(s@.skip(at as int), wanted@),
{
    if wanted.len() > s.len() - at {
        return false;
    }
    let ghost rest = s@.skip(at as int);
    let all: usize = s.len();
    let mut i: usize = 0;
    while i < wanted.len()
        invariant
            all == s@.len(),
            i <= wanted@.len(),
            at + wanted@.len() <= s@.len(),
            rest == s@.skip(at as int),
            forall|k: int| 0 <= k < i ==> rest[k] == #[trigger] wanted@[k],
        decreases wanted@.len() - i,
    {
        if s[at + i] != wanted[i] {
            assert(rest.take(wanted@.len() as int)[i as int] != wanted@[i as int]);
            return false;
        }
        i += 1;
    }
    assert(rest.take(wanted@.len() as int) =~= wanted@);
    true
}

/// Whether a text occurs in another.
pub open spec fn occurs_in(s: Seq<char>, part: Seq<char>) -> bool {
    exists|i: int| 0 <= i <= s.len() && has_prefix(#[trigger] s.skip(i), part)
}

/// Decides [`occurs_in`].
pub fn has_part(s: &Vec<char>, part: &str) -> (result: bool)
    ensures
        result == occurs_in(s@, part@),
{
    let wanted = chars_of(part);
    let mut i: usize = 0;
    while i <= s.len()
        invariant
            i <= s@.len() + 1,
            wanted@ == part@,
            forall|k: int| 0 <= k < i ==> !has_prefix(#[trigger] s@.skip(k), part@),
        decreases s@.len() + 1 - i,
    {
        if matches_at(s, &wanted, i) {
            return true;
        }
        if i == s.len() {
            return false;
        }
        i += 1;
    }
    false
}

/// The text that bytes encode, with a replacement character for each part that is no UTF-8.
pub uninterp spec fn utf8_lossy(bytes: Seq<u8>) -> Seq<char>;

/// `String::from_utf8_lossy`: bytes that are UTF-8 give their text.
#[verifier::external_body]
pub(crate) fn lossy_text(bytes: &[u8]) -> (result: String)
    ensures
        result@ == utf8_lossy(bytes@),
        valid_utf8(bytes@) ==> encode_utf8(result@) == bytes@,
{
    String::from_utf8_lossy(bytes).into_owned()
}

} // verus!
