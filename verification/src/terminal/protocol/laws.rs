//! What holds of the keyboard protocols that a program asks for.
use vstd::prelude::*;
use crate::terminal::snapshot::KittyKeyboardFlags;
use crate::text::{all_digits, decimal, decimal_value};
use super::{
    control_sequence, fields, parameters_of, run, set_flags, show_screen, ProtocolAudit, ScanModel,
    TrackerModel, MAX_KEYBOARD_STACK_DEPTH, MAX_SEQUENCE_BYTES,
};

verus! {

/// The state after a control sequence.
pub open spec fn sent(t: TrackerModel, body: Seq<u8>, last: u8) -> TrackerModel {
    control_sequence(t, ProtocolAudit::none(), body, last).tracker
}

/// Digits without a semicolon are one parameter.
proof fn digits_are_one_parameter(digits: Seq<u8>)
    requires
        digits.len() > 0,
        all_digits(digits),
        decimal_value(digits) <= u32::MAX,
    ensures
        parameters_of(digits) == Some(seq![Some(decimal_value(digits) as u32)]),
{
    no_semicolon_is_one_field(digits);
    let p = fields(digits).map_values(|f: Seq<u8>| super::field_value(f));
    assert(p =~= seq![Some(decimal_value(digits) as u32)]);
}

proof fn no_semicolon_is_one_field(bytes: Seq<u8>)
    requires
        all_digits(bytes),
    ensures
        fields(bytes) == seq![bytes],
    decreases bytes.len(),
{
    if bytes.len() > 0 {
        no_semicolon_is_one_field(bytes.drop_last());
        assert(bytes.drop_last().push(bytes.last()) =~= bytes);
        assert(fields(bytes) =~= seq![bytes]);
    } else {
        assert(bytes =~= Seq::empty());
        assert(fields(bytes) =~= seq![bytes]);
    }
}

/// `CSI = flags u` makes the flags those that are named, on the screen that is shown, and
/// `CSI ? u` tells them back.
pub proof fn flags_are_set_and_told(t: TrackerModel, digits: Seq<u8>, a: ProtocolAudit)
    requires
        digits.len() > 0,
        all_digits(digits),
        decimal_value(digits) < 32,
    ensures
        ({
            let n = sent(t, seq![61u8] + digits, 117u8);
            &&& n.state().kitty.bits == decimal_value(digits)
            &&& n.current().saved == t.current().saved
            &&& n.state().modify_other_keys == t.state().modify_other_keys
            &&& control_sequence(n, a, seq![63u8], 117u8).reply == Some(
                seq![0x1bu8, 91u8, 63u8] + decimal(decimal_value(digits)) + seq![117u8],
            )
            &&& control_sequence(n, a, seq![63u8], 117u8).tracker == n
        }),
{
    digits_are_one_parameter(digits);
    let body = seq![61u8] + digits;
    assert(body.skip(1) =~= digits);
    assert(body[0] == 61);
    assert(body != seq![63u8]);
    assert(seq![63u8] =~= seq![63u8]);
    let p = seq![Some(decimal_value(digits) as u32)];
    assert(parameters_of(body.skip(1)) == Some(p));
}

/// Flags that are added are set beside those that were, and flags that are taken away are not
/// set any more; no other flag changes.
pub proof fn flags_are_added_and_taken_away(t: TrackerModel, a: ProtocolAudit, value: u32, bit: u8)
    requires
        value < 32,
        bit < 8,
    ensures
        ({
            let old = t.current().active.bits;
            let more = set_flags(t, a, seq![Some(value), Some(2u32)]).0.current().active.bits;
            let less = set_flags(t, a, seq![Some(value), Some(3u32)]).0.current().active.bits;
            let flag = value as u8;
            &&& ((more >> bit) & 1 == 1) <==> ((old >> bit) & 1 == 1) || ((flag >> bit) & 1 == 1)
            &&& ((less >> bit) & 1 == 1) <==> ((old >> bit) & 1 == 1) && !((flag >> bit) & 1 == 1)
        }),
{
    let old = t.current().active.bits;
    let flag = value as u8;
    assert((((old | flag) >> bit) & 1u8 == 1) <==> ((old >> bit) & 1u8 == 1) || ((flag >> bit) & 1u8
        == 1)) by (bit_vector)
        requires
            bit < 8,
    ;
    assert((((old & !flag) >> bit) & 1u8 == 1) <==> ((old >> bit) & 1u8 == 1) && !((flag >> bit)
        & 1u8 == 1)) by (bit_vector)
        requires
            bit < 8,
    ;
}

/// `CSI > flags u` makes flags active, and `CSI < u` gives back those that were active before it,
/// as long as there is room to save them.
pub proof fn saved_flags_come_back(t: TrackerModel, digits: Seq<u8>)
    requires
        digits.len() > 0,
        all_digits(digits),
        decimal_value(digits) < 32,
        t.current().saved.len() < MAX_KEYBOARD_STACK_DEPTH,
    ensures
        sent(t, seq![62u8] + digits, 117u8).state().kitty.bits == decimal_value(digits),
        sent(sent(t, seq![62u8] + digits, 117u8), seq![60u8], 117u8) == t,
{
    digits_are_one_parameter(digits);
    let body = seq![62u8] + digits;
    assert(body.skip(1) =~= digits);
    assert(body[0] == 62);
    assert(body != seq![63u8]);
    assert(seq![60u8][0] != seq![63u8][0]);
    assert(seq![60u8].skip(1).len() == 0);
    let flags = KittyKeyboardFlags { bits: decimal_value(digits) as u8 };
    super::pop_undoes_push(t.current(), flags);
}

/// With all 16 places taken nothing more is saved, and flags beyond those that are known are not
/// taken.
pub proof fn limits_are_kept(t: TrackerModel, digits: Seq<u8>)
    requires
        digits.len() > 0,
        all_digits(digits),
        decimal_value(digits) <= u32::MAX,
        t.current().saved.len() == 16 || decimal_value(digits) >= 32,
    ensures
        sent(t, seq![62u8] + digits, 117u8) == t,
{
    digits_are_one_parameter(digits);
    let body = seq![62u8] + digits;
    assert(body.skip(1) =~= digits);
    assert(body[0] == 62);
    assert(body != seq![63u8]);
}

/// `CSI > 4 ; level m` sets the level of `modifyOtherKeys`, and `CSI ? 4 m` tells it back.
pub proof fn the_level_is_set_and_told(t: TrackerModel, level: u8, a: ProtocolAudit)
    requires
        level <= 2,
    ensures
        ({
            let n = sent(t, seq![62u8, 52u8, 59u8, (48u8 + level) as u8], 109u8);
            &&& control_sequence(n, a, seq![63u8, 52u8], 109u8).reply == Some(
                seq![0x1bu8, 91u8, 62u8, 52u8, 59u8] + decimal(level as nat) + seq![109u8],
            )
            &&& level == 0 ==> n.mok is Disabled
            &&& level == 1 ==> n.mok is ExceptWellDefined
            &&& level == 2 ==> n.mok is All
            &&& n.main == t.main && n.alt == t.alt && n.alternate == t.alternate
        }),
{
    let digit = (48u8 + level) as u8;
    let body = seq![62u8, 52u8, 59u8, digit];
    let rest = seq![52u8, 59u8, digit];
    assert(body.skip(1) =~= rest);
    assert(body[0] == 62);
    assert(body.len() == 4);
    let two = seq![52u8, 59u8];
    let one = seq![52u8];
    assert(rest.drop_last() =~= two);
    assert(two.drop_last() =~= one);
    assert(one.drop_last() =~= Seq::empty());
    assert(fields(one) =~= seq![one]) by {
        assert(fields(Seq::<u8>::empty()) =~= seq![Seq::empty()]);
        assert(Seq::<u8>::empty().push(52u8) =~= one);
    }
    assert(fields(two) =~= seq![one, Seq::empty()]);
    assert(Seq::<u8>::empty().push(digit) =~= seq![digit]);
    assert(fields(rest) =~= seq![one, seq![digit]]);
    one_digit(52u8);
    one_digit(digit);
    let p = fields(rest).map_values(|f: Seq<u8>| super::field_value(f));
    assert(p =~= seq![Some(4u32), Some(level as u32)]);
    assert(seq![63u8, 52u8] =~= seq![63u8, 52]);
}

proof fn one_digit(digit: u8)
    requires
        48 <= digit <= 57,
    ensures
        all_digits(seq![digit]),
        decimal_value(seq![digit]) == digit - 48,
{
    assert(seq![digit].drop_last() =~= Seq::<u8>::empty());
    assert(decimal_value(Seq::<u8>::empty()) == 0);
}

/// Each of the modes 47, 1047 and 1049 shows the other screen when it is set and the main screen
/// when it is reset. Another mode shows neither. What the screens hold stays.
pub proof fn screens_are_shown_by_their_modes(t: TrackerModel, mode: u32)
    ensures
        mode == 47 || mode == 1047 || mode == 1049 ==> {
            &&& show_screen(t, seq![Some(mode)], true).alternate
            &&& !show_screen(t, seq![Some(mode)], false).alternate
        },
        mode != 47 && mode != 1047 && mode != 1049 ==> {
            &&& show_screen(t, seq![Some(mode)], true) == t
            &&& show_screen(t, seq![Some(mode)], false) == t
        },
        show_screen(t, seq![Some(mode)], true).main == t.main,
        show_screen(t, seq![Some(mode)], true).alt == t.alt,
{
    let p = seq![Some(mode)];
    assert(p[0] is Some);
}

/// `CSI ? modes h` sets modes and `CSI ? modes l` resets them.
pub proof fn modes_are_set_and_reset(t: TrackerModel, digits: Seq<u8>)
    requires
        digits.len() > 0,
        all_digits(digits),
        decimal_value(digits) == 47 || decimal_value(digits) == 1047 || decimal_value(digits)
            == 1049,
    ensures
        sent(t, seq![63u8] + digits, 104u8).alternate,
        !sent(t, seq![63u8] + digits, 108u8).alternate,
        sent(sent(t, seq![63u8] + digits, 104u8), seq![63u8] + digits, 108u8) == (TrackerModel {
            alternate: false,
            ..t
        }),
{
    digits_are_one_parameter(digits);
    let body = seq![63u8] + digits;
    assert(body.skip(1) =~= digits);
    assert(body[0] == 63);
    screens_are_shown_by_their_modes(t, decimal_value(digits) as u32);
    screens_are_shown_by_their_modes(
        sent(t, seq![63u8] + digits, 104u8),
        decimal_value(digits) as u32,
    );
}

/// A control sequence takes effect with its last byte, wherever it stands in the output: before
/// that nothing changes.
pub proof fn a_sequence_takes_effect_with_its_last_byte(t: TrackerModel, body: Seq<u8>, last: u8)
    requires
        t.scan is Ground,
        body.len() <= MAX_SEQUENCE_BYTES,
        forall|i: int| 0 <= i < body.len() ==> !(0x40 <= #[trigger] body[i] <= 0x7e),
        0x40 <= last <= 0x7e,
    ensures
        run(t, seq![0x1bu8, 91u8] + body).tracker == t.at(ScanModel::Csi(body)),
        run(t, (seq![0x1bu8, 91u8] + body).push(last)).tracker == sent(t, body, last),
{
    let head = seq![0x1bu8, 91u8] + body;
    a_sequence_is_read(t, body);
    assert(head.push(last).drop_last() =~= head);
    assert(t.at(ScanModel::Csi(body)).at(ScanModel::Ground) == t);
}

proof fn a_sequence_is_read(t: TrackerModel, body: Seq<u8>)
    requires
        t.scan is Ground,
        body.len() <= MAX_SEQUENCE_BYTES,
        forall|i: int| 0 <= i < body.len() ==> !(0x40 <= #[trigger] body[i] <= 0x7e),
    ensures
        run(t, seq![0x1bu8, 91u8] + body).tracker == t.at(ScanModel::Csi(body)),
        run(t, seq![0x1bu8, 91u8] + body).audit == ProtocolAudit::none(),
    decreases body.len(),
{
    let head = seq![0x1bu8, 91u8] + body;
    if body.len() == 0 {
        assert(body =~= Seq::empty());
        assert(head =~= seq![0x1bu8, 91u8]);
        assert(head.drop_last() =~= seq![0x1bu8]);
        assert(head.drop_last().drop_last() =~= Seq::empty());
        reveal_with_fuel(run, 3);
    } else {
        a_sequence_is_read(t, body.drop_last());
        assert(head.drop_last() =~= seq![0x1bu8, 91u8] + body.drop_last());
        assert(head.last() == body.last());
        assert(body.drop_last().push(body.last()) =~= body);
    }
}

/// Text for the terminal itself, between its introducer and its end, says nothing about the
/// keyboard, whatever bytes it has.
pub proof fn other_strings_change_nothing(t: TrackerModel, kind: u8, text: Seq<u8>)
    requires
        t.scan is Ground,
        kind == 93u8 || kind == 80u8 || kind == 94u8 || kind == 95u8,
        forall|i: int|
            0 <= i < text.len() ==> #[trigger] text[i] != 7 && text[i] != 0x9c && text[i] != 0x1b,
    ensures
        run(t, seq![0x1bu8, kind] + text).tracker == t.at(ScanModel::Text),
        run(t, (seq![0x1bu8, kind] + text).push(7)).tracker == t,
        run(t, (seq![0x1bu8, kind] + text).push(7)).replies.len() == 0,
{
    let head = seq![0x1bu8, kind] + text;
    a_string_is_read(t, kind, text);
    assert(head.push(7).drop_last() =~= head);
    assert(head.push(7).last() == 7);
    assert(t.at(ScanModel::Text).at(ScanModel::Ground) == t);
}

proof fn a_string_is_read(t: TrackerModel, kind: u8, text: Seq<u8>)
    requires
        t.scan is Ground,
        kind == 93 || kind == 80 || kind == 94 || kind == 95,
        forall|i: int|
            0 <= i < text.len() ==> #[trigger] text[i] != 7 && text[i] != 0x9c && text[i] != 0x1b,
    ensures
        run(t, seq![0x1bu8, kind] + text).tracker == t.at(ScanModel::Text),
        run(t, seq![0x1bu8, kind] + text).replies.len() == 0,
    decreases text.len(),
{
    let head = seq![0x1bu8, kind] + text;
    if text.len() == 0 {
        assert(head =~= seq![0x1bu8, kind]);
        assert(head.drop_last() =~= seq![0x1bu8]);
        assert(head.drop_last().drop_last() =~= Seq::empty());
        reveal_with_fuel(run, 3);
    } else {
        a_string_is_read(t, kind, text.drop_last());
        assert(head.drop_last() =~= seq![0x1bu8, kind] + text.drop_last());
        assert(head.last() == text.last());
        assert(text.last() == text[text.len() - 1]);
    }
}

} // verus!
