//! Which color a cell has.
use vstd::prelude::*;
use crate::config::{ColorsConfig, ColorsModel, CursorStyle};
use crate::terminal::snapshot::TerminalColor;

verus! {

/// A color of full opacity from its parts.
pub open spec fn opaque(r: u8, g: u8, b: u8) -> u32 {
    (r * 0x100_0000 + g * 0x1_0000 + b * 0x100 + 255) as u32
}

fn opaque_color(r: u8, g: u8, b: u8) -> (result: u32)
    ensures
        result == opaque(r, g, b),
{
    r as u32 * 0x100_0000 + g as u32 * 0x1_0000 + b as u32 * 0x100 + 255
}

/// A step of the color cube.
pub open spec fn cube_step(part: int) -> u8 {
    if part == 0 {
        0
    } else {
        (55 + part * 40) as u8
    }
}

/// The color with a number: the sixteen named ones, a cube of six steps each way, and a ramp of
/// grays.
pub open spec fn indexed_color(index: u8, colors: ColorsModel) -> u32 {
    if index < 16 {
        colors.ansi[index as int].0
    } else if index < 232 {
        let value = index - 16;
        opaque(cube_step(value / 36), cube_step(value / 6 % 6), cube_step(value % 6))
    } else {
        let gray = (8 + (index - 232) * 10) as u8;
        opaque(gray, gray, gray)
    }
}

fn component(part: u8) -> (result: u8)
    requires
        part <= 5,
    ensures
        result == cube_step(part as int),
{
    if part == 0 {
        0
    } else {
        55 + part * 40
    }
}

/// The color with a number.
pub fn indexed(index: u8, colors: &ColorsConfig) -> (result: u32)
    ensures
        result == indexed_color(index, colors@),
{
    if index < 16 {
        return colors.ansi[index as usize].0;
    }
    if index < 232 {
        let value: u8 = index - 16;
        return opaque_color(component(value / 36), component(value / 6 % 6), component(value % 6));
    }
    let gray: u8 = 8 + (index - 232) * 10;
    opaque_color(gray, gray, gray)
}

/// The color that a cell asks for, or a given one where it asks for none that is known.
pub open spec fn resolved(color: TerminalColor, default: u32, colors: ColorsModel) -> u32 {
    match color {
        TerminalColor::Rgb(r, g, b) => opaque(r, g, b),
        TerminalColor::Indexed(index) => indexed_color(index, colors),
        TerminalColor::Named(index) => if index < 16 {
            colors.ansi[index as int].0
        } else if index == 256 {
            colors.foreground.0
        } else if index == 257 {
            colors.background.0
        } else if index == 258 {
            colors.cursor.0
        } else {
            default
        },
    }
}

/// The color that a cell asks for.
pub fn resolve_color(color: TerminalColor, default: u32, colors: &ColorsConfig) -> (result: u32)
    ensures
        result == resolved(color, default, colors@),
{
    match color {
        TerminalColor::Rgb(r, g, b) => opaque_color(r, g, b),
        TerminalColor::Indexed(index) => indexed(index, colors),
        TerminalColor::Named(index) => if index < 16 {
            colors.ansi[index as usize].0
        } else if index == 256 {
            colors.foreground.0
        } else if index == 257 {
            colors.background.0
        } else if index == 258 {
            colors.cursor.0
        } else {
            default
        },
    }
}

/// The colors of the text and of the ground of a cell.
pub fn resolve_cell_colors(
    foreground: TerminalColor,
    background: TerminalColor,
    colors: &ColorsConfig,
) -> (result: (u32, u32))
    ensures
        result.0 == resolved(foreground, colors.foreground.0, colors@),
        result.1 == resolved(background, colors.background.0, colors@),
{
    (
        resolve_color(foreground, colors.foreground.0, colors),
        resolve_color(background, colors.background.0, colors),
    )
}

/// The color of the text of a cell: under a block cursor, that of its ground.
pub open spec fn text_color(
    foreground: u32,
    background: u32,
    style: CursorStyle,
    is_cursor_cell: bool,
) -> u32 {
    if is_cursor_cell && style is Block {
        background
    } else {
        foreground
    }
}

/// The color of the text of a cell.
pub fn cursor_glyph_color(
    foreground: u32,
    background: u32,
    cursor_style: CursorStyle,
    is_cursor_cell: bool,
) -> (result: u32)
    ensures
        result == text_color(foreground, background, cursor_style, is_cursor_cell),
{
    if is_cursor_cell && cursor_style == CursorStyle::Block {
        background
    } else {
        foreground
    }
}

/// A part of a color with half its light. Light is halved as the eye counts it, so that above the
/// darkest shades the part becomes `c * (part + 14.025) - 14.025`, rounded, with `c` the
/// 2.4th root of one half; the darkest shades are halved as they are.
pub open spec fn half_light(part: u8) -> u8 {
    if part <= 15 {
        ((part + 1) / 2) as u8
    } else if part == 16 {
        9
    } else {
        ((749_153_538 * part - 3_518_121_623 + 500_000_000) / 1_000_000_000) as u8
    }
}

fn dim_part(part: u8) -> (result: u8)
    ensures
        result == half_light(part),
{
    if part <= 15 {
        (part + 1) / 2
    } else if part == 16 {
        9
    } else {
        ((749_153_538 * part as u64 - 3_518_121_623 + 500_000_000) / 1_000_000_000) as u8
    }
}

/// A part of a color, counted from the highest byte.
pub open spec fn part_of(color: u32, shift: int) -> u8 {
    (if shift == 0 {
        color / 0x100_0000
    } else if shift == 1 {
        color / 0x1_0000 % 256
    } else if shift == 2 {
        color / 0x100 % 256
    } else {
        color % 256
    }) as u8
}

/// A color with half its light and the same opacity.
pub open spec fn dimmed(color: u32) -> u32 {
    (half_light(part_of(color, 0)) * 0x100_0000 + half_light(part_of(color, 1)) * 0x1_0000
        + half_light(part_of(color, 2)) * 0x100 + part_of(color, 3)) as u32
}

/// A color with half its light.
pub fn dim(color: u32) -> (result: u32)
    ensures
        result == dimmed(color),
{
    let r: u8 = (color / 0x100_0000) as u8;
    let g: u8 = (color / 0x1_0000 % 256) as u8;
    let b: u8 = (color / 0x100 % 256) as u8;
    let a: u8 = (color % 256) as u8;
    dim_part(r) as u32 * 0x100_0000 + dim_part(g) as u32 * 0x1_0000 + dim_part(b) as u32 * 0x100
        + a as u32
}

/// Half the light is never more than before, grows with it, and is more than half the number that
/// stands for it.
pub proof fn half_light_is_in_between(part: u8, brighter: u8)
    requires
        part <= brighter,
    ensures
        half_light(part) <= part,
        half_light(part) <= half_light(brighter),
        2 * half_light(part) >= part,
{
}

/// Dimming keeps the opacity of a color.
pub proof fn dimming_keeps_opacity(color: u32)
    ensures
        part_of(dimmed(color), 3) == part_of(color, 3),
        part_of(dimmed(color), 0) == half_light(part_of(color, 0)),
{
    let r = half_light(part_of(color, 0)) as int;
    let g = half_light(part_of(color, 1)) as int;
    let b = half_light(part_of(color, 2)) as int;
    let a = part_of(color, 3) as int;
    assert(r * 0x100_0000 + g * 0x1_0000 + b * 0x100 + a <= u32::MAX);
}

/// A color that is asked for by its parts is shown as it is.
pub proof fn direct_colors_are_exact(r: u8, g: u8, b: u8, default: u32, colors: ColorsModel)
    ensures
        ({
            let color = resolved(TerminalColor::Rgb(r, g, b), default, colors);
            &&& part_of(color, 0) == r
            &&& part_of(color, 1) == g
            &&& part_of(color, 2) == b
            &&& part_of(color, 3) == 255
        }),
{
}

/// Dimming takes light from red, green and blue, each on its own, and leaves the opacity as it is.
pub proof fn each_part_is_dimmed_on_its_own(r: u8, g: u8, b: u8, a: u8)
    ensures
        dimmed((r * 0x100_0000 + g * 0x1_0000 + b * 0x100 + a) as u32) == half_light(r)
            * 0x100_0000 + half_light(g) * 0x1_0000 + half_light(b) * 0x100 + a,
{
    let color = (r * 0x100_0000 + g * 0x1_0000 + b * 0x100 + a) as u32;
    assert(part_of(color, 0) == r);
    assert(part_of(color, 1) == g);
    assert(part_of(color, 2) == b);
    assert(part_of(color, 3) == a);
}

/// A dimmed part is never brighter than it was, and of two parts the brighter one stays the
/// brighter. Black stays black, and white becomes the gray that gives half its light.
pub proof fn dimming_keeps_the_order_of_light(dark: u8, bright: u8)
    requires
        dark <= bright,
    ensures
        half_light(dark) <= half_light(bright),
        half_light(dark) <= dark,
        half_light(0) == 0,
        half_light(255) == 188,
        half_light(128) == 92,
{
}

/// The text under a block cursor has the color of its ground, and any other text its own.
pub proof fn a_block_cursor_turns_its_text_around(foreground: u32, background: u32, style: CursorStyle)
    ensures
        text_color(foreground, background, style, false) == foreground,
        style is Block ==> text_color(foreground, background, style, true) == background,
        !(style is Block) ==> text_color(foreground, background, style, true) == foreground,
{
}

} // verus!
