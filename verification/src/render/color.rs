//! Terminal colors.

use crate::text;
use owo_colors::OwoColorize;
use vstd::prelude::*;

verus! {

/// How many colors the palette has.
pub const PALETTE_LEN: u8 = 8;

/// Red, green and blue of a palette slot; slots beyond the palette start over.
pub open spec fn palette_color(slot: u8) -> (u8, u8, u8) {
    let i = slot % PALETTE_LEN;
    if i == 0 {
        (255, 99, 71)
    } else if i == 1 {
        (60, 179, 113)
    } else if i == 2 {
        (100, 149, 237)
    } else if i == 3 {
        (218, 112, 214)
    } else if i == 4 {
        (255, 165, 0)
    } else if i == 5 {
        (123, 104, 238)
    } else if i == 6 {
        (32, 178, 170)
    } else {
        (255, 192, 203)
    }
}

/// Red, green and blue of a palette slot.
pub fn color_of_slot(slot: u8) -> (color: (u8, u8, u8))
    ensures
        color == palette_color(slot),
{
    match slot % PALETTE_LEN {
        0 => (255, 99, 71),
        1 => (60, 179, 113),
        2 => (100, 149, 237),
        3 => (218, 112, 214),
        4 => (255, 165, 0),
        5 => (123, 104, 238),
        6 => (32, 178, 170),
        _ => (255, 192, 203),
    }
}

/// The escape sequence that starts a foreground color.
pub open spec fn color_start(color: (u8, u8, u8)) -> Seq<char> {
    "\x1b[38;2;"@ + text::decimal(color.0 as nat) + ";"@ + text::decimal(color.1 as nat) + ";"@
        + text::decimal(color.2 as nat) + "m"@
}

/// The escape sequence that goes back to the default foreground color.
pub open spec fn color_end() -> Seq<char> {
    "\x1b[39m"@
}

/// A text in a foreground color.
pub open spec fn in_color(shown: Seq<char>, color: (u8, u8, u8)) -> Seq<char> {
    color_start(color) + shown + color_end()
}

/// `owo_colors::OwoColorize::truecolor` shows a text between the escape sequences of a foreground
/// color.
#[verifier::external_body]
fn truecolor(shown: &str, r: u8, g: u8, b: u8) -> (colored: String)
    ensures
        colored@ == in_color(shown@, (r, g, b)),
{
    shown.truecolor(r, g, b).to_string()
}

/// A text in the color of a palette slot, where there is one and colors are on.
pub open spec fn colored(shown: Seq<char>, slot: Option<u8>, enabled: bool) -> Seq<char> {
    match slot {
        Some(i) if enabled => in_color(shown, palette_color(i)),
        _ => shown,
    }
}

/// A text in the color of a palette slot, where there is one and colors are on.
pub fn colorize(shown: &str, slot: Option<u8>, enabled: bool) -> (out: String)
    ensures
        out@ == colored(shown@, slot, enabled),
{
    if !enabled {
        return shown.to_owned();
    }
    match slot {
        None => shown.to_owned(),
        Some(i) => {
            let color = color_of_slot(i);
            truecolor(shown, color.0, color.1, color.2)
        },
    }
}

/// The escape sequences around emphasized text.
pub open spec fn emphasis_start() -> Seq<char> {
    "\x1b[1m\x1b[31m"@
}

pub open spec fn emphasis_end() -> Seq<char> {
    "\x1b[39m\x1b[0m"@
}

/// `owo_colors::OwoColorize::red` and `bold` show a text between the escape sequences of bold and
/// of red.
#[verifier::external_body]
pub(crate) fn emphasize(shown: &str) -> (emphasized: String)
    ensures
        emphasized@ == emphasis_start() + shown@ + emphasis_end(),
{
    shown.red().bold().to_string()
}

/// The palette starts over after eight slots, and the eight have different colors.
pub proof fn law_palette_starts_over(a: u8, b: u8)
    ensures
        palette_color(a) == palette_color((a % 8) as u8),
        palette_color(a) == palette_color(b) <==> a % 8 == b % 8,
{
}

/// Tomato, sea green, cornflower blue, orchid, orange, slate blue, light sea green and pink follow
/// each other.
pub proof fn law_palette_in_order(slot: u8)
    ensures
        slot % 8 == 0 ==> palette_color(slot) == (255u8, 99u8, 71u8),
        slot % 8 == 1 ==> palette_color(slot) == (60u8, 179u8, 113u8),
        slot % 8 == 2 ==> palette_color(slot) == (100u8, 149u8, 237u8),
        slot % 8 == 3 ==> palette_color(slot) == (218u8, 112u8, 214u8),
        slot % 8 == 4 ==> palette_color(slot) == (255u8, 165u8, 0u8),
        slot % 8 == 5 ==> palette_color(slot) == (123u8, 104u8, 238u8),
        slot % 8 == 6 ==> palette_color(slot) == (32u8, 178u8, 170u8),
        slot % 8 == 7 ==> palette_color(slot) == (255u8, 192u8, 203u8),
{
}

/// A text is colored only where there is a slot and colors are on; it then stands whole between what
/// starts the color of the slot and what goes back to the default.
pub proof fn law_color_goes_around_the_text(shown: Seq<char>, slot: Option<u8>, enabled: bool)
    ensures
        !enabled || slot is None ==> colored(shown, slot, enabled) == shown,
        slot matches Some(i) ==> enabled ==> colored(shown, slot, enabled) == color_start(
            palette_color(i),
        ) + shown + "\x1b[39m"@,
{
}

} // verus!
