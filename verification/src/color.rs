//! Colours for drawing a population: one channel for each strategy.

use vstd::prelude::*;
use crate::strategy::Strategy;

verus! {

/// The colour `0x00RRGGBB` with the given channels.
pub open spec fn rgb(red: int, green: int, blue: int) -> int {
    red * 0x1_0000 + green * 0x100 + blue
}

/// The colour of a vertex that plays one strategy: its channel at full
/// strength and the other two dark. Rock is red, paper green, scissors blue.
pub open spec fn pure_color(strategy: Strategy) -> int {
    rgb(
        if strategy == Strategy::Rock {
            255
        } else {
            0
        },
        if strategy == Strategy::Paper {
            255
        } else {
            0
        },
        if strategy == Strategy::Scissors {
            255
        } else {
            0
        },
    )
}

/// Maps a strategy to its 32-bit colour.
pub fn strategy_to_color(strategy: Strategy) -> (color: u32)
    ensures
        color == pure_color(strategy),
{
    match strategy {
        Strategy::Rock => 0x00FF0000,
        Strategy::Paper => 0x0000FF00,
        Strategy::Scissors => 0x000000FF,
    }
}

/// Lays three channels side by side in one 32-bit colour. Channels of at most
/// 255 do not overlap, and the result is the colour they name.
pub fn pack_rgb(red: u32, green: u32, blue: u32) -> (color: u32)
    ensures
        color == (red << 16) | (green << 8) | blue,
        red <= 255 && green <= 255 && blue <= 255 ==> color == rgb(
            red as int,
            green as int,
            blue as int,
        ),
{
    assert(red <= 255 && green <= 255 && blue <= 255 ==> ((red << 16) | (green << 8) | blue) == red
        * 0x1_0000 + green * 0x100 + blue) by (bit_vector);
    (red << 16) | (green << 8) | blue
}

} // verus!
