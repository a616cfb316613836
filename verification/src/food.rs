//! Food, and the cells where it appears.

use vstd::prelude::*;
use crate::grid::{ARENA_HEIGHT, ARENA_WIDTH, Position};

verus! {

/// One piece of food lying on the grid.
#[derive(Clone, Copy, Debug, PartialEq, Eq, Structural)]
pub struct Food {
    pub position: Position,
}

/// The number of values that one random draw can take.
pub const DRAWS: u64 = 0x1_0000_0000;

/// Maps a draw onto `0..extent` by scaling: the draws are cut into `extent`
/// runs of the same length, up to rounding, and the value is the number of
/// the run that holds `draw`.
pub open spec fn scaled(draw: u32, extent: u32) -> int {
    (draw * extent) / (DRAWS as int)
}

/// The cell that two draws select: the first gives the column and the second
/// the row.
pub open spec fn drawn_position(draw_x: u32, draw_y: u32) -> Position {
    Position { x: scaled(draw_x, ARENA_WIDTH) as i32, y: scaled(draw_y, ARENA_HEIGHT) as i32 }
}

/// A scaled draw is never negative and lies below the extent.
pub proof fn lemma_scaled_bounds(draw: u32, extent: u32)
    ensures
        0 <= scaled(draw, extent),
        extent > 0 ==> scaled(draw, extent) < extent,
        extent == 0 ==> scaled(draw, extent) == 0,
        draw * extent <= u64::MAX,
{
    let product = draw * extent;
    let draws = DRAWS as int;
    assert(0 <= product <= 0xffff_ffff * extent) by (nonlinear_arith)
        requires
            product == draw * extent,
            0 <= draw <= 0xffff_ffff,
            0 <= extent,
    ;
    assert(0xffff_ffff * extent <= 0xffff_ffff * 0xffff_ffff) by (nonlinear_arith)
        requires
            0 <= extent <= 0xffff_ffff,
    ;
    vstd::arithmetic::div_mod::lemma_div_pos_is_pos(product, draws);
    if extent > 0 {
        assert(product < extent * draws) by (nonlinear_arith)
            requires
                product <= 0xffff_ffff * extent,
                extent > 0,
                draws == 0x1_0000_0000,
        ;
        vstd::arithmetic::div_mod::lemma_div_by_multiple_is_strongly_ordered(
            product,
            extent * draws,
            extent as int,
            draws,
        );
        vstd::arithmetic::div_mod::lemma_div_by_multiple(extent as int, draws);
    } else {
        assert(product == 0) by (nonlinear_arith)
            requires
                product == draw * extent,
                extent == 0,
        ;
    }
}

/// Every drawn position lies inside the arena.
pub proof fn lemma_drawn_position_in_arena(draw_x: u32, draw_y: u32)
    ensures
        drawn_position(draw_x, draw_y).in_arena(),
{
    lemma_scaled_bounds(draw_x, ARENA_WIDTH);
    lemma_scaled_bounds(draw_y, ARENA_HEIGHT);
}

/// Scales a draw onto `0..extent`.
pub fn cell_from_draw(draw: u32, extent: u32) -> (cell: u32)
    ensures
        cell == scaled(draw, extent),
        extent > 0 ==> cell < extent,
{
    proof {
        lemma_scaled_bounds(draw, extent);
    }
    let product: u64 = (draw as u64) * (extent as u64);
    (product / DRAWS) as u32
}

/// The cell of the arena that two draws select.
pub fn position_from_draws(draw_x: u32, draw_y: u32) -> (position: Position)
    ensures
        position == drawn_position(draw_x, draw_y),
        position.in_arena(),
{
    proof {
        lemma_scaled_bounds(draw_x, ARENA_WIDTH);
        lemma_scaled_bounds(draw_y, ARENA_HEIGHT);
    }
    Position {
        x: cell_from_draw(draw_x, ARENA_WIDTH) as i32,
        y: cell_from_draw(draw_y, ARENA_HEIGHT) as i32,
    }
}

/// One draw of `rand::random::<u32>()`, which takes the next 32 bits of the
/// thread's generator. Nothing is claimed of the value: what the library
/// does with it is verified for every `u32`.
#[verifier::external_body]
pub(crate) fn random_draw() -> (draw: u32) {
    rand::random::<u32>()
}

} // verus!
