//! The measures of the trains and the arithmetic that places them: which
//! animation pattern a train shows at a column, which pose the people on
//! board take, and Rust's truncating division on which both rest.
use vstd::prelude::*;

verus! {

/// Rows of the D51 picture, not counting its blank last line.
pub const D51_HEIGHT: i32 = 10;

/// Column of the D51's funnel, from its left edge.
pub const D51_FUNNEL: i32 = 7;

/// How far left of the screen the D51 travels before it is gone.
pub const D51_LENGTH: i32 = 83;

/// Rows of the C51 picture, not counting its blank last line.
pub const C51_HEIGHT: i32 = 11;

/// Column of the C51's funnel, from its left edge.
pub const C51_FUNNEL: i32 = 7;

/// How far left of the screen the C51 travels before it is gone.
pub const C51_LENGTH: i32 = 87;

/// Rows of the small SL train, not counting its blank last line.
pub const LOGO_HEIGHT: i32 = 6;

/// Column of the small SL locomotive's funnel, from its left edge.
pub const LOGO_FUNNEL: i32 = 4;

/// How far left of the screen the small SL train travels before it is gone.
pub const LOGO_LENGTH: i32 = 84;

/// How many animation patterns each train's wheels go through.
pub const PATTERNS: usize = 6;

/// The value fits in an `i32`.
pub open spec fn fits_i32(v: int) -> bool {
    i32::MIN <= v <= i32::MAX
}

/// Division rounding toward zero, as Rust divides integers (for `b > 0`).
pub open spec fn trunc_div(a: int, b: int) -> int {
    if a >= 0 {
        a / b
    } else {
        -((-a) / b)
    }
}

/// The remainder that goes with `trunc_div`: it has the sign of `a`.
pub open spec fn trunc_rem(a: int, b: int) -> int {
    a - b * trunc_div(a, b)
}

/// The pose of a person on board whose measure (train length plus column)
/// is `n`: 0 quiet, 1 waving; -1 where the measure makes no pose.
pub open spec fn man_pose(n: int) -> int {
    trunc_rem(trunc_div(n, 12), 2)
}

/// The wheel pattern of the D51 whose left edge is at column `x`.
pub open spec fn d51_pattern(x: int) -> int {
    (D51_LENGTH + x) % (PATTERNS as int)
}

/// The wheel pattern of the C51 whose left edge is at column `x`.
pub open spec fn c51_pattern(x: int) -> int {
    (C51_LENGTH + x) % (PATTERNS as int)
}

/// The wheel pattern of the small SL train whose left edge is at column `x`:
/// it changes every third column.
pub open spec fn logo_pattern(x: int) -> int {
    ((LOGO_LENGTH + x) / 3) % (PATTERNS as int)
}

/// The top row of a train `height` rows high that flies: it climbs one row
/// every `step` columns it moves left.
pub open spec fn flying_top(x: int, rows: int, cols: int, step: int, height: int) -> int {
    trunc_div(x, step) + rows - trunc_div(cols, step) - height
}

/// The pose of a person on board, computed as the trains compute it.
pub fn man_pose_of(n: i32) -> (pose: i32)
    ensures
        pose == man_pose(n as int),
{
    n / 12 % 2
}

/// While a train is on its way, the wheels of the D51 and of the C51 show
/// one of the six patterns and come back to the same one every six columns;
/// those of the small SL train every eighteen columns.
pub proof fn lemma_wheel_patterns_cycle(x: int)
    ensures
        x >= -D51_LENGTH ==> 0 <= d51_pattern(x) < PATTERNS && d51_pattern(x + 6) == d51_pattern(
            x,
        ),
        x >= -C51_LENGTH ==> 0 <= c51_pattern(x) < PATTERNS && c51_pattern(x + 6) == c51_pattern(
            x,
        ),
        x >= -LOGO_LENGTH ==> 0 <= logo_pattern(x) < PATTERNS && logo_pattern(x + 18)
            == logo_pattern(x),
{
    assert(((LOGO_LENGTH + x + 18) / 3) == (LOGO_LENGTH + x) / 3 + 6);
}

/// Every measure above -12 selects a pose: the quiet one for the measures
/// from -11 to 11.
pub proof fn lemma_man_pose_defined(n: int)
    requires
        n > -12,
    ensures
        man_pose(n) == 0 || man_pose(n) == 1,
        -12 < n < 12 ==> man_pose(n) == 0,
{
    if n >= 0 {
        assert(n / 12 >= 0);
    }
}

/// A person on board whose measure is not negative keeps a pose for twelve
/// columns and then takes the other one.
pub proof fn lemma_man_pose_alternates(n: int)
    requires
        n >= 0,
    ensures
        man_pose(n) == 0 || man_pose(n) == 1,
        man_pose(n + 12) == 1 - man_pose(n),
{
    assert((n + 12) / 12 == n / 12 + 1);
}

} // verus!
