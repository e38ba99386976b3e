//! The engine's stated laws: proofs that the geometry specifications have
//! the shapes the library promises, beyond what each method's own contract
//! already pins down.

use vstd::prelude::*;
use crate::command::Command;
use crate::command::CommandKind;
use crate::engine::ellipse_xy;
use crate::engine::lemma_lerp_endpoints;
use crate::engine::line_cmds;
use crate::engine::rect_cmds;
use crate::engine::rect_cmds_upto;
use crate::engine::rect_row_cmds;
use crate::fixed::SCALE;
use crate::fixed::clamp64;
use crate::fixed::div_trunc;
use crate::fixed::lemma_div_trunc_mul_cancel;
use crate::fixed::lemma_turn_quarters;
use crate::fixed::turn_cos;
use crate::fixed::turn_sin;
use vstd::arithmetic::div_mod::lemma_small_mod;

verus! {

/// A single-sample interpolation emits exactly one move, to the
/// destination, whatever the start: `lineTo` with one point is a jump.
pub proof fn lemma_line_single(x0: i64, y0: i64, x: i64, y: i64, label: Option<String>)
    ensures
        line_cmds(x0, y0, x, y, 1, label) == seq![
            (Command { kind: CommandKind::Move { x, y }, label }),
        ],
{
}

/// Each scanned row holds one move per column, and the whole raster holds
/// one row after another: sample `r * ncols + c` of the grid is sample `c`
/// of row `r`.
pub proof fn lemma_rect_index(
    x0: i64,
    y0: i64,
    x1: i64,
    y1: i64,
    nrows: int,
    ncols: int,
    boustro: bool,
    upto: int,
    r: int,
    c: int,
    label: Option<String>,
)
    requires
        0 <= ncols,
        0 <= r < upto,
        0 <= c < ncols,
    ensures
        rect_cmds_upto(x0, y0, x1, y1, nrows, ncols, boustro, upto, label).len() == upto * ncols,
        rect_cmds_upto(x0, y0, x1, y1, nrows, ncols, boustro, upto, label)[r * ncols + c]
            == rect_row_cmds(x0, y0, x1, y1, nrows, ncols, boustro, r, label)[c],
    decreases upto,
{
    let prev = rect_cmds_upto(x0, y0, x1, y1, nrows, ncols, boustro, upto - 1, label);
    let row = rect_row_cmds(x0, y0, x1, y1, nrows, ncols, boustro, upto - 1, label);
    if upto - 1 > 0 {
        lemma_rect_index(x0, y0, x1, y1, nrows, ncols, boustro, upto - 1, 0, c, label);
    } else {
        assert(prev.len() == 0);
        assert((upto - 1) * ncols == 0) by (nonlinear_arith)
            requires
                upto - 1 == 0,
        ;
    }
    assert(prev.len() == (upto - 1) * ncols);
    assert((upto - 1) * ncols + ncols == upto * ncols) by (nonlinear_arith);
    if r == upto - 1 {
        assert(r * ncols + c >= prev.len()) by (nonlinear_arith)
            requires
                prev.len() == r * ncols,
                c >= 0,
        ;
        assert(rect_cmds_upto(x0, y0, x1, y1, nrows, ncols, boustro, upto, label)[r * ncols + c]
            == row[r * ncols + c - prev.len()]);
        assert(r * ncols + c - r * ncols == c);
    } else {
        lemma_rect_index(x0, y0, x1, y1, nrows, ncols, boustro, upto - 1, r, c, label);
        assert(r * ncols + c < prev.len()) by (nonlinear_arith)
            requires
                prev.len() == (upto - 1) * ncols,
                r <= upto - 2,
                0 <= c < ncols,
                0 <= r,
                0 <= ncols,
        ;
    }
}

/// In boustrophedon mode an odd row runs its columns exactly in the reverse
/// of the order a plain raster would use.
pub proof fn lemma_rect_row_reversal(
    x0: i64,
    y0: i64,
    x1: i64,
    y1: i64,
    nrows: int,
    ncols: int,
    r: int,
    label: Option<String>,
)
    requires
        r % 2 == 1,
    ensures
        forall|c: int|
            0 <= c < ncols ==> #[trigger] rect_row_cmds(
                x0,
                y0,
                x1,
                y1,
                nrows,
                ncols,
                true,
                r,
                label,
            )[c] == rect_row_cmds(x0, y0, x1, y1, nrows, ncols, false, r, label)[ncols - 1 - c],
{
}

/// A raster of at least two rows and two columns passes through all four
/// corners of the box: the first row starts at `(x0, y0)` and ends at
/// `(x1, y0)`, and the last row touches `y1` at both `x0` and `x1`, in the
/// order its scan direction dictates.
pub proof fn lemma_rect_corners(
    x0: i64,
    y0: i64,
    x1: i64,
    y1: i64,
    nrows: int,
    ncols: int,
    boustro: bool,
    label: Option<String>,
)
    requires
        2 <= nrows,
        2 <= ncols,
    ensures
        rect_cmds(x0, y0, x1, y1, nrows, ncols, boustro, label).len() == nrows * ncols,
        rect_cmds(x0, y0, x1, y1, nrows, ncols, boustro, label)[0] == (Command {
            kind: CommandKind::Move { x: x0, y: y0 },
            label,
        }),
        rect_cmds(x0, y0, x1, y1, nrows, ncols, boustro, label)[ncols - 1] == (Command {
            kind: CommandKind::Move { x: x1, y: y0 },
            label,
        }),
        !(boustro && (nrows - 1) % 2 == 1) ==> rect_cmds(
            x0,
            y0,
            x1,
            y1,
            nrows,
            ncols,
            boustro,
            label,
        )[(nrows - 1) * ncols] == (Command { kind: CommandKind::Move { x: x0, y: y1 }, label }),
        boustro && (nrows - 1) % 2 == 1 ==> rect_cmds(
            x0,
            y0,
            x1,
            y1,
            nrows,
            ncols,
            boustro,
            label,
        )[(nrows - 1) * ncols] == (Command { kind: CommandKind::Move { x: x1, y: y1 }, label }),
{
    lemma_lerp_endpoints(x0, x1, ncols);
    lemma_lerp_endpoints(y0, y1, nrows);
    lemma_rect_index(x0, y0, x1, y1, nrows, ncols, boustro, nrows, 0, 0, label);
    lemma_rect_index(x0, y0, x1, y1, nrows, ncols, boustro, nrows, 0, ncols - 1, label);
    lemma_rect_index(x0, y0, x1, y1, nrows, ncols, boustro, nrows, nrows - 1, 0, label);
    assert(0 * ncols + 0 == 0) by (nonlinear_arith);
    assert(0 * ncols + (ncols - 1) == ncols - 1) by (nonlinear_arith);
    assert(0int % 2 == 0);
}

/// Four samples of an unrotated single-turn ellipse land exactly on the
/// cardinal points: the radii to the right, above, to the left and below
/// the centre, in that order.
pub proof fn lemma_ellipse_cardinal_points(x0: i64, y0: i64, rx: i64, ry: i64)
    ensures
        ellipse_xy(x0, y0, rx, ry, 0, SCALE, 4, 0) == (clamp64(x0 + rx) as i64, y0),
        ellipse_xy(x0, y0, rx, ry, 0, SCALE, 4, 1) == (x0, clamp64(y0 + ry) as i64),
        ellipse_xy(x0, y0, rx, ry, 0, SCALE, 4, 2) == (clamp64(x0 - rx) as i64, y0),
        ellipse_xy(x0, y0, rx, ry, 0, SCALE, 4, 3) == (x0, clamp64(y0 - ry) as i64),
{
    let s = SCALE as int;
    let den = 4 * s;
    lemma_small_mod(0nat, (360 * s) as nat);
    lemma_turn_quarters(0, 360 * s);
    assert(turn_cos(0, 360 * s) == s);
    assert(turn_sin(0, 360 * s) == 0);
    lemma_div_trunc_mul_cancel(rx as int, s);
    lemma_div_trunc_mul_cancel(-(rx as int), s);
    lemma_div_trunc_mul_cancel(ry as int, s);
    lemma_div_trunc_mul_cancel(-(ry as int), s);
    lemma_div_trunc_mul_cancel(0, s);
    assert(0 * s == 0) by (nonlinear_arith);
    assert(0 <= s < den && 0 <= 2 * s < den && 0 <= 3 * s < den) by (nonlinear_arith)
        requires
            s == 1_000_000,
            den == 4 * s,
    ;
    lemma_small_mod(0nat, den as nat);
    lemma_small_mod(s as nat, den as nat);
    lemma_small_mod((2 * s) as nat, den as nat);
    lemma_small_mod((3 * s) as nat, den as nat);
    assert(s * 0 == 0 && s * 1 == s && s * 2 == 2 * s && s * 3 == 3 * s) by (nonlinear_arith);
    lemma_turn_quarters(0, den);
    lemma_turn_quarters(s, den);
    lemma_turn_quarters(2 * s, den);
    lemma_turn_quarters(3 * s, den);
    assert(4 * (s % den) == den) by {
        assert(0 <= s < den) by (nonlinear_arith)
            requires
                s == 1_000_000,
                den == 4 * s,
        ;
        lemma_small_mod(s as nat, den as nat);
    }
    assert(4 * ((2 * s) % den) == 2 * den) by (nonlinear_arith)
        requires
            (2 * s) % den == 2 * s,
            den == 4 * s,
    ;
    assert(4 * ((3 * s) % den) == 3 * den) by (nonlinear_arith)
        requires
            (3 * s) % den == 3 * s,
            den == 4 * s,
    ;
    assert(turn_cos(0, den) == s && turn_sin(0, den) == 0) by {
        lemma_small_mod(0nat, den as nat);
    }
    assert(turn_cos(s, den) == 0 && turn_sin(s, den) == s);
    assert(turn_cos(2 * s, den) == -s && turn_sin(2 * s, den) == 0);
    assert(turn_cos(3 * s, den) == 0 && turn_sin(3 * s, den) == -s);
    assert(rx as int * -s == -(rx as int) * s && ry as int * -s == -(ry as int) * s)
        by (nonlinear_arith);
    assert(rx as int * 0 == 0 && ry as int * 0 == 0) by (nonlinear_arith);
    assert(SCALE as int * 0 == 0) by (nonlinear_arith);
    assert(SCALE as int * 1 == s && SCALE as int * 2 == 2 * s && SCALE as int * 3 == 3 * s)
        by (nonlinear_arith)
        requires
            s == SCALE as int,
    ;
    assert(ellipse_xy(x0, y0, rx, ry, 0, SCALE, 4, 0) == (clamp64(x0 + rx) as i64, y0)) by {
        assert(div_trunc(rx as int * s - 0 * 0, s) == rx as int) by {
            assert(rx as int * s - 0 * 0 == rx as int * s) by (nonlinear_arith);
        }
        assert(div_trunc(rx as int * 0 + 0 * s, s) == 0) by {
            assert(rx as int * 0 + 0 * s == 0 * s) by (nonlinear_arith);
        }
        assert(clamp64(y0 + 0) == y0 as int);
    }
    assert(ellipse_xy(x0, y0, rx, ry, 0, SCALE, 4, 1) == (x0, clamp64(y0 + ry) as i64)) by {
        assert(div_trunc(0 * s - ry as int * 0, s) == 0) by {
            assert(0 * s - ry as int * 0 == 0 * s) by (nonlinear_arith);
        }
        assert(div_trunc(0 * 0 + ry as int * s, s) == ry as int) by {
            assert(0 * 0 + ry as int * s == ry as int * s) by (nonlinear_arith);
        }
        assert(clamp64(x0 + 0) == x0 as int);
    }
    assert(ellipse_xy(x0, y0, rx, ry, 0, SCALE, 4, 2) == (clamp64(x0 - rx) as i64, y0)) by {
        assert(div_trunc(-(rx as int) * s - 0 * 0, s) == -(rx as int)) by {
            assert(-(rx as int) * s - 0 * 0 == -(rx as int) * s) by (nonlinear_arith);
        }
        assert(div_trunc(-(rx as int) * 0 + 0 * s, s) == 0) by {
            assert(-(rx as int) * 0 + 0 * s == 0 * s) by (nonlinear_arith);
        }
        assert(clamp64(y0 + 0) == y0 as int);
    }
    assert(ellipse_xy(x0, y0, rx, ry, 0, SCALE, 4, 3) == (x0, clamp64(y0 - ry) as i64)) by {
        assert(div_trunc(0 * s - (-(ry as int)) * 0, s) == 0) by {
            assert(0 * s - (-(ry as int)) * 0 == 0 * s) by (nonlinear_arith);
        }
        assert(div_trunc(0 * 0 + (-(ry as int)) * s, s) == -(ry as int)) by {
            assert(0 * 0 + (-(ry as int)) * s == -(ry as int) * s) by (nonlinear_arith);
        }
        assert(clamp64(x0 + 0) == x0 as int);
    }
}

} // verus!
