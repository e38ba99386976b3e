//! The command sequencer and the geometry synthesizer.
//!
//! An `Engine` owns the cursor, the measurement-window state and the output
//! command stream of one run.  Every emitting method states exactly which
//! commands it appends, so the stream is a mathematical function of the
//! calls made on the engine.

use vstd::prelude::*;
use crate::command::Command;
use crate::command::CommandKind;
use crate::command::measure_scan;
use crate::command::lemma_measure_scan_push;
use crate::command::clone_label;
use crate::value::EngineError;
use crate::fixed::SCALE;
use crate::fixed::MAX_TURN_DEN;
use crate::fixed::clamp64;
use crate::fixed::abs_int;
use crate::fixed::div_trunc;
use crate::fixed::div_trunc_i128;
use crate::fixed::sat_narrow;
use crate::fixed::turn_cos;
use crate::fixed::turn_sin;
use crate::fixed::turn_cos_fp;
use crate::fixed::turn_sin_fp;
use vstd::arithmetic::div_mod::lemma_div_multiples_vanish;
use vstd::arithmetic::div_mod::lemma_div_of0;

verus! {

/// The largest point or grid count one shape call may expand to.  Counts are
/// validated against this bound instead of allowing a malformed script an
/// unbounded allocation.
pub const MAX_COUNT: i64 = 16_777_216;

/// Linear interpolation between `a` and `b` over `n` samples: sample `k`
/// sits at parameter `k / (n - 1)`, so sample `n - 1` is exactly `b`.  With
/// fewer than two samples the single sample is the destination itself.
pub open spec fn lerp(a: i64, b: i64, k: int, n: int) -> i64 {
    if n <= 1 {
        b
    } else {
        clamp64(a + div_trunc((b - a) * k, n - 1)) as i64
    }
}

/// Executable interpolation.
pub fn lerp_fp(a: i64, b: i64, k: i64, n: i64) -> (r: i64)
    requires
        n <= 1 || 0 <= k < n,
        n <= MAX_COUNT,
    ensures
        r == lerp(a, b, k as int, n as int),
{
    if n <= 1 {
        b
    } else {
        let d = (b as i128) - (a as i128);
        proof {
            assert(abs_int(d as int * k as int) <= 0x1_0000_0000_0000_0000 * 0x100_0000)
                by (nonlinear_arith)
                requires
                    abs_int(d as int) <= 0x1_0000_0000_0000_0000,
                    0 <= k as int <= 0x100_0000,
            ;
        }
        let m = d * (k as i128);
        let q = div_trunc_i128(m, (n - 1) as i128);
        sat_narrow((a as i128) + q)
    }
}

/// The first sample of a proper interpolation is the start and the last is
/// the destination, so every interpolated segment includes both endpoints
/// exactly.
pub proof fn lemma_lerp_endpoints(a: i64, b: i64, n: int)
    requires
        2 <= n,
    ensures
        lerp(a, b, 0, n) == a,
        lerp(a, b, n - 1, n) == b,
{
    lemma_div_of0(n - 1);
    assert((b - a) * 0 == 0) by (nonlinear_arith);
    assert(div_trunc(0, n - 1) == 0);
    assert(lerp(a, b, 0, n) == a);
    let d = b - a;
    lemma_div_multiples_vanish(abs_int(d), n - 1);
    assert(abs_int(d * (n - 1)) == abs_int(d) * (n - 1)) by (nonlinear_arith)
        requires
            n - 1 > 0,
    ;
    assert(((n - 1) * abs_int(d)) / (n - 1) == abs_int(d));
    assert(abs_int(d) * (n - 1) == (n - 1) * abs_int(d)) by (nonlinear_arith);
    if d == 0 {
        assert(d * (n - 1) == 0) by (nonlinear_arith)
            requires
                d == 0,
        ;
    } else if d > 0 {
        assert(d * (n - 1) > 0) by (nonlinear_arith)
            requires
                d > 0,
                n - 1 > 0,
        ;
    } else {
        assert(d * (n - 1) < 0) by (nonlinear_arith)
            requires
                d < 0,
                n - 1 > 0,
        ;
    }
    assert(div_trunc(d * (n - 1), n - 1) == d);
}

/// The commands of one interpolated segment from `(x0, y0)` to `(x1, y1)`.
pub open spec fn line_cmds(
    x0: i64,
    y0: i64,
    x1: i64,
    y1: i64,
    n: int,
    label: Option<String>,
) -> Seq<Command> {
    if n < 2 {
        seq![(Command { kind: CommandKind::Move { x: x1, y: y1 }, label })]
    } else {
        Seq::new(
            n as nat,
            |k: int|
                (Command {
                    kind: CommandKind::Move { x: lerp(x0, x1, k, n), y: lerp(y0, y1, k, n) },
                    label,
                }),
        )
    }
}

/// The commands of one row of a raster scan.  In boustrophedon mode odd
/// rows run their columns in reverse.
pub open spec fn rect_row_cmds(
    x0: i64,
    y0: i64,
    x1: i64,
    y1: i64,
    nrows: int,
    ncols: int,
    boustro: bool,
    r: int,
    label: Option<String>,
) -> Seq<Command> {
    Seq::new(
        ncols as nat,
        |c: int|
            {
                let cc = if boustro && r % 2 == 1 {
                    ncols - 1 - c
                } else {
                    c
                };
                (Command {
                    kind: CommandKind::Move { x: lerp(x0, x1, cc, ncols), y: lerp(y0, y1, r, nrows) },
                    label,
                })
            },
    )
}

/// The commands of the first `r` rows of a raster scan, in row-major order.
pub open spec fn rect_cmds_upto(
    x0: i64,
    y0: i64,
    x1: i64,
    y1: i64,
    nrows: int,
    ncols: int,
    boustro: bool,
    r: int,
    label: Option<String>,
) -> Seq<Command>
    decreases r,
{
    if r <= 0 {
        Seq::empty()
    } else {
        rect_cmds_upto(x0, y0, x1, y1, nrows, ncols, boustro, r - 1, label) + rect_row_cmds(
            x0,
            y0,
            x1,
            y1,
            nrows,
            ncols,
            boustro,
            r - 1,
            label,
        )
    }
}

/// The position of the last sample of a raster scan: the last row's final
/// column, which in boustrophedon mode depends on that row's direction.
pub open spec fn rect_last_xy(
    x0: i64,
    y0: i64,
    x1: i64,
    y1: i64,
    nrows: int,
    ncols: int,
    boustro: bool,
) -> (i64, i64) {
    let r = nrows - 1;
    let cc = if boustro && r % 2 == 1 {
        0
    } else {
        ncols - 1
    };
    (lerp(x0, x1, cc, ncols), lerp(y0, y1, r, nrows))
}

/// The commands of a whole raster scan of the box.
pub open spec fn rect_cmds(
    x0: i64,
    y0: i64,
    x1: i64,
    y1: i64,
    nrows: int,
    ncols: int,
    boustro: bool,
    label: Option<String>,
) -> Seq<Command> {
    rect_cmds_upto(x0, y0, x1, y1, nrows, ncols, boustro, nrows, label)
}

/// Sample `k` of a rotated ellipse path: the unrotated point
/// `(rx cos t, ry sin t)` at turn fraction `k * nturns / npts`, rotated by
/// `angle_fp` degrees and translated to the centre.
pub open spec fn ellipse_xy(
    x0: i64,
    y0: i64,
    rx: i64,
    ry: i64,
    angle_fp: i64,
    nturns_fp: i64,
    npts: int,
    k: int,
) -> (i64, i64) {
    let den = npts * (SCALE as int);
    let c = turn_cos(nturns_fp as int * k, den);
    let s = turn_sin(nturns_fp as int * k, den);
    let ca = turn_cos(angle_fp as int, 360 * (SCALE as int));
    let sa = turn_sin(angle_fp as int, 360 * (SCALE as int));
    let ux = div_trunc(rx as int * c, SCALE as int);
    let uy = div_trunc(ry as int * s, SCALE as int);
    let px = clamp64(x0 + div_trunc(ux * ca - uy * sa, SCALE as int)) as i64;
    let py = clamp64(y0 + div_trunc(ux * sa + uy * ca, SCALE as int)) as i64;
    (px, py)
}

/// The move commands of a sampled ellipse.
pub open spec fn ellipse_cmds(
    x0: i64,
    y0: i64,
    rx: i64,
    ry: i64,
    angle_fp: i64,
    nturns_fp: i64,
    npts: int,
    label: Option<String>,
) -> Seq<Command> {
    Seq::new(
        npts as nat,
        |k: int|
            {
                let p = ellipse_xy(x0, y0, rx, ry, angle_fp, nturns_fp, npts, k);
                (Command { kind: CommandKind::Move { x: p.0, y: p.1 }, label })
            },
    )
}

/// The run state of one program execution.
#[derive(Debug)]
pub struct Engine {
    /// The current device position, once a motion call has placed it.
    pub cursor: Option<(i64, i64)>,
    /// Whether a measurement window is open.
    pub measuring: bool,
    /// The ordered command stream produced so far.
    pub out: Vec<Command>,
}

impl Engine {
    /// The stream always agrees with the tracked window state: it brackets
    /// its windows legally, and leaves one open exactly when `measuring`.
    pub open spec fn inv(&self) -> bool {
        measure_scan(self.out@) == Some(self.measuring)
    }

    /// A fresh engine: no cursor, no open window, empty stream.
    pub fn new() -> (r: Engine)
        ensures
            r.inv(),
            r.out@.len() == 0,
            r.cursor is None,
            !r.measuring,
    {
        Engine { cursor: None, measuring: false, out: Vec::new() }
    }

    /// Append one command, leaving cursor and window state alone.
    fn emit(&mut self, kind: CommandKind, label: &Option<String>)
        ensures
            final(self).out@ == old(self).out@.push((Command { kind, label: *label })),
            final(self).cursor == old(self).cursor,
            final(self).measuring == old(self).measuring,
    {
        let lab = clone_label(label);
        self.out.push(Command { kind, label: lab });
    }

    /// `moveTo`: one unconditional move, repositioning the cursor.
    pub fn move_to(&mut self, x: i64, y: i64, label: &Option<String>)
        requires
            old(self).inv(),
        ensures
            final(self).inv(),
            final(self).out@ == old(self).out@.push(
                (Command { kind: CommandKind::Move { x, y }, label: *label }),
            ),
            final(self).cursor == Some((x, y)),
            final(self).measuring == old(self).measuring,
    {
        self.cursor = Some((x, y));
        self.emit(CommandKind::Move { x, y }, label);
        proof {
            lemma_measure_scan_push(
                old(self).out@,
                (Command { kind: CommandKind::Move { x, y }, label: *label }),
            );
        }
    }

    /// `waitUsec`: a timing directive appended to the stream; the engine
    /// itself never sleeps.
    pub fn wait_usec(&mut self, usec: u64, label: &Option<String>)
        requires
            old(self).inv(),
        ensures
            final(self).inv(),
            final(self).out@ == old(self).out@.push(
                (Command { kind: CommandKind::Wait { usec }, label: *label }),
            ),
            final(self).cursor == old(self).cursor,
            final(self).measuring == old(self).measuring,
    {
        self.emit(CommandKind::Wait { usec }, label);
        proof {
            lemma_measure_scan_push(
                old(self).out@,
                (Command { kind: CommandKind::Wait { usec }, label: *label }),
            );
        }
    }

    /// `setMarker`: a state-transparent marker.
    pub fn set_marker(&mut self, id: i64, label: &Option<String>)
        requires
            old(self).inv(),
        ensures
            final(self).inv(),
            final(self).out@ == old(self).out@.push(
                (Command { kind: CommandKind::Marker { id }, label: *label }),
            ),
            final(self).cursor == old(self).cursor,
            final(self).measuring == old(self).measuring,
    {
        self.emit(CommandKind::Marker { id }, label);
        proof {
            lemma_measure_scan_push(
                old(self).out@,
                (Command { kind: CommandKind::Marker { id }, label: *label }),
            );
        }
    }

    /// `waitTrigger`: a state-transparent trigger wait.
    pub fn wait_trigger(&mut self, label: &Option<String>)
        requires
            old(self).inv(),
        ensures
            final(self).inv(),
            final(self).out@ == old(self).out@.push(
                (Command { kind: CommandKind::Trigger, label: *label }),
            ),
            final(self).cursor == old(self).cursor,
            final(self).measuring == old(self).measuring,
    {
        self.emit(CommandKind::Trigger, label);
        proof {
            lemma_measure_scan_push(
                old(self).out@,
                (Command { kind: CommandKind::Trigger, label: *label }),
            );
        }
    }

    /// `startMeasure`: opens the window; starting inside an open window is a
    /// sequence error and changes nothing.
    pub fn start_measure(&mut self, label: &Option<String>) -> (r: Result<(), EngineError>)
        requires
            old(self).inv(),
        ensures
            final(self).inv(),
            final(self).cursor == old(self).cursor,
            old(self).measuring ==> r == Err::<(), EngineError>(EngineError::SequenceError)
                && *final(self) == *old(self),
            !old(self).measuring ==> r == Ok::<(), EngineError>(()) && final(self).measuring
                && final(self).out@ == old(self).out@.push(
                (Command { kind: CommandKind::MeasureStart, label: *label }),
            ),
    {
        if self.measuring {
            return Err(EngineError::SequenceError);
        }
        self.measuring = true;
        self.emit(CommandKind::MeasureStart, label);
        proof {
            lemma_measure_scan_push(
                old(self).out@,
                (Command { kind: CommandKind::MeasureStart, label: *label }),
            );
        }
        Ok(())
    }

    /// `stopMeasure`: closes the window; stopping with none open is a
    /// sequence error and changes nothing.
    pub fn stop_measure(&mut self, label: &Option<String>) -> (r: Result<(), EngineError>)
        requires
            old(self).inv(),
        ensures
            final(self).inv(),
            final(self).cursor == old(self).cursor,
            !old(self).measuring ==> r == Err::<(), EngineError>(EngineError::SequenceError)
                && *final(self) == *old(self),
            old(self).measuring ==> r == Ok::<(), EngineError>(()) && !final(self).measuring
                && final(self).out@ == old(self).out@.push(
                (Command { kind: CommandKind::MeasureEnd, label: *label }),
            ),
    {
        if !self.measuring {
            return Err(EngineError::SequenceError);
        }
        self.measuring = false;
        self.emit(CommandKind::MeasureEnd, label);
        proof {
            lemma_measure_scan_push(
                old(self).out@,
                (Command { kind: CommandKind::MeasureEnd, label: *label }),
            );
        }
        Ok(())
    }

    /// `lineTo`: interpolate from the cursor to `(x, y)` over `n` samples,
    /// destination inclusive.  Interpolating before any `moveTo` has placed
    /// the cursor is rejected.
    pub fn line_to(&mut self, x: i64, y: i64, n: i64, label: &Option<String>) -> (r: Result<
        (),
        EngineError,
    >)
        requires
            old(self).inv(),
            0 <= n <= MAX_COUNT,
        ensures
            final(self).inv(),
            final(self).measuring == old(self).measuring,
            old(self).cursor is None ==> r == Err::<(), EngineError>(EngineError::InvalidGeometry)
                && *final(self) == *old(self),
            old(self).cursor matches Some(c) ==> r == Ok::<(), EngineError>(())
                && final(self).cursor == Some((x, y)) && final(self).out@ == old(self).out@
                + line_cmds(c.0, c.1, x, y, n as int, *label),
    {
        let (cx, cy) = match self.cursor {
            Some(c) => c,
            None => {
                return Err(EngineError::InvalidGeometry);
            },
        };
        if n < 2 {
            self.move_to(x, y, label);
            proof {
                assert(final(self).out@ =~= old(self).out@ + line_cmds(
                    cx,
                    cy,
                    x,
                    y,
                    n as int,
                    *label,
                ));
            }
            return Ok(());
        }
        let ghost full = line_cmds(cx, cy, x, y, n as int, *label);
        let mut k: i64 = 0;
        while k < n
            invariant
                0 <= k <= n,
                2 <= n <= MAX_COUNT,
                self.inv(),
                self.measuring == old(self).measuring,
                self.out@ == old(self).out@ + full.take(k as int),
                full == line_cmds(cx, cy, x, y, n as int, *label),
                full.len() == n,
                k > 0 ==> self.cursor == Some(
                    (lerp(cx, x, k as int - 1, n as int), lerp(cy, y, k as int - 1, n as int)),
                ),
            decreases n - k,
        {
            let px = lerp_fp(cx, x, k, n);
            let py = lerp_fp(cy, y, k, n);
            self.move_to(px, py, label);
            proof {
                assert(full[k as int] == (Command {
                    kind: CommandKind::Move { x: px, y: py },
                    label: *label,
                }));
                assert(full.take(k as int + 1) =~= full.take(k as int).push(full[k as int]));
            }
            k = k + 1;
        }
        proof {
            assert(full.take(n as int) =~= full);
            lemma_lerp_endpoints(cx, x, n as int);
            lemma_lerp_endpoints(cy, y, n as int);
        }
        Ok(())
    }

    /// `line`: interpolate from an explicit start to an end, both given by
    /// the call; the start is sample zero, so the cursor needs no prior
    /// position.
    pub fn line(&mut self, x1: i64, y1: i64, x2: i64, y2: i64, n: i64, label: &Option<String>)
        requires
            old(self).inv(),
            0 <= n <= MAX_COUNT,
        ensures
            final(self).inv(),
            final(self).measuring == old(self).measuring,
            final(self).cursor == Some((x2, y2)),
            final(self).out@ == old(self).out@ + line_cmds(x1, y1, x2, y2, n as int, *label),
    {
        self.cursor = Some((x1, y1));
        let _already_placed = self.line_to(x2, y2, n, label);
    }

    /// `rect`: raster-scan the axis-aligned box row by row, rows outermost,
    /// reversing the column direction on odd rows when `boustro` is set.
    pub fn rect(
        &mut self,
        x0: i64,
        y0: i64,
        x1: i64,
        y1: i64,
        nrows: i64,
        ncols: i64,
        boustro: bool,
        label: &Option<String>,
    ) -> (count: i64)
        requires
            old(self).inv(),
            0 <= nrows,
            0 <= ncols,
            nrows <= MAX_COUNT,
            ncols <= MAX_COUNT,
            nrows * ncols <= MAX_COUNT,
        ensures
            final(self).inv(),
            final(self).measuring == old(self).measuring,
            final(self).out@ == old(self).out@ + rect_cmds(
                x0,
                y0,
                x1,
                y1,
                nrows as int,
                ncols as int,
                boustro,
                *label,
            ),
            count == nrows * ncols,
            count == 0 ==> final(self).cursor == old(self).cursor,
            count > 0 ==> final(self).cursor == Some(
                rect_last_xy(x0, y0, x1, y1, nrows as int, ncols as int, boustro),
            ),
    {
        let mut r: i64 = 0;
        while r < nrows
            invariant
                0 <= r <= nrows,
                0 <= ncols <= MAX_COUNT,
                nrows <= MAX_COUNT,
                self.inv(),
                self.measuring == old(self).measuring,
                self.out@ == old(self).out@ + rect_cmds_upto(
                    x0,
                    y0,
                    x1,
                    y1,
                    nrows as int,
                    ncols as int,
                    boustro,
                    r as int,
                    *label,
                ),
                r > 0 && ncols > 0 ==> self.cursor == Some(
                    (
                        lerp(
                            x0,
                            x1,
                            (if boustro && (r - 1) as int % 2 == 1 {
                                0int
                            } else {
                                ncols as int - 1
                            }),
                            ncols as int,
                        ),
                        lerp(y0, y1, (r - 1) as int, nrows as int),
                    ),
                ),
                r == 0 || ncols == 0 ==> self.cursor == old(self).cursor,
            decreases nrows - r,
        {
            let y = lerp_fp(y0, y1, r, nrows);
            let ghost row = rect_row_cmds(
                x0,
                y0,
                x1,
                y1,
                nrows as int,
                ncols as int,
                boustro,
                r as int,
                *label,
            );
            let ghost base = self.out@;
            let odd = boustro && (r as u64) % 2 == 1;
            let mut c: i64 = 0;
            while c < ncols
                invariant
                    0 <= c <= ncols,
                    0 <= r < nrows,
                    ncols <= MAX_COUNT,
                    nrows <= MAX_COUNT,
                    self.inv(),
                    self.measuring == old(self).measuring,
                    self.out@ == base + row.take(c as int),
                    row == rect_row_cmds(
                        x0,
                        y0,
                        x1,
                        y1,
                        nrows as int,
                        ncols as int,
                        boustro,
                        r as int,
                        *label,
                    ),
                    row.len() == ncols,
                    y == lerp(y0, y1, r as int, nrows as int),
                    odd == (boustro && r as int % 2 == 1),
                    c > 0 ==> self.cursor is Some,
                    c == 0 && (r == 0 || ncols == 0) ==> self.cursor == old(self).cursor,
                    c == 0 && r > 0 && ncols > 0 ==> self.cursor == Some(
                        (
                            lerp(
                                x0,
                                x1,
                                (if boustro && (r - 1) as int % 2 == 1 {
                                    0int
                                } else {
                                    ncols as int - 1
                                }),
                                ncols as int,
                            ),
                            lerp(y0, y1, (r - 1) as int, nrows as int),
                        ),
                    ),
                    c > 0 ==> self.cursor == Some(
                        (
                            lerp(
                                x0,
                                x1,
                                (if boustro && r as int % 2 == 1 {
                                    ncols - c
                                } else {
                                    c - 1
                                }) as int,
                                ncols as int,
                            ),
                            y,
                        ),
                    ),
                decreases ncols - c,
            {
                let cc = if odd {
                    ncols - 1 - c
                } else {
                    c
                };
                let x = lerp_fp(x0, x1, cc, ncols);
                self.move_to(x, y, label);
                proof {
                    assert(row[c as int] == (Command {
                        kind: CommandKind::Move { x, y },
                        label: *label,
                    }));
                    assert(row.take(c as int + 1) =~= row.take(c as int).push(row[c as int]));
                }
                c = c + 1;
            }
            proof {
                assert(row.take(ncols as int) =~= row);
                assert(self.out@ =~= old(self).out@ + rect_cmds_upto(
                    x0,
                    y0,
                    x1,
                    y1,
                    nrows as int,
                    ncols as int,
                    boustro,
                    r as int + 1,
                    *label,
                ));
            }
            r = r + 1;
        }
        proof {
            if nrows == 0 {
                assert(rect_cmds_upto(
                    x0,
                    y0,
                    x1,
                    y1,
                    nrows as int,
                    ncols as int,
                    boustro,
                    0,
                    *label,
                ) =~= Seq::<Command>::empty());
                assert(self.out@ =~= old(self).out@ + Seq::<Command>::empty());
            }
            assert(nrows * ncols == 0 ==> nrows == 0 || ncols == 0) by (nonlinear_arith);
            assert(nrows == 0 || ncols == 0 ==> nrows * ncols == 0) by (nonlinear_arith);
        }
        if nrows == 0 || ncols == 0 {
            return 0;
        }
        proof {
            assert(nrows * ncols >= 1) by (nonlinear_arith)
                requires
                    nrows >= 1,
                    ncols >= 1,
            ;
        }
        nrows * ncols
    }

    /// `ellipse`: an optional beginning wait, then `npts` samples of the
    /// rotated ellipse over `nturns_fp` turns.
    pub fn ellipse(
        &mut self,
        x0: i64,
        y0: i64,
        rx: i64,
        ry: i64,
        angle_fp: i64,
        nturns_fp: i64,
        npts: i64,
        wait_begin: u64,
        label: &Option<String>,
    )
        requires
            old(self).inv(),
            0 <= npts <= MAX_COUNT,
        ensures
            final(self).inv(),
            final(self).measuring == old(self).measuring,
            final(self).out@ == old(self).out@ + (if wait_begin > 0 {
                seq![(Command { kind: CommandKind::Wait { usec: wait_begin }, label: *label })]
            } else {
                Seq::<Command>::empty()
            }) + ellipse_cmds(x0, y0, rx, ry, angle_fp, nturns_fp, npts as int, *label),
            npts > 0 ==> final(self).cursor == Some(
                ellipse_xy(x0, y0, rx, ry, angle_fp, nturns_fp, npts as int, npts as int - 1),
            ),
            npts == 0 ==> final(self).cursor == old(self).cursor,
    {
        if wait_begin > 0 {
            self.wait_usec(wait_begin, label);
        }
        let ghost mid = self.out@;
        let ghost full = ellipse_cmds(x0, y0, rx, ry, angle_fp, nturns_fp, npts as int, *label);
        if npts == 0 {
            proof {
                assert(self.out@ =~= mid + full);
                assert(self.out@ =~= old(self).out@ + (if wait_begin > 0 {
                    seq![(Command { kind: CommandKind::Wait { usec: wait_begin }, label: *label })]
                } else {
                    Seq::<Command>::empty()
                }) + full);
            }
            return ;
        }
        let den: i128 = (npts as i128) * (SCALE as i128);
        let ca = turn_cos_fp(angle_fp as i128, 360 * (SCALE as i128));
        let sa = turn_sin_fp(angle_fp as i128, 360 * (SCALE as i128));
        let mut k: i64 = 0;
        while k < npts
            invariant
                0 <= k <= npts,
                1 <= npts <= MAX_COUNT,
                den == npts as int * SCALE as int,
                0 < den <= MAX_TURN_DEN,
                ca as int == turn_cos(angle_fp as int, 360 * (SCALE as int)),
                sa as int == turn_sin(angle_fp as int, 360 * (SCALE as int)),
                self.inv(),
                self.measuring == old(self).measuring,
                self.out@ == mid + full.take(k as int),
                full == ellipse_cmds(x0, y0, rx, ry, angle_fp, nturns_fp, npts as int, *label),
                full.len() == npts,
                mid == old(self).out@ + (if wait_begin > 0 {
                    seq![(Command { kind: CommandKind::Wait { usec: wait_begin }, label: *label })]
                } else {
                    Seq::<Command>::empty()
                }),
                k > 0 ==> self.cursor == Some(
                    ellipse_xy(x0, y0, rx, ry, angle_fp, nturns_fp, npts as int, k as int - 1),
                ),
            decreases npts - k,
        {
            proof {
                assert(abs_int(nturns_fp as int * k as int) <= 0x8000_0000_0000_0000 * 0x100_0000)
                    by (nonlinear_arith)
                    requires
                        abs_int(nturns_fp as int) <= 0x8000_0000_0000_0000,
                        0 <= k as int <= 0x100_0000,
                ;
            }
            let num = (nturns_fp as i128) * (k as i128);
            let c = turn_cos_fp(num, den);
            let s = turn_sin_fp(num, den);
            proof {
                assert(abs_int(rx as int * c as int) <= 0x8000_0000_0000_0000 * 0x10_0000
                    && abs_int(ry as int * s as int) <= 0x8000_0000_0000_0000 * 0x10_0000)
                    by (nonlinear_arith)
                    requires
                        abs_int(rx as int) <= 0x8000_0000_0000_0000,
                        abs_int(ry as int) <= 0x8000_0000_0000_0000,
                        abs_int(c as int) <= 0x10_0000,
                        abs_int(s as int) <= 0x10_0000,
                ;
            }
            let ux = div_trunc_i128((rx as i128) * (c as i128), SCALE as i128);
            let uy = div_trunc_i128((ry as i128) * (s as i128), SCALE as i128);
            proof {
                assert(abs_int(ux as int * ca as int) <= 0x80_0000_0000_0000_0000_0000 * 0x10_0000
                    && abs_int(uy as int * sa as int) <= 0x80_0000_0000_0000_0000_0000 * 0x10_0000
                    && abs_int(ux as int * sa as int) <= 0x80_0000_0000_0000_0000_0000 * 0x10_0000
                    && abs_int(uy as int * ca as int) <= 0x80_0000_0000_0000_0000_0000 * 0x10_0000)
                    by (nonlinear_arith)
                    requires
                        abs_int(ux as int) <= 0x80_0000_0000_0000_0000_0000,
                        abs_int(uy as int) <= 0x80_0000_0000_0000_0000_0000,
                        abs_int(ca as int) <= 0x10_0000,
                        abs_int(sa as int) <= 0x10_0000,
                ;
            }
            let tx = (ux * (ca as i128)) - (uy * (sa as i128));
            let ty = (ux * (sa as i128)) + (uy * (ca as i128));
            let px = sat_narrow((x0 as i128) + div_trunc_i128(tx, SCALE as i128));
            let py = sat_narrow((y0 as i128) + div_trunc_i128(ty, SCALE as i128));
            self.move_to(px, py, label);
            proof {
                assert((px, py) == ellipse_xy(
                    x0,
                    y0,
                    rx,
                    ry,
                    angle_fp,
                    nturns_fp,
                    npts as int,
                    k as int,
                ));
                assert(full[k as int] == (Command {
                    kind: CommandKind::Move { x: px, y: py },
                    label: *label,
                }));
                assert(full.take(k as int + 1) =~= full.take(k as int).push(full[k as int]));
            }
            k = k + 1;
        }
        proof {
            assert(full.take(npts as int) =~= full);
        }
    }
}

} // verus!
