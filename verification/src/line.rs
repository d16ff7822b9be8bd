//! Integer line rasterization for orbit outlines.
//!
//! Walks the pixels of a line segment with an error accumulator, keeping
//! only the pixels that fall on the screen. The contract guarantees
//! that every produced pixel is on the screen and inside the segment's
//! bounding box, that the walk starts at the first endpoint, and that it
//! reaches the second.

use vstd::prelude::*;

verus! {

/// The smaller of two integers.
pub open spec fn lo(a: int, b: int) -> int {
    if a <= b {
        a
    } else {
        b
    }
}

/// The larger of two integers.
pub open spec fn hi(a: int, b: int) -> int {
    if a <= b {
        b
    } else {
        a
    }
}

/// Whether pixel (`x`, `y`) lies on a screen of the given size.
pub open spec fn spec_on_screen(x: int, y: int, width: int, height: int) -> bool {
    0 <= x < width && 0 <= y < height
}

/// A produced pixel is on the screen and inside the bounding box of the
/// segment from (`x0`, `y0`) to (`x1`, `y1`).
pub open spec fn spec_line_point_ok(
    p: (usize, usize),
    x0: int,
    y0: int,
    x1: int,
    y1: int,
    width: int,
    height: int,
) -> bool {
    &&& p.0 < width
    &&& p.1 < height
    &&& lo(x0, x1) <= p.0 <= hi(x0, x1)
    &&& lo(y0, y1) <= p.1 <= hi(y0, y1)
}

/// Whether the whole bounding box of the segment from (`x0`, `y0`) to
/// (`x1`, `y1`) lies on the screen.
pub open spec fn spec_segment_visible(
    x0: int,
    y0: int,
    x1: int,
    y1: int,
    width: int,
    height: int,
) -> bool {
    0 <= lo(x0, x1) && hi(x0, x1) < width && 0 <= lo(y0, y1) && hi(y0, y1) < height
}

/// Pixel `p` is at most one step away from (`x`, `y`) along each axis.
pub open spec fn spec_near(p: (usize, usize), x: int, y: int) -> bool {
    &&& p.0 - x <= 1
    &&& x - p.0 <= 1
    &&& p.1 - y <= 1
    &&& y - p.1 <= 1
}

/// If the walk is not finished and the error term allows a horizontal
/// step, the x progress `a` has not yet reached its total `dx`, so the
/// step cannot overshoot the endpoint.
proof fn lemma_x_step_in_range(dx: int, dy: int, a: int, b: int, err: int)
    by (nonlinear_arith)
    requires
        dx >= 0,
        dy <= 0,
        0 <= a <= dx,
        0 <= b <= -dy,
        !(a == dx && b == -dy),
        err == dx * (1 + b) + dy * (1 + a),
        2 * err >= dy,
    ensures
        a < dx,
{
}

/// If the walk is not finished and the error term allows a vertical
/// step, the y progress `b` has not yet reached its total `-dy`, so the
/// step cannot overshoot the endpoint.
proof fn lemma_y_step_in_range(dx: int, dy: int, a: int, b: int, err: int)
    by (nonlinear_arith)
    requires
        dx >= 0,
        dy <= 0,
        0 <= a <= dx,
        0 <= b <= -dy,
        !(a == dx && b == -dy),
        err == dx * (1 + b) + dy * (1 + a),
        2 * err <= dx,
    ensures
        b < -dy,
{
}

/// How the error accumulator tracks the progress counters across a
/// horizontal step (`+ dy`) and a vertical step (`+ dx`).
proof fn lemma_err_shift(dx: int, dy: int, a: int, b: int, err: int)
    by (nonlinear_arith)
    requires
        err == dx * (1 + b) + dy * (1 + a),
    ensures
        err + dy == dx * (1 + b) + dy * (1 + (a + 1)),
        err + dx == dx * (1 + (b + 1)) + dy * (1 + a),
        err + dy + dx == dx * (1 + (b + 1)) + dy * (1 + (a + 1)),
{
}

/// Rasterizes the line segment from (`x0`, `y0`) to (`x1`, `y1`) into
/// the pixels it covers, dropping pixels that fall off the screen.
/// Every returned pixel is on the screen and within the segment's
/// bounding box; the first returned pixel is the first endpoint and the
/// last endpoint is always reached, whenever those lie on the screen.
/// When the whole segment is visible, the pixels form a connected path
/// (consecutive pixels one step apart at most) that ends at the second
/// endpoint.
#[verifier::rlimit(100)]
pub fn draw_line(x0: i32, y0: i32, x1: i32, y1: i32, width: usize, height: usize) -> (pts: Vec<
    (usize, usize),
>)
    requires
        -250_000_000 <= x0 <= 250_000_000,
        -250_000_000 <= y0 <= 250_000_000,
        -250_000_000 <= x1 <= 250_000_000,
        -250_000_000 <= y1 <= 250_000_000,
    ensures
        forall|j: int|
            0 <= j < pts@.len() ==> #[trigger] spec_line_point_ok(
                pts@[j],
                x0 as int,
                y0 as int,
                x1 as int,
                y1 as int,
                width as int,
                height as int,
            ),
        spec_on_screen(x1 as int, y1 as int, width as int, height as int) ==> pts@.contains(
            (x1 as usize, y1 as usize),
        ),
        spec_on_screen(x0 as int, y0 as int, width as int, height as int) ==> pts@.len() > 0
            && pts@[0] == (x0 as usize, y0 as usize),
        spec_segment_visible(x0 as int, y0 as int, x1 as int, y1 as int, width as int, height as int)
            ==> pts@.len() > 0 && pts@[pts@.len() - 1] == (x1 as usize, y1 as usize) && (forall|
            j: int|
            0 <= j && j + 1 < pts@.len() ==> #[trigger] spec_near(
                pts@[j],
                pts@[j + 1].0 as int,
                pts@[j + 1].1 as int,
            )),
{
    let mut x = x0;
    let mut y = y0;
    let dx: i32 = if x1 >= x0 {
        x1 - x0
    } else {
        x0 - x1
    };
    let dy: i32 = if y1 >= y0 {
        y0 - y1
    } else {
        y1 - y0
    };
    let sx: i32 = if x0 < x1 {
        1
    } else {
        -1
    };
    let sy: i32 = if y0 < y1 {
        1
    } else {
        -1
    };
    let mut err: i32 = dx + dy;
    let ghost mut a: int = 0;  // pixels stepped horizontally so far
    let ghost mut b: int = 0;  // pixels stepped vertically so far
    proof {
        assert((dx as int) * (1 + 0) + (dy as int) * (1 + 0) == dx + dy) by (nonlinear_arith);
    }
    let mut pts: Vec<(usize, usize)> = Vec::new();
    loop
        invariant
            -250_000_000 <= x0 <= 250_000_000,
            -250_000_000 <= y0 <= 250_000_000,
            -250_000_000 <= x1 <= 250_000_000,
            -250_000_000 <= y1 <= 250_000_000,
            dx == (if x1 >= x0 {
                x1 - x0
            } else {
                x0 - x1
            }),
            dy == (if y1 >= y0 {
                y0 - y1
            } else {
                y1 - y0
            }),
            sx == (if x0 < x1 {
                1int
            } else {
                -1int
            }),
            sy == (if y0 < y1 {
                1int
            } else {
                -1int
            }),
            0 <= a <= dx as int,
            0 <= b <= -(dy as int),
            x == x0 + (if x0 < x1 {
                a
            } else {
                -a
            }),
            y == y0 + (if y0 < y1 {
                b
            } else {
                -b
            }),
            err == (dx as int) * (1 + b) + (dy as int) * (1 + a),
            2 * (dy as int) <= err <= 2 * (dx as int),
            forall|j: int|
                0 <= j < pts@.len() ==> #[trigger] spec_line_point_ok(
                    pts@[j],
                    x0 as int,
                    y0 as int,
                    x1 as int,
                    y1 as int,
                    width as int,
                    height as int,
                ),
            spec_on_screen(x0 as int, y0 as int, width as int, height as int) ==> ((pts@.len() == 0
                && a == 0 && b == 0) || (pts@.len() > 0 && pts@[0] == (x0 as usize, y0 as usize))),
            spec_segment_visible(
                x0 as int,
                y0 as int,
                x1 as int,
                y1 as int,
                width as int,
                height as int,
            ) ==> (pts@.len() == 0 || spec_near(pts@[pts@.len() - 1], x as int, y as int)),
            spec_segment_visible(
                x0 as int,
                y0 as int,
                x1 as int,
                y1 as int,
                width as int,
                height as int,
            ) ==> (forall|j: int|
                0 <= j && j + 1 < pts@.len() ==> #[trigger] spec_near(
                    pts@[j],
                    pts@[j + 1].0 as int,
                    pts@[j + 1].1 as int,
                )),
        ensures
            forall|j: int|
                0 <= j < pts@.len() ==> #[trigger] spec_line_point_ok(
                    pts@[j],
                    x0 as int,
                    y0 as int,
                    x1 as int,
                    y1 as int,
                    width as int,
                    height as int,
                ),
            spec_on_screen(x1 as int, y1 as int, width as int, height as int) ==> pts@.contains(
                (x1 as usize, y1 as usize),
            ),
            spec_on_screen(x0 as int, y0 as int, width as int, height as int) ==> pts@.len() > 0
                && pts@[0] == (x0 as usize, y0 as usize),
            spec_segment_visible(
                x0 as int,
                y0 as int,
                x1 as int,
                y1 as int,
                width as int,
                height as int,
            ) ==> pts@.len() > 0 && pts@[pts@.len() - 1] == (x1 as usize, y1 as usize) && (forall|
            j: int|
                0 <= j && j + 1 < pts@.len() ==> #[trigger] spec_near(
                    pts@[j],
                    pts@[j + 1].0 as int,
                    pts@[j + 1].1 as int,
                )),
        decreases (dx as int - a) + (-(dy as int) - b),
    {
        let on = x >= 0 && y >= 0 && (x as usize) < width && (y as usize) < height;
        if on {
            pts.push((x as usize, y as usize));
        }
        if x == x1 && y == y1 {
            proof {
                if spec_on_screen(x1 as int, y1 as int, width as int, height as int) {
                    assert(pts@[pts@.len() - 1] == (x1 as usize, y1 as usize));
                    assert(pts@.contains((x1 as usize, y1 as usize)));
                }
            }
            break;
        }
        proof {
            assert((x == x1) <==> (a == dx as int));
            assert((y == y1) <==> (b == -(dy as int)));
        }
        let ghost a0 = a;
        let ghost b0 = b;
        let ghost err0 = err as int;
        let e2: i32 = 2 * err;
        if e2 >= dy {
            proof {
                lemma_x_step_in_range(dx as int, dy as int, a, b, err as int);
                lemma_err_shift(dx as int, dy as int, a, b, err as int);
            }
            err = err + dy;
            x = x + sx;
            proof {
                a = a + 1;
            }
        }
        if e2 <= dx {
            proof {
                lemma_y_step_in_range(dx as int, dy as int, a0, b0, err0);
                lemma_err_shift(dx as int, dy as int, a, b, err as int);
            }
            err = err + dx;
            y = y + sy;
            proof {
                b = b + 1;
            }
        }
        proof {
            assert(a + b > a0 + b0);
        }
    }
    pts
}

} // verus!
