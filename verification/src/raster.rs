//! Integer decisions of the triangle rasterizer: shader-archetype
//! dispatch, screen-space bounding-box clamping, and grouping of a flat
//! index list into in-range triangles.
//!
//! The floating-point parts of the rasterizer (edge functions,
//! barycentric weights, depth interpolation) run in the surrounding
//! application; they consume the values produced here, so every scanned
//! pixel stays on the screen and every vertex lookup is in range.

use vstd::prelude::*;

use crate::color::Color;

verus! {

/// The finite set of surface archetypes a draw call can select, plus an
/// explicit `Invalid` variant so that an out-of-range selector is visible
/// instead of silently rendering as a real body.
#[derive(Debug, Clone, Copy, PartialEq, Eq, Structural)]
pub enum ShaderKind {
    Earth,
    Sun,
    GasGiant,
    Mars,
    Mercury,
    Neptune,
    Spaceship,
    Moon,
    Invalid,
}

/// The dispatch table: the moon override wins, then the numeric selector
/// chooses an archetype, and every unassigned number is `Invalid`.
pub open spec fn spec_select_shader(current_shader: u32, is_moon: bool) -> ShaderKind {
    if is_moon {
        ShaderKind::Moon
    } else if current_shader == 0 {
        ShaderKind::Earth
    } else if current_shader == 1 {
        ShaderKind::Sun
    } else if current_shader == 2 {
        ShaderKind::GasGiant
    } else if current_shader == 3 {
        ShaderKind::Mars
    } else if current_shader == 4 {
        ShaderKind::Mercury
    } else if current_shader == 5 {
        ShaderKind::Neptune
    } else if current_shader == 6 {
        ShaderKind::Spaceship
    } else {
        ShaderKind::Invalid
    }
}

/// Resolves a draw call's shader selector and moon override to an
/// archetype, exactly as the dispatch table states.
pub fn select_shader(current_shader: u32, is_moon: bool) -> (k: ShaderKind)
    ensures
        k == spec_select_shader(current_shader, is_moon),
{
    if is_moon {
        ShaderKind::Moon
    } else {
        match current_shader {
            0 => ShaderKind::Earth,
            1 => ShaderKind::Sun,
            2 => ShaderKind::GasGiant,
            3 => ShaderKind::Mars,
            4 => ShaderKind::Mercury,
            5 => ShaderKind::Neptune,
            6 => ShaderKind::Spaceship,
            _ => ShaderKind::Invalid,
        }
    }
}

/// The sentinel color an `Invalid` selector shades with: full-intensity
/// magenta, chosen to make integration mistakes obvious on screen.
pub fn sentinel_color() -> (c: Color)
    ensures
        c.spec_r() == 255,
        c.spec_g() == 0,
        c.spec_b() == 255,
{
    Color::new(255, 0, 255)
}

/// A raw pixel bounding box clamped to the screen rectangle
/// `[0, width - 1] x [0, height - 1]`, as (min x, min y, max x, max y).
pub open spec fn spec_clamp_box(
    min_x: i64,
    min_y: i64,
    max_x: i64,
    max_y: i64,
    width: i64,
    height: i64,
) -> (i64, i64, i64, i64) {
    (
        if min_x > 0 {
            min_x
        } else {
            0
        },
        if min_y > 0 {
            min_y
        } else {
            0
        },
        if max_x < width - 1 {
            max_x
        } else {
            (width - 1) as i64
        },
        if max_y < height - 1 {
            max_y
        } else {
            (height - 1) as i64
        },
    )
}

/// Clamps the integer pixel bounding box of a triangle to the screen.
/// The caller computes the raw box from the floored/ceiled screen-space
/// vertex coordinates; the clamped box it gets back never leaves
/// `[0, width) x [0, height)`.
pub fn calculate_bounding_box(
    min_x: i64,
    min_y: i64,
    max_x: i64,
    max_y: i64,
    width: i64,
    height: i64,
) -> (r: (i64, i64, i64, i64))
    requires
        1 <= width,
        1 <= height,
    ensures
        r == spec_clamp_box(min_x, min_y, max_x, max_y, width, height),
        r.0 >= 0,
        r.1 >= 0,
        r.2 < width,
        r.3 < height,
{
    let bmin_x = if min_x > 0 {
        min_x
    } else {
        0
    };
    let bmin_y = if min_y > 0 {
        min_y
    } else {
        0
    };
    let bmax_x = if max_x < width - 1 {
        max_x
    } else {
        width - 1
    };
    let bmax_y = if max_y < height - 1 {
        max_y
    } else {
        height - 1
    };
    (bmin_x, bmin_y, bmax_x, bmax_y)
}

/// Whether a (clamped) bounding box lies wholly off the screen, so the
/// triangle can be discarded before scanning: exactly the test the
/// rasterizer's early-out performs.
pub fn box_off_screen(
    min_x: i64,
    min_y: i64,
    max_x: i64,
    max_y: i64,
    width: i64,
    height: i64,
) -> (off: bool)
    ensures
        off == (max_x < 0 || min_x > width || max_y < 0 || min_y > height),
{
    max_x < 0 || min_x > width || max_y < 0 || min_y > height
}

/// Law: every pixel scanned inside a clamped bounding box lies on the
/// screen. Since the rasterizer emits fragments only at pixels of the
/// clamped box, each emitted fragment has coordinates in
/// `[0, width) x [0, height)`.
pub proof fn lemma_clamped_box_on_screen(
    min_x: i64,
    min_y: i64,
    max_x: i64,
    max_y: i64,
    width: i64,
    height: i64,
    x: int,
    y: int,
)
    requires
        1 <= width,
        1 <= height,
        spec_clamp_box(min_x, min_y, max_x, max_y, width, height).0 <= x
            <= spec_clamp_box(min_x, min_y, max_x, max_y, width, height).2,
        spec_clamp_box(min_x, min_y, max_x, max_y, width, height).1 <= y
            <= spec_clamp_box(min_x, min_y, max_x, max_y, width, height).3,
    ensures
        0 <= x < width,
        0 <= y < height,
{
}

/// The edge function the rasterizer applies to screen coordinates,
/// stated over exact integers: twice the signed area of the triangle
/// (`a`, `b`, `p`), positive when `p` lies to one side of the directed
/// edge `a -> b` and zero when the three points are collinear.
pub open spec fn spec_edge(ax: int, ay: int, bx: int, by: int, px: int, py: int) -> int {
    (px - ax) * (by - ay) - (py - ay) * (bx - ax)
}

/// Law: the edge functions of a sample point against the three sides of
/// a triangle sum exactly to the triangle's own edge function (its
/// signed area). The rasterizer's barycentric weights are these three
/// values divided by the signed area, so the weights of every sampled
/// point sum to one; in floating point the sum holds to within
/// rounding.
pub proof fn lemma_edge_functions_sum_to_area(
    ax: int,
    ay: int,
    bx: int,
    by: int,
    cx: int,
    cy: int,
    px: int,
    py: int,
)
    ensures
        spec_edge(bx, by, cx, cy, px, py) + spec_edge(cx, cy, ax, ay, px, py) + spec_edge(
            ax,
            ay,
            bx,
            by,
            px,
            py,
        ) == spec_edge(ax, ay, bx, by, cx, cy),
{
    // Expand each of the eight products into monomials; the sum then
    // cancels linearly.
    assert((px - bx) * (cy - by) == px * cy - px * by - bx * cy + bx * by) by (nonlinear_arith);
    assert((py - by) * (cx - bx) == py * cx - py * bx - by * cx + by * bx) by (nonlinear_arith);
    assert((px - cx) * (ay - cy) == px * ay - px * cy - cx * ay + cx * cy) by (nonlinear_arith);
    assert((py - cy) * (ax - cx) == py * ax - py * cx - cy * ax + cy * cx) by (nonlinear_arith);
    assert((px - ax) * (by - ay) == px * by - px * ay - ax * by + ax * ay) by (nonlinear_arith);
    assert((py - ay) * (bx - ax) == py * bx - py * ax - ay * bx + ay * ax) by (nonlinear_arith);
    assert((cx - ax) * (by - ay) == cx * by - cx * ay - ax * by + ax * ay) by (nonlinear_arith);
    assert((cy - ay) * (bx - ax) == cy * bx - cy * ax - ay * bx + ay * ax) by (nonlinear_arith);
}

/// The triple of vertex indices for triangle `t` of a flat index list.
pub open spec fn spec_group_at(indices: Seq<u32>, t: int) -> (usize, usize, usize) {
    (indices[3 * t] as usize, indices[3 * t + 1] as usize, indices[3 * t + 2] as usize)
}

/// All consecutive index triples of a flat index list, one per triangle;
/// a trailing partial group is dropped.
pub open spec fn spec_triple_seq(indices: Seq<u32>) -> Seq<(usize, usize, usize)> {
    Seq::new((indices.len() / 3) as nat, |t: int| spec_group_at(indices, t))
}

/// Validity of one triple: all three indices address the vertex array.
pub open spec fn spec_group_valid(vertex_count: nat) -> spec_fn((usize, usize, usize)) -> bool {
    |g: (usize, usize, usize)| g.0 < vertex_count && g.1 < vertex_count && g.2 < vertex_count
}

/// The triangles a draw call actually rasterizes: the consecutive index
/// triples whose three indices are all in range, in order.
pub open spec fn spec_triangle_groups(indices: Seq<u32>, vertex_count: nat) -> Seq<
    (usize, usize, usize),
> {
    spec_triple_seq(indices).filter(spec_group_valid(vertex_count))
}

/// Groups a flat index list into triangles of three vertex indices each,
/// keeping exactly the in-range triples in order of appearance. Every
/// triple handed back is safe to use as three lookups into a vertex
/// array of length `vertex_count`.
pub fn triangle_index_groups(indices: &Vec<u32>, vertex_count: usize) -> (groups: Vec<
    (usize, usize, usize),
>)
    ensures
        groups@ == spec_triangle_groups(indices@, vertex_count as nat),
        forall|j: int|
            0 <= j < groups@.len() ==> (#[trigger] groups@[j]).0 < vertex_count
                && groups@[j].1 < vertex_count && groups@[j].2 < vertex_count,
{
    let ghost pred = spec_group_valid(vertex_count as nat);
    let ghost triples = spec_triple_seq(indices@);
    let m = indices.len();
    let n = m / 3;
    proof {
        assert(3 * ((m as int) / 3) <= m as int) by (nonlinear_arith);
    }
    let mut groups: Vec<(usize, usize, usize)> = Vec::new();
    let mut t: usize = 0;
    while t < n
        invariant
            m == indices@.len(),
            n == m / 3,
            3 * (n as int) <= m as int,
            t <= n,
            pred == spec_group_valid(vertex_count as nat),
            triples == spec_triple_seq(indices@),
            groups@ == triples.take(t as int).filter(pred),
        decreases n - t,
    {
        assert(3 * t + 2 < indices@.len());
        let i1 = indices[3 * t] as usize;
        let i2 = indices[3 * t + 1] as usize;
        let i3 = indices[3 * t + 2] as usize;
        proof {
            triples.lemma_take_succ_push(t as int);
            triples.take(t as int).lemma_filter_push(triples[t as int], pred);
            assert(triples[t as int] == (i1, i2, i3));
        }
        if i1 < vertex_count && i2 < vertex_count && i3 < vertex_count {
            groups.push((i1, i2, i3));
        }
        t = t + 1;
    }
    proof {
        triples.lemma_take_len();
        broadcast use vstd::seq_lib::group_filter_ensures;

    }
    groups
}

} // verus!
