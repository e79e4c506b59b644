//! The integer side of the character rasterizer: sampling modes, debug
//! views, near-plane clipping of triangle corners, the density ramp, glyph
//! history tests, stroke masks and cell neighbourhoods.
use vstd::prelude::*;
use crate::frame::Cell;
use crate::mesh::SurfaceKind;

verus! {

/// Which diagnostic image the resolve step draws in place of the scene.
#[derive(Clone, Copy, Debug, PartialEq, Eq, Structural)]
pub enum DebugView {
    Normal,
    Coverage,
    EffectiveCoverage,
    Width,
    Fade,
    RoadMarkings,
}

impl Default for DebugView {
    fn default() -> (view: DebugView)
        ensures
            view == DebugView::Normal,
    {
        DebugView::Normal
    }
}

/// Number of depth-tested samples taken inside each character cell.
#[derive(Clone, Copy, Debug, PartialEq, Eq, Structural)]
pub enum AaMode {
    /// One sample at the cell centre.
    Off,
    /// A two-by-two grid of samples.
    X2,
}

impl AaMode {
    pub open spec fn spec_count(self) -> nat {
        match self {
            AaMode::Off => 1,
            AaMode::X2 => 4,
        }
    }

    /// Samples per cell: one without antialiasing, four with the 2x2 grid.
    pub fn count(self) -> (n: usize)
        ensures
            n == self.spec_count(),
    {
        match self {
            AaMode::Off => 1,
            AaMode::X2 => 4,
        }
    }
}

/// A corner of a triangle clipped against the near plane: one of the
/// triangle's own vertices, or the point where edge `i` (from vertex `i` to
/// the next vertex) crosses the plane.
#[derive(Clone, Copy, Debug, PartialEq, Eq, Structural)]
pub enum ClipPoint {
    Vertex(usize),
    Crossing(usize),
}

/// The vertex following vertex `i` around the triangle.
pub open spec fn next_vertex(i: int) -> int {
    if i == 2 {
        0
    } else {
        i + 1
    }
}

/// What edge `i` contributes when walking the triangle: its start vertex if
/// that lies in front of the plane, then its crossing if it straddles it.
pub open spec fn clip_edge(inside: [bool; 3], i: int) -> Seq<ClipPoint> {
    (if inside[i] {
        seq![ClipPoint::Vertex(i as usize)]
    } else {
        Seq::empty()
    }) + (if inside[i] != inside[next_vertex(i)] {
        seq![ClipPoint::Crossing(i as usize)]
    } else {
        Seq::empty()
    })
}

/// The clipped polygon's corners in order, edge by edge.
pub open spec fn spec_clip_plan(inside: [bool; 3]) -> Seq<ClipPoint> {
    clip_edge(inside, 0) + clip_edge(inside, 1) + clip_edge(inside, 2)
}

/// Number of triangle vertices in front of the plane.
pub open spec fn count_inside(inside: [bool; 3]) -> nat {
    (if inside[0] {
        1nat
    } else {
        0nat
    }) + (if inside[1] {
        1nat
    } else {
        0nat
    }) + (if inside[2] {
        1nat
    } else {
        0nat
    })
}

/// Position of a corner along the triangle's boundary: vertex `i` comes
/// before any point of edge `i`, which comes before vertex `i + 1`.
pub open spec fn boundary_position(p: ClipPoint) -> int {
    match p {
        ClipPoint::Vertex(i) => 2 * i,
        ClipPoint::Crossing(i) => 2 * i + 1,
    }
}

/// The clipped polygon walks the triangle's boundary once: its corners are
/// exactly the vertices in front of the plane and the crossings of the edges
/// that straddle it, each once, in boundary order (a vertex before the
/// crossing on the edge it starts, and edges in turn).
pub proof fn lemma_clip_plan_boundary_order(inside: [bool; 3])
    ensures
        forall|j: int, k: int|
            0 <= j < k < spec_clip_plan(inside).len() ==> boundary_position(
                #[trigger] spec_clip_plan(inside)[j],
            ) < boundary_position(#[trigger] spec_clip_plan(inside)[k]),
        forall|i: int|
            0 <= i < 3 ==> (#[trigger] spec_clip_plan(inside).contains(ClipPoint::Vertex(i as usize))
                <==> inside[i]),
        forall|i: int|
            0 <= i < 3 ==> (#[trigger] spec_clip_plan(inside).contains(ClipPoint::Crossing(i as usize))
                <==> inside[i] != inside[(i + 1) % 3]),
        forall|j: int|
            0 <= j < spec_clip_plan(inside).len() ==> 0 <= boundary_position(
                #[trigger] spec_clip_plan(inside)[j],
            ) < 6,
{
    let plan = spec_clip_plan(inside);
    let e0 = clip_edge(inside, 0);
    let e1 = clip_edge(inside, 1);
    let e2 = clip_edge(inside, 2);
    assert(plan == e0 + e1 + e2);
    assert forall|j: int| 0 <= j < e0.len() implies 0 <= #[trigger] boundary_position(e0[j]) < 2 by {}
    assert forall|j: int| 0 <= j < e1.len() implies 2 <= #[trigger] boundary_position(e1[j]) < 4 by {}
    assert forall|j: int| 0 <= j < e2.len() implies 4 <= #[trigger] boundary_position(e2[j]) < 6 by {}
    assert forall|j: int, k: int| 0 <= j < k < e0.len() implies boundary_position(e0[j])
        < boundary_position(e0[k]) by {}
    assert forall|j: int, k: int| 0 <= j < k < e1.len() implies boundary_position(e1[j])
        < boundary_position(e1[k]) by {}
    assert forall|j: int, k: int| 0 <= j < k < e2.len() implies boundary_position(e2[j])
        < boundary_position(e2[k]) by {}
    assert forall|j: int|
        0 <= j < plan.len() implies 0 <= #[trigger] boundary_position(plan[j]) < 6 by {
        if j < e0.len() {
            assert(plan[j] == e0[j]);
        } else if j < e0.len() + e1.len() {
            assert(plan[j] == e1[j - e0.len()]);
        } else {
            assert(plan[j] == e2[j - e0.len() - e1.len()]);
        }
    }
    assert forall|j: int, k: int|
        0 <= j < k < plan.len() implies boundary_position(#[trigger] plan[j]) < boundary_position(
        #[trigger] plan[k],
    ) by {
        let a = e0.len();
        let b = e0.len() + e1.len();
        if k < a {
            assert(plan[j] == e0[j] && plan[k] == e0[k]);
        } else if k < b {
            assert(plan[k] == e1[k - a]);
            if j < a {
                assert(plan[j] == e0[j]);
            } else {
                assert(plan[j] == e1[j - a]);
            }
        } else {
            assert(plan[k] == e2[k - b]);
            if j < a {
                assert(plan[j] == e0[j]);
            } else if j < b {
                assert(plan[j] == e1[j - a]);
            } else {
                assert(plan[j] == e2[j - b]);
            }
        }
    }
    assert forall|i: int| 0 <= i < 3 implies (#[trigger] plan.contains(ClipPoint::Vertex(i as usize))
        <==> inside[i]) by {
        let v = ClipPoint::Vertex(i as usize);
        if inside[i] {
            let ei = clip_edge(inside, i);
            assert(ei[0] == v);
            if i == 0 {
                assert(plan[0] == v);
            } else if i == 1 {
                assert(plan[e0.len() as int] == v);
            } else {
                assert(plan[(e0.len() + e1.len()) as int] == v);
            }
        } else {
            if plan.contains(v) {
                let j = choose|j: int| 0 <= j < plan.len() && plan[j] == v;
                if j < e0.len() {
                    assert(plan[j] == e0[j]);
                } else if j < e0.len() + e1.len() {
                    assert(plan[j] == e1[j - e0.len()]);
                } else {
                    assert(plan[j] == e2[j - e0.len() - e1.len()]);
                }
            }
        }
    }
    assert forall|i: int| 0 <= i < 3 implies (#[trigger] plan.contains(ClipPoint::Crossing(i as usize))
        <==> inside[i] != inside[(i + 1) % 3]) by {
        let x = ClipPoint::Crossing(i as usize);
        let ei = clip_edge(inside, i);
        let start: int = if i == 0 {
            0
        } else if i == 1 {
            e0.len() as int
        } else {
            (e0.len() + e1.len()) as int
        };
        if inside[i] != inside[(i + 1) % 3] {
            let at = start + ei.len() - 1;
            assert(ei[ei.len() - 1] == x);
            if i == 0 {
                assert(plan[at] == e0[at]);
            } else if i == 1 {
                assert(plan[at] == e1[at - e0.len()]);
            } else {
                assert(plan[at] == e2[at - e0.len() - e1.len()]);
            }
        } else {
            if plan.contains(x) {
                let j = choose|j: int| 0 <= j < plan.len() && plan[j] == x;
                if j < e0.len() {
                    assert(plan[j] == e0[j]);
                } else if j < e0.len() + e1.len() {
                    assert(plan[j] == e1[j - e0.len()]);
                } else {
                    assert(plan[j] == e2[j - e0.len() - e1.len()]);
                }
            }
        }
    }
}

/// The corners of a triangle clipped against the near plane, given which
/// of its vertices lie in front of it.
pub fn clip_plan(inside: [bool; 3]) -> (plan: Vec<ClipPoint>)
    ensures
        plan@ == spec_clip_plan(inside),
        forall|j: int, k: int|
            0 <= j < k < plan@.len() ==> boundary_position(#[trigger] plan@[j])
                < boundary_position(#[trigger] plan@[k]),
        forall|i: int|
            0 <= i < 3 ==> (#[trigger] plan@.contains(ClipPoint::Vertex(i as usize)) <==> inside[i]),
        forall|i: int|
            0 <= i < 3 ==> (#[trigger] plan@.contains(ClipPoint::Crossing(i as usize))
                <==> inside[i] != inside[(i + 1) % 3]),
{
    proof {
        lemma_clip_plan_boundary_order(inside);
    }
    let mut plan: Vec<ClipPoint> = Vec::new();
    let mut i: usize = 0;
    while i < 3
        invariant
            i <= 3,
            plan@ == (if i == 0 {
                Seq::empty()
            } else if i == 1 {
                clip_edge(inside, 0)
            } else if i == 2 {
                clip_edge(inside, 0) + clip_edge(inside, 1)
            } else {
                spec_clip_plan(inside)
            }),
        decreases 3 - i,
    {
        let next: usize = if i == 2 {
            0
        } else {
            i + 1
        };
        let ghost before = plan@;
        if inside[i] {
            plan.push(ClipPoint::Vertex(i));
        }
        if inside[i] != inside[next] {
            plan.push(ClipPoint::Crossing(i));
        }
        proof {
            assert(plan@ =~= before + clip_edge(inside, i as int));
        }
        i = i + 1;
    }
    plan
}

/// Clipping never cuts a triangle into more than a quadrilateral: with no
/// vertex in front of the plane nothing is left, with one or three a
/// triangle, with two a quadrilateral. Anything left has at least three
/// corners, so it can be drawn as a fan.
pub proof fn lemma_clip_plan_size(inside: [bool; 3])
    ensures
        count_inside(inside) == 0 ==> spec_clip_plan(inside).len() == 0,
        count_inside(inside) == 1 ==> spec_clip_plan(inside).len() == 3,
        count_inside(inside) == 2 ==> spec_clip_plan(inside).len() == 4,
        count_inside(inside) == 3 ==> spec_clip_plan(inside) == seq![
            ClipPoint::Vertex(0),
            ClipPoint::Vertex(1),
            ClipPoint::Vertex(2),
        ],
        spec_clip_plan(inside).len() <= 4,
{
    if count_inside(inside) == 3 {
        assert(spec_clip_plan(inside) =~= seq![
            ClipPoint::Vertex(0),
            ClipPoint::Vertex(1),
            ClipPoint::Vertex(2),
        ]);
    }
}

/// The diagnostic cell of the road-marking view. A cell without paint is
/// blank; a painted cell shows `#` in green where the paint reaches the image
/// (over road or ground, or winning the cell), otherwise `.` in yellow when
/// the paint was visible but faded or outscored, and in red when something
/// nearer hid it.
pub fn road_marking_debug_cell(
    has_paint: bool,
    paint_present: bool,
    road_background: bool,
    paint_wins: bool,
    visible: bool,
) -> (cell: Cell)
    ensures
        !has_paint ==> cell == Cell::blank(),
        has_paint ==> {
            let contributes = paint_present && (road_background || paint_wins);
            &&& cell.ch == (if contributes {
                '#'
            } else {
                '.'
            })
            &&& cell.color == (if contributes {
                (0u8, 255u8, 0u8)
            } else if visible {
                (255u8, 255u8, 0u8)
            } else {
                (255u8, 0u8, 0u8)
            })
            &&& !cell.overlay
        },
{
    if !has_paint {
        return Cell::default();
    }
    let contributes = paint_present && (road_background || paint_wins);
    Cell {
        ch: if contributes {
            '#'
        } else {
            '.'
        },
        color: if contributes {
            (0, 255, 0)
        } else if visible {
            (255, 255, 0)
        } else {
            (255, 0, 0)
        },
        overlay: false,
    }
}

/// Length of the density ramp.
pub const PALETTE_LEN: usize = 10;

/// The density ramp ` .:-=+*#%@`, from empty to full ink.
pub open spec fn spec_palette_char(level: nat) -> char {
    seq![' ', '.', ':', '-', '=', '+', '*', '#', '%', '@'][level as int]
}

/// The ramp character for an ink level from 0 (blank) to 9 (`@`).
pub fn palette_char(level: usize) -> (ch: char)
    requires
        level < PALETTE_LEN,
    ensures
        ch == spec_palette_char(level as nat),
{
    let ramp = [' ', '.', ':', '-', '=', '+', '*', '#', '%', '@'];
    assert(ramp@ =~= seq![' ', '.', ':', '-', '=', '+', '*', '#', '%', '@']);
    ramp[level]
}

/// Absolute difference of two colour channels.
pub open spec fn channel_diff(a: u8, b: u8) -> nat {
    if a >= b {
        (a - b) as nat
    } else {
        (b - a) as nat
    }
}

/// Largest channel difference between two colours that still lets a cell
/// keep its previous glyph.
pub const HISTORY_COLOR_TOLERANCE: u8 = 60;

/// Whether two colours are close enough for glyph history: every channel
/// differs by less than the tolerance.
pub open spec fn spec_colors_close(a: (u8, u8, u8), b: (u8, u8, u8)) -> bool {
    channel_diff(a.0, b.0) < HISTORY_COLOR_TOLERANCE && channel_diff(a.1, b.1)
        < HISTORY_COLOR_TOLERANCE && channel_diff(a.2, b.2) < HISTORY_COLOR_TOLERANCE
}

fn abs_diff(a: u8, b: u8) -> (d: u8)
    ensures
        d == channel_diff(a, b),
{
    if a >= b {
        a - b
    } else {
        b - a
    }
}

/// The colour test of glyph history: the largest channel difference is
/// below the tolerance.
pub fn colors_close(a: (u8, u8, u8), b: (u8, u8, u8)) -> (close: bool)
    ensures
        close == spec_colors_close(a, b),
{
    let d0: u8 = abs_diff(a.0, b.0);
    let d1: u8 = abs_diff(a.1, b.1);
    let d2: u8 = abs_diff(a.2, b.2);
    let m01: u8 = if d0 >= d1 {
        d0
    } else {
        d1
    };
    let m: u8 = if m01 >= d2 {
        m01
    } else {
        d2
    };
    m < HISTORY_COLOR_TOLERANCE
}

/// The discrete half of glyph history's test: a cell may keep its previous
/// glyph only if it had a visible one, on the same surface class, in a
/// close colour. (Depth, brightness and coverage are compared separately.)
pub fn history_matches(
    previous_ch: char,
    previous_surface: SurfaceKind,
    previous_color: (u8, u8, u8),
    next_surface: SurfaceKind,
    next_color: (u8, u8, u8),
) -> (matches: bool)
    ensures
        matches == (previous_ch != ' ' && previous_surface == next_surface && spec_colors_close(
            previous_color,
            next_color,
        )),
{
    previous_ch != ' ' && previous_surface == next_surface && colors_close(
        previous_color,
        next_color,
    )
}

/// The direction of a one-cell stroke through a cell's 2x2 samples.
#[derive(Clone, Copy, Debug, PartialEq, Eq, Structural)]
pub enum StrokeAxis {
    /// Top or bottom pair covered.
    Horizontal,
    /// Left or right pair covered.
    Vertical,
    /// Top-left and bottom-right covered: `\`.
    Falling,
    /// Top-right and bottom-left covered: `/`.
    Rising,
}

/// The stroke a sample mask draws. Bit `i` is sample `i` of the 2x2 grid,
/// numbered top-left, top-right, bottom-left, bottom-right. Only masks of
/// exactly two samples on one row, one column or one diagonal are strokes.
pub open spec fn spec_stroke_axis(mask: u8) -> Option<StrokeAxis> {
    if mask == 3 || mask == 12 {
        Some(StrokeAxis::Horizontal)
    } else if mask == 5 || mask == 10 {
        Some(StrokeAxis::Vertical)
    } else if mask == 9 {
        Some(StrokeAxis::Falling)
    } else if mask == 6 {
        Some(StrokeAxis::Rising)
    } else {
        None
    }
}

/// Whether the neighbour at offset (`dx`, `dy`) lies on a stroke's axis.
pub open spec fn spec_on_axis(axis: StrokeAxis, dx: int, dy: int) -> bool {
    match axis {
        StrokeAxis::Horizontal => dy == 0,
        StrokeAxis::Vertical => dx == 0,
        StrokeAxis::Falling => dx == dy,
        StrokeAxis::Rising => dx == -dy,
    }
}

/// The mask of a cell's covered samples.
pub open spec fn spec_sample_mask(covered: [bool; 4]) -> u8 {
    ((if covered[0] {
        1u8
    } else {
        0u8
    }) + (if covered[1] {
        2u8
    } else {
        0u8
    }) + (if covered[2] {
        4u8
    } else {
        0u8
    }) + (if covered[3] {
        8u8
    } else {
        0u8
    })) as u8
}

pub fn sample_mask(covered: [bool; 4]) -> (mask: u8)
    ensures
        mask == spec_sample_mask(covered),
        mask < 16,
{
    let a: u8 = if covered[0] {
        1
    } else {
        0
    };
    let b: u8 = if covered[1] {
        2
    } else {
        0
    };
    let c: u8 = if covered[2] {
        4
    } else {
        0
    };
    let d: u8 = if covered[3] {
        8
    } else {
        0
    };
    a + b + c + d
}

pub fn stroke_axis(mask: u8) -> (axis: Option<StrokeAxis>)
    ensures
        axis == spec_stroke_axis(mask),
{
    if mask == 3 || mask == 12 {
        Some(StrokeAxis::Horizontal)
    } else if mask == 5 || mask == 10 {
        Some(StrokeAxis::Vertical)
    } else if mask == 9 {
        Some(StrokeAxis::Falling)
    } else if mask == 6 {
        Some(StrokeAxis::Rising)
    } else {
        None
    }
}

pub fn on_axis(axis: StrokeAxis, dx: i8, dy: i8) -> (on: bool)
    requires
        -1 <= dx <= 1,
        -1 <= dy <= 1,
    ensures
        on == spec_on_axis(axis, dx as int, dy as int),
{
    match axis {
        StrokeAxis::Horizontal => dy == 0,
        StrokeAxis::Vertical => dx == 0,
        StrokeAxis::Falling => dx == dy,
        StrokeAxis::Rising => dx == -dy,
    }
}

/// A neighbouring cell: its row-major index and its offset.
#[derive(Clone, Copy, Debug)]
pub struct Neighbor {
    pub index: usize,
    pub dx: i8,
    pub dy: i8,
}

/// Scan position of an offset in the 3x3 block, row by row.
pub open spec fn scan_order(dx: int, dy: int) -> int {
    (dy + 1) * 3 + (dx + 1)
}

/// Whether offset (`dx`, `dy`) from cell (`x`, `y`) is one of its eight
/// neighbours inside a `width` by `height` grid.
pub open spec fn in_grid_neighbor(x: int, y: int, width: int, height: int, dx: int, dy: int) -> bool {
    &&& -1 <= dx <= 1
    &&& -1 <= dy <= 1
    &&& !(dx == 0 && dy == 0)
    &&& 0 <= x + dx < width
    &&& 0 <= y + dy < height
}

/// The eight neighbours of cell (`x`, `y`) that lie inside the grid, in scan
/// order (row above left to right, the row itself, the row below).
pub fn neighbors(x: usize, y: usize, width: usize, height: usize) -> (found: Vec<Neighbor>)
    requires
        x < width,
        y < height,
        width * height <= usize::MAX,
    ensures
        forall|k: int|
            0 <= k < found@.len() ==> {
                let n = #[trigger] found@[k];
                &&& in_grid_neighbor(x as int, y as int, width as int, height as int, n.dx as int, n.dy as int)
                &&& n.index == (y + n.dy) * width + (x + n.dx)
            },
        forall|k: int, l: int|
            0 <= k < l < found@.len() ==> scan_order(found@[k].dx as int, found@[k].dy as int)
                < scan_order(found@[l].dx as int, found@[l].dy as int),
        forall|dx: int, dy: int|
            in_grid_neighbor(x as int, y as int, width as int, height as int, dx, dy) ==> exists|k: int|
                0 <= k < found@.len() && found@[k].dx == dx && found@[k].dy == dy,
{
    let mut found: Vec<Neighbor> = Vec::new();
    let mut dy: i8 = -1;
    while dy <= 1
        invariant
            -1 <= dy <= 2,
            x < width,
            y < height,
            width * height <= usize::MAX,
            forall|k: int|
                0 <= k < found@.len() ==> {
                    let n = #[trigger] found@[k];
                    &&& in_grid_neighbor(x as int, y as int, width as int, height as int, n.dx as int, n.dy as int)
                    &&& n.index == (y + n.dy) * width + (x + n.dx)
                    &&& n.dy < dy
                },
            forall|k: int, l: int|
                0 <= k < l < found@.len() ==> scan_order(found@[k].dx as int, found@[k].dy as int)
                    < scan_order(found@[l].dx as int, found@[l].dy as int),
            forall|ddx: int, ddy: int|
                ddy < dy && in_grid_neighbor(x as int, y as int, width as int, height as int, ddx, ddy)
                    ==> exists|k: int|
                    0 <= k < found@.len() && found@[k].dx == ddx && found@[k].dy == ddy,
        decreases 2 - dy,
    {
        let mut dx: i8 = -1;
        while dx <= 1
            invariant
                -1 <= dy <= 1,
                -1 <= dx <= 2,
                x < width,
                y < height,
                width * height <= usize::MAX,
                forall|k: int|
                    0 <= k < found@.len() ==> {
                        let n = #[trigger] found@[k];
                        &&& in_grid_neighbor(x as int, y as int, width as int, height as int, n.dx as int, n.dy as int)
                        &&& n.index == (y + n.dy) * width + (x + n.dx)
                        &&& (n.dy < dy || (n.dy == dy && n.dx < dx))
                    },
                forall|k: int, l: int|
                    0 <= k < l < found@.len() ==> scan_order(found@[k].dx as int, found@[k].dy as int)
                        < scan_order(found@[l].dx as int, found@[l].dy as int),
                forall|ddx: int, ddy: int|
                    (ddy < dy || (ddy == dy && ddx < dx)) && in_grid_neighbor(x as int, y as int, width as int, height as int, ddx, ddy)
                        ==> exists|k: int|
                        0 <= k < found@.len() && found@[k].dx == ddx && found@[k].dy == ddy,
            decreases 2 - dx,
        {
            let inside_x = if dx < 0 {
                x > 0
            } else if dx > 0 {
                x + 1 < width
            } else {
                true
            };
            let inside_y = if dy < 0 {
                y > 0
            } else if dy > 0 {
                y + 1 < height
            } else {
                true
            };
            if !(dx == 0 && dy == 0) && inside_x && inside_y {
                let nx: usize = if dx < 0 {
                    x - 1
                } else if dx > 0 {
                    x + 1
                } else {
                    x
                };
                let ny: usize = if dy < 0 {
                    y - 1
                } else if dy > 0 {
                    y + 1
                } else {
                    y
                };
                proof {
                    assert(ny * width + nx < width * height) by (nonlinear_arith)
                        requires
                            ny < height,
                            nx < width,
                    ;
                }
                let ghost before = found@;
                found.push(Neighbor { index: ny * width + nx, dx, dy });
                proof {
                    assert(forall|k: int| 0 <= k < before.len() ==> found@[k] == before[k]);
                    assert(found@[before.len() as int].dx == dx && found@[before.len() as int].dy == dy);
                }
            }
            dx = dx + 1;
        }
        dy = dy + 1;
    }
    found
}

} // verus!
