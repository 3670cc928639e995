//! Rectangles and the main-and-stack layout.
//!
//! The layout is stated once, over mathematical integers, by [`tile`]; the
//! executable [`compute`] is proved to return exactly those tiles. The first
//! window takes the left column, the others share the right column from top
//! to bottom. From the third window on a tile starts one gap lower and is one
//! gap shorter than the row it sits in; the second window keeps its full row.

use vstd::prelude::*;
use vstd::arithmetic::div_mod::lemma_fundamental_div_mod;
use vstd::arithmetic::div_mod::lemma_fundamental_div_mod_converse;
use vstd::arithmetic::div_mod::lemma_mod_bound;
use crate::window::WindowHandle;

verus! {

/// An axis-aligned rectangle in output coordinates.
#[derive(Clone, Copy, Debug, PartialEq, Eq, Structural)]
pub struct Rect {
    pub x: i32,
    pub y: i32,
    pub w: i32,
    pub h: i32,
}

impl Rect {
    /// Whether the pixel `(px, py)` lies inside the rectangle. A rectangle
    /// whose width or height is not positive covers nothing.
    pub open spec fn covers(self, px: int, py: int) -> bool {
        self.x <= px < self.x + self.w && self.y <= py < self.y + self.h
    }
}

/// The gap a compositor session leaves round every tile, in pixels.
pub const GAP: i32 = 6;

/// Where one window goes.
#[derive(Clone, Copy, Debug, PartialEq, Eq, Structural)]
pub struct Placement {
    pub window: WindowHandle,
    pub rect: Rect,
}

/// A rectangle over unbounded integers: what the layout asks for before
/// anyone worries about machine words.
pub struct Tile {
    pub x: int,
    pub y: int,
    pub w: int,
    pub h: int,
}

/// `v` is representable in 32 bits.
pub open spec fn in_i32(v: int) -> bool {
    i32::MIN <= v <= i32::MAX
}

impl Tile {
    /// All four numbers are representable in a [`Rect`].
    pub open spec fn fits(self) -> bool {
        in_i32(self.x) && in_i32(self.y) && in_i32(self.w) && in_i32(self.h)
    }

    /// The tile as a [`Rect`]; the same numbers where the tile fits.
    pub open spec fn rect(self) -> Rect {
        Rect { x: self.x as i32, y: self.y as i32, w: self.w as i32, h: self.h as i32 }
    }
}

/// Width of a tile when `n` windows are laid out: the whole inset width for
/// a single window, otherwise half of what is left once the gap between the
/// two columns is taken out, rounded down.
pub open spec fn column_width(n: nat, output: Rect, gap: int) -> int {
    if n > 1 {
        (output.w - 3 * gap) / 2
    } else {
        output.w - 2 * gap
    }
}

/// Height of one row of the stack column: the inset height divided among
/// the `n - 1` stacked windows, rounded down.
pub open spec fn row_height(n: nat, output: Rect, gap: int) -> int
    recommends
        n > 1,
{
    (output.h - 2 * gap) / (n - 1)
}

/// The tile of the window at position `i` among `n`.
pub open spec fn tile(n: nat, i: nat, output: Rect, gap: int) -> Tile
    recommends
        i < n,
{
    let w = column_width(n, output, gap);
    if i == 0 {
        Tile { x: output.x + gap, y: output.y + gap, w, h: output.h - 2 * gap }
    } else {
        let row = row_height(n, output, gap);
        Tile {
            x: output.x + gap + w + gap,
            y: output.y + gap + row * (i - 1) + if i > 1 { gap } else { 0 },
            w,
            h: if i > 1 { row - gap } else { row },
        }
    }
}

/// Every tile of an `n`-window layout is representable.
pub open spec fn layout_fits(n: nat, output: Rect, gap: int) -> bool {
    forall|i: nat| i < n ==> (#[trigger] tile(n, i, output, gap)).fits()
}

/// The placements of `windows`, in their order.
pub open spec fn layout(windows: Seq<WindowHandle>, output: Rect, gap: int) -> Seq<Placement> {
    Seq::new(
        windows.len(),
        |i: int| Placement { window: windows[i], rect: tile(windows.len(), i as nat, output, gap).rect() },
    )
}

/// Division rounding towards negative infinity, for a positive divisor.
fn floor_div(a: i128, b: i128) -> (q: i128)
    requires
        b > 0,
        -0x1_0000_0000_0000 <= a <= 0x1_0000_0000_0000,
    ensures
        q == a / b,
        a >= 0 ==> 0 <= q <= a,
        a < 0 ==> a <= q < 0,
{
    if a >= 0 {
        proof {
            lemma_fundamental_div_mod(a as int, b as int);
            lemma_mod_bound(a as int, b as int);
            assert(0 <= a / b <= a) by (nonlinear_arith)
                requires
                    a == b * (a / b) + a % b,
                    0 <= a % b < b,
                    b > 0,
                    a >= 0,
            ;
        }
        a / b
    } else {
        let m: i128 = -a - 1;
        let p: i128 = m / b;
        proof {
            lemma_fundamental_div_mod(m as int, b as int);
            lemma_mod_bound(m as int, b as int);
            let s = (m as int) % (b as int);
            assert(0 <= p <= m) by (nonlinear_arith)
                requires
                    m == b * p + s,
                    0 <= s < b,
                    b > 0,
                    m >= 0,
            ;
            assert(a == (-p - 1) * b + (b - 1 - s)) by (nonlinear_arith)
                requires
                    m == -a - 1,
                    m == b * p + s,
            ;
            lemma_fundamental_div_mod_converse(a as int, b as int, -(p as int) - 1, b - 1 - s);
        }
        -p - 1
    }
}

/// `Some(v as i32)` when `v` is representable.
fn narrow(v: i128) -> (r: Option<i32>)
    ensures
        r == if in_i32(v as int) { Some(v as i32) } else { None::<i32> },
{
    if -0x8000_0000 <= v && v <= 0x7fff_ffff {
        Some(v as i32)
    } else {
        None
    }
}

/// The tile at position `i`, or `None` when it is not representable.
fn tile_at(n: usize, i: usize, output: Rect, gap: i32) -> (r: Option<Rect>)
    requires
        i < n,
    ensures
        r == if tile(n as nat, i as nat, output, gap as int).fits() {
            Some(tile(n as nat, i as nat, output, gap as int).rect())
        } else {
            None::<Rect>
        },
{
    let g: i128 = gap as i128;
    let inner_w: i128 = output.w as i128 - 2 * g;
    let inner_h: i128 = output.h as i128 - 2 * g;
    let w: i128 = if n > 1 { floor_div(inner_w - g, 2) } else { inner_w };
    let mut x: i128 = output.x as i128 + g;
    let mut y: i128 = output.y as i128 + g;
    let mut h: i128 = inner_h;
    if i > 0 {
        let row: i128 = floor_div(inner_h, (n - 1) as i128);
        let above: i128 = (i - 1) as i128;
        assert(-0x4_0000_0000 * 0x1_0000_0000_0000_0000 <= row * above <= 0x4_0000_0000
            * 0x1_0000_0000_0000_0000) by (nonlinear_arith)
            requires
                -0x4_0000_0000 <= row <= 0x4_0000_0000,
                0 <= above <= 0x1_0000_0000_0000_0000,
        ;
        x = x + w + g;
        y = y + row * above;
        h = row;
        if i > 1 {
            y = y + g;
            h = h - g;
        }
    }
    let rx = narrow(x);
    let ry = narrow(y);
    let rw = narrow(w);
    let rh = narrow(h);
    match (rx, ry, rw, rh) {
        (Some(x), Some(y), Some(w), Some(h)) => Some(Rect { x, y, w, h }),
        _ => None,
    }
}

/// Lays `windows` out on `output`, or reports that some tile does not fit
/// into 32-bit coordinates.
pub fn try_compute(windows: &Vec<WindowHandle>, output: Rect, gap: i32) -> (r: Option<
    Vec<Placement>,
>)
    ensures
        match r {
            Some(placements) => layout_fits(windows@.len(), output, gap as int) && placements@
                == layout(windows@, output, gap as int),
            None => !layout_fits(windows@.len(), output, gap as int),
        },
{
    let n = windows.len();
    let mut placements: Vec<Placement> = Vec::new();
    let mut i: usize = 0;
    while i < n
        invariant
            n == windows@.len(),
            i <= n,
            placements@.len() == i,
            forall|k: nat| k < i ==> (#[trigger] tile(n as nat, k, output, gap as int)).fits(),
            forall|k: int|
                0 <= k < i ==> placements@[k] == (Placement {
                    window: windows@[k],
                    rect: tile(n as nat, k as nat, output, gap as int).rect(),
                }),
        decreases n - i,
    {
        match tile_at(n, i, output, gap) {
            Some(rect) => {
                placements.push(Placement { window: windows[i], rect });
            },
            None => {
                assert(!tile(n as nat, i as nat, output, gap as int).fits());
                return None;
            },
        }
        i = i + 1;
    }
    assert(placements@ =~= layout(windows@, output, gap as int));
    Some(placements)
}

/// Lays `windows` out on `output`: one placement per window, in the order
/// given, each with the rectangle [`tile`] assigns to its position.
pub fn compute(windows: &Vec<WindowHandle>, output: Rect, gap: i32) -> (placements: Vec<Placement>)
    requires
        layout_fits(windows@.len(), output, gap as int),
    ensures
        placements@ == layout(windows@, output, gap as int),
{
    try_compute(windows, output, gap).unwrap()
}

/// The largest coordinate, extent or gap for which
/// [`lemma_moderate_outputs_fit`] speaks.
pub const MODERATE: i32 = 0x1fff_ffff;

/// An output of moderate size and position, with a gap that is not
/// negative and leaves some height between the top and the bottom gap.
pub open spec fn moderate(output: Rect, gap: int) -> bool {
    &&& 0 <= gap <= MODERATE
    &&& -MODERATE <= output.x <= MODERATE
    &&& -MODERATE <= output.y <= MODERATE
    &&& 0 <= output.w <= MODERATE
    &&& 2 * gap <= output.h <= MODERATE
}

/// On a moderate output every layout fits, however many windows there are:
/// [`compute`] can be called, and [`try_compute`] succeeds.
pub proof fn lemma_moderate_outputs_fit(n: nat, output: Rect, gap: int)
    requires
        moderate(output, gap),
    ensures
        layout_fits(n, output, gap),
{
    assert forall|i: nat| i < n implies (#[trigger] tile(n, i, output, gap)).fits() by {
        let width = output.w - 3 * gap;
        lemma_fundamental_div_mod(width, 2);
        lemma_mod_bound(width, 2);
        if i > 0 {
            let inner = output.h - 2 * gap;
            let rows = (n - 1) as int;
            let row = inner / rows;
            lemma_fundamental_div_mod(inner, rows);
            lemma_mod_bound(inner, rows);
            assert(0 <= row && row * rows <= inner) by (nonlinear_arith)
                requires
                    inner == rows * row + inner % rows,
                    0 <= inner % rows < rows,
                    inner >= 0,
            ;
            assert(0 <= row * (i - 1) <= row * rows) by (nonlinear_arith)
                requires
                    0 <= row,
                    0 <= i - 1 <= rows,
            ;
        }
    }
}

/// One placement per window, none dropped, none duplicated, none reordered:
/// position `i` of the layout holds window `i`.
pub proof fn lemma_layout_conserves_windows(windows: Seq<WindowHandle>, output: Rect, gap: int)
    ensures
        layout(windows, output, gap).len() == windows.len(),
        forall|i: int|
            0 <= i < windows.len() ==> (#[trigger] layout(windows, output, gap)[i]).window
                == windows[i],
        layout(windows, output, gap).map_values(|p: Placement| p.window) == windows,
{
    assert(layout(windows, output, gap).map_values(|p: Placement| p.window) =~= windows);
}

/// The layout is a function of its arguments: equal windows, output and gap
/// give equal placements.
pub proof fn lemma_layout_deterministic(
    windows_a: Seq<WindowHandle>,
    output_a: Rect,
    gap_a: int,
    windows_b: Seq<WindowHandle>,
    output_b: Rect,
    gap_b: int,
)
    requires
        windows_a == windows_b,
        output_a == output_b,
        gap_a == gap_b,
    ensures
        layout(windows_a, output_a, gap_a) == layout(windows_b, output_b, gap_b),
{
}

/// With a gap that is not negative, no pixel belongs to two tiles of one
/// layout of two or more windows.
pub proof fn lemma_tiles_disjoint(n: nat, i: nat, j: nat, output: Rect, gap: int)
    requires
        n > 1,
        i < j < n,
        gap >= 0,
        tile(n, i, output, gap).fits(),
        tile(n, j, output, gap).fits(),
    ensures
        forall|px: int, py: int|
            !(tile(n, i, output, gap).rect().covers(px, py) && tile(
                n,
                j,
                output,
                gap,
            ).rect().covers(px, py)),
{
    let a = tile(n, i, output, gap);
    let b = tile(n, j, output, gap);
    let row = row_height(n, output, gap);
    if i == 0 {
        // the main column ends before the stack column begins
        assert(a.x + a.w <= b.x);
    } else if row <= 0 {
        // rows without height: the upper tile covers nothing
        assert(a.h <= 0);
    } else {
        // tile j starts at or below the row in which tile i ends
        assert(row * (i as int) <= row * (j - 1)) by (nonlinear_arith)
            requires
                row > 0,
                i <= j - 1,
        ;
        assert(row * (i as int) == row * (i - 1) + row) by (nonlinear_arith);
        assert(a.y + a.h <= b.y);
    }
}

/// The same, said of what [`compute`] returns: two different positions of
/// the layout never share a pixel.
pub proof fn lemma_layout_never_overlaps(
    windows: Seq<WindowHandle>,
    output: Rect,
    gap: int,
    i: int,
    j: int,
)
    requires
        windows.len() > 1,
        0 <= i < windows.len(),
        0 <= j < windows.len(),
        i != j,
        gap >= 0,
        layout_fits(windows.len(), output, gap),
    ensures
        forall|px: int, py: int|
            !(layout(windows, output, gap)[i].rect.covers(px, py) && layout(
                windows,
                output,
                gap,
            )[j].rect.covers(px, py)),
{
    let n = windows.len();
    assert(tile(n, i as nat, output, gap).fits());
    assert(tile(n, j as nat, output, gap).fits());
    if i < j {
        lemma_tiles_disjoint(n, i as nat, j as nat, output, gap);
    } else {
        lemma_tiles_disjoint(n, j as nat, i as nat, output, gap);
    }
}

} // verus!
