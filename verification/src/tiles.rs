//! Building static colliders from a level's occupied tile grid.
//!
//! A level is a `width` by `height` grid of cells; a set of cells is
//! occupied by solid tiles. Each row is cut into plates (maximal
//! horizontal runs of occupied cells), vertically adjacent plates with
//! identical extent are merged into rectangles, and each rectangle is
//! emitted as one static collider in world units. Plates with different
//! extents never merge, so the result is a simple rectangle packing,
//! not an optimal partition.

use vstd::prelude::*;

verus! {

/// One cell of a level's tile grid, by its integer coordinates.
#[derive(Clone, Copy, Debug, PartialEq, Eq, Structural)]
pub struct GridCell {
    pub x: i32,
    pub y: i32,
}

/// A maximal horizontal run `[left, right]` of occupied cells within
/// one grid row.
#[derive(Clone, Copy, Debug, PartialEq, Eq, Structural)]
pub struct Plate {
    pub left: i32,
    pub right: i32,
}

/// An axis-aligned rectangle of occupied cells, in grid units, grown by
/// merging vertically adjacent plates of identical horizontal extent.
#[derive(Clone, Copy, Debug, PartialEq, Eq, Structural)]
pub struct TileRect {
    pub left: i32,
    pub right: i32,
    pub bottom: i32,
    pub top: i32,
}

/// Whether the cell `(x, y)` appears in `cells`.
pub open spec fn cell_listed(cells: Seq<GridCell>, x: int, y: int) -> bool {
    exists|i: int| 0 <= i < cells.len() && (#[trigger] cells[i]).x == x && cells[i].y == y
}

/// Whether `(x, y)` lies inside the `w` by `h` grid and is occupied.
/// Listed cells outside the grid are ignored.
pub open spec fn occupied(cells: Seq<GridCell>, w: int, h: int, x: int, y: int) -> bool {
    0 <= x < w && 0 <= y < h && cell_listed(cells, x, y)
}

/// Whether the rectangle covers the cell `(x, y)`.
pub open spec fn rect_covers(r: TileRect, x: int, y: int) -> bool {
    r.left <= x <= r.right && r.bottom <= y <= r.top
}

/// Whether `[left, right]` is a plate of row `y`: a run of occupied
/// cells that no occupied cell extends on either side.
pub open spec fn is_plate(
    cells: Seq<GridCell>,
    w: int,
    h: int,
    y: int,
    left: int,
    right: int,
) -> bool {
    &&& left <= right
    &&& forall|x: int| left <= x <= right ==> occupied(cells, w, h, x, y)
    &&& !occupied(cells, w, h, left - 1, y)
    &&& !occupied(cells, w, h, right + 1, y)
}

/// Two plates of one row that share a cell are the same plate.
pub proof fn lemma_plate_unique(
    cells: Seq<GridCell>,
    w: int,
    h: int,
    y: int,
    l1: int,
    r1: int,
    l2: int,
    r2: int,
)
    requires
        is_plate(cells, w, h, y, l1, r1),
        is_plate(cells, w, h, y, l2, r2),
        l1 <= r2,
        l2 <= r1,
    ensures
        l1 == l2,
        r1 == r2,
{
    assert(l1 == l2) by {
        if l1 < l2 {
            assert(occupied(cells, w, h, l2 - 1, y));
        }
        if l2 < l1 {
            assert(occupied(cells, w, h, l1 - 1, y));
        }
    }
    assert(r1 == r2) by {
        if r1 < r2 {
            assert(occupied(cells, w, h, r1 + 1, y));
        }
        if r2 < r1 {
            assert(occupied(cells, w, h, r2 + 1, y));
        }
    }
}

/// Whether the plate list holds a plate with this exact extent.
pub open spec fn extent_in_plates(cur: Seq<Plate>, left: i32, right: i32) -> bool {
    exists|k: int| 0 <= k < cur.len()
        && (#[trigger] cur[k]).left == left && cur[k].right == right
}

/// What a row's plate list states about row `y`: every listed extent is
/// a plate of the row, the list is ordered with gaps, every occupied
/// cell of the row lies on a listed plate, and every plate of the row
/// is listed.
pub open spec fn row_facts(
    cells: Seq<GridCell>,
    w: int,
    h: int,
    y: int,
    cur: Seq<Plate>,
) -> bool {
    &&& forall|k: int| 0 <= k < cur.len() ==> is_plate(
            cells, w, h, y, (#[trigger] cur[k]).left as int, cur[k].right as int,
        )
    &&& forall|k1: int, k2: int| 0 <= k1 < k2 < cur.len()
            ==> (#[trigger] cur[k1]).right + 1 < (#[trigger] cur[k2]).left
    &&& forall|x: int| #[trigger] occupied(cells, w, h, x, y)
            ==> exists|k: int| 0 <= k < cur.len()
                && (#[trigger] cur[k]).left <= x <= cur[k].right
    &&& forall|l: int, r: int| #[trigger] is_plate(cells, w, h, y, l, r)
            ==> extent_in_plates(cur, l as i32, r as i32)
}

/// Whether `(x, y)` counts as occupied for collider building.
fn contains_cell(cells: &Vec<GridCell>, w: i32, h: i32, x: i32, y: i32) -> (b: bool)
    ensures
        b == occupied(cells@, w as int, h as int, x as int, y as int),
{
    if x < 0 || x >= w || y < 0 || y >= h {
        return false;
    }
    let n = cells.len();
    let mut i: usize = 0;
    while i < n
        invariant
            0 <= i <= n,
            n == cells@.len(),
            0 <= x < w,
            0 <= y < h,
            forall|k: int| 0 <= k < i ==> !(cells@[k].x == x && cells@[k].y == y),
        decreases n - i,
    {
        if cells[i].x == x && cells[i].y == y {
            assert(cell_listed(cells@, x as int, y as int)) by {
                assert(cells@[i as int].x == x && cells@[i as int].y == y);
            }
            return true;
        }
        i = i + 1;
    }
    false
}

/// Cuts row `y` of the grid into its plates, scanning left to right.
pub fn row_plates(cells: &Vec<GridCell>, w: i32, h: i32, y: i32) -> (plates: Vec<Plate>)
    requires
        0 <= y < h,
        0 <= w < i32::MAX,
    ensures
        row_facts(cells@, w as int, h as int, y as int, plates@),
{
    let ghost cw = w as int;
    let ghost ch = h as int;
    let ghost cy = y as int;
    let mut plates: Vec<Plate> = Vec::new();
    let mut in_run: bool = false;
    let mut run_start: i32 = 0;
    let mut x: i32 = 0;
    while x <= w
        invariant
            0 <= y < h,
            0 <= w < i32::MAX,
            cw == w as int && ch == h as int && cy == y as int,
            0 <= x <= w + 1,
            forall|k: int| 0 <= k < plates@.len() ==> is_plate(
                cells@, cw, ch, cy,
                (#[trigger] plates@[k]).left as int, plates@[k].right as int,
            ),
            forall|k1: int, k2: int| 0 <= k1 < k2 < plates@.len()
                ==> (#[trigger] plates@[k1]).right + 1 < (#[trigger] plates@[k2]).left,
            forall|k: int| 0 <= k < plates@.len() ==> (#[trigger] plates@[k]).right <= x - 2,
            in_run ==> 0 <= run_start <= x - 1,
            in_run ==> !occupied(cells@, cw, ch, run_start - 1, cy),
            in_run ==> forall|xp: int| run_start <= xp <= x - 1
                ==> occupied(cells@, cw, ch, xp, cy),
            in_run ==> forall|k: int| 0 <= k < plates@.len()
                ==> (#[trigger] plates@[k]).right + 1 < run_start,
            forall|xp: int| 0 <= xp < x && occupied(cells@, cw, ch, xp, cy)
                ==> (exists|k: int| 0 <= k < plates@.len()
                        && (#[trigger] plates@[k]).left <= xp <= plates@[k].right)
                    || (in_run && run_start <= xp),
        decreases w + 1 - x,
    {
        let occ_here = contains_cell(cells, w, h, x, y);
        if occ_here {
            if !in_run {
                in_run = true;
                run_start = x;
            }
        } else {
            if in_run {
                let ghost oldp = plates@;
                plates.push(Plate { left: run_start, right: x - 1 });
                in_run = false;
                proof {
                    let last = oldp.len() as int;
                    assert(plates@[last].left == run_start && plates@[last].right == x - 1);
                    assert forall|xp: int| 0 <= xp < x + 1 && occupied(cells@, cw, ch, xp, cy)
                        implies exists|k: int| 0 <= k < plates@.len()
                            && (#[trigger] plates@[k]).left <= xp <= plates@[k].right
                    by {
                        if exists|k: int| 0 <= k < oldp.len()
                            && (#[trigger] oldp[k]).left <= xp <= oldp[k].right {
                            let k = choose|k: int| 0 <= k < oldp.len()
                                && (#[trigger] oldp[k]).left <= xp <= oldp[k].right;
                            assert(plates@[k].left <= xp <= plates@[k].right);
                        } else {
                            assert(run_start <= xp <= x - 1);
                            assert(plates@[last].left <= xp <= plates@[last].right);
                        }
                    }
                }
            }
        }
        x = x + 1;
    }
    proof {
        assert(!in_run) by {
            if in_run {
                assert(occupied(cells@, cw, ch, w as int, cy));
            }
        }
        assert forall|x0: int| #[trigger] occupied(cells@, cw, ch, x0, cy)
            implies exists|k: int| 0 <= k < plates@.len()
                && (#[trigger] plates@[k]).left <= x0 <= plates@[k].right
        by {
            assert(0 <= x0 < x);
        }
        assert forall|l: int, r: int| #[trigger] is_plate(cells@, cw, ch, cy, l, r)
            implies extent_in_plates(plates@, l as i32, r as i32)
        by {
            assert(occupied(cells@, cw, ch, l, cy));
            let k = choose|k: int| 0 <= k < plates@.len()
                && (#[trigger] plates@[k]).left <= l <= plates@[k].right;
            lemma_plate_unique(
                cells@, cw, ch, cy,
                l, r, plates@[k].left as int, plates@[k].right as int,
            );
            assert(plates@[k].left == l as i32 && plates@[k].right == r as i32);
        }
    }
    plates
}

/// Whether the rectangle lies inside the `w` by `h` grid and is
/// non-empty.
pub open spec fn rect_valid(r: TileRect, w: int, h: int) -> bool {
    &&& 0 <= r.left <= r.right < w
    &&& 0 <= r.bottom <= r.top < h
}

/// Whether two rectangles share no cell.
pub open spec fn rects_disjoint(a: TileRect, b: TileRect) -> bool {
    ||| a.right < b.left
    ||| b.right < a.left
    ||| a.top < b.bottom
    ||| b.top < a.bottom
}

/// Every row of the rectangle carries the exact plate `[left, right]`.
pub open spec fn rect_rows_are_plates(cells: Seq<GridCell>, w: int, h: int, r: TileRect) -> bool {
    forall|yy: int| r.bottom <= yy <= r.top
        ==> is_plate(cells, w, h, yy, r.left as int, r.right as int)
}

/// A rectangle still growing through the sweep: its rows each carry its
/// exact plate, its top row is `row`, and the row below its bottom does
/// not carry that plate (it was opened as low as it could be).
pub open spec fn open_rect_ok(cells: Seq<GridCell>, w: int, h: int, row: int, r: TileRect) -> bool {
    &&& 0 <= r.bottom <= r.top
    &&& r.top == row
    &&& rect_rows_are_plates(cells, w, h, r)
    &&& !is_plate(cells, w, h, r.bottom - 1, r.left as int, r.right as int)
}

/// A finished rectangle: its rows each carry its exact plate and that
/// plate appears on neither the row below its bottom nor the row above
/// its top, so no further vertical merge was possible.
pub open spec fn closed_rect_ok(cells: Seq<GridCell>, w: int, h: int, r: TileRect) -> bool {
    &&& 0 <= r.bottom <= r.top
    &&& rect_rows_are_plates(cells, w, h, r)
    &&& !is_plate(cells, w, h, r.bottom - 1, r.left as int, r.right as int)
    &&& !is_plate(cells, w, h, r.top + 1, r.left as int, r.right as int)
}

/// Every plate of row `row` has an open rectangle of its exact extent.
pub open spec fn plates_all_open(
    cells: Seq<GridCell>,
    w: int,
    h: int,
    row: int,
    open: Seq<TileRect>,
) -> bool {
    forall|l: int, r: int| #[trigger] is_plate(cells, w, h, row, l, r)
        ==> exists|j: int| 0 <= j < open.len()
            && (#[trigger] open[j]).left == l && open[j].right == r
}

/// The open rectangles of the sweep at row `row`: each is well-formed
/// and topped at `row`, they are ordered with column gaps, and every
/// plate of row `row` has one of its exact extent.
pub open spec fn opens_ok(
    cells: Seq<GridCell>,
    w: int,
    h: int,
    row: int,
    open: Seq<TileRect>,
) -> bool {
    &&& forall|j: int| 0 <= j < open.len()
            ==> open_rect_ok(cells, w, h, row, #[trigger] open[j])
    &&& forall|j1: int, j2: int| 0 <= j1 < j2 < open.len()
            ==> (#[trigger] open[j1]).right + 1 < (#[trigger] open[j2]).left
    &&& plates_all_open(cells, w, h, row, open)
}

/// The finished rectangles of the sweep: each is a maximal merge, none
/// reaches above row `ymax`, and they are pairwise disjoint.
pub open spec fn closeds_ok(
    cells: Seq<GridCell>,
    w: int,
    h: int,
    ymax: int,
    closed: Seq<TileRect>,
) -> bool {
    &&& forall|i: int| 0 <= i < closed.len()
            ==> closed_rect_ok(cells, w, h, #[trigger] closed[i])
    &&& forall|i: int| 0 <= i < closed.len() ==> (#[trigger] closed[i]).top <= ymax
    &&& forall|i1: int, i2: int|
            0 <= i1 < closed.len() && 0 <= i2 < closed.len() && i1 != i2
            ==> rects_disjoint(#[trigger] closed[i1], #[trigger] closed[i2])
}

/// No finished rectangle shares a cell with an open one.
pub open spec fn cross_disjoint(closed: Seq<TileRect>, open: Seq<TileRect>) -> bool {
    forall|i: int, j: int| 0 <= i < closed.len() && 0 <= j < open.len()
        ==> rects_disjoint(#[trigger] closed[i], #[trigger] open[j])
}

/// Every occupied cell strictly below row `y` lies on a finished or an
/// open rectangle.
pub open spec fn covered_below(
    cells: Seq<GridCell>,
    w: int,
    h: int,
    y: int,
    closed: Seq<TileRect>,
    open: Seq<TileRect>,
) -> bool {
    forall|x: int, yy: int| yy < y && #[trigger] occupied(cells, w, h, x, yy)
        ==> (exists|i: int| 0 <= i < closed.len()
                && #[trigger] rect_covers(closed[i], x, yy))
            || (exists|j: int| 0 <= j < open.len()
                && #[trigger] rect_covers(open[j], x, yy))
}

/// The rectangles exactly tile the occupied cells of the grid: each is
/// a valid non-empty rectangle, each covers only occupied cells, every
/// occupied cell is covered, and no two rectangles share a cell.
pub open spec fn tiles_exactly(cells: Seq<GridCell>, w: int, h: int, rects: Seq<TileRect>) -> bool {
    &&& forall|i: int| 0 <= i < rects.len() ==> rect_valid(#[trigger] rects[i], w, h)
    &&& forall|i: int, x: int, y: int| 0 <= i < rects.len()
            && #[trigger] rect_covers(rects[i], x, y) ==> occupied(cells, w, h, x, y)
    &&& forall|x: int, y: int| occupied(cells, w, h, x, y)
            ==> exists|i: int| 0 <= i < rects.len() && #[trigger] rect_covers(rects[i], x, y)
    &&& forall|i: int, j: int| 0 <= i < rects.len() && 0 <= j < rects.len() && i != j
            ==> rects_disjoint(#[trigger] rects[i], #[trigger] rects[j])
}

/// The merge is maximal along identical-extent vertical runs: every
/// rectangle's extent is a plate of each of its rows, and that exact
/// plate appears on neither the row below nor the row above the
/// rectangle.
pub open spec fn merges_maximally(cells: Seq<GridCell>, w: int, h: int, rects: Seq<TileRect>) -> bool {
    forall|i: int| 0 <= i < rects.len() ==> closed_rect_ok(cells, w, h, #[trigger] rects[i])
}

/// Looks up an in-progress rectangle by its exact horizontal extent.
fn find_open_rect(open: &Vec<TileRect>, left: i32, right: i32) -> (r: Option<usize>)
    ensures
        match r {
            Some(j) => 0 <= j < open@.len() && open@[j as int].left == left
                && open@[j as int].right == right,
            None => forall|j: int| 0 <= j < open@.len()
                ==> !((#[trigger] open@[j]).left == left && open@[j].right == right),
        },
{
    let n = open.len();
    let mut j: usize = 0;
    while j < n
        invariant
            0 <= j <= n,
            n == open@.len(),
            forall|jj: int| 0 <= jj < j
                ==> !((#[trigger] open@[jj]).left == left && open@[jj].right == right),
        decreases n - j,
    {
        if open[j].left == left && open[j].right == right {
            return Some(j);
        }
        j = j + 1;
    }
    None
}

/// Whether the row's plate list holds a plate with this exact extent.
fn plate_present(cur: &Vec<Plate>, left: i32, right: i32) -> (b: bool)
    ensures
        b == extent_in_plates(cur@, left, right),
{
    let n = cur.len();
    let mut k: usize = 0;
    while k < n
        invariant
            0 <= k <= n,
            n == cur@.len(),
            forall|kk: int| 0 <= kk < k
                ==> !((#[trigger] cur@[kk]).left == left && cur@[kk].right == right),
        decreases n - k,
    {
        if cur[k].left == left && cur[k].right == right {
            assert(cur@[k as int].left == left && cur@[k as int].right == right);
            return true;
        }
        k = k + 1;
    }
    false
}

/// The bookkeeping of the banking pass over the open rectangles, after
/// the first `j` have been examined: past `ocn` the finished list holds
/// `open[srcs[t]]` at position `ocn + t`, where `srcs` lists, in
/// increasing order, exactly the examined indices whose plate vanished.
pub open spec fn bank_inv(
    cur: Seq<Plate>,
    open: Seq<TileRect>,
    j: int,
    ocn: int,
    closed: Seq<TileRect>,
    srcs: Seq<int>,
) -> bool {
    &&& 0 <= ocn
    &&& closed.len() == ocn + srcs.len()
    &&& forall|t: int| 0 <= t < srcs.len() ==> 0 <= #[trigger] srcs[t] < j
    &&& forall|t: int| 0 <= t < srcs.len() ==> closed[ocn + t] == open[#[trigger] srcs[t]]
    &&& forall|t: int| 0 <= t < srcs.len()
            ==> !extent_in_plates(cur, open[#[trigger] srcs[t]].left, open[srcs[t]].right)
    &&& forall|t1: int, t2: int| 0 <= t1 < t2 < srcs.len()
            ==> #[trigger] srcs[t1] < #[trigger] srcs[t2]
    &&& forall|jj: int| 0 <= jj < j
            && !extent_in_plates(cur, (#[trigger] open[jj]).left, open[jj].right)
            ==> exists|t: int| 0 <= t < srcs.len() && #[trigger] srcs[t] == jj
}

/// Banking the vanished rectangle at index `j` preserves the banking
/// bookkeeping.
proof fn lemma_bank_step(
    cur: Seq<Plate>,
    open: Seq<TileRect>,
    j: int,
    ocn: int,
    prev: Seq<TileRect>,
    srcs: Seq<int>,
)
    requires
        0 <= j < open.len(),
        bank_inv(cur, open, j, ocn, prev, srcs),
        !extent_in_plates(cur, open[j].left, open[j].right),
    ensures
        bank_inv(cur, open, j + 1, ocn, prev.push(open[j]), srcs.push(j)),
{
    let closed = prev.push(open[j]);
    let nsrcs = srcs.push(j);
    let tl = srcs.len() as int;
    assert(nsrcs[tl] == j);
    assert forall|t: int| 0 <= t < nsrcs.len()
        implies 0 <= #[trigger] nsrcs[t] < j + 1
            && closed[ocn + t] == open[nsrcs[t]]
            && !extent_in_plates(cur, open[nsrcs[t]].left, open[nsrcs[t]].right)
    by {
        if t < tl {
            assert(nsrcs[t] == srcs[t]);
            assert(closed[ocn + t] == prev[ocn + t]);
        } else {
            assert(closed[ocn + t] == open[j]);
        }
    }
    assert forall|t1: int, t2: int| 0 <= t1 < t2 < nsrcs.len()
        implies #[trigger] nsrcs[t1] < #[trigger] nsrcs[t2]
    by {
        if t2 < tl {
            assert(nsrcs[t1] == srcs[t1] && nsrcs[t2] == srcs[t2]);
        } else {
            assert(nsrcs[t1] == srcs[t1] && srcs[t1] < j);
        }
    }
    assert forall|jj: int| 0 <= jj < j + 1
        && !extent_in_plates(cur, (#[trigger] open[jj]).left, open[jj].right)
        implies exists|t: int| 0 <= t < nsrcs.len() && #[trigger] nsrcs[t] == jj
    by {
        if jj < j {
            let t0 = choose|t0: int| 0 <= t0 < srcs.len() && #[trigger] srcs[t0] == jj;
            assert(nsrcs[t0] == jj);
        } else {
            assert(nsrcs[tl] == jj);
        }
    }
}

/// Skipping the still-matched rectangle at index `j` preserves the
/// banking bookkeeping.
proof fn lemma_bank_skip(
    cur: Seq<Plate>,
    open: Seq<TileRect>,
    j: int,
    ocn: int,
    closed: Seq<TileRect>,
    srcs: Seq<int>,
)
    requires
        0 <= j < open.len(),
        bank_inv(cur, open, j, ocn, closed, srcs),
        extent_in_plates(cur, open[j].left, open[j].right),
    ensures
        bank_inv(cur, open, j + 1, ocn, closed, srcs),
{
    assert forall|jj: int| 0 <= jj < j + 1
        && !extent_in_plates(cur, (#[trigger] open[jj]).left, open[jj].right)
        implies exists|t: int| 0 <= t < srcs.len() && #[trigger] srcs[t] == jj
    by {
        assert(jj != j);
    }
}

/// Banks every open rectangle whose plate is absent from the current
/// row's plate list, appending it to the finished rectangles. Returns
/// the banked rectangles' indices into the open list, in order.
#[verifier::rlimit(100)]
fn bank_vanished(
    closed: &mut Vec<TileRect>,
    open: &Vec<TileRect>,
    cur: &Vec<Plate>,
    cells: &Vec<GridCell>,
    w: i32,
    h: i32,
    y: i32,
) -> (srcs: Ghost<Seq<int>>)
    requires
        row_facts(cells@, w as int, h as int, y as int, cur@),
        opens_ok(cells@, w as int, h as int, y - 1, open@),
        closeds_ok(cells@, w as int, h as int, y - 2, old(closed)@),
        cross_disjoint(old(closed)@, open@),
        covered_below(cells@, w as int, h as int, y as int, old(closed)@, open@),
    ensures
        forall|i: int| 0 <= i < old(closed)@.len()
            ==> final(closed)@[i] == old(closed)@[i],
        bank_inv(cur@, open@, open@.len() as int, old(closed)@.len() as int,
            final(closed)@, srcs@),
        closeds_ok(cells@, w as int, h as int, y - 1, final(closed)@),
        covered_below(cells@, w as int, h as int, y as int, final(closed)@, open@),
{
    let ghost cw = w as int;
    let ghost ch = h as int;
    let ghost cy = y as int;
    let ghost oc = closed@;
    let ghost mut srcs: Seq<int> = Seq::empty();
    let mut j: usize = 0;
    while j < open.len()
        invariant
            cw == w as int && ch == h as int && cy == y as int,
            opens_ok(cells@, cw, ch, cy - 1, open@),
            0 <= j <= open@.len(),
            forall|i: int| 0 <= i < oc.len() ==> closed@[i] == oc[i],
            bank_inv(cur@, open@, j as int, oc.len() as int, closed@, srcs),
        decreases open@.len() - j,
    {
        let ghost prev = closed@;
        if !plate_present(cur, open[j].left, open[j].right) {
            proof {
                lemma_bank_step(cur@, open@, j as int, oc.len() as int, prev, srcs);
            }
            closed.push(open[j]);
            proof {
                srcs = srcs.push(j as int);
                assert(closed@ == prev.push(open@[j as int]));
                assert forall|i: int| 0 <= i < oc.len() implies closed@[i] == oc[i] by {
                    assert(closed@[i] == prev[i]);
                }
            }
        } else {
            proof {
                lemma_bank_skip(cur@, open@, j as int, oc.len() as int, closed@, srcs);
            }
        }
        j = j + 1;
    }
    proof {
        lemma_banked_finished(cells@, cw, ch, cy, cur@, open@, oc, closed@, srcs);
        assert forall|x: int, yy: int| yy < cy && #[trigger] occupied(cells@, cw, ch, x, yy)
            implies (exists|i: int| 0 <= i < closed@.len()
                    && #[trigger] rect_covers(closed@[i], x, yy))
                || (exists|jj: int| 0 <= jj < open@.len()
                    && #[trigger] rect_covers(open@[jj], x, yy))
        by {
            if exists|i: int| 0 <= i < oc.len() && #[trigger] rect_covers(oc[i], x, yy) {
                let i = choose|i: int| 0 <= i < oc.len() && #[trigger] rect_covers(oc[i], x, yy);
                assert(closed@[i] == oc[i]);
                assert(rect_covers(closed@[i], x, yy));
            }
        }
    }
    Ghost(srcs)
}

/// Once every vanished rectangle is banked at row `y`, the finished
/// list is well-formed again: each banked rectangle is maximal, none
/// reaches above the previous row, and the list stays pairwise
/// disjoint.
#[verifier::rlimit(100)]
proof fn lemma_banked_finished(
    cells: Seq<GridCell>,
    w: int,
    h: int,
    y: int,
    cur: Seq<Plate>,
    open: Seq<TileRect>,
    ocs: Seq<TileRect>,
    closed: Seq<TileRect>,
    srcs: Seq<int>,
)
    requires
        row_facts(cells, w, h, y, cur),
        opens_ok(cells, w, h, y - 1, open),
        closeds_ok(cells, w, h, y - 2, ocs),
        cross_disjoint(ocs, open),
        forall|i: int| 0 <= i < ocs.len() ==> closed[i] == ocs[i],
        bank_inv(cur, open, open.len() as int, ocs.len() as int, closed, srcs),
    ensures
        closeds_ok(cells, w, h, y - 1, closed),
{
    let ocn = ocs.len() as int;
    // Each banked rectangle is finished: the row above its top no
    // longer carries its plate.
    assert forall|i: int| 0 <= i < closed.len()
        implies closed_rect_ok(cells, w, h, #[trigger] closed[i])
            && closed[i].top <= y - 1
    by {
        if i < ocn {
            assert(closed[i] == ocs[i]);
            assert(closed_rect_ok(cells, w, h, ocs[i]));
            assert(ocs[i].top <= y - 2);
        } else {
            let t = i - ocn;
            assert(0 <= srcs[t] < open.len());
            assert(closed[i] == open[srcs[t]]);
            assert(open_rect_ok(cells, w, h, y - 1, open[srcs[t]]));
            assert(!is_plate(cells, w, h, y,
                open[srcs[t]].left as int, open[srcs[t]].right as int));
        }
    }
    assert forall|i1: int, i2: int|
        0 <= i1 < closed.len() && 0 <= i2 < closed.len() && i1 != i2
        implies rects_disjoint(#[trigger] closed[i1], #[trigger] closed[i2])
    by {
        if i1 < ocn && i2 < ocn {
            assert(closed[i1] == ocs[i1] && closed[i2] == ocs[i2]);
            assert(rects_disjoint(ocs[i1], ocs[i2]));
        } else if ocn <= i1 && ocn <= i2 {
            let t1 = i1 - ocn;
            let t2 = i2 - ocn;
            assert(closed[i1] == open[srcs[t1]] && closed[i2] == open[srcs[t2]]);
            if t1 < t2 {
                assert(srcs[t1] < srcs[t2]);
                assert(open[srcs[t1]].right + 1 < open[srcs[t2]].left);
            } else {
                assert(srcs[t2] < srcs[t1]);
                assert(open[srcs[t2]].right + 1 < open[srcs[t1]].left);
            }
        } else if ocn <= i1 {
            let t1 = i1 - ocn;
            assert(closed[i1] == open[srcs[t1]]);
            assert(closed[i2] == ocs[i2]);
            assert(rects_disjoint(ocs[i2], open[srcs[t1]]));
        } else {
            let t2 = i2 - ocn;
            assert(closed[i2] == open[srcs[t2]]);
            assert(closed[i1] == ocs[i1]);
            assert(rects_disjoint(ocs[i1], open[srcs[t2]]));
        }
    }
}

/// Builds the next row's open rectangles, one per plate of the row:
/// grown by one row where the identical extent was already open, fresh
/// otherwise.
#[verifier::rlimit(100)]
fn grow_row(
    open: &Vec<TileRect>,
    cur: &Vec<Plate>,
    cells: &Vec<GridCell>,
    w: i32,
    h: i32,
    y: i32,
) -> (new_open: Vec<TileRect>)
    requires
        0 <= y,
        row_facts(cells@, w as int, h as int, y as int, cur@),
        opens_ok(cells@, w as int, h as int, y - 1, open@),
    ensures
        new_open@.len() == cur@.len(),
        forall|kk: int| 0 <= kk < new_open@.len()
            ==> (#[trigger] new_open@[kk]).left == cur@[kk].left
                && new_open@[kk].right == cur@[kk].right,
        forall|jj: int, kk: int| 0 <= jj < open@.len() && 0 <= kk < new_open@.len()
            && (#[trigger] open@[jj]).left == (#[trigger] cur@[kk]).left
            && open@[jj].right == cur@[kk].right
            ==> new_open@[kk].bottom == open@[jj].bottom,
        opens_ok(cells@, w as int, h as int, y as int, new_open@),
{
    let ghost cw = w as int;
    let ghost ch = h as int;
    let ghost cy = y as int;
    let mut new_open: Vec<TileRect> = Vec::new();
    let mut k: usize = 0;
    while k < cur.len()
        invariant
            cw == w as int && ch == h as int && cy == y as int,
            0 <= y,
            row_facts(cells@, cw, ch, cy, cur@),
            opens_ok(cells@, cw, ch, cy - 1, open@),
            0 <= k <= cur@.len(),
            new_open@.len() == k,
            forall|kk: int| 0 <= kk < k
                ==> (#[trigger] new_open@[kk]).left == cur@[kk].left
                    && new_open@[kk].right == cur@[kk].right
                    && open_rect_ok(cells@, cw, ch, cy, new_open@[kk]),
            forall|jj: int, kk: int| 0 <= jj < open@.len() && 0 <= kk < k
                && (#[trigger] open@[jj]).left == (#[trigger] cur@[kk]).left
                && open@[jj].right == cur@[kk].right
                ==> new_open@[kk].bottom == open@[jj].bottom,
        decreases cur@.len() - k,
    {
        let p = cur[k];
        proof {
            assert(is_plate(cells@, cw, ch, cy, p.left as int, p.right as int));
        }
        match find_open_rect(open, p.left, p.right) {
            Some(idx) => {
                let grown = TileRect {
                    left: p.left,
                    right: p.right,
                    bottom: open[idx].bottom,
                    top: y,
                };
                proof {
                    assert(open_rect_ok(cells@, cw, ch, cy - 1, open@[idx as int]));
                    assert forall|yy: int| grown.bottom <= yy <= grown.top
                        implies is_plate(cells@, cw, ch, yy,
                            grown.left as int, grown.right as int)
                    by {
                        if yy < cy {
                            assert(rect_rows_are_plates(cells@, cw, ch, open@[idx as int]));
                        }
                    }
                    // Extents are unique among the open rectangles, so
                    // any open rectangle of this extent is the one found.
                    assert forall|jj: int| 0 <= jj < open@.len()
                        && (#[trigger] open@[jj]).left == p.left && open@[jj].right == p.right
                        implies jj == idx as int
                    by {
                        if jj < idx as int {
                            assert(open@[jj].right + 1 < open@[idx as int].left);
                        }
                        if jj > idx as int {
                            assert(open@[idx as int].right + 1 < open@[jj].left);
                        }
                    }
                }
                new_open.push(grown);
            }
            None => {
                let fresh = TileRect { left: p.left, right: p.right, bottom: y, top: y };
                proof {
                    // No open rectangle has this extent, so the row
                    // below carries no such plate: the fresh rectangle
                    // opens as low as it can.
                    assert(!is_plate(cells@, cw, ch, cy - 1,
                        p.left as int, p.right as int)) by {
                        if is_plate(cells@, cw, ch, cy - 1, p.left as int, p.right as int) {
                            assert(plates_all_open(cells@, cw, ch, cy - 1, open@));
                        }
                    }
                    assert forall|yy: int| fresh.bottom <= yy <= fresh.top
                        implies is_plate(cells@, cw, ch, yy,
                            fresh.left as int, fresh.right as int)
                    by {
                    }
                }
                new_open.push(fresh);
            }
        }
        k = k + 1;
    }
    proof {
        assert forall|l: int, r: int| #[trigger] is_plate(cells@, cw, ch, cy, l, r)
            implies exists|j: int| 0 <= j < new_open@.len()
                && (#[trigger] new_open@[j]).left == l && new_open@[j].right == r
        by {
            assert(extent_in_plates(cur@, l as i32, r as i32));
            let k0 = choose|k0: int| 0 <= k0 < cur@.len()
                && (#[trigger] cur@[k0]).left == l as i32 && cur@[k0].right == r as i32;
            assert(occupied(cells@, cw, ch, l, cy));
            assert(new_open@[k0].left == l && new_open@[k0].right == r);
        }
        assert(plates_all_open(cells@, cw, ch, cy, new_open@));
        assert forall|k1: int, k2: int| 0 <= k1 < k2 < new_open@.len()
            implies (#[trigger] new_open@[k1]).right + 1 < (#[trigger] new_open@[k2]).left
        by {
            assert(cur@[k1].right + 1 < cur@[k2].left);
        }
    }
    new_open
}

/// After banking and growing at row `y`, the finished rectangles stay
/// disjoint from the new open ones, and every occupied cell up to and
/// including row `y` stays covered.
#[verifier::rlimit(100)]
proof fn lemma_sweep_step(
    cells: Seq<GridCell>,
    w: int,
    h: int,
    y: int,
    cur: Seq<Plate>,
    open: Seq<TileRect>,
    ocn: int,
    closed: Seq<TileRect>,
    srcs: Seq<int>,
    new_open: Seq<TileRect>,
)
    requires
        row_facts(cells, w, h, y, cur),
        opens_ok(cells, w, h, y - 1, open),
        closeds_ok(cells, w, h, y - 1, closed),
        0 <= ocn <= closed.len(),
        forall|i: int, j: int| 0 <= i < ocn && 0 <= j < open.len()
            ==> rects_disjoint(#[trigger] closed[i], #[trigger] open[j]),
        bank_inv(cur, open, open.len() as int, ocn, closed, srcs),
        covered_below(cells, w, h, y, closed, open),
        new_open.len() == cur.len(),
        forall|kk: int| 0 <= kk < new_open.len()
            ==> (#[trigger] new_open[kk]).left == cur[kk].left
                && new_open[kk].right == cur[kk].right,
        forall|jj: int, kk: int| 0 <= jj < open.len() && 0 <= kk < new_open.len()
            && (#[trigger] open[jj]).left == (#[trigger] cur[kk]).left
            && open[jj].right == cur[kk].right
            ==> new_open[kk].bottom == open[jj].bottom,
        opens_ok(cells, w, h, y, new_open),
    ensures
        cross_disjoint(closed, new_open),
        covered_below(cells, w, h, y + 1, closed, new_open),
{
    assert forall|i: int, kk: int|
        0 <= i < closed.len() && 0 <= kk < new_open.len()
        implies rects_disjoint(#[trigger] closed[i], #[trigger] new_open[kk])
    by {
        let n = new_open[kk];
        assert(open_rect_ok(cells, w, h, y, n));
        assert(closed[i].top <= y - 1);
        if n.bottom == y {
            // A fresh rectangle lies wholly on row y, above every
            // finished one.
        } else {
            // A grown rectangle shares its columns and bottom with the
            // open rectangle it extends.
            assert(n.bottom <= y - 1 <= n.top);
            assert(is_plate(cells, w, h, y - 1, n.left as int, n.right as int)) by {
                assert(rect_rows_are_plates(cells, w, h, n));
            }
            let jj = choose|jj: int| 0 <= jj < open.len()
                && (#[trigger] open[jj]).left == n.left && open[jj].right == n.right;
            assert(new_open[kk].bottom == open[jj].bottom) by {
                assert(cur[kk].left == n.left && cur[kk].right == n.right);
            }
            if i < ocn {
                assert(rects_disjoint(closed[i], open[jj]));
                assert(open[jj].top == y - 1);
            } else {
                let jc = srcs[i - ocn];
                assert(closed[i] == open[jc]);
                assert(!extent_in_plates(cur, open[jc].left, open[jc].right));
                assert(jc != jj) by {
                    assert(extent_in_plates(cur, n.left, n.right)) by {
                        assert(cur[kk].left == n.left && cur[kk].right == n.right);
                    }
                }
                if jc < jj {
                    assert(open[jc].right + 1 < open[jj].left);
                } else {
                    assert(open[jj].right + 1 < open[jc].left);
                }
            }
        }
    }
    assert forall|x: int, yy: int| yy < y + 1 && #[trigger] occupied(cells, w, h, x, yy)
        implies (exists|i: int| 0 <= i < closed.len()
                && #[trigger] rect_covers(closed[i], x, yy))
            || (exists|kk: int| 0 <= kk < new_open.len()
                && #[trigger] rect_covers(new_open[kk], x, yy))
    by {
        if yy == y {
            let k0 = choose|k0: int| 0 <= k0 < cur.len()
                && (#[trigger] cur[k0]).left <= x <= cur[k0].right;
            assert(open_rect_ok(cells, w, h, y, new_open[k0]));
            assert(rect_covers(new_open[k0], x, yy));
        } else {
            if exists|jj: int| 0 <= jj < open.len()
                && #[trigger] rect_covers(open[jj], x, yy) {
                let jj = choose|jj: int| 0 <= jj < open.len()
                    && #[trigger] rect_covers(open[jj], x, yy);
                if extent_in_plates(cur, open[jj].left, open[jj].right) {
                    let kk = choose|kk: int| 0 <= kk < cur.len()
                        && (#[trigger] cur[kk]).left == open[jj].left
                        && cur[kk].right == open[jj].right;
                    assert(new_open[kk].bottom == open[jj].bottom);
                    assert(open_rect_ok(cells, w, h, y, new_open[kk]));
                    assert(rect_covers(new_open[kk], x, yy));
                } else {
                    let t = choose|t: int| 0 <= t < srcs.len() && #[trigger] srcs[t] == jj;
                    assert(closed[ocn + t] == open[jj]);
                    assert(rect_covers(closed[ocn + t], x, yy));
                }
            }
        }
    }
}

/// Merges the occupied cells of the `w` by `h` grid into rectangles,
/// sweeping the rows bottom to top. Plates of consecutive rows merge
/// exactly when their extents are identical; a plate with no
/// predecessor opens a new rectangle, and a rectangle whose plate
/// vanishes is emitted. An empty final sweep step closes every
/// rectangle still open. An empty occupied set yields no rectangles.
#[verifier::rlimit(100)]
pub fn build_wall_rects(cells: &Vec<GridCell>, w: i32, h: i32) -> (rects: Vec<TileRect>)
    requires
        0 <= w < i32::MAX,
        0 <= h < i32::MAX,
    ensures
        tiles_exactly(cells@, w as int, h as int, rects@),
        merges_maximally(cells@, w as int, h as int, rects@),
{
    let ghost cw = w as int;
    let ghost ch = h as int;
    let mut closed: Vec<TileRect> = Vec::new();
    let mut open: Vec<TileRect> = Vec::new();
    let mut y: i32 = 0;
    proof {
        assert forall|l: int, r: int| !(#[trigger] is_plate(cells@, cw, ch, -1, l, r)) by {
            if is_plate(cells@, cw, ch, -1, l, r) {
                assert(occupied(cells@, cw, ch, l, -1));
            }
        }
        assert(plates_all_open(cells@, cw, ch, -1, open@));
    }
    while y <= h
        invariant
            cw == w as int && ch == h as int,
            0 <= w < i32::MAX,
            0 <= h < i32::MAX,
            0 <= y <= h + 1,
            opens_ok(cells@, cw, ch, y - 1, open@),
            closeds_ok(cells@, cw, ch, y - 2, closed@),
            cross_disjoint(closed@, open@),
            covered_below(cells@, cw, ch, y as int, closed@, open@),
        decreases h + 1 - y,
    {
        let ghost cy = y as int;
        let cur: Vec<Plate>;
        if y < h {
            cur = row_plates(cells, w, h, y);
        } else {
            cur = Vec::new();
            proof {
                // The empty final sweep step: row h has no occupied
                // cell, so no plates at all.
                assert forall|l: int, r: int| !(#[trigger] is_plate(cells@, cw, ch, cy, l, r)) by {
                    if is_plate(cells@, cw, ch, cy, l, r) {
                        assert(occupied(cells@, cw, ch, l, cy));
                    }
                }
                assert(row_facts(cells@, cw, ch, cy, cur@));
            }
        }
        let ghost ocs = closed@;
        let ghost ocn = closed@.len() as int;
        let srcs = bank_vanished(&mut closed, &open, &cur, cells, w, h, y);
        let new_open = grow_row(&open, &cur, cells, w, h, y);
        proof {
            assert forall|i: int, jx: int| 0 <= i < ocn && 0 <= jx < open@.len()
                implies rects_disjoint(#[trigger] closed@[i], #[trigger] open@[jx])
            by {
                assert(closed@[i] == ocs[i]);
                assert(rects_disjoint(ocs[i], open@[jx]));
            }
            lemma_sweep_step(cells@, cw, ch, cy, cur@, open@, ocn, closed@, srcs@, new_open@);
        }
        open = new_open;
        y = y + 1;
    }
    proof {
        assert(open@.len() == 0) by {
            if open@.len() > 0 {
                assert(open_rect_ok(cells@, cw, ch, y - 1, open@[0]));
                assert(is_plate(cells@, cw, ch, h as int,
                    open@[0].left as int, open@[0].right as int)) by {
                    assert(rect_rows_are_plates(cells@, cw, ch, open@[0]));
                }
                assert(occupied(cells@, cw, ch, open@[0].left as int, h as int));
            }
        }
        assert forall|i: int| 0 <= i < closed@.len()
            implies rect_valid(#[trigger] closed@[i], cw, ch)
        by {
            let r = closed@[i];
            assert(closed_rect_ok(cells@, cw, ch, r));
            assert(is_plate(cells@, cw, ch, r.bottom as int, r.left as int, r.right as int)) by {
                assert(rect_rows_are_plates(cells@, cw, ch, r));
            }
            assert(is_plate(cells@, cw, ch, r.top as int, r.left as int, r.right as int)) by {
                assert(rect_rows_are_plates(cells@, cw, ch, r));
            }
            assert(occupied(cells@, cw, ch, r.left as int, r.bottom as int));
            assert(occupied(cells@, cw, ch, r.right as int, r.top as int));
        }
        assert forall|i: int, x: int, yy: int| 0 <= i < closed@.len()
            && #[trigger] rect_covers(closed@[i], x, yy)
            implies occupied(cells@, cw, ch, x, yy)
        by {
            let r = closed@[i];
            assert(closed_rect_ok(cells@, cw, ch, r));
            assert(is_plate(cells@, cw, ch, yy, r.left as int, r.right as int)) by {
                assert(rect_rows_are_plates(cells@, cw, ch, r));
            }
        }
    }
    closed
}


/// Friction coefficient of every wall collider, in thousandths: the
/// walls are built with a fixed coefficient of one.
pub const WALL_FRICTION_MILLI: i64 = 1000;

/// A static axis-aligned physics collider in world units. A rectangle's
/// world half-extents and center are halves of whole pixel amounts, so
/// all four fields carry half-pixel units: the world value is the field
/// divided by two. Friction is in thousandths.
#[derive(Clone, Copy, Debug, PartialEq, Eq, Structural)]
pub struct StaticCollider {
    pub half_extent_x: i64,
    pub half_extent_y: i64,
    pub center_x: i64,
    pub center_y: i64,
    pub friction_milli: i64,
}

/// How a finished rectangle reads as a world-unit collider, for a grid
/// of `grid` pixels per cell: the half-extents span half the covered
/// cells and the center sits midway across them, both in half-pixels.
pub open spec fn collider_matches(c: StaticCollider, r: TileRect, grid: int) -> bool {
    &&& c.half_extent_x == (r.right - r.left + 1) * grid
    &&& c.half_extent_y == (r.top - r.bottom + 1) * grid
    &&& c.center_x == (r.left + r.right + 1) * grid
    &&& c.center_y == (r.bottom + r.top + 1) * grid
    &&& c.friction_milli == WALL_FRICTION_MILLI
}

/// Converts one finished rectangle to a world-unit collider.
fn rect_collider(r: TileRect, grid_size: i32) -> (c: StaticCollider)
    requires
        0 <= r.left <= r.right < i32::MAX - 1,
        0 <= r.bottom <= r.top < i32::MAX - 1,
        0 <= grid_size,
    ensures
        collider_matches(c, r, grid_size as int),
{
    let g: i64 = grid_size as i64;
    let left: i64 = r.left as i64;
    let right: i64 = r.right as i64;
    let bottom: i64 = r.bottom as i64;
    let top: i64 = r.top as i64;
    proof {
        assert((right - left + 1) * g < 0x8000_0000_0000_0000) by (nonlinear_arith)
            requires 0 <= right - left + 1 < 0x1_0000_0000 && 0 <= g < 0x8000_0000,
        ;
        assert((top - bottom + 1) * g < 0x8000_0000_0000_0000) by (nonlinear_arith)
            requires 0 <= top - bottom + 1 < 0x1_0000_0000 && 0 <= g < 0x8000_0000,
        ;
        assert((left + right + 1) * g < 0x8000_0000_0000_0000) by (nonlinear_arith)
            requires 0 <= left + right + 1 < 0x1_0000_0000 && 0 <= g < 0x8000_0000,
        ;
        assert((bottom + top + 1) * g < 0x8000_0000_0000_0000) by (nonlinear_arith)
            requires 0 <= bottom + top + 1 < 0x1_0000_0000 && 0 <= g < 0x8000_0000,
        ;
        assert((right - left + 1) * g >= 0) by (nonlinear_arith)
            requires right - left + 1 >= 0 && g >= 0,
        ;
        assert((top - bottom + 1) * g >= 0) by (nonlinear_arith)
            requires top - bottom + 1 >= 0 && g >= 0,
        ;
        assert((left + right + 1) * g >= 0) by (nonlinear_arith)
            requires left + right + 1 >= 0 && g >= 0,
        ;
        assert((bottom + top + 1) * g >= 0) by (nonlinear_arith)
            requires bottom + top + 1 >= 0 && g >= 0,
        ;
    }
    StaticCollider {
        half_extent_x: (right - left + 1) * g,
        half_extent_y: (top - bottom + 1) * g,
        center_x: (left + right + 1) * g,
        center_y: (bottom + top + 1) * g,
        friction_milli: WALL_FRICTION_MILLI,
    }
}

/// The colliders read off a rectangle list, one for one.
pub open spec fn colliders_match(
    rects: Seq<TileRect>,
    colliders: Seq<StaticCollider>,
    grid: int,
) -> bool {
    &&& colliders.len() == rects.len()
    &&& forall|i: int| 0 <= i < rects.len()
            ==> #[trigger] collider_matches(colliders[i], rects[i], grid)
}

/// Builds the static colliders for a level: merges the occupied cells
/// into rectangles and emits one fixed collider per rectangle, in world
/// units of `grid_size` pixels per cell. The rectangles exactly tile
/// the occupied cells, merged maximally along identical-extent vertical
/// runs; an empty occupied set yields no colliders.
pub fn spawn_wall_collision(
    cells: &Vec<GridCell>,
    w: i32,
    h: i32,
    grid_size: i32,
) -> (colliders: Vec<StaticCollider>)
    requires
        0 <= w < i32::MAX,
        0 <= h < i32::MAX,
        0 <= grid_size,
    ensures
        exists|rects: Seq<TileRect>|
            {
                &&& #[trigger] tiles_exactly(cells@, w as int, h as int, rects)
                &&& merges_maximally(cells@, w as int, h as int, rects)
                &&& colliders_match(rects, colliders@, grid_size as int)
            },
{
    let rects = build_wall_rects(cells, w, h);
    let mut colliders: Vec<StaticCollider> = Vec::new();
    let mut i: usize = 0;
    while i < rects.len()
        invariant
            0 <= i <= rects@.len(),
            0 <= grid_size,
            0 <= w < i32::MAX,
            0 <= h < i32::MAX,
            tiles_exactly(cells@, w as int, h as int, rects@),
            colliders@.len() == i,
            forall|k: int| 0 <= k < i
                ==> #[trigger] collider_matches(colliders@[k], rects@[k], grid_size as int),
        decreases rects@.len() - i,
    {
        proof {
            assert(rect_valid(rects@[i as int], w as int, h as int));
        }
        let c = rect_collider(rects[i], grid_size);
        colliders.push(c);
        i = i + 1;
    }
    proof {
        assert(colliders_match(rects@, colliders@, grid_size as int));
    }
    colliders
}

/// A grid whose only occupied cell is `(cx, cy)` is tiled by exactly
/// one rectangle: the one-by-one rectangle on that cell. A single
/// occupied cell surrounded by empty cells never merges with anything.
pub proof fn lemma_single_cell_one_rect(
    cells: Seq<GridCell>,
    w: int,
    h: int,
    rects: Seq<TileRect>,
    cx: i32,
    cy: i32,
)
    requires
        tiles_exactly(cells, w, h, rects),
        occupied(cells, w, h, cx as int, cy as int),
        forall|x: int, y: int| #[trigger] occupied(cells, w, h, x, y)
            ==> x == cx as int && y == cy as int,
    ensures
        rects.len() == 1,
        rects[0] == (TileRect { left: cx, right: cx, bottom: cy, top: cy }),
{
    // Every rectangle covers its own corners, which are occupied, so
    // every rectangle is the one-by-one rectangle on the occupied cell.
    assert forall|i: int| 0 <= i < rects.len()
        implies #[trigger] rects[i] == (TileRect { left: cx, right: cx, bottom: cy, top: cy })
    by {
        let r = rects[i];
        assert(rect_valid(r, w, h));
        assert(rect_covers(r, r.left as int, r.bottom as int));
        assert(rect_covers(r, r.right as int, r.top as int));
        assert(occupied(cells, w, h, r.left as int, r.bottom as int));
        assert(occupied(cells, w, h, r.right as int, r.top as int));
    }
    assert(rects.len() >= 1) by {
        assert(exists|i: int| 0 <= i < rects.len()
            && #[trigger] rect_covers(rects[i], cx as int, cy as int));
    }
    assert(rects.len() <= 1) by {
        if rects.len() >= 2 {
            assert(rects[0] == rects[1]);
            assert(rects_disjoint(rects[0], rects[1]));
            assert(rects[0].left == cx && rects[0].right == cx);
            assert(rects[0].bottom == cy && rects[0].top == cy);
        }
    }
}

/// A fully occupied grid is tiled by exactly one rectangle spanning the
/// whole grid: identical full-width plates merge all the way up.
pub proof fn lemma_full_grid_one_rect(
    cells: Seq<GridCell>,
    w: int,
    h: int,
    rects: Seq<TileRect>,
)
    requires
        tiles_exactly(cells, w, h, rects),
        merges_maximally(cells, w, h, rects),
        1 <= w <= 0x7fff_ffff,
        1 <= h <= 0x7fff_ffff,
        forall|x: int, y: int| 0 <= x < w && 0 <= y < h
            ==> #[trigger] occupied(cells, w, h, x, y),
    ensures
        rects.len() == 1,
        rects[0] == (TileRect {
            left: 0,
            right: (w - 1) as i32,
            bottom: 0,
            top: (h - 1) as i32,
        }),
{
    // Every rectangle spans the full width and rests on the bottom row:
    // its rows are plates, and on a full grid the only plate of any row
    // is the full row, which also carries the row below until row zero.
    assert forall|i: int| 0 <= i < rects.len()
        implies (#[trigger] rects[i]).left == 0 && rects[i].right == w - 1
            && rects[i].bottom == 0
    by {
        let r = rects[i];
        assert(rect_valid(r, w, h));
        assert(closed_rect_ok(cells, w, h, r));
        assert(is_plate(cells, w, h, r.bottom as int, r.left as int, r.right as int)) by {
            assert(rect_rows_are_plates(cells, w, h, r));
        }
        assert(r.left == 0) by {
            if r.left >= 1 {
                assert(occupied(cells, w, h, r.left - 1, r.bottom as int));
            }
        }
        assert(r.right == w - 1) by {
            if r.right < w - 1 {
                assert(occupied(cells, w, h, r.right + 1, r.bottom as int));
            }
        }
        assert(r.bottom == 0) by {
            if r.bottom >= 1 {
                let yb: int = r.bottom - 1;
                assert(is_plate(cells, w, h, yb, 0, w - 1)) by {
                    assert forall|x: int| 0 <= x <= w - 1
                        implies occupied(cells, w, h, x, yb)
                    by {
                    }
                    assert(!occupied(cells, w, h, -1, yb));
                    assert(!occupied(cells, w, h, w, yb));
                }
            }
        }
    }
    assert(occupied(cells, w, h, 0, 0));
    assert(rects.len() >= 1) by {
        assert(exists|i: int| 0 <= i < rects.len()
            && #[trigger] rect_covers(rects[i], 0, 0));
    }
    assert(rects.len() <= 1) by {
        if rects.len() >= 2 {
            assert(rect_covers(rects[0], 0, 0));
            assert(rect_covers(rects[1], 0, 0));
            assert(rects_disjoint(rects[0], rects[1]));
        }
    }
    assert(occupied(cells, w, h, 0, h - 1));
    let i0 = choose|i: int| 0 <= i < rects.len()
        && #[trigger] rect_covers(rects[i], 0, h - 1);
    assert(rects[0].top == h - 1) by {
        assert(i0 == 0);
        assert(rect_valid(rects[0], w, h));
    }
}


/// The number of cells a rectangle covers.
pub open spec fn rect_area(r: TileRect) -> int {
    (r.right - r.left + 1) * (r.top - r.bottom + 1)
}

/// The summed cell area of a rectangle list.
pub open spec fn total_area(rects: Seq<TileRect>) -> int
    decreases rects.len(),
{
    if rects.len() == 0 {
        0
    } else {
        total_area(rects.drop_last()) + rect_area(rects.last())
    }
}

/// The set of occupied in-bounds cells of the grid.
pub open spec fn occupied_cells(cells: Seq<GridCell>, w: int, h: int) -> Set<(int, int)> {
    Set::new(|p: (int, int)| occupied(cells, w, h, p.0, p.1))
}

/// The set of cells a rectangle covers.
pub open spec fn rect_cells(r: TileRect) -> Set<(int, int)> {
    Set::new(|p: (int, int)| rect_covers(r, p.0, p.1))
}

/// One row's worth of a rectangle's cells.
spec fn row_cells(l: int, r: int, y: int) -> Set<(int, int)> {
    Set::new(|p: (int, int)| l <= p.0 <= r && p.1 == y)
}

/// The cells covered by any rectangle of the list.
spec fn union_cells(rects: Seq<TileRect>) -> Set<(int, int)>
    decreases rects.len(),
{
    if rects.len() == 0 {
        Set::empty()
    } else {
        union_cells(rects.drop_last()) + rect_cells(rects.last())
    }
}

proof fn lemma_row_cells_len(l: int, r: int, y: int)
    requires
        l <= r,
    ensures
        row_cells(l, r, y).finite(),
        row_cells(l, r, y).len() == r - l + 1,
    decreases r - l,
{
    if l == r {
        assert(row_cells(l, r, y) =~= Set::empty().insert((l, y)));
    } else {
        lemma_row_cells_len(l, r - 1, y);
        assert(!row_cells(l, r - 1, y).contains((r, y)));
        assert(row_cells(l, r, y) =~= row_cells(l, r - 1, y).insert((r, y)));
    }
}

proof fn lemma_rect_cells_len(r: TileRect)
    requires
        r.left <= r.right,
        r.bottom <= r.top,
    ensures
        rect_cells(r).finite(),
        rect_cells(r).len() == rect_area(r),
    decreases r.top - r.bottom,
{
    let l = r.left as int;
    let rr = r.right as int;
    let t = r.top as int;
    let b = r.bottom as int;
    if r.bottom == r.top {
        lemma_row_cells_len(l, rr, t);
        assert(rect_cells(r) =~= row_cells(l, rr, t));
    } else {
        let shrunk = TileRect { left: r.left, right: r.right, bottom: r.bottom, top: (r.top - 1) as i32 };
        lemma_rect_cells_len(shrunk);
        lemma_row_cells_len(l, rr, t);
        assert(rect_cells(shrunk).disjoint(row_cells(l, rr, t))) by {
            assert forall|p: (int, int)| rect_cells(shrunk).contains(p)
                implies !row_cells(l, rr, t).contains(p)
            by {
                assert(p.1 <= t - 1);
            }
        }
        vstd::set_lib::lemma_set_disjoint_lens(rect_cells(shrunk), row_cells(l, rr, t));
        assert(rect_cells(r) =~= rect_cells(shrunk) + row_cells(l, rr, t));
        assert(rect_area(r) == rect_area(shrunk) + (rr - l + 1)) by (nonlinear_arith)
            requires
                rect_area(r) == (rr - l + 1) * (t - b + 1),
                rect_area(shrunk) == (rr - l + 1) * (t - 1 - b + 1),
        ;
    }
}

proof fn lemma_union_cells_contains(rects: Seq<TileRect>, p: (int, int))
    ensures
        union_cells(rects).contains(p) <==> exists|i: int| 0 <= i < rects.len()
            && #[trigger] rect_covers(rects[i], p.0, p.1),
    decreases rects.len(),
{
    if rects.len() == 0 {
    } else {
        let prefix = rects.drop_last();
        let n = rects.len() as int;
        lemma_union_cells_contains(prefix, p);
        if union_cells(rects).contains(p) {
            if rect_cells(rects.last()).contains(p) {
                assert(rect_covers(rects[n - 1], p.0, p.1));
            } else {
                let i = choose|i: int| 0 <= i < prefix.len()
                    && #[trigger] rect_covers(prefix[i], p.0, p.1);
                assert(prefix[i] == rects[i]);
                assert(rect_covers(rects[i], p.0, p.1));
            }
        }
        if exists|i: int| 0 <= i < rects.len() && #[trigger] rect_covers(rects[i], p.0, p.1) {
            let i = choose|i: int| 0 <= i < rects.len()
                && #[trigger] rect_covers(rects[i], p.0, p.1);
            if i == n - 1 {
                assert(rect_cells(rects.last()).contains(p));
            } else {
                assert(prefix[i] == rects[i]);
                assert(rect_covers(prefix[i], p.0, p.1));
                assert(union_cells(prefix).contains(p));
            }
        }
    }
}

proof fn lemma_union_cells_len(rects: Seq<TileRect>)
    requires
        forall|i: int| 0 <= i < rects.len()
            ==> (#[trigger] rects[i]).left <= rects[i].right
                && rects[i].bottom <= rects[i].top,
        forall|i: int, j: int| 0 <= i < rects.len() && 0 <= j < rects.len() && i != j
            ==> rects_disjoint(#[trigger] rects[i], #[trigger] rects[j]),
    ensures
        union_cells(rects).finite(),
        union_cells(rects).len() == total_area(rects),
    decreases rects.len(),
{
    if rects.len() == 0 {
    } else {
        let prefix = rects.drop_last();
        let n = rects.len() as int;
        let last = rects[n - 1];
        assert forall|i: int| 0 <= i < prefix.len()
            implies (#[trigger] prefix[i]).left <= prefix[i].right
                && prefix[i].bottom <= prefix[i].top
        by {
            assert(prefix[i] == rects[i]);
        }
        assert forall|i: int, j: int|
            0 <= i < prefix.len() && 0 <= j < prefix.len() && i != j
            implies rects_disjoint(#[trigger] prefix[i], #[trigger] prefix[j])
        by {
            assert(prefix[i] == rects[i] && prefix[j] == rects[j]);
        }
        lemma_union_cells_len(prefix);
        lemma_rect_cells_len(last);
        assert(union_cells(prefix).disjoint(rect_cells(last))) by {
            assert forall|p: (int, int)| union_cells(prefix).contains(p)
                implies !rect_cells(last).contains(p)
            by {
                lemma_union_cells_contains(prefix, p);
                let i = choose|i: int| 0 <= i < prefix.len()
                    && #[trigger] rect_covers(prefix[i], p.0, p.1);
                assert(prefix[i] == rects[i]);
                assert(rects_disjoint(rects[i], last));
            }
        }
        vstd::set_lib::lemma_set_disjoint_lens(union_cells(prefix), rect_cells(last));
    }
}

/// Law: the rectangles' summed area in cells equals the occupied cell
/// count. An exact tiling covers every occupied cell once and covers
/// nothing else, so counting cells rectangle by rectangle counts each
/// occupied cell exactly once.
pub proof fn lemma_tiling_area(cells: Seq<GridCell>, w: int, h: int, rects: Seq<TileRect>)
    requires
        tiles_exactly(cells, w, h, rects),
    ensures
        occupied_cells(cells, w, h).finite(),
        occupied_cells(cells, w, h).len() == total_area(rects),
{
    assert forall|i: int| 0 <= i < rects.len()
        implies (#[trigger] rects[i]).left <= rects[i].right
            && rects[i].bottom <= rects[i].top
    by {
        assert(rect_valid(rects[i], w, h));
    }
    lemma_union_cells_len(rects);
    assert(occupied_cells(cells, w, h) =~= union_cells(rects)) by {
        assert forall|p: (int, int)|
            #[trigger] occupied_cells(cells, w, h).contains(p)
                == union_cells(rects).contains(p)
        by {
            lemma_union_cells_contains(rects, p);
            if occupied(cells, w, h, p.0, p.1) {
                assert(exists|i: int| 0 <= i < rects.len()
                    && #[trigger] rect_covers(rects[i], p.0, p.1));
            } else {
                if exists|i: int| 0 <= i < rects.len()
                    && #[trigger] rect_covers(rects[i], p.0, p.1) {
                    let i = choose|i: int| 0 <= i < rects.len()
                        && #[trigger] rect_covers(rects[i], p.0, p.1);
                    assert(occupied(cells, w, h, p.0, p.1));
                }
            }
        }
    }
}

} // verus!
