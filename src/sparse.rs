use vstd::prelude::*;

verus! {

/// One retained grid cell: row index, column index, and the IEEE-754 bit
/// patterns of the row coordinate, the column coordinate and the weight.
pub type GridPoint = (u32, u32, u32, u32, u32);

/// The bit pattern of a 32-bit float is a NaN.
pub open spec fn f32_is_nan(b: u32) -> bool {
    (b & 0x7f80_0000u32) == 0x7f80_0000u32 && (b & 0x007f_ffffu32) != 0
}

/// The bit pattern of a 32-bit float is positive or negative zero.
pub open spec fn f32_is_zero(b: u32) -> bool {
    (b & 0x7fff_ffffu32) == 0
}

/// IEEE-754 equality of two 32-bit floats given by their bit patterns.
pub open spec fn f32_bits_eq(a: u32, b: u32) -> bool {
    !f32_is_nan(a) && !f32_is_nan(b) && (a == b || (f32_is_zero(a) && f32_is_zero(b)))
}

/// Float equality (`==` on `f32`) computed on bit patterns.
pub fn f32_eq(a: u32, b: u32) -> (r: bool)
    ensures
        r == f32_bits_eq(a, b),
{
    let a_nan = (a & 0x7f80_0000u32) == 0x7f80_0000u32 && (a & 0x007f_ffffu32) != 0;
    let b_nan = (b & 0x7f80_0000u32) == 0x7f80_0000u32 && (b & 0x007f_ffffu32) != 0;
    !a_nan && !b_nan && (a == b || ((a & 0x7fff_ffffu32) == 0 && (b & 0x7fff_ffffu32) == 0))
}

/// The sparse points of one region.
#[derive(Debug, Clone)]
pub struct PolyidEntry {
    pub data: Vec<GridPoint>,
}

impl PolyidEntry {
    /// An entry with no points.
    pub fn new() -> (r: Self)
        ensures
            r.data@ == Seq::<GridPoint>::empty(),
    {
        PolyidEntry { data: Vec::new() }
    }

    /// Appends one point.
    pub fn add_point(&mut self, lat_idx: u32, lon_idx: u32, lat: u32, lon: u32, value: u32)
        ensures
            final(self).data@ == old(self).data@.push((lat_idx, lon_idx, lat, lon, value)),
    {
        self.data.push((lat_idx, lon_idx, lat, lon, value));
    }
}

/// The value of cell (r, c) of the grid that starts at `base` in `w`.
pub open spec fn cell(w: Seq<u32>, base: int, cols: int, r: int, c: int) -> u32 {
    w[base + r * cols + c]
}

/// The points of row `r` over columns `[0, c)`: one per cell whose value is
/// not equal to `fill`, left to right.
pub open spec fn row_points(
    w: Seq<u32>,
    base: int,
    lat: Seq<u32>,
    lon: Seq<u32>,
    fill: u32,
    r: int,
    c: int,
) -> Seq<GridPoint>
    decreases c,
{
    if c <= 0 {
        Seq::empty()
    } else {
        let prev = row_points(w, base, lat, lon, fill, r, c - 1);
        let v = cell(w, base, lon.len() as int, r, c - 1);
        if f32_bits_eq(v, fill) {
            prev
        } else {
            prev.push((r as u32, (c - 1) as u32, lat[r], lon[c - 1], v))
        }
    }
}

/// The points of rows `[0, r)`, in row-major order.
pub open spec fn grid_points(
    w: Seq<u32>,
    base: int,
    lat: Seq<u32>,
    lon: Seq<u32>,
    fill: u32,
    r: int,
) -> Seq<GridPoint>
    decreases r,
{
    if r <= 0 {
        Seq::empty()
    } else {
        grid_points(w, base, lat, lon, fill, r - 1) + row_points(
            w,
            base,
            lat,
            lon,
            fill,
            r - 1,
            lon.len() as int,
        )
    }
}

/// The region entry of a dense grid: the grid has `lat.len()` rows and
/// `lon.len()` columns, stored row-major in `w` from index `base`.
pub open spec fn region_points(
    w: Seq<u32>,
    base: int,
    lat: Seq<u32>,
    lon: Seq<u32>,
    fill: u32,
) -> Seq<GridPoint> {
    grid_points(w, base, lat, lon, fill, lat.len() as int)
}

proof fn lemma_row_points_len(
    w: Seq<u32>,
    base: int,
    lat: Seq<u32>,
    lon: Seq<u32>,
    fill: u32,
    r: int,
    c: int,
)
    requires
        c >= 0,
    ensures
        row_points(w, base, lat, lon, fill, r, c).len() <= c,
    decreases c,
{
    if c > 0 {
        lemma_row_points_len(w, base, lat, lon, fill, r, c - 1);
    }
}

/// A point stands for a cell of the grid whose value differs from `fill`,
/// and carries that cell's row coordinate, column coordinate and value.
pub open spec fn point_ok(
    w: Seq<u32>,
    base: int,
    lat: Seq<u32>,
    lon: Seq<u32>,
    fill: u32,
    p: GridPoint,
) -> bool {
    let v = cell(w, base, lon.len() as int, p.0 as int, p.1 as int);
    &&& (p.0 as int) < lat.len()
    &&& (p.1 as int) < lon.len()
    &&& !f32_bits_eq(v, fill)
    &&& p.2 == lat[p.0 as int]
    &&& p.3 == lon[p.1 as int]
    &&& p.4 == v
}

/// `p` comes before `q` in row-major order.
pub open spec fn row_major_before(p: GridPoint, q: GridPoint) -> bool {
    p.0 < q.0 || (p.0 == q.0 && p.1 < q.1)
}

proof fn lemma_row_points_props(
    w: Seq<u32>,
    base: int,
    lat: Seq<u32>,
    lon: Seq<u32>,
    fill: u32,
    r: int,
    c: int,
)
    requires
        0 <= r < lat.len() <= u32::MAX + 1,
        0 <= c <= lon.len() <= u32::MAX + 1,
    ensures
        ({
            let s = row_points(w, base, lat, lon, fill, r, c);
            &&& forall|k: int|
                0 <= k < s.len() ==> point_ok(w, base, lat, lon, fill, #[trigger] s[k]) && s[k].0
                    == r && (s[k].1 as int) < c
            &&& forall|k1: int, k2: int|
                0 <= k1 < k2 < s.len() ==> (#[trigger] s[k1]).1 < (#[trigger] s[k2]).1
            &&& forall|cc: int|
                0 <= cc < c && !f32_bits_eq(#[trigger] cell(w, base, lon.len() as int, r, cc), fill)
                    ==> exists|k: int| 0 <= k < s.len() && s[k].0 == r && s[k].1 == cc
        }),
    decreases c,
{
    if c > 0 {
        lemma_row_points_props(w, base, lat, lon, fill, r, c - 1);
        let prev = row_points(w, base, lat, lon, fill, r, c - 1);
        let s = row_points(w, base, lat, lon, fill, r, c);
        let v = cell(w, base, lon.len() as int, r, c - 1);
        if !f32_bits_eq(v, fill) {
            assert(s == prev.push((r as u32, (c - 1) as u32, lat[r], lon[c - 1], v)));
            assert forall|cc: int|
                0 <= cc < c && !f32_bits_eq(
                    #[trigger] cell(w, base, lon.len() as int, r, cc),
                    fill,
                ) implies exists|k: int| 0 <= k < s.len() && s[k].0 == r && s[k].1 == cc by {
                if cc < c - 1 {
                    let k = choose|k: int| 0 <= k < prev.len() && prev[k].0 == r && prev[k].1 == cc;
                    assert(s[k] == prev[k]);
                } else {
                    assert(s[prev.len() as int].1 == cc);
                }
            }
        }
    }
}

proof fn lemma_grid_points_props(
    w: Seq<u32>,
    base: int,
    lat: Seq<u32>,
    lon: Seq<u32>,
    fill: u32,
    r: int,
)
    requires
        0 <= r <= lat.len() <= u32::MAX + 1,
        lon.len() <= u32::MAX + 1,
    ensures
        ({
            let s = grid_points(w, base, lat, lon, fill, r);
            &&& forall|k: int|
                0 <= k < s.len() ==> point_ok(w, base, lat, lon, fill, #[trigger] s[k]) && (
                s[k].0 as int) < r
            &&& forall|k1: int, k2: int|
                0 <= k1 < k2 < s.len() ==> row_major_before(#[trigger] s[k1], #[trigger] s[k2])
            &&& forall|rr: int, cc: int|
                0 <= rr < r && 0 <= cc < lon.len() && !f32_bits_eq(
                    #[trigger] cell(w, base, lon.len() as int, rr, cc),
                    fill,
                ) ==> exists|k: int| 0 <= k < s.len() && s[k].0 == rr && s[k].1 == cc
        }),
    decreases r,
{
    if r > 0 {
        let cols = lon.len() as int;
        lemma_grid_points_props(w, base, lat, lon, fill, r - 1);
        lemma_row_points_props(w, base, lat, lon, fill, r - 1, cols);
        let g = grid_points(w, base, lat, lon, fill, r - 1);
        let row = row_points(w, base, lat, lon, fill, r - 1, cols);
        let s = grid_points(w, base, lat, lon, fill, r);
        assert(s == g + row);
        assert forall|k: int| 0 <= k < s.len() implies point_ok(
            w,
            base,
            lat,
            lon,
            fill,
            #[trigger] s[k],
        ) && (s[k].0 as int) < r by {
            if k >= g.len() {
                assert(s[k] == row[k - g.len()]);
            }
        }
        assert forall|k1: int, k2: int| 0 <= k1 < k2 < s.len() implies row_major_before(
            #[trigger] s[k1],
            #[trigger] s[k2],
        ) by {
            if k1 >= g.len() {
                assert(s[k1] == row[k1 - g.len()] && s[k2] == row[k2 - g.len()]);
            } else if k2 >= g.len() {
                assert(s[k1] == g[k1] && s[k2] == row[k2 - g.len()]);
            }
        }
        assert forall|rr: int, cc: int|
            0 <= rr < r && 0 <= cc < cols && !f32_bits_eq(
                #[trigger] cell(w, base, cols, rr, cc),
                fill,
            ) implies exists|k: int| 0 <= k < s.len() && s[k].0 == rr && s[k].1 == cc by {
            if rr < r - 1 {
                let k = choose|k: int| 0 <= k < g.len() && g[k].0 == rr && g[k].1 == cc;
                assert(s[k] == g[k]);
            } else {
                let k = choose|k: int| 0 <= k < row.len() && row[k].0 == rr && row[k].1 == cc;
                assert(s[g.len() + k] == row[k]);
            }
        }
    }
}

/// The region entry of a grid holds exactly the cells whose value differs
/// from the fill value, each with its row's and column's coordinate and its
/// value, in row-major order, and no others.
pub proof fn lemma_sparsity(w: Seq<u32>, base: int, lat: Seq<u32>, lon: Seq<u32>, fill: u32)
    requires
        lat.len() <= u32::MAX + 1,
        lon.len() <= u32::MAX + 1,
    ensures
        ({
            let s = region_points(w, base, lat, lon, fill);
            &&& forall|k: int| 0 <= k < s.len() ==> point_ok(w, base, lat, lon, fill, #[trigger] s[k])
            &&& forall|k1: int, k2: int|
                0 <= k1 < k2 < s.len() ==> row_major_before(#[trigger] s[k1], #[trigger] s[k2])
            &&& forall|r: int, c: int|
                0 <= r < lat.len() && 0 <= c < lon.len() && !f32_bits_eq(
                    #[trigger] cell(w, base, lon.len() as int, r, c),
                    fill,
                ) ==> exists|k: int| 0 <= k < s.len() && s[k].0 == r && s[k].1 == c
        }),
{
    let s = region_points(w, base, lat, lon, fill);
    lemma_grid_points_props(w, base, lat, lon, fill, lat.len() as int);
    assert(s == grid_points(w, base, lat, lon, fill, lat.len() as int));
    assert forall|r: int, c: int|
        0 <= r < lat.len() && 0 <= c < lon.len() && !f32_bits_eq(
            #[trigger] cell(w, base, lon.len() as int, r, c),
            fill,
        ) implies exists|k: int| 0 <= k < s.len() && s[k].0 == r && s[k].1 == c by {}
}

/// Extracts the sparse points of the region whose grid starts at `base` in
/// `weights`: one point per cell that is not equal to `fill`, in row-major
/// order, with the row's and the column's coordinate.
pub fn extract_region(
    weights: &Vec<u32>,
    base: usize,
    lat: &Vec<u32>,
    lon: &Vec<u32>,
    fill: u32,
) -> (r: PolyidEntry)
    requires
        base + lat@.len() * lon@.len() <= weights@.len(),
        lat@.len() <= u32::MAX + 1,
        lon@.len() <= u32::MAX + 1,
    ensures
        r.data@ == region_points(weights@, base as int, lat@, lon@, fill),
        r.data@.len() <= lat@.len() * lon@.len(),
{
    let rows = lat.len();
    let cols = lon.len();
    let wlen = weights.len();
    let mut entry = PolyidEntry::new();
    let mut row: usize = 0;
    while row < rows
        invariant
            rows == lat@.len(),
            cols == lon@.len(),
            row <= rows,
            base + rows * cols <= weights@.len(),
            wlen == weights@.len(),
            rows <= u32::MAX + 1,
            cols <= u32::MAX + 1,
            entry.data@ == grid_points(weights@, base as int, lat@, lon@, fill, row as int),
            entry.data@.len() <= row * cols,
        decreases rows - row,
    {
        let ghost before = entry.data@;
        let mut col: usize = 0;
        while col < cols
            invariant
                rows == lat@.len(),
                cols == lon@.len(),
                row < rows,
                col <= cols,
                base + rows * cols <= weights@.len(),
                wlen == weights@.len(),
                rows <= u32::MAX + 1,
                cols <= u32::MAX + 1,
                entry.data@ == before + row_points(
                    weights@,
                    base as int,
                    lat@,
                    lon@,
                    fill,
                    row as int,
                    col as int,
                ),
            decreases cols - col,
        {
            assert(row * cols <= rows * cols && row * cols + col < rows * cols) by (nonlinear_arith)
                requires
                    row < rows,
                    col < cols,
            ;
            let v = weights[base + row * cols + col];
            if !f32_eq(v, fill) {
                entry.add_point(row as u32, col as u32, lat[row], lon[col], v);
            }
            proof {
                let rp = row_points(
                    weights@,
                    base as int,
                    lat@,
                    lon@,
                    fill,
                    row as int,
                    col + 1,
                );
                assert(entry.data@ =~= before + rp);
            }
            col = col + 1;
        }
        proof {
            lemma_row_points_len(weights@, base as int, lat@, lon@, fill, row as int, cols as int);
            assert(row * cols + cols == (row + 1) * cols) by (nonlinear_arith);
        }
        row = row + 1;
    }
    entry
}

} // verus!
