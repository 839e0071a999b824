use vstd::prelude::*;

verus! {

// ---------------------------------------------------------------------------
// Occupancy grid for the city labels on the globe
// ---------------------------------------------------------------------------

/// The rows of an occupancy grid as sequences.
pub open spec fn grid_view(g: Seq<Vec<bool>>) -> Seq<Seq<bool>> {
    g.map_values(|r: Vec<bool>| r@)
}

pub open spec fn min_int(a: int, b: int) -> int {
    if a < b {
        a
    } else {
        b
    }
}

pub open spec fn max_int(a: int, b: int) -> int {
    if a > b {
        a
    } else {
        b
    }
}

/// A label of width `w` fits at `(x, y)`: the row exists, the label lies
/// inside it, and neither the label cells nor the cell on each side of it
/// (as far as the row reaches) are taken.
pub open spec fn cells_free(g: Seq<Seq<bool>>, x: int, y: int, w: int) -> bool {
    &&& 0 <= y < g.len()
    &&& x < g[y].len()
    &&& x + w <= g[y].len()
    &&& forall|k: int| max_int(x - 1, 0) <= k < min_int(x + w + 1, g[y].len() as int) ==> !g[y][k]
}

/// Row `r` after reserving a label of width `w` at `x`: the label cells and
/// one cell on each side become taken.
pub open spec fn row_with_label(r: Seq<bool>, x: int, w: int) -> Seq<bool> {
    Seq::new(
        r.len(),
        |k: int|
            if max_int(x - 1, 0) <= k < min_int(x + w + 1, r.len() as int) {
                true
            } else {
                r[k]
            },
    )
}

/// The grid after reserving a label: nothing changes when the row does not
/// exist, `x` lies past its end, or the label is empty.
pub open spec fn grid_with_label(g: Seq<Seq<bool>>, x: int, y: int, w: int) -> Seq<Seq<bool>> {
    if 0 <= y < g.len() && x < g[y].len() && w > 0 {
        g.update(y, row_with_label(g[y], x, w))
    } else {
        g
    }
}

/// Whether a label of width `label_width` can be placed at `(x, y)`.
pub fn label_cells_are_free(occupied: &Vec<Vec<bool>>, x: usize, y: usize, label_width: usize) -> (r:
    bool)
    ensures
        r == cells_free(grid_view(occupied@), x as int, y as int, label_width as int),
{
    if y >= occupied.len() {
        return false;
    }
    let row = &occupied[y];
    let ghost g = grid_view(occupied@);
    assert(g[y as int] == row@);
    if x >= row.len() || label_width > row.len() - x {
        return false;
    }
    let start = x.saturating_sub(1);
    let end = if x + label_width < row.len() {
        x + label_width + 1
    } else {
        row.len()
    };
    let mut k = start;
    while k < end
        invariant
            start <= k <= end <= row.len(),
            y < occupied.len(),
            g == grid_view(occupied@),
            g[y as int] == row@,
            start == max_int(x - 1, 0),
            end == min_int(x + label_width + 1, row.len() as int),
            forall|m: int| start <= m < k ==> !row@[m],
        decreases end - k,
    {
        if row[k] {
            return false;
        }
        k = k + 1;
    }
    true
}

/// Marks the cells of a label of width `label_width` at `(x, y)`, and the
/// cell on each side, as taken.
pub fn reserve_label_cells(occupied: &mut Vec<Vec<bool>>, x: usize, y: usize, label_width: usize)
    requires
        label_width < usize::MAX,
    ensures
        grid_view(final(occupied)@) == grid_with_label(
            grid_view(old(occupied)@),
            x as int,
            y as int,
            label_width as int,
        ),
{
    let ghost g = grid_view(occupied@);
    if y >= occupied.len() {
        return;
    }
    assert(g[y as int] == occupied@[y as int]@);
    if x >= occupied[y].len() || label_width == 0 {
        return;
    }
    let mut row: Vec<bool> = Vec::new();
    occupied.set_and_swap(y, &mut row);
    let ghost before = row@;
    let start = x.saturating_sub(1);
    let end = if x.saturating_add(label_width + 1) < row.len() {
        x + label_width + 1
    } else {
        row.len()
    };
    let mut k = start;
    while k < end
        invariant
            start <= k <= end,
            start <= end <= row.len(),
            row.len() == before.len(),
            start == max_int(x - 1, 0),
            end == min_int(x + label_width + 1, before.len() as int),
            forall|m: int|
                0 <= m < row.len() ==> #[trigger] row@[m] == (if start <= m < k {
                    true
                } else {
                    before[m]
                }),
        decreases end - k,
    {
        row.set(k, true);
        k = k + 1;
    }
    assert(row@ =~= row_with_label(before, x as int, label_width as int));
    occupied.set(y, row);
    assert(grid_view(occupied@) =~= g.update(y as int, row_with_label(before, x as int, label_width as int)));
}

/// First row that a marker of radius `r` at row `y` covers.
pub open spec fn marker_row_start(y: int, r: int) -> int {
    max_int(y - r, 0)
}

/// Last row that a marker of radius `r` at row `y` covers in a grid of
/// `rows` rows.
pub open spec fn marker_row_end(y: int, r: int, rows: int) -> int {
    min_int(y + r, max_int(rows - 1, 0))
}

/// Row `row` after marking the cells within `r` columns of `x`.
pub open spec fn row_with_marker(row: Seq<bool>, x: int, r: int) -> Seq<bool> {
    Seq::new(
        row.len(),
        |k: int|
            if max_int(x - r, 0) <= k <= min_int(x + r, row.len() - 1) {
                true
            } else {
                row[k]
            },
    )
}

/// The grid after marking the square of cells within `r` of `(x, y)`.
pub open spec fn grid_with_marker(g: Seq<Seq<bool>>, x: int, y: int, r: int) -> Seq<Seq<bool>> {
    Seq::new(
        g.len(),
        |k: int|
            if marker_row_start(y, r) <= k <= marker_row_end(y, r, g.len() as int) && g[k].len()
                > 0 {
                row_with_marker(g[k], x, r)
            } else {
                g[k]
            },
    )
}

/// Marks the cells within `radius` of `(x, y)` as taken, clipped to the grid.
pub fn reserve_marker_cells(occupied: &mut Vec<Vec<bool>>, x: usize, y: usize, radius: usize)
    requires
        forall|k: int|
            marker_row_start(y as int, radius as int) <= k <= marker_row_end(
                y as int,
                radius as int,
                old(occupied)@.len() as int,
            ) && 0 <= k < old(occupied)@.len() ==> max_int(x - radius, 0) <= #[trigger] old(
                occupied,
            )@[k]@.len(),
    ensures
        grid_view(final(occupied)@) == grid_with_marker(
            grid_view(old(occupied)@),
            x as int,
            y as int,
            radius as int,
        ),
{
    let ghost g = grid_view(occupied@);
    let y_start = y.saturating_sub(radius);
    let last_row = if occupied.len() > 0 {
        occupied.len() - 1
    } else {
        0
    };
    let y_end = if y.saturating_add(radius) < last_row {
        y + radius
    } else {
        last_row
    };
    let x_start = x.saturating_sub(radius);
    let mut k = y_start;
    while k <= y_end && k < occupied.len()
        invariant
            y_start <= k,
            k == y_start || k <= y_end + 1,
            y_start == marker_row_start(y as int, radius as int),
            y_end == marker_row_end(y as int, radius as int, g.len() as int),
            x_start == max_int(x - radius, 0),
            occupied.len() == g.len(),
            forall|m: int|
                y_start <= m <= y_end && 0 <= m < g.len() ==> x_start <= #[trigger] g[m].len(),
            forall|m: int|
                0 <= m < g.len() ==> #[trigger] occupied@[m]@ == (if y_start <= m < k && g[m].len()
                    > 0 {
                    row_with_marker(g[m], x as int, radius as int)
                } else {
                    g[m]
                }),
        decreases occupied.len() - k,
    {
        let mut row: Vec<bool> = Vec::new();
        occupied.set_and_swap(k, &mut row);
        let ghost before = row@;
        assert(before == g[k as int]);
        if row.len() > 0 {
            let x_end = if x.saturating_add(radius) < row.len() - 1 {
                x + radius
            } else {
                row.len() - 1
            };
            let mut c = x_start;
            while c <= x_end
                invariant
                    x_start <= c <= x_end + 1,
                    x_end < row.len(),
                    row.len() == before.len(),
                    x_start == max_int(x - radius, 0),
                    x_end == min_int(x + radius, before.len() - 1),
                    forall|m: int|
                        0 <= m < row.len() ==> #[trigger] row@[m] == (if x_start <= m < c {
                            true
                        } else {
                            before[m]
                        }),
                decreases x_end + 1 - c,
            {
                row.set(c, true);
                c = c + 1;
            }
            assert(row@ =~= row_with_marker(before, x as int, radius as int));
        }
        occupied.set(k, row);
        k = k + 1;
    }
    assert(grid_view(occupied@) =~= grid_with_marker(g, x as int, y as int, radius as int));
}

// ---------------------------------------------------------------------------
// Choosing a label position
// ---------------------------------------------------------------------------

/// Places tried for a label of width `w` beside a marker at `(x, y)`, in
/// order of preference: right, left, right above, right below, left above,
/// left below, centred two rows above, centred two rows below.
pub open spec fn label_candidates(x: int, y: int, w: int) -> Seq<(int, int)> {
    seq![
        (x + 2, y),
        (x - w - 2, y),
        (x + 2, y - 1),
        (x + 2, y + 1),
        (x - w - 2, y - 1),
        (x - w - 2, y + 1),
        (x - w / 2, y - 2),
        (x - w / 2, y + 2),
    ]
}

/// The first candidate that lies inside the grid (judged by the width of its
/// first row) and whose cells are free.
pub open spec fn first_fit(cands: Seq<(int, int)>, g: Seq<Seq<bool>>, w: int) -> Option<(int, int)>
    decreases cands.len(),
{
    if cands.len() == 0 {
        None
    } else {
        let (cx, cy) = cands[0];
        let gw = if g.len() > 0 {
            g[0].len() as int
        } else {
            0
        };
        if cx >= 0 && cy >= 0 && cx + w <= gw && cy < g.len() && cells_free(g, cx, cy, w) {
            Some((cx, cy))
        } else {
            first_fit(cands.drop_first(), g, w)
        }
    }
}

/// Where a city label of width `w` goes beside the marker at `(mx, my)`.
pub open spec fn label_position(g: Seq<Seq<bool>>, mx: int, my: int, w: int) -> Option<(int, int)> {
    if w == 0 {
        None
    } else {
        first_fit(label_candidates(mx, my, w), g, w)
    }
}

/// The label position for a city marker at `(marker_x, marker_y)`, or none
/// when every candidate place is outside the grid or taken.
pub fn city_label_position(
    occupied: &Vec<Vec<bool>>,
    marker_x: usize,
    marker_y: usize,
    label_width: usize,
) -> (r: Option<(usize, usize)>)
    requires
        marker_x + label_width + 2 <= isize::MAX,
        marker_y + 2 <= isize::MAX,
        occupied.len() <= isize::MAX,
        occupied.len() > 0 ==> occupied@[0].len() <= isize::MAX,
    ensures
        r matches Some(p) ==> label_position(
            grid_view(occupied@),
            marker_x as int,
            marker_y as int,
            label_width as int,
        ) == Some((p.0 as int, p.1 as int)),
        r is None ==> label_position(
            grid_view(occupied@),
            marker_x as int,
            marker_y as int,
            label_width as int,
        ) is None,
{
    if label_width == 0 {
        return None;
    }
    let ghost g = grid_view(occupied@);
    let grid_width: isize = if occupied.len() > 0 {
        occupied[0].len() as isize
    } else {
        0
    };
    assert(occupied.len() > 0 ==> g[0].len() == occupied@[0]@.len());
    let grid_height = occupied.len() as isize;
    let x = marker_x as isize;
    let y = marker_y as isize;
    let width = label_width as isize;
    let right = x + 2;
    let left = x - width - 2;
    let centre = x - width / 2;
    let above = y - 1;
    let below = y + 1;
    let far_above = y - 2;
    let far_below = y + 2;
    let candidates: Vec<(isize, isize)> = vec![
        (right, y),
        (left, y),
        (right, above),
        (right, below),
        (left, above),
        (left, below),
        (centre, far_above),
        (centre, far_below),
    ];
    let ghost cands = label_candidates(x as int, y as int, width as int);
    assert forall|i: int| 0 <= i < 8 implies #[trigger] candidates@[i].0 as int == cands[i].0
        && candidates@[i].1 as int == cands[i].1 by {}
    let mut i: usize = 0;
    assert(cands.skip(0) =~= cands);
    while i < candidates.len()
        invariant
            candidates.len() == 8,
            cands.len() == 8,
            i <= 8,
            g == grid_view(occupied@),
            label_width > 0,
            width as int == label_width,
            grid_width as int == (if g.len() > 0 {
                g[0].len() as int
            } else {
                0
            }),
            grid_height as int == g.len(),
            forall|j: int|
                0 <= j < 8 ==> #[trigger] candidates@[j].0 as int == cands[j].0
                    && candidates@[j].1 as int == cands[j].1,
            forall|j: int|
                0 <= j < 8 ==> -isize::MAX <= #[trigger] candidates@[j].0 <= isize::MAX - label_width,
            label_position(g, marker_x as int, marker_y as int, label_width as int) == first_fit(
                cands.skip(i as int),
                g,
                width as int,
            ),
            cands == label_candidates(marker_x as int, marker_y as int, label_width as int),
        decreases 8 - i,
    {
        let (cx, cy) = candidates[i];
        assert(cands.skip(i as int)[0] == cands[i as int]);
        assert(cands.skip(i as int).drop_first() =~= cands.skip(i + 1));
        if cx >= 0 && cy >= 0 && cx + width <= grid_width && cy < grid_height {
            if label_cells_are_free(occupied, cx as usize, cy as usize, label_width) {
                return Some((cx as usize, cy as usize));
            }
        }
        i = i + 1;
    }
    None
}

// ---------------------------------------------------------------------------
// Laws of the label grid
// ---------------------------------------------------------------------------

/// Once a label is reserved, no label that shares a cell with it on the same
/// row is free any more: dense rows are decluttered.
pub proof fn lemma_reserved_label_blocks_overlaps(
    g: Seq<Seq<bool>>,
    x: int,
    y: int,
    w: int,
    x2: int,
    w2: int,
)
    requires
        0 <= x,
        0 <= y < g.len(),
        x < g[y].len(),
        w > 0,
        w2 > 0,
        x2 < x + w,
        x < x2 + w2,
    ensures
        !cells_free(grid_with_label(g, x, y, w), x2, y, w2),
{
    let g2 = grid_with_label(g, x, y, w);
    if cells_free(g2, x2, y, w2) {
        let k = if x2 > x {
            x2
        } else {
            x
        };
        assert(g2[y] == row_with_label(g[y], x, w));
        assert(g2[y][k]);
    }
}

/// Reserving a label leaves every taken cell taken and keeps the grid's
/// shape.
pub proof fn lemma_reserve_label_monotone(g: Seq<Seq<bool>>, x: int, y: int, w: int)
    ensures
        grid_with_label(g, x, y, w).len() == g.len(),
        forall|r: int, k: int|
            0 <= r < g.len() && 0 <= k < g[r].len() ==> grid_with_label(g, x, y, w)[r].len()
                == g[r].len() && (g[r][k] ==> #[trigger] grid_with_label(g, x, y, w)[r][k]),
{
}

/// A position that `city_label_position` picks is inside the grid and free.
pub proof fn lemma_label_position_fits(g: Seq<Seq<bool>>, mx: int, my: int, w: int)
    ensures
        label_position(g, mx, my, w) matches Some(p) ==> p.0 >= 0 && p.1 >= 0 && p.0 + w <= g[0].len()
            && cells_free(g, p.0, p.1, w),
{
    if w != 0 {
        lemma_first_fit_fits(label_candidates(mx, my, w), g, w);
    }
}

proof fn lemma_first_fit_fits(cands: Seq<(int, int)>, g: Seq<Seq<bool>>, w: int)
    ensures
        first_fit(cands, g, w) matches Some(p) ==> p.0 >= 0 && p.1 >= 0 && p.0 + w <= g[0].len()
            && cells_free(g, p.0, p.1, w),
    decreases cands.len(),
{
    if cands.len() > 0 {
        lemma_first_fit_fits(cands.drop_first(), g, w);
    }
}


// ---------------------------------------------------------------------------
// Which city a click on the globe picks
// ---------------------------------------------------------------------------

/// A city marker on the globe: the preset it stands for, its cell, the width
/// of its label, and whether its label is drawn elsewhere (the city is the
/// saved place or the preview centre).
#[derive(Debug, Clone, Copy, PartialEq, Eq)]
pub struct CityMarker {
    pub index: usize,
    pub x: usize,
    pub y: usize,
    pub label_width: usize,
    pub focus: bool,
}

/// The saved place, when it differs from the preview: its cell and label
/// width.
#[derive(Debug, Clone, Copy, PartialEq, Eq)]
pub struct SavedMark {
    pub x: usize,
    pub y: usize,
    pub label_width: usize,
}

/// The preview centre: its cell and, unless it is an unnamed globe point,
/// its label width.
#[derive(Debug, Clone, Copy, PartialEq, Eq)]
pub struct CursorMark {
    pub x: usize,
    pub y: usize,
    pub label_width: Option<usize>,
}

/// A grid of `h` rows of `w` free cells.
pub open spec fn empty_grid(w: int, h: int) -> Seq<Seq<bool>> {
    Seq::new(h as nat, |_r: int| Seq::new(w as nat, |_k: int| false))
}

/// The grid with the saved place and the preview centre reserved: a marker
/// of radius 1 and a label two columns right for the saved place, a marker
/// of radius 2 and a label three columns right for the preview centre.
pub open spec fn focus_grid(g: Seq<Seq<bool>>, saved: Option<SavedMark>, cursor: Option<CursorMark>) -> Seq<Seq<bool>> {
    let g1 = match saved {
        Some(s) => grid_with_label(grid_with_marker(g, s.x as int, s.y as int, 1), s.x + 2, s.y as int, s.label_width as int),
        None => g,
    };
    match cursor {
        Some(c) => {
            let gm = grid_with_marker(g1, c.x as int, c.y as int, 2);
            match c.label_width {
                Some(w) => grid_with_label(gm, c.x + 3, c.y as int, w as int),
                None => gm,
            }
        },
        None => g1,
    }
}

/// The grid with the one cell of every city marker reserved.
pub open spec fn markers_grid(g: Seq<Seq<bool>>, cs: Seq<CityMarker>) -> Seq<Seq<bool>>
    decreases cs.len(),
{
    if cs.len() == 0 {
        g
    } else {
        grid_with_marker(markers_grid(g, cs.drop_last()), cs.last().x as int, cs.last().y as int, 0)
    }
}

/// Squared distance between two cells.
pub open spec fn dist2(ax: int, ay: int, bx: int, by: int) -> int {
    (ax - bx) * (ax - bx) + (ay - by) * (ay - by)
}

/// The nearest marker within a squared distance of 2 of `(x, y)`, with its
/// distance; of equally near markers the first.
pub open spec fn nearest_marker(cs: Seq<CityMarker>, x: int, y: int) -> Option<(int, usize)>
    decreases cs.len(),
{
    if cs.len() == 0 {
        None
    } else {
        let best = nearest_marker(cs.drop_last(), x, y);
        let c = cs.last();
        let d = dist2(c.x as int, c.y as int, x, y);
        if d <= 2 {
            match best {
                Some(b) => if b.0 <= d {
                    best
                } else {
                    Some((d, c.index))
                },
                None => Some((d, c.index)),
            }
        } else {
            best
        }
    }
}

/// The city whose label a click at `(x, y)` lands on, placing the labels
/// in order as the globe draws them; cities whose label is drawn elsewhere
/// or is empty are passed over.
pub open spec fn label_scan(cs: Seq<CityMarker>, g: Seq<Seq<bool>>, x: int, y: int) -> Option<usize>
    decreases cs.len(),
{
    if cs.len() == 0 {
        None
    } else {
        let c = cs[0];
        let w = c.label_width as int;
        if c.focus || w == 0 {
            label_scan(cs.skip(1), g, x, y)
        } else {
            match label_position(g, c.x as int, c.y as int, w) {
                None => label_scan(cs.skip(1), g, x, y),
                Some(p) => if y == p.1 && p.0 <= x < p.0 + w {
                    Some(c.index)
                } else {
                    label_scan(cs.skip(1), grid_with_label(g, p.0, p.1, w), x, y)
                },
            }
        }
    }
}

/// The city a click at `(x, y)` on a globe canvas of `width` by `height`
/// cells picks: the nearest city marker close enough, else the city whose
/// label the click lands on.
pub open spec fn city_hit_spec(
    width: int,
    height: int,
    saved: Option<SavedMark>,
    cursor: Option<CursorMark>,
    cs: Seq<CityMarker>,
    x: int,
    y: int,
) -> Option<usize> {
    match nearest_marker(cs, x, y) {
        Some(b) => Some(b.1),
        None => label_scan(cs, markers_grid(focus_grid(empty_grid(width, height), saved, cursor), cs), x, y),
    }
}

/// Whether a marker of radius `r` at `(x, y)` starts inside the rows of a
/// `width`-wide grid on every row it covers.
pub open spec fn marker_fits(x: int, y: int, r: int, width: int, height: int) -> bool {
    height > 0 && marker_row_start(y, r) <= height - 1 ==> max_int(x - r, 0) <= width
}

/// Every row of `g` has `w` cells and there are `h` rows.
pub open spec fn grid_shape(g: Seq<Seq<bool>>, w: int, h: int) -> bool {
    g.len() == h && forall|k: int| 0 <= k < g.len() ==> #[trigger] g[k].len() == w
}

proof fn lemma_marker_keeps_shape(g: Seq<Seq<bool>>, x: int, y: int, r: int, w: int, h: int)
    requires
        grid_shape(g, w, h),
    ensures
        grid_shape(grid_with_marker(g, x, y, r), w, h),
{
}

proof fn lemma_label_keeps_shape(g: Seq<Seq<bool>>, x: int, y: int, lw: int, w: int, h: int)
    requires
        grid_shape(g, w, h),
    ensures
        grid_shape(grid_with_label(g, x, y, lw), w, h),
{
}

proof fn lemma_marker_rows_fit(g: Seq<Vec<bool>>, x: int, y: int, r: int, w: int, h: int)
    requires
        grid_shape(grid_view(g), w, h),
        marker_fits(x, y, r, w, h),
    ensures
        forall|k: int|
            marker_row_start(y, r) <= k <= marker_row_end(y, r, g.len() as int) && 0 <= k < g.len()
                ==> max_int(x - r, 0) <= #[trigger] g[k]@.len(),
{
    assert forall|k: int|
        marker_row_start(y, r) <= k <= marker_row_end(y, r, g.len() as int) && 0 <= k < g.len()
            implies max_int(x - r, 0) <= #[trigger] g[k]@.len() by {
        assert(grid_view(g)[k] == g[k]@);
    }
}

fn new_grid(width: usize, height: usize) -> (g: Vec<Vec<bool>>)
    ensures
        grid_view(g@) == empty_grid(width as int, height as int),
{
    let mut g: Vec<Vec<bool>> = Vec::new();
    let mut r: usize = 0;
    while r < height
        invariant
            r <= height,
            g.len() == r,
            forall|k: int| 0 <= k < r ==> #[trigger] g@[k]@ == Seq::new(width as nat, |_k: int| false),
        decreases height - r,
    {
        let mut row: Vec<bool> = Vec::new();
        let mut c: usize = 0;
        while c < width
            invariant
                c <= width,
                row@ == Seq::new(c as nat, |_k: int| false),
            decreases width - c,
        {
            row.push(false);
            assert(row@ =~= Seq::new((c + 1) as nat, |_k: int| false));
            c = c + 1;
        }
        g.push(row);
        r = r + 1;
    }
    assert(grid_view(g@) =~= empty_grid(width as int, height as int));
    g
}

/// The city a click at `(x, y)` picks on a globe canvas of `width` by
/// `height` cells, as `city_hit_spec` says: `cities` are the city markers in
/// preset order, `saved` and `cursor` the reserved focus marks.
pub fn ground_city_hit(
    width: usize,
    height: usize,
    saved: Option<SavedMark>,
    cursor: Option<CursorMark>,
    cities: &Vec<CityMarker>,
    x: usize,
    y: usize,
) -> (r: Option<usize>)
    requires
        width <= isize::MAX,
        height <= isize::MAX,
        saved matches Some(s) ==> marker_fits(s.x as int, s.y as int, 1, width as int, height as int)
            && s.x + 2 <= usize::MAX && s.label_width < usize::MAX,
        cursor matches Some(c) ==> marker_fits(c.x as int, c.y as int, 2, width as int, height as int)
            && c.x + 3 <= usize::MAX && (c.label_width matches Some(w) ==> w < usize::MAX),
        forall|k: int|
            0 <= k < cities.len() ==> {
                let c = #[trigger] cities@[k];
                &&& marker_fits(c.x as int, c.y as int, 0, width as int, height as int)
                &&& c.x + c.label_width + 2 <= isize::MAX
                &&& c.y + 2 <= isize::MAX
                &&& c.label_width < usize::MAX
            },
    ensures
        r == city_hit_spec(width as int, height as int, saved, cursor, cities@, x as int, y as int),
{
    // The nearest marker close enough to the click.
    let mut best: Option<(usize, usize)> = None;
    let mut i: usize = 0;
    while i < cities.len()
        invariant
            i <= cities.len(),
            match best {
                Some(b) => nearest_marker(cities@.take(i as int), x as int, y as int) == Some((b.0 as int, b.1)),
                None => nearest_marker(cities@.take(i as int), x as int, y as int) is None,
            },
        decreases cities.len() - i,
    {
        assert(cities@.take(i + 1).drop_last() =~= cities@.take(i as int));
        assert(cities@.take(i + 1).last() == cities@[i as int]);
        let c = cities[i];
        let dx = if c.x > x { c.x - x } else { x - c.x };
        let dy = if c.y > y { c.y - y } else { y - c.y };
        proof {
            let d = dist2(c.x as int, c.y as int, x as int, y as int);
            assert(d == dx * dx + dy * dy) by (nonlinear_arith)
                requires dx == (if c.x > x { c.x - x } else { x - c.x }), dy == (if c.y > y { c.y - y } else { y - c.y }), d == (c.x - x) * (c.x - x) + (c.y - y) * (c.y - y);
            if dx > 1 {
                assert(dx * dx >= 4) by (nonlinear_arith) requires dx > 1;
                assert(dy * dy >= 0) by (nonlinear_arith);
            }
            if dy > 1 {
                assert(dy * dy >= 4) by (nonlinear_arith) requires dy > 1;
                assert(dx * dx >= 0) by (nonlinear_arith);
            }
        }
        if dx <= 1 && dy <= 1 {
            assert(dx * dx <= 1 && dy * dy <= 1) by (nonlinear_arith)
                requires dx <= 1, dy <= 1;
            let d = dx * dx + dy * dy;
            best = match best {
                Some(b) => if b.0 <= d {
                    Some(b)
                } else {
                    Some((d, c.index))
                },
                None => Some((d, c.index)),
            };
        }
        i = i + 1;
    }
    assert(cities@.take(cities.len() as int) =~= cities@);
    if let Some(b) = best {
        return Some(b.1);
    }

    // Otherwise the label under the click, placing the labels in order.
    let mut occupied = new_grid(width, height);
    proof {
        assert(grid_shape(grid_view(occupied@), width as int, height as int));
    }
    match saved {
        Some(s) => {
            proof {
                lemma_marker_keeps_shape(grid_view(occupied@), s.x as int, s.y as int, 1, width as int, height as int);
                lemma_marker_rows_fit(occupied@, s.x as int, s.y as int, 1, width as int, height as int);
            }
            reserve_marker_cells(&mut occupied, s.x, s.y, 1);
            proof {
                lemma_label_keeps_shape(grid_view(occupied@), s.x + 2, s.y as int, s.label_width as int, width as int, height as int);
            }
            reserve_label_cells(&mut occupied, s.x + 2, s.y, s.label_width);
        },
        None => {},
    }
    match cursor {
        Some(c) => {
            proof {
                lemma_marker_keeps_shape(grid_view(occupied@), c.x as int, c.y as int, 2, width as int, height as int);
                lemma_marker_rows_fit(occupied@, c.x as int, c.y as int, 2, width as int, height as int);
            }
            reserve_marker_cells(&mut occupied, c.x, c.y, 2);
            match c.label_width {
                Some(w) => {
                    proof {
                        lemma_label_keeps_shape(grid_view(occupied@), c.x + 3, c.y as int, w as int, width as int, height as int);
                    }
                    reserve_label_cells(&mut occupied, c.x + 3, c.y, w);
                },
                None => {},
            }
        },
        None => {},
    }
    let ghost focus = grid_view(occupied@);
    let mut m: usize = 0;
    while m < cities.len()
        invariant
            m <= cities.len(),
            grid_view(occupied@) == markers_grid(focus, cities@.take(m as int)),
            grid_shape(grid_view(occupied@), width as int, height as int),
            forall|k: int|
                0 <= k < cities.len() ==> marker_fits((#[trigger] cities@[k]).x as int, cities@[k].y as int, 0, width as int, height as int),
        decreases cities.len() - m,
    {
        assert(cities@.take(m + 1).drop_last() =~= cities@.take(m as int));
        assert(cities@.take(m + 1).last() == cities@[m as int]);
        let c = cities[m];
        proof {
            lemma_marker_keeps_shape(grid_view(occupied@), c.x as int, c.y as int, 0, width as int, height as int);
            lemma_marker_rows_fit(occupied@, c.x as int, c.y as int, 0, width as int, height as int);
        }
        reserve_marker_cells(&mut occupied, c.x, c.y, 0);
        m = m + 1;
    }
    assert(cities@.take(cities.len() as int) =~= cities@);

    let ghost all = cities@;
    let mut j: usize = 0;
    assert(all.skip(0) =~= all);
    while j < cities.len()
        invariant
            j <= cities.len(),
            all == cities@,
            width <= isize::MAX,
            height <= isize::MAX,
            grid_shape(grid_view(occupied@), width as int, height as int),
            label_scan(all, markers_grid(focus, all), x as int, y as int) == label_scan(all.skip(j as int), grid_view(occupied@), x as int, y as int),
            nearest_marker(all, x as int, y as int) is None,
            focus == focus_grid(empty_grid(width as int, height as int), saved, cursor),
            forall|k: int|
                0 <= k < cities.len() ==> {
                    let c = #[trigger] cities@[k];
                    &&& c.x + c.label_width + 2 <= isize::MAX
                    &&& c.y + 2 <= isize::MAX
                    &&& c.label_width < usize::MAX
                },
        decreases cities.len() - j,
    {
        let ghost rest = all.skip(j as int);
        assert(rest[0] == cities@[j as int]);
        assert(rest.skip(1) =~= all.skip(j + 1));
        let c = cities[j];
        if !c.focus && c.label_width != 0 {
            let pos = city_label_position(&occupied, c.x, c.y, c.label_width);
            match pos {
                Some(p) => {
                    if y == p.1 && p.0 <= x && x - p.0 < c.label_width {
                        proof {
                            assert(rest.len() > 0);
                            assert(label_scan(rest, grid_view(occupied@), x as int, y as int) == Some(c.index));
                        }
                        return Some(c.index);
                    }
                    proof {
                        lemma_label_keeps_shape(grid_view(occupied@), p.0 as int, p.1 as int, c.label_width as int, width as int, height as int);
                    }
                    reserve_label_cells(&mut occupied, p.0, p.1, c.label_width);
                },
                None => {},
            }
        }
        j = j + 1;
    }
    None
}

// ---------------------------------------------------------------------------
// Where the city labels are drawn
// ---------------------------------------------------------------------------

/// Where each city's label goes, placing the labels in order as the globe
/// draws them: none for a city whose label is drawn elsewhere, is empty, or
/// finds no free place.
pub open spec fn placed_labels(cs: Seq<CityMarker>, g: Seq<Seq<bool>>) -> Seq<Option<(int, int)>>
    decreases cs.len(),
{
    if cs.len() == 0 {
        Seq::empty()
    } else {
        let c = cs[0];
        let w = c.label_width as int;
        if c.focus || w == 0 {
            seq![None] + placed_labels(cs.skip(1), g)
        } else {
            match label_position(g, c.x as int, c.y as int, w) {
                None => seq![None] + placed_labels(cs.skip(1), g),
                Some(p) => seq![Some(p)] + placed_labels(cs.skip(1), grid_with_label(g, p.0, p.1, w)),
            }
        }
    }
}

/// The grid in which the globe places its city labels: the focus marks and
/// every city marker reserved on an empty canvas.
pub open spec fn city_label_grid(
    width: int,
    height: int,
    saved: Option<SavedMark>,
    cursor: Option<CursorMark>,
    cs: Seq<CityMarker>,
) -> Seq<Seq<bool>> {
    markers_grid(focus_grid(empty_grid(width, height), saved, cursor), cs)
}

pub open spec fn positions_view(v: Seq<Option<(usize, usize)>>) -> Seq<Option<(int, int)>> {
    v.map_values(
        |p: Option<(usize, usize)>|
            match p {
                Some(q) => Some((q.0 as int, q.1 as int)),
                None => None,
            },
    )
}

/// Where the globe draws the label of each of `cities` on a canvas of
/// `width` by `height` cells, as `placed_labels` says.
pub fn city_labels(
    width: usize,
    height: usize,
    saved: Option<SavedMark>,
    cursor: Option<CursorMark>,
    cities: &Vec<CityMarker>,
) -> (r: Vec<Option<(usize, usize)>>)
    requires
        width <= isize::MAX,
        height <= isize::MAX,
        saved matches Some(s) ==> marker_fits(s.x as int, s.y as int, 1, width as int, height as int)
            && s.x + 2 <= usize::MAX && s.label_width < usize::MAX,
        cursor matches Some(c) ==> marker_fits(c.x as int, c.y as int, 2, width as int, height as int)
            && c.x + 3 <= usize::MAX && (c.label_width matches Some(w) ==> w < usize::MAX),
        forall|k: int|
            0 <= k < cities.len() ==> {
                let c = #[trigger] cities@[k];
                &&& marker_fits(c.x as int, c.y as int, 0, width as int, height as int)
                &&& c.x + c.label_width + 2 <= isize::MAX
                &&& c.y + 2 <= isize::MAX
                &&& c.label_width < usize::MAX
            },
    ensures
        positions_view(r@) == placed_labels(
            cities@,
            city_label_grid(width as int, height as int, saved, cursor, cities@),
        ),
{
    let mut occupied = new_grid(width, height);
    proof {
        assert(grid_shape(grid_view(occupied@), width as int, height as int));
    }
    match saved {
        Some(s) => {
            proof {
                lemma_marker_keeps_shape(grid_view(occupied@), s.x as int, s.y as int, 1, width as int, height as int);
                lemma_marker_rows_fit(occupied@, s.x as int, s.y as int, 1, width as int, height as int);
            }
            reserve_marker_cells(&mut occupied, s.x, s.y, 1);
            proof {
                lemma_label_keeps_shape(grid_view(occupied@), s.x + 2, s.y as int, s.label_width as int, width as int, height as int);
            }
            reserve_label_cells(&mut occupied, s.x + 2, s.y, s.label_width);
        },
        None => {},
    }
    match cursor {
        Some(c) => {
            proof {
                lemma_marker_keeps_shape(grid_view(occupied@), c.x as int, c.y as int, 2, width as int, height as int);
                lemma_marker_rows_fit(occupied@, c.x as int, c.y as int, 2, width as int, height as int);
            }
            reserve_marker_cells(&mut occupied, c.x, c.y, 2);
            match c.label_width {
                Some(w) => {
                    proof {
                        lemma_label_keeps_shape(grid_view(occupied@), c.x + 3, c.y as int, w as int, width as int, height as int);
                    }
                    reserve_label_cells(&mut occupied, c.x + 3, c.y, w);
                },
                None => {},
            }
        },
        None => {},
    }
    let ghost focus = grid_view(occupied@);
    let mut m: usize = 0;
    while m < cities.len()
        invariant
            m <= cities.len(),
            grid_view(occupied@) == markers_grid(focus, cities@.take(m as int)),
            grid_shape(grid_view(occupied@), width as int, height as int),
            forall|k: int|
                0 <= k < cities.len() ==> marker_fits((#[trigger] cities@[k]).x as int, cities@[k].y as int, 0, width as int, height as int),
        decreases cities.len() - m,
    {
        assert(cities@.take(m + 1).drop_last() =~= cities@.take(m as int));
        assert(cities@.take(m + 1).last() == cities@[m as int]);
        let c = cities[m];
        proof {
            lemma_marker_keeps_shape(grid_view(occupied@), c.x as int, c.y as int, 0, width as int, height as int);
            lemma_marker_rows_fit(occupied@, c.x as int, c.y as int, 0, width as int, height as int);
        }
        reserve_marker_cells(&mut occupied, c.x, c.y, 0);
        m = m + 1;
    }
    assert(cities@.take(cities.len() as int) =~= cities@);

    let ghost all = cities@;
    let ghost start = grid_view(occupied@);
    let mut out: Vec<Option<(usize, usize)>> = Vec::new();
    let mut j: usize = 0;
    assert(all.skip(0) =~= all);
    while j < cities.len()
        invariant
            j <= cities.len(),
            all == cities@,
            width <= isize::MAX,
            height <= isize::MAX,
            grid_shape(grid_view(occupied@), width as int, height as int),
            placed_labels(all, start) == positions_view(out@) + placed_labels(all.skip(j as int), grid_view(occupied@)),
            forall|k: int|
                0 <= k < cities.len() ==> {
                    let c = #[trigger] cities@[k];
                    &&& c.x + c.label_width + 2 <= isize::MAX
                    &&& c.y + 2 <= isize::MAX
                    &&& c.label_width < usize::MAX
                },
        decreases cities.len() - j,
    {
        let ghost rest = all.skip(j as int);
        let ghost before = positions_view(out@);
        assert(rest[0] == cities@[j as int]);
        assert(rest.skip(1) =~= all.skip(j + 1));
        let c = cities[j];
        let mut placed: Option<(usize, usize)> = None;
        if !c.focus && c.label_width != 0 {
            let pos = city_label_position(&occupied, c.x, c.y, c.label_width);
            match pos {
                Some(p) => {
                    proof {
                        lemma_label_keeps_shape(grid_view(occupied@), p.0 as int, p.1 as int, c.label_width as int, width as int, height as int);
                    }
                    reserve_label_cells(&mut occupied, p.0, p.1, c.label_width);
                    placed = Some(p);
                },
                None => {},
            }
        }
        out.push(placed);
        assert(positions_view(out@) =~= before.push(
            match placed {
                Some(q) => Some((q.0 as int, q.1 as int)),
                None => None,
            },
        ));
        j = j + 1;
    }
    assert(all.skip(cities.len() as int) =~= Seq::<CityMarker>::empty());
    assert(positions_view(out@) + Seq::<Option<(int, int)>>::empty() =~= positions_view(out@));
    out
}

// ---------------------------------------------------------------------------
// A drawn city label is what a click on it picks
// ---------------------------------------------------------------------------

proof fn lemma_placed_len(cs: Seq<CityMarker>, g: Seq<Seq<bool>>)
    ensures
        placed_labels(cs, g).len() == cs.len(),
    decreases cs.len(),
{
    if cs.len() > 0 {
        let c = cs[0];
        let w = c.label_width as int;
        lemma_placed_len(cs.skip(1), g);
        if !(c.focus || w == 0) {
            if let Some(p) = label_position(g, c.x as int, c.y as int, w) {
                lemma_placed_len(cs.skip(1), grid_with_label(g, p.0, p.1, w));
            }
        }
    }
}

/// The cells of a placed label were free in the grid the placing started
/// from.
proof fn lemma_placed_cells_free(cs: Seq<CityMarker>, g: Seq<Seq<bool>>, k: int, x: int)
    requires
        0 <= k < cs.len(),
        placed_labels(cs, g)[k] matches Some(p) && p.0 <= x < p.0 + cs[k].label_width,
    ensures
        placed_labels(cs, g)[k] matches Some(p) && 0 <= p.1 < g.len() && 0 <= x < g[p.1].len()
            && !g[p.1][x],
    decreases k,
{
    let c = cs[0];
    let w = c.label_width as int;
    let rest = cs.skip(1);
    lemma_placed_len(rest, g);
    if c.focus || w == 0 || label_position(g, c.x as int, c.y as int, w) is None {
        assert(placed_labels(cs, g) == seq![None::<(int, int)>] + placed_labels(rest, g));
        assert(k > 0);
        assert(rest[k - 1] == cs[k]);
        lemma_placed_cells_free(rest, g, k - 1, x);
    } else {
        let p0 = label_position(g, c.x as int, c.y as int, w).unwrap();
        let g1 = grid_with_label(g, p0.0, p0.1, w);
        lemma_placed_len(rest, g1);
        assert(placed_labels(cs, g) == seq![Some(p0)] + placed_labels(rest, g1));
        lemma_label_position_fits(g, c.x as int, c.y as int, w);
        if k > 0 {
            assert(rest[k - 1] == cs[k]);
            lemma_placed_cells_free(rest, g1, k - 1, x);
            lemma_reserve_label_monotone(g, p0.0, p0.1, w);
            let p = placed_labels(cs, g)[k].unwrap();
            assert(g1[p.1].len() == g[p.1].len());
            if g[p.1][x] {
                assert(g1[p.1][x]);
            }
        }
    }
}

/// Scanning the labels in drawing order stops at the placed label that a
/// click lands on: no label placed before it shares a cell with it.
proof fn lemma_scan_finds_placed(cs: Seq<CityMarker>, g: Seq<Seq<bool>>, k: int, x: int, y: int)
    requires
        0 <= k < cs.len(),
        placed_labels(cs, g)[k] matches Some(p) && y == p.1 && p.0 <= x < p.0 + cs[k].label_width,
    ensures
        label_scan(cs, g, x, y) == Some(cs[k].index),
    decreases k,
{
    let c = cs[0];
    let w = c.label_width as int;
    let rest = cs.skip(1);
    lemma_placed_len(rest, g);
    if c.focus || w == 0 || label_position(g, c.x as int, c.y as int, w) is None {
        assert(placed_labels(cs, g) == seq![None::<(int, int)>] + placed_labels(rest, g));
        assert(rest[k - 1] == cs[k]);
        lemma_scan_finds_placed(rest, g, k - 1, x, y);
    } else {
        let p0 = label_position(g, c.x as int, c.y as int, w).unwrap();
        let g1 = grid_with_label(g, p0.0, p0.1, w);
        lemma_placed_len(rest, g1);
        assert(placed_labels(cs, g) == seq![Some(p0)] + placed_labels(rest, g1));
        if k > 0 {
            assert(rest[k - 1] == cs[k]);
            lemma_label_position_fits(g, c.x as int, c.y as int, w);
            lemma_placed_cells_free(rest, g1, k - 1, x);
            if y == p0.1 && p0.0 <= x < p0.0 + w {
                assert(g1[p0.1] == row_with_label(g[p0.1], p0.0, w));
                assert(g1[p0.1][x]);
            }
            lemma_scan_finds_placed(rest, g1, k - 1, x, y);
        }
    }
}

/// What the globe draws is what a click picks: a click on a drawn city
/// label picks that label's city, unless a city marker is within reach of
/// the click, which then takes precedence.
pub proof fn lemma_label_click_picks_its_city(
    width: int,
    height: int,
    saved: Option<SavedMark>,
    cursor: Option<CursorMark>,
    cs: Seq<CityMarker>,
    k: int,
    x: int,
    y: int,
)
    requires
        0 <= k < cs.len(),
        placed_labels(cs, city_label_grid(width, height, saved, cursor, cs))[k] matches Some(p) && y
            == p.1 && p.0 <= x < p.0 + cs[k].label_width,
        nearest_marker(cs, x, y) is None,
    ensures
        city_hit_spec(width, height, saved, cursor, cs, x, y) == Some(cs[k].index),
{
    lemma_scan_finds_placed(cs, city_label_grid(width, height, saved, cursor, cs), k, x, y);
}

/// City names are decluttered: no two labels the globe places share a cell.
pub proof fn lemma_city_labels_apart(cs: Seq<CityMarker>, g: Seq<Seq<bool>>, i: int, j: int, x: int)
    requires
        0 <= i < j < cs.len(),
    ensures
        ({
            let a = placed_labels(cs, g)[i];
            let b = placed_labels(cs, g)[j];
            a is Some && b is Some && a.unwrap().1 == b.unwrap().1 ==> !(a.unwrap().0 <= x
                < a.unwrap().0 + cs[i].label_width && b.unwrap().0 <= x < b.unwrap().0
                + cs[j].label_width)
        }),
    decreases i,
{
    let c = cs[0];
    let w = c.label_width as int;
    let rest = cs.skip(1);
    lemma_placed_len(rest, g);
    assert(rest[j - 1] == cs[j]);
    if c.focus || w == 0 || label_position(g, c.x as int, c.y as int, w) is None {
        assert(placed_labels(cs, g) == seq![None::<(int, int)>] + placed_labels(rest, g));
        if i > 0 {
            assert(rest[i - 1] == cs[i]);
            lemma_city_labels_apart(rest, g, i - 1, j - 1, x);
        }
    } else {
        let p0 = label_position(g, c.x as int, c.y as int, w).unwrap();
        let g1 = grid_with_label(g, p0.0, p0.1, w);
        lemma_placed_len(rest, g1);
        assert(placed_labels(cs, g) == seq![Some(p0)] + placed_labels(rest, g1));
        if i > 0 {
            assert(rest[i - 1] == cs[i]);
            lemma_city_labels_apart(rest, g1, i - 1, j - 1, x);
        } else if let Some(q) = placed_labels(cs, g)[j] {
            if q.1 == p0.1 && p0.0 <= x < p0.0 + w && q.0 <= x < q.0 + cs[j].label_width {
                lemma_label_position_fits(g, c.x as int, c.y as int, w);
                lemma_placed_cells_free(rest, g1, j - 1, x);
                assert(g1[p0.1] == row_with_label(g[p0.1], p0.0, w));
                assert(g1[p0.1][x]);
            }
        }
    }
}

} // verus!
