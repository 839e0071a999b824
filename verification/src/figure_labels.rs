use vstd::prelude::*;

use crate::app::{placed_point, PlacedStar};
use crate::canvas::{canvas_label_char, canvas_label_char_width, label_char_columns, label_char_drawn};
use crate::config::{Language, SkyCulture};
use crate::constellations::{chars_equal, culture_table, figure_label, lines_view, meta_lookup, ConstellationLine};
use crate::text::chars_of;

verus! {

/// Where the name of a figure is written on the sky: its code, the label,
/// and the row and columns the label takes.
#[derive(Debug, Clone)]
pub struct LabelHit {
    pub code: String,
    pub label: String,
    pub x: usize,
    pub y: usize,
    pub width: usize,
}

pub type Point = (usize, usize);

/// The drawn cells of the segments of a path whose two stars are both drawn:
/// start and end of each such segment, in order.
pub open spec fn segment_points(hips: Seq<u32>, v: Seq<PlacedStar>) -> Seq<Point>
    decreases hips.len(),
{
    if hips.len() < 2 {
        Seq::empty()
    } else {
        let rest = segment_points(hips.drop_last(), v);
        match (placed_point(v, hips[hips.len() - 2]), placed_point(v, hips.last())) {
            (Some(a), Some(b)) => rest.push(a).push(b),
            _ => rest,
        }
    }
}

/// The position of the group for `code`, if there is one.
pub open spec fn group_position(g: Seq<(Seq<char>, Seq<Point>)>, code: Seq<char>) -> Option<int>
    decreases g.len(),
{
    if g.len() == 0 {
        None
    } else {
        match group_position(g.drop_last(), code) {
            Some(i) => Some(i),
            None => if g.last().0 == code {
                Some(g.len() - 1)
            } else {
                None
            },
        }
    }
}

/// The drawn segment cells of each figure, grouped by code in the order the
/// codes first have drawn segments.
pub open spec fn label_groups(lines: Seq<(Seq<char>, Seq<u32>)>, v: Seq<PlacedStar>) -> Seq<(Seq<char>, Seq<Point>)>
    decreases lines.len(),
{
    if lines.len() == 0 {
        Seq::empty()
    } else {
        let g = label_groups(lines.drop_last(), v);
        let e = segment_points(lines.last().1, v);
        if e.len() == 0 {
            g
        } else {
            match group_position(g, lines.last().0) {
                Some(i) => g.update(i, (g[i].0, g[i].1 + e)),
                None => g.push((lines.last().0, e)),
            }
        }
    }
}

/// The cells of `pts` without repeats, each where it first occurs.
pub open spec fn distinct_points(pts: Seq<Point>) -> Seq<Point>
    decreases pts.len(),
{
    if pts.len() == 0 {
        Seq::empty()
    } else if pts.drop_last().contains(pts.last()) {
        distinct_points(pts.drop_last())
    } else {
        distinct_points(pts.drop_last()).push(pts.last())
    }
}

pub open spec fn sum_x(pts: Seq<Point>) -> int
    decreases pts.len(),
{
    if pts.len() == 0 {
        0
    } else {
        sum_x(pts.drop_last()) + pts.last().0
    }
}

pub open spec fn sum_y(pts: Seq<Point>) -> int
    decreases pts.len(),
{
    if pts.len() == 0 {
        0
    } else {
        sum_y(pts.drop_last()) + pts.last().1
    }
}

/// Columns a label takes, counted no further than `cap`.
pub open spec fn capped_columns(s: Seq<char>, unicode: bool, cap: int) -> int
    decreases s.len(),
{
    if s.len() == 0 || cap <= 0 {
        0
    } else if !label_char_drawn(s[0], unicode) {
        capped_columns(s.skip(1), unicode, cap)
    } else if label_char_columns(s[0], unicode) >= cap {
        cap
    } else {
        label_char_columns(s[0], unicode) + capped_columns(s.skip(1), unicode, cap - label_char_columns(s[0], unicode))
    }
}

/// The label of a figure: the code of a western constellation, the Chinese
/// name of an asterism.
pub open spec fn label_text(culture: SkyCulture, code: Seq<char>, figures: Seq<char>) -> Seq<char> {
    match culture {
        SkyCulture::Western => meta_lookup(culture_table(culture, figures), code).0,
        SkyCulture::Chinese => meta_lookup(culture_table(culture, figures), code).2,
    }
}

/// Where the label of a group goes: one column right of the mean of its
/// distinct cells (held to the canvas), with the label's width cut at the
/// canvas edge; none when that column is off the canvas or nothing of the
/// label fits.
pub open spec fn group_hit(
    group: (Seq<char>, Seq<Point>),
    width: int,
    height: int,
    culture: SkyCulture,
    figures: Seq<char>,
    unicode: bool,
) -> Option<(Seq<char>, Seq<char>, int, int, int)> {
    let d = distinct_points(group.1);
    let mx = sum_x(d) / (d.len() as int);
    let my = sum_y(d) / (d.len() as int);
    let x = if mx < width - 1 { mx } else { width - 1 };
    let y = if my < height - 1 { my } else { height - 1 };
    let label = label_text(culture, group.0, figures);
    let w = capped_columns(label, unicode, width - (x + 1));
    if d.len() == 0 || x + 1 >= width || w <= 0 {
        None
    } else {
        Some((group.0, label, x + 1, y, w))
    }
}

/// The labels of the groups `g`, in order, skipping groups without one.
pub open spec fn group_hits(
    g: Seq<(Seq<char>, Seq<Point>)>,
    width: int,
    height: int,
    culture: SkyCulture,
    figures: Seq<char>,
    unicode: bool,
) -> Seq<(Seq<char>, Seq<char>, int, int, int)>
    decreases g.len(),
{
    if g.len() == 0 {
        Seq::empty()
    } else {
        let rest = group_hits(g.drop_last(), width, height, culture, figures, unicode);
        match group_hit(g.last(), width, height, culture, figures, unicode) {
            Some(h) => rest.push(h),
            None => rest,
        }
    }
}

pub open spec fn hits_view(v: Seq<LabelHit>) -> Seq<(Seq<char>, Seq<char>, int, int, int)> {
    v.map_values(|h: LabelHit| (h.code@, h.label@, h.x as int, h.y as int, h.width as int))
}

// ---------------------------------------------------------------------------
// Proof helpers
// ---------------------------------------------------------------------------

proof fn lemma_group_position_found(g: Seq<(Seq<char>, Seq<Point>)>, code: Seq<char>)
    ensures
        group_position(g, code) matches Some(i) ==> 0 <= i < g.len() && g[i].0 == code,
        group_position(g, code) is None ==> forall|i: int| 0 <= i < g.len() ==> #[trigger] g[i].0 != code,
    decreases g.len(),
{
    if g.len() > 0 {
        lemma_group_position_found(g.drop_last(), code);
        assert forall|i: int| 0 <= i < g.len() - 1 implies #[trigger] g[i] == g.drop_last()[i] by {}
    }
}

proof fn lemma_distinct_bounds(pts: Seq<Point>, wmax: int, hmax: int)
    requires
        forall|k: int| 0 <= k < pts.len() ==> (#[trigger] pts[k]).0 <= wmax && pts[k].1 <= hmax,
    ensures
        sum_x(distinct_points(pts)) <= distinct_points(pts).len() * wmax,
        sum_y(distinct_points(pts)) <= distinct_points(pts).len() * hmax,
        pts.len() > 0 ==> distinct_points(pts).len() > 0,
        distinct_points(pts).len() <= pts.len(),
        forall|k: int| 0 <= k < distinct_points(pts).len() ==> (#[trigger] distinct_points(pts)[k]).0 <= wmax && distinct_points(pts)[k].1 <= hmax,
    decreases pts.len(),
{
    if pts.len() > 0 {
        let d = pts.drop_last();
        assert forall|k: int| 0 <= k < d.len() implies (#[trigger] d[k]).0 <= wmax && d[k].1 <= hmax by {
            assert(d[k] == pts[k]);
        }
        lemma_distinct_bounds(d, wmax, hmax);
        if !d.contains(pts.last()) {
            let r = distinct_points(d);
            assert(distinct_points(pts) == r.push(pts.last()));
            assert(distinct_points(pts).drop_last() =~= r);
            assert(sum_x(distinct_points(pts)) == sum_x(r) + pts.last().0);
            assert((r.len() + 1) * wmax == r.len() * wmax + wmax) by (nonlinear_arith);
            assert((r.len() + 1) * hmax == r.len() * hmax + hmax) by (nonlinear_arith);
        } else {
            assert(d.len() > 0);
        }
    }
}

// ---------------------------------------------------------------------------
// Computing the labels
// ---------------------------------------------------------------------------

fn lookup(v: &Vec<PlacedStar>, hip: u32) -> (r: Option<Point>)
    ensures
        r == placed_point(v@, hip),
{
    let mut k = v.len();
    assert(v@.take(v.len() as int) =~= v@);
    while k > 0
        invariant
            k <= v.len(),
            placed_point(v@, hip) == placed_point(v@.take(k as int), hip),
        decreases k,
    {
        assert(v@.take(k as int).drop_last() =~= v@.take(k - 1));
        assert(v@.take(k as int).last() == v@[k - 1]);
        if v[k - 1].hip == hip {
            return Some((v[k - 1].x, v[k - 1].y));
        }
        k = k - 1;
    }
    assert(v@.take(0) =~= Seq::<PlacedStar>::empty());
    None
}

fn path_segment_points(hips: &Vec<u32>, v: &Vec<PlacedStar>) -> (r: Vec<Point>)
    ensures
        r@ == segment_points(hips@, v@),
{
    let mut out: Vec<Point> = Vec::new();
    if hips.len() < 2 {
        return out;
    }
    let mut i: usize = 1;
    assert(hips@.take(1).len() < 2);
    while i < hips.len()
        invariant
            1 <= i <= hips.len(),
            out@ == segment_points(hips@.take(i as int), v@),
        decreases hips.len() - i,
    {
        let ghost pre = hips@.take(i + 1);
        assert(pre.drop_last() =~= hips@.take(i as int));
        assert(pre[pre.len() - 2] == hips@[i - 1]);
        assert(pre.last() == hips@[i as int]);
        let a = lookup(v, hips[i - 1]);
        let b = lookup(v, hips[i]);
        match (a, b) {
            (Some(pa), Some(pb)) => {
                out.push(pa);
                out.push(pb);
            },
            _ => {},
        }
        i = i + 1;
    }
    assert(hips@.take(hips.len() as int) =~= hips@);
    out
}

pub open spec fn groups_view(g: Seq<(String, Vec<Point>)>) -> Seq<(Seq<char>, Seq<Point>)> {
    g.map_values(|e: (String, Vec<Point>)| (e.0@, e.1@))
}

fn find_group(groups: &Vec<(String, Vec<Point>)>, code: &String) -> (r: Option<usize>)
    ensures
        match r {
            Some(i) => group_position(groups_view(groups@), code@) == Some(i as int),
            None => group_position(groups_view(groups@), code@) is None,
        },
{
    let ghost gv = groups_view(groups@);
    let c = chars_of(code.as_str());
    let mut k: usize = 0;
    while k < groups.len()
        invariant
            k <= groups.len(),
            gv == groups_view(groups@),
            c@ == code@,
            group_position(gv.take(k as int), code@) is None,
        decreases groups.len() - k,
    {
        assert(gv.take(k + 1).drop_last() =~= gv.take(k as int));
        assert(gv.take(k + 1).last() == gv[k as int]);
        let g = chars_of(groups[k].0.as_str());
        if chars_equal(&g, &c) {
            proof {
                lemma_group_prefix(gv, code@, (k + 1) as int);
            }
            return Some(k);
        }
        k = k + 1;
    }
    assert(gv.take(groups.len() as int) =~= gv);
    None
}

proof fn lemma_group_prefix(g: Seq<(Seq<char>, Seq<Point>)>, code: Seq<char>, n: int)
    requires
        0 < n <= g.len(),
        group_position(g.take(n - 1), code) is None,
        g[n - 1].0 == code,
    ensures
        group_position(g, code) == Some(n - 1),
    decreases g.len(),
{
    assert(g.take(n).drop_last() =~= g.take(n - 1));
    if n == g.len() {
        assert(g.take(n) =~= g);
    } else {
        assert(g.drop_last().take(n) =~= g.take(n));
        assert(g.drop_last().take(n - 1) =~= g.take(n - 1));
        lemma_group_prefix(g.drop_last(), code, n);
    }
}

fn distinct(pts: &Vec<Point>) -> (r: Vec<Point>)
    ensures
        r@ == distinct_points(pts@),
{
    let mut out: Vec<Point> = Vec::new();
    let mut i: usize = 0;
    while i < pts.len()
        invariant
            i <= pts.len(),
            out@ == distinct_points(pts@.take(i as int)),
            forall|p: Point| out@.contains(p) <==> pts@.take(i as int).contains(p),
        decreases pts.len() - i,
    {
        let ghost pre = pts@.take(i + 1);
        assert(pre.drop_last() =~= pts@.take(i as int));
        assert(pre.last() == pts@[i as int]);
        let p = pts[i];
        let mut seen = false;
        let mut k: usize = 0;
        while k < out.len()
            invariant
                k <= out.len(),
                seen == exists|m: int| 0 <= m < k && out@[m] == p,
            decreases out.len() - k,
        {
            if out[k].0 == p.0 && out[k].1 == p.1 {
                seen = true;
            }
            k = k + 1;
        }
        let ghost before = out@;
        assert(seen == before.contains(p));
        assert(seen == pts@.take(i as int).contains(p));
        if !seen {
            out.push(p);
        }
        assert forall|q: Point| out@.contains(q) <==> pre.contains(q) by {
            if out@.contains(q) {
                let m = choose|m: int| 0 <= m < out@.len() && out@[m] == q;
                if m < before.len() {
                    assert(before.contains(q));
                    let j = choose|j: int| 0 <= j < pts@.take(i as int).len() && pts@.take(i as int)[j] == q;
                    assert(pre[j] == q);
                } else {
                    assert(pre[i as int] == q);
                }
            }
            if pre.contains(q) {
                let j = choose|j: int| 0 <= j < pre.len() && pre[j] == q;
                if j < i {
                    assert(pts@.take(i as int)[j] == q);
                    assert(before.contains(q));
                    let m = choose|m: int| 0 <= m < before.len() && before[m] == q;
                    assert(out@[m] == q);
                } else if seen {
                    let m = choose|m: int| 0 <= m < before.len() && before[m] == p;
                    assert(out@[m] == q);
                } else {
                    assert(out@[before.len() as int] == q);
                }
            }
        }
        i = i + 1;
    }
    assert(pts@.take(pts.len() as int) =~= pts@);
    out
}

/// Columns of `text` as a label, counted no further than `cap`.
fn capped_width(text: &str, unicode: bool, cap: usize) -> (r: usize)
    ensures
        r == capped_columns(text@, unicode, cap as int),
{
    let v = chars_of(text);
    let ghost full = v@;
    let mut used: usize = 0;
    let mut i: usize = 0;
    assert(full.skip(0) =~= full);
    while i < v.len()
        invariant
            i <= v.len(),
            v@ == full,
            full == text@,
            used <= cap,
            capped_columns(full, unicode, cap as int) == used + capped_columns(full.skip(i as int), unicode, cap - used),
        decreases v.len() - i,
    {
        let ghost rest = full.skip(i as int);
        assert(rest[0] == v@[i as int]);
        assert(rest.skip(1) =~= full.skip(i + 1));
        if used == cap {
            return used;
        }
        match canvas_label_char(v[i], unicode) {
            Some(c) => {
                let w = canvas_label_char_width(c, unicode);
                if w >= cap - used {
                    return cap;
                }
                used = used + w;
            },
            None => {},
        }
        i = i + 1;
    }
    used
}

/// Where the figure labels go on a canvas of `width` by `height` cells, as
/// `group_hits` says: `lines` are the culture's figure paths, `placed` the
/// stars drawn on the canvas; `figures` is the Chinese figure file.
pub fn constellation_label_hits(
    lines: &Vec<ConstellationLine>,
    placed: &Vec<PlacedStar>,
    width: usize,
    height: usize,
    culture: SkyCulture,
    language: Language,
    figures: &str,
    unicode: bool,
) -> (r: Vec<LabelHit>)
    ensures
        width == 0 || height == 0 ==> r.len() == 0,
        width > 0 && height > 0 ==> hits_view(r@) == group_hits(
            label_groups(lines_view(lines@), placed@),
            width as int,
            height as int,
            culture,
            figures@,
            unicode,
        ),
{
    let mut hits: Vec<LabelHit> = Vec::new();
    if width == 0 || height == 0 {
        return hits;
    }
    let ghost lv = lines_view(lines@);
    let mut groups: Vec<(String, Vec<Point>)> = Vec::new();
    let mut i: usize = 0;
    while i < lines.len()
        invariant
            i <= lines.len(),
            lv == lines_view(lines@),
            groups_view(groups@) == label_groups(lv.take(i as int), placed@),
        decreases lines.len() - i,
    {
        assert(lv.take(i + 1).drop_last() =~= lv.take(i as int));
        assert(lv.take(i + 1).last() == lines@[i as int]@);
        let e = path_segment_points(&lines[i].hips, placed);
        if e.len() > 0 {
            let ghost before = groups_view(groups@);
            match find_group(&groups, &lines[i].code) {
                Some(k) => {
                    proof {
                        lemma_group_position_found(before, lines@[i as int].code@);
                    }
                    let mut entry = (String::new(), Vec::new());
                    groups.set_and_swap(k, &mut entry);
                    let mut pts = entry.1;
                    let ghost old_pts = pts@;
                    let mut m: usize = 0;
                    while m < e.len()
                        invariant
                            m <= e.len(),
                            pts@ == old_pts + e@.take(m as int),
                        decreases e.len() - m,
                    {
                        pts.push(e[m]);
                        assert(e@.take(m + 1) =~= e@.take(m as int).push(e@[m as int]));
                        m = m + 1;
                    }
                    assert(e@.take(e.len() as int) =~= e@);
                    groups.set(k, (entry.0, pts));
                    assert(groups_view(groups@) =~= before.update(k as int, (before[k as int].0, before[k as int].1 + e@)));
                },
                None => {
                    groups.push((lines[i].code.clone(), e));
                    assert(groups_view(groups@) =~= before.push((lines@[i as int].code@, e@)));
                },
            }
        }
        i = i + 1;
    }
    assert(lv.take(lines.len() as int) =~= lv);
    let ghost gv = groups_view(groups@);
    let mut j: usize = 0;
    while j < groups.len()
        invariant
            j <= groups.len(),
            width > 0 && height > 0,
            gv == groups_view(groups@),
            hits_view(hits@) == group_hits(gv.take(j as int), width as int, height as int, culture, figures@, unicode),
        decreases groups.len() - j,
    {
        assert(gv.take(j + 1).drop_last() =~= gv.take(j as int));
        assert(gv.take(j + 1).last() == gv[j as int]);
        let group = &groups[j];
        let d = distinct(&group.1);
        let ghost g = gv[j as int];
        let mut sx: u128 = 0;
        let mut sy: u128 = 0;
        let mut k: usize = 0;
        assert(d@.take(0) =~= Seq::<Point>::empty());
        while k < d.len()
            invariant
                k <= d.len(),
                sx == sum_x(d@.take(k as int)),
                sy == sum_y(d@.take(k as int)),
                sum_x(d@.take(k as int)) <= k * (usize::MAX as int),
                sum_y(d@.take(k as int)) <= k * (usize::MAX as int),
                d.len() <= usize::MAX,
            decreases d.len() - k,
        {
            assert(d@.take(k + 1).drop_last() =~= d@.take(k as int));
            assert(d@.take(k + 1).last() == d@[k as int]);
            assert(k * (usize::MAX as int) + (usize::MAX as int) == (k + 1) * (usize::MAX as int)) by (nonlinear_arith);
            assert((k + 1) * (usize::MAX as int) <= (usize::MAX as int) * (usize::MAX as int)) by (nonlinear_arith)
                requires k + 1 <= usize::MAX;
            sx = sx + d[k].0 as u128;
            sy = sy + d[k].1 as u128;
            k = k + 1;
        }
        assert(d@.take(d.len() as int) =~= d@);
        proof {
            lemma_distinct_bounds(g.1, usize::MAX as int, usize::MAX as int);
        }
        if d.len() > 0 {
            let n = d.len() as u128;
            let mx = sx / n;
            let my = sy / n;
            proof {
                assert(sx <= n * (usize::MAX as int));
                assert(mx <= usize::MAX) by (nonlinear_arith)
                    requires sx <= n * (usize::MAX as int), n > 0, mx == sx / n;
                assert(my <= usize::MAX) by (nonlinear_arith)
                    requires sy <= n * (usize::MAX as int), n > 0, my == sy / n;
            }
            let x: usize = if mx < (width - 1) as u128 { mx as usize } else { width - 1 };
            let y: usize = if my < (height - 1) as u128 { my as usize } else { height - 1 };
            assert(d@ == distinct_points(g.1));
            assert(mx == sum_x(d@) / (d@.len() as int));
            assert(my == sum_y(d@) / (d@.len() as int));
            if x + 1 < width {
                let label = figure_label(culture, group.0.as_str(), language, figures);
                let w = capped_width(label.as_str(), unicode, width - (x + 1));
                assert(label@ == label_text(culture, g.0, figures@));
                if w > 0 {
                    let ghost before = hits_view(hits@);
                    assert(group_hit(g, width as int, height as int, culture, figures@, unicode) == Some((g.0, label@, x + 1, y as int, w as int)));
                    hits.push(LabelHit { code: group.0.clone(), label, x: x + 1, y, width: w });
                    assert(hits_view(hits@) =~= before.push((g.0, label_text(culture, g.0, figures@), x + 1, y as int, w as int)));
                } else {
                    assert(group_hit(g, width as int, height as int, culture, figures@, unicode) is None);
                }
            } else {
                assert(group_hit(g, width as int, height as int, culture, figures@, unicode) is None);
            }
        } else {
            assert(group_hit(g, width as int, height as int, culture, figures@, unicode) is None);
        }
        j = j + 1;
    }
    assert(gv.take(groups.len() as int) =~= gv);
    hits
}

proof fn lemma_groups_distinct(lines: Seq<(Seq<char>, Seq<u32>)>, v: Seq<PlacedStar>)
    ensures
        forall|i: int, j: int|
            0 <= i < j < label_groups(lines, v).len() ==> #[trigger] label_groups(lines, v)[i].0
                != #[trigger] label_groups(lines, v)[j].0,
    decreases lines.len(),
{
    if lines.len() > 0 {
        lemma_groups_distinct(lines.drop_last(), v);
        let g = label_groups(lines.drop_last(), v);
        lemma_group_position_found(g, lines.last().0);
    }
}

proof fn lemma_hit_codes_from_groups(
    g: Seq<(Seq<char>, Seq<Point>)>,
    width: int,
    height: int,
    culture: SkyCulture,
    figures: Seq<char>,
    unicode: bool,
)
    ensures
        forall|i: int|
            0 <= i < group_hits(g, width, height, culture, figures, unicode).len() ==> exists|k: int|
                0 <= k < g.len() && #[trigger] group_hits(g, width, height, culture, figures, unicode)[i].0
                    == g[k].0,
        forall|i: int, j: int|
            (forall|a: int, b: int| 0 <= a < b < g.len() ==> #[trigger] g[a].0 != #[trigger] g[b].0)
                && 0 <= i < j < group_hits(g, width, height, culture, figures, unicode).len()
                ==> #[trigger] group_hits(g, width, height, culture, figures, unicode)[i].0
                != #[trigger] group_hits(g, width, height, culture, figures, unicode)[j].0,
    decreases g.len(),
{
    if g.len() > 0 {
        let d = g.drop_last();
        lemma_hit_codes_from_groups(d, width, height, culture, figures, unicode);
        let rest = group_hits(d, width, height, culture, figures, unicode);
        let all = group_hits(g, width, height, culture, figures, unicode);
        assert forall|i: int| 0 <= i < all.len() implies exists|k: int| 0 <= k < g.len() && #[trigger] all[i].0 == g[k].0 by {
            if i < rest.len() {
                assert(all[i] == rest[i]);
                let k = choose|k: int| 0 <= k < d.len() && rest[i].0 == d[k].0;
                assert(g[k] == d[k]);
            } else {
                assert(all[i].0 == g[g.len() - 1].0);
            }
        }
        if forall|a: int, b: int| 0 <= a < b < g.len() ==> #[trigger] g[a].0 != #[trigger] g[b].0 {
            assert forall|a: int, b: int| 0 <= a < b < d.len() implies #[trigger] d[a].0 != #[trigger] d[b].0 by {
                assert(d[a] == g[a] && d[b] == g[b]);
            }
            assert forall|i: int, j: int| 0 <= i < j < all.len() implies #[trigger] all[i].0 != #[trigger] all[j].0 by {
                if j < rest.len() {
                    assert(all[i] == rest[i] && all[j] == rest[j]);
                } else {
                    assert(all[i] == rest[i]);
                    let k = choose|k: int| 0 <= k < d.len() && rest[i].0 == d[k].0;
                    assert(g[k] == d[k]);
                    assert(all[j].0 == g[g.len() - 1].0);
                }
            }
        }
    }
}

/// A figure drawn in several paths still gets one label: no two labels name
/// the same figure.
pub proof fn lemma_one_label_per_figure(
    lines: Seq<(Seq<char>, Seq<u32>)>,
    v: Seq<PlacedStar>,
    width: int,
    height: int,
    culture: SkyCulture,
    figures: Seq<char>,
    unicode: bool,
)
    ensures
        forall|i: int, j: int|
            0 <= i < j < group_hits(label_groups(lines, v), width, height, culture, figures, unicode).len()
                ==> #[trigger] group_hits(label_groups(lines, v), width, height, culture, figures, unicode)[i].0
                != #[trigger] group_hits(label_groups(lines, v), width, height, culture, figures, unicode)[j].0,
{
    lemma_groups_distinct(lines, v);
    lemma_hit_codes_from_groups(label_groups(lines, v), width, height, culture, figures, unicode);
}

/// Whether a click at `(x, y)` lands on a label: on its row, from the
/// column before it to the column after it, within the canvas width.
pub open spec fn hit_covers(h: (Seq<char>, Seq<char>, int, int, int), x: int, y: int, width: int) -> bool {
    let start = if h.2 >= 1 { h.2 - 1 } else { 0 };
    let end = if h.2 + h.4 + 1 < width { h.2 + h.4 + 1 } else { width };
    y == h.3 && start <= x < end
}

/// The code of the first label that a click at `(x, y)` lands on.
pub open spec fn label_at_spec(hits: Seq<(Seq<char>, Seq<char>, int, int, int)>, x: int, y: int, width: int) -> Option<Seq<char>>
    decreases hits.len(),
{
    if hits.len() == 0 {
        None
    } else if hit_covers(hits[0], x, y, width) {
        Some(hits[0].0)
    } else {
        label_at_spec(hits.skip(1), x, y, width)
    }
}

/// The figure whose label a click at `(x, y)` on a canvas `width` cells wide
/// lands on, if any.
pub fn label_at(hits: &Vec<LabelHit>, x: usize, y: usize, width: usize) -> (r: Option<String>)
    ensures
        match r {
            Some(c) => label_at_spec(hits_view(hits@), x as int, y as int, width as int) == Some(c@),
            None => label_at_spec(hits_view(hits@), x as int, y as int, width as int) is None,
        },
{
    let ghost hv = hits_view(hits@);
    let mut k: usize = 0;
    assert(hv.skip(0) =~= hv);
    while k < hits.len()
        invariant
            k <= hits.len(),
            hv == hits_view(hits@),
            label_at_spec(hv, x as int, y as int, width as int) == label_at_spec(hv.skip(k as int), x as int, y as int, width as int),
        decreases hits.len() - k,
    {
        let h = &hits[k];
        let ghost rest = hv.skip(k as int);
        assert(rest[0] == hv[k as int]);
        assert(rest.skip(1) =~= hv.skip(k + 1));
        let start = if h.x >= 1 { h.x - 1 } else { 0 };
        let end = match h.x.checked_add(h.width) {
            Some(a) => match a.checked_add(1) {
                Some(b) => if b < width { b } else { width },
                None => width,
            },
            None => width,
        };
        if y == h.y && start <= x && x < end {
            return Some(h.code.clone());
        }
        k = k + 1;
    }
    None
}

} // verus!
