use vstd::prelude::*;

use crate::app::{Target, TargetView};
use crate::text::chars_of;
use crate::visibility::{lemma_lt_transitive, lemma_lt_trichotomy, less, str_lt};

verus! {

// ---------------------------------------------------------------------------
// What the sky pointer can pick
// ---------------------------------------------------------------------------

/// Something drawn on the sky that the pointer can pick: what it is, the
/// canvas cell it is drawn on, the number it is ranked by (lower first: a
/// brighter object ranks before a fainter one), and a key that orders
/// objects of equal rank.
#[derive(Debug)]
pub struct PointerTarget {
    pub target: Target,
    pub x: usize,
    pub y: usize,
    pub score: i64,
    pub sort_key: String,
}

/// A pointer target as values.
pub struct TargetMark {
    pub target: TargetView,
    pub x: int,
    pub y: int,
    pub score: int,
    pub key: Seq<char>,
}

impl View for PointerTarget {
    type V = TargetMark;

    open spec fn view(&self) -> TargetMark {
        TargetMark {
            target: self.target@,
            x: self.x as int,
            y: self.y as int,
            score: self.score as int,
            key: self.sort_key@,
        }
    }
}

pub open spec fn marks(v: Seq<PointerTarget>) -> Seq<TargetMark> {
    v.map_values(|t: PointerTarget| t@)
}

pub open spec fn targets_view(v: Seq<Target>) -> Seq<TargetView> {
    v.map_values(|t: Target| t@)
}

pub open spec fn mark_targets(s: Seq<TargetMark>) -> Seq<TargetView> {
    s.map_values(|m: TargetMark| m.target)
}

/// `a` ranks before `b`: a lower score, or an equal score and a key that
/// comes first.
pub open spec fn ranks_before(a: TargetMark, b: TargetMark) -> bool {
    a.score < b.score || (a.score == b.score && str_lt(a.key, b.key))
}

/// `t` put into `s` after every mark up to the first that ranks behind it.
pub open spec fn insert_mark(s: Seq<TargetMark>, t: TargetMark) -> Seq<TargetMark>
    decreases s.len(),
{
    if s.len() == 0 {
        seq![t]
    } else if ranks_before(t, s[0]) {
        seq![t] + s
    } else {
        seq![s[0]] + insert_mark(s.skip(1), t)
    }
}

/// The marks in rank order, marks of equal rank in the order given: a
/// stable sort by rank.
pub open spec fn rank_order(s: Seq<TargetMark>) -> Seq<TargetMark>
    decreases s.len(),
{
    if s.len() == 0 {
        s
    } else {
        insert_mark(rank_order(s.drop_last()), s.last())
    }
}

/// `s` with every run of equal neighbours kept once.
pub open spec fn distinct_runs(s: Seq<TargetView>) -> Seq<TargetView>
    decreases s.len(),
{
    if s.len() <= 1 {
        s
    } else if s.last() == s[s.len() - 2] {
        distinct_runs(s.drop_last())
    } else {
        distinct_runs(s.drop_last()).push(s.last())
    }
}

/// The marks drawn on the cell `(x, y)`, in their order.
pub open spec fn marks_at(s: Seq<TargetMark>, x: int, y: int) -> Seq<TargetMark>
    decreases s.len(),
{
    if s.len() == 0 {
        s
    } else if s.last().x == x && s.last().y == y {
        marks_at(s.drop_last(), x, y).push(s.last())
    } else {
        marks_at(s.drop_last(), x, y)
    }
}

/// What the pointer lists for some marks: their targets in rank order, a
/// target that comes twice in a row listed once.
pub open spec fn hit_list(s: Seq<TargetMark>) -> Seq<TargetView> {
    distinct_runs(mark_targets(rank_order(s)))
}

pub open spec fn abs_diff(a: int, b: int) -> int {
    if a < b {
        b - a
    } else {
        a - b
    }
}

/// `t` is within `r` cells of `(x, y)` across and down.
pub open spec fn within(t: TargetMark, x: int, y: int, r: int) -> bool {
    abs_diff(t.x, x) <= r && abs_diff(t.y, y) <= r
}

pub open spec fn dist2(t: TargetMark, x: int, y: int) -> int {
    abs_diff(t.x, x) * abs_diff(t.x, x) + abs_diff(t.y, y) * abs_diff(t.y, y)
}

/// `a` comes before `b` for a pointer at `(x, y)`: nearer, or as near and
/// ranked before it.
pub open spec fn closer(a: TargetMark, b: TargetMark, x: int, y: int) -> bool {
    dist2(a, x, y) < dist2(b, x, y) || (dist2(a, x, y) == dist2(b, x, y) && ranks_before(a, b))
}

/// The position of the first of the marks within `r` of `(x, y)` that no
/// other such mark comes before.
pub open spec fn nearest_mark(s: Seq<TargetMark>, x: int, y: int, r: int) -> Option<int>
    decreases s.len(),
{
    if s.len() == 0 {
        None
    } else {
        let best = nearest_mark(s.drop_last(), x, y, r);
        let i = s.len() - 1;
        if !within(s[i], x, y, r) {
            best
        } else {
            match best {
                None => Some(i),
                Some(b) => if closer(s[i], s[b], x, y) {
                    Some(i)
                } else {
                    best
                },
            }
        }
    }
}

/// Where the pointer lands and what it lists when it is put on `(x, y)`:
/// the targets drawn on that cell; when none is, the targets on the cell of
/// the nearest target within `r`, the pointer moving there; when none is
/// near, nothing, the pointer staying.
pub open spec fn pick_spec(s: Seq<TargetMark>, x: int, y: int, r: int) -> (int, int, Seq<TargetView>) {
    let exact = marks_at(s, x, y);
    if exact.len() > 0 {
        (x, y, hit_list(exact))
    } else {
        match nearest_mark(s, x, y, r) {
            Some(i) => (s[i].x, s[i].y, hit_list(marks_at(s, s[i].x, s[i].y))),
            None => (x, y, Seq::empty()),
        }
    }
}

// ---------------------------------------------------------------------------
// Building the list
// ---------------------------------------------------------------------------

fn copy_target(t: &Target) -> (r: Target)
    ensures
        r@ == t@,
{
    match t {
        Target::Star(h) => Target::Star(*h),
        Target::Constellation(c) => Target::Constellation(c.clone()),
        Target::Planet(p) => Target::Planet(p.clone()),
        Target::Moon => Target::Moon,
        Target::DeepSky(d) => Target::DeepSky(d.clone()),
        Target::City(i) => Target::City(*i),
    }
}

/// Whether two targets are the same.
pub fn same_target(a: &Target, b: &Target) -> (r: bool)
    ensures
        r == (a@ == b@),
{
    match (a, b) {
        (Target::Star(x), Target::Star(y)) => *x == *y,
        (Target::Constellation(x), Target::Constellation(y)) => *x == *y,
        (Target::Planet(x), Target::Planet(y)) => *x == *y,
        (Target::Moon, Target::Moon) => true,
        (Target::DeepSky(x), Target::DeepSky(y)) => *x == *y,
        (Target::City(x), Target::City(y)) => *x == *y,
        _ => false,
    }
}

fn copy_mark(t: &PointerTarget) -> (r: PointerTarget)
    ensures
        r@ == t@,
{
    PointerTarget {
        target: copy_target(&t.target),
        x: t.x,
        y: t.y,
        score: t.score,
        sort_key: t.sort_key.clone(),
    }
}

fn ranked_before(a: &PointerTarget, b: &PointerTarget) -> (r: bool)
    ensures
        r == ranks_before(a@, b@),
{
    if a.score != b.score {
        a.score < b.score
    } else {
        less(&chars_of(a.sort_key.as_str()), &chars_of(b.sort_key.as_str()))
    }
}

proof fn lemma_insert_at(s: Seq<TargetMark>, t: TargetMark, j: int)
    requires
        0 <= j <= s.len(),
        forall|k: int| 0 <= k < j ==> !ranks_before(t, #[trigger] s[k]),
        j < s.len() ==> ranks_before(t, s[j]),
    ensures
        insert_mark(s, t) == s.take(j) + seq![t] + s.skip(j),
    decreases j,
{
    if j == 0 {
        if s.len() == 0 {
            assert(s.take(0) + seq![t] + s.skip(0) =~= seq![t]);
        } else {
            assert(s.take(0) + seq![t] + s.skip(0) =~= seq![t] + s);
        }
    } else {
        assert(!ranks_before(t, s[0]));
        let rest = s.skip(1);
        assert forall|k: int| 0 <= k < j - 1 implies !ranks_before(t, #[trigger] rest[k]) by {
            assert(rest[k] == s[k + 1]);
        }
        if j - 1 < rest.len() {
            assert(rest[j - 1] == s[j]);
        }
        lemma_insert_at(rest, t, j - 1);
        assert(seq![s[0]] + (rest.take(j - 1) + seq![t] + rest.skip(j - 1)) =~= s.take(j) + seq![t]
            + s.skip(j));
    }
}

/// The targets in rank order, equal ranks in the order given.
fn rank_sorted(hits: &Vec<PointerTarget>) -> (r: Vec<PointerTarget>)
    ensures
        marks(r@) == rank_order(marks(hits@)),
{
    let ghost all = marks(hits@);
    let mut out: Vec<PointerTarget> = Vec::new();
    let mut i: usize = 0;
    assert(all.take(0) =~= Seq::<TargetMark>::empty());
    while i < hits.len()
        invariant
            i <= hits.len(),
            all == marks(hits@),
            marks(out@) == rank_order(all.take(i as int)),
        decreases hits.len() - i,
    {
        let t = copy_mark(&hits[i]);
        let mut j: usize = 0;
        while j < out.len() && !ranked_before(&t, &out[j])
            invariant
                j <= out.len(),
                forall|k: int| 0 <= k < j ==> !ranks_before(t@, #[trigger] marks(out@)[k]),
            decreases out.len() - j,
        {
            j = j + 1;
        }
        let ghost before = marks(out@);
        proof {
            assert(all.take(i + 1).drop_last() =~= all.take(i as int));
            assert(all.take(i + 1).last() == t@);
            lemma_insert_at(before, t@, j as int);
        }
        out.insert(j, t);
        assert(marks(out@) =~= before.take(j as int) + seq![t@] + before.skip(j as int));
        i = i + 1;
    }
    assert(all.take(hits.len() as int) =~= all);
    out
}

/// The targets of `sorted`, a target that comes twice in a row listed once.
fn distinct_targets(sorted: &Vec<PointerTarget>) -> (r: Vec<Target>)
    ensures
        targets_view(r@) == distinct_runs(mark_targets(marks(sorted@))),
{
    let ghost ts = mark_targets(marks(sorted@));
    let mut out: Vec<Target> = Vec::new();
    let mut i: usize = 0;
    while i < sorted.len()
        invariant
            i <= sorted.len(),
            ts == mark_targets(marks(sorted@)),
            targets_view(out@) == distinct_runs(ts.take(i as int)),
        decreases sorted.len() - i,
    {
        let ghost prefix = ts.take(i + 1);
        proof {
            assert(prefix.drop_last() =~= ts.take(i as int));
            assert(prefix.last() == sorted@[i as int].target@);
            if i > 0 {
                assert(prefix[i - 1] == sorted@[i - 1].target@);
            }
        }
        if i == 0 {
            out.push(copy_target(&sorted[i].target));
            assert(targets_view(out@) =~= prefix);
        } else if !same_target(&sorted[i].target, &sorted[i - 1].target) {
            let ghost old_view = targets_view(out@);
            out.push(copy_target(&sorted[i].target));
            assert(targets_view(out@) =~= old_view.push(prefix.last()));
        }
        i = i + 1;
    }
    assert(ts.take(sorted.len() as int) =~= ts);
    out
}

/// Copies of the targets drawn on `(x, y)`, in their order.
fn targets_at(targets: &Vec<PointerTarget>, x: usize, y: usize) -> (r: Vec<PointerTarget>)
    ensures
        marks(r@) == marks_at(marks(targets@), x as int, y as int),
{
    let ghost all = marks(targets@);
    let mut out: Vec<PointerTarget> = Vec::new();
    let mut i: usize = 0;
    assert(all.take(0) =~= Seq::<TargetMark>::empty());
    while i < targets.len()
        invariant
            i <= targets.len(),
            all == marks(targets@),
            marks(out@) == marks_at(all.take(i as int), x as int, y as int),
        decreases targets.len() - i,
    {
        proof {
            assert(all.take(i + 1).drop_last() =~= all.take(i as int));
            assert(all.take(i + 1).last() == targets@[i as int]@);
        }
        if targets[i].x == x && targets[i].y == y {
            let ghost old_view = marks(out@);
            out.push(copy_mark(&targets[i]));
            assert(marks(out@) =~= old_view.push(targets@[i as int]@));
        }
        i = i + 1;
    }
    assert(all.take(targets.len() as int) =~= all);
    out
}

/// What the pointer lists for the targets drawn on `(x, y)`: in rank
/// order, each target once for each run.
pub fn hits_at(targets: &Vec<PointerTarget>, x: usize, y: usize) -> (r: Vec<Target>)
    ensures
        targets_view(r@) == hit_list(marks_at(marks(targets@), x as int, y as int)),
{
    let here = targets_at(targets, x, y);
    let sorted = rank_sorted(&here);
    distinct_targets(&sorted)
}

// ---------------------------------------------------------------------------
// Putting the pointer on a cell
// ---------------------------------------------------------------------------

fn diff(a: usize, b: usize) -> (r: usize)
    ensures
        r == abs_diff(a as int, b as int),
{
    if a < b {
        b - a
    } else {
        a - b
    }
}

/// The position of the nearest target within `radius` of `(x, y)`, as
/// `nearest_mark` says.
fn nearest_target(targets: &Vec<PointerTarget>, x: usize, y: usize, radius: usize) -> (r: Option<usize>)
    requires
        radius <= 0x7fff,
    ensures
        match r {
            Some(i) => nearest_mark(marks(targets@), x as int, y as int, radius as int) == Some(i as int),
            None => nearest_mark(marks(targets@), x as int, y as int, radius as int) is None,
        },
        r matches Some(i) ==> i < targets.len(),
{
    let ghost all = marks(targets@);
    let mut best: Option<usize> = None;
    let mut best_d: usize = 0;
    let mut i: usize = 0;
    while i < targets.len()
        invariant
            i <= targets.len(),
            radius <= 0x7fff,
            all == marks(targets@),
            match best {
                Some(b) => nearest_mark(all.take(i as int), x as int, y as int, radius as int) == Some(
                    b as int,
                ) && b < i && best_d == dist2(all[b as int], x as int, y as int),
                None => nearest_mark(all.take(i as int), x as int, y as int, radius as int) is None,
            },
        decreases targets.len() - i,
    {
        let ghost prefix = all.take(i + 1);
        proof {
            assert(prefix.drop_last() =~= all.take(i as int));
            assert(prefix[i as int] == all[i as int]);
            if let Some(b) = best {
                assert(prefix[b as int] == all[b as int]);
            }
        }
        let dx = diff(targets[i].x, x);
        let dy = diff(targets[i].y, y);
        if dx <= radius && dy <= radius {
            assert(dx * dx <= 0x7fff * 0x7fff && dy * dy <= 0x7fff * 0x7fff) by (nonlinear_arith)
                requires
                    dx <= 0x7fff,
                    dy <= 0x7fff,
            ;
            let d = dx * dx + dy * dy;
            match best {
                None => {
                    best = Some(i);
                    best_d = d;
                },
                Some(b) => {
                    if d < best_d || (d == best_d && ranked_before(&targets[i], &targets[b])) {
                        best = Some(i);
                        best_d = d;
                    }
                },
            }
        }
        i = i + 1;
    }
    assert(all.take(targets.len() as int) =~= all);
    best
}

/// Where the pointer lands and what it lists.
#[derive(Debug)]
pub struct PointerPick {
    pub x: usize,
    pub y: usize,
    pub hits: Vec<Target>,
}

pub open spec fn clamp_below(v: usize, n: usize) -> int {
    if v < n {
        v as int
    } else {
        n - 1
    }
}

/// Puts the pointer on `(x, y)` of a canvas of `width` by `height` cells,
/// kept on the canvas, and picks as `pick_spec` says with the pick radius
/// `radius`; nothing happens on an empty canvas.
pub fn pick_targets(
    targets: &Vec<PointerTarget>,
    width: usize,
    height: usize,
    x: usize,
    y: usize,
    radius: usize,
) -> (r: Option<PointerPick>)
    requires
        radius <= 0x7fff,
    ensures
        r is None <==> (width == 0 || height == 0),
        r matches Some(p) ==> (p.x as int, p.y as int, targets_view(p.hits@)) == pick_spec(
            marks(targets@),
            clamp_below(x, width),
            clamp_below(y, height),
            radius as int,
        ),
{
    if width == 0 || height == 0 {
        return None;
    }
    let px = if x < width {
        x
    } else {
        width - 1
    };
    let py = if y < height {
        y
    } else {
        height - 1
    };
    let exact = hits_at(targets, px, py);
    let here = targets_at(targets, px, py);
    if here.len() > 0 {
        return Some(PointerPick { x: px, y: py, hits: exact });
    }
    match nearest_target(targets, px, py, radius) {
        Some(i) => {
            let nx = targets[i].x;
            let ny = targets[i].y;
            Some(PointerPick { x: nx, y: ny, hits: hits_at(targets, nx, ny) })
        },
        None => Some(PointerPick { x: px, y: py, hits: Vec::new() }),
    }
}

/// What the pointer lists while it rests on `(x, y)`: the targets drawn on
/// that cell, nothing on an empty canvas.
pub fn hover_hits(targets: &Vec<PointerTarget>, width: usize, height: usize, x: usize, y: usize) -> (r:
    Vec<Target>)
    ensures
        targets_view(r@) == (if width == 0 || height == 0 {
            Seq::empty()
        } else {
            hit_list(marks_at(marks(targets@), x as int, y as int))
        }),
{
    if width == 0 || height == 0 {
        let r: Vec<Target> = Vec::new();
        assert(targets_view(r@) =~= Seq::<TargetView>::empty());
        return r;
    }
    hits_at(targets, x, y)
}

// ---------------------------------------------------------------------------
// Laws of the pick list
// ---------------------------------------------------------------------------

proof fn lemma_push_contains<A>(s: Seq<A>, a: A)
    ensures
        forall|m: A| #[trigger] s.push(a).contains(m) <==> (s.contains(m) || m == a),
{
    assert forall|m: A| #[trigger] s.push(a).contains(m) <==> (s.contains(m) || m == a) by {
        let r = s.push(a);
        if r.contains(m) {
            let k = choose|k: int| 0 <= k < r.len() && r[k] == m;
            if k < s.len() {
                assert(s[k] == m);
            }
        }
        if s.contains(m) {
            let k = choose|k: int| 0 <= k < s.len() && s[k] == m;
            assert(r[k] == m);
        }
        if m == a {
            assert(r[s.len() as int] == m);
        }
    }
}

proof fn lemma_drop_last_contains<A>(s: Seq<A>)
    requires
        s.len() > 0,
    ensures
        forall|m: A| #[trigger] s.contains(m) <==> (s.drop_last().contains(m) || m == s.last()),
{
    lemma_push_contains(s.drop_last(), s.last());
    assert(s.drop_last().push(s.last()) =~= s);
}

proof fn lemma_marks_at_contains(s: Seq<TargetMark>, x: int, y: int)
    ensures
        forall|m: TargetMark|
            #[trigger] marks_at(s, x, y).contains(m) <==> (s.contains(m) && m.x == x && m.y == y),
    decreases s.len(),
{
    if s.len() > 0 {
        lemma_marks_at_contains(s.drop_last(), x, y);
        lemma_drop_last_contains(s);
        lemma_push_contains(marks_at(s.drop_last(), x, y), s.last());
    }
}

proof fn lemma_cons_contains<A>(a: A, s: Seq<A>)
    ensures
        forall|m: A| #[trigger] (seq![a] + s).contains(m) <==> (m == a || s.contains(m)),
{
    assert forall|m: A| #[trigger] (seq![a] + s).contains(m) <==> (m == a || s.contains(m)) by {
        let r = seq![a] + s;
        if r.contains(m) {
            let k = choose|k: int| 0 <= k < r.len() && r[k] == m;
            if k > 0 {
                assert(s[k - 1] == m);
            }
        }
        if s.contains(m) {
            let k = choose|k: int| 0 <= k < s.len() && s[k] == m;
            assert(r[k + 1] == m);
        }
        if m == a {
            assert(r[0] == m);
        }
    }
}

proof fn lemma_insert_mark_contains(s: Seq<TargetMark>, t: TargetMark)
    ensures
        forall|m: TargetMark| #[trigger] insert_mark(s, t).contains(m) <==> (s.contains(m) || m == t),
        insert_mark(s, t).len() == s.len() + 1,
    decreases s.len(),
{
    if s.len() == 0 {
        lemma_cons_contains(t, s);
        assert(seq![t] + s =~= seq![t]);
    } else {
        let rest = s.skip(1);
        lemma_cons_contains(s[0], rest);
        assert(seq![s[0]] + rest =~= s);
        if ranks_before(t, s[0]) {
            lemma_cons_contains(t, s);
        } else {
            lemma_insert_mark_contains(rest, t);
            lemma_cons_contains(s[0], insert_mark(rest, t));
        }
    }
}

/// Putting marks in rank order keeps every mark and no other.
pub proof fn lemma_rank_order_contains(s: Seq<TargetMark>)
    ensures
        forall|m: TargetMark| #[trigger] rank_order(s).contains(m) <==> s.contains(m),
        rank_order(s).len() == s.len(),
    decreases s.len(),
{
    if s.len() > 0 {
        lemma_rank_order_contains(s.drop_last());
        lemma_insert_mark_contains(rank_order(s.drop_last()), s.last());
        lemma_drop_last_contains(s);
    }
}

proof fn lemma_distinct_runs_contains(s: Seq<TargetView>)
    ensures
        forall|v: TargetView| #[trigger] distinct_runs(s).contains(v) <==> s.contains(v),
    decreases s.len(),
{
    if s.len() > 1 {
        let d = s.drop_last();
        lemma_distinct_runs_contains(d);
        lemma_drop_last_contains(s);
        if s.last() == s[s.len() - 2] {
            assert(distinct_runs(s) == distinct_runs(d));
            assert(d[s.len() - 2] == s.last());
            assert(d.contains(s.last()));
        } else {
            assert(distinct_runs(s) == distinct_runs(d).push(s.last()));
            lemma_push_contains(distinct_runs(d), s.last());
        }
        assert forall|v: TargetView| #[trigger] distinct_runs(s).contains(v) <==> s.contains(v) by {
            assert(s.contains(v) <==> (d.contains(v) || v == s.last()));
        }
    }
}

/// The pointer lists exactly the targets drawn on its cell: each target in
/// the list is drawn there, and each target drawn there is in the list.
pub proof fn lemma_hits_are_the_cell(s: Seq<TargetMark>, x: int, y: int)
    ensures
        forall|v: TargetView|
            #[trigger] hit_list(marks_at(s, x, y)).contains(v) <==> exists|k: int|
                0 <= k < s.len() && s[k].x == x && s[k].y == y && (#[trigger] s[k]).target == v,
{
    let here = marks_at(s, x, y);
    let ordered = rank_order(here);
    lemma_marks_at_contains(s, x, y);
    lemma_rank_order_contains(here);
    lemma_distinct_runs_contains(mark_targets(ordered));
    assert forall|v: TargetView| #[trigger] hit_list(here).contains(v) <==> exists|k: int|
        0 <= k < s.len() && s[k].x == x && s[k].y == y && (#[trigger] s[k]).target == v by {
        if hit_list(here).contains(v) {
            let q = choose|q: int| 0 <= q < mark_targets(ordered).len() && mark_targets(ordered)[q] == v;
            let m = ordered[q];
            assert(ordered.contains(m));
            assert(here.contains(m));
            assert(s.contains(m));
            let k = choose|k: int| 0 <= k < s.len() && s[k] == m;
            assert(s[k].target == v);
        }
        if exists|k: int| 0 <= k < s.len() && s[k].x == x && s[k].y == y && (#[trigger] s[k]).target
            == v {
            let k = choose|k: int| 0 <= k < s.len() && s[k].x == x && s[k].y == y && (#[trigger] s[k]).target
                == v;
            let m = s[k];
            assert(s.contains(m));
            assert(here.contains(m));
            assert(ordered.contains(m));
            let q = choose|q: int| 0 <= q < ordered.len() && ordered[q] == m;
            assert(mark_targets(ordered)[q] == v);
            assert(mark_targets(ordered).contains(v));
        }
    }
}

/// No target is listed twice in a row.
pub proof fn lemma_hits_have_no_repeats_in_a_row(s: Seq<TargetView>)
    ensures
        forall|i: int| 0 < i < distinct_runs(s).len() ==> #[trigger] distinct_runs(s)[i] != distinct_runs(s)[i - 1],
        distinct_runs(s).len() <= s.len(),
        s.len() > 0 ==> distinct_runs(s).len() > 0 && distinct_runs(s).last() == s.last(),
    decreases s.len(),
{
    if s.len() > 1 {
        lemma_hits_have_no_repeats_in_a_row(s.drop_last());
    }
}

/// Marks in rank order: none ranks before a mark that comes earlier.
pub open spec fn in_rank_order(s: Seq<TargetMark>) -> bool {
    forall|i: int, j: int| 0 <= i < j < s.len() ==> !ranks_before(#[trigger] s[j], #[trigger] s[i])
}

proof fn lemma_ranks_before_order(a: TargetMark, b: TargetMark, c: TargetMark)
    ensures
        !ranks_before(a, a),
        ranks_before(a, b) && ranks_before(b, c) ==> ranks_before(a, c),
{
    lemma_lt_trichotomy(a.key, a.key);
    if a.score == b.score && b.score == c.score && str_lt(a.key, b.key) && str_lt(b.key, c.key) {
        lemma_lt_transitive(a.key, b.key, c.key);
    }
}

proof fn lemma_insert_keeps_order(s: Seq<TargetMark>, t: TargetMark)
    requires
        in_rank_order(s),
    ensures
        in_rank_order(insert_mark(s, t)),
    decreases s.len(),
{
    if s.len() == 0 {
    } else if ranks_before(t, s[0]) {
        let r = seq![t] + s;
        assert forall|i: int, j: int| 0 <= i < j < r.len() implies !ranks_before(#[trigger] r[j], #[trigger] r[i]) by {
            if i == 0 {
                lemma_ranks_before_order(r[j], t, s[0]);
                if j > 1 {
                    assert(!ranks_before(s[j - 1], s[0]));
                }
            } else {
                assert(r[i] == s[i - 1] && r[j] == s[j - 1]);
            }
        }
    } else {
        let rest = s.skip(1);
        assert(in_rank_order(rest)) by {
            assert forall|i: int, j: int| 0 <= i < j < rest.len() implies !ranks_before(#[trigger] rest[j], #[trigger] rest[i]) by {
                assert(rest[i] == s[i + 1] && rest[j] == s[j + 1]);
            }
        }
        lemma_insert_keeps_order(rest, t);
        lemma_insert_mark_contains(rest, t);
        let ins = insert_mark(rest, t);
        let r = seq![s[0]] + ins;
        assert forall|i: int, j: int| 0 <= i < j < r.len() implies !ranks_before(#[trigger] r[j], #[trigger] r[i]) by {
            if i == 0 {
                let e = ins[j - 1];
                assert(ins.contains(e));
                if e != t {
                    assert(rest.contains(e));
                    let k = choose|k: int| 0 <= k < rest.len() && rest[k] == e;
                    assert(s[k + 1] == e);
                }
            } else {
                assert(r[i] == ins[i - 1] && r[j] == ins[j - 1]);
            }
        }
    }
}

/// The pick list follows rank order: a stable sort by rank leaves no mark
/// ranked before one that comes earlier.
pub proof fn lemma_rank_order_sorted(s: Seq<TargetMark>)
    ensures
        in_rank_order(rank_order(s)),
    decreases s.len(),
{
    if s.len() > 0 {
        lemma_rank_order_sorted(s.drop_last());
        lemma_insert_keeps_order(rank_order(s.drop_last()), s.last());
    }
}

/// The star numbers among the targets, in their order.
pub open spec fn star_numbers(s: Seq<TargetView>) -> Seq<u32>
    decreases s.len(),
{
    if s.len() == 0 {
        Seq::empty()
    } else {
        let rest = star_numbers(s.drop_last());
        match s.last() {
            TargetView::Star(h) => rest.push(h),
            _ => rest,
        }
    }
}

/// The stars the pointer lists, by Hipparcos number, in list order.
pub fn star_hits(hits: &Vec<Target>) -> (r: Vec<u32>)
    ensures
        r@ == star_numbers(targets_view(hits@)),
{
    let ghost all = targets_view(hits@);
    let mut out: Vec<u32> = Vec::new();
    let mut i: usize = 0;
    assert(all.take(0) =~= Seq::<TargetView>::empty());
    while i < hits.len()
        invariant
            i <= hits.len(),
            all == targets_view(hits@),
            out@ == star_numbers(all.take(i as int)),
        decreases hits.len() - i,
    {
        assert(all.take(i + 1).drop_last() =~= all.take(i as int));
        assert(all.take(i + 1).last() == hits@[i as int]@);
        match &hits[i] {
            Target::Star(h) => out.push(*h),
            _ => {},
        }
        i = i + 1;
    }
    assert(all.take(hits.len() as int) =~= all);
    out
}

} // verus!
