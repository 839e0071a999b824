use vstd::prelude::*;

use crate::catalog::{strings_view, vecs_view};
use crate::config::SkyCulture;
use crate::constellations::{chars_equal, lines_view, ConstellationLine};
use crate::text::{chars_of, eq_ignore_ascii_case, eq_ignore_case, string_from};

verus! {

/// A star above the horizon and bright enough to show: its number and the
/// code of the constellation the catalogue puts it in (possibly empty).
#[derive(Debug, Clone)]
pub struct ShownStar {
    pub hip: u32,
    pub constellation: String,
}

pub open spec fn shown_hips(v: Seq<ShownStar>) -> Seq<u32> {
    v.map_values(|s: ShownStar| s.hip)
}

pub open spec fn shown_constellations(v: Seq<ShownStar>) -> Seq<Seq<char>> {
    v.map_values(|s: ShownStar| s.constellation@)
}

/// Whether a figure path has a segment whose two stars are both shown.
pub open spec fn path_shown(hips: Seq<u32>, shown: Seq<u32>) -> bool {
    exists|i: int|
        0 <= i && i + 1 < hips.len() && shown.contains(#[trigger] hips[i]) && shown.contains(
            hips[i + 1],
        )
}

/// Whether `code` names a figure with a visible path.
pub open spec fn code_shown(lines: Seq<(Seq<char>, Seq<u32>)>, shown: Seq<u32>, code: Seq<char>) -> bool {
    exists|k: int| 0 <= k < lines.len() && #[trigger] lines[k].0 == code && path_shown(lines[k].1, shown)
}

// ---------------------------------------------------------------------------
// The order of codes
// ---------------------------------------------------------------------------

/// Lexicographic order of character sequences, the order of `String`.
pub open spec fn str_lt(a: Seq<char>, b: Seq<char>) -> bool
    decreases a.len(),
{
    if a.len() == 0 {
        b.len() > 0
    } else if b.len() == 0 {
        false
    } else if a[0] != b[0] {
        a[0] < b[0]
    } else {
        str_lt(a.skip(1), b.skip(1))
    }
}

/// Every entry comes strictly before the ones after it.
pub open spec fn strictly_sorted(s: Seq<Seq<char>>) -> bool {
    forall|i: int, j: int| 0 <= i < j < s.len() ==> str_lt(#[trigger] s[i], #[trigger] s[j])
}

pub(crate) proof fn lemma_lt_trichotomy(a: Seq<char>, b: Seq<char>)
    ensures
        str_lt(a, b) || a == b || str_lt(b, a),
        !(str_lt(a, b) && str_lt(b, a)),
        !str_lt(a, a),
    decreases a.len(),
{
    if a.len() > 0 && b.len() > 0 {
        lemma_lt_trichotomy(a.skip(1), b.skip(1));
        lemma_lt_trichotomy(a.skip(1), a.skip(1));
        if a[0] == b[0] && a.skip(1) == b.skip(1) {
            assert(a =~= seq![a[0]] + a.skip(1));
            assert(b =~= seq![b[0]] + b.skip(1));
        }
    } else if a.len() == 0 && b.len() == 0 {
        assert(a =~= b);
    } else if a.len() > 0 {
        lemma_lt_trichotomy(a.skip(1), a.skip(1));
    }
}

pub(crate) proof fn lemma_lt_transitive(a: Seq<char>, b: Seq<char>, c: Seq<char>)
    requires
        str_lt(a, b),
        str_lt(b, c),
    ensures
        str_lt(a, c),
    decreases a.len(),
{
    if a.len() > 0 && b.len() > 0 && c.len() > 0 && a[0] == b[0] && b[0] == c[0] {
        lemma_lt_transitive(a.skip(1), b.skip(1), c.skip(1));
    }
}

/// Whether `a` comes before `b`.
pub(crate) fn less(a: &Vec<char>, b: &Vec<char>) -> (r: bool)
    ensures
        r == str_lt(a@, b@),
{
    let mut i: usize = 0;
    assert(a@.skip(0) =~= a@);
    assert(b@.skip(0) =~= b@);
    while i < a.len() && i < b.len()
        invariant
            i <= a.len(),
            i <= b.len(),
            str_lt(a@, b@) == str_lt(a@.skip(i as int), b@.skip(i as int)),
        decreases a.len() - i,
    {
        if a[i] != b[i] {
            proof {
                assert(a@.skip(i as int)[0] == a@[i as int]);
                assert(b@.skip(i as int)[0] == b@[i as int]);
            }
            return a[i] < b[i];
        }
        proof {
            assert(a@.skip(i as int).skip(1) =~= a@.skip(i + 1));
            assert(b@.skip(i as int).skip(1) =~= b@.skip(i + 1));
        }
        i = i + 1;
    }
    i == a.len() && i < b.len()
}

/// Adds `x` to the sorted list `r` unless it is there already.
fn insert_sorted(r: &mut Vec<Vec<char>>, x: Vec<char>)
    requires
        strictly_sorted(vecs_view(old(r)@)),
    ensures
        strictly_sorted(vecs_view(final(r)@)),
        forall|c: Seq<char>|
            vecs_view(final(r)@).contains(c) <==> (vecs_view(old(r)@).contains(c) || c == x@),
{
    let ghost old_view = vecs_view(r@);
    let mut p: usize = 0;
    while p < r.len() && less(&r[p], &x)
        invariant
            p <= r.len(),
            old_view == vecs_view(r@),
            forall|k: int| 0 <= k < p ==> str_lt(#[trigger] old_view[k], x@),
        decreases r.len() - p,
    {
        p = p + 1;
    }
    if p < r.len() && chars_equal(&r[p], &x) {
        assert(old_view[p as int] == x@);
        return;
    }
    proof {
        if p < r.len() {
            lemma_lt_trichotomy(old_view[p as int], x@);
        }
    }
    let ghost xv = x@;
    r.insert(p, x);
    let ghost nv = vecs_view(r@);
    assert(nv =~= old_view.insert(p as int, xv));
    assert forall|i: int, j: int| 0 <= i < j < nv.len() implies str_lt(#[trigger] nv[i], #[trigger] nv[j]) by {
        if j < p {
        } else if j == p {
        } else if i > p {
            assert(nv[i] == old_view[i - 1]);
            assert(nv[j] == old_view[j - 1]);
        } else if i == p {
            assert(nv[j] == old_view[j - 1]);
            if j - 1 > p {
                lemma_lt_transitive(xv, old_view[p as int], old_view[j - 1]);
            }
        } else {
            assert(nv[j] == old_view[j - 1]);
        }
    }
    assert forall|c: Seq<char>| nv.contains(c) <==> (old_view.contains(c) || c == xv) by {
        if nv.contains(c) {
            let k = choose|k: int| 0 <= k < nv.len() && nv[k] == c;
            if k < p {
                assert(old_view[k] == c);
            } else if k > p {
                assert(old_view[k - 1] == c);
            }
        }
        if old_view.contains(c) {
            let k = choose|k: int| 0 <= k < old_view.len() && old_view[k] == c;
            if k < p {
                assert(nv[k] == c);
            } else {
                assert(nv[k + 1] == c);
            }
        }
        if c == xv {
            assert(nv[p as int] == c);
        }
    }
}

fn contains_hip(v: &Vec<ShownStar>, hip: u32) -> (r: bool)
    ensures
        r == shown_hips(v@).contains(hip),
{
    let ghost hv = shown_hips(v@);
    let mut k: usize = 0;
    while k < v.len()
        invariant
            k <= v.len(),
            hv == shown_hips(v@),
            forall|j: int| 0 <= j < k ==> hv[j] != hip,
        decreases v.len() - k,
    {
        if v[k].hip == hip {
            assert(hv[k as int] == hip);
            return true;
        }
        k = k + 1;
    }
    false
}

/// Whether a figure path has a segment whose two stars are both shown.
pub fn path_is_shown(hips: &Vec<u32>, shown: &Vec<ShownStar>) -> (r: bool)
    ensures
        r == path_shown(hips@, shown_hips(shown@)),
{
    if hips.len() < 2 {
        return false;
    }
    let mut i: usize = 0;
    while i + 1 < hips.len()
        invariant
            i + 1 <= hips.len(),
            forall|k: int|
                0 <= k < i ==> !(shown_hips(shown@).contains(#[trigger] hips@[k])
                    && shown_hips(shown@).contains(hips@[k + 1])),
        decreases hips.len() - i,
    {
        if contains_hip(shown, hips[i]) && contains_hip(shown, hips[i + 1]) {
            return true;
        }
        i = i + 1;
    }
    false
}

/// The codes of the figures with a visible path, each once, in `String`
/// order.
pub fn visible_figure_codes(lines: &Vec<ConstellationLine>, shown: &Vec<ShownStar>) -> (r: Vec<String>)
    ensures
        strictly_sorted(strings_view(r@)),
        forall|c: Seq<char>|
            strings_view(r@).contains(c) <==> code_shown(lines_view(lines@), shown_hips(shown@), c),
{
    let ghost lv = lines_view(lines@);
    let ghost sh = shown_hips(shown@);
    let mut sorted: Vec<Vec<char>> = Vec::new();
    let mut i: usize = 0;
    while i < lines.len()
        invariant
            i <= lines.len(),
            lv == lines_view(lines@),
            sh == shown_hips(shown@),
            strictly_sorted(vecs_view(sorted@)),
            forall|c: Seq<char>|
                vecs_view(sorted@).contains(c) <==> code_shown(lv.take(i as int), sh, c),
        decreases lines.len() - i,
    {
        let ghost before = vecs_view(sorted@);
        let ghost next = lv.take(i + 1);
        assert(next[i as int] == lines@[i as int]@);
        let here = path_is_shown(&lines[i].hips, shown);
        let ghost code_here = lines@[i as int].code@;
        if here {
            let code = chars_of(lines[i].code.as_str());
            insert_sorted(&mut sorted, code);
        }
        assert forall|c: Seq<char>| vecs_view(sorted@).contains(c) <==> code_shown(next, sh, c) by {
            if code_shown(next, sh, c) {
                let k = choose|k: int| 0 <= k < next.len() && #[trigger] next[k].0 == c && path_shown(next[k].1, sh);
                if k < i {
                    assert(lv.take(i as int)[k] == next[k]);
                    assert(code_shown(lv.take(i as int), sh, c));
                } else {
                    assert(k == i);
                    assert(here);
                    assert(c == code_here);
                }
            }
            if vecs_view(sorted@).contains(c) {
                if !before.contains(c) {
                    assert(here && c == code_here);
                    assert(next[i as int].0 == c);
                    assert(path_shown(next[i as int].1, sh));
                }
            }
            if code_shown(lv.take(i as int), sh, c) {
                let k = choose|k: int| 0 <= k < i && #[trigger] lv.take(i as int)[k].0 == c && path_shown(lv.take(i as int)[k].1, sh);
                assert(next[k] == lv.take(i as int)[k]);
                assert(code_shown(next, sh, c));
            }
        }
        i = i + 1;
    }
    assert(lv.take(lines.len() as int) =~= lv);
    let mut r: Vec<String> = Vec::new();
    let mut j: usize = 0;
    while j < sorted.len()
        invariant
            j <= sorted.len(),
            strings_view(r@) =~= vecs_view(sorted@).take(j as int),
        decreases sorted.len() - j,
    {
        assert(vecs_view(sorted@)[j as int] == sorted@[j as int]@);
        let s = string_from(sorted[j].as_slice());
        let ghost before = strings_view(r@);
        r.push(s);
        assert(strings_view(r@) =~= before.push(s@));
        assert(vecs_view(sorted@).take(j + 1) =~= vecs_view(sorted@).take(j as int).push(sorted@[j as int]@));
        j = j + 1;
    }
    assert(vecs_view(sorted@).take(sorted.len() as int) =~= vecs_view(sorted@));
    r
}

/// Whether figure `code` can be seen: one of its paths (codes compared up to
/// ASCII case) has a visible segment, or, for the western sky, a shown star
/// belongs to it.
pub open spec fn figure_shown(
    lines: Seq<(Seq<char>, Seq<u32>)>,
    shown: Seq<ShownStar>,
    culture: SkyCulture,
    code: Seq<char>,
) -> bool {
    (exists|k: int|
        0 <= k < lines.len() && eq_ignore_case(#[trigger] lines[k].0, code) && path_shown(
            lines[k].1,
            shown_hips(shown),
        )) || (culture == SkyCulture::Western && exists|m: int|
        0 <= m < shown.len() && eq_ignore_case(#[trigger] shown_constellations(shown)[m], code))
}

/// Every figure that the list of visible figures names passes the
/// visibility test of a single figure, in either sky culture.
pub proof fn lemma_listed_figures_are_visible(
    lines: Seq<(Seq<char>, Seq<u32>)>,
    shown: Seq<ShownStar>,
    culture: SkyCulture,
    code: Seq<char>,
)
    requires
        code_shown(lines, shown_hips(shown), code),
    ensures
        figure_shown(lines, shown, culture, code),
{
    let k = choose|k: int|
        0 <= k < lines.len() && #[trigger] lines[k].0 == code && path_shown(lines[k].1, shown_hips(shown));
    assert(eq_ignore_case(lines[k].0, code));
}

/// Whether figure `code` of `culture` can be seen, given the shown stars.
pub fn figure_visible(
    lines: &Vec<ConstellationLine>,
    shown: &Vec<ShownStar>,
    culture: SkyCulture,
    code: &str,
) -> (r: bool)
    ensures
        r == figure_shown(lines_view(lines@), shown@, culture, code@),
{
    let ghost lv = lines_view(lines@);
    let mut i: usize = 0;
    while i < lines.len()
        invariant
            i <= lines.len(),
            lv == lines_view(lines@),
            forall|k: int|
                0 <= k < i ==> !(eq_ignore_case(#[trigger] lv[k].0, code@) && path_shown(
                    lv[k].1,
                    shown_hips(shown@),
                )),
        decreases lines.len() - i,
    {
        assert(lv[i as int] == lines@[i as int]@);
        if eq_ignore_ascii_case(lines[i].code.as_str(), code) && path_is_shown(&lines[i].hips, shown) {
            assert(eq_ignore_case(lv[i as int].0, code@) && path_shown(lv[i as int].1, shown_hips(shown@)));
            return true;
        }
        i = i + 1;
    }
    if culture != SkyCulture::Western {
        return false;
    }
    let ghost sc = shown_constellations(shown@);
    let mut m: usize = 0;
    while m < shown.len()
        invariant
            m <= shown.len(),
            sc == shown_constellations(shown@),
            culture == SkyCulture::Western,
            forall|k: int| 0 <= k < m ==> !eq_ignore_case(#[trigger] sc[k], code@),
        decreases shown.len() - m,
    {
        assert(sc[m as int] == shown@[m as int].constellation@);
        if eq_ignore_ascii_case(shown[m].constellation.as_str(), code) {
            assert(eq_ignore_case(shown_constellations(shown@)[m as int], code@));
            assert(culture == SkyCulture::Western);
            return true;
        }
        m = m + 1;
    }
    false
}

} // verus!
