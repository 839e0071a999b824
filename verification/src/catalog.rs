use vstd::prelude::*;

use crate::constellations::chars_equal;
use crate::text::{
    chars_of, copy_range, find_char, first_pos, lines, lines_of, parse_u32, parse_u32_chars,
    rows_view, split_at_char, split_chars, string_from, trim, trim_chars,
};

verus! {

/// How many values of `v` differ from every value before them: the number
/// of distinct values.
pub open spec fn distinct_in(v: Seq<Seq<char>>) -> nat
    decreases v.len(),
{
    if v.len() == 0 {
        0
    } else if v.drop_last().contains(v.last()) {
        distinct_in(v.drop_last())
    } else {
        distinct_in(v.drop_last()) + 1
    }
}

pub open spec fn vecs_view(v: Seq<Vec<char>>) -> Seq<Seq<char>> {
    v.map_values(|c: Vec<char>| c@)
}

pub open spec fn strings_view(v: Seq<String>) -> Seq<Seq<char>> {
    v.map_values(|s: String| s@)
}

/// The number of distinct strings in `values`.
pub fn distinct_count(values: &Vec<String>) -> (r: usize)
    ensures
        r == distinct_in(strings_view(values@)),
{
    let ghost sv = strings_view(values@);
    let mut seen: Vec<Vec<char>> = Vec::new();
    let mut i: usize = 0;
    while i < values.len()
        invariant
            i <= values.len(),
            sv == strings_view(values@),
            seen.len() == distinct_in(sv.take(i as int)),
            seen.len() <= i,
            forall|k: int| 0 <= k < seen.len() ==> sv.take(i as int).contains(#[trigger] seen@[k]@),
            forall|j: int| 0 <= j < i ==> vecs_view(seen@).contains(#[trigger] sv[j]),
        decreases values.len() - i,
    {
        let c = chars_of(values[i].as_str());
        assert(c@ == sv[i as int]);
        let mut found = false;
        let mut k: usize = 0;
        while k < seen.len()
            invariant
                k <= seen.len(),
                found == exists|m: int| 0 <= m < k && #[trigger] seen@[m]@ == c@,
            decreases seen.len() - k,
        {
            if chars_equal(&seen[k], &c) {
                found = true;
            }
            k = k + 1;
        }
        let ghost prefix = sv.take(i as int);
        assert(sv.take(i + 1).drop_last() =~= prefix);
        assert(sv.take(i + 1).last() == c@);
        let ghost seen_before = vecs_view(seen@);
        if found {
            let ghost m = choose|m: int| 0 <= m < seen.len() && #[trigger] seen@[m]@ == c@;
            assert(prefix.contains(seen@[m]@));
        } else {
            assert(!prefix.contains(c@)) by {
                if prefix.contains(c@) {
                    let j = choose|j: int| 0 <= j < prefix.len() && prefix[j] == c@;
                    assert(sv[j] == c@);
                    assert(vecs_view(seen@).contains(sv[j]));
                    let k2 = choose|k2: int| 0 <= k2 < seen.len() && vecs_view(seen@)[k2] == sv[j];
                    assert(seen@[k2]@ == c@);
                }
            }
            seen.push(c);
        }
        assert forall|j: int| 0 <= j < i + 1 implies vecs_view(seen@).contains(#[trigger] sv[j]) by {
            if j < i {
                assert(seen_before.contains(sv[j]));
                let k2 = choose|k2: int| 0 <= k2 < seen_before.len() && seen_before[k2] == sv[j];
                assert(seen_before[k2] == seen@[k2]@);
                assert(vecs_view(seen@)[k2] == sv[j]);
            } else if found {
                let m = choose|m: int| 0 <= m < seen.len() && #[trigger] seen@[m]@ == c@;
                assert(vecs_view(seen@)[m] == sv[j]);
            } else {
                assert(vecs_view(seen@)[seen.len() - 1] == sv[j]);
            }
        }
        assert forall|k2: int| 0 <= k2 < seen.len() implies sv.take(i + 1).contains(#[trigger] seen@[k2]@) by {
            if k2 < seen.len() - 1 || found {
                let w = seen@[k2]@;
                assert(prefix.contains(w));
                let j = choose|j: int| 0 <= j < prefix.len() && prefix[j] == w;
                assert(sv.take(i + 1)[j] == w);
            } else {
                assert(sv.take(i + 1)[i as int] == c@);
            }
        }
        i = i + 1;
    }
    assert(sv.take(values.len() as int) =~= sv);
    seen.len()
}

/// The number of non-empty strings in `v`.
pub open spec fn non_empty_in(v: Seq<Seq<char>>) -> nat
    decreases v.len(),
{
    if v.len() == 0 {
        0
    } else if v.last().len() > 0 {
        non_empty_in(v.drop_last()) + 1
    } else {
        non_empty_in(v.drop_last())
    }
}

/// How many of `values` are not empty (stars with a proper name, say).
pub fn non_empty_count(values: &Vec<String>) -> (r: usize)
    ensures
        r == non_empty_in(strings_view(values@)),
{
    let ghost sv = strings_view(values@);
    let mut n: usize = 0;
    let mut i: usize = 0;
    while i < values.len()
        invariant
            i <= values.len(),
            sv == strings_view(values@),
            n == non_empty_in(sv.take(i as int)),
            n <= i,
        decreases values.len() - i,
    {
        assert(sv.take(i + 1).drop_last() =~= sv.take(i as int));
        assert(sv.take(i + 1).last() == values@[i as int]@);
        if chars_of(values[i].as_str()).len() > 0 {
            n = n + 1;
        }
        i = i + 1;
    }
    assert(sv.take(values.len() as int) =~= sv);
    n
}

/// The least and greatest of `numbers`, or `(0, 0)` for none.
pub fn number_range(numbers: &Vec<u32>) -> (r: (u32, u32))
    ensures
        numbers.len() == 0 ==> r == (0u32, 0u32),
        numbers.len() > 0 ==> {
            &&& numbers@.contains(r.0) && numbers@.contains(r.1)
            &&& forall|k: int| 0 <= k < numbers.len() ==> r.0 <= #[trigger] numbers@[k] <= r.1
        },
{
    if numbers.len() == 0 {
        return (0, 0);
    }
    let mut lo = numbers[0];
    let mut hi = numbers[0];
    let mut i: usize = 1;
    while i < numbers.len()
        invariant
            1 <= i <= numbers.len(),
            numbers@.contains(lo) && numbers@.contains(hi),
            forall|k: int| 0 <= k < i ==> lo <= #[trigger] numbers@[k] <= hi,
        decreases numbers.len() - i,
    {
        if numbers[i] < lo {
            lo = numbers[i];
        }
        if numbers[i] > hi {
            hi = numbers[i];
        }
        i = i + 1;
    }
    (lo, hi)
}

// ---------------------------------------------------------------------------
// The rows of the star and deep-sky catalogues
// ---------------------------------------------------------------------------

pub open spec fn strip_start_quotes(s: Seq<char>) -> Seq<char>
    decreases s.len(),
{
    if s.len() > 0 && s[0] == '"' {
        strip_start_quotes(s.drop_first())
    } else {
        s
    }
}

pub open spec fn strip_end_quotes(s: Seq<char>) -> Seq<char>
    decreases s.len(),
{
    if s.len() > 0 && s.last() == '"' {
        strip_end_quotes(s.drop_last())
    } else {
        s
    }
}

/// `s` without the double quotes at its start and end
/// (`str::trim_matches('"')`).
pub open spec fn strip_quotes(s: Seq<char>) -> Seq<char> {
    strip_end_quotes(strip_start_quotes(s))
}

proof fn lemma_strip_start_from(s: Seq<char>, i: int)
    requires
        0 <= i <= s.len(),
        forall|k: int| 0 <= k < i ==> #[trigger] s[k] == '"',
        i == s.len() || s[i] != '"',
    ensures
        strip_start_quotes(s) == s.subrange(i, s.len() as int),
    decreases i,
{
    if i > 0 {
        let t = s.drop_first();
        assert forall|k: int| 0 <= k < i - 1 implies #[trigger] t[k] == '"' by {
            assert(t[k] == s[k + 1]);
        }
        if i - 1 < t.len() {
            assert(t[i - 1] == s[i]);
        }
        lemma_strip_start_from(t, i - 1);
        assert(t.subrange(i - 1, t.len() as int) =~= s.subrange(i, s.len() as int));
    } else {
        assert(s.subrange(0, s.len() as int) =~= s);
    }
}

proof fn lemma_strip_end_to(s: Seq<char>, j: int)
    requires
        0 <= j <= s.len(),
        forall|k: int| j <= k < s.len() ==> #[trigger] s[k] == '"',
        j == 0 || s[j - 1] != '"',
    ensures
        strip_end_quotes(s) == s.subrange(0, j),
    decreases s.len() - j,
{
    if j < s.len() {
        let t = s.drop_last();
        assert forall|k: int| j <= k < t.len() implies #[trigger] t[k] == '"' by {
            assert(t[k] == s[k]);
        }
        if j > 0 {
            assert(t[j - 1] == s[j - 1]);
        }
        lemma_strip_end_to(t, j);
        assert(t.subrange(0, j) =~= s.subrange(0, j));
    } else {
        assert(s.subrange(0, j) =~= s);
    }
}

/// The characters of `v` without the double quotes at its start and end.
pub fn strip_quote_chars(v: &Vec<char>) -> (r: Vec<char>)
    ensures
        r@ == strip_quotes(v@),
{
    let n = v.len();
    let mut i: usize = 0;
    while i < n && v[i] == '"'
        invariant
            n == v.len(),
            i <= n,
            forall|k: int| 0 <= k < i ==> #[trigger] v@[k] == '"',
        decreases n - i,
    {
        i = i + 1;
    }
    proof {
        lemma_strip_start_from(v@, i as int);
    }
    let ghost t = v@.subrange(i as int, n as int);
    let mut j: usize = n;
    while j > i && v[j - 1] == '"'
        invariant
            n == v.len(),
            i <= j <= n,
            forall|k: int| j <= k < n ==> #[trigger] v@[k] == '"',
        decreases j,
    {
        j = j - 1;
    }
    proof {
        assert forall|k: int| j - i <= k < t.len() implies #[trigger] t[k] == '"' by {
            assert(t[k] == v@[k + i]);
        }
        if j > i {
            assert(t[j - i - 1] == v@[j - 1]);
        }
        lemma_strip_end_to(t, j - i);
        assert(t.subrange(0, j - i) =~= v@.subrange(i as int, j as int));
    }
    copy_range(v, i, j)
}

/// The text fields of a star row.
#[derive(Debug)]
pub struct StarFields {
    pub hip: u32,
    pub proper: String,
    /// Right ascension in hours, as written.
    pub ra: String,
    /// Declination in degrees, as written.
    pub dec: String,
    /// Visual magnitude, as written.
    pub magnitude: String,
    /// Colour index, as written, when the row has the field.
    pub color_index: Option<String>,
    pub constellation: String,
}

/// A star row `hip,proper,ra,dec,mag,ci,con` split at its commas: a row
/// needs its first five fields and a Hipparcos number that parses as
/// `u32`; the proper name and the constellation lose their surrounding
/// double quotes, and the constellation is empty when the row stops before
/// it. The coordinates and magnitude stay text for the caller to read as
/// numbers.
pub open spec fn star_fields_spec(line: Seq<char>) -> Option<
    (u32, Seq<char>, Seq<char>, Seq<char>, Seq<char>, Option<Seq<char>>, Seq<char>),
> {
    let f = split_at_char(line, ',');
    if f.len() < 5 || parse_u32(f[0]) is None {
        None
    } else {
        Some(
            (
                parse_u32(f[0]).unwrap(),
                strip_quotes(f[1]),
                f[2],
                f[3],
                f[4],
                if f.len() > 5 {
                    Some(f[5])
                } else {
                    None
                },
                if f.len() > 6 {
                    strip_quotes(f[6])
                } else {
                    Seq::empty()
                },
            ),
        )
    }
}

/// Splits a star row of the catalogue, as `star_fields_spec` says.
pub fn star_fields(line: &str) -> (r: Option<StarFields>)
    ensures
        match r {
            Some(s) => star_fields_spec(line@) == Some(
                (
                    s.hip,
                    s.proper@,
                    s.ra@,
                    s.dec@,
                    s.magnitude@,
                    match s.color_index {
                        Some(c) => Some(c@),
                        None => None,
                    },
                    s.constellation@,
                ),
            ),
            None => star_fields_spec(line@) is None,
        },
{
    let v = chars_of(line);
    let f = split_chars(&v, ',');
    let ghost fv = rows_view(f@);
    assert(fv == split_at_char(line@, ','));
    if f.len() < 5 {
        return None;
    }
    assert(fv[0] == f@[0]@ && fv[1] == f@[1]@ && fv[2] == f@[2]@ && fv[3] == f@[3]@ && fv[4]
        == f@[4]@);
    let hip = match parse_u32_chars(&f[0]) {
        Some(h) => h,
        None => return None,
    };
    let proper = string_from(strip_quote_chars(&f[1]).as_slice());
    let color_index = if f.len() > 5 {
        assert(fv[5] == f@[5]@);
        Some(string_from(f[5].as_slice()))
    } else {
        None
    };
    let constellation = if f.len() > 6 {
        assert(fv[6] == f@[6]@);
        string_from(strip_quote_chars(&f[6]).as_slice())
    } else {
        string_from(Vec::<char>::new().as_slice())
    };
    Some(
        StarFields {
            hip,
            proper,
            ra: string_from(f[2].as_slice()),
            dec: string_from(f[3].as_slice()),
            magnitude: string_from(f[4].as_slice()),
            color_index,
            constellation,
        },
    )
}

/// The text fields of a deep-sky row.
#[derive(Debug)]
pub struct DeepSkyFields {
    pub name: String,
    pub kind: String,
    /// Right ascension in hours, as written.
    pub ra: String,
    /// Declination in degrees, as written.
    pub dec: String,
    /// Visual magnitude, trimmed, when the field is not blank.
    pub magnitude: Option<String>,
    pub constellation: String,
    pub common: String,
}

/// A deep-sky row `name,kind,ra,dec,mag,con,common` split at its commas: a
/// row needs its first six fields; name, kind, constellation and common
/// name are trimmed, the common name empty when the row stops before it; a
/// blank magnitude is none. The coordinates and magnitude stay text for the
/// caller to read as numbers.
pub open spec fn deep_sky_fields_spec(line: Seq<char>) -> Option<
    (Seq<char>, Seq<char>, Seq<char>, Seq<char>, Option<Seq<char>>, Seq<char>, Seq<char>),
> {
    let f = split_at_char(line, ',');
    if f.len() < 6 {
        None
    } else {
        Some(
            (
                trim(f[0]),
                trim(f[1]),
                f[2],
                f[3],
                if trim(f[4]).len() == 0 {
                    None
                } else {
                    Some(trim(f[4]))
                },
                trim(f[5]),
                if f.len() > 6 {
                    trim(f[6])
                } else {
                    Seq::empty()
                },
            ),
        )
    }
}

/// Splits a deep-sky row of the catalogue, as `deep_sky_fields_spec` says.
pub fn deep_sky_fields(line: &str) -> (r: Option<DeepSkyFields>)
    ensures
        match r {
            Some(d) => deep_sky_fields_spec(line@) == Some(
                (
                    d.name@,
                    d.kind@,
                    d.ra@,
                    d.dec@,
                    match d.magnitude {
                        Some(m) => Some(m@),
                        None => None,
                    },
                    d.constellation@,
                    d.common@,
                ),
            ),
            None => deep_sky_fields_spec(line@) is None,
        },
{
    let v = chars_of(line);
    let f = split_chars(&v, ',');
    let ghost fv = rows_view(f@);
    assert(fv == split_at_char(line@, ','));
    if f.len() < 6 {
        return None;
    }
    assert(fv[0] == f@[0]@ && fv[1] == f@[1]@ && fv[2] == f@[2]@ && fv[3] == f@[3]@ && fv[4]
        == f@[4]@ && fv[5] == f@[5]@);
    let magnitude = trim_chars(&f[4]);
    let magnitude = if magnitude.len() == 0 {
        None
    } else {
        Some(string_from(magnitude.as_slice()))
    };
    let common = if f.len() > 6 {
        assert(fv[6] == f@[6]@);
        string_from(trim_chars(&f[6]).as_slice())
    } else {
        string_from(Vec::<char>::new().as_slice())
    };
    Some(
        DeepSkyFields {
            name: string_from(trim_chars(&f[0]).as_slice()),
            kind: string_from(trim_chars(&f[1]).as_slice()),
            ra: string_from(f[2].as_slice()),
            dec: string_from(f[3].as_slice()),
            magnitude,
            constellation: string_from(trim_chars(&f[5]).as_slice()),
            common,
        },
    )
}

// ---------------------------------------------------------------------------
// The world map files
// ---------------------------------------------------------------------------

/// A point of a map line, `lon,lat`: the text before and after its first
/// comma; none without a comma.
pub open spec fn point_texts(part: Seq<char>) -> Option<(Seq<char>, Seq<char>)> {
    match first_pos(part, ',') {
        Some(p) => Some((part.take(p), part.skip(p + 1))),
        None => None,
    }
}

/// The points of the `;`-separated parts, parts without a comma left out.
pub open spec fn points_of(parts: Seq<Seq<char>>) -> Seq<(Seq<char>, Seq<char>)>
    decreases parts.len(),
{
    if parts.len() == 0 {
        Seq::empty()
    } else {
        let r = points_of(parts.drop_last());
        match point_texts(parts.last()) {
            Some(p) => r.push(p),
            None => r,
        }
    }
}

/// A map file line that holds a path: not blank and not a `#` comment.
pub open spec fn map_line_kept(line: Seq<char>) -> bool {
    trim(line).len() > 0 && !(line.len() > 0 && line[0] == '#')
}

/// The paths of a map file, each as its points' longitude and latitude
/// texts, one for each line that holds a path.
pub open spec fn map_paths(ls: Seq<Seq<char>>) -> Seq<Seq<(Seq<char>, Seq<char>)>>
    decreases ls.len(),
{
    if ls.len() == 0 {
        Seq::empty()
    } else {
        let r = map_paths(ls.drop_last());
        if map_line_kept(ls.last()) {
            r.push(points_of(split_at_char(ls.last(), ';')))
        } else {
            r
        }
    }
}

pub open spec fn pairs_view(v: Seq<(String, String)>) -> Seq<(Seq<char>, Seq<char>)> {
    v.map_values(|p: (String, String)| (p.0@, p.1@))
}

pub open spec fn paths_view(v: Seq<Vec<(String, String)>>) -> Seq<Seq<(Seq<char>, Seq<char>)>> {
    v.map_values(|p: Vec<(String, String)>| pairs_view(p@))
}

/// The points of one map line.
fn line_points(line: &Vec<char>) -> (r: Vec<(String, String)>)
    ensures
        pairs_view(r@) == points_of(split_at_char(line@, ';')),
{
    let parts = split_chars(line, ';');
    let ghost pv = rows_view(parts@);
    let mut out: Vec<(String, String)> = Vec::new();
    let mut i: usize = 0;
    assert(pv.take(0) =~= Seq::<Seq<char>>::empty());
    while i < parts.len()
        invariant
            i <= parts.len(),
            pv == rows_view(parts@),
            pairs_view(out@) == points_of(pv.take(i as int)),
        decreases parts.len() - i,
    {
        assert(pv.take(i + 1).drop_last() =~= pv.take(i as int));
        assert(pv.take(i + 1).last() == parts@[i as int]@);
        let part = &parts[i];
        match find_char(part, ',') {
            Some(p) => {
                let lon = string_from(copy_range(part, 0, p).as_slice());
                let lat = string_from(copy_range(part, p + 1, part.len()).as_slice());
                let ghost before = pairs_view(out@);
                assert(part@.subrange(0, p as int) =~= part@.take(p as int));
                assert(part@.subrange(p + 1, part@.len() as int) =~= part@.skip(p + 1));
                out.push((lon, lat));
                assert(pairs_view(out@) =~= before.push((part@.take(p as int), part@.skip(p + 1))));
            },
            None => {},
        }
        i = i + 1;
    }
    assert(pv.take(parts.len() as int) =~= pv);
    out
}

/// The paths of a world map file, as `map_paths` says of its lines.
pub fn map_file_paths(text: &str) -> (r: Vec<Vec<(String, String)>>)
    ensures
        paths_view(r@) == map_paths(lines_of(text@)),
{
    let ls = lines(text);
    let ghost lv = rows_view(ls@);
    let mut out: Vec<Vec<(String, String)>> = Vec::new();
    let mut i: usize = 0;
    assert(lv.take(0) =~= Seq::<Seq<char>>::empty());
    while i < ls.len()
        invariant
            i <= ls.len(),
            lv == rows_view(ls@),
            paths_view(out@) == map_paths(lv.take(i as int)),
        decreases ls.len() - i,
    {
        assert(lv.take(i + 1).drop_last() =~= lv.take(i as int));
        assert(lv.take(i + 1).last() == ls@[i as int]@);
        let line = &ls[i];
        let blank = trim_chars(line).len() == 0;
        let comment = line.len() > 0 && line[0] == '#';
        if !blank && !comment {
            let ghost before = paths_view(out@);
            out.push(line_points(line));
            assert(paths_view(out@) =~= before.push(points_of(split_at_char(line@, ';'))));
        }
        i = i + 1;
    }
    assert(lv.take(ls.len() as int) =~= lv);
    out
}

} // verus!
