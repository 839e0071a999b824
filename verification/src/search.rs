use vstd::prelude::*;

use crate::app::{results_view, SearchMode, SearchResult, SearchState, Target, TargetView};
use crate::config::{Language, SkyCulture};
use crate::constellations::{
    culture_table, data_rows, figure_matches, matches_query as figure_query_matches, metadata_for_culture,
    metas_view, star_name_hit, star_name_hits, ConstellationMeta,
};
use crate::deep_sky::{deep_sky_matches, matches_query as deep_sky_query_matches, DeepSkyObject};
use crate::keys::Key;
use crate::planets::{matches_query as planet_query_matches, planet_matches, Planet};
use crate::star_aliases::{
    display_name, display_name_for, display_name_for_spec, display_name_of, hip_label, matches_query as star_query_matches,
    star_matches, StarName,
};
use crate::text::{
    chars_of, compacted, lowercase, normalized, push_decimal, push_str, string_from, to_lowercase, trim,
    trim_chars,
};

verus! {

// ---------------------------------------------------------------------------
// The search box
// ---------------------------------------------------------------------------

/// What a key in the search box asks of the rest of the program.
#[derive(Debug, Clone, Copy, PartialEq, Eq, Structural)]
pub enum SearchEffect {
    Nothing,
    /// Leave the search box for the sky.
    Close,
    /// Quit: the first city search cannot be left without a choice.
    Quit,
    /// Go to the result at this row.
    Activate(usize),
    /// The query changed: work out the results again.
    Refresh,
}

/// `v - 1`, or 0 for 0.
pub open spec fn dec_or_zero(v: int) -> int {
    if v > 0 {
        v - 1
    } else {
        0
    }
}

impl SearchState {
    /// Whether the highlighted row is a result, when there is one.
    pub open spec fn row_in_range(&self) -> bool {
        self.results.len() > 0 ==> self.selected < self.results.len()
    }

    /// Highlights row `index`, held to the last result; with no results
    /// nothing changes.
    pub fn select(&mut self, index: usize)
        ensures
            old(self).results.len() == 0 ==> final(self).selected == old(self).selected,
            old(self).results.len() > 0 ==> final(self).selected == (if index < old(
                self,
            ).results.len() {
                index as int
            } else {
                old(self).results.len() - 1
            }),
            final(self).results@ == old(self).results@,
            final(self).query@ == old(self).query@,
            final(self).mode == old(self).mode,
            final(self).row_in_range(),
    {
        let n = self.results.len();
        if n > 0 {
            self.selected = if index < n - 1 {
                index
            } else {
                n - 1
            };
        }
    }

    /// Replaces the results, keeping the highlighted row where it was when it
    /// still names a result and on the last result otherwise.
    pub fn set_results(&mut self, results: Vec<SearchResult>)
        ensures
            final(self).results@ == results@,
            final(self).selected == (if old(self).selected < dec_or_zero(results.len() as int) {
                old(self).selected as int
            } else {
                dec_or_zero(results.len() as int)
            }),
            final(self).query@ == old(self).query@,
            final(self).mode == old(self).mode,
            final(self).row_in_range(),
    {
        let last = if results.len() > 0 {
            results.len() - 1
        } else {
            0
        };
        self.results = results;
        self.selected = if self.selected < last {
            self.selected
        } else {
            last
        };
    }

    /// A key in the search box: Esc leaves (a city search that must pick a
    /// first city quits instead), Enter goes to the highlighted result, Up
    /// and Down move through the results, Backspace and characters edit the
    /// query.
    pub fn handle_key(&mut self, key: Key, can_cancel_setup: bool) -> (r: SearchEffect)
        ensures
            final(self).mode == old(self).mode,
            final(self).results@ == old(self).results@,
            key == Key::Esc ==> *final(self) == *old(self) && r == (if old(self).mode
                == SearchMode::City && !can_cancel_setup {
                SearchEffect::Quit
            } else {
                SearchEffect::Close
            }),
            key == Key::Enter ==> *final(self) == *old(self) && r == SearchEffect::Activate(
                old(self).selected,
            ),
            key == Key::Up ==> final(self).selected == dec_or_zero(old(self).selected as int)
                && final(self).query@ == old(self).query@ && r == SearchEffect::Nothing,
            key == Key::Down ==> final(self).query@ == old(self).query@ && r == SearchEffect::Nothing
                && final(self).selected == (if old(self).results.len() == 0 {
                old(self).selected as int
            } else if old(self).selected + 1 < old(self).results.len() {
                old(self).selected + 1
            } else {
                old(self).results.len() - 1
            }),
            key == Key::Backspace ==> final(self).selected == old(self).selected && r
                == SearchEffect::Refresh && final(self).query@ == (if old(self).query@.len() > 0 {
                old(self).query@.drop_last()
            } else {
                old(self).query@
            }),
            key matches Key::Char(c) ==> final(self).selected == old(self).selected && r
                == SearchEffect::Refresh && final(self).query@ == old(self).query@.push(c),
            !(key == Key::Esc || key == Key::Enter || key == Key::Up || key == Key::Down || key
                == Key::Backspace || key is Char) ==> *final(self) == *old(self) && r
                == SearchEffect::Nothing,
            old(self).row_in_range() ==> final(self).row_in_range(),
    {
        match key {
            Key::Esc => {
                if self.mode == SearchMode::City && !can_cancel_setup {
                    SearchEffect::Quit
                } else {
                    SearchEffect::Close
                }
            },
            Key::Enter => SearchEffect::Activate(self.selected),
            Key::Up => {
                self.selected = if self.selected > 0 {
                    self.selected - 1
                } else {
                    0
                };
                SearchEffect::Nothing
            },
            Key::Down => {
                let n = self.results.len();
                if n > 0 {
                    self.selected = if self.selected < n - 1 {
                        self.selected + 1
                    } else {
                        n - 1
                    };
                }
                SearchEffect::Nothing
            },
            Key::Backspace => {
                let mut v = chars_of(self.query.as_str());
                if v.len() > 0 {
                    v.pop();
                }
                self.query = string_from(v.as_slice());
                SearchEffect::Refresh
            },
            Key::Char(c) => {
                let mut v = chars_of(self.query.as_str());
                v.push(c);
                self.query = string_from(v.as_slice());
                SearchEffect::Refresh
            },
            _ => SearchEffect::Nothing,
        }
    }
}

// ---------------------------------------------------------------------------
// Searching the sky
// ---------------------------------------------------------------------------

/// Most results a sky search lists.
pub const SKY_RESULT_LIMIT: usize = 14;

/// A catalogue star as the sky search lists it: its names and its visual
/// magnitude written with one decimal.
#[derive(Debug, Clone)]
pub struct SearchStar {
    pub star: StarName,
    pub magnitude: String,
}

/// The search-relevant values of a star: number, proper name, magnitude text.
pub open spec fn stars_view(v: Seq<SearchStar>) -> Seq<(u32, Seq<char>, Seq<char>)> {
    v.map_values(|s: SearchStar| (s.star.hip, s.star.proper@, s.magnitude@))
}

pub open spec fn planets_view(v: Seq<Planet>) -> Seq<Seq<char>> {
    v.map_values(|p: Planet| p.name@)
}

pub open spec fn deep_sky_view(v: Seq<DeepSkyObject>) -> Seq<(Seq<char>, Seq<char>, Seq<char>)> {
    v.map_values(|o: DeepSkyObject| (o.name@, o.kind@, o.common@))
}

pub type ResultView = (Seq<char>, Seq<char>, TargetView);

/// ` · `
pub open spec fn dot() -> Seq<char> {
    seq![' ', '\u{b7}', ' ']
}

/// The label of a figure result: western constellations by code, Chinese
/// asterisms by Chinese name, then ` / ` and the English name.
pub open spec fn figure_result_label(culture: SkyCulture, m: (Seq<char>, Seq<char>, Seq<char>)) -> Seq<char> {
    match culture {
        SkyCulture::Western => m.0 + seq![' ', '/', ' '] + m.1,
        SkyCulture::Chinese => m.2 + seq![' ', '/', ' '] + m.1,
    }
}

/// The figure results for the trimmed query `q`, in table order.
pub open spec fn figure_results(
    t: Seq<(Seq<char>, Seq<char>, Seq<char>)>,
    culture: SkyCulture,
    q: Seq<char>,
    figures: Seq<char>,
    kind: Seq<char>,
) -> Seq<ResultView>
    decreases t.len(),
{
    if t.len() == 0 {
        Seq::empty()
    } else {
        let rest = figure_results(t.drop_last(), culture, q, figures, kind);
        let m = t.last();
        if figure_matches(culture, m.0, q, figures) {
            rest.push((figure_result_label(culture, m), kind + dot() + m.2, TargetView::Constellation(m.0)))
        } else {
            rest
        }
    }
}

/// The detail line of a star result: `star`, or `star · <label>` when the
/// star has a name of its own, then its number and magnitude.
pub open spec fn star_detail(hip: u32, proper: Seq<char>, magnitude: Seq<char>, language: Language) -> Seq<char> {
    let name = if display_name_of(hip, proper) == hip_label(hip) {
        "star"@
    } else {
        "star"@ + dot() + display_name_for_spec(hip, proper, language)
    };
    name + dot() + hip_label(hip) + dot() + "mag "@ + magnitude
}

/// A star matches the trimmed query `q` by its number, its proper name or
/// an alias, or by one of its traditional Chinese names in the star-name
/// rows `names`.
pub open spec fn star_found(hip: u32, proper: Seq<char>, q: Seq<char>, names: Seq<Seq<char>>) -> bool {
    star_matches(hip, proper, q) || star_name_hit(names, hip, normalized(q), compacted(q))
}

/// The star results for the trimmed query `q`, in catalogue order.
pub open spec fn star_results(
    t: Seq<(u32, Seq<char>, Seq<char>)>,
    q: Seq<char>,
    language: Language,
    names: Seq<Seq<char>>,
) -> Seq<ResultView>
    decreases t.len(),
{
    if t.len() == 0 {
        Seq::empty()
    } else {
        let rest = star_results(t.drop_last(), q, language, names);
        let s = t.last();
        if star_found(s.0, s.1, q, names) {
            rest.push((display_name_for_spec(s.0, s.1, language), star_detail(s.0, s.1, s.2, language), TargetView::Star(s.0)))
        } else {
            rest
        }
    }
}

/// The planet results for the lowercased query `needle`.
pub open spec fn planet_results(t: Seq<Seq<char>>, needle: Seq<char>) -> Seq<ResultView>
    decreases t.len(),
{
    if t.len() == 0 {
        Seq::empty()
    } else {
        let rest = planet_results(t.drop_last(), needle);
        if planet_matches(t.last(), needle) {
            rest.push((t.last(), "planet"@, TargetView::Planet(t.last())))
        } else {
            rest
        }
    }
}

/// The detail line of a deep-sky result: its kind, and its common name when
/// it has one.
pub open spec fn deep_sky_detail(kind: Seq<char>, common: Seq<char>) -> Seq<char> {
    if common.len() == 0 {
        kind
    } else {
        kind + dot() + common
    }
}

/// The deep-sky results for the lowercased query `needle`.
pub open spec fn deep_sky_results(t: Seq<(Seq<char>, Seq<char>, Seq<char>)>, needle: Seq<char>) -> Seq<ResultView>
    decreases t.len(),
{
    if t.len() == 0 {
        Seq::empty()
    } else {
        let rest = deep_sky_results(t.drop_last(), needle);
        let o = t.last();
        if deep_sky_matches(o.0, o.1, o.2, needle) {
            rest.push((o.0, deep_sky_detail(o.1, o.2), TargetView::DeepSky(o.0)))
        } else {
            rest
        }
    }
}

/// The results of a sky search: nothing for a blank query; otherwise the
/// figures of the sky culture, the stars (by number, name, alias or
/// traditional Chinese name in the star-name file `star_names`), the planets
/// and the deep-sky objects that match, in that order, cut to the first
/// fourteen.
pub open spec fn sky_results(
    query: Seq<char>,
    culture: SkyCulture,
    language: Language,
    figures: Seq<char>,
    star_names: Seq<char>,
    kind: Seq<char>,
    stars: Seq<(u32, Seq<char>, Seq<char>)>,
    planets: Seq<Seq<char>>,
    deep_sky: Seq<(Seq<char>, Seq<char>, Seq<char>)>,
) -> Seq<ResultView> {
    let q = trim(query);
    let needle = lowercase(q);
    if q.len() == 0 {
        Seq::empty()
    } else {
        let all = figure_results(culture_table(culture, figures), culture, q, figures, kind)
            + star_results(stars, q, language, data_rows(star_names)) + planet_results(planets, needle)
            + deep_sky_results(deep_sky, needle);
        if all.len() <= SKY_RESULT_LIMIT {
            all
        } else {
            all.take(SKY_RESULT_LIMIT as int)
        }
    }
}

/// A sky search never lists more than fourteen results, and a blank query
/// lists none.
pub proof fn lemma_sky_results_bounded(
    query: Seq<char>,
    culture: SkyCulture,
    language: Language,
    figures: Seq<char>,
    star_names: Seq<char>,
    kind: Seq<char>,
    stars: Seq<(u32, Seq<char>, Seq<char>)>,
    planets: Seq<Seq<char>>,
    deep_sky: Seq<(Seq<char>, Seq<char>, Seq<char>)>,
)
    ensures
        sky_results(query, culture, language, figures, star_names, kind, stars, planets, deep_sky).len()
            <= SKY_RESULT_LIMIT,
        trim(query).len() == 0 ==> sky_results(
            query,
            culture,
            language,
            figures,
            star_names,
            kind,
            stars,
            planets,
            deep_sky,
        ).len() == 0,
{
}

fn join_chars(a: &str, sep: &str, b: &str) -> (r: String)
    ensures
        r@ == a@ + sep@ + b@,
{
    let mut out: Vec<char> = Vec::new();
    push_str(&mut out, a);
    push_str(&mut out, sep);
    push_str(&mut out, b);
    assert(out@ =~= a@ + sep@ + b@);
    string_from(out.as_slice())
}

fn figure_result(culture: SkyCulture, m: &ConstellationMeta, kind: &str) -> (r: SearchResult)
    ensures
        r@ == (figure_result_label(culture, m@), kind@ + dot() + m@.2, TargetView::Constellation(m@.0)),
{
    proof {
        reveal_strlit(" / ");
        reveal_strlit(" \u{b7} ");
    }
    let label = match culture {
        SkyCulture::Western => join_chars(m.code.as_str(), " / ", m.en.as_str()),
        SkyCulture::Chinese => join_chars(m.zh.as_str(), " / ", m.en.as_str()),
    };
    let detail = join_chars(kind, " \u{b7} ", m.zh.as_str());
    SearchResult { label, detail, target: Target::Constellation(m.code.clone()) }
}

fn star_result(s: &SearchStar, language: Language) -> (r: SearchResult)
    ensures
        r@ == (display_name_for_spec(s.star.hip, s.star.proper@, language), star_detail(
            s.star.hip,
            s.star.proper@,
            s.magnitude@,
            language,
        ), TargetView::Star(s.star.hip)),
{
    proof {
        reveal_strlit("star");
        reveal_strlit(" \u{b7} ");
        reveal_strlit("mag ");
        reveal_strlit("HIP ");
    }
    let label = display_name_for(&s.star, language);
    let canonical = display_name(&s.star);
    let mut hip: Vec<char> = Vec::new();
    push_str(&mut hip, "HIP ");
    push_decimal(s.star.hip, &mut hip);
    assert(hip@ =~= hip_label(s.star.hip));
    let c = chars_of(canonical.as_str());
    let same = crate::constellations::chars_equal(&c, &hip);
    let mut out: Vec<char> = Vec::new();
    push_str(&mut out, "star");
    if !same {
        push_str(&mut out, " \u{b7} ");
        push_str(&mut out, label.as_str());
    }
    push_str(&mut out, " \u{b7} ");
    let ghost before_hip = out@;
    let mut k: usize = 0;
    while k < hip.len()
        invariant
            k <= hip.len(),
            out@ =~= before_hip + hip@.take(k as int),
        decreases hip.len() - k,
    {
        out.push(hip[k]);
        k = k + 1;
    }
    assert(hip@.take(hip.len() as int) =~= hip@);
    push_str(&mut out, " \u{b7} ");
    push_str(&mut out, "mag ");
    push_str(&mut out, s.magnitude.as_str());
    assert(out@ =~= star_detail(s.star.hip, s.star.proper@, s.magnitude@, language));
    SearchResult {
        label,
        detail: string_from(out.as_slice()),
        target: Target::Star(s.star.hip),
    }
}

fn deep_sky_result(o: &DeepSkyObject) -> (r: SearchResult)
    ensures
        r@ == (o.name@, deep_sky_detail(o.kind@, o.common@), TargetView::DeepSky(o.name@)),
{
    proof {
        reveal_strlit(" \u{b7} ");
    }
    let detail = if chars_of(o.common.as_str()).len() == 0 {
        o.kind.clone()
    } else {
        join_chars(o.kind.as_str(), " \u{b7} ", o.common.as_str())
    };
    SearchResult { label: o.name.clone(), detail, target: Target::DeepSky(o.name.clone()) }
}

/// Whether `h` is among `v`.
fn holds_number(v: &Vec<u32>, h: u32) -> (r: bool)
    ensures
        r == v@.contains(h),
{
    let mut i: usize = 0;
    while i < v.len()
        invariant
            i <= v.len(),
            forall|k: int| 0 <= k < i ==> v@[k] != h,
        decreases v.len() - i,
    {
        if v[i] == h {
            assert(v@[i as int] == h);
            return true;
        }
        i = i + 1;
    }
    false
}

/// The results of a sky search for `query`: `figures` is the Chinese figure
/// file, `star_names` the Chinese star-name file, `kind` the word shown for a
/// figure (constellation or asterism in the interface language), and the
/// lists are the catalogue stars, the planets above the horizon and the
/// deep-sky objects.
pub fn sky_search_results(
    query: &str,
    culture: SkyCulture,
    language: Language,
    figures: &str,
    star_names: &str,
    kind: &str,
    stars: &Vec<SearchStar>,
    planets: &Vec<Planet>,
    deep_sky: &Vec<DeepSkyObject>,
) -> (r: Vec<SearchResult>)
    ensures
        results_view(r@) == sky_results(
            query@,
            culture,
            language,
            figures@,
            star_names@,
            kind@,
            stars_view(stars@),
            planets_view(planets@),
            deep_sky_view(deep_sky@),
        ),
{
    let qv = chars_of(query);
    let qt = trim_chars(&qv);
    let mut r: Vec<SearchResult> = Vec::new();
    if qt.len() == 0 {
        assert(results_view(r@) =~= Seq::empty());
        return r;
    }
    let q = string_from(qt.as_slice());
    let needle = to_lowercase(q.as_str());

    let metas = metadata_for_culture(culture, figures);
    let ghost mt = metas_view(metas@);
    let mut i: usize = 0;
    while i < metas.len()
        invariant
            i <= metas.len(),
            mt == metas_view(metas@),
            mt == culture_table(culture, figures@),
            q@ == trim(query@),
            results_view(r@) =~= figure_results(mt.take(i as int), culture, q@, figures@, kind@),
        decreases metas.len() - i,
    {
        assert(mt.take(i + 1).drop_last() =~= mt.take(i as int));
        assert(mt.take(i + 1).last() == metas@[i as int]@);
        if figure_query_matches(culture, metas[i].code.as_str(), q.as_str(), figures) {
            r.push(figure_result(culture, &metas[i], kind));
        }
        i = i + 1;
    }
    assert(mt.take(metas.len() as int) =~= mt);
    let ghost after_figures = results_view(r@);

    let hits = star_name_hits(q.as_str(), star_names);
    let ghost sv = stars_view(stars@);
    let ghost rows = data_rows(star_names@);
    let mut j: usize = 0;
    while j < stars.len()
        invariant
            j <= stars.len(),
            sv == stars_view(stars@),
            q@ == trim(query@),
            rows == data_rows(star_names@),
            forall|h: u32|
                #[trigger] hits@.contains(h) <==> star_name_hit(rows, h, normalized(q@), compacted(q@)),
            results_view(r@) =~= after_figures + star_results(sv.take(j as int), q@, language, rows),
        decreases stars.len() - j,
    {
        assert(sv.take(j + 1).drop_last() =~= sv.take(j as int));
        assert(sv.take(j + 1).last() == (stars@[j as int].star.hip, stars@[j as int].star.proper@, stars@[j as int].magnitude@));
        let ghost before = results_view(r@);
        if star_query_matches(&stars[j].star, q.as_str()) || holds_number(&hits, stars[j].star.hip) {
            let sr = star_result(&stars[j], language);
            r.push(sr);
            assert(results_view(r@) =~= before.push(sr@));
        }
        j = j + 1;
    }
    assert(sv.take(stars.len() as int) =~= sv);
    let ghost after_stars = results_view(r@);

    let ghost pv = planets_view(planets@);
    let mut k: usize = 0;
    while k < planets.len()
        invariant
            k <= planets.len(),
            pv == planets_view(planets@),
            needle@ == lowercase(q@),
            results_view(r@) =~= after_stars + planet_results(pv.take(k as int), needle@),
        decreases planets.len() - k,
    {
        assert(pv.take(k + 1).drop_last() =~= pv.take(k as int));
        assert(pv.take(k + 1).last() == planets@[k as int].name@);
        let ghost before = results_view(r@);
        if planet_query_matches(&planets[k], needle.as_str()) {
            proof {
                reveal_strlit("planet");
            }
            let name = planets[k].name.clone();
            r.push(SearchResult {
                label: planets[k].name.clone(),
                detail: String::from_str("planet"),
                target: Target::Planet(name),
            });
            assert(results_view(r@) =~= before.push(r@.last()@));
        }
        k = k + 1;
    }
    assert(pv.take(planets.len() as int) =~= pv);
    let ghost after_planets = results_view(r@);

    let ghost dv = deep_sky_view(deep_sky@);
    let mut m: usize = 0;
    while m < deep_sky.len()
        invariant
            m <= deep_sky.len(),
            dv == deep_sky_view(deep_sky@),
            needle@ == lowercase(q@),
            results_view(r@) =~= after_planets + deep_sky_results(dv.take(m as int), needle@),
        decreases deep_sky.len() - m,
    {
        assert(dv.take(m + 1).drop_last() =~= dv.take(m as int));
        assert(dv.take(m + 1).last() == (deep_sky@[m as int].name@, deep_sky@[m as int].kind@, deep_sky@[m as int].common@));
        let ghost before = results_view(r@);
        if deep_sky_query_matches(&deep_sky[m], needle.as_str()) {
            let dr = deep_sky_result(&deep_sky[m]);
            r.push(dr);
            assert(results_view(r@) =~= before.push(dr@));
        }
        m = m + 1;
    }
    assert(dv.take(deep_sky.len() as int) =~= dv);
    let ghost all = results_view(r@);
    r.truncate(SKY_RESULT_LIMIT);
    assert(results_view(r@) =~= (if all.len() <= SKY_RESULT_LIMIT {
        all
    } else {
        all.take(SKY_RESULT_LIMIT as int)
    }));
    r
}

} // verus!
