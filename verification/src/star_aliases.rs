use vstd::prelude::*;

use crate::config::Language;
use crate::text::{
    chars_of, compact, compacted, contains_cjk, contains_sub, copy_range, decimal, drop_ws,
    eq_ignore_ascii_case, eq_ignore_case, has_cjk, has_sub, lowercase, normalize, normalized,
    parse_u32, parse_u32_chars, push_decimal, string_from, to_lowercase, trim, trim_chars,
};

verus! {

/// The identifying part of a catalogue star that naming and search read:
/// its Hipparcos number and its proper name (empty when it has none).
#[derive(Debug, Clone, PartialEq, Eq)]
pub struct StarName {
    pub hip: u32,
    pub proper: String,
}

/// Curated names of a well-known star.
#[derive(Debug, Clone, PartialEq, Eq)]
pub struct StarAlias {
    pub hip: u32,
    pub display: &'static str,
    pub aliases: Vec<&'static str>,
}

impl View for StarAlias {
    type V = (u32, Seq<char>, Seq<Seq<char>>);

    open spec fn view(&self) -> (u32, Seq<char>, Seq<Seq<char>>) {
        (self.hip, self.display@, self.aliases@.map_values(|a: &str| a@))
    }
}

pub open spec fn aliases_view(v: Seq<StarAlias>) -> Seq<(u32, Seq<char>, Seq<Seq<char>>)> {
    v.map_values(|a: StarAlias| a@)
}

fn alias(hip: u32, display: &'static str, aliases: Vec<&'static str>) -> (r: StarAlias)
    ensures
        r@ == (hip, display@, aliases@.map_values(|a: &str| a@)),
{
    StarAlias { hip, display, aliases }
}

/// The curated alias table: Hipparcos number, display name, aliases.
pub open spec fn alias_table() -> Seq<(u32, Seq<char>, Seq<Seq<char>>)> {
    seq![
        (8102u32, "Tau Ceti"@, seq!["Tau Ceti"@, "τ Ceti"@, "52 Ceti"@, "HD 10700"@, "HR 509"@, "Gliese 71"@, "天仓五"@]),
        (71683u32, "Alpha Centauri"@, seq!["Alpha Centauri"@, "α Centauri"@, "Alpha Cen"@, "α Cen"@, "Rigil Kentaurus"@, "南门二"@]),
        (32349u32, "Sirius"@, seq!["Sirius"@, "Alpha Canis Majoris"@, "α Canis Majoris"@, "Alpha CMa"@, "α CMa"@, "天狼星"@]),
        (91262u32, "Vega"@, seq!["Vega"@, "Alpha Lyrae"@, "α Lyrae"@, "Alpha Lyr"@, "α Lyr"@, "织女一"@]),
        (97649u32, "Altair"@, seq!["Altair"@, "Alpha Aquilae"@, "α Aquilae"@, "Alpha Aql"@, "α Aql"@, "河鼓二"@]),
        (102098u32, "Deneb"@, seq!["Deneb"@, "Alpha Cygni"@, "α Cygni"@, "Alpha Cyg"@, "α Cyg"@, "天津四"@]),
        (69673u32, "Arcturus"@, seq!["Arcturus"@, "Alpha Bootis"@, "α Bootis"@, "Alpha Boo"@, "α Boo"@, "大角星"@]),
        (11767u32, "Polaris"@, seq!["Polaris"@, "Alpha Ursae Minoris"@, "α Ursae Minoris"@, "Alpha UMi"@, "α UMi"@, "北极星"@, "勾陈一"@]),
        (21421u32, "Aldebaran"@, seq!["Aldebaran"@, "Alpha Tauri"@, "α Tauri"@, "Alpha Tau"@, "α Tau"@, "毕宿五"@]),
        (27989u32, "Betelgeuse"@, seq!["Betelgeuse"@, "Alpha Orionis"@, "α Orionis"@, "Alpha Ori"@, "α Ori"@, "参宿四"@]),
        (24436u32, "Rigel"@, seq!["Rigel"@, "Beta Orionis"@, "β Orionis"@, "Beta Ori"@, "β Ori"@, "参宿七"@]),
        (37279u32, "Procyon"@, seq!["Procyon"@, "Alpha Canis Minoris"@, "α Canis Minoris"@, "Alpha CMi"@, "α CMi"@, "南河三"@]),
        (24608u32, "Capella"@, seq!["Capella"@, "Alpha Aurigae"@, "α Aurigae"@, "Alpha Aur"@, "α Aur"@, "五车二"@]),
        (65474u32, "Spica"@, seq!["Spica"@, "Alpha Virginis"@, "α Virginis"@, "Alpha Vir"@, "α Vir"@, "角宿一"@]),
        (80763u32, "Antares"@, seq!["Antares"@, "Alpha Scorpii"@, "α Scorpii"@, "Alpha Sco"@, "α Sco"@, "心宿二"@]),
        (113368u32, "Fomalhaut"@, seq!["Fomalhaut"@, "Alpha Piscis Austrini"@, "α Piscis Austrini"@, "Alpha PsA"@, "α PsA"@, "北落师门"@]),
        (30438u32, "Canopus"@, seq!["Canopus"@, "Alpha Carinae"@, "α Carinae"@, "Alpha Car"@, "α Car"@, "老人星"@]),
        (7588u32, "Achernar"@, seq!["Achernar"@, "Alpha Eridani"@, "α Eridani"@, "Alpha Eri"@, "α Eri"@, "水委一"@]),
        (85927u32, "Shaula"@, seq!["Shaula"@, "Lambda Scorpii"@, "λ Scorpii"@, "Lambda Sco"@, "λ Sco"@, "尾宿八"@]),
        (26451u32, "Tianguan"@, seq!["Tianguan"@, "Zeta Tauri"@, "ζ Tauri"@, "Zeta Tau"@, "ζ Tau"@, "天关"@]),
        (17702u32, "Alcyone"@, seq!["Alcyone"@, "Eta Tauri"@, "η Tauri"@, "Eta Tau"@, "η Tau"@, "昴宿六"@]),
        (14135u32, "Menkar"@, seq!["Menkar"@, "Alpha Ceti"@, "α Ceti"@, "Alpha Cet"@, "α Cet"@, "天囷一"@]),
        (3419u32, "Diphda"@, seq!["Diphda"@, "Beta Ceti"@, "β Ceti"@, "Beta Cet"@, "β Cet"@, "土司空"@]),
    ]
}

/// The curated alias table (`STAR_ALIASES`).
pub fn star_aliases() -> (t: Vec<StarAlias>)
    ensures
        aliases_view(t@) == alias_table(),
{
    let mut t: Vec<StarAlias> = Vec::new();
    t.push(alias(8102, "Tau Ceti", vec!["Tau Ceti", "τ Ceti", "52 Ceti", "HD 10700", "HR 509", "Gliese 71", "天仓五"]));
    t.push(alias(71683, "Alpha Centauri", vec!["Alpha Centauri", "α Centauri", "Alpha Cen", "α Cen", "Rigil Kentaurus", "南门二"]));
    t.push(alias(32349, "Sirius", vec!["Sirius", "Alpha Canis Majoris", "α Canis Majoris", "Alpha CMa", "α CMa", "天狼星"]));
    t.push(alias(91262, "Vega", vec!["Vega", "Alpha Lyrae", "α Lyrae", "Alpha Lyr", "α Lyr", "织女一"]));
    t.push(alias(97649, "Altair", vec!["Altair", "Alpha Aquilae", "α Aquilae", "Alpha Aql", "α Aql", "河鼓二"]));
    t.push(alias(102098, "Deneb", vec!["Deneb", "Alpha Cygni", "α Cygni", "Alpha Cyg", "α Cyg", "天津四"]));
    t.push(alias(69673, "Arcturus", vec!["Arcturus", "Alpha Bootis", "α Bootis", "Alpha Boo", "α Boo", "大角星"]));
    t.push(alias(11767, "Polaris", vec!["Polaris", "Alpha Ursae Minoris", "α Ursae Minoris", "Alpha UMi", "α UMi", "北极星", "勾陈一"]));
    t.push(alias(21421, "Aldebaran", vec!["Aldebaran", "Alpha Tauri", "α Tauri", "Alpha Tau", "α Tau", "毕宿五"]));
    t.push(alias(27989, "Betelgeuse", vec!["Betelgeuse", "Alpha Orionis", "α Orionis", "Alpha Ori", "α Ori", "参宿四"]));
    t.push(alias(24436, "Rigel", vec!["Rigel", "Beta Orionis", "β Orionis", "Beta Ori", "β Ori", "参宿七"]));
    t.push(alias(37279, "Procyon", vec!["Procyon", "Alpha Canis Minoris", "α Canis Minoris", "Alpha CMi", "α CMi", "南河三"]));
    t.push(alias(24608, "Capella", vec!["Capella", "Alpha Aurigae", "α Aurigae", "Alpha Aur", "α Aur", "五车二"]));
    t.push(alias(65474, "Spica", vec!["Spica", "Alpha Virginis", "α Virginis", "Alpha Vir", "α Vir", "角宿一"]));
    t.push(alias(80763, "Antares", vec!["Antares", "Alpha Scorpii", "α Scorpii", "Alpha Sco", "α Sco", "心宿二"]));
    t.push(alias(113368, "Fomalhaut", vec!["Fomalhaut", "Alpha Piscis Austrini", "α Piscis Austrini", "Alpha PsA", "α PsA", "北落师门"]));
    t.push(alias(30438, "Canopus", vec!["Canopus", "Alpha Carinae", "α Carinae", "Alpha Car", "α Car", "老人星"]));
    t.push(alias(7588, "Achernar", vec!["Achernar", "Alpha Eridani", "α Eridani", "Alpha Eri", "α Eri", "水委一"]));
    t.push(alias(85927, "Shaula", vec!["Shaula", "Lambda Scorpii", "λ Scorpii", "Lambda Sco", "λ Sco", "尾宿八"]));
    t.push(alias(26451, "Tianguan", vec!["Tianguan", "Zeta Tauri", "ζ Tauri", "Zeta Tau", "ζ Tau", "天关"]));
    t.push(alias(17702, "Alcyone", vec!["Alcyone", "Eta Tauri", "η Tauri", "Eta Tau", "η Tau", "昴宿六"]));
    t.push(alias(14135, "Menkar", vec!["Menkar", "Alpha Ceti", "α Ceti", "Alpha Cet", "α Cet", "天囷一"]));
    t.push(alias(3419, "Diphda", vec!["Diphda", "Beta Ceti", "β Ceti", "Beta Cet", "β Cet", "土司空"]));
    assert(aliases_view(t@) =~~= alias_table());
    t
}

/// The first entry of `t` for star `hip`.
pub open spec fn alias_lookup(t: Seq<(u32, Seq<char>, Seq<Seq<char>>)>, hip: u32) -> Option<
    (u32, Seq<char>, Seq<Seq<char>>),
>
    decreases t.len(),
{
    if t.len() == 0 {
        None
    } else if t[0].0 == hip {
        Some(t[0])
    } else {
        alias_lookup(t.drop_first(), hip)
    }
}

/// The curated entry of star `hip`, if it has one.
pub fn for_hip(hip: u32) -> (r: Option<StarAlias>)
    ensures
        r matches Some(a) ==> alias_lookup(alias_table(), hip) == Some(a@),
        r is None ==> alias_lookup(alias_table(), hip) is None,
{
    let mut t = star_aliases();
    let ghost tv = alias_table();
    let mut i: usize = 0;
    assert(tv.skip(0) =~= tv);
    while i < t.len()
        invariant
            i <= t.len(),
            tv == aliases_view(t@),
            tv == alias_table(),
            alias_lookup(tv, hip) == alias_lookup(tv.skip(i as int), hip),
        decreases t.len() - i,
    {
        assert(tv.skip(i as int)[0] == t[i as int]@);
        assert(tv.skip(i as int).drop_first() =~= tv.skip(i + 1));
        if t[i].hip == hip {
            return Some(t.remove(i));
        }
        i = i + 1;
    }
    None
}

/// The first alias of `als` that holds a CJK ideograph.
pub open spec fn first_cjk(als: Seq<Seq<char>>) -> Option<Seq<char>>
    decreases als.len(),
{
    if als.len() == 0 {
        None
    } else if has_cjk(als[0]) {
        Some(als[0])
    } else {
        first_cjk(als.drop_first())
    }
}

/// The curated Chinese name of star `hip`: its first alias in CJK script.
pub open spec fn chinese_name_of(hip: u32) -> Option<Seq<char>> {
    match alias_lookup(alias_table(), hip) {
        Some(e) => first_cjk(e.2),
        None => None,
    }
}

/// The curated Chinese name of `star`.
pub fn chinese_name(star: &StarName) -> (r: Option<&'static str>)
    ensures
        r matches Some(c) ==> chinese_name_of(star.hip) == Some(c@),
        r is None ==> chinese_name_of(star.hip) is None,
{
    match for_hip(star.hip) {
        None => None,
        Some(entry) => {
            let ghost als = entry@.2;
            let mut i: usize = 0;
            assert(als.skip(0) =~= als);
            while i < entry.aliases.len()
                invariant
                    i <= entry.aliases.len(),
                    als == entry.aliases@.map_values(|a: &str| a@),
                    als == entry@.2,
                    alias_lookup(alias_table(), star.hip) == Some(entry@),
                    first_cjk(als) == first_cjk(als.skip(i as int)),
                decreases entry.aliases.len() - i,
            {
                assert(als.skip(i as int)[0] == entry.aliases[i as int]@);
                assert(als.skip(i as int).drop_first() =~= als.skip(i + 1));
                if contains_cjk(entry.aliases[i]) {
                    return Some(entry.aliases[i]);
                }
                i = i + 1;
            }
            None
        },
    }
}

/// `HIP <number>`.
pub open spec fn hip_label(hip: u32) -> Seq<char> {
    seq!['H', 'I', 'P', ' '] + decimal(hip as nat)
}

/// `HIP<number>`.
pub open spec fn hip_label_compact(hip: u32) -> Seq<char> {
    seq!['H', 'I', 'P'] + decimal(hip as nat)
}

fn hip_label_chars(hip: u32, spaced: bool) -> (r: Vec<char>)
    ensures
        r@ == (if spaced {
            hip_label(hip)
        } else {
            hip_label_compact(hip)
        }),
{
    let mut r: Vec<char> = Vec::new();
    r.push('H');
    r.push('I');
    r.push('P');
    if spaced {
        r.push(' ');
    }
    let ghost prefix = r@;
    push_decimal(hip, &mut r);
    proof {
        if spaced {
            assert(prefix =~= seq!['H', 'I', 'P', ' ']);
        } else {
            assert(prefix =~= seq!['H', 'I', 'P']);
        }
    }
    r
}

/// The English name shown for a star: its curated display name, else its
/// proper name, else `HIP <number>`.
pub open spec fn display_name_of(hip: u32, proper: Seq<char>) -> Seq<char> {
    match alias_lookup(alias_table(), hip) {
        Some(e) => e.1,
        None => if proper.len() > 0 {
            proper
        } else {
            hip_label(hip)
        },
    }
}

/// The English name shown for `star`.
pub fn display_name(star: &StarName) -> (r: String)
    ensures
        r@ == display_name_of(star.hip, star.proper@),
{
    match for_hip(star.hip) {
        Some(entry) => String::from_str(entry.display),
        None => {
            if chars_of(star.proper.as_str()).len() > 0 {
                star.proper.clone()
            } else {
                let v = hip_label_chars(star.hip, true);
                string_from(v.as_slice())
            }
        },
    }
}

/// A star with a curated entry is shown by that entry's display name,
/// whatever proper name the catalogue gives it: two catalogue names for the
/// same curated star show the same name.
pub proof fn lemma_curated_display_name_wins(hip: u32, proper: Seq<char>, other: Seq<char>)
    requires
        alias_lookup(alias_table(), hip) is Some,
    ensures
        display_name_of(hip, proper) == alias_lookup(alias_table(), hip).unwrap().1,
        display_name_of(hip, proper) == display_name_of(hip, other),
{
}

/// A star without a curated entry is shown by its catalogue proper name, or
/// as `HIP <number>` when it has none.
pub proof fn lemma_uncurated_display_name(hip: u32, proper: Seq<char>)
    requires
        alias_lookup(alias_table(), hip) is None,
    ensures
        proper.len() > 0 ==> display_name_of(hip, proper) == proper,
        proper.len() == 0 ==> display_name_of(hip, proper) == seq!['H', 'I', 'P', ' '] + decimal(hip as nat),
{
}

/// The name shown for a star in `language`: in Chinese, the curated Chinese
/// name, ` / ` and the English name, when the two differ.
pub open spec fn display_name_for_spec(hip: u32, proper: Seq<char>, language: Language) -> Seq<
    char,
> {
    let english = display_name_of(hip, proper);
    match chinese_name_of(hip) {
        Some(c) => if language == Language::Zh && c != english {
            c + seq![' ', '/', ' '] + english
        } else {
            english
        },
        None => english,
    }
}

/// The name shown for `star` in `language`.
pub fn display_name_for(star: &StarName, language: Language) -> (r: String)
    ensures
        r@ == display_name_for_spec(star.hip, star.proper@, language),
{
    let english = display_name(star);
    if language == Language::Zh {
        match chinese_name(star) {
            Some(chinese) => {
                let mut c = chars_of(chinese);
                let e = chars_of(english.as_str());
                if !crate::constellations::chars_equal(&c, &e) {
                    let ghost cv = c@;
                    c.push(' ');
                    c.push('/');
                    c.push(' ');
                    let mut k: usize = 0;
                    while k < e.len()
                        invariant
                            k <= e.len(),
                            c@ =~= cv + seq![' ', '/', ' '] + e@.take(k as int),
                        decreases e.len() - k,
                    {
                        c.push(e[k]);
                        k = k + 1;
                    }
                    assert(e@.take(e.len() as int) =~= e@);
                    return string_from(c.as_slice());
                }
            },
            None => {},
        }
    }
    english
}

/// Whether an alias appears in the alias summary: it is not the display name
/// (ASCII case ignored), not the Chinese name, and, outside the Chinese
/// interface, holds no CJK ideograph.
pub open spec fn summary_keeps(
    a: Seq<char>,
    display: Seq<char>,
    chinese: Option<Seq<char>>,
    language: Language,
) -> bool {
    !eq_ignore_case(a, display) && chinese != Some(a) && (language == Language::Zh || !has_cjk(a))
}

/// The aliases of `als` that the summary keeps, in order.
pub open spec fn kept_aliases(
    als: Seq<Seq<char>>,
    display: Seq<char>,
    chinese: Option<Seq<char>>,
    language: Language,
) -> Seq<Seq<char>>
    decreases als.len(),
{
    if als.len() == 0 {
        Seq::empty()
    } else if summary_keeps(als.last(), display, chinese, language) {
        kept_aliases(als.drop_last(), display, chinese, language).push(als.last())
    } else {
        kept_aliases(als.drop_last(), display, chinese, language)
    }
}

/// The pieces of `list` joined by `sep`.
pub open spec fn join(list: Seq<Seq<char>>, sep: Seq<char>) -> Seq<char>
    decreases list.len(),
{
    if list.len() == 0 {
        Seq::empty()
    } else if list.len() == 1 {
        list[0]
    } else {
        join(list.drop_last(), sep) + sep + list.last()
    }
}

/// At most the first four pieces of `s`.
pub open spec fn first_four(s: Seq<Seq<char>>) -> Seq<Seq<char>> {
    if s.len() > 4 {
        s.take(4)
    } else {
        s
    }
}

/// The alias summary of star `hip`: up to four kept aliases joined by `, `;
/// none when the star has no curated entry or nothing is kept.
pub open spec fn summary_of(hip: u32, language: Language) -> Option<Seq<char>> {
    match alias_lookup(alias_table(), hip) {
        None => None,
        Some(e) => {
            let kept = first_four(kept_aliases(e.2, e.1, chinese_name_of(hip), language));
            if kept.len() == 0 {
                None
            } else {
                Some(join(kept, seq![',', ' ']))
            }
        },
    }
}

fn opt_str_equal(a: Option<&'static str>, b: &str) -> (r: bool)
    ensures
        r == (match a {
            Some(x) => x@ == b@,
            None => false,
        }),
{
    match a {
        Some(x) => {
            let xv = chars_of(x);
            let bv = chars_of(b);
            crate::constellations::chars_equal(&xv, &bv)
        },
        None => false,
    }
}

fn append_chars(out: &mut Vec<char>, s: &Vec<char>)
    ensures
        final(out)@ == old(out)@ + s@,
{
    let ghost start = out@;
    let mut k: usize = 0;
    while k < s.len()
        invariant
            k <= s.len(),
            out@ =~= start + s@.take(k as int),
        decreases s.len() - k,
    {
        out.push(s[k]);
        k = k + 1;
    }
    assert(s@.take(s.len() as int) =~= s@);
}

/// A short list of other names of `star` for the detail panel.
pub fn summary_aliases_for(star: &StarName, language: Language) -> (r: Option<String>)
    ensures
        r matches Some(s) ==> summary_of(star.hip, language) == Some(s@),
        r is None ==> summary_of(star.hip, language) is None,
{
    let entry = match for_hip(star.hip) {
        None => {
            return None;
        },
        Some(e) => e,
    };
    let chinese = chinese_name(star);
    let ghost cs: Option<Seq<char>> = match chinese {
        Some(c) => Some(c@),
        None => None,
    };
    let ghost als = entry@.2;
    let mut kept: Vec<Vec<char>> = Vec::new();
    let mut i: usize = 0;
    while i < entry.aliases.len()
        invariant
            i <= entry.aliases.len(),
            als == entry.aliases@.map_values(|a: &str| a@),
            cs == chinese_name_of(star.hip),
            cs == (match chinese {
                Some(c) => Some(c@),
                None => None::<Seq<char>>,
            }),
            crate::text::rows_view(kept@) =~= kept_aliases(
                als.take(i as int),
                entry@.1,
                cs,
                language,
            ),
        decreases entry.aliases.len() - i,
    {
        let a = entry.aliases[i];
        assert(als.take(i + 1).drop_last() =~= als.take(i as int));
        assert(als.take(i + 1).last() == a@);
        let keep = !eq_ignore_ascii_case(a, entry.display) && !opt_str_equal(chinese, a) && (
        language == Language::Zh || !contains_cjk(a));
        if keep {
            kept.push(chars_of(a));
        }
        i = i + 1;
    }
    assert(als.take(entry.aliases.len() as int) =~= als);
    let ghost all_kept = crate::text::rows_view(kept@);
    let count: usize = if kept.len() > 4 {
        4
    } else {
        kept.len()
    };
    if count == 0 {
        return None;
    }
    let ghost shown = first_four(all_kept);
    assert(shown =~= all_kept.take(count as int));
    let mut out: Vec<char> = copy_range(&kept[0], 0, kept[0].len());
    assert(shown.take(1) =~= seq![shown[0]]);
    assert(join(shown.take(1), seq![',', ' ']) == shown[0]);
    let mut j: usize = 1;
    while j < count
        invariant
            1 <= j <= count <= kept.len(),
            count <= 4,
            all_kept == crate::text::rows_view(kept@),
            shown =~= all_kept.take(count as int),
            out@ == join(shown.take(j as int), seq![',', ' ']),
        decreases count - j,
    {
        assert(shown.take(j + 1).drop_last() =~= shown.take(j as int));
        assert(shown.take(j + 1).last() == kept[j as int]@);
        out.push(',');
        out.push(' ');
        append_chars(&mut out, &kept[j]);
        j = j + 1;
    }
    assert(shown.take(count as int) =~= shown);
    Some(string_from(out.as_slice()))
}

// ---------------------------------------------------------------------------
// Search
// ---------------------------------------------------------------------------

/// The star number a query names: trimmed and lowercased, an optional
/// leading `hip` removed, trimmed again, and parsed as `u32`.
pub open spec fn hip_query_spec(query: Seq<char>) -> Option<u32> {
    let lowered = lowercase(trim(query));
    let stripped = if lowered.len() >= 3 && lowered.take(3) == seq!['h', 'i', 'p'] {
        lowered.skip(3)
    } else {
        lowered
    };
    parse_u32(trim(stripped))
}

/// The Hipparcos number that `query` names, as in `HIP 8102` or `8102`.
pub fn hip_query(query: &str) -> (r: Option<u32>)
    ensures
        r == hip_query_spec(query@),
{
    let q = chars_of(query);
    let t = trim_chars(&q);
    let ts = string_from(t.as_slice());
    let lower = to_lowercase(ts.as_str());
    let l = chars_of(lower.as_str());
    let stripped = if l.len() >= 3 && l[0] == 'h' && l[1] == 'i' && l[2] == 'p' {
        assert(l@.take(3) =~= seq!['h', 'i', 'p']);
        copy_range(&l, 3, l.len())
    } else {
        proof {
            if l@.len() >= 3 {
                if l@.take(3) == seq!['h', 'i', 'p'] {
                    assert(l@.take(3)[0] == 'h');
                    assert(l@.take(3)[1] == 'i');
                    assert(l@.take(3)[2] == 'p');
                }
            }
        }
        copy_range(&l, 0, l.len())
    };
    assert(l@.subrange(0, l@.len() as int) =~= l@);
    let s = trim_chars(&stripped);
    parse_u32_chars(&s)
}

/// One searchable text matches when its normalised form holds the normalised
/// query or its compact form holds the compact query.
pub open spec fn text_matches(v: Seq<char>, nq: Seq<char>, cq: Seq<char>) -> bool {
    has_sub(normalized(v), nq) || has_sub(compacted(v), cq)
}

pub open spec fn any_alias_matches(als: Seq<Seq<char>>, nq: Seq<char>, cq: Seq<char>) -> bool {
    exists|i: int| 0 <= i < als.len() && #[trigger] text_matches(als[i], nq, cq)
}

/// Whether a search for `query` finds star `hip` with proper name `proper`:
/// the trimmed query must not be empty; it may name the star's number, or
/// match its proper name, `HIP <n>`, `HIP<n>` or one of its curated aliases.
pub open spec fn star_matches(hip: u32, proper: Seq<char>, query: Seq<char>) -> bool {
    let q = trim(query);
    let nq = normalized(q);
    let cq = compacted(q);
    q.len() > 0 && (hip_query_spec(q) == Some(hip) || (proper.len() > 0 && text_matches(
        proper,
        nq,
        cq,
    )) || text_matches(hip_label(hip), nq, cq) || text_matches(hip_label_compact(hip), nq, cq)
        || match alias_lookup(alias_table(), hip) {
        Some(e) => any_alias_matches(e.2, nq, cq),
        None => false,
    })
}

fn text_matches_exec(v: &str, nq: &Vec<char>, cq: &Vec<char>) -> (r: bool)
    ensures
        r == text_matches(v@, nq@, cq@),
{
    let n = normalize(v);
    if contains_sub(&n, nq) {
        return true;
    }
    let c = compact(v);
    contains_sub(&c, cq)
}

/// Whether a search for `query` finds `star`.
pub fn matches_query(star: &StarName, query: &str) -> (r: bool)
    ensures
        r == star_matches(star.hip, star.proper@, query@),
{
    let qv = chars_of(query);
    let qt = trim_chars(&qv);
    if qt.len() == 0 {
        return false;
    }
    let q = string_from(qt.as_slice());
    if hip_query(q.as_str()) == Some(star.hip) {
        return true;
    }
    let nq = normalize(q.as_str());
    let cq = compact(q.as_str());
    if chars_of(star.proper.as_str()).len() > 0 && text_matches_exec(star.proper.as_str(), &nq, &cq) {
        return true;
    }
    let spaced = string_from(hip_label_chars(star.hip, true).as_slice());
    if text_matches_exec(spaced.as_str(), &nq, &cq) {
        return true;
    }
    let tight = string_from(hip_label_chars(star.hip, false).as_slice());
    if text_matches_exec(tight.as_str(), &nq, &cq) {
        return true;
    }
    match for_hip(star.hip) {
        None => false,
        Some(entry) => {
            let ghost als = entry@.2;
            let mut i: usize = 0;
            while i < entry.aliases.len()
                invariant
                    i <= entry.aliases.len(),
                    als == entry.aliases@.map_values(|a: &str| a@),
                    als == entry@.2,
                    alias_lookup(alias_table(), star.hip) == Some(entry@),
                    qt@ == trim(query@),
                    qt@.len() > 0,
                    nq@ == normalized(qt@),
                    cq@ == compacted(qt@),
                    forall|k: int| 0 <= k < i ==> !#[trigger] text_matches(als[k], nq@, cq@),
                decreases entry.aliases.len() - i,
            {
                assert(als[i as int] == entry.aliases[i as int]@);
                if text_matches_exec(entry.aliases[i], &nq, &cq) {
                    return true;
                }
                i = i + 1;
            }
            false
        },
    }
}

} // verus!
