use vstd::prelude::*;

use crate::config::{Language, SkyCulture};
use crate::text::{
    has_sub, normalized, compacted, lowercase, to_lowercase, normalize, compact, contains_sub, parse_u32, parse_u32_chars, chars_of, copy_range, find_char, first_pos, trim, trim_chars, parsed_u32s, split_at_ws, parse_u32_words, string_from, lines, lines_of, rows_view, eq_ignore_case, eq_ignore_ascii_case, split_at_char, split_chars,
};

verus! {

// ---------------------------------------------------------------------------
// Figure paths
// ---------------------------------------------------------------------------

/// One drawn path of a constellation figure: the figure's code and the
/// Hipparcos numbers of the stars it joins, in order.
#[derive(Debug, Clone, PartialEq, Eq)]
pub struct ConstellationLine {
    pub code: String,
    pub hips: Vec<u32>,
}

impl View for ConstellationLine {
    type V = (Seq<char>, Seq<u32>);

    open spec fn view(&self) -> (Seq<char>, Seq<u32>) {
        (self.code@, self.hips@)
    }
}

impl ConstellationLine {
    /// Number of segments the path draws: one fewer than its stars.
    pub fn segment_count(&self) -> (r: usize)
        ensures
            r == (if self.hips.len() > 0 {
                self.hips.len() - 1
            } else {
                0
            }),
    {
        if self.hips.len() > 0 {
            self.hips.len() - 1
        } else {
            0
        }
    }
}

/// A line of a figure file: `code,hip hip hip ...`. The code is trimmed and
/// must not be empty; the numbers are the white-space separated words that
/// parse as `u32`, and there must be at least two of them.
pub open spec fn line_spec(line: Seq<char>) -> Option<(Seq<char>, Seq<u32>)> {
    match first_pos(line, ',') {
        None => None,
        Some(p) => {
            let code = trim(line.take(p));
            let hips = parsed_u32s(split_at_ws(line.skip(p + 1)));
            if code.len() == 0 || hips.len() < 2 {
                None
            } else {
                Some((code, hips))
            }
        },
    }
}

/// The figure paths of `ls`, in order: each line that `line_spec` accepts.
pub open spec fn parse_lines(ls: Seq<Seq<char>>) -> Seq<(Seq<char>, Seq<u32>)>
    decreases ls.len(),
{
    if ls.len() == 0 {
        Seq::empty()
    } else {
        match line_spec(ls.last()) {
            Some(x) => parse_lines(ls.drop_last()).push(x),
            None => parse_lines(ls.drop_last()),
        }
    }
}

/// The lines of a data file after its header line.
pub open spec fn data_rows(text: Seq<char>) -> Seq<Seq<char>> {
    let ls = lines_of(text);
    if ls.len() == 0 {
        ls
    } else {
        ls.skip(1)
    }
}

/// The figure paths that a figure file holds.
pub open spec fn dataset_lines(text: Seq<char>) -> Seq<(Seq<char>, Seq<u32>)> {
    parse_lines(data_rows(text))
}

pub open spec fn lines_view(v: Seq<ConstellationLine>) -> Seq<(Seq<char>, Seq<u32>)> {
    v.map_values(|l: ConstellationLine| l@)
}

/// Whether a path of the figure `code` (up to ASCII case) joins the star
/// `hip`.
pub open spec fn figure_has_hip(lines: Seq<(Seq<char>, Seq<u32>)>, code: Seq<char>, hip: u32) -> bool {
    exists|i: int| 0 <= i < lines.len() && eq_ignore_case(#[trigger] lines[i].0, code) && lines[i].1.contains(hip)
}

/// Whether the figure `code` of `lines` draws a path through the star
/// `hip`.
pub fn figure_contains_hip(lines: &Vec<ConstellationLine>, code: &str, hip: u32) -> (r: bool)
    ensures
        r == figure_has_hip(lines_view(lines@), code@, hip),
{
    let ghost view = lines_view(lines@);
    let mut i: usize = 0;
    while i < lines.len()
        invariant
            i <= lines.len(),
            view == lines_view(lines@),
            forall|k: int| 0 <= k < i ==> !(eq_ignore_case(#[trigger] view[k].0, code@) && view[k].1.contains(hip)),
        decreases lines.len() - i,
    {
        assert(view[i as int] == lines@[i as int]@);
        if eq_ignore_ascii_case(lines[i].code.as_str(), code) {
            let hips = &lines[i].hips;
            let mut j: usize = 0;
            while j < hips.len()
                invariant
                    j <= hips.len(),
                    i < view.len(),
                    view[i as int].1 == hips@,
                    eq_ignore_case(view[i as int].0, code@),
                    view == lines_view(lines@),
                    forall|m: int| 0 <= m < j ==> hips@[m] != hip,
                decreases hips.len() - j,
            {
                if hips[j] == hip {
                    assert(view[i as int].1[j as int] == hip);
                    assert(view[i as int].1.contains(hip));
                    return true;
                }
                j = j + 1;
            }
            assert(!view[i as int].1.contains(hip));
        }
        i = i + 1;
    }
    false
}

/// Parses one line of a figure file.
pub fn parse_line(line: &str) -> (r: Option<ConstellationLine>)
    ensures
        r matches Some(l) ==> line_spec(line@) == Some(l@),
        r is None ==> line_spec(line@) is None,
{
    let v = chars_of(line);
    match find_char(&v, ',') {
        None => None,
        Some(p) => {
            let head = copy_range(&v, 0, p);
            let code = trim_chars(&head);
            let rest = copy_range(&v, p + 1, v.len());
            assert(head@ == v@.take(p as int));
            assert(rest@ == v@.skip(p + 1));
            let hips = parse_u32_words(&rest);
            if code.len() == 0 || hips.len() < 2 {
                None
            } else {
                Some(ConstellationLine { code: string_from(code.as_slice()), hips })
            }
        },
    }
}

/// The rows of a data file after the header.
pub fn data_rows_of(text: &str) -> (r: Vec<Vec<char>>)
    ensures
        rows_view(r@) == data_rows(text@),
{
    let ls = lines(text);
    if ls.len() == 0 {
        return ls;
    }
    let mut r: Vec<Vec<char>> = Vec::new();
    let mut i: usize = 1;
    while i < ls.len()
        invariant
            1 <= i <= ls.len(),
            r.len() + 1 == i,
            forall|k: int| 0 <= k < r.len() ==> #[trigger] r@[k]@ == ls@[k + 1]@,
        decreases ls.len() - i,
    {
        let row = copy_range(&ls[i], 0, ls[i].len());
        assert(row@ =~= ls[i as int]@);
        assert(rows_view(ls@)[i as int] == ls[i as int]@);
        r.push(row);
        i = i + 1;
    }
    assert(rows_view(r@) =~= rows_view(ls@).skip(1));
    r
}

/// Parses every line of a figure file after its header.
fn parse_figure_file(text: &str) -> (r: Vec<ConstellationLine>)
    ensures
        lines_view(r@) == dataset_lines(text@),
{
    let rows = data_rows_of(text);
    let ghost rv = rows_view(rows@);
    let mut r: Vec<ConstellationLine> = Vec::new();
    let mut i: usize = 0;
    while i < rows.len()
        invariant
            i <= rows.len(),
            rv == rows_view(rows@),
            lines_view(r@) =~= parse_lines(rv.take(i as int)),
        decreases rows.len() - i,
    {
        assert(rv.take(i + 1).drop_last() =~= rv.take(i as int));
        assert(rv.take(i + 1).last() == rows[i as int]@);
        let s = string_from(rows[i].as_slice());
        match parse_line(s.as_str()) {
            Some(l) => {
                r.push(l);
            },
            None => {},
        }
        i = i + 1;
    }
    assert(rv.take(rows.len() as int) =~= rv);
    r
}

/// The western figure paths held by the constellation-lines file `dataset`.
pub fn load(dataset: &str) -> (r: Vec<ConstellationLine>)
    ensures
        lines_view(r@) == dataset_lines(dataset@),
{
    parse_figure_file(dataset)
}

/// The Chinese asterism paths held by the Chinese sky-lines file `dataset`.
pub fn load_chinese(dataset: &str) -> (r: Vec<ConstellationLine>)
    ensures
        lines_view(r@) == dataset_lines(dataset@),
{
    parse_figure_file(dataset)
}

// ---------------------------------------------------------------------------
// Figure names
// ---------------------------------------------------------------------------

/// Names of a figure: its code, English name and Chinese name.
#[derive(Debug, Clone, PartialEq, Eq)]
pub struct ConstellationMeta {
    pub code: String,
    pub en: String,
    pub zh: String,
}

impl View for ConstellationMeta {
    type V = (Seq<char>, Seq<char>, Seq<char>);

    open spec fn view(&self) -> (Seq<char>, Seq<char>, Seq<char>) {
        (self.code@, self.en@, self.zh@)
    }
}

pub open spec fn metas_view(v: Seq<ConstellationMeta>) -> Seq<(Seq<char>, Seq<char>, Seq<char>)> {
    v.map_values(|m: ConstellationMeta| m@)
}

fn meta(code: &str, en: &str, zh: &str) -> (m: ConstellationMeta)
    ensures
        m@ == (code@, en@, zh@),
{
    ConstellationMeta { code: String::from_str(code), en: String::from_str(en), zh: String::from_str(zh) }
}

impl ConstellationMeta {
    fn duplicate(&self) -> (r: ConstellationMeta)
        ensures
            r@ == self@,
    {
        ConstellationMeta { code: self.code.clone(), en: self.en.clone(), zh: self.zh.clone() }
    }
}

/// Names given to a code that no table holds.
pub open spec fn unknown_meta() -> (Seq<char>, Seq<char>, Seq<char>) {
    (""@, "Unknown"@, "未知"@)
}

fn unknown() -> (m: ConstellationMeta)
    ensures
        m@ == unknown_meta(),
{
    meta("", "Unknown", "未知")
}

/// The first entry of `t` whose code equals `code` up to ASCII case, or the
/// unknown entry.
pub open spec fn meta_lookup(t: Seq<(Seq<char>, Seq<char>, Seq<char>)>, code: Seq<char>) -> (
    Seq<char>,
    Seq<char>,
    Seq<char>,
)
    decreases t.len(),
{
    if t.len() == 0 {
        unknown_meta()
    } else if eq_ignore_case(t[0].0, code) {
        t[0]
    } else {
        meta_lookup(t.drop_first(), code)
    }
}

fn lookup(t: &Vec<ConstellationMeta>, code: &str) -> (m: ConstellationMeta)
    ensures
        m@ == meta_lookup(metas_view(t@), code@),
{
    let ghost tv = metas_view(t@);
    let mut i: usize = 0;
    assert(tv.skip(0) =~= tv);
    while i < t.len()
        invariant
            i <= t.len(),
            tv == metas_view(t@),
            meta_lookup(tv, code@) == meta_lookup(tv.skip(i as int), code@),
        decreases t.len() - i,
    {
        assert(tv.skip(i as int)[0] == t[i as int]@);
        assert(tv.skip(i as int).drop_first() =~= tv.skip(i + 1));
        if eq_ignore_ascii_case(t[i].code.as_str(), code) {
            return t[i].duplicate();
        }
        i = i + 1;
    }
    assert(tv.skip(i as int).len() == 0);
    unknown()
}

/// The 88 western constellations: IAU code, English name, Chinese name.
pub open spec fn western_table() -> Seq<(Seq<char>, Seq<char>, Seq<char>)> {
    seq![
        ("And"@, "Andromeda"@, "仙女座"@),
        ("Ant"@, "Antlia"@, "唧筒座"@),
        ("Aps"@, "Apus"@, "天燕座"@),
        ("Aql"@, "Aquila"@, "天鹰座"@),
        ("Aqr"@, "Aquarius"@, "宝瓶座"@),
        ("Ara"@, "Ara"@, "天坛座"@),
        ("Ari"@, "Aries"@, "白羊座"@),
        ("Aur"@, "Auriga"@, "御夫座"@),
        ("Boo"@, "Bootes"@, "牧夫座"@),
        ("CMa"@, "Canis Major"@, "大犬座"@),
        ("CMi"@, "Canis Minor"@, "小犬座"@),
        ("CVn"@, "Canes Venatici"@, "猎犬座"@),
        ("Cae"@, "Caelum"@, "雕具座"@),
        ("Cam"@, "Camelopardalis"@, "鹿豹座"@),
        ("Cap"@, "Capricornus"@, "摩羯座"@),
        ("Car"@, "Carina"@, "船底座"@),
        ("Cas"@, "Cassiopeia"@, "仙后座"@),
        ("Cen"@, "Centaurus"@, "半人马座"@),
        ("Cep"@, "Cepheus"@, "仙王座"@),
        ("Cet"@, "Cetus"@, "鲸鱼座"@),
        ("Cha"@, "Chamaeleon"@, "蝘蜓座"@),
        ("Cir"@, "Circinus"@, "圆规座"@),
        ("Cnc"@, "Cancer"@, "巨蟹座"@),
        ("Col"@, "Columba"@, "天鸽座"@),
        ("Com"@, "Coma Berenices"@, "后发座"@),
        ("CrA"@, "Corona Australis"@, "南冕座"@),
        ("CrB"@, "Corona Borealis"@, "北冕座"@),
        ("Crt"@, "Crater"@, "巨爵座"@),
        ("Cru"@, "Crux"@, "南十字座"@),
        ("Crv"@, "Corvus"@, "乌鸦座"@),
        ("Cyg"@, "Cygnus"@, "天鹅座"@),
        ("Del"@, "Delphinus"@, "海豚座"@),
        ("Dor"@, "Dorado"@, "剑鱼座"@),
        ("Dra"@, "Draco"@, "天龙座"@),
        ("Equ"@, "Equuleus"@, "小马座"@),
        ("Eri"@, "Eridanus"@, "波江座"@),
        ("For"@, "Fornax"@, "天炉座"@),
        ("Gem"@, "Gemini"@, "双子座"@),
        ("Gru"@, "Grus"@, "天鹤座"@),
        ("Her"@, "Hercules"@, "武仙座"@),
        ("Hor"@, "Horologium"@, "时钟座"@),
        ("Hya"@, "Hydra"@, "长蛇座"@),
        ("Hyi"@, "Hydrus"@, "水蛇座"@),
        ("Ind"@, "Indus"@, "印第安座"@),
        ("LMi"@, "Leo Minor"@, "小狮座"@),
        ("Lac"@, "Lacerta"@, "蝎虎座"@),
        ("Leo"@, "Leo"@, "狮子座"@),
        ("Lep"@, "Lepus"@, "天兔座"@),
        ("Lib"@, "Libra"@, "天秤座"@),
        ("Lup"@, "Lupus"@, "豺狼座"@),
        ("Lyn"@, "Lynx"@, "天猫座"@),
        ("Lyr"@, "Lyra"@, "天琴座"@),
        ("Men"@, "Mensa"@, "山案座"@),
        ("Mic"@, "Microscopium"@, "显微镜座"@),
        ("Mon"@, "Monoceros"@, "麒麟座"@),
        ("Mus"@, "Musca"@, "苍蝇座"@),
        ("Nor"@, "Norma"@, "矩尺座"@),
        ("Oct"@, "Octans"@, "南极座"@),
        ("Oph"@, "Ophiuchus"@, "蛇夫座"@),
        ("Ori"@, "Orion"@, "猎户座"@),
        ("Pav"@, "Pavo"@, "孔雀座"@),
        ("Peg"@, "Pegasus"@, "飞马座"@),
        ("Per"@, "Perseus"@, "英仙座"@),
        ("Phe"@, "Phoenix"@, "凤凰座"@),
        ("Pic"@, "Pictor"@, "绘架座"@),
        ("PsA"@, "Piscis Austrinus"@, "南鱼座"@),
        ("Psc"@, "Pisces"@, "双鱼座"@),
        ("Pup"@, "Puppis"@, "船尾座"@),
        ("Pyx"@, "Pyxis"@, "罗盘座"@),
        ("Ret"@, "Reticulum"@, "网罟座"@),
        ("Scl"@, "Sculptor"@, "玉夫座"@),
        ("Sco"@, "Scorpius"@, "天蝎座"@),
        ("Sct"@, "Scutum"@, "盾牌座"@),
        ("Ser"@, "Serpens"@, "巨蛇座"@),
        ("Sex"@, "Sextans"@, "六分仪座"@),
        ("Sge"@, "Sagitta"@, "天箭座"@),
        ("Sgr"@, "Sagittarius"@, "人马座"@),
        ("Tau"@, "Taurus"@, "金牛座"@),
        ("Tel"@, "Telescopium"@, "望远镜座"@),
        ("TrA"@, "Triangulum Australe"@, "南三角座"@),
        ("Tri"@, "Triangulum"@, "三角座"@),
        ("Tuc"@, "Tucana"@, "杜鹃座"@),
        ("UMa"@, "Ursa Major"@, "大熊座"@),
        ("UMi"@, "Ursa Minor"@, "小熊座"@),
        ("Vel"@, "Vela"@, "船帆座"@),
        ("Vir"@, "Virgo"@, "室女座"@),
        ("Vol"@, "Volans"@, "飞鱼座"@),
        ("Vul"@, "Vulpecula"@, "狐狸座"@),
    ]
}

/// The western constellation table (`CONSTELLATION_META`).
pub fn western_meta() -> (t: Vec<ConstellationMeta>)
    ensures
        metas_view(t@) == western_table(),
{
    let mut t: Vec<ConstellationMeta> = Vec::new();
    t.push(meta("And", "Andromeda", "仙女座"));
    t.push(meta("Ant", "Antlia", "唧筒座"));
    t.push(meta("Aps", "Apus", "天燕座"));
    t.push(meta("Aql", "Aquila", "天鹰座"));
    t.push(meta("Aqr", "Aquarius", "宝瓶座"));
    t.push(meta("Ara", "Ara", "天坛座"));
    t.push(meta("Ari", "Aries", "白羊座"));
    t.push(meta("Aur", "Auriga", "御夫座"));
    t.push(meta("Boo", "Bootes", "牧夫座"));
    t.push(meta("CMa", "Canis Major", "大犬座"));
    t.push(meta("CMi", "Canis Minor", "小犬座"));
    t.push(meta("CVn", "Canes Venatici", "猎犬座"));
    t.push(meta("Cae", "Caelum", "雕具座"));
    t.push(meta("Cam", "Camelopardalis", "鹿豹座"));
    t.push(meta("Cap", "Capricornus", "摩羯座"));
    t.push(meta("Car", "Carina", "船底座"));
    t.push(meta("Cas", "Cassiopeia", "仙后座"));
    t.push(meta("Cen", "Centaurus", "半人马座"));
    t.push(meta("Cep", "Cepheus", "仙王座"));
    t.push(meta("Cet", "Cetus", "鲸鱼座"));
    t.push(meta("Cha", "Chamaeleon", "蝘蜓座"));
    t.push(meta("Cir", "Circinus", "圆规座"));
    t.push(meta("Cnc", "Cancer", "巨蟹座"));
    t.push(meta("Col", "Columba", "天鸽座"));
    t.push(meta("Com", "Coma Berenices", "后发座"));
    t.push(meta("CrA", "Corona Australis", "南冕座"));
    t.push(meta("CrB", "Corona Borealis", "北冕座"));
    t.push(meta("Crt", "Crater", "巨爵座"));
    t.push(meta("Cru", "Crux", "南十字座"));
    t.push(meta("Crv", "Corvus", "乌鸦座"));
    t.push(meta("Cyg", "Cygnus", "天鹅座"));
    t.push(meta("Del", "Delphinus", "海豚座"));
    t.push(meta("Dor", "Dorado", "剑鱼座"));
    t.push(meta("Dra", "Draco", "天龙座"));
    t.push(meta("Equ", "Equuleus", "小马座"));
    t.push(meta("Eri", "Eridanus", "波江座"));
    t.push(meta("For", "Fornax", "天炉座"));
    t.push(meta("Gem", "Gemini", "双子座"));
    t.push(meta("Gru", "Grus", "天鹤座"));
    t.push(meta("Her", "Hercules", "武仙座"));
    t.push(meta("Hor", "Horologium", "时钟座"));
    t.push(meta("Hya", "Hydra", "长蛇座"));
    t.push(meta("Hyi", "Hydrus", "水蛇座"));
    t.push(meta("Ind", "Indus", "印第安座"));
    t.push(meta("LMi", "Leo Minor", "小狮座"));
    t.push(meta("Lac", "Lacerta", "蝎虎座"));
    t.push(meta("Leo", "Leo", "狮子座"));
    t.push(meta("Lep", "Lepus", "天兔座"));
    t.push(meta("Lib", "Libra", "天秤座"));
    t.push(meta("Lup", "Lupus", "豺狼座"));
    t.push(meta("Lyn", "Lynx", "天猫座"));
    t.push(meta("Lyr", "Lyra", "天琴座"));
    t.push(meta("Men", "Mensa", "山案座"));
    t.push(meta("Mic", "Microscopium", "显微镜座"));
    t.push(meta("Mon", "Monoceros", "麒麟座"));
    t.push(meta("Mus", "Musca", "苍蝇座"));
    t.push(meta("Nor", "Norma", "矩尺座"));
    t.push(meta("Oct", "Octans", "南极座"));
    t.push(meta("Oph", "Ophiuchus", "蛇夫座"));
    t.push(meta("Ori", "Orion", "猎户座"));
    t.push(meta("Pav", "Pavo", "孔雀座"));
    t.push(meta("Peg", "Pegasus", "飞马座"));
    t.push(meta("Per", "Perseus", "英仙座"));
    t.push(meta("Phe", "Phoenix", "凤凰座"));
    t.push(meta("Pic", "Pictor", "绘架座"));
    t.push(meta("PsA", "Piscis Austrinus", "南鱼座"));
    t.push(meta("Psc", "Pisces", "双鱼座"));
    t.push(meta("Pup", "Puppis", "船尾座"));
    t.push(meta("Pyx", "Pyxis", "罗盘座"));
    t.push(meta("Ret", "Reticulum", "网罟座"));
    t.push(meta("Scl", "Sculptor", "玉夫座"));
    t.push(meta("Sco", "Scorpius", "天蝎座"));
    t.push(meta("Sct", "Scutum", "盾牌座"));
    t.push(meta("Ser", "Serpens", "巨蛇座"));
    t.push(meta("Sex", "Sextans", "六分仪座"));
    t.push(meta("Sge", "Sagitta", "天箭座"));
    t.push(meta("Sgr", "Sagittarius", "人马座"));
    t.push(meta("Tau", "Taurus", "金牛座"));
    t.push(meta("Tel", "Telescopium", "望远镜座"));
    t.push(meta("TrA", "Triangulum Australe", "南三角座"));
    t.push(meta("Tri", "Triangulum", "三角座"));
    t.push(meta("Tuc", "Tucana", "杜鹃座"));
    t.push(meta("UMa", "Ursa Major", "大熊座"));
    t.push(meta("UMi", "Ursa Minor", "小熊座"));
    t.push(meta("Vel", "Vela", "船帆座"));
    t.push(meta("Vir", "Virgo", "室女座"));
    t.push(meta("Vol", "Volans", "飞鱼座"));
    t.push(meta("Vul", "Vulpecula", "狐狸座"));
    assert(metas_view(t@) =~= western_table());
    t
}

/// Names of the western constellation with code `code` (ASCII case ignored).
pub fn meta_for(code: &str) -> (m: ConstellationMeta)
    ensures
        m@ == meta_lookup(western_table(), code@),
{
    let t = western_meta();
    lookup(&t, code)
}

// ---------------------------------------------------------------------------
// Chinese figure names
// ---------------------------------------------------------------------------

/// Field `k` of `fields`, or nothing when there are fewer fields.
pub open spec fn field(fields: Seq<Seq<char>>, k: int) -> Seq<char> {
    if 0 <= k < fields.len() {
        fields[k]
    } else {
        Seq::empty()
    }
}

/// A row of the Chinese figure file, `code,zh,pinyin,en`: code, English name
/// and Chinese name, each trimmed.
pub open spec fn chinese_meta_spec(row: Seq<char>) -> (Seq<char>, Seq<char>, Seq<char>) {
    let f = split_at_char(row, ',');
    (trim(field(f, 0)), trim(field(f, 3)), trim(field(f, 1)))
}

pub open spec fn chinese_metas(rows: Seq<Seq<char>>) -> Seq<(Seq<char>, Seq<char>, Seq<char>)>
    decreases rows.len(),
{
    if rows.len() == 0 {
        Seq::empty()
    } else {
        chinese_metas(rows.drop_last()).push(chinese_meta_spec(rows.last()))
    }
}

/// The Chinese figure table held by the figure file `figures`.
pub open spec fn chinese_table(figures: Seq<char>) -> Seq<(Seq<char>, Seq<char>, Seq<char>)> {
    chinese_metas(data_rows(figures))
}

fn field_chars(fields: &Vec<Vec<char>>, k: usize) -> (r: Vec<char>)
    ensures
        r@ == field(rows_view(fields@), k as int),
{
    if k < fields.len() {
        copy_range(&fields[k], 0, fields[k].len())
    } else {
        Vec::new()
    }
}

/// Splits a CSV row at every comma.
pub fn split_csv_line(line: &str) -> (r: Vec<Vec<char>>)
    ensures
        rows_view(r@) == split_at_char(line@, ','),
{
    let v = chars_of(line);
    split_chars(&v, ',')
}

/// Parses one row of the Chinese figure file.
pub fn parse_chinese_meta(line: &str) -> (m: ConstellationMeta)
    ensures
        m@ == chinese_meta_spec(line@),
{
    let f = split_csv_line(line);
    let code = trim_chars(&field_chars(&f, 0));
    let zh = trim_chars(&field_chars(&f, 1));
    let en = trim_chars(&field_chars(&f, 3));
    ConstellationMeta {
        code: string_from(code.as_slice()),
        en: string_from(en.as_slice()),
        zh: string_from(zh.as_slice()),
    }
}

/// The Chinese figure names held by the figure file `figures`.
pub fn chinese_meta(figures: &str) -> (r: Vec<ConstellationMeta>)
    ensures
        metas_view(r@) == chinese_table(figures@),
{
    let rows = data_rows_of(figures);
    let ghost rv = rows_view(rows@);
    let mut r: Vec<ConstellationMeta> = Vec::new();
    let mut i: usize = 0;
    while i < rows.len()
        invariant
            i <= rows.len(),
            rv == rows_view(rows@),
            metas_view(r@) =~= chinese_metas(rv.take(i as int)),
        decreases rows.len() - i,
    {
        assert(rv.take(i + 1).drop_last() =~= rv.take(i as int));
        assert(rv.take(i + 1).last() == rows[i as int]@);
        let s = string_from(rows[i].as_slice());
        r.push(parse_chinese_meta(s.as_str()));
        i = i + 1;
    }
    assert(rv.take(rows.len() as int) =~= rv);
    r
}

/// The figure table of a sky culture.
pub open spec fn culture_table(culture: SkyCulture, figures: Seq<char>) -> Seq<
    (Seq<char>, Seq<char>, Seq<char>),
> {
    match culture {
        SkyCulture::Western => western_table(),
        SkyCulture::Chinese => chinese_table(figures),
    }
}

/// Names of figure `code` in `culture`; `figures` is the Chinese figure file.
pub fn meta_for_culture(culture: SkyCulture, code: &str, figures: &str) -> (m: ConstellationMeta)
    ensures
        m@ == meta_lookup(culture_table(culture, figures@), code@),
{
    match culture {
        SkyCulture::Western => meta_for(code),
        SkyCulture::Chinese => {
            let t = chinese_meta(figures);
            lookup(&t, code)
        },
    }
}

/// Every figure of `culture`.
pub fn metadata_for_culture(culture: SkyCulture, figures: &str) -> (r: Vec<ConstellationMeta>)
    ensures
        metas_view(r@) == culture_table(culture, figures@),
{
    match culture {
        SkyCulture::Western => western_meta(),
        SkyCulture::Chinese => chinese_meta(figures),
    }
}

/// The short label drawn next to a figure: the code of a western
/// constellation, the Chinese name of an asterism.
pub fn figure_label(culture: SkyCulture, code: &str, _language: Language, figures: &str) -> (r:
    String)
    ensures
        r@ == (match culture {
            SkyCulture::Western => meta_lookup(culture_table(culture, figures@), code@).0,
            SkyCulture::Chinese => meta_lookup(culture_table(culture, figures@), code@).2,
        }),
{
    let m = meta_for_culture(culture, code, figures);
    match culture {
        SkyCulture::Western => m.code,
        SkyCulture::Chinese => m.zh,
    }
}

/// The full name of a figure: English for a western constellation, Chinese
/// for an asterism.
pub fn display_name_for_culture(culture: SkyCulture, code: &str, figures: &str) -> (r: String)
    ensures
        r@ == (match culture {
            SkyCulture::Western => meta_lookup(culture_table(culture, figures@), code@).1,
            SkyCulture::Chinese => meta_lookup(culture_table(culture, figures@), code@).2,
        }),
{
    let m = meta_for_culture(culture, code, figures);
    match culture {
        SkyCulture::Western => m.en,
        SkyCulture::Chinese => m.zh,
    }
}

/// Pinyin of an asterism: the third field of the first row whose first field
/// is exactly `code` and whose third field is not empty.
pub open spec fn pinyin_lookup(rows: Seq<Seq<char>>, code: Seq<char>) -> Option<Seq<char>>
    decreases rows.len(),
{
    if rows.len() == 0 {
        None
    } else {
        let f = split_at_char(rows[0], ',');
        if field(f, 0) == code && field(f, 2).len() > 0 {
            Some(field(f, 2))
        } else {
            pinyin_lookup(rows.drop_first(), code)
        }
    }
}

/// The pinyin name of asterism `code` in the Chinese figure file `figures`.
pub fn pinyin_for(code: &str, figures: &str) -> (r: Option<String>)
    ensures
        r matches Some(p) ==> pinyin_lookup(data_rows(figures@), code@) == Some(p@),
        r is None ==> pinyin_lookup(data_rows(figures@), code@) is None,
{
    let rows = data_rows_of(figures);
    let c = chars_of(code);
    let ghost rv = rows_view(rows@);
    let mut i: usize = 0;
    assert(rv.skip(0) =~= rv);
    while i < rows.len()
        invariant
            i <= rows.len(),
            rv == rows_view(rows@),
            rv == data_rows(figures@),
            c@ == code@,
            pinyin_lookup(rv, code@) == pinyin_lookup(rv.skip(i as int), code@),
        decreases rows.len() - i,
    {
        assert(rv.skip(i as int)[0] == rows[i as int]@);
        assert(rv.skip(i as int).drop_first() =~= rv.skip(i + 1));
        let f = split_chars(&rows[i], ',');
        let first = field_chars(&f, 0);
        let third = field_chars(&f, 2);
        assert(rows_view(f@) == split_at_char(rv.skip(i as int)[0], ','));
        if chars_equal(&first, &c) && third.len() > 0 {
            assert(pinyin_lookup(rv.skip(i as int), code@) == Some(third@));
            return Some(string_from(third.as_slice()));
        }
        i = i + 1;
    }
    None
}

/// Whether two character vectors hold the same characters.
pub fn chars_equal(a: &Vec<char>, b: &Vec<char>) -> (r: bool)
    ensures
        r == (a@ == b@),
{
    if a.len() != b.len() {
        return false;
    }
    let mut i: usize = 0;
    while i < a.len()
        invariant
            a.len() == b.len(),
            i <= a.len(),
            forall|k: int| 0 <= k < i ==> a@[k] == b@[k],
        decreases a.len() - i,
    {
        if a[i] != b[i] {
            return false;
        }
        i = i + 1;
    }
    assert(a@ =~= b@);
    true
}

// ---------------------------------------------------------------------------
// Chinese star names
// ---------------------------------------------------------------------------

/// A traditional Chinese name of a star: Hipparcos number, Chinese name,
/// pinyin, English rendering and designation.
#[derive(Debug, Clone, PartialEq, Eq)]
pub struct ChineseStarName {
    pub hip: u32,
    pub zh: String,
    pub pinyin: String,
    pub en: String,
    pub desig: String,
}

impl View for ChineseStarName {
    type V = (u32, Seq<char>, Seq<char>, Seq<char>, Seq<char>);

    open spec fn view(&self) -> (u32, Seq<char>, Seq<char>, Seq<char>, Seq<char>) {
        (self.hip, self.zh@, self.pinyin@, self.en@, self.desig@)
    }
}

pub open spec fn star_names_view(v: Seq<ChineseStarName>) -> Seq<
    (u32, Seq<char>, Seq<char>, Seq<char>, Seq<char>),
> {
    v.map_values(|n: ChineseStarName| n@)
}

/// A row of the Chinese star-name file, `hip,zh,pinyin,en,desig`; the
/// number must parse, the names are trimmed.
pub open spec fn star_name_spec(row: Seq<char>) -> Option<
    (u32, Seq<char>, Seq<char>, Seq<char>, Seq<char>),
> {
    let f = split_at_char(row, ',');
    match parse_u32(field(f, 0)) {
        None => None,
        Some(h) => Some((h, trim(field(f, 1)), trim(field(f, 2)), trim(field(f, 3)), trim(field(f, 4)))),
    }
}

/// The names of star `hip` among `rows`, in file order.
pub open spec fn names_for_hip(rows: Seq<Seq<char>>, hip: u32) -> Seq<
    (u32, Seq<char>, Seq<char>, Seq<char>, Seq<char>),
>
    decreases rows.len(),
{
    if rows.len() == 0 {
        Seq::empty()
    } else {
        match star_name_spec(rows.last()) {
            Some(n) => if n.0 == hip {
                names_for_hip(rows.drop_last(), hip).push(n)
            } else {
                names_for_hip(rows.drop_last(), hip)
            },
            None => names_for_hip(rows.drop_last(), hip),
        }
    }
}

/// Parses one row of the Chinese star-name file.
pub fn parse_chinese_star_name(line: &str) -> (r: Option<ChineseStarName>)
    ensures
        r matches Some(n) ==> star_name_spec(line@) == Some(n@),
        r is None ==> star_name_spec(line@) is None,
{
    let f = split_csv_line(line);
    let first = field_chars(&f, 0);
    match parse_u32_chars(&first) {
        None => None,
        Some(hip) => {
            let zh = trim_chars(&field_chars(&f, 1));
            let pinyin = trim_chars(&field_chars(&f, 2));
            let en = trim_chars(&field_chars(&f, 3));
            let desig = trim_chars(&field_chars(&f, 4));
            Some(
                ChineseStarName {
                    hip,
                    zh: string_from(zh.as_slice()),
                    pinyin: string_from(pinyin.as_slice()),
                    en: string_from(en.as_slice()),
                    desig: string_from(desig.as_slice()),
                },
            )
        },
    }
}

/// Every traditional Chinese name of star `hip` in the star-name file `names`.
pub fn star_names_for_hip(hip: u32, names: &str) -> (r: Vec<ChineseStarName>)
    ensures
        star_names_view(r@) == names_for_hip(data_rows(names@), hip),
{
    let rows = data_rows_of(names);
    let ghost rv = rows_view(rows@);
    let mut r: Vec<ChineseStarName> = Vec::new();
    let mut i: usize = 0;
    while i < rows.len()
        invariant
            i <= rows.len(),
            rv == rows_view(rows@),
            star_names_view(r@) =~= names_for_hip(rv.take(i as int), hip),
        decreases rows.len() - i,
    {
        assert(rv.take(i + 1).drop_last() =~= rv.take(i as int));
        assert(rv.take(i + 1).last() == rows[i as int]@);
        let s = string_from(rows[i].as_slice());
        match parse_chinese_star_name(s.as_str()) {
            Some(n) => {
                if n.hip == hip {
                    r.push(n);
                }
            },
            None => {},
        }
        i = i + 1;
    }
    assert(rv.take(rows.len() as int) =~= rv);
    r
}

/// The first traditional Chinese name of star `hip`, if it has one.
pub fn chinese_star_name_for_hip(hip: u32, names: &str) -> (r: Option<ChineseStarName>)
    ensures
        r matches Some(n) ==> names_for_hip(data_rows(names@), hip).len() > 0 && n@ == names_for_hip(
            data_rows(names@),
            hip,
        )[0],
        r is None ==> names_for_hip(data_rows(names@), hip).len() == 0,
{
    let mut all = star_names_for_hip(hip, names);
    if all.len() == 0 {
        None
    } else {
        assert(star_names_view(all@)[0] == all@[0]@);
        Some(all.remove(0))
    }
}

/// A name field matches a search when it is not empty and holds the
/// normalised query in its normalised form, or the compact query in its
/// compact form.
pub open spec fn field_matches(v: Seq<char>, nq: Seq<char>, cq: Seq<char>) -> bool {
    v.len() > 0 && (has_sub(normalized(v), nq) || has_sub(compacted(v), cq))
}

pub open spec fn star_name_matches(
    n: (u32, Seq<char>, Seq<char>, Seq<char>, Seq<char>),
    nq: Seq<char>,
    cq: Seq<char>,
) -> bool {
    field_matches(n.1, nq, cq) || field_matches(n.2, nq, cq) || field_matches(n.3, nq, cq)
        || field_matches(n.4, nq, cq)
}

pub(crate) fn field_matches_exec(v: &String, nq: &Vec<char>, cq: &Vec<char>) -> (r: bool)
    ensures
        r == field_matches(v@, nq@, cq@),
{
    let s = v.as_str();
    let chars = chars_of(s);
    if chars.len() == 0 {
        return false;
    }
    let nv = normalize(s);
    if contains_sub(&nv, nq) {
        return true;
    }
    let cv = compact(s);
    contains_sub(&cv, cq)
}

/// The row of the star-name file `row` names star `hip` with a name that
/// matches the normalised query `nq` or the compact query `cq`.
pub open spec fn row_hit(row: Seq<char>, hip: u32, nq: Seq<char>, cq: Seq<char>) -> bool {
    match star_name_spec(row) {
        Some(n) => n.0 == hip && star_name_matches(n, nq, cq),
        None => false,
    }
}

/// Star `hip` has a row in the star-name file `rows` with a name that
/// matches the normalised query `nq` or the compact query `cq`.
pub open spec fn star_name_hit(rows: Seq<Seq<char>>, hip: u32, nq: Seq<char>, cq: Seq<char>) -> bool {
    exists|k: int| 0 <= k < rows.len() && #[trigger] row_hit(rows[k], hip, nq, cq)
}

/// The numbers of the stars one of whose traditional Chinese names in the
/// star-name file `names` matches `query` (a star may be listed more than
/// once).
pub fn star_name_hits(query: &str, names: &str) -> (r: Vec<u32>)
    ensures
        forall|h: u32|
            #[trigger] r@.contains(h) <==> star_name_hit(
                data_rows(names@),
                h,
                normalized(query@),
                compacted(query@),
            ),
{
    let nq = normalize(query);
    let cq = compact(query);
    let rows = data_rows_of(names);
    let ghost rv = rows_view(rows@);
    let mut out: Vec<u32> = Vec::new();
    let mut i: usize = 0;
    while i < rows.len()
        invariant
            i <= rows.len(),
            rv == rows_view(rows@),
            rv == data_rows(names@),
            nq@ == normalized(query@),
            cq@ == compacted(query@),
            forall|h: u32|
                #[trigger] out@.contains(h) <==> exists|k: int|
                    0 <= k < i && #[trigger] row_hit(rv[k], h, nq@, cq@),
        decreases rows.len() - i,
    {
        assert(rv[i as int] == rows@[i as int]@);
        let line = string_from(rows[i].as_slice());
        let ghost before = out@;
        let mut hit: Option<u32> = None;
        match parse_chinese_star_name(line.as_str()) {
            Some(n) => {
                if field_matches_exec(&n.zh, &nq, &cq) || field_matches_exec(&n.pinyin, &nq, &cq)
                    || field_matches_exec(&n.en, &nq, &cq) || field_matches_exec(&n.desig, &nq, &cq) {
                    hit = Some(n.hip);
                }
            },
            None => {},
        }
        proof {
            assert forall|h: u32| #[trigger] row_hit(rv[i as int], h, nq@, cq@) <==> hit == Some(h) by {}
        }
        match hit {
            Some(hh) => out.push(hh),
            None => {},
        }
        assert forall|h: u32| #[trigger] out@.contains(h) <==> exists|k: int|
            0 <= k < i + 1 && #[trigger] row_hit(rv[k], h, nq@, cq@) by {
            if out@.contains(h) {
                let j = choose|j: int| 0 <= j < out@.len() && out@[j] == h;
                if j < before.len() {
                    assert(before[j] == h);
                    assert(before.contains(h));
                } else {
                    assert(row_hit(rv[i as int], h, nq@, cq@));
                }
            }
            if exists|k: int| 0 <= k < i + 1 && #[trigger] row_hit(rv[k], h, nq@, cq@) {
                let k = choose|k: int| 0 <= k < i + 1 && #[trigger] row_hit(rv[k], h, nq@, cq@);
                if k < i {
                    assert(before.contains(h));
                    let j = choose|j: int| 0 <= j < before.len() && before[j] == h;
                    assert(out@[j] == h);
                } else {
                    assert(out@[before.len() as int] == h);
                }
            }
        }
        i = i + 1;
    }
    out
}

/// Whether one of the traditional Chinese names of star `hip` matches `query`.
pub fn chinese_star_name_matches(hip: u32, query: &str, names: &str) -> (r: bool)
    ensures
        r == (exists|i: int|
            0 <= i < names_for_hip(data_rows(names@), hip).len() && #[trigger] star_name_matches(
                names_for_hip(data_rows(names@), hip)[i],
                normalized(query@),
                compacted(query@),
            )),
{
    let nq = normalize(query);
    let cq = compact(query);
    let all = star_names_for_hip(hip, names);
    let ghost list = names_for_hip(data_rows(names@), hip);
    let mut i: usize = 0;
    while i < all.len()
        invariant
            i <= all.len(),
            list == star_names_view(all@),
            list == names_for_hip(data_rows(names@), hip),
            nq@ == normalized(query@),
            cq@ == compacted(query@),
            forall|k: int| 0 <= k < i ==> !#[trigger] star_name_matches(list[k], nq@, cq@),
        decreases all.len() - i,
    {
        let n = &all[i];
        assert(list[i as int] == n@);
        if field_matches_exec(&n.zh, &nq, &cq) || field_matches_exec(&n.pinyin, &nq, &cq)
            || field_matches_exec(&n.en, &nq, &cq) || field_matches_exec(&n.desig, &nq, &cq) {
            assert(star_name_matches(list[i as int], nq@, cq@));
            return true;
        }
        i = i + 1;
    }
    false
}

// ---------------------------------------------------------------------------
// Figure search
// ---------------------------------------------------------------------------

/// Whether figure `code` of `culture` matches a search: the trimmed,
/// lowercased query occurs in the lowercased code given, the lowercased table
/// code, the lowercased English name, the Chinese name, or the lowercased
/// pinyin.
pub open spec fn figure_matches(
    culture: SkyCulture,
    code: Seq<char>,
    query: Seq<char>,
    figures: Seq<char>,
) -> bool {
    let q = lowercase(trim(query));
    let m = meta_lookup(culture_table(culture, figures), code);
    let pinyin = match pinyin_lookup(data_rows(figures), code) {
        Some(p) => lowercase(p),
        None => lowercase(Seq::empty()),
    };
    has_sub(lowercase(code), q) || has_sub(lowercase(m.0), q) || has_sub(lowercase(m.1), q)
        || has_sub(m.2, q) || has_sub(pinyin, q)
}

fn lowercase_chars(s: &str) -> (r: Vec<char>)
    ensures
        r@ == lowercase(s@),
{
    let l = to_lowercase(s);
    chars_of(l.as_str())
}

/// Whether figure `code` of `culture` matches `query`; `figures` is the
/// Chinese figure file, which also supplies pinyin.
pub fn matches_query(culture: SkyCulture, code: &str, query: &str, figures: &str) -> (r: bool)
    ensures
        r == figure_matches(culture, code@, query@, figures@),
{
    let qv = chars_of(query);
    let qt = trim_chars(&qv);
    let qs = string_from(qt.as_slice());
    let q = lowercase_chars(qs.as_str());
    let m = meta_for_culture(culture, code, figures);
    let pinyin = match pinyin_for(code, figures) {
        Some(p) => lowercase_chars(p.as_str()),
        None => {
            proof {
                reveal_strlit("");
                assert(""@ =~= Seq::<char>::empty());
            }
            lowercase_chars("")
        },
    };
    let lc = lowercase_chars(code);
    let lm = lowercase_chars(m.code.as_str());
    let le = lowercase_chars(m.en.as_str());
    let zh = chars_of(m.zh.as_str());
    contains_sub(&lc, &q) || contains_sub(&lm, &q) || contains_sub(&le, &q) || contains_sub(&zh, &q)
        || contains_sub(&pinyin, &q)
}

} // verus!
