use vstd::prelude::*;

verus! {

/// Version written into saved configuration files.
pub const CONFIG_VERSION: u8 = 4;

// ---------------------------------------------------------------------------
// Language
// ---------------------------------------------------------------------------

/// Interface language.
#[derive(Debug, Clone, Copy, PartialEq, Eq, Structural)]
pub enum Language {
    En,
    Zh,
}

pub open spec fn toggled(l: Language) -> Language {
    match l {
        Language::En => Language::Zh,
        Language::Zh => Language::En,
    }
}

pub open spec fn language_code(l: Language) -> Seq<char> {
    match l {
        Language::En => "en"@,
        Language::Zh => "zh"@,
    }
}

impl Language {
    /// Switches between English and Chinese.
    pub fn toggle(self) -> (r: Self)
        ensures
            r == toggled(self),
    {
        match self {
            Language::En => Language::Zh,
            Language::Zh => Language::En,
        }
    }

    /// The short code used in the config file and on the command line.
    pub fn code(self) -> (r: &'static str)
        ensures
            r@ == language_code(self),
    {
        match self {
            Language::En => "en",
            Language::Zh => "zh",
        }
    }

    /// Parses a language code (`FromStr`): exactly `en` or `zh`; anything
    /// else is refused with `unsupported language: <value>`.
    pub fn from_code(value: &str) -> (r: Result<Language, String>)
        ensures
            r matches Ok(l) ==> value@ == language_code(l),
            r matches Err(e) ==> value@ != language_code(Language::En) && value@ != language_code(
                Language::Zh,
            ) && e@ == "unsupported language: "@ + value@,
    {
        proof {
            reveal_strlit("en");
            reveal_strlit("zh");
        }
        let v = crate::text::chars_of(value);
        if v.len() == 2 && v[0] == 'e' && v[1] == 'n' {
            assert(v@ =~= language_code(Language::En));
            Ok(Language::En)
        } else if v.len() == 2 && v[0] == 'z' && v[1] == 'h' {
            assert(v@ =~= language_code(Language::Zh));
            Ok(Language::Zh)
        } else {
            assert(v@ != language_code(Language::En)) by {
                if v@ == language_code(Language::En) {
                    assert(v@[0] == 'e' && v@[1] == 'n');
                }
            }
            assert(v@ != language_code(Language::Zh)) by {
                if v@ == language_code(Language::Zh) {
                    assert(v@[0] == 'z' && v@[1] == 'h');
                }
            }
            let prefix = String::from_str("unsupported language: ");
            Err(prefix.concat(value))
        }
    }
}

impl std::str::FromStr for Language {
    type Err = String;

    /// Parses a language code as `Language::from_code` does: exactly `en` or
    /// `zh`; anything else is refused with `unsupported language: <value>`.
    fn from_str(value: &str) -> (r: Result<Language, String>)
        ensures
            r matches Ok(l) ==> value@ == language_code(l),
            r matches Err(e) ==> value@ != language_code(Language::En) && value@ != language_code(
                Language::Zh,
            ) && e@ == "unsupported language: "@ + value@,
    {
        Language::from_code(value)
    }
}

/// Toggling the language twice gives back the language one started with.
pub proof fn lemma_toggle_involution(l: Language)
    ensures
        toggled(toggled(l)) == l,
        toggled(l) != l,
{
}

/// Different languages have different codes, so a code names one language.
pub proof fn lemma_language_codes_distinct(l: Language, m: Language)
    ensures
        (language_code(l) == language_code(m)) == (l == m),
{
    reveal_strlit("en");
    reveal_strlit("zh");
    if l != m {
        assert(language_code(l)[0] != language_code(m)[0]);
    }
}

// ---------------------------------------------------------------------------
// Theme
// ---------------------------------------------------------------------------

/// Colour theme.
#[derive(Debug, Clone, Copy, PartialEq, Eq, Structural)]
pub enum Theme {
    Midnight,
    Aurora,
    Amber,
    Dusk,
    Forest,
    Dracula,
    Nord,
    Gruvbox,
    SolarizedDark,
    TokyoNight,
    Mono,
}

/// Number of themes.
pub const THEME_COUNT: usize = 11;

/// Position of a theme in the picker order.
pub open spec fn theme_index(t: Theme) -> nat {
    match t {
        Theme::Midnight => 0,
        Theme::Aurora => 1,
        Theme::Amber => 2,
        Theme::Dusk => 3,
        Theme::Forest => 4,
        Theme::Dracula => 5,
        Theme::Nord => 6,
        Theme::Gruvbox => 7,
        Theme::SolarizedDark => 8,
        Theme::TokyoNight => 9,
        Theme::Mono => 10,
    }
}

/// The theme at a picker position; positions past the end give the last theme.
pub open spec fn theme_at(i: int) -> Theme {
    if i <= 0 {
        Theme::Midnight
    } else if i == 1 {
        Theme::Aurora
    } else if i == 2 {
        Theme::Amber
    } else if i == 3 {
        Theme::Dusk
    } else if i == 4 {
        Theme::Forest
    } else if i == 5 {
        Theme::Dracula
    } else if i == 6 {
        Theme::Nord
    } else if i == 7 {
        Theme::Gruvbox
    } else if i == 8 {
        Theme::SolarizedDark
    } else if i == 9 {
        Theme::TokyoNight
    } else {
        Theme::Mono
    }
}

pub open spec fn theme_label(t: Theme) -> Seq<char> {
    match t {
        Theme::Midnight => "midnight"@,
        Theme::Aurora => "aurora"@,
        Theme::Amber => "amber"@,
        Theme::Dusk => "dusk"@,
        Theme::Forest => "forest"@,
        Theme::Dracula => "dracula"@,
        Theme::Nord => "nord"@,
        Theme::Gruvbox => "gruvbox"@,
        Theme::SolarizedDark => "solarized-dark"@,
        Theme::TokyoNight => "tokyo-night"@,
        Theme::Mono => "mono"@,
    }
}

impl Theme {
    /// Every theme, in picker order (`Theme::ALL`).
    pub fn all() -> (r: Vec<Theme>)
        ensures
            r.len() == THEME_COUNT,
            forall|i: int| 0 <= i < THEME_COUNT ==> #[trigger] r@[i] == theme_at(i),
    {
        let r = vec![
            Theme::Midnight,
            Theme::Aurora,
            Theme::Amber,
            Theme::Dusk,
            Theme::Forest,
            Theme::Dracula,
            Theme::Nord,
            Theme::Gruvbox,
            Theme::SolarizedDark,
            Theme::TokyoNight,
            Theme::Mono,
        ];
        r
    }

    /// Position of the theme in `Theme::all()`.
    pub fn index(self) -> (r: usize)
        ensures
            r == theme_index(self),
            r < THEME_COUNT,
    {
        match self {
            Theme::Midnight => 0,
            Theme::Aurora => 1,
            Theme::Amber => 2,
            Theme::Dusk => 3,
            Theme::Forest => 4,
            Theme::Dracula => 5,
            Theme::Nord => 6,
            Theme::Gruvbox => 7,
            Theme::SolarizedDark => 8,
            Theme::TokyoNight => 9,
            Theme::Mono => 10,
        }
    }

    /// The theme at `index`; an index past the end gives the last theme.
    pub fn from_index(index: usize) -> (r: Theme)
        ensures
            r == theme_at(index as int),
    {
        let all = Theme::all();
        let i = if index < THEME_COUNT - 1 {
            index
        } else {
            THEME_COUNT - 1
        };
        all[i]
    }

    /// The theme's name in the config file and on the command line.
    pub fn label(self) -> (r: &'static str)
        ensures
            r@ == theme_label(self),
    {
        match self {
            Theme::Midnight => "midnight",
            Theme::Aurora => "aurora",
            Theme::Amber => "amber",
            Theme::Dusk => "dusk",
            Theme::Forest => "forest",
            Theme::Dracula => "dracula",
            Theme::Nord => "nord",
            Theme::Gruvbox => "gruvbox",
            Theme::SolarizedDark => "solarized-dark",
            Theme::TokyoNight => "tokyo-night",
            Theme::Mono => "mono",
        }
    }
}

/// `from_index` undoes `index`, and `index` undoes `from_index` on every
/// position inside the list.
pub proof fn lemma_theme_index_roundtrip(t: Theme, i: int)
    ensures
        theme_at(theme_index(t) as int) == t,
        0 <= i < THEME_COUNT ==> theme_index(theme_at(i)) == i,
        i >= THEME_COUNT ==> theme_at(i) == Theme::Mono,
{
}

// ---------------------------------------------------------------------------
// Charset, landscape, orientation, sky culture
// ---------------------------------------------------------------------------

/// Characters used on the sky canvas.
#[derive(Debug, Clone, Copy, PartialEq, Eq, Structural)]
pub enum Charset {
    Auto,
    Ascii,
    Unicode,
}

pub open spec fn charset_next(c: Charset) -> Charset {
    match c {
        Charset::Auto => Charset::Ascii,
        Charset::Ascii => Charset::Unicode,
        Charset::Unicode => Charset::Auto,
    }
}

impl Charset {
    /// The next charset in the settings cycle auto, ascii, unicode.
    pub fn next(self) -> (r: Self)
        ensures
            r == charset_next(self),
    {
        match self {
            Charset::Auto => Charset::Ascii,
            Charset::Ascii => Charset::Unicode,
            Charset::Unicode => Charset::Auto,
        }
    }

    /// Whether the sky canvas draws Unicode symbols.
    pub fn canvas_unicode(self) -> (r: bool)
        ensures
            r == (self == Charset::Unicode),
    {
        match self {
            Charset::Unicode => true,
            _ => false,
        }
    }
}

/// Ground reference drawn under the sky.
#[derive(Debug, Clone, Copy, PartialEq, Eq, Structural)]
pub enum LandscapeMode {
    Off,
    Horizon,
    Bearings,
}

pub open spec fn landscape_next(m: LandscapeMode) -> LandscapeMode {
    match m {
        LandscapeMode::Off => LandscapeMode::Horizon,
        LandscapeMode::Horizon => LandscapeMode::Bearings,
        LandscapeMode::Bearings => LandscapeMode::Off,
    }
}

pub open spec fn landscape_code(m: LandscapeMode) -> Seq<char> {
    match m {
        LandscapeMode::Off => "off"@,
        LandscapeMode::Horizon => "horizon"@,
        LandscapeMode::Bearings => "bearings"@,
    }
}

impl LandscapeMode {
    /// The next mode in the cycle off, horizon, bearings.
    pub fn next(self) -> (r: Self)
        ensures
            r == landscape_next(self),
    {
        match self {
            LandscapeMode::Off => LandscapeMode::Horizon,
            LandscapeMode::Horizon => LandscapeMode::Bearings,
            LandscapeMode::Bearings => LandscapeMode::Off,
        }
    }

    /// The mode's name in the config file.
    pub fn code(self) -> (r: &'static str)
        ensures
            r@ == landscape_code(self),
    {
        match self {
            LandscapeMode::Off => "off",
            LandscapeMode::Horizon => "horizon",
            LandscapeMode::Bearings => "bearings",
        }
    }
}

/// How the sky map is laid out left to right.
#[derive(Debug, Clone, Copy, PartialEq, Eq, Structural)]
pub enum SkyOrientation {
    Observer,
    MapStyle,
}

pub open spec fn orientation_next(o: SkyOrientation) -> SkyOrientation {
    match o {
        SkyOrientation::Observer => SkyOrientation::MapStyle,
        SkyOrientation::MapStyle => SkyOrientation::Observer,
    }
}

pub open spec fn orientation_code(o: SkyOrientation) -> Seq<char> {
    match o {
        SkyOrientation::Observer => "observer"@,
        SkyOrientation::MapStyle => "map"@,
    }
}

impl SkyOrientation {
    /// Switches between observer view and map view.
    pub fn next(self) -> (r: Self)
        ensures
            r == orientation_next(self),
    {
        match self {
            SkyOrientation::Observer => SkyOrientation::MapStyle,
            SkyOrientation::MapStyle => SkyOrientation::Observer,
        }
    }

    /// The orientation's name in the config file.
    pub fn code(self) -> (r: &'static str)
        ensures
            r@ == orientation_code(self),
    {
        match self {
            SkyOrientation::Observer => "observer",
            SkyOrientation::MapStyle => "map",
        }
    }
}

/// Which constellation figures are drawn and searched.
#[derive(Debug, Clone, Copy, PartialEq, Eq, Structural)]
pub enum SkyCulture {
    Western,
    Chinese,
}

pub open spec fn culture_next(c: SkyCulture) -> SkyCulture {
    match c {
        SkyCulture::Western => SkyCulture::Chinese,
        SkyCulture::Chinese => SkyCulture::Western,
    }
}

pub open spec fn culture_code(c: SkyCulture) -> Seq<char> {
    match c {
        SkyCulture::Western => "western"@,
        SkyCulture::Chinese => "chinese"@,
    }
}

impl SkyCulture {
    /// Switches between the western and the Chinese sky.
    pub fn next(self) -> (r: Self)
        ensures
            r == culture_next(self),
    {
        match self {
            SkyCulture::Western => SkyCulture::Chinese,
            SkyCulture::Chinese => SkyCulture::Western,
        }
    }

    /// The culture's name in the config file.
    pub fn code(self) -> (r: &'static str)
        ensures
            r@ == culture_code(self),
    {
        match self {
            SkyCulture::Western => "western",
            SkyCulture::Chinese => "chinese",
        }
    }

    /// The message key of the culture's kind of figure.
    pub fn figure_kind_key(self) -> (r: &'static str)
        ensures
            r@ == (match self {
                SkyCulture::Western => "constellation"@,
                SkyCulture::Chinese => "asterism"@,
            }),
    {
        match self {
            SkyCulture::Western => "constellation",
            SkyCulture::Chinese => "asterism",
        }
    }

    /// The message key of the legend entry for the culture's figure stars.
    pub fn figure_node_legend_key(self) -> (r: &'static str)
        ensures
            r@ == (match self {
                SkyCulture::Western => "legend_constellation"@,
                SkyCulture::Chinese => "legend_asterism"@,
            }),
    {
        match self {
            SkyCulture::Western => "legend_constellation",
            SkyCulture::Chinese => "legend_asterism",
        }
    }
}

/// Each settings cycle returns to its start: three steps for the charset
/// and the landscape, two for the orientation and the sky culture, and
/// every step changes the value.
pub proof fn lemma_setting_cycles(
    c: Charset,
    m: LandscapeMode,
    o: SkyOrientation,
    k: SkyCulture,
)
    ensures
        charset_next(charset_next(charset_next(c))) == c,
        charset_next(c) != c,
        landscape_next(landscape_next(landscape_next(m))) == m,
        landscape_next(m) != m,
        orientation_next(orientation_next(o)) == o,
        orientation_next(o) != o,
        culture_next(culture_next(k)) == k,
        culture_next(k) != k,
{
}

// ---------------------------------------------------------------------------
// Defaults used when a saved configuration lacks a field
// ---------------------------------------------------------------------------

/// Landscape mode of a configuration that does not name one.
pub fn default_landscape() -> (r: LandscapeMode)
    ensures
        r == LandscapeMode::Horizon,
{
    LandscapeMode::Horizon
}

/// Sky orientation of a configuration that does not name one.
pub fn default_sky_orientation() -> (r: SkyOrientation)
    ensures
        r == SkyOrientation::Observer,
{
    SkyOrientation::Observer
}

/// Whether constellation lines are shown when the configuration does not say.
pub fn default_constellations() -> (r: bool)
    ensures
        r,
{
    true
}

/// Default for the display switches that are on unless turned off.
pub fn default_true() -> (r: bool)
    ensures
        r,
{
    true
}

/// Timezone of a configuration that does not name one.
pub fn default_timezone() -> (r: String)
    ensures
        r@ == "Asia/Shanghai"@,
{
    String::from_str("Asia/Shanghai")
}

// ---------------------------------------------------------------------------
// Timezones
// ---------------------------------------------------------------------------

/// Whether chrono-tz knows `name` as an IANA timezone (`name.parse::<Tz>()`
/// succeeds), by its compiled-in database.
pub uninterp spec fn known_timezone(name: Seq<char>) -> bool;

/// `str::parse::<chrono_tz::Tz>` succeeds.
#[verifier::external_body]
fn timezone_parses(name: &str) -> (r: bool)
    ensures
        r == known_timezone(name@),
{
    name.parse::<chrono_tz::Tz>().is_ok()
}

/// The configuration error for the timezone `timezone`: none when chrono-tz
/// knows it, else `unsupported timezone: <timezone>`.
pub fn timezone_problem(timezone: &str) -> (r: Option<String>)
    ensures
        r is None <==> known_timezone(timezone@),
        r matches Some(m) ==> m@ == "unsupported timezone: "@ + timezone@,
{
    if timezone_parses(timezone) {
        None
    } else {
        let prefix = String::from_str("unsupported timezone: ");
        Some(prefix.concat(timezone))
    }
}

} // verus!
