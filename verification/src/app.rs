use vstd::prelude::*;

use crate::config::{theme_at, theme_index, Language, SkyCulture, Theme, THEME_COUNT};
use crate::constellations::{lines_view, ConstellationLine};
use crate::keys::Key;
use crate::text::{
    eq_ignore_ascii_case, eq_ignore_case, push_str,
    chars_of, contains_sub, decimal, digit_char, drop_ws, drop_ws_chars, has_sub, lowercase,
    push_decimal, rows_view, string_from, to_lowercase, trim, trim_chars,
};

verus! {

// ---------------------------------------------------------------------------
// Screens and interaction state
// ---------------------------------------------------------------------------

/// Which screen has the keyboard.
#[derive(Debug, Clone, Copy, PartialEq, Eq, Structural)]
pub enum Screen {
    Sky,
    Setup,
    Search,
    Settings,
}

/// Whether the sky or the globe is shown.
#[derive(Debug, Clone, Copy, PartialEq, Eq, Structural)]
pub enum ViewMode {
    Sky,
    Ground,
}

/// Number of rows in the settings panel.
pub fn settings_count() -> (r: usize)
    ensures
        r == 14,
{
    14
}

/// Something the user can select on the sky, in search, or on the globe.
#[derive(Debug, Clone, PartialEq, Eq)]
pub enum Target {
    Star(u32),
    Constellation(String),
    Planet(String),
    Moon,
    DeepSky(String),
    City(usize),
}

pub enum TargetView {
    Star(u32),
    Constellation(Seq<char>),
    Planet(Seq<char>),
    Moon,
    DeepSky(Seq<char>),
    City(usize),
}

impl View for Target {
    type V = TargetView;

    open spec fn view(&self) -> TargetView {
        match self {
            Target::Star(h) => TargetView::Star(*h),
            Target::Constellation(c) => TargetView::Constellation(c@),
            Target::Planet(p) => TargetView::Planet(p@),
            Target::Moon => TargetView::Moon,
            Target::DeepSky(d) => TargetView::DeepSky(d@),
            Target::City(i) => TargetView::City(*i),
        }
    }
}

/// One line of a search result list.
#[derive(Debug, Clone)]
pub struct SearchResult {
    pub label: String,
    pub detail: String,
    pub target: Target,
}

impl View for SearchResult {
    type V = (Seq<char>, Seq<char>, TargetView);

    open spec fn view(&self) -> (Seq<char>, Seq<char>, TargetView) {
        (self.label@, self.detail@, self.target@)
    }
}

pub open spec fn results_view(v: Seq<SearchResult>) -> Seq<(Seq<char>, Seq<char>, TargetView)> {
    v.map_values(|r: SearchResult| r@)
}

/// What the search box looks for.
#[derive(Debug, Clone, Copy, PartialEq, Eq, Structural)]
pub enum SearchMode {
    Sky,
    City,
}

/// The search box: query, results, highlighted row and mode.
#[derive(Debug, Clone)]
pub struct SearchState {
    pub query: String,
    pub results: Vec<SearchResult>,
    pub selected: usize,
    pub mode: SearchMode,
}

impl SearchState {
    /// An empty search; a city search starts by listing every city.
    pub fn new(mode: SearchMode, language: Language) -> (r: SearchState)
        ensures
            r.query@ == Seq::<char>::empty(),
            r.selected == 0,
            r.mode == mode,
            results_view(r.results@) == (match mode {
                SearchMode::Sky => Seq::empty(),
                SearchMode::City => city_results(Seq::empty(), language),
            }),
    {
        let results = match mode {
            SearchMode::Sky => Vec::new(),
            SearchMode::City => {
                proof {
                    reveal_strlit("");
                    assert(""@ =~= Seq::<char>::empty());
                }
                city_search_results("", language)
            },
        };
        assert(mode == SearchMode::Sky ==> results_view(results@) =~= Seq::empty());
        SearchState { query: String::new(), results, selected: 0, mode }
    }

    /// The empty sky search.
    pub fn default_state() -> (r: SearchState)
        ensures
            r.query@ == Seq::<char>::empty(),
            r.selected == 0,
            r.mode == SearchMode::Sky,
            r.results.len() == 0,
    {
        let r = SearchState::new(SearchMode::Sky, Language::En);
        assert(results_view(r.results@).len() == r.results@.len());
        r
    }
}

/// The settings panel: highlighted row and the theme picker.
#[derive(Debug, Clone)]
pub struct SettingsState {
    pub selected: usize,
    pub theme_selected: usize,
    pub theme_picker: bool,
}

impl Default for SettingsState {
    fn default() -> (r: SettingsState)
        ensures
            r.selected == 0 && r.theme_selected == 0 && !r.theme_picker,
    {
        SettingsState { selected: 0, theme_selected: 0, theme_picker: false }
    }
}

/// Row of the settings panel that opens the theme picker.
pub const SETTINGS_THEME_FIELD: usize = 1;

/// A display setting that a row of the settings panel changes.
#[derive(Debug, Clone, Copy, PartialEq, Eq, Structural)]
pub enum SettingChange {
    Language,
    Charset,
    Animations,
    Planets,
    DeepSky,
    MoonPanel,
    Labels,
    Constellations,
    SkyCulture,
    SidePanel,
    Landscape,
    SkyOrientation,
    /// Show fainter stars (`true`) or fewer (`false`).
    Magnitude { fainter: bool },
    /// The row changes nothing.
    Unchanged,
}

/// What a key on the settings panel asks of the rest of the program.
#[derive(Debug, Clone, Copy, PartialEq, Eq, Structural)]
pub enum SettingsEffect {
    Nothing,
    /// Leave the settings panel for the sky.
    Close,
    /// The theme picker opened.
    ThemePickerOpened,
    /// Switch to this theme and save the settings.
    ApplyTheme(Theme),
    /// Change this setting and save the settings.
    Change(SettingChange),
}

/// The setting that each row changes; the theme row opens the picker instead.
pub open spec fn row_change(row: int, forward: bool) -> SettingChange {
    if row == 0 {
        SettingChange::Language
    } else if row == 2 {
        SettingChange::Charset
    } else if row == 3 {
        SettingChange::Animations
    } else if row == 4 {
        SettingChange::Planets
    } else if row == 5 {
        SettingChange::DeepSky
    } else if row == 6 {
        SettingChange::MoonPanel
    } else if row == 7 {
        SettingChange::Labels
    } else if row == 8 {
        SettingChange::Constellations
    } else if row == 9 {
        SettingChange::SkyCulture
    } else if row == 10 {
        SettingChange::SidePanel
    } else if row == 11 {
        SettingChange::Landscape
    } else if row == 12 {
        SettingChange::SkyOrientation
    } else if row == 13 {
        SettingChange::Magnitude { fainter: forward }
    } else {
        SettingChange::Unchanged
    }
}

/// The label of each row of the settings panel, top to bottom, as a message
/// key: the language, the theme, the character set, animations, planets,
/// deep-sky objects, the moon panel, labels, figure lines, the sky culture,
/// the side panel, the landscape, the sky orientation and the magnitude limit.
pub open spec fn settings_row_key(row: int) -> Seq<char> {
    if row == 0 {
        "language"@
    } else if row == 1 {
        "theme"@
    } else if row == 2 {
        "charset"@
    } else if row == 3 {
        "animations"@
    } else if row == 4 {
        "planets"@
    } else if row == 5 {
        "deep_sky"@
    } else if row == 6 {
        "moon"@
    } else if row == 7 {
        "labels"@
    } else if row == 8 {
        "lines"@
    } else if row == 9 {
        "sky_culture"@
    } else if row == 10 {
        "side_panel"@
    } else if row == 11 {
        "landscape"@
    } else if row == 12 {
        "sky_orientation"@
    } else {
        "limit"@
    }
}

/// The message key of the setting that a change acts on.
pub open spec fn change_key(c: SettingChange) -> Seq<char> {
    match c {
        SettingChange::Language => "language"@,
        SettingChange::Charset => "charset"@,
        SettingChange::Animations => "animations"@,
        SettingChange::Planets => "planets"@,
        SettingChange::DeepSky => "deep_sky"@,
        SettingChange::MoonPanel => "moon"@,
        SettingChange::Labels => "labels"@,
        SettingChange::Constellations => "lines"@,
        SettingChange::SkyCulture => "sky_culture"@,
        SettingChange::SidePanel => "side_panel"@,
        SettingChange::Landscape => "landscape"@,
        SettingChange::SkyOrientation => "sky_orientation"@,
        SettingChange::Magnitude { .. } => "limit"@,
        SettingChange::Unchanged => ""@,
    }
}

/// Each row of the settings panel other than the theme row changes the
/// setting its label names (the planets row planets, the deep-sky row
/// deep-sky objects, and so on); the last row shows fainter stars going
/// forward and fewer going back.
pub proof fn lemma_settings_rows_change_their_labels(row: int, forward: bool)
    requires
        0 <= row < 14,
        row != SETTINGS_THEME_FIELD,
    ensures
        change_key(row_change(row, forward)) == settings_row_key(row),
        row_change(13, forward) == (SettingChange::Magnitude { fainter: forward }),
{
}

impl SettingsState {
    /// Whether the highlighted rows lie inside the panel and the picker.
    pub open spec fn in_range(&self) -> bool {
        self.selected < 14 && self.theme_selected < THEME_COUNT
    }

    /// Highlights row `index`, or the last row for an index past the end.
    pub fn select(&mut self, index: usize)
        ensures
            final(self).selected == min_of(index as int, 13),
            final(self).theme_selected == old(self).theme_selected,
            final(self).theme_picker == old(self).theme_picker,
    {
        self.selected = if index < settings_count() - 1 {
            index
        } else {
            settings_count() - 1
        };
    }

    /// Highlights theme `index` in the picker, or the last theme for an index
    /// past the end.
    pub fn select_theme(&mut self, index: usize)
        ensures
            final(self).theme_selected == min_of(index as int, THEME_COUNT - 1),
            final(self).selected == old(self).selected,
            final(self).theme_picker == old(self).theme_picker,
    {
        self.theme_selected = if index < THEME_COUNT - 1 {
            index
        } else {
            THEME_COUNT - 1
        };
    }

    /// Opens the theme picker on the theme row with `current` highlighted.
    pub fn open_theme_picker(&mut self, current: Theme)
        ensures
            final(self).selected == SETTINGS_THEME_FIELD,
            final(self).theme_selected == theme_index(current),
            final(self).theme_picker,
    {
        self.selected = SETTINGS_THEME_FIELD;
        self.theme_selected = current.index();
        self.theme_picker = true;
    }

    /// Acts on the highlighted row: the theme row opens the picker on
    /// `current`, every other row names the setting to change.
    pub fn adjust(&mut self, forward: bool, current: Theme) -> (r: SettingsEffect)
        ensures
            old(self).selected == SETTINGS_THEME_FIELD ==> r == SettingsEffect::ThemePickerOpened
                && final(self).selected == SETTINGS_THEME_FIELD && final(self).theme_selected
                == theme_index(current) && final(self).theme_picker,
            old(self).selected != SETTINGS_THEME_FIELD ==> r == SettingsEffect::Change(
                row_change(old(self).selected as int, forward),
            ) && *final(self) == *old(self),
    {
        let change = match self.selected {
            0 => SettingChange::Language,
            1 => {
                self.open_theme_picker(current);
                return SettingsEffect::ThemePickerOpened;
            },
            2 => SettingChange::Charset,
            3 => SettingChange::Animations,
            4 => SettingChange::Planets,
            5 => SettingChange::DeepSky,
            6 => SettingChange::MoonPanel,
            7 => SettingChange::Labels,
            8 => SettingChange::Constellations,
            9 => SettingChange::SkyCulture,
            10 => SettingChange::SidePanel,
            11 => SettingChange::Landscape,
            12 => SettingChange::SkyOrientation,
            13 => SettingChange::Magnitude { fainter: forward },
            _ => SettingChange::Unchanged,
        };
        SettingsEffect::Change(change)
    }

    /// A key in the theme picker: Esc and `q` close it, the vertical keys move
    /// through the themes, Enter and Right apply the highlighted one.
    pub fn picker_key(&mut self, key: Key) -> (r: SettingsEffect)
        ensures
            final(self).selected == old(self).selected,
            key == Key::Esc || key == Key::Char('q') ==> r == SettingsEffect::Nothing
                && !final(self).theme_picker && final(self).theme_selected == old(
                self,
            ).theme_selected,
            key == Key::Up || key == Key::BackTab ==> r == SettingsEffect::Nothing
                && final(self).theme_picker == old(self).theme_picker && final(self).theme_selected
                == min_of(sat_sub(old(self).theme_selected as int, 1), THEME_COUNT - 1),
            key == Key::Down || key == Key::Tab ==> r == SettingsEffect::Nothing
                && final(self).theme_picker == old(self).theme_picker && final(self).theme_selected
                == min_of(old(self).theme_selected + 1, THEME_COUNT - 1),
            key == Key::Enter || key == Key::Right ==> r == SettingsEffect::ApplyTheme(
                theme_at(old(self).theme_selected as int),
            ) && !final(self).theme_picker && final(self).theme_selected == old(
                self,
            ).theme_selected,
            !(key == Key::Esc || key == Key::Char('q') || key == Key::Up || key == Key::BackTab
                || key == Key::Down || key == Key::Tab || key == Key::Enter || key == Key::Right)
                ==> r == SettingsEffect::Nothing && *final(self) == *old(self),
    {
        match key {
            Key::Esc | Key::Char('q') => {
                self.theme_picker = false;
                SettingsEffect::Nothing
            },
            Key::Up | Key::BackTab => {
                let i = if self.theme_selected > 0 {
                    self.theme_selected - 1
                } else {
                    0
                };
                self.select_theme(i);
                SettingsEffect::Nothing
            },
            Key::Down | Key::Tab => {
                let i = if self.theme_selected < usize::MAX {
                    self.theme_selected + 1
                } else {
                    usize::MAX
                };
                self.select_theme(i);
                SettingsEffect::Nothing
            },
            Key::Enter | Key::Right => {
                let theme = Theme::from_index(self.theme_selected);
                self.theme_picker = false;
                SettingsEffect::ApplyTheme(theme)
            },
            _ => SettingsEffect::Nothing,
        }
    }

    /// A key on the settings panel. With the theme picker open the picker
    /// takes it; otherwise Esc, `q` and `o` close the panel, the vertical keys
    /// move through the rows, Left acts backward on the row, Right and Enter
    /// act forward.
    pub fn handle_key(&mut self, key: Key, current: Theme) -> (r: SettingsEffect)
        ensures
            old(self).theme_picker ==> final(self).selected == old(self).selected,
            !old(self).theme_picker ==> {
                &&& key == Key::Esc || key == Key::Char('q') || key == Key::Char('o') ==> r
                    == SettingsEffect::Close && *final(self) == *old(self)
                &&& key == Key::Up || key == Key::BackTab ==> r == SettingsEffect::Nothing
                    && final(self).selected == sat_sub(old(self).selected as int, 1)
                    && final(self).theme_selected == old(self).theme_selected
                    && !final(self).theme_picker
                &&& key == Key::Down || key == Key::Tab ==> r == SettingsEffect::Nothing
                    && final(self).selected == min_of(old(self).selected + 1, 13)
                    && final(self).theme_selected == old(self).theme_selected
                    && !final(self).theme_picker
                &&& key == Key::Left || key == Key::Right || key == Key::Enter ==> {
                    let forward = key != Key::Left;
                    &&& old(self).selected == SETTINGS_THEME_FIELD ==> r
                        == SettingsEffect::ThemePickerOpened && final(self).selected
                        == SETTINGS_THEME_FIELD && final(self).theme_selected == theme_index(
                        current,
                    ) && final(self).theme_picker
                    &&& old(self).selected != SETTINGS_THEME_FIELD ==> r == SettingsEffect::Change(
                        row_change(old(self).selected as int, forward),
                    ) && *final(self) == *old(self)
                }
                &&& !(key == Key::Esc || key == Key::Char('q') || key == Key::Char('o') || key
                    == Key::Up || key == Key::BackTab || key == Key::Down || key == Key::Tab || key
                    == Key::Left || key == Key::Right || key == Key::Enter) ==> r
                    == SettingsEffect::Nothing && *final(self) == *old(self)
            },
            old(self).in_range() ==> final(self).in_range(),
    {
        if self.theme_picker {
            return self.picker_key(key);
        }
        match key {
            Key::Esc | Key::Char('q') | Key::Char('o') => SettingsEffect::Close,
            Key::Up | Key::BackTab => {
                self.selected = if self.selected > 0 {
                    self.selected - 1
                } else {
                    0
                };
                SettingsEffect::Nothing
            },
            Key::Down | Key::Tab => {
                self.selected = if self.selected < settings_count() - 1 {
                    self.selected + 1
                } else {
                    settings_count() - 1
                };
                SettingsEffect::Nothing
            },
            Key::Left => self.adjust(false, current),
            Key::Right | Key::Enter => self.adjust(true, current),
            _ => SettingsEffect::Nothing,
        }
    }
}


/// The pointer on the sky canvas and what lies under it.
#[derive(Debug, Clone)]
pub struct PointerState {
    pub active: bool,
    pub x: usize,
    pub y: usize,
    pub width: usize,
    pub height: usize,
    pub hovered: Option<Target>,
    pub hits: Vec<Target>,
}

impl Default for PointerState {
    fn default() -> (r: PointerState)
        ensures
            !r.active && r.x == 0 && r.y == 0 && r.width == 0 && r.height == 0 && r.hovered is None
                && r.hits.len() == 0,
    {
        PointerState { active: false, x: 0, y: 0, width: 0, height: 0, hovered: None, hits: Vec::new() }
    }
}

/// `v` held to the range `lo ..= hi`.
pub open spec fn clamp_to(v: int, lo: int, hi: int) -> int {
    if v < lo {
        lo
    } else if v > hi {
        hi
    } else {
        v
    }
}

/// One coordinate of the pointer when its canvas goes from `old` to `new`
/// cells along that axis (both non-zero): scaled in proportion (the product
/// saturating at `usize::MAX`) when the canvas was resized along either axis,
/// and in either case kept inside.
pub open spec fn rescaled(v: int, old: int, new: int, resized: bool) -> int {
    if resized {
        min_of(min_of(v * new, usize::MAX as int) / old, new - 1)
    } else {
        min_of(v, new - 1)
    }
}

impl PointerState {
    /// Whether the pointer lies on its canvas.
    pub open spec fn on_canvas(&self) -> bool {
        self.width > 0 && self.height > 0 ==> self.x < self.width && self.y < self.height
    }

    /// Fits the pointer to a canvas of `width` by `height` cells. An empty
    /// canvas forgets its size and what lay under the pointer. Returns whether
    /// the hover needs to be worked out again (the pointer is on and the canvas
    /// is not empty).
    pub fn set_canvas(&mut self, width: usize, height: usize) -> (rehover: bool)
        ensures
            width == 0 || height == 0 ==> {
                &&& final(self).width == 0 && final(self).height == 0
                &&& final(self).x == old(self).x && final(self).y == old(self).y
                &&& final(self).hovered is None && final(self).hits@.len() == 0
                &&& !rehover
            },
            width > 0 && height > 0 ==> {
                &&& final(self).width == width && final(self).height == height
                &&& old(self).width == 0 || old(self).height == 0 ==> final(self).x == width / 2
                    && final(self).y == height / 2
                &&& old(self).width > 0 && old(self).height > 0 ==> final(self).x == rescaled(
                    old(self).x as int,
                    old(self).width as int,
                    width as int,
                    old(self).width != width || old(self).height != height,
                ) && final(self).y == rescaled(
                    old(self).y as int,
                    old(self).height as int,
                    height as int,
                    old(self).width != width || old(self).height != height,
                )
                &&& final(self).hovered == old(self).hovered && final(self).hits@ == old(
                    self,
                ).hits@
                &&& rehover == old(self).active
            },
            final(self).active == old(self).active,
            final(self).on_canvas(),
    {
        if width == 0 || height == 0 {
            self.width = 0;
            self.height = 0;
            self.hovered = None;
            self.hits.clear();
            return false;
        }
        if self.width == 0 || self.height == 0 {
            self.x = width / 2;
            self.y = height / 2;
        } else if self.width != width || self.height != height {
            let px = match self.x.checked_mul(width) {
                Some(p) => p,
                None => usize::MAX,
            };
            let py = match self.y.checked_mul(height) {
                Some(p) => p,
                None => usize::MAX,
            };
            let sx = px / self.width;
            let sy = py / self.height;
            self.x = if sx < width - 1 { sx } else { width - 1 };
            self.y = if sy < height - 1 { sy } else { height - 1 };
        } else {
            self.x = if self.x < width - 1 { self.x } else { width - 1 };
            self.y = if self.y < height - 1 { self.y } else { height - 1 };
        }
        self.width = width;
        self.height = height;
        self.active
    }

    /// Turns the pointer on or off. Turned on, it is kept on its canvas and
    /// what lies under it is to be worked out again (returns true); turned
    /// off, it forgets what lay under it.
    pub fn toggle(&mut self) -> (now_on: bool)
        ensures
            now_on == final(self).active,
            final(self).active == !old(self).active,
            final(self).width == old(self).width && final(self).height == old(self).height,
            final(self).active ==> {
                &&& old(self).width > 0 && old(self).height > 0 ==> final(self).x == min_of(
                    old(self).x as int,
                    old(self).width - 1,
                ) && final(self).y == min_of(old(self).y as int, old(self).height - 1)
                &&& old(self).width == 0 || old(self).height == 0 ==> final(self).x == old(self).x
                    && final(self).y == old(self).y
                &&& final(self).hovered == old(self).hovered && final(self).hits@ == old(self).hits@
            },
            !final(self).active ==> final(self).x == old(self).x && final(self).y == old(self).y
                && final(self).hovered is None && final(self).hits@.len() == 0,
            final(self).on_canvas() || !final(self).active,
    {
        self.active = !self.active;
        if self.active {
            if self.width > 0 && self.height > 0 {
                if self.x > self.width - 1 {
                    self.x = self.width - 1;
                }
                if self.y > self.height - 1 {
                    self.y = self.height - 1;
                }
            }
        } else {
            self.hovered = None;
            self.hits = Vec::new();
        }
        self.active
    }

    /// Moves the pointer by `dx` columns and `dy` rows, held to the canvas;
    /// on a canvas with no size it stays where it is.
    pub fn move_by(&mut self, dx: isize, dy: isize)
        requires
            old(self).width > 0 ==> old(self).width - 1 <= isize::MAX,
            old(self).height > 0 ==> old(self).height - 1 <= isize::MAX,
            old(self).x <= isize::MAX,
            old(self).y <= isize::MAX,
            isize::MIN <= old(self).x + dx <= isize::MAX,
            isize::MIN <= old(self).y + dy <= isize::MAX,
        ensures
            old(self).width == 0 || old(self).height == 0 ==> *final(self) == *old(self),
            old(self).width > 0 && old(self).height > 0 ==> {
                &&& final(self).x == clamp_to(old(self).x + dx, 0, old(self).width - 1)
                &&& final(self).y == clamp_to(old(self).y + dy, 0, old(self).height - 1)
                &&& final(self).width == old(self).width && final(self).height == old(self).height
                &&& final(self).active == old(self).active
                &&& final(self).hovered == old(self).hovered
                &&& final(self).hits@ == old(self).hits@
            },
            final(self).on_canvas(),
    {
        if self.width == 0 || self.height == 0 {
            return;
        }
        let nx: isize = self.x as isize + dx;
        let ny: isize = self.y as isize + dy;
        let max_x: isize = (self.width - 1) as isize;
        let max_y: isize = (self.height - 1) as isize;
        self.x = if nx < 0 {
            0
        } else if nx > max_x {
            max_x as usize
        } else {
            nx as usize
        };
        self.y = if ny < 0 {
            0
        } else if ny > max_y {
            max_y as usize
        } else {
            ny as usize
        };
    }
}

// ---------------------------------------------------------------------------
// City presets
// ---------------------------------------------------------------------------

/// A city the observer can pick. Coordinates are in ten-thousandths of a
/// degree, the precision at which the presets are written.
#[derive(Debug, Clone, Copy, PartialEq, Eq)]
pub struct Preset {
    pub en: &'static str,
    pub zh: &'static str,
    pub latitude_e4: i32,
    pub longitude_e4: i32,
    pub timezone: &'static str,
    pub custom: bool,
}

impl View for Preset {
    type V = (Seq<char>, Seq<char>, i32, i32, Seq<char>, bool);

    open spec fn view(&self) -> (Seq<char>, Seq<char>, i32, i32, Seq<char>, bool) {
        (self.en@, self.zh@, self.latitude_e4, self.longitude_e4, self.timezone@, self.custom)
    }
}

pub open spec fn presets_view(v: Seq<Preset>) -> Seq<(Seq<char>, Seq<char>, i32, i32, Seq<char>, bool)> {
    v.map_values(|p: Preset| p@)
}

/// The city presets: English name, Chinese name, latitude and longitude in
/// ten-thousandths of a degree, IANA timezone, and whether the entry is the
/// custom-location placeholder.
pub open spec fn preset_table() -> Seq<(Seq<char>, Seq<char>, i32, i32, Seq<char>, bool)> {
    seq![
        ("Shanghai"@, "上海"@, 312304i32, 1214737i32, "Asia/Shanghai"@, false),
        ("Beijing"@, "北京"@, 399042i32, 1164074i32, "Asia/Shanghai"@, false),
        ("Guangzhou"@, "广州"@, 231291i32, 1132644i32, "Asia/Shanghai"@, false),
        ("Shenzhen"@, "深圳"@, 225431i32, 1140579i32, "Asia/Shanghai"@, false),
        ("Hangzhou"@, "杭州"@, 302741i32, 1201551i32, "Asia/Shanghai"@, false),
        ("Nanjing"@, "南京"@, 320603i32, 1187969i32, "Asia/Shanghai"@, false),
        ("Chengdu"@, "成都"@, 305728i32, 1040668i32, "Asia/Shanghai"@, false),
        ("Chongqing"@, "重庆"@, 295630i32, 1065516i32, "Asia/Shanghai"@, false),
        ("Wuhan"@, "武汉"@, 305928i32, 1143055i32, "Asia/Shanghai"@, false),
        ("Xi'an"@, "西安"@, 343416i32, 1089398i32, "Asia/Shanghai"@, false),
        ("Hong Kong"@, "香港"@, 223193i32, 1141694i32, "Asia/Hong_Kong"@, false),
        ("Taipei"@, "台北"@, 250330i32, 1215654i32, "Asia/Taipei"@, false),
        ("Urumqi"@, "乌鲁木齐"@, 438256i32, 876168i32, "Asia/Urumqi"@, false),
        ("Tokyo"@, "东京"@, 356762i32, 1396503i32, "Asia/Tokyo"@, false),
        ("Osaka"@, "大阪"@, 346937i32, 1355023i32, "Asia/Tokyo"@, false),
        ("Seoul"@, "首尔"@, 375665i32, 1269780i32, "Asia/Seoul"@, false),
        ("Singapore"@, "新加坡"@, 13521i32, 1038198i32, "Asia/Singapore"@, false),
        ("Bangkok"@, "曼谷"@, 137563i32, 1005018i32, "Asia/Bangkok"@, false),
        ("Kuala Lumpur"@, "吉隆坡"@, 31390i32, 1016869i32, "Asia/Kuala_Lumpur"@, false),
        ("Jakarta"@, "雅加达"@, -62088i32, 1068456i32, "Asia/Jakarta"@, false),
        ("Manila"@, "马尼拉"@, 145995i32, 1209842i32, "Asia/Manila"@, false),
        ("Delhi"@, "德里"@, 286139i32, 772090i32, "Asia/Kolkata"@, false),
        ("Mumbai"@, "孟买"@, 190760i32, 728777i32, "Asia/Kolkata"@, false),
        ("Dubai"@, "迪拜"@, 252048i32, 552708i32, "Asia/Dubai"@, false),
        ("Istanbul"@, "伊斯坦布尔"@, 410082i32, 289784i32, "Europe/Istanbul"@, false),
        ("London"@, "伦敦"@, 515072i32, -1276i32, "Europe/London"@, false),
        ("Paris"@, "巴黎"@, 488566i32, 23522i32, "Europe/Paris"@, false),
        ("Berlin"@, "柏林"@, 525200i32, 134050i32, "Europe/Berlin"@, false),
        ("Rome"@, "罗马"@, 419028i32, 124964i32, "Europe/Rome"@, false),
        ("Madrid"@, "马德里"@, 404168i32, -37038i32, "Europe/Madrid"@, false),
        ("Amsterdam"@, "阿姆斯特丹"@, 523676i32, 49041i32, "Europe/Amsterdam"@, false),
        ("Stockholm"@, "斯德哥尔摩"@, 593293i32, 180686i32, "Europe/Stockholm"@, false),
        ("Moscow"@, "莫斯科"@, 557558i32, 376173i32, "Europe/Moscow"@, false),
        ("New York"@, "纽约"@, 407128i32, -740060i32, "America/New_York"@, false),
        ("Boston"@, "波士顿"@, 423601i32, -710589i32, "America/New_York"@, false),
        ("Chicago"@, "芝加哥"@, 418781i32, -876298i32, "America/Chicago"@, false),
        ("Seattle"@, "西雅图"@, 476062i32, -1223321i32, "America/Los_Angeles"@, false),
        ("Los Angeles"@, "洛杉矶"@, 340522i32, -1182437i32, "America/Los_Angeles"@, false),
        ("San Francisco"@, "旧金山"@, 377749i32, -1224194i32, "America/Los_Angeles"@, false),
        ("Toronto"@, "多伦多"@, 436532i32, -793832i32, "America/Toronto"@, false),
        ("Mexico City"@, "墨西哥城"@, 194326i32, -991332i32, "America/Mexico_City"@, false),
        ("Sydney"@, "悉尼"@, -338688i32, 1512093i32, "Australia/Sydney"@, false),
        ("Melbourne"@, "墨尔本"@, -378136i32, 1449631i32, "Australia/Melbourne"@, false),
        ("Auckland"@, "奥克兰"@, -368485i32, 1747633i32, "Pacific/Auckland"@, false),
        ("Cape Town"@, "开普敦"@, -339249i32, 184241i32, "Africa/Johannesburg"@, false),
        ("Cairo"@, "开罗"@, 300444i32, 312357i32, "Africa/Cairo"@, false),
        ("Santiago"@, "圣地亚哥"@, -334489i32, -706693i32, "America/Santiago"@, false),
        ("Buenos Aires"@, "布宜诺斯艾利斯"@, -346037i32, -583816i32, "America/Argentina/Buenos_Aires"@, false),
        ("Sao Paulo"@, "圣保罗"@, -235505i32, -466333i32, "America/Sao_Paulo"@, false),
        ("Custom"@, "自定义"@, 0i32, 0i32, "UTC"@, true),
    ]
}

/// The preset cities that lie south of the equator.
pub open spec fn southern_city(name: Seq<char>) -> bool {
    name == "Jakarta"@ || name == "Sydney"@ || name == "Melbourne"@ || name == "Auckland"@
        || name == "Cape Town"@ || name == "Santiago"@ || name == "Buenos Aires"@ || name
        == "Sao Paulo"@
}

/// The preset cities that lie west of Greenwich.
pub open spec fn western_city(name: Seq<char>) -> bool {
    name == "London"@ || name == "Madrid"@ || name == "New York"@ || name == "Boston"@ || name
        == "Chicago"@ || name == "Seattle"@ || name == "Los Angeles"@ || name == "San Francisco"@
        || name == "Toronto"@ || name == "Mexico City"@ || name == "Santiago"@ || name
        == "Buenos Aires"@ || name == "Sao Paulo"@
}

/// Whether preset entry `p` puts its city in the right hemispheres: a
/// negative latitude exactly for the southern cities, a negative longitude
/// exactly for the western ones, both within the globe's range.
pub open spec fn preset_on_globe(p: (Seq<char>, Seq<char>, i32, i32, Seq<char>, bool)) -> bool {
    &&& -900000 <= p.2 <= 900000
    &&& -1800000 <= p.3 <= 1800000
    &&& (p.2 < 0) == southern_city(p.0)
    &&& (p.3 < 0) == western_city(p.0)
}

/// Every city preset lies in its own hemispheres: the southern cities
/// (Sydney, Melbourne, Auckland, Cape Town, Santiago, Buenos Aires, Sao Paulo,
/// Jakarta) have a negative latitude and no other has, the cities west of
/// Greenwich a negative longitude and no other has.
pub proof fn lemma_presets_on_globe()
    ensures
        forall|i: int| 0 <= i < preset_table().len() - 1 ==> preset_on_globe(#[trigger] preset_table()[i]),
        preset_table().len() == PRESET_COUNT,
{
    reveal_strlit("Shanghai");
    reveal_strlit("Beijing");
    reveal_strlit("Guangzhou");
    reveal_strlit("Shenzhen");
    reveal_strlit("Hangzhou");
    reveal_strlit("Nanjing");
    reveal_strlit("Chengdu");
    reveal_strlit("Chongqing");
    reveal_strlit("Wuhan");
    reveal_strlit("Xi'an");
    reveal_strlit("Hong Kong");
    reveal_strlit("Taipei");
    reveal_strlit("Urumqi");
    reveal_strlit("Tokyo");
    reveal_strlit("Osaka");
    reveal_strlit("Seoul");
    reveal_strlit("Singapore");
    reveal_strlit("Bangkok");
    reveal_strlit("Kuala Lumpur");
    reveal_strlit("Jakarta");
    reveal_strlit("Manila");
    reveal_strlit("Delhi");
    reveal_strlit("Mumbai");
    reveal_strlit("Dubai");
    reveal_strlit("Istanbul");
    reveal_strlit("London");
    reveal_strlit("Paris");
    reveal_strlit("Berlin");
    reveal_strlit("Rome");
    reveal_strlit("Madrid");
    reveal_strlit("Amsterdam");
    reveal_strlit("Stockholm");
    reveal_strlit("Moscow");
    reveal_strlit("New York");
    reveal_strlit("Boston");
    reveal_strlit("Chicago");
    reveal_strlit("Seattle");
    reveal_strlit("Los Angeles");
    reveal_strlit("San Francisco");
    reveal_strlit("Toronto");
    reveal_strlit("Mexico City");
    reveal_strlit("Sydney");
    reveal_strlit("Melbourne");
    reveal_strlit("Auckland");
    reveal_strlit("Cape Town");
    reveal_strlit("Cairo");
    reveal_strlit("Santiago");
    reveal_strlit("Buenos Aires");
    reveal_strlit("Sao Paulo");
    // Each city's name, and where it shares its length with a classified
    // name, a letter that tells the two apart.
    assert(preset_table()[0].0 == "Shanghai"@);
    assert(
        "Shanghai"@[0] != "Auckland"@[0]
        && "Shanghai"@[0] != "New York"@[0]
        && "Shanghai"@[1] != "Santiago"@[1]
    );
    assert(preset_on_globe(preset_table()[0]));
    assert(preset_table()[1].0 == "Beijing"@);
    assert(
        "Beijing"@[0] != "Chicago"@[0]
        && "Beijing"@[0] != "Jakarta"@[0]
        && "Beijing"@[0] != "Seattle"@[0]
        && "Beijing"@[0] != "Toronto"@[0]
    );
    assert(preset_on_globe(preset_table()[1]));
    assert(preset_table()[2].0 == "Guangzhou"@);
    assert(
        "Guangzhou"@[0] != "Cape Town"@[0]
        && "Guangzhou"@[0] != "Melbourne"@[0]
        && "Guangzhou"@[0] != "Sao Paulo"@[0]
    );
    assert(preset_on_globe(preset_table()[2]));
    assert(preset_table()[3].0 == "Shenzhen"@);
    assert(
        "Shenzhen"@[0] != "Auckland"@[0]
        && "Shenzhen"@[0] != "New York"@[0]
        && "Shenzhen"@[1] != "Santiago"@[1]
    );
    assert(preset_on_globe(preset_table()[3]));
    assert(preset_table()[4].0 == "Hangzhou"@);
    assert(
        "Hangzhou"@[0] != "Auckland"@[0]
        && "Hangzhou"@[0] != "New York"@[0]
        && "Hangzhou"@[0] != "Santiago"@[0]
    );
    assert(preset_on_globe(preset_table()[4]));
    assert(preset_table()[5].0 == "Nanjing"@);
    assert(
        "Nanjing"@[0] != "Chicago"@[0]
        && "Nanjing"@[0] != "Jakarta"@[0]
        && "Nanjing"@[0] != "Seattle"@[0]
        && "Nanjing"@[0] != "Toronto"@[0]
    );
    assert(preset_on_globe(preset_table()[5]));
    assert(preset_table()[6].0 == "Chengdu"@);
    assert(
        "Chengdu"@[2] != "Chicago"@[2]
        && "Chengdu"@[0] != "Jakarta"@[0]
        && "Chengdu"@[0] != "Seattle"@[0]
        && "Chengdu"@[0] != "Toronto"@[0]
    );
    assert(preset_on_globe(preset_table()[6]));
    assert(preset_table()[7].0 == "Chongqing"@);
    assert(
        "Chongqing"@[1] != "Cape Town"@[1]
        && "Chongqing"@[0] != "Melbourne"@[0]
        && "Chongqing"@[0] != "Sao Paulo"@[0]
    );
    assert(preset_on_globe(preset_table()[7]));
    assert(preset_table()[8].0 == "Wuhan"@);
    assert(preset_on_globe(preset_table()[8]));
    assert(preset_table()[9].0 == "Xi'an"@);
    assert(preset_on_globe(preset_table()[9]));
    assert(preset_table()[10].0 == "Hong Kong"@);
    assert(
        "Hong Kong"@[0] != "Cape Town"@[0]
        && "Hong Kong"@[0] != "Melbourne"@[0]
        && "Hong Kong"@[0] != "Sao Paulo"@[0]
    );
    assert(preset_on_globe(preset_table()[10]));
    assert(preset_table()[11].0 == "Taipei"@);
    assert(
        "Taipei"@[0] != "Boston"@[0]
        && "Taipei"@[0] != "London"@[0]
        && "Taipei"@[0] != "Madrid"@[0]
        && "Taipei"@[0] != "Sydney"@[0]
    );
    assert(preset_on_globe(preset_table()[11]));
    assert(preset_table()[12].0 == "Urumqi"@);
    assert(
        "Urumqi"@[0] != "Boston"@[0]
        && "Urumqi"@[0] != "London"@[0]
        && "Urumqi"@[0] != "Madrid"@[0]
        && "Urumqi"@[0] != "Sydney"@[0]
    );
    assert(preset_on_globe(preset_table()[12]));
    assert(preset_table()[13].0 == "Tokyo"@);
    assert(preset_on_globe(preset_table()[13]));
    assert(preset_table()[14].0 == "Osaka"@);
    assert(preset_on_globe(preset_table()[14]));
    assert(preset_table()[15].0 == "Seoul"@);
    assert(preset_on_globe(preset_table()[15]));
    assert(preset_table()[16].0 == "Singapore"@);
    assert(
        "Singapore"@[0] != "Cape Town"@[0]
        && "Singapore"@[0] != "Melbourne"@[0]
        && "Singapore"@[1] != "Sao Paulo"@[1]
    );
    assert(preset_on_globe(preset_table()[16]));
    assert(preset_table()[17].0 == "Bangkok"@);
    assert(
        "Bangkok"@[0] != "Chicago"@[0]
        && "Bangkok"@[0] != "Jakarta"@[0]
        && "Bangkok"@[0] != "Seattle"@[0]
        && "Bangkok"@[0] != "Toronto"@[0]
    );
    assert(preset_on_globe(preset_table()[17]));
    assert(preset_table()[18].0 == "Kuala Lumpur"@);
    assert("Kuala Lumpur"@[0] != "Buenos Aires"@[0]);
    assert(preset_on_globe(preset_table()[18]));
    assert(preset_table()[19].0 == "Jakarta"@);
    assert(
        "Jakarta"@[0] != "Chicago"@[0]
        && "Jakarta"@[0] != "Seattle"@[0]
        && "Jakarta"@[0] != "Toronto"@[0]
    );
    assert(preset_on_globe(preset_table()[19]));
    assert(preset_table()[20].0 == "Manila"@);
    assert(
        "Manila"@[0] != "Boston"@[0]
        && "Manila"@[0] != "London"@[0]
        && "Manila"@[2] != "Madrid"@[2]
        && "Manila"@[0] != "Sydney"@[0]
    );
    assert(preset_on_globe(preset_table()[20]));
    assert(preset_table()[21].0 == "Delhi"@);
    assert(preset_on_globe(preset_table()[21]));
    assert(preset_table()[22].0 == "Mumbai"@);
    assert(
        "Mumbai"@[0] != "Boston"@[0]
        && "Mumbai"@[0] != "London"@[0]
        && "Mumbai"@[1] != "Madrid"@[1]
        && "Mumbai"@[0] != "Sydney"@[0]
    );
    assert(preset_on_globe(preset_table()[22]));
    assert(preset_table()[23].0 == "Dubai"@);
    assert(preset_on_globe(preset_table()[23]));
    assert(preset_table()[24].0 == "Istanbul"@);
    assert(
        "Istanbul"@[0] != "Auckland"@[0]
        && "Istanbul"@[0] != "New York"@[0]
        && "Istanbul"@[0] != "Santiago"@[0]
    );
    assert(preset_on_globe(preset_table()[24]));
    assert(preset_table()[25].0 == "London"@);
    assert(
        "London"@[0] != "Boston"@[0]
        && "London"@[0] != "Madrid"@[0]
        && "London"@[0] != "Sydney"@[0]
    );
    assert(preset_on_globe(preset_table()[25]));
    assert(preset_table()[26].0 == "Paris"@);
    assert(preset_on_globe(preset_table()[26]));
    assert(preset_table()[27].0 == "Berlin"@);
    assert(
        "Berlin"@[1] != "Boston"@[1]
        && "Berlin"@[0] != "London"@[0]
        && "Berlin"@[0] != "Madrid"@[0]
        && "Berlin"@[0] != "Sydney"@[0]
    );
    assert(preset_on_globe(preset_table()[27]));
    assert(preset_table()[28].0 == "Rome"@);
    assert(preset_on_globe(preset_table()[28]));
    assert(preset_table()[29].0 == "Madrid"@);
    assert(
        "Madrid"@[0] != "Boston"@[0]
        && "Madrid"@[0] != "London"@[0]
        && "Madrid"@[0] != "Sydney"@[0]
    );
    assert(preset_on_globe(preset_table()[29]));
    assert(preset_table()[30].0 == "Amsterdam"@);
    assert(
        "Amsterdam"@[0] != "Cape Town"@[0]
        && "Amsterdam"@[0] != "Melbourne"@[0]
        && "Amsterdam"@[0] != "Sao Paulo"@[0]
    );
    assert(preset_on_globe(preset_table()[30]));
    assert(preset_table()[31].0 == "Stockholm"@);
    assert(
        "Stockholm"@[0] != "Cape Town"@[0]
        && "Stockholm"@[0] != "Melbourne"@[0]
        && "Stockholm"@[1] != "Sao Paulo"@[1]
    );
    assert(preset_on_globe(preset_table()[31]));
    assert(preset_table()[32].0 == "Moscow"@);
    assert(
        "Moscow"@[0] != "Boston"@[0]
        && "Moscow"@[0] != "London"@[0]
        && "Moscow"@[1] != "Madrid"@[1]
        && "Moscow"@[0] != "Sydney"@[0]
    );
    assert(preset_on_globe(preset_table()[32]));
    assert(preset_table()[33].0 == "New York"@);
    assert("New York"@[0] != "Auckland"@[0] && "New York"@[0] != "Santiago"@[0]);
    assert(preset_on_globe(preset_table()[33]));
    assert(preset_table()[34].0 == "Boston"@);
    assert(
        "Boston"@[0] != "London"@[0]
        && "Boston"@[0] != "Madrid"@[0]
        && "Boston"@[0] != "Sydney"@[0]
    );
    assert(preset_on_globe(preset_table()[34]));
    assert(preset_table()[35].0 == "Chicago"@);
    assert(
        "Chicago"@[0] != "Jakarta"@[0]
        && "Chicago"@[0] != "Seattle"@[0]
        && "Chicago"@[0] != "Toronto"@[0]
    );
    assert(preset_on_globe(preset_table()[35]));
    assert(preset_table()[36].0 == "Seattle"@);
    assert(
        "Seattle"@[0] != "Chicago"@[0]
        && "Seattle"@[0] != "Jakarta"@[0]
        && "Seattle"@[0] != "Toronto"@[0]
    );
    assert(preset_on_globe(preset_table()[36]));
    assert(preset_table()[37].0 == "Los Angeles"@);
    assert("Los Angeles"@[0] != "Mexico City"@[0]);
    assert(preset_on_globe(preset_table()[37]));
    assert(preset_table()[38].0 == "San Francisco"@);
    assert(preset_on_globe(preset_table()[38]));
    assert(preset_table()[39].0 == "Toronto"@);
    assert(
        "Toronto"@[0] != "Chicago"@[0]
        && "Toronto"@[0] != "Jakarta"@[0]
        && "Toronto"@[0] != "Seattle"@[0]
    );
    assert(preset_on_globe(preset_table()[39]));
    assert(preset_table()[40].0 == "Mexico City"@);
    assert("Mexico City"@[0] != "Los Angeles"@[0]);
    assert(preset_on_globe(preset_table()[40]));
    assert(preset_table()[41].0 == "Sydney"@);
    assert(
        "Sydney"@[0] != "Boston"@[0]
        && "Sydney"@[0] != "London"@[0]
        && "Sydney"@[0] != "Madrid"@[0]
    );
    assert(preset_on_globe(preset_table()[41]));
    assert(preset_table()[42].0 == "Melbourne"@);
    assert("Melbourne"@[0] != "Cape Town"@[0] && "Melbourne"@[0] != "Sao Paulo"@[0]);
    assert(preset_on_globe(preset_table()[42]));
    assert(preset_table()[43].0 == "Auckland"@);
    assert("Auckland"@[0] != "New York"@[0] && "Auckland"@[0] != "Santiago"@[0]);
    assert(preset_on_globe(preset_table()[43]));
    assert(preset_table()[44].0 == "Cape Town"@);
    assert("Cape Town"@[0] != "Melbourne"@[0] && "Cape Town"@[0] != "Sao Paulo"@[0]);
    assert(preset_on_globe(preset_table()[44]));
    assert(preset_table()[45].0 == "Cairo"@);
    assert(preset_on_globe(preset_table()[45]));
    assert(preset_table()[46].0 == "Santiago"@);
    assert("Santiago"@[0] != "Auckland"@[0] && "Santiago"@[0] != "New York"@[0]);
    assert(preset_on_globe(preset_table()[46]));
    assert(preset_table()[47].0 == "Buenos Aires"@);
    assert(preset_on_globe(preset_table()[47]));
    assert(preset_table()[48].0 == "Sao Paulo"@);
    assert("Sao Paulo"@[0] != "Cape Town"@[0] && "Sao Paulo"@[0] != "Melbourne"@[0]);
    assert(preset_on_globe(preset_table()[48]));
    assert forall|i: int| 0 <= i < preset_table().len() - 1 implies preset_on_globe(#[trigger] preset_table()[i]) by {
        assert(i == 0 || i == 1 || i == 2 || i == 3 || i == 4 || i == 5 || i == 6 || i == 7 || i == 8 || i == 9 || i == 10 || i == 11 || i == 12 || i == 13 || i == 14 || i == 15 || i == 16 || i == 17 || i == 18 || i == 19 || i == 20 || i == 21 || i == 22 || i == 23 || i == 24 || i == 25 || i == 26 || i == 27 || i == 28 || i == 29 || i == 30 || i == 31 || i == 32 || i == 33 || i == 34 || i == 35 || i == 36 || i == 37 || i == 38 || i == 39 || i == 40 || i == 41 || i == 42 || i == 43 || i == 44 || i == 45 || i == 46 || i == 47 || i == 48);
    }
}

/// Number of city presets, the custom placeholder included.
pub const PRESET_COUNT: usize = 50;

/// The city presets (`PRESETS`).
pub fn presets() -> (t: Vec<Preset>)
    ensures
        presets_view(t@) == preset_table(),
        t.len() == PRESET_COUNT,
{
    let mut t: Vec<Preset> = Vec::new();
    t.push(Preset { en: "Shanghai", zh: "上海", latitude_e4: 312304, longitude_e4: 1214737, timezone: "Asia/Shanghai", custom: false });
    t.push(Preset { en: "Beijing", zh: "北京", latitude_e4: 399042, longitude_e4: 1164074, timezone: "Asia/Shanghai", custom: false });
    t.push(Preset { en: "Guangzhou", zh: "广州", latitude_e4: 231291, longitude_e4: 1132644, timezone: "Asia/Shanghai", custom: false });
    t.push(Preset { en: "Shenzhen", zh: "深圳", latitude_e4: 225431, longitude_e4: 1140579, timezone: "Asia/Shanghai", custom: false });
    t.push(Preset { en: "Hangzhou", zh: "杭州", latitude_e4: 302741, longitude_e4: 1201551, timezone: "Asia/Shanghai", custom: false });
    t.push(Preset { en: "Nanjing", zh: "南京", latitude_e4: 320603, longitude_e4: 1187969, timezone: "Asia/Shanghai", custom: false });
    t.push(Preset { en: "Chengdu", zh: "成都", latitude_e4: 305728, longitude_e4: 1040668, timezone: "Asia/Shanghai", custom: false });
    t.push(Preset { en: "Chongqing", zh: "重庆", latitude_e4: 295630, longitude_e4: 1065516, timezone: "Asia/Shanghai", custom: false });
    t.push(Preset { en: "Wuhan", zh: "武汉", latitude_e4: 305928, longitude_e4: 1143055, timezone: "Asia/Shanghai", custom: false });
    t.push(Preset { en: "Xi'an", zh: "西安", latitude_e4: 343416, longitude_e4: 1089398, timezone: "Asia/Shanghai", custom: false });
    t.push(Preset { en: "Hong Kong", zh: "香港", latitude_e4: 223193, longitude_e4: 1141694, timezone: "Asia/Hong_Kong", custom: false });
    t.push(Preset { en: "Taipei", zh: "台北", latitude_e4: 250330, longitude_e4: 1215654, timezone: "Asia/Taipei", custom: false });
    t.push(Preset { en: "Urumqi", zh: "乌鲁木齐", latitude_e4: 438256, longitude_e4: 876168, timezone: "Asia/Urumqi", custom: false });
    t.push(Preset { en: "Tokyo", zh: "东京", latitude_e4: 356762, longitude_e4: 1396503, timezone: "Asia/Tokyo", custom: false });
    t.push(Preset { en: "Osaka", zh: "大阪", latitude_e4: 346937, longitude_e4: 1355023, timezone: "Asia/Tokyo", custom: false });
    t.push(Preset { en: "Seoul", zh: "首尔", latitude_e4: 375665, longitude_e4: 1269780, timezone: "Asia/Seoul", custom: false });
    t.push(Preset { en: "Singapore", zh: "新加坡", latitude_e4: 13521, longitude_e4: 1038198, timezone: "Asia/Singapore", custom: false });
    t.push(Preset { en: "Bangkok", zh: "曼谷", latitude_e4: 137563, longitude_e4: 1005018, timezone: "Asia/Bangkok", custom: false });
    t.push(Preset { en: "Kuala Lumpur", zh: "吉隆坡", latitude_e4: 31390, longitude_e4: 1016869, timezone: "Asia/Kuala_Lumpur", custom: false });
    t.push(Preset { en: "Jakarta", zh: "雅加达", latitude_e4: -62088, longitude_e4: 1068456, timezone: "Asia/Jakarta", custom: false });
    t.push(Preset { en: "Manila", zh: "马尼拉", latitude_e4: 145995, longitude_e4: 1209842, timezone: "Asia/Manila", custom: false });
    t.push(Preset { en: "Delhi", zh: "德里", latitude_e4: 286139, longitude_e4: 772090, timezone: "Asia/Kolkata", custom: false });
    t.push(Preset { en: "Mumbai", zh: "孟买", latitude_e4: 190760, longitude_e4: 728777, timezone: "Asia/Kolkata", custom: false });
    t.push(Preset { en: "Dubai", zh: "迪拜", latitude_e4: 252048, longitude_e4: 552708, timezone: "Asia/Dubai", custom: false });
    t.push(Preset { en: "Istanbul", zh: "伊斯坦布尔", latitude_e4: 410082, longitude_e4: 289784, timezone: "Europe/Istanbul", custom: false });
    t.push(Preset { en: "London", zh: "伦敦", latitude_e4: 515072, longitude_e4: -1276, timezone: "Europe/London", custom: false });
    t.push(Preset { en: "Paris", zh: "巴黎", latitude_e4: 488566, longitude_e4: 23522, timezone: "Europe/Paris", custom: false });
    t.push(Preset { en: "Berlin", zh: "柏林", latitude_e4: 525200, longitude_e4: 134050, timezone: "Europe/Berlin", custom: false });
    t.push(Preset { en: "Rome", zh: "罗马", latitude_e4: 419028, longitude_e4: 124964, timezone: "Europe/Rome", custom: false });
    t.push(Preset { en: "Madrid", zh: "马德里", latitude_e4: 404168, longitude_e4: -37038, timezone: "Europe/Madrid", custom: false });
    t.push(Preset { en: "Amsterdam", zh: "阿姆斯特丹", latitude_e4: 523676, longitude_e4: 49041, timezone: "Europe/Amsterdam", custom: false });
    t.push(Preset { en: "Stockholm", zh: "斯德哥尔摩", latitude_e4: 593293, longitude_e4: 180686, timezone: "Europe/Stockholm", custom: false });
    t.push(Preset { en: "Moscow", zh: "莫斯科", latitude_e4: 557558, longitude_e4: 376173, timezone: "Europe/Moscow", custom: false });
    t.push(Preset { en: "New York", zh: "纽约", latitude_e4: 407128, longitude_e4: -740060, timezone: "America/New_York", custom: false });
    t.push(Preset { en: "Boston", zh: "波士顿", latitude_e4: 423601, longitude_e4: -710589, timezone: "America/New_York", custom: false });
    t.push(Preset { en: "Chicago", zh: "芝加哥", latitude_e4: 418781, longitude_e4: -876298, timezone: "America/Chicago", custom: false });
    t.push(Preset { en: "Seattle", zh: "西雅图", latitude_e4: 476062, longitude_e4: -1223321, timezone: "America/Los_Angeles", custom: false });
    t.push(Preset { en: "Los Angeles", zh: "洛杉矶", latitude_e4: 340522, longitude_e4: -1182437, timezone: "America/Los_Angeles", custom: false });
    t.push(Preset { en: "San Francisco", zh: "旧金山", latitude_e4: 377749, longitude_e4: -1224194, timezone: "America/Los_Angeles", custom: false });
    t.push(Preset { en: "Toronto", zh: "多伦多", latitude_e4: 436532, longitude_e4: -793832, timezone: "America/Toronto", custom: false });
    t.push(Preset { en: "Mexico City", zh: "墨西哥城", latitude_e4: 194326, longitude_e4: -991332, timezone: "America/Mexico_City", custom: false });
    t.push(Preset { en: "Sydney", zh: "悉尼", latitude_e4: -338688, longitude_e4: 1512093, timezone: "Australia/Sydney", custom: false });
    t.push(Preset { en: "Melbourne", zh: "墨尔本", latitude_e4: -378136, longitude_e4: 1449631, timezone: "Australia/Melbourne", custom: false });
    t.push(Preset { en: "Auckland", zh: "奥克兰", latitude_e4: -368485, longitude_e4: 1747633, timezone: "Pacific/Auckland", custom: false });
    t.push(Preset { en: "Cape Town", zh: "开普敦", latitude_e4: -339249, longitude_e4: 184241, timezone: "Africa/Johannesburg", custom: false });
    t.push(Preset { en: "Cairo", zh: "开罗", latitude_e4: 300444, longitude_e4: 312357, timezone: "Africa/Cairo", custom: false });
    t.push(Preset { en: "Santiago", zh: "圣地亚哥", latitude_e4: -334489, longitude_e4: -706693, timezone: "America/Santiago", custom: false });
    t.push(Preset { en: "Buenos Aires", zh: "布宜诺斯艾利斯", latitude_e4: -346037, longitude_e4: -583816, timezone: "America/Argentina/Buenos_Aires", custom: false });
    t.push(Preset { en: "Sao Paulo", zh: "圣保罗", latitude_e4: -235505, longitude_e4: -466333, timezone: "America/Sao_Paulo", custom: false });
    t.push(Preset { en: "Custom", zh: "自定义", latitude_e4: 0, longitude_e4: 0, timezone: "UTC", custom: true });
    assert(presets_view(t@) =~= preset_table());
    t
}

/// Name of a preset in `language`.
pub open spec fn preset_name(p: (Seq<char>, Seq<char>, i32, i32, Seq<char>, bool), language: Language) -> Seq<char> {
    match language {
        Language::En => p.0,
        Language::Zh => p.1,
    }
}

/// Name of `preset` in `language`.
pub fn preset_display_name(preset: &Preset, language: Language) -> (r: &'static str)
    ensures
        r@ == preset_name(preset@, language),
{
    match language {
        Language::En => preset.en,
        Language::Zh => preset.zh,
    }
}

/// The location form of the setup screen.
#[derive(Debug, Clone)]
pub struct SetupState {
    pub preset_index: usize,
    pub preset_query: String,
    pub field: usize,
    pub name: String,
    pub latitude: String,
    pub longitude: String,
    pub timezone: String,
}

impl SetupState {
    /// Name of the chosen preset in `language`; an index past the list names
    /// the last preset, the custom placeholder.
    pub fn preset_label(&self, language: Language) -> (r: &'static str)
        ensures
            r@ == preset_name(
                preset_table()[if self.preset_index < PRESET_COUNT {
                    self.preset_index as int
                } else {
                    PRESET_COUNT - 1
                }],
                language,
            ),
    {
        let mut t = presets();
        let i = if self.preset_index < t.len() {
            self.preset_index
        } else {
            t.len() - 1
        };
        assert(presets_view(t@)[i as int] == t@[i as int]@);
        let p = t.remove(i);
        preset_display_name(&p, language)
    }
}

/// Indices of the real cities among the presets, in order.
pub open spec fn city_positions(t: Seq<(Seq<char>, Seq<char>, i32, i32, Seq<char>, bool)>) -> Seq<usize>
    decreases t.len(),
{
    if t.len() == 0 {
        Seq::empty()
    } else if t.last().5 {
        city_positions(t.drop_last())
    } else {
        city_positions(t.drop_last()).push((t.len() - 1) as usize)
    }
}

/// Indices of every preset that is a real city.
pub fn city_indices() -> (r: Vec<usize>)
    ensures
        r@ == city_positions(preset_table()),
{
    let t = presets();
    let ghost tv = presets_view(t@);
    let mut r: Vec<usize> = Vec::new();
    let mut i: usize = 0;
    while i < t.len()
        invariant
            i <= t.len(),
            tv == presets_view(t@),
            tv == preset_table(),
            r@ == city_positions(tv.take(i as int)),
        decreases t.len() - i,
    {
        assert(tv.take(i + 1).drop_last() =~= tv.take(i as int));
        assert(tv.take(i + 1).last() == t[i as int]@);
        if !t[i].custom {
            r.push(i);
        }
        i = i + 1;
    }
    assert(tv.take(t.len() as int) =~= tv);
    r
}

// ---------------------------------------------------------------------------
// City search
// ---------------------------------------------------------------------------

/// Whether one name of a city matches a (trimmed) query: the lowercased
/// name holds the lowercased query, or, with white space removed from both,
/// holds the query's non-empty compact form.
pub open spec fn name_matches(value: Seq<char>, query: Seq<char>) -> bool {
    let needle = lowercase(query);
    let compact_needle = drop_ws(needle);
    let hay = lowercase(value);
    has_sub(hay, needle) || (compact_needle.len() > 0 && has_sub(drop_ws(hay), compact_needle))
}

/// Whether a city matches by its English name, Chinese name or timezone.
pub open spec fn city_matches(p: (Seq<char>, Seq<char>, i32, i32, Seq<char>, bool), query: Seq<char>) -> bool {
    name_matches(p.0, query) || name_matches(p.1, query) || name_matches(p.4, query)
}

fn lowercase_chars(s: &str) -> (r: Vec<char>)
    ensures
        r@ == lowercase(s@),
{
    let l = to_lowercase(s);
    chars_of(l.as_str())
}

fn name_matches_exec(value: &str, needle: &Vec<char>, compact_needle: &Vec<char>) -> (r: bool)
    requires
        compact_needle@ == drop_ws(needle@),
    ensures
        r == (has_sub(lowercase(value@), needle@) || (compact_needle@.len() > 0 && has_sub(
            drop_ws(lowercase(value@)),
            compact_needle@,
        ))),
{
    let hay = lowercase_chars(value);
    if contains_sub(&hay, needle) {
        return true;
    }
    if compact_needle.len() == 0 {
        return false;
    }
    let compact_hay = drop_ws_chars(&hay);
    contains_sub(&compact_hay, compact_needle)
}

/// Whether `preset` matches the trimmed query `query`.
pub fn city_matches_query(preset: &Preset, query: &str) -> (r: bool)
    ensures
        r == city_matches(preset@, query@),
{
    let needle = lowercase_chars(query);
    let compact_needle = drop_ws_chars(&needle);
    name_matches_exec(preset.en, &needle, &compact_needle) || name_matches_exec(
        preset.zh,
        &needle,
        &compact_needle,
    ) || name_matches_exec(preset.timezone, &needle, &compact_needle)
}

/// Four decimal digits of `n`, with leading zeros.
pub open spec fn four_digits(n: nat) -> Seq<char> {
    seq![
        digit_char((n / 1000) % 10),
        digit_char((n / 100) % 10),
        digit_char((n / 10) % 10),
        digit_char(n % 10),
    ]
}

/// A coordinate in ten-thousandths of a degree written with four decimals,
/// as `{:.4}` writes the degree value: a minus sign for negative values, the
/// whole degrees, a point and four digits.
pub open spec fn fixed4(v: int) -> Seq<char> {
    let a = if v < 0 {
        -v
    } else {
        v
    };
    (if v < 0 {
        seq!['-']
    } else {
        Seq::empty()
    }) + decimal((a / 10000) as nat) + seq!['.'] + four_digits((a % 10000) as nat)
}

/// The same with a sign always written, as `{:+.4}` does.
pub open spec fn signed_fixed4(v: int) -> Seq<char> {
    if v < 0 {
        fixed4(v)
    } else {
        seq!['+'] + fixed4(v)
    }
}

fn digit_of(d: u32) -> (c: char)
    requires
        d < 10,
    ensures
        c == digit_char(d as nat),
{
    let b = (d as u8) + 48;
    b as char
}

/// The fixed-offset zone for a whole-hour offset east of Greenwich: `UTC`,
/// or `Etc/GMT-<n>` east and `Etc/GMT+<n>` west (the IANA names carry the
/// sign reversed).
pub open spec fn offset_zone_name(offset: int) -> Seq<char> {
    if offset == 0 {
        "UTC"@
    } else if offset > 0 {
        "Etc/GMT-"@ + decimal(offset as nat)
    } else {
        "Etc/GMT+"@ + decimal((-offset) as nat)
    }
}

/// The timezone a globe preview gets from its offset in whole hours, which
/// lies between -12 and 12.
pub fn offset_timezone(offset: i32) -> (r: String)
    requires
        -12 <= offset <= 12,
    ensures
        r@ == offset_zone_name(offset as int),
{
    proof {
        reveal_strlit("UTC");
        reveal_strlit("Etc/GMT-");
        reveal_strlit("Etc/GMT+");
    }
    if offset == 0 {
        return String::from_str("UTC");
    }
    let mut out: Vec<char> = Vec::new();
    if offset > 0 {
        push_str(&mut out, "Etc/GMT-");
        push_decimal(offset as u32, &mut out);
    } else {
        push_str(&mut out, "Etc/GMT+");
        push_decimal((-offset) as u32, &mut out);
    }
    string_from(out.as_slice())
}

/// Appends a coordinate in ten-thousandths of a degree with four decimals.
pub fn push_fixed4(v: i32, out: &mut Vec<char>)
    ensures
        final(out)@ == old(out)@ + fixed4(v as int),
{
    let ghost start = out@;
    let a: u32 = if v < 0 {
        (-(v as i64)) as u32
    } else {
        v as u32
    };
    if v < 0 {
        out.push('-');
    }
    let ghost mid = out@;
    push_decimal(a / 10000, out);
    out.push('.');
    let f = a % 10000;
    out.push(digit_of((f / 1000) % 10));
    out.push(digit_of((f / 100) % 10));
    out.push(digit_of((f / 10) % 10));
    out.push(digit_of(f % 10));
    assert(mid =~= start + (if v < 0 {
        seq!['-']
    } else {
        Seq::<char>::empty()
    }));
    assert(out@ =~= start + fixed4(v as int));
}

/// Appends a coordinate in ten-thousandths of a degree, signed, with four
/// decimals.
pub fn push_signed_fixed4(v: i32, out: &mut Vec<char>)
    ensures
        final(out)@ == old(out)@ + signed_fixed4(v as int),
{
    let ghost start = out@;
    if v >= 0 {
        out.push('+');
    }
    push_fixed4(v, out);
    assert(out@ =~= start + signed_fixed4(v as int));
}

/// The detail line of a city result:
/// `<English name> · <latitude> <longitude> · <timezone>`.
pub open spec fn city_detail(p: (Seq<char>, Seq<char>, i32, i32, Seq<char>, bool)) -> Seq<char> {
    p.0 + seq![' ', '\u{b7}', ' '] + signed_fixed4(p.2 as int) + seq![' '] + signed_fixed4(p.3 as int)
        + seq![' ', '\u{b7}', ' '] + p.4
}

fn city_detail_exec(p: &Preset) -> (r: String)
    ensures
        r@ == city_detail(p@),
{
    let mut out: Vec<char> = Vec::new();
    push_str(&mut out, p.en);
    out.push(' ');
    out.push('\u{b7}');
    out.push(' ');
    push_signed_fixed4(p.latitude_e4, &mut out);
    out.push(' ');
    push_signed_fixed4(p.longitude_e4, &mut out);
    out.push(' ');
    out.push('\u{b7}');
    out.push(' ');
    push_str(&mut out, p.timezone);
    assert(out@ =~= city_detail(p@));
    string_from(out.as_slice())
}

/// The city results for a query over presets `t`, whose first index is `base`.
pub open spec fn city_results_from(
    t: Seq<(Seq<char>, Seq<char>, i32, i32, Seq<char>, bool)>,
    query: Seq<char>,
    language: Language,
) -> Seq<(Seq<char>, Seq<char>, TargetView)>
    decreases t.len(),
{
    if t.len() == 0 {
        Seq::empty()
    } else {
        let rest = city_results_from(t.drop_last(), query, language);
        let p = t.last();
        if !p.5 && (query.len() == 0 || city_matches(p, query)) {
            rest.push((preset_name(p, language), city_detail(p), TargetView::City((t.len() - 1) as usize)))
        } else {
            rest
        }
    }
}

/// The city results of a search: every real city, in preset order, whose
/// names or timezone match the trimmed query (all of them when it is empty).
pub open spec fn city_results(query: Seq<char>, language: Language) -> Seq<(Seq<char>, Seq<char>, TargetView)> {
    city_results_from(preset_table(), trim(query), language)
}

/// The city results of a search for `query` in `language`.
pub fn city_search_results(query: &str, language: Language) -> (r: Vec<SearchResult>)
    ensures
        results_view(r@) == city_results(query@, language),
{
    let qv = chars_of(query);
    let qt = trim_chars(&qv);
    let q = string_from(qt.as_slice());
    let t = presets();
    let ghost tv = presets_view(t@);
    let mut r: Vec<SearchResult> = Vec::new();
    let mut i: usize = 0;
    while i < t.len()
        invariant
            i <= t.len(),
            tv == presets_view(t@),
            tv == preset_table(),
            q@ == trim(query@),
            qt@ == q@,
            results_view(r@) =~= city_results_from(tv.take(i as int), q@, language),
        decreases t.len() - i,
    {
        let p = &t[i];
        assert(tv.take(i + 1).drop_last() =~= tv.take(i as int));
        assert(tv.take(i + 1).last() == p@);
        if !p.custom && (qt.len() == 0 || city_matches_query(p, q.as_str())) {
            let label = String::from_str(preset_display_name(p, language));
            let detail = city_detail_exec(p);
            r.push(SearchResult { label, detail, target: Target::City(i) });
        }
        i = i + 1;
    }
    assert(tv.take(t.len() as int) =~= tv);
    r
}

// ---------------------------------------------------------------------------
// Cycling through a list
// ---------------------------------------------------------------------------

/// The position after `current` in a cyclic list of `len` entries; with no
/// current position, forward starts at the first entry and backward at the
/// last.
pub open spec fn next_position_spec(current: Option<usize>, len: int, forward: bool) -> int {
    match current {
        Some(p) => if forward {
            (p + 1) % len
        } else if p == 0 {
            len - 1
        } else {
            p - 1
        },
        None => if forward {
            0
        } else {
            len - 1
        },
    }
}

/// Moves one step through a cyclic list.
pub fn next_position(current: Option<usize>, len: usize, forward: bool) -> (r: usize)
    requires
        current is Some || !forward ==> len > 0,
        current matches Some(p) ==> p < usize::MAX,
    ensures
        r == next_position_spec(current, len as int, forward),
{
    match (current, forward) {
        (Some(position), true) => (position + 1) % len,
        (Some(0), false) => len - 1,
        (Some(position), false) => position - 1,
        (None, true) => 0,
        (None, false) => len - 1,
    }
}

/// The first position of `v` in `s`.
pub open spec fn first_index(s: Seq<usize>, v: usize) -> Option<usize>
    decreases s.len(),
{
    if s.len() == 0 {
        None
    } else {
        match first_index(s.drop_last(), v) {
            Some(k) => Some(k),
            None => if s.last() == v {
                Some((s.len() - 1) as usize)
            } else {
                None
            },
        }
    }
}

/// The city the tour shows next: the one after the current city among the
/// tour's `cities`, the first when the current place is not among them;
/// none when the tour has no city.
pub open spec fn next_tour_city_spec(cities: Seq<usize>, current: Option<usize>) -> Option<usize> {
    if cities.len() == 0 {
        None
    } else {
        let position = match current {
            Some(c) => first_index(cities, c),
            None => None,
        };
        Some(cities[next_position_spec(position, cities.len() as int, true)])
    }
}

/// The preset the tour moves to from the preset `current` (none when the
/// current place is no preset), as `next_tour_city_spec` says.
pub fn next_tour_city(cities: &Vec<usize>, current: Option<usize>) -> (r: Option<usize>)
    ensures
        r == next_tour_city_spec(cities@, current),
{
    if cities.len() == 0 {
        return None;
    }
    let mut position: Option<usize> = None;
    if let Some(c) = current {
        let mut k: usize = 0;
        while k < cities.len() && cities[k] != c
            invariant
                k <= cities.len(),
                first_index(cities@.take(k as int), c) is None,
            decreases cities.len() - k,
        {
            assert(cities@.take(k + 1).drop_last() =~= cities@.take(k as int));
            k = k + 1;
        }
        proof {
            lemma_first_index_prefix(cities@, c, k as int);
        }
        if k < cities.len() {
            position = Some(k);
        }
    }
    let next = next_position(position, cities.len(), true);
    proof {
        if let Some(p) = position {
            vstd::arithmetic::div_mod::lemma_mod_bound((p + 1) as int, cities.len() as int);
        }
    }
    Some(cities[next])
}

proof fn lemma_first_index_prefix(s: Seq<usize>, v: usize, k: int)
    requires
        0 <= k <= s.len(),
        first_index(s.take(k), v) is None,
        k < s.len() ==> s[k] == v,
    ensures
        first_index(s, v) == (if k < s.len() {
            Some(k as usize)
        } else {
            None::<usize>
        }),
    decreases s.len(),
{
    if k == s.len() {
        assert(s.take(k) =~= s);
    } else if k == s.len() - 1 {
        assert(s.drop_last() =~= s.take(k));
    } else {
        assert(s.drop_last().take(k) =~= s.take(k));
        lemma_first_index_prefix(s.drop_last(), v, k);
    }
}

/// Stepping forward and then backward from an entry of the list returns to
/// it, and every step lands inside the list.
pub proof fn lemma_next_position_roundtrip(p: usize, len: usize, forward: bool)
    requires
        p < len,
    ensures
        0 <= next_position_spec(Some(p), len as int, forward) < len,
        next_position_spec(
            Some(next_position_spec(Some(p), len as int, forward) as usize),
            len as int,
            !forward,
        ) == p,
{
    let n = next_position_spec(Some(p), len as int, forward);
    if forward {
        if p + 1 == len {
            vstd::arithmetic::div_mod::lemma_mod_self_0(len as int);
        } else {
            vstd::arithmetic::div_mod::lemma_small_mod((p + 1) as nat, len as nat);
        }
    } else {
        if p > 0 {
            vstd::arithmetic::div_mod::lemma_small_mod(p as nat, len as nat);
        } else {
            vstd::arithmetic::div_mod::lemma_mod_self_0(len as int);
        }
    }
}

// ---------------------------------------------------------------------------
// Constellation zoom bounds
// ---------------------------------------------------------------------------

/// A rectangle of canvas cells, inclusive on both ends.
#[derive(Debug, Clone, Copy, PartialEq, Eq, Structural)]
pub struct ZoomBounds {
    pub min_x: usize,
    pub max_x: usize,
    pub min_y: usize,
    pub max_y: usize,
}

pub open spec fn sat_sub(a: int, b: int) -> int {
    if a > b {
        a - b
    } else {
        0
    }
}

pub open spec fn min_of(a: int, b: int) -> int {
    if a < b {
        a
    } else {
        b
    }
}

pub open spec fn max_of(a: int, b: int) -> int {
    if a > b {
        a
    } else {
        b
    }
}

/// The bounds of a figure spanning `min_x..=max_x` by `min_y..=max_y`
/// widened by a third of its span on each side (at least 8 columns and 4
/// rows, the span counted as at least 1), clipped to a canvas of `width` by
/// `height` cells.
pub open spec fn expanded_bounds(
    min_x: usize,
    max_x: usize,
    min_y: usize,
    max_y: usize,
    width: usize,
    height: usize,
) -> ZoomBounds {
    let pad_x = max_of(max_of(sat_sub(max_x as int, min_x as int), 1) / 3, 8);
    let pad_y = max_of(max_of(sat_sub(max_y as int, min_y as int), 1) / 3, 4);
    ZoomBounds {
        min_x: sat_sub(min_x as int, pad_x) as usize,
        max_x: min_of(min_of(max_x + pad_x, usize::MAX as int), sat_sub(width as int, 1)) as usize,
        min_y: sat_sub(min_y as int, pad_y) as usize,
        max_y: min_of(min_of(max_y + pad_y, usize::MAX as int), sat_sub(height as int, 1)) as usize,
    }
}

impl ZoomBounds {
    /// The whole canvas of `width` by `height` cells.
    pub fn full(width: usize, height: usize) -> (r: ZoomBounds)
        ensures
            r.min_x == 0 && r.min_y == 0,
            r.max_x == sat_sub(width as int, 1),
            r.max_y == sat_sub(height as int, 1),
    {
        ZoomBounds {
            min_x: 0,
            max_x: width.saturating_sub(1),
            min_y: 0,
            max_y: height.saturating_sub(1),
        }
    }

    /// The bounds of a figure widened by a third of its span on each side (at
    /// least 8 columns and 4 rows), clipped to the canvas.
    pub fn expanded(
        min_x: usize,
        max_x: usize,
        min_y: usize,
        max_y: usize,
        width: usize,
        height: usize,
    ) -> (r: ZoomBounds)
        ensures
            r == expanded_bounds(min_x, max_x, min_y, max_y, width, height),
    {
        let span_x = if max_x > min_x {
            max_x - min_x
        } else {
            0
        };
        let span_x = if span_x > 1 {
            span_x
        } else {
            1
        };
        let span_y = if max_y > min_y {
            max_y - min_y
        } else {
            0
        };
        let span_y = if span_y > 1 {
            span_y
        } else {
            1
        };
        let pad_x = if span_x / 3 > 8 {
            span_x / 3
        } else {
            8
        };
        let pad_y = if span_y / 3 > 4 {
            span_y / 3
        } else {
            4
        };
        let wide = max_x.saturating_add(pad_x);
        let tall = max_y.saturating_add(pad_y);
        let last_x = width.saturating_sub(1);
        let last_y = height.saturating_sub(1);
        ZoomBounds {
            min_x: min_x.saturating_sub(pad_x),
            max_x: if wide < last_x {
                wide
            } else {
                last_x
            },
            min_y: min_y.saturating_sub(pad_y),
            max_y: if tall < last_y {
                tall
            } else {
                last_y
            },
        }
    }
}

/// Expanded bounds stay on the canvas and, when the figure lies on the
/// canvas, still contain it.
pub proof fn lemma_expanded_contains_figure(
    min_x: usize,
    max_x: usize,
    min_y: usize,
    max_y: usize,
    width: usize,
    height: usize,
)
    requires
        min_x <= max_x < width,
        min_y <= max_y < height,
    ensures
        ({
            let pad_x = max_of(max_of(sat_sub(max_x as int, min_x as int), 1) / 3, 8);
            let pad_y = max_of(max_of(sat_sub(max_y as int, min_y as int), 1) / 3, 4);
            let lo_x = sat_sub(min_x as int, pad_x);
            let hi_x = min_of(min_of(max_x + pad_x, usize::MAX as int), sat_sub(width as int, 1));
            let lo_y = sat_sub(min_y as int, pad_y);
            let hi_y = min_of(min_of(max_y + pad_y, usize::MAX as int), sat_sub(height as int, 1));
            &&& lo_x <= min_x && max_x <= hi_x && hi_x < width
            &&& lo_y <= min_y && max_y <= hi_y && hi_y < height
        }),
{
}


// ---------------------------------------------------------------------------
// The part of the canvas a figure zoom shows
// ---------------------------------------------------------------------------

/// A star drawn on the canvas: its number, the cell it is drawn in and the
/// constellation the catalogue puts it in.
#[derive(Debug, Clone)]
pub struct PlacedStar {
    pub hip: u32,
    pub x: usize,
    pub y: usize,
    pub constellation: String,
}

/// The cell of star `hip` among the drawn stars; when a number appears more
/// than once, the last entry counts.
pub open spec fn placed_point(v: Seq<PlacedStar>, hip: u32) -> Option<(usize, usize)>
    decreases v.len(),
{
    if v.len() == 0 {
        None
    } else if v.last().hip == hip {
        Some((v.last().x, v.last().y))
    } else {
        placed_point(v.drop_last(), hip)
    }
}

/// The drawn cells of the stars `hips`, in order, skipping stars not drawn.
pub open spec fn path_points(hips: Seq<u32>, v: Seq<PlacedStar>) -> Seq<(usize, usize)>
    decreases hips.len(),
{
    if hips.len() == 0 {
        Seq::empty()
    } else {
        let rest = path_points(hips.drop_last(), v);
        match placed_point(v, hips.last()) {
            Some(p) => rest.push(p),
            None => rest,
        }
    }
}

/// The drawn cells of the stars of every path of figure `code` (compared up
/// to ASCII case), path after path.
pub open spec fn figure_points(lines: Seq<(Seq<char>, Seq<u32>)>, v: Seq<PlacedStar>, code: Seq<char>) -> Seq<(usize, usize)>
    decreases lines.len(),
{
    if lines.len() == 0 {
        Seq::empty()
    } else {
        let rest = figure_points(lines.drop_last(), v, code);
        if eq_ignore_case(lines.last().0, code) {
            rest + path_points(lines.last().1, v)
        } else {
            rest
        }
    }
}

/// The cells of the drawn stars that the catalogue puts in constellation
/// `code` (compared up to ASCII case), in order.
pub open spec fn member_points(v: Seq<PlacedStar>, code: Seq<char>) -> Seq<(usize, usize)>
    decreases v.len(),
{
    if v.len() == 0 {
        Seq::empty()
    } else {
        let rest = member_points(v.drop_last(), code);
        if eq_ignore_case(v.last().constellation@, code) {
            rest.push((v.last().x, v.last().y))
        } else {
            rest
        }
    }
}

/// The cells that frame a zoom on `code`: its figure's star cells, and for a
/// western constellation with fewer than two of them also the cells of its
/// member stars.
pub open spec fn zoom_points(
    lines: Seq<(Seq<char>, Seq<u32>)>,
    v: Seq<PlacedStar>,
    code: Seq<char>,
    culture: SkyCulture,
) -> Seq<(usize, usize)> {
    let pts = figure_points(lines, v, code);
    if pts.len() < 2 && culture == SkyCulture::Western {
        pts + member_points(v, code)
    } else {
        pts
    }
}

/// The least and greatest column and row among `pts` (not empty).
pub open spec fn extent(pts: Seq<(usize, usize)>) -> (usize, usize, usize, usize)
    decreases pts.len(),
{
    if pts.len() <= 1 {
        (pts[0].0, pts[0].0, pts[0].1, pts[0].1)
    } else {
        widened(extent(pts.drop_last()), pts.last())
    }
}

/// A running extent grown by one cell.
pub open spec fn widened(e: (usize, usize, usize, usize), p: (usize, usize)) -> (usize, usize, usize, usize) {
    (
        if p.0 < e.0 { p.0 } else { e.0 },
        if p.0 > e.1 { p.0 } else { e.1 },
        if p.1 < e.2 { p.1 } else { e.2 },
        if p.1 > e.3 { p.1 } else { e.3 },
    )
}

/// The zoom bounds for figure `code`: none when none of its cells are
/// drawn, else the expanded extent of its cells.
pub open spec fn figure_zoom_spec(
    lines: Seq<(Seq<char>, Seq<u32>)>,
    v: Seq<PlacedStar>,
    code: Seq<char>,
    culture: SkyCulture,
    width: usize,
    height: usize,
) -> Option<ZoomBounds> {
    let pts = zoom_points(lines, v, code, culture);
    if pts.len() == 0 {
        None
    } else {
        let e = extent(pts);
        Some(expanded_bounds(e.0, e.1, e.2, e.3, width, height))
    }
}

fn placed_lookup(v: &Vec<PlacedStar>, hip: u32) -> (r: Option<(usize, usize)>)
    ensures
        r == placed_point(v@, hip),
{
    let mut k = v.len();
    assert(v@.take(v.len() as int) =~= v@);
    while k > 0
        invariant
            k <= v.len(),
            placed_point(v@, hip) == placed_point(v@.take(k as int), hip),
        decreases k,
    {
        assert(v@.take(k as int).drop_last() =~= v@.take(k - 1));
        assert(v@.take(k as int).last() == v@[k - 1]);
        if v[k - 1].hip == hip {
            return Some((v[k - 1].x, v[k - 1].y));
        }
        k = k - 1;
    }
    assert(v@.take(0) =~= Seq::<PlacedStar>::empty());
    None
}

/// Grows a running extent by one cell.
fn widen(e: (usize, usize, usize, usize), p: (usize, usize)) -> (r: (usize, usize, usize, usize))
    ensures
        r == widened(e, p),
{
    (
        if p.0 < e.0 { p.0 } else { e.0 },
        if p.0 > e.1 { p.0 } else { e.1 },
        if p.1 < e.2 { p.1 } else { e.2 },
        if p.1 > e.3 { p.1 } else { e.3 },
    )
}

/// The zoom bounds for figure `code` of `culture` on a canvas of `width` by
/// `height` cells, as `figure_zoom_spec` says; `lines` are the culture's
/// figure paths and `placed` the stars drawn on the canvas.
pub fn figure_zoom_bounds(
    lines: &Vec<ConstellationLine>,
    placed: &Vec<PlacedStar>,
    code: &str,
    culture: SkyCulture,
    width: usize,
    height: usize,
) -> (r: Option<ZoomBounds>)
    ensures
        r == figure_zoom_spec(lines_view(lines@), placed@, code@, culture, width, height),
{
    let ghost lv = lines_view(lines@);
    let mut pts: Vec<(usize, usize)> = Vec::new();
    let mut i: usize = 0;
    while i < lines.len()
        invariant
            i <= lines.len(),
            lv == lines_view(lines@),
            pts@ == figure_points(lv.take(i as int), placed@, code@),
        decreases lines.len() - i,
    {
        assert(lv.take(i + 1).drop_last() =~= lv.take(i as int));
        assert(lv.take(i + 1).last() == lines@[i as int]@);
        if eq_ignore_ascii_case(lines[i].code.as_str(), code) {
            let hips = &lines[i].hips;
            let ghost start = pts@;
            let mut j: usize = 0;
            while j < hips.len()
                invariant
                    j <= hips.len(),
                    pts@ == start + path_points(hips@.take(j as int), placed@),
                decreases hips.len() - j,
            {
                assert(hips@.take(j + 1).drop_last() =~= hips@.take(j as int));
                assert(hips@.take(j + 1).last() == hips@[j as int]);
                match placed_lookup(placed, hips[j]) {
                    Some(p) => {
                        pts.push(p);
                    },
                    None => {},
                }
                j = j + 1;
            }
            assert(hips@.take(hips.len() as int) =~= hips@);
        }
        i = i + 1;
    }
    assert(lv.take(lines.len() as int) =~= lv);
    if pts.len() < 2 && culture == SkyCulture::Western {
        let ghost start = pts@;
        let mut k: usize = 0;
        while k < placed.len()
            invariant
                k <= placed.len(),
                pts@ == start + member_points(placed@.take(k as int), code@),
            decreases placed.len() - k,
        {
            assert(placed@.take(k + 1).drop_last() =~= placed@.take(k as int));
            assert(placed@.take(k + 1).last() == placed@[k as int]);
            if eq_ignore_ascii_case(placed[k].constellation.as_str(), code) {
                pts.push((placed[k].x, placed[k].y));
            }
            k = k + 1;
        }
        assert(placed@.take(placed.len() as int) =~= placed@);
    }
    if pts.len() == 0 {
        return None;
    }
    let mut e = (pts[0].0, pts[0].0, pts[0].1, pts[0].1);
    let mut m: usize = 1;
    assert(pts@.take(1) =~= seq![pts@[0]]);
    while m < pts.len()
        invariant
            1 <= m <= pts.len(),
            e == extent(pts@.take(m as int)),
        decreases pts.len() - m,
    {
        assert(pts@.take(m + 1).drop_last() =~= pts@.take(m as int));
        assert(pts@.take(m + 1).last() == pts@[m as int]);
        e = widen(e, pts[m]);
        m = m + 1;
    }
    assert(pts@.take(pts.len() as int) =~= pts@);
    Some(ZoomBounds::expanded(e.0, e.1, e.2, e.3, width, height))
}


proof fn lemma_extent_bounds(pts: Seq<(usize, usize)>)
    requires
        pts.len() > 0,
    ensures
        ({
            let e = extent(pts);
            &&& e.0 <= e.1 && e.2 <= e.3
            &&& exists|k: int| 0 <= k < pts.len() && #[trigger] pts[k].0 == e.1
            &&& exists|k: int| 0 <= k < pts.len() && #[trigger] pts[k].1 == e.3
            &&& forall|k: int| 0 <= k < pts.len() ==> e.0 <= #[trigger] pts[k].0 <= e.1 && e.2 <= pts[k].1 <= e.3
        }),
    decreases pts.len(),
{
    if pts.len() > 1 {
        let d = pts.drop_last();
        lemma_extent_bounds(d);
        let e = extent(d);
        let k1 = choose|k: int| 0 <= k < d.len() && #[trigger] d[k].0 == e.1;
        let k3 = choose|k: int| 0 <= k < d.len() && #[trigger] d[k].1 == e.3;
        assert(pts[k1] == d[k1]);
        assert(pts[k3] == d[k3]);
        let n = extent(pts);
        if pts.last().0 > e.1 {
            assert(pts[pts.len() - 1].0 == n.1);
        } else {
            assert(pts[k1].0 == n.1);
        }
        if pts.last().1 > e.3 {
            assert(pts[pts.len() - 1].1 == n.3);
        } else {
            assert(pts[k3].1 == n.3);
        }
        assert forall|k: int| 0 <= k < pts.len() implies n.0 <= #[trigger] pts[k].0 <= n.1 && n.2 <= pts[k].1 <= n.3 by {
            if k < pts.len() - 1 {
                assert(pts[k] == d[k]);
            }
        }
    } else {
        assert(pts[0].0 == extent(pts).1);
        assert(pts[0].1 == extent(pts).3);
    }
}

/// When the framing cells lie on the canvas, the zoom bounds lie on the
/// canvas and contain every one of them.
pub proof fn lemma_zoom_bounds_frame_figure(
    lines: Seq<(Seq<char>, Seq<u32>)>,
    v: Seq<PlacedStar>,
    code: Seq<char>,
    culture: SkyCulture,
    width: usize,
    height: usize,
)
    requires
        zoom_points(lines, v, code, culture).len() > 0,
        forall|k: int|
            0 <= k < zoom_points(lines, v, code, culture).len() ==> #[trigger] zoom_points(
                lines,
                v,
                code,
                culture,
            )[k].0 < width && zoom_points(lines, v, code, culture)[k].1 < height,
    ensures
        figure_zoom_spec(lines, v, code, culture, width, height) matches Some(b) && {
            &&& b.max_x < width && b.max_y < height
            &&& forall|k: int|
                0 <= k < zoom_points(lines, v, code, culture).len() ==> {
                    let p = #[trigger] zoom_points(lines, v, code, culture)[k];
                    b.min_x <= p.0 <= b.max_x && b.min_y <= p.1 <= b.max_y
                }
        },
{
    let pts = zoom_points(lines, v, code, culture);
    lemma_extent_bounds(pts);
    let e = extent(pts);
    let k1 = choose|k: int| 0 <= k < pts.len() && #[trigger] pts[k].0 == e.1;
    let k3 = choose|k: int| 0 <= k < pts.len() && #[trigger] pts[k].1 == e.3;
    assert(pts[k1].0 < width);
    assert(pts[k3].0 < width && pts[k3].1 < height);
    lemma_expanded_contains_figure(e.0, e.1, e.2, e.3, width, height);
}

} // verus!
