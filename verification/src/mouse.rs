use vstd::prelude::*;

use ratatui::layout::{Constraint, Direction, Layout, Rect};

use crate::app::{settings_count, Screen};
use crate::config::THEME_COUNT;

verus! {

// ---------------------------------------------------------------------------
// Rectangles of terminal cells
// ---------------------------------------------------------------------------

/// A rectangle of terminal cells: its top-left cell and its size.
#[derive(Debug, Clone, Copy, PartialEq, Eq, Structural)]
pub struct Area {
    pub x: u16,
    pub y: u16,
    pub width: u16,
    pub height: u16,
}

pub open spec fn sat_add(a: u16, b: u16) -> u16 {
    if a + b > u16::MAX {
        u16::MAX
    } else {
        (a + b) as u16
    }
}

pub open spec fn sat_sub(a: u16, b: u16) -> u16 {
    if a < b {
        0
    } else {
        (a - b) as u16
    }
}

pub open spec fn min16(a: u16, b: u16) -> u16 {
    if a < b {
        a
    } else {
        b
    }
}

pub open spec fn max16(a: u16, b: u16) -> u16 {
    if a > b {
        a
    } else {
        b
    }
}

impl Area {
    /// First column right of the area, clamped to the largest column.
    pub open spec fn right(self) -> u16 {
        sat_add(self.x, self.width)
    }

    /// First row below the area, clamped to the largest row.
    pub open spec fn bottom(self) -> u16 {
        sat_add(self.y, self.height)
    }

    /// Whether the cell at `(column, row)` lies in the area.
    pub open spec fn holds(self, column: u16, row: u16) -> bool {
        self.x <= column < self.right() && self.y <= row < self.bottom()
    }
}

/// Whether the cell at `(column, row)` lies in `area`.
pub fn rect_contains(area: Area, column: u16, row: u16) -> (r: bool)
    ensures
        r == area.holds(column, row),
{
    column >= area.x && column < area.x.saturating_add(area.width) && row >= area.y && row
        < area.y.saturating_add(area.height)
}

/// The cell at `(column, row)` relative to the top-left of `area`, when it
/// lies in the area.
pub fn rect_local(area: Area, column: u16, row: u16) -> (r: Option<(usize, usize)>)
    ensures
        r == (if area.holds(column, row) {
            Some(((column - area.x) as usize, (row - area.y) as usize))
        } else {
            None
        }),
{
    if rect_contains(area, column, row) {
        Some(((column - area.x) as usize, (row - area.y) as usize))
    } else {
        None
    }
}

/// The area `margin` cells in from each side: `horizontal` from left and
/// right, `vertical` from top and bottom; the empty area at the origin when
/// the margins do not fit.
pub open spec fn inner_spec(area: Area, horizontal: u16, vertical: u16) -> Area {
    let dh = if 2 * horizontal > u16::MAX { u16::MAX } else { (2 * horizontal) as u16 };
    let dv = if 2 * vertical > u16::MAX { u16::MAX } else { (2 * vertical) as u16 };
    if area.width < dh || area.height < dv {
        Area { x: 0, y: 0, width: 0, height: 0 }
    } else {
        Area {
            x: sat_add(area.x, horizontal),
            y: sat_add(area.y, vertical),
            width: sat_sub(area.width, dh),
            height: sat_sub(area.height, dv),
        }
    }
}

/// The area inside a margin, as a terminal layout takes it.
pub fn inner_area(area: Area, horizontal: u16, vertical: u16) -> (r: Area)
    ensures
        r == inner_spec(area, horizontal, vertical),
{
    let dh = if horizontal > u16::MAX / 2 {
        u16::MAX
    } else {
        horizontal * 2
    };
    let dv = if vertical > u16::MAX / 2 {
        u16::MAX
    } else {
        vertical * 2
    };
    if area.width < dh || area.height < dv {
        Area { x: 0, y: 0, width: 0, height: 0 }
    } else {
        Area {
            x: area.x.saturating_add(horizontal),
            y: area.y.saturating_add(vertical),
            width: area.width - dh,
            height: area.height - dv,
        }
    }
}

/// The area inside a one-cell border on every side.
pub open spec fn bordered_spec(area: Area) -> Area {
    let x = min16(sat_add(area.x, 1), area.right());
    let y = min16(sat_add(area.y, 1), area.bottom());
    Area { x, y, width: sat_sub(sat_sub(area.width, 1), 1), height: sat_sub(sat_sub(area.height, 1), 1) }
}

/// The area inside a one-cell border on every side, as a bordered block
/// without title or padding leaves it.
pub fn bordered_inner(area: Area) -> (r: Area)
    ensures
        r == bordered_spec(area),
{
    let right = area.x.saturating_add(area.width);
    let bottom = area.y.saturating_add(area.height);
    let x = if area.x.saturating_add(1) < right {
        area.x.saturating_add(1)
    } else {
        right
    };
    let y = if area.y.saturating_add(1) < bottom {
        area.y.saturating_add(1)
    } else {
        bottom
    };
    Area {
        x,
        y,
        width: area.width.saturating_sub(1).saturating_sub(1),
        height: area.height.saturating_sub(1).saturating_sub(1),
    }
}

/// One side of a centred box: the wanted size, no larger than the area
/// less two cells, at least `least`, and never larger than the area.
pub open spec fn centred_size(wanted: u16, avail: u16, least: u16) -> u16 {
    min16(max16(min16(wanted, sat_sub(avail, 2)), least), avail)
}

/// A box of about `width` by `height` cells centred in `area`.
pub open spec fn centered_spec(area: Area, width: u16, height: u16) -> Area {
    let w = centred_size(width, area.width, 20);
    let h = centred_size(height, area.height, 10);
    Area {
        x: (area.x + sat_sub(area.width, w) / 2) as u16,
        y: (area.y + sat_sub(area.height, h) / 2) as u16,
        width: w,
        height: h,
    }
}

/// A box of about `width` by `height` cells centred in `area`: never wider
/// or taller than the area, at least 20 by 10 where the area allows, and two
/// cells smaller than the area where it is small.
pub fn centered_rect(area: Area, width: u16, height: u16) -> (r: Area)
    requires
        area.x + area.width <= u16::MAX,
        area.y + area.height <= u16::MAX,
    ensures
        r == centered_spec(area, width, height),
{
    let w0 = if width < area.width.saturating_sub(2) {
        width
    } else {
        area.width.saturating_sub(2)
    };
    let w1 = if w0 > 20 {
        w0
    } else {
        20
    };
    let w = if w1 < area.width {
        w1
    } else {
        area.width
    };
    let h0 = if height < area.height.saturating_sub(2) {
        height
    } else {
        area.height.saturating_sub(2)
    };
    let h1 = if h0 > 10 {
        h0
    } else {
        10
    };
    let h = if h1 < area.height {
        h1
    } else {
        area.height
    };
    Area {
        x: area.x + (area.width - w) / 2,
        y: area.y + (area.height - h) / 2,
        width: w,
        height: h,
    }
}

// ---------------------------------------------------------------------------
// Splitting the screen
// ---------------------------------------------------------------------------

/// Which way an area is split: into columns side by side, or rows.
#[derive(Debug, Clone, Copy, PartialEq, Eq, Structural)]
pub enum Axis {
    Horizontal,
    Vertical,
}

/// The size asked of one part of a split: at least, or exactly, so many
/// cells.
#[derive(Debug, Clone, Copy, PartialEq, Eq, Structural)]
pub enum SizeRule {
    Min(u16),
    Length(u16),
}

/// What a split of `area` along `axis` into `n` parts is known to give,
/// whatever the layout solver picks: one part per rule, each as tall as
/// `area` in a horizontal split and as wide in a vertical one.
pub open spec fn split_parts(parts: Seq<Area>, area: Area, axis: Axis, n: int) -> bool {
    &&& parts.len() == n
    &&& forall|i: int|
        0 <= i < n ==> match axis {
            Axis::Horizontal => (#[trigger] parts[i]).y == area.y && parts[i].height == area.height,
            Axis::Vertical => (#[trigger] parts[i]).x == area.x && parts[i].width == area.width,
        }
}

/// `Layout::split` of ratatui with default margin, spacing and flex. Its
/// source gives one part per rule, each as tall as `area` in a horizontal
/// split and as wide in a vertical one. Where the parts fall along the axis
/// is left unsaid: the solver picks among equally good layouts by walking
/// hash maps seeded in each process.
#[verifier::external_body]
fn split_area(area: Area, axis: Axis, rules: &Vec<SizeRule>) -> (r: Vec<Area>)
    ensures
        split_parts(r@, area, axis, rules.len() as int),
{
    let direction = match axis {
        Axis::Horizontal => Direction::Horizontal,
        Axis::Vertical => Direction::Vertical,
    };
    let constraints: Vec<Constraint> = rules.iter().map(|rule| match rule {
        SizeRule::Min(n) => Constraint::Min(*n),
        SizeRule::Length(n) => Constraint::Length(*n),
    }).collect();
    let rect = Rect { x: area.x, y: area.y, width: area.width, height: area.height };
    let parts = Layout::default().direction(direction).constraints(constraints).split(rect);
    parts.iter().map(|p| Area { x: p.x, y: p.y, width: p.width, height: p.height }).collect()
}

/// Where the parts of the sky screen lie: the header, the framed canvas and
/// the inside of its frame, the footer, and the side panel when shown.
#[derive(Debug, Clone, Copy, PartialEq, Eq, Structural)]
pub struct SkyLayout {
    pub header: Area,
    pub canvas_outer: Area,
    pub canvas_inner: Area,
    pub footer: Area,
    pub side_panel: Option<Area>,
}

/// What is known of the sky screen's layout in `area`: the side panel takes
/// the right of a screen at least 94 wide (as tall as the screen), else the
/// bottom of one at least 28 tall (as wide as the screen), else it is not
/// shown; the header, canvas and footer are rows of one column, which is
/// the whole width when the panel is not beside it; the canvas's inside is
/// the canvas less its border.
pub open spec fn sky_layout_fits(l: SkyLayout, area: Area, wants_panel: bool) -> bool {
    let wide = wants_panel && area.width >= 94;
    let tall = !wide && wants_panel && area.height >= 28;
    &&& l.canvas_inner == bordered_spec(l.canvas_outer)
    &&& l.canvas_outer.x == l.header.x && l.canvas_outer.width == l.header.width
    &&& l.footer.x == l.header.x && l.footer.width == l.header.width
    &&& wide ==> (l.side_panel matches Some(p) && p.y == area.y && p.height == area.height)
    &&& tall ==> (l.side_panel matches Some(p) && p.x == area.x && p.width == area.width)
    &&& !wide ==> l.header.x == area.x && l.header.width == area.width
    &&& !wide && !tall ==> l.side_panel is None
}

/// Lays out the sky screen in `area`, with the side panel when it is wanted
/// and fits.
pub fn sky_layout(area: Area, wants_panel: bool) -> (r: SkyLayout)
    ensures
        sky_layout_fits(r, area, wants_panel),
{
    let (column, side_panel) = if wants_panel && area.width >= 94 {
        let rules = vec![SizeRule::Min(54), SizeRule::Length(36)];
        let parts = split_area(area, Axis::Horizontal, &rules);
        (parts[0], Some(parts[1]))
    } else if wants_panel && area.height >= 28 {
        let rules = vec![SizeRule::Min(16), SizeRule::Length(10)];
        let parts = split_area(area, Axis::Vertical, &rules);
        (parts[0], Some(parts[1]))
    } else {
        (area, None)
    };
    let rules = vec![SizeRule::Length(3), SizeRule::Min(8), SizeRule::Length(2)];
    let rows = split_area(column, Axis::Vertical, &rules);
    SkyLayout {
        header: rows[0],
        canvas_outer: rows[1],
        canvas_inner: bordered_inner(rows[1]),
        footer: rows[2],
        side_panel,
    }
}

// ---------------------------------------------------------------------------
// Dialog boxes
// ---------------------------------------------------------------------------

/// The rows of the search box: 58 by 18 centred, 2 cells in.
pub open spec fn search_box_spec(area: Area) -> Area {
    inner_spec(centered_spec(area, 58, 18), 2, 2)
}

/// The rows of the settings box: 60 by 19 centred, 2 cells in.
pub open spec fn settings_box_spec(area: Area) -> Area {
    inner_spec(centered_spec(area, 60, 19), 2, 2)
}

/// The rows of the theme picker: 40 wide and four rows more than there are
/// themes, centred, 2 cells in from the sides and 1 from top and bottom.
pub open spec fn theme_box_spec(area: Area) -> Area {
    inner_spec(centered_spec(area, 40, (THEME_COUNT + 4) as u16), 2, 1)
}

/// The rows of the first-start form: 78 by 22 centred, inside its border.
pub open spec fn setup_box_spec(area: Area) -> Area {
    bordered_spec(centered_spec(area, 78, 22))
}

/// Whether `area` lies on the screen without running past its last cell.
pub open spec fn on_screen(area: Area) -> bool {
    area.x + area.width <= u16::MAX && area.y + area.height <= u16::MAX
}

pub fn search_box(area: Area) -> (r: Area)
    requires
        on_screen(area),
    ensures
        r == search_box_spec(area),
{
    inner_area(centered_rect(area, 58, 18), 2, 2)
}

pub fn settings_box(area: Area) -> (r: Area)
    requires
        on_screen(area),
    ensures
        r == settings_box_spec(area),
{
    inner_area(centered_rect(area, 60, 19), 2, 2)
}

pub fn theme_box(area: Area) -> (r: Area)
    requires
        on_screen(area),
    ensures
        r == theme_box_spec(area),
{
    inner_area(centered_rect(area, 40, THEME_COUNT as u16 + 4), 2, 1)
}

pub fn setup_box(area: Area) -> (r: Area)
    requires
        on_screen(area),
    ensures
        r == setup_box_spec(area),
{
    bordered_inner(centered_rect(area, 78, 22))
}

// ---------------------------------------------------------------------------
// What a click does
// ---------------------------------------------------------------------------

/// What a left click asks of the app.
#[derive(Debug, Clone, Copy, PartialEq, Eq, Structural)]
pub enum ClickAction {
    /// Nothing.
    Ignore,
    /// Close the help overlay.
    CloseHelp,
    /// Open the search result in this row.
    ActivateSearchResult(usize),
    /// Select this settings row and change its value, forward when the click
    /// fell on the right half.
    AdjustSetting { index: usize, forward: bool },
    /// Close the theme picker.
    CloseThemePicker,
    /// Select this theme and apply it.
    ApplyTheme(usize),
    /// Go to the city field and step the city, forward on the right half.
    CycleSetupPreset(bool),
    /// Go to the save row and save.
    CommitSetup,
    /// Open the search of the view: sky objects or cities.
    OpenSearch,
    /// Switch between the sky and the globe.
    ToggleGroundSky,
    /// Open the settings.
    OpenSettings,
    /// A click on this cell of the canvas.
    Canvas { x: usize, y: usize },
}

/// A click on the footer: its left third opens search, the middle third
/// switches view, the right third opens settings; a footer narrower than
/// three cells does nothing.
pub open spec fn footer_click_spec(footer: Area, column: u16) -> ClickAction {
    if footer.width < 3 {
        ClickAction::Ignore
    } else {
        let local = sat_sub(column, footer.x);
        let third = footer.width / 3;
        if local < third {
            ClickAction::OpenSearch
        } else if local < 2 * third {
            ClickAction::ToggleGroundSky
        } else {
            ClickAction::OpenSettings
        }
    }
}

pub fn footer_click(footer: Area, column: u16) -> (r: ClickAction)
    ensures
        r == footer_click_spec(footer, column),
{
    if footer.width < 3 {
        return ClickAction::Ignore;
    }
    let local = column.saturating_sub(footer.x);
    let third = footer.width / 3;
    if local < third {
        ClickAction::OpenSearch
    } else if local < third * 2 {
        ClickAction::ToggleGroundSky
    } else {
        ClickAction::OpenSettings
    }
}

/// A click on the sky screen: on the footer, as the footer says; inside the
/// canvas frame, a click on that canvas cell unless the view is turning
/// between sky and globe; elsewhere nothing.
pub open spec fn canvas_click_spec(layout: SkyLayout, turning: bool, column: u16, row: u16) -> ClickAction {
    if layout.footer.holds(column, row) {
        footer_click_spec(layout.footer, column)
    } else if !layout.canvas_inner.holds(column, row) || turning {
        ClickAction::Ignore
    } else {
        ClickAction::Canvas {
            x: (column - layout.canvas_inner.x) as usize,
            y: (row - layout.canvas_inner.y) as usize,
        }
    }
}

pub fn canvas_click(layout: SkyLayout, turning: bool, column: u16, row: u16) -> (r: ClickAction)
    ensures
        r == canvas_click_spec(layout, turning, column, row),
{
    if rect_contains(layout.footer, column, row) {
        return footer_click(layout.footer, column);
    }
    match rect_local(layout.canvas_inner, column, row) {
        None => ClickAction::Ignore,
        Some((x, y)) => if turning {
            ClickAction::Ignore
        } else {
            ClickAction::Canvas { x, y }
        },
    }
}

/// A click on the search box: rows from the third on are the results, of
/// which at most ten are shown.
pub open spec fn search_click_spec(area: Area, results: usize, column: u16, row: u16) -> ClickAction {
    let b = search_box_spec(area);
    if !b.holds(column, row) {
        ClickAction::Ignore
    } else {
        let local = row - b.y;
        if local >= 2 && local - 2 < results && local - 2 < 10 {
            ClickAction::ActivateSearchResult((local - 2) as usize)
        } else {
            ClickAction::Ignore
        }
    }
}

/// A click on the theme picker: a theme row applies that theme; a click
/// outside the picker closes it.
pub open spec fn theme_click_spec(area: Area, column: u16, row: u16) -> ClickAction {
    let b = theme_box_spec(area);
    if !b.holds(column, row) {
        ClickAction::CloseThemePicker
    } else if row - b.y < THEME_COUNT {
        ClickAction::ApplyTheme((row - b.y) as usize)
    } else {
        ClickAction::Ignore
    }
}

/// A click on the settings: a settings row is selected and changed, forward
/// on the right half of the box.
pub open spec fn settings_click_spec(area: Area, column: u16, row: u16) -> ClickAction {
    let b = settings_box_spec(area);
    if !b.holds(column, row) {
        ClickAction::Ignore
    } else if row - b.y < 14 {
        ClickAction::AdjustSetting {
            index: (row - b.y) as usize,
            forward: column >= sat_add(b.x, b.width / 2),
        }
    } else {
        ClickAction::Ignore
    }
}

/// A click on the first-start form: its third row steps the city, forward
/// on the right half; its tenth row saves.
pub open spec fn setup_click_spec(area: Area, column: u16, row: u16) -> ClickAction {
    let b = setup_box_spec(area);
    if !b.holds(column, row) {
        ClickAction::Ignore
    } else if row - b.y == 2 {
        ClickAction::CycleSetupPreset(column >= sat_add(b.x, b.width / 2))
    } else if row - b.y == 9 {
        ClickAction::CommitSetup
    } else {
        ClickAction::Ignore
    }
}

/// What the app shows when a click comes.
#[derive(Debug, Clone, Copy, PartialEq, Eq, Structural)]
pub struct ClickContext {
    /// The help overlay is open.
    pub help: bool,
    pub screen: Screen,
    /// The theme picker is open over the settings.
    pub theme_picker: bool,
    /// How many search results there are.
    pub search_results: usize,
    /// The side panel is wanted.
    pub side_panel: bool,
    /// The view is turning between sky and globe.
    pub turning: bool,
}

/// What a left click at `(column, row)` on a screen of `area` does, with the
/// sky screen laid out as `layout`: with help open it closes help; else the
/// screen in front decides.
pub open spec fn click_spec(ctx: ClickContext, area: Area, layout: SkyLayout, column: u16, row: u16) -> ClickAction {
    if ctx.help {
        ClickAction::CloseHelp
    } else {
        match ctx.screen {
            Screen::Search => search_click_spec(area, ctx.search_results, column, row),
            Screen::Settings => if ctx.theme_picker {
                theme_click_spec(area, column, row)
            } else {
                settings_click_spec(area, column, row)
            },
            Screen::Setup => setup_click_spec(area, column, row),
            Screen::Sky => canvas_click_spec(layout, ctx.turning, column, row),
        }
    }
}

pub fn click_action(ctx: ClickContext, area: Area, column: u16, row: u16) -> (r: ClickAction)
    requires
        on_screen(area),
    ensures
        !ctx.help && ctx.screen == Screen::Sky ==> exists|layout: SkyLayout|
            sky_layout_fits(layout, area, ctx.side_panel) && r == #[trigger] click_spec(
                ctx,
                area,
                layout,
                column,
                row,
            ),
        ctx.help || ctx.screen != Screen::Sky ==> forall|layout: SkyLayout|
            r == #[trigger] click_spec(ctx, area, layout, column, row),
{
    if ctx.help {
        return ClickAction::CloseHelp;
    }
    match ctx.screen {
        Screen::Search => {
            let b = search_box(area);
            if !rect_contains(b, column, row) {
                return ClickAction::Ignore;
            }
            let local = row - b.y;
            if local >= 2 && ((local - 2) as usize) < ctx.search_results && local - 2 < 10 {
                ClickAction::ActivateSearchResult((local - 2) as usize)
            } else {
                ClickAction::Ignore
            }
        },
        Screen::Settings => {
            if ctx.theme_picker {
                let b = theme_box(area);
                if !rect_contains(b, column, row) {
                    ClickAction::CloseThemePicker
                } else if ((row - b.y) as usize) < THEME_COUNT {
                    ClickAction::ApplyTheme((row - b.y) as usize)
                } else {
                    ClickAction::Ignore
                }
            } else {
                let b = settings_box(area);
                if !rect_contains(b, column, row) {
                    ClickAction::Ignore
                } else if ((row - b.y) as usize) < settings_count() {
                    ClickAction::AdjustSetting {
                        index: (row - b.y) as usize,
                        forward: column >= b.x.saturating_add(b.width / 2),
                    }
                } else {
                    ClickAction::Ignore
                }
            }
        },
        Screen::Setup => {
            let b = setup_box(area);
            if !rect_contains(b, column, row) {
                ClickAction::Ignore
            } else if row - b.y == 2 {
                ClickAction::CycleSetupPreset(column >= b.x.saturating_add(b.width / 2))
            } else if row - b.y == 9 {
                ClickAction::CommitSetup
            } else {
                ClickAction::Ignore
            }
        },
        Screen::Sky => {
            let layout = sky_layout(area, ctx.side_panel);
            let r = canvas_click(layout, ctx.turning, column, row);
            assert(r == click_spec(ctx, area, layout, column, row));
            r
        },
    }
}

// ---------------------------------------------------------------------------
// What the wheel does
// ---------------------------------------------------------------------------

/// What a turn of the mouse wheel asks of the app.
#[derive(Debug, Clone, Copy, PartialEq, Eq, Structural)]
pub enum ScrollAction {
    Ignore,
    SelectSearchResult(usize),
    SelectTheme(usize),
    SelectSetting(usize),
    MoveSetupField(usize),
}

/// What the app shows when the wheel turns.
#[derive(Debug, Clone, Copy, PartialEq, Eq, Structural)]
pub struct ScrollContext {
    pub help: bool,
    pub screen: Screen,
    pub search_selected: usize,
    pub search_results: usize,
    pub theme_picker: bool,
    pub theme_selected: usize,
    pub setting_selected: usize,
}

pub open spec fn step(index: usize, down: bool) -> usize {
    if down {
        if index == usize::MAX {
            index
        } else {
            (index + 1) as usize
        }
    } else if index == 0 {
        0
    } else {
        (index - 1) as usize
    }
}

/// The wheel moves the selection of the list in front one row down or up
/// (never above the first row; down in an empty result list does nothing),
/// moves the first-start form to its save row or its city field, and does
/// nothing on the sky or under help.
pub open spec fn scroll_spec(ctx: ScrollContext, down: bool) -> ScrollAction {
    if ctx.help {
        ScrollAction::Ignore
    } else {
        match ctx.screen {
            Screen::Search => if down && ctx.search_results == 0 {
                ScrollAction::Ignore
            } else {
                ScrollAction::SelectSearchResult(step(ctx.search_selected, down))
            },
            Screen::Settings => if ctx.theme_picker {
                ScrollAction::SelectTheme(step(ctx.theme_selected, down))
            } else {
                ScrollAction::SelectSetting(step(ctx.setting_selected, down))
            },
            Screen::Setup => ScrollAction::MoveSetupField(if down {
                1
            } else {
                0
            }),
            Screen::Sky => ScrollAction::Ignore,
        }
    }
}

fn step_index(index: usize, down: bool) -> (r: usize)
    ensures
        r == step(index, down),
{
    if down {
        index.saturating_add(1)
    } else {
        index.saturating_sub(1)
    }
}

pub fn scroll_action(ctx: ScrollContext, down: bool) -> (r: ScrollAction)
    ensures
        r == scroll_spec(ctx, down),
{
    if ctx.help {
        return ScrollAction::Ignore;
    }
    match ctx.screen {
        Screen::Search => if down && ctx.search_results == 0 {
            ScrollAction::Ignore
        } else {
            ScrollAction::SelectSearchResult(step_index(ctx.search_selected, down))
        },
        Screen::Settings => if ctx.theme_picker {
            ScrollAction::SelectTheme(step_index(ctx.theme_selected, down))
        } else {
            ScrollAction::SelectSetting(step_index(ctx.setting_selected, down))
        },
        Screen::Setup => ScrollAction::MoveSetupField(if down {
            1
        } else {
            0
        }),
        Screen::Sky => ScrollAction::Ignore,
    }
}

// ---------------------------------------------------------------------------
// Laws
// ---------------------------------------------------------------------------

/// A click that reaches the canvas names a cell of the canvas: its column
/// and row are less than the canvas's width and height.
pub proof fn lemma_canvas_click_in_canvas(layout: SkyLayout, turning: bool, column: u16, row: u16)
    ensures
        canvas_click_spec(layout, turning, column, row) matches ClickAction::Canvas { x, y } ==> x
            < layout.canvas_inner.width && y < layout.canvas_inner.height,
{
}

/// A click on a list row opens a row that exists: a search result among
/// those shown, a theme, a settings row.
pub proof fn lemma_clicked_rows_exist(ctx: ClickContext, area: Area, layout: SkyLayout, column: u16, row: u16)
    ensures
        click_spec(ctx, area, layout, column, row) matches ClickAction::ActivateSearchResult(i) ==> i
            < ctx.search_results && i < 10,
        click_spec(ctx, area, layout, column, row) matches ClickAction::ApplyTheme(i) ==> i < THEME_COUNT,
        click_spec(ctx, area, layout, column, row) matches ClickAction::AdjustSetting { index, .. } ==> index
            < 14,
{
}

} // verus!
