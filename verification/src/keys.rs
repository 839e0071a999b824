use vstd::prelude::*;

use crate::app::{Screen, ViewMode};

verus! {

// ---------------------------------------------------------------------------
// Key presses
// ---------------------------------------------------------------------------

/// A key the interface reacts to; every other key is `Other`.
#[derive(Debug, Clone, Copy, PartialEq, Eq, Structural)]
pub enum Key {
    Char(char),
    Esc,
    Enter,
    Tab,
    BackTab,
    Backspace,
    Up,
    Down,
    Left,
    Right,
    Other,
}

/// Whether a key went down, is held and repeating, or came up.
#[derive(Debug, Clone, Copy, PartialEq, Eq, Structural)]
pub enum KeyKind {
    Press,
    Repeat,
    Release,
}

/// A key press that arrived at `at_ms`, in milliseconds on a steady clock.
#[derive(Debug, Clone, Copy, PartialEq, Eq, Structural)]
pub struct Stamp {
    pub key: Key,
    pub at_ms: u64,
}

/// Time in which a second press of the same arrow counts as holding it.
pub const MOVE_HOLD_WINDOW_MS: u64 = 160;

/// Time in which a second press of the same time-shift key counts as holding it.
pub const TIME_SHIFT_HOLD_WINDOW_MS: u64 = 180;

/// Length of a full sky transition.
pub const SKY_TRANSITION_MS: u64 = 720;

/// Length of a transition while a time-shift key is held.
pub const TIME_REPEAT_TRANSITION_MS: u64 = 160;

/// Whether a press counts as a held key: the terminal reports it as a repeat,
/// or the same key was last pressed no more than `window_ms` ago (a clock
/// that went backwards counts as no time at all).
pub open spec fn held(kind: KeyKind, last: Option<Stamp>, key: Key, now_ms: u64, window_ms: u64) -> bool {
    kind == KeyKind::Repeat || match last {
        Some(s) => s.key == key && (now_ms < s.at_ms || now_ms - s.at_ms <= window_ms),
        None => false,
    }
}

/// Whether `key`, pressed at `now_ms` after `last`, counts as held.
pub fn is_held(kind: KeyKind, last: Option<Stamp>, key: Key, now_ms: u64, window_ms: u64) -> (r:
    bool)
    ensures
        r == held(kind, last, key, now_ms, window_ms),
{
    if kind == KeyKind::Repeat {
        return true;
    }
    match last {
        Some(s) => s.key == key && (now_ms < s.at_ms || now_ms - s.at_ms <= window_ms),
        None => false,
    }
}

/// Cells the pointer moves for a press while its arrow is held.
pub const POINTER_FAST_STEP: isize = 2;

/// How far an arrow press moves the pointer, and the press to remember for
/// the next: two cells while the arrow is held, one otherwise.
pub fn pointer_step(kind: KeyKind, last: Option<Stamp>, key: Key, now_ms: u64) -> (r: (isize, Stamp))
    ensures
        r.0 == (if held(kind, last, key, now_ms, MOVE_HOLD_WINDOW_MS) {
            POINTER_FAST_STEP
        } else {
            1
        }),
        r.1 == (Stamp { key, at_ms: now_ms }),
{
    let step = if is_held(kind, last, key, now_ms, MOVE_HOLD_WINDOW_MS) {
        POINTER_FAST_STEP
    } else {
        1
    };
    (step, Stamp { key, at_ms: now_ms })
}

/// How a shift of the clock is shown.
#[derive(Debug, Clone, Copy, PartialEq, Eq, Structural)]
pub enum ShiftStyle {
    /// The sky jumps to the new time.
    Immediate,
    /// The sky moves to the new time over this many milliseconds.
    Animated(u64),
}

/// An hour shift jumps while the key is held or when animations are off, and
/// animates over a full transition otherwise.
pub open spec fn hour_shift_spec(held: bool, animations: bool) -> ShiftStyle {
    if held || !animations {
        ShiftStyle::Immediate
    } else {
        ShiftStyle::Animated(SKY_TRANSITION_MS)
    }
}

/// How an hour shift is shown.
pub fn hour_shift_style(held: bool, animations: bool) -> (r: ShiftStyle)
    ensures
        r == hour_shift_spec(held, animations),
{
    if held || !animations {
        ShiftStyle::Immediate
    } else {
        ShiftStyle::Animated(SKY_TRANSITION_MS)
    }
}

/// A day shift jumps only when animations are off; while the key is held it
/// animates quickly, otherwise over a full transition.
pub open spec fn day_shift_spec(held: bool, animations: bool) -> ShiftStyle {
    if !animations {
        ShiftStyle::Immediate
    } else if held {
        ShiftStyle::Animated(TIME_REPEAT_TRANSITION_MS)
    } else {
        ShiftStyle::Animated(SKY_TRANSITION_MS)
    }
}

/// How a day shift is shown.
pub fn day_shift_style(held: bool, animations: bool) -> (r: ShiftStyle)
    ensures
        r == day_shift_spec(held, animations),
{
    if !animations {
        ShiftStyle::Immediate
    } else if held {
        ShiftStyle::Animated(TIME_REPEAT_TRANSITION_MS)
    } else {
        ShiftStyle::Animated(SKY_TRANSITION_MS)
    }
}

// ---------------------------------------------------------------------------
// Routing a key to a screen
// ---------------------------------------------------------------------------

/// Where a key goes.
#[derive(Debug, Clone, Copy, PartialEq, Eq, Structural)]
pub enum Route {
    /// The key is dropped.
    Ignore,
    /// The help overlay opens.
    OpenHelp,
    /// The help overlay closes and the key is spent.
    CloseHelp,
    /// The key goes to the handler of this screen; when `close_help` is set,
    /// the help overlay closes first.
    Screen { screen: Screen, close_help: bool },
}

/// Key releases are dropped. With help shown, `?`, Esc and `q` close it and
/// any other key closes it and then acts as usual. Otherwise `?` opens help
/// and every other key goes to the current screen.
pub open spec fn route_spec(kind: KeyKind, key: Key, help: bool, screen: Screen) -> Route {
    if kind == KeyKind::Release {
        Route::Ignore
    } else if help {
        if key == Key::Char('?') || key == Key::Esc || key == Key::Char('q') {
            Route::CloseHelp
        } else {
            Route::Screen { screen, close_help: true }
        }
    } else if key == Key::Char('?') {
        Route::OpenHelp
    } else {
        Route::Screen { screen, close_help: false }
    }
}

/// Where `key` goes.
pub fn route(kind: KeyKind, key: Key, help: bool, screen: Screen) -> (r: Route)
    ensures
        r == route_spec(kind, key, help, screen),
{
    if kind == KeyKind::Release {
        Route::Ignore
    } else if help {
        if key == Key::Char('?') || key == Key::Esc || key == Key::Char('q') {
            Route::CloseHelp
        } else {
            Route::Screen { screen, close_help: true }
        }
    } else if key == Key::Char('?') {
        Route::OpenHelp
    } else {
        Route::Screen { screen, close_help: false }
    }
}

/// While help is shown, every key that is not dropped closes it.
pub proof fn lemma_help_closes_on_any_key(kind: KeyKind, key: Key, screen: Screen)
    requires
        kind != KeyKind::Release,
    ensures
        route_spec(kind, key, true, screen) == Route::CloseHelp || route_spec(
            kind,
            key,
            true,
            screen,
        ) == (Route::Screen { screen, close_help: true }),
{
}

// ---------------------------------------------------------------------------
// Keys on the sky and on the globe
// ---------------------------------------------------------------------------

/// What a key asks of the sky or globe view.
#[derive(Debug, Clone, Copy, PartialEq, Eq, Structural)]
pub enum SkyCommand {
    Nothing,
    Quit,
    /// Leave or enter the zoom on the selected figure.
    ToggleZoom,
    ClearSelection,
    /// Open the location form, filled from the observer's place.
    OpenSetup,
    /// Open the location form, filled from the place under the globe cursor.
    OpenSetupFromPreview,
    OpenSkySearch,
    OpenCitySearch,
    OpenSettings,
    OpenThemePicker,
    CycleFigure { forward: bool },
    CycleCity { forward: bool },
    TogglePause,
    /// Shift the clock by this many hours.
    ShiftHours(i8),
    /// Shift the clock by this many days.
    ShiftDays(i8),
    ResetTime,
    ToggleLanguage,
    ToggleMoonPanel,
    ToggleLabels,
    ToggleConstellations,
    ToggleRecommendations,
    ToggleTour,
    ToggleAnimations,
    TogglePlanets,
    ToggleDeepSky,
    NextCharset,
    CycleSkyCulture,
    TogglePointer,
    PointerOff,
    /// Move the pointer one step in this direction.
    MovePointer { dx: i8, dy: i8 },
    /// Move the globe cursor one step east (`dx`) and north (`dy`).
    MoveCursor { dx: i8, dy: i8 },
    ToggleGround,
    /// Show fainter stars (`true`) or fewer (`false`).
    AdjustMagnitude { fainter: bool },
}

/// What the sky view knows when a key arrives.
#[derive(Debug, Clone, Copy, PartialEq, Eq, Structural)]
pub struct SkyContext {
    pub view_mode: ViewMode,
    pub pointer_active: bool,
    pub zoomed: bool,
    pub has_selection: bool,
}

/// The keys shared by the sky and the globe: time, settings and toggles that
/// both views offer.
pub open spec fn shared_command(c: char) -> Option<SkyCommand> {
    if c == ' ' {
        Some(SkyCommand::TogglePause)
    } else if c == '[' {
        Some(SkyCommand::ShiftHours(-1i8))
    } else if c == ']' {
        Some(SkyCommand::ShiftHours(1))
    } else if c == '{' {
        Some(SkyCommand::ShiftDays(-1i8))
    } else if c == '}' {
        Some(SkyCommand::ShiftDays(1))
    } else if c == 'r' {
        Some(SkyCommand::ResetTime)
    } else if c == 'o' {
        Some(SkyCommand::OpenSettings)
    } else if c == 't' {
        Some(SkyCommand::ToggleLanguage)
    } else if c == 'T' {
        Some(SkyCommand::OpenThemePicker)
    } else if c == 'a' {
        Some(SkyCommand::ToggleAnimations)
    } else if c == 'u' {
        Some(SkyCommand::NextCharset)
    } else if c == 'y' {
        Some(SkyCommand::CycleSkyCulture)
    } else if c == 'g' {
        Some(SkyCommand::ToggleGround)
    } else {
        None
    }
}

/// The keys of the globe view.
pub open spec fn ground_command_spec(key: Key) -> SkyCommand {
    match key {
        Key::Esc => SkyCommand::Quit,
        Key::Left => SkyCommand::MoveCursor { dx: -1i8, dy: 0 },
        Key::Right => SkyCommand::MoveCursor { dx: 1, dy: 0 },
        Key::Up => SkyCommand::MoveCursor { dx: 0, dy: 1 },
        Key::Down => SkyCommand::MoveCursor { dx: 0, dy: -1i8 },
        Key::Char(c) => if c == 'q' {
            SkyCommand::Quit
        } else if c == 's' {
            SkyCommand::OpenSetupFromPreview
        } else if c == '/' {
            SkyCommand::OpenCitySearch
        } else {
            match shared_command(c) {
                Some(cmd) => cmd,
                None => SkyCommand::Nothing,
            }
        },
        _ => SkyCommand::Nothing,
    }
}

/// The keys that move the pointer while it is on.
pub open spec fn pointer_command(key: Key) -> Option<SkyCommand> {
    match key {
        Key::Esc => Some(SkyCommand::PointerOff),
        Key::Left => Some(SkyCommand::MovePointer { dx: -1i8, dy: 0 }),
        Key::Right => Some(SkyCommand::MovePointer { dx: 1, dy: 0 }),
        Key::Up => Some(SkyCommand::MovePointer { dx: 0, dy: -1i8 }),
        Key::Down => Some(SkyCommand::MovePointer { dx: 0, dy: 1 }),
        Key::Char(c) => if c == 'x' {
            Some(SkyCommand::TogglePointer)
        } else {
            None
        },
        _ => None,
    }
}

/// The keys of the sky view once the pointer has had its say.
pub open spec fn sky_only_command(key: Key, ctx: SkyContext) -> SkyCommand {
    match key {
        Key::Esc => if ctx.zoomed {
            SkyCommand::ToggleZoom
        } else if ctx.has_selection {
            SkyCommand::ClearSelection
        } else {
            SkyCommand::Quit
        },
        Key::Tab => SkyCommand::CycleFigure { forward: true },
        Key::BackTab => SkyCommand::CycleFigure { forward: false },
        Key::Left => SkyCommand::CycleCity { forward: false },
        Key::Right => SkyCommand::CycleCity { forward: true },
        Key::Char(c) => if c == 'q' {
            if ctx.zoomed {
                SkyCommand::ToggleZoom
            } else {
                SkyCommand::Quit
            }
        } else if c == 's' {
            SkyCommand::OpenSetup
        } else if c == '/' {
            SkyCommand::OpenSkySearch
        } else if c == 'm' {
            SkyCommand::ToggleMoonPanel
        } else if c == 'l' {
            SkyCommand::ToggleLabels
        } else if c == 'c' {
            SkyCommand::ToggleConstellations
        } else if c == 'h' {
            SkyCommand::ToggleRecommendations
        } else if c == 'v' {
            SkyCommand::ToggleTour
        } else if c == 'p' {
            SkyCommand::TogglePlanets
        } else if c == 'd' {
            SkyCommand::ToggleDeepSky
        } else if c == 'x' {
            SkyCommand::TogglePointer
        } else if c == 'z' {
            SkyCommand::ToggleZoom
        } else if c == '+' || c == '=' {
            SkyCommand::AdjustMagnitude { fainter: true }
        } else if c == '-' {
            SkyCommand::AdjustMagnitude { fainter: false }
        } else {
            match shared_command(c) {
                Some(cmd) => cmd,
                None => SkyCommand::Nothing,
            }
        },
        _ => SkyCommand::Nothing,
    }
}

/// What `key` asks of the sky screen: the globe has its own keys; on the sky
/// the pointer, when on, takes the arrows, Esc and `x`, and the remaining keys
/// act on the sky.
pub open spec fn sky_command_spec(key: Key, ctx: SkyContext) -> SkyCommand {
    if ctx.view_mode == ViewMode::Ground {
        ground_command_spec(key)
    } else if ctx.pointer_active && pointer_command(key) is Some {
        pointer_command(key)->0
    } else {
        sky_only_command(key, ctx)
    }
}

fn shared_command_exec(c: char) -> (r: Option<SkyCommand>)
    ensures
        r == shared_command(c),
{
    if c == ' ' {
        Some(SkyCommand::TogglePause)
    } else if c == '[' {
        Some(SkyCommand::ShiftHours(-1i8))
    } else if c == ']' {
        Some(SkyCommand::ShiftHours(1))
    } else if c == '{' {
        Some(SkyCommand::ShiftDays(-1i8))
    } else if c == '}' {
        Some(SkyCommand::ShiftDays(1))
    } else if c == 'r' {
        Some(SkyCommand::ResetTime)
    } else if c == 'o' {
        Some(SkyCommand::OpenSettings)
    } else if c == 't' {
        Some(SkyCommand::ToggleLanguage)
    } else if c == 'T' {
        Some(SkyCommand::OpenThemePicker)
    } else if c == 'a' {
        Some(SkyCommand::ToggleAnimations)
    } else if c == 'u' {
        Some(SkyCommand::NextCharset)
    } else if c == 'y' {
        Some(SkyCommand::CycleSkyCulture)
    } else if c == 'g' {
        Some(SkyCommand::ToggleGround)
    } else {
        None
    }
}

/// What `key` asks of the globe view.
pub fn ground_command(key: Key) -> (r: SkyCommand)
    ensures
        r == ground_command_spec(key),
{
    match key {
        Key::Esc => SkyCommand::Quit,
        Key::Left => SkyCommand::MoveCursor { dx: -1i8, dy: 0 },
        Key::Right => SkyCommand::MoveCursor { dx: 1, dy: 0 },
        Key::Up => SkyCommand::MoveCursor { dx: 0, dy: 1 },
        Key::Down => SkyCommand::MoveCursor { dx: 0, dy: -1i8 },
        Key::Char(c) => if c == 'q' {
            SkyCommand::Quit
        } else if c == 's' {
            SkyCommand::OpenSetupFromPreview
        } else if c == '/' {
            SkyCommand::OpenCitySearch
        } else {
            match shared_command_exec(c) {
                Some(cmd) => cmd,
                None => SkyCommand::Nothing,
            }
        },
        _ => SkyCommand::Nothing,
    }
}

/// What `key` asks of the sky screen in the state `ctx`.
pub fn sky_command(key: Key, ctx: SkyContext) -> (r: SkyCommand)
    ensures
        r == sky_command_spec(key, ctx),
{
    if ctx.view_mode == ViewMode::Ground {
        return ground_command(key);
    }
    if ctx.pointer_active {
        match key {
            Key::Esc => return SkyCommand::PointerOff,
            Key::Left => return SkyCommand::MovePointer { dx: -1i8, dy: 0 },
            Key::Right => return SkyCommand::MovePointer { dx: 1, dy: 0 },
            Key::Up => return SkyCommand::MovePointer { dx: 0, dy: -1i8 },
            Key::Down => return SkyCommand::MovePointer { dx: 0, dy: 1 },
            Key::Char('x') => return SkyCommand::TogglePointer,
            _ => {},
        }
    }
    match key {
        Key::Esc => if ctx.zoomed {
            SkyCommand::ToggleZoom
        } else if ctx.has_selection {
            SkyCommand::ClearSelection
        } else {
            SkyCommand::Quit
        },
        Key::Tab => SkyCommand::CycleFigure { forward: true },
        Key::BackTab => SkyCommand::CycleFigure { forward: false },
        Key::Left => SkyCommand::CycleCity { forward: false },
        Key::Right => SkyCommand::CycleCity { forward: true },
        Key::Char(c) => if c == 'q' {
            if ctx.zoomed {
                SkyCommand::ToggleZoom
            } else {
                SkyCommand::Quit
            }
        } else if c == 's' {
            SkyCommand::OpenSetup
        } else if c == '/' {
            SkyCommand::OpenSkySearch
        } else if c == 'm' {
            SkyCommand::ToggleMoonPanel
        } else if c == 'l' {
            SkyCommand::ToggleLabels
        } else if c == 'c' {
            SkyCommand::ToggleConstellations
        } else if c == 'h' {
            SkyCommand::ToggleRecommendations
        } else if c == 'v' {
            SkyCommand::ToggleTour
        } else if c == 'p' {
            SkyCommand::TogglePlanets
        } else if c == 'd' {
            SkyCommand::ToggleDeepSky
        } else if c == 'x' {
            SkyCommand::TogglePointer
        } else if c == 'z' {
            SkyCommand::ToggleZoom
        } else if c == '+' || c == '=' {
            SkyCommand::AdjustMagnitude { fainter: true }
        } else if c == '-' {
            SkyCommand::AdjustMagnitude { fainter: false }
        } else {
            match shared_command_exec(c) {
                Some(cmd) => cmd,
                None => SkyCommand::Nothing,
            }
        },
        _ => SkyCommand::Nothing,
    }
}

/// On the sky, `q` and Esc leave a figure zoom rather than quit, and Esc
/// drops a selection rather than quit.
pub proof fn lemma_sky_quits_last(key: Key, ctx: SkyContext)
    requires
        ctx.view_mode == ViewMode::Sky,
        ctx.zoomed || (ctx.has_selection && key == Key::Esc),
        key == Key::Esc || key == Key::Char('q'),
    ensures
        sky_command_spec(key, ctx) != SkyCommand::Quit,
{
}

/// `+` and `=` raise the limiting magnitude (fainter stars appear) and `-`
/// lowers it, on the sky view whether or not the pointer is on.
pub proof fn lemma_magnitude_keys(ctx: SkyContext)
    requires
        ctx.view_mode == ViewMode::Sky,
    ensures
        sky_command_spec(Key::Char('+'), ctx) == (SkyCommand::AdjustMagnitude { fainter: true }),
        sky_command_spec(Key::Char('='), ctx) == (SkyCommand::AdjustMagnitude { fainter: true }),
        sky_command_spec(Key::Char('-'), ctx) == (SkyCommand::AdjustMagnitude { fainter: false }),
{
}

/// The keys that act alike on the sky and on the globe: space pauses, `[`
/// and `]` go back and forward one hour, `{` and `}` one day, `r` returns to
/// the live sky, `o` opens the settings, `t` switches the language, `T`
/// opens the theme picker, `a` toggles animations, `u` cycles the
/// character set, `y` the sky culture and `g` flips between sky and globe.
pub proof fn lemma_shared_keys(ctx: SkyContext)
    ensures
        sky_command_spec(Key::Char(' '), ctx) == SkyCommand::TogglePause,
        sky_command_spec(Key::Char('['), ctx) == SkyCommand::ShiftHours(-1i8),
        sky_command_spec(Key::Char(']'), ctx) == SkyCommand::ShiftHours(1i8),
        sky_command_spec(Key::Char('{'), ctx) == SkyCommand::ShiftDays(-1i8),
        sky_command_spec(Key::Char('}'), ctx) == SkyCommand::ShiftDays(1i8),
        sky_command_spec(Key::Char('r'), ctx) == SkyCommand::ResetTime,
        sky_command_spec(Key::Char('o'), ctx) == SkyCommand::OpenSettings,
        sky_command_spec(Key::Char('t'), ctx) == SkyCommand::ToggleLanguage,
        sky_command_spec(Key::Char('T'), ctx) == SkyCommand::OpenThemePicker,
        sky_command_spec(Key::Char('a'), ctx) == SkyCommand::ToggleAnimations,
        sky_command_spec(Key::Char('u'), ctx) == SkyCommand::NextCharset,
        sky_command_spec(Key::Char('y'), ctx) == SkyCommand::CycleSkyCulture,
        sky_command_spec(Key::Char('g'), ctx) == SkyCommand::ToggleGround,
{
}

/// The sky view's own keys with the pointer off: `/` searches the sky, `s`
/// opens the location setup, `m`, `l`, `c`, `h`, `p` and `d` toggle the moon
/// panel, labels, figure lines, the tonight panel, planets and deep-sky
/// objects, `v` the city tour, `x` the pointer and `z` the figure zoom; Tab
/// and Shift-Tab step through the visible figures and the left and right
/// arrows through the city presets.
pub proof fn lemma_sky_view_keys(ctx: SkyContext)
    requires
        ctx.view_mode == ViewMode::Sky,
        !ctx.pointer_active,
    ensures
        sky_command_spec(Key::Char('/'), ctx) == SkyCommand::OpenSkySearch,
        sky_command_spec(Key::Char('s'), ctx) == SkyCommand::OpenSetup,
        sky_command_spec(Key::Char('m'), ctx) == SkyCommand::ToggleMoonPanel,
        sky_command_spec(Key::Char('l'), ctx) == SkyCommand::ToggleLabels,
        sky_command_spec(Key::Char('c'), ctx) == SkyCommand::ToggleConstellations,
        sky_command_spec(Key::Char('h'), ctx) == SkyCommand::ToggleRecommendations,
        sky_command_spec(Key::Char('p'), ctx) == SkyCommand::TogglePlanets,
        sky_command_spec(Key::Char('d'), ctx) == SkyCommand::ToggleDeepSky,
        sky_command_spec(Key::Char('v'), ctx) == SkyCommand::ToggleTour,
        sky_command_spec(Key::Char('x'), ctx) == SkyCommand::TogglePointer,
        sky_command_spec(Key::Char('z'), ctx) == SkyCommand::ToggleZoom,
        sky_command_spec(Key::Tab, ctx) == (SkyCommand::CycleFigure { forward: true }),
        sky_command_spec(Key::BackTab, ctx) == (SkyCommand::CycleFigure { forward: false }),
        sky_command_spec(Key::Left, ctx) == (SkyCommand::CycleCity { forward: false }),
        sky_command_spec(Key::Right, ctx) == (SkyCommand::CycleCity { forward: true }),
        sky_command_spec(Key::Char('q'), ctx) == (if ctx.zoomed {
            SkyCommand::ToggleZoom
        } else {
            SkyCommand::Quit
        }),
        sky_command_spec(Key::Esc, ctx) == (if ctx.zoomed {
            SkyCommand::ToggleZoom
        } else if ctx.has_selection {
            SkyCommand::ClearSelection
        } else {
            SkyCommand::Quit
        }),
{
}

/// With the pointer on, the arrows move it one cell (up is towards the top
/// row), Esc switches it off and `x` toggles it; other keys act as usual.
pub proof fn lemma_pointer_keys(ctx: SkyContext)
    requires
        ctx.view_mode == ViewMode::Sky,
        ctx.pointer_active,
    ensures
        sky_command_spec(Key::Left, ctx) == (SkyCommand::MovePointer { dx: -1i8, dy: 0i8 }),
        sky_command_spec(Key::Right, ctx) == (SkyCommand::MovePointer { dx: 1i8, dy: 0i8 }),
        sky_command_spec(Key::Up, ctx) == (SkyCommand::MovePointer { dx: 0i8, dy: -1i8 }),
        sky_command_spec(Key::Down, ctx) == (SkyCommand::MovePointer { dx: 0i8, dy: 1i8 }),
        sky_command_spec(Key::Esc, ctx) == SkyCommand::PointerOff,
        sky_command_spec(Key::Char('x'), ctx) == SkyCommand::TogglePointer,
        sky_command_spec(Key::Char('z'), ctx) == SkyCommand::ToggleZoom,
        sky_command_spec(Key::Char('/'), ctx) == SkyCommand::OpenSkySearch,
{
}

/// The globe's own keys: the arrows move the cursor (up is north, right is
/// east), `q` and Esc quit, `s` opens setup from the previewed point and `/`
/// searches the cities.
pub proof fn lemma_globe_keys(ctx: SkyContext)
    requires
        ctx.view_mode == ViewMode::Ground,
    ensures
        sky_command_spec(Key::Left, ctx) == (SkyCommand::MoveCursor { dx: -1i8, dy: 0i8 }),
        sky_command_spec(Key::Right, ctx) == (SkyCommand::MoveCursor { dx: 1i8, dy: 0i8 }),
        sky_command_spec(Key::Up, ctx) == (SkyCommand::MoveCursor { dx: 0i8, dy: 1i8 }),
        sky_command_spec(Key::Down, ctx) == (SkyCommand::MoveCursor { dx: 0i8, dy: -1i8 }),
        sky_command_spec(Key::Esc, ctx) == SkyCommand::Quit,
        sky_command_spec(Key::Char('q'), ctx) == SkyCommand::Quit,
        sky_command_spec(Key::Char('s'), ctx) == SkyCommand::OpenSetupFromPreview,
        sky_command_spec(Key::Char('/'), ctx) == SkyCommand::OpenCitySearch,
        sky_command_spec(Key::Char('p'), ctx) == SkyCommand::Nothing,
        sky_command_spec(Key::Char('+'), ctx) == SkyCommand::Nothing,
{
}

// ---------------------------------------------------------------------------
// The clock tick
// ---------------------------------------------------------------------------

/// Milliseconds a city of the tour stays before the next.
pub const TOUR_STEP_MS: u64 = 4000;

/// The tour moves to its next city once it has shown the current one for
/// the tour step.
pub fn tour_due(touring: bool, since_switch_ms: u64) -> (r: bool)
    ensures
        r == (touring && since_switch_ms >= TOUR_STEP_MS),
{
    touring && since_switch_ms >= TOUR_STEP_MS
}

/// How far a running transition has got: time since it started and its
/// length, in milliseconds.
#[derive(Debug, Clone, Copy, PartialEq, Eq, Structural)]
pub struct Timing {
    pub elapsed_ms: u64,
    pub duration_ms: u64,
}

/// A transition is over once its time has run.
pub open spec fn timing_done(t: Option<Timing>) -> bool {
    match t {
        Some(t) => t.elapsed_ms >= t.duration_ms,
        None => false,
    }
}

/// What a tick of the clock sees of the app.
#[derive(Debug, Clone, Copy, PartialEq, Eq, Structural)]
pub struct TickState {
    pub animations: bool,
    pub animation_tick: u64,
    pub opening_ticks: u8,
    pub sky_transition: Option<Timing>,
    /// The globe is to be entered once the running zoom-out ends.
    pub pending_ground: bool,
    pub pointer_active: bool,
    pub horizon_transition: Option<Timing>,
    pub rotation_transition: Option<Timing>,
}

/// What a tick asks of the app.
#[derive(Debug, Clone, Copy, PartialEq, Eq, Structural)]
pub struct TickOutcome {
    pub animation_tick: u64,
    pub opening_ticks: u8,
    /// The sky transition ended: drop it.
    pub clear_sky: bool,
    /// ... and enter the globe that was waiting for it.
    pub enter_ground: bool,
    /// ... and refresh what the pointer rests on.
    pub update_hover: bool,
    pub clear_horizon: bool,
    pub clear_rotation: bool,
}

/// With animations on, a tick advances the animation counter (wrapping)
/// and counts the opening down to zero. An ended sky transition is dropped;
/// then the globe waiting for it is entered, or else the pointer's list is
/// refreshed when the pointer is on. Ended turns and rotations are dropped.
pub open spec fn tick_spec(s: TickState) -> TickOutcome {
    let sky_done = timing_done(s.sky_transition);
    TickOutcome {
        animation_tick: if s.animations {
            if s.animation_tick == u64::MAX {
                0
            } else {
                (s.animation_tick + 1) as u64
            }
        } else {
            s.animation_tick
        },
        opening_ticks: if s.animations && s.opening_ticks > 0 {
            (s.opening_ticks - 1) as u8
        } else {
            s.opening_ticks
        },
        clear_sky: sky_done,
        enter_ground: sky_done && s.pending_ground,
        update_hover: sky_done && !s.pending_ground && s.pointer_active,
        clear_horizon: timing_done(s.horizon_transition),
        clear_rotation: timing_done(s.rotation_transition),
    }
}

fn timing_over(t: Option<Timing>) -> (r: bool)
    ensures
        r == timing_done(t),
{
    match t {
        Some(t) => t.elapsed_ms >= t.duration_ms,
        None => false,
    }
}

/// One tick of the clock, as `tick_spec` says.
pub fn tick(s: TickState) -> (r: TickOutcome)
    ensures
        r == tick_spec(s),
{
    let (animation_tick, opening_ticks) = if s.animations {
        (s.animation_tick.wrapping_add(1), s.opening_ticks.saturating_sub(1))
    } else {
        (s.animation_tick, s.opening_ticks)
    };
    let sky_done = timing_over(s.sky_transition);
    TickOutcome {
        animation_tick,
        opening_ticks,
        clear_sky: sky_done,
        enter_ground: sky_done && s.pending_ground,
        update_hover: sky_done && !s.pending_ground && s.pointer_active,
        clear_horizon: timing_over(s.horizon_transition),
        clear_rotation: timing_over(s.rotation_transition),
    }
}

} // verus!
