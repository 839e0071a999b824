use termarium::app::{
    PointerState, Screen, SearchMode, SearchResult, SearchState, SettingChange, SettingsEffect,
    SettingsState, SetupState, Target, ViewMode,
};
use termarium::config::{Charset, LandscapeMode, Language, SkyCulture, SkyOrientation, Theme};
use termarium::keys::{
    day_shift_style, ground_command, hour_shift_style, is_held, pointer_step, route, sky_command,
    tick, tour_due,
    Key, KeyKind, TickState, Timing,
    Route, ShiftStyle, SkyCommand, SkyContext, Stamp, MOVE_HOLD_WINDOW_MS,
    TIME_SHIFT_HOLD_WINDOW_MS,
};
use termarium::search::SearchEffect;
use termarium::selection::{RunningTransition, Selection, TransitionChange};
use termarium::setup::{setup_preset_matches, SetupEffect};

fn sky_ctx() -> SkyContext {
    SkyContext {
        view_mode: ViewMode::Sky,
        pointer_active: false,
        zoomed: false,
        has_selection: false,
    }
}

fn shanghai_form() -> SetupState {
    SetupState {
        preset_index: 0,
        preset_query: String::new(),
        field: 0,
        name: "Shanghai".to_string(),
        latitude: "31.2304".to_string(),
        longitude: "121.4737".to_string(),
        timezone: "Asia/Shanghai".to_string(),
    }
}

fn empty_selection() -> Selection {
    Selection {
        target: None,
        zoomed: false,
        zoom_code: None,
    }
}

fn press(key: Key) -> Route {
    route(KeyKind::Press, key, false, Screen::Sky)
}

#[test]
fn setup_preset_field_searches_and_saves_city() {
    assert_eq!(
        press(Key::Char('s')),
        Route::Screen {
            screen: Screen::Sky,
            close_help: false
        }
    );
    assert_eq!(sky_command(Key::Char('s'), sky_ctx()), SkyCommand::OpenSetup);

    let mut setup = shanghai_form();
    assert_eq!(setup.handle_key(Key::Down, true), SetupEffect::Nothing);
    assert_eq!(setup.field, 1);
    setup.handle_key(Key::Up, true);
    assert_eq!(setup.field, 0);
    for c in ['l', 'o', 'n'] {
        setup.handle_key(Key::Char(c), true);
    }
    assert_eq!(setup.preset_label(Language::En), "London");
    assert_eq!(setup.name, "London");
    assert_eq!(setup.timezone, "Europe/London");
    assert_eq!(setup.preset_query, "lon");
    for _ in 0..3 {
        setup.handle_key(Key::Backspace, true);
    }
    assert!(setup.preset_query.is_empty());
    assert_eq!(setup.preset_label(Language::En), "London");
    for c in ['l', 'o', 'n'] {
        setup.handle_key(Key::Char(c), true);
    }

    assert_eq!(setup.handle_key(Key::Enter, true), SetupEffect::Nothing);
    assert_eq!(setup.field, 1);
    assert!(setup.preset_query.is_empty());

    assert_eq!(setup.handle_key(Key::Enter, true), SetupEffect::Commit);
    assert_eq!(setup.name, "London");
    assert_eq!(setup.timezone, "Europe/London");
    assert_eq!(setup.latitude, "51.5072");
    assert_eq!(setup.longitude, "-0.1276");
}

#[test]
fn setup_preset_search_matches_chinese_city_names() {
    let mut setup = shanghai_form();
    setup.handle_key(Key::Char('东'), true);
    setup.handle_key(Key::Char('京'), true);
    assert_eq!(setup.preset_label(Language::En), "Tokyo");
    assert_eq!(setup.name, "Tokyo");
}

#[test]
fn setup_matches_list_every_preset_for_a_blank_query() {
    let all = setup_preset_matches("   ");
    assert_eq!(all.len(), termarium::app::PRESET_COUNT);
    assert_eq!(all[0], 0);
    assert!(setup_preset_matches("no such city").is_empty());
}

#[test]
fn setup_escape_quits_until_a_place_is_saved() {
    let mut setup = shanghai_form();
    assert_eq!(setup.handle_key(Key::Esc, false), SetupEffect::Quit);
    assert_eq!(setup.handle_key(Key::Esc, true), SetupEffect::Close);
}

#[test]
fn setup_arrows_step_through_presets() {
    let mut setup = shanghai_form();
    setup.handle_key(Key::Right, true);
    assert_eq!(setup.preset_index, 1);
    assert_eq!(setup.name, "Beijing");
    setup.handle_key(Key::Left, true);
    setup.handle_key(Key::Left, true);
    assert_eq!(setup.preset_index, termarium::app::PRESET_COUNT - 1);
    // The custom placeholder keeps the values already in the form.
    assert_eq!(setup.name, "Shanghai");
}

#[test]
fn repeated_hour_shift_is_immediate_and_uses_committed_target() {
    let first = is_held(KeyKind::Press, None, Key::Char(']'), 1_000, TIME_SHIFT_HOLD_WINDOW_MS);
    assert!(!first);
    assert_eq!(hour_shift_style(first, true), ShiftStyle::Animated(720));
    let last = Some(Stamp {
        key: Key::Char(']'),
        at_ms: 1_000,
    });
    let second = is_held(KeyKind::Repeat, last, Key::Char(']'), 5_000, TIME_SHIFT_HOLD_WINDOW_MS);
    assert!(second);
    assert_eq!(hour_shift_style(second, true), ShiftStyle::Immediate);
}

#[test]
fn day_shift_uses_full_animation_for_single_press() {
    assert_eq!(
        sky_command(Key::Char('}'), sky_ctx()),
        SkyCommand::ShiftDays(1)
    );
    let held = is_held(KeyKind::Press, None, Key::Char('}'), 0, TIME_SHIFT_HOLD_WINDOW_MS);
    assert_eq!(day_shift_style(held, true), ShiftStyle::Animated(720));
}

#[test]
fn repeated_day_shift_uses_fast_animation_and_committed_target() {
    let last = Some(Stamp {
        key: Key::Char('}'),
        at_ms: 0,
    });
    let held = is_held(KeyKind::Repeat, last, Key::Char('}'), 10_000, TIME_SHIFT_HOLD_WINDOW_MS);
    assert_eq!(day_shift_style(held, true), ShiftStyle::Animated(160));
}

#[test]
fn close_day_shift_press_is_treated_as_fast_repeat() {
    assert_eq!(
        sky_command(Key::Char('{'), sky_ctx()),
        SkyCommand::ShiftDays(-1)
    );
    let last = Some(Stamp {
        key: Key::Char('{'),
        at_ms: 2_000,
    });
    let held = is_held(KeyKind::Press, last, Key::Char('{'), 2_100, TIME_SHIFT_HOLD_WINDOW_MS);
    assert!(held);
    assert_eq!(day_shift_style(held, true), ShiftStyle::Animated(160));
    assert!(!is_held(KeyKind::Press, last, Key::Char('{'), 2_181, TIME_SHIFT_HOLD_WINDOW_MS));
    assert!(!is_held(KeyKind::Press, last, Key::Char('}'), 2_100, TIME_SHIFT_HOLD_WINDOW_MS));
    // A clock that steps backwards counts as no time passing.
    assert!(is_held(KeyKind::Press, last, Key::Char('{'), 1_000, MOVE_HOLD_WINDOW_MS));
}

#[test]
fn time_shift_does_not_animate_when_animations_are_off() {
    assert_eq!(hour_shift_style(false, false), ShiftStyle::Immediate);
    assert_eq!(day_shift_style(false, false), ShiftStyle::Immediate);
    assert_eq!(day_shift_style(true, false), ShiftStyle::Immediate);
}

#[test]
fn esc_clears_selected_target_before_quitting() {
    let mut selection = empty_selection();
    selection.target = Some(Target::Constellation("Ori".to_string()));
    let ctx = SkyContext {
        has_selection: true,
        ..sky_ctx()
    };
    assert_eq!(sky_command(Key::Esc, ctx), SkyCommand::ClearSelection);
    assert_eq!(selection.clear(), TransitionChange::Clear);
    assert!(selection.target.is_none());
    assert_eq!(sky_command(Key::Esc, sky_ctx()), SkyCommand::Quit);
}

#[test]
fn help_closes_or_passes_shortcuts_through() {
    assert_eq!(
        route(KeyKind::Press, Key::Char('q'), true, Screen::Sky),
        Route::CloseHelp
    );
    assert_eq!(
        route(KeyKind::Press, Key::Char('c'), true, Screen::Sky),
        Route::Screen {
            screen: Screen::Sky,
            close_help: true
        }
    );
    assert_eq!(
        sky_command(Key::Char('c'), sky_ctx()),
        SkyCommand::ToggleConstellations
    );
    assert_eq!(press(Key::Char('?')), Route::OpenHelp);
    assert_eq!(
        route(KeyKind::Release, Key::Char('q'), false, Screen::Sky),
        Route::Ignore
    );
}

#[test]
fn landscape_setting_cycles_modes() {
    let mut settings = SettingsState {
        selected: 11,
        theme_selected: 0,
        theme_picker: false,
    };
    assert_eq!(
        settings.handle_key(Key::Enter, Theme::Midnight),
        SettingsEffect::Change(SettingChange::Landscape)
    );
    assert_eq!(LandscapeMode::Horizon.next(), LandscapeMode::Bearings);
    assert_eq!(LandscapeMode::Bearings.next(), LandscapeMode::Off);
}

#[test]
fn sky_culture_setting_cycles_modes() {
    let mut settings = SettingsState {
        selected: 9,
        theme_selected: 0,
        theme_picker: false,
    };
    assert_eq!(
        settings.handle_key(Key::Enter, Theme::Midnight),
        SettingsEffect::Change(SettingChange::SkyCulture)
    );
    assert_eq!(SkyCulture::Western.next(), SkyCulture::Chinese);
    assert_eq!(SkyCulture::Chinese.next(), SkyCulture::Western);
}

#[test]
fn sky_orientation_setting_cycles_modes() {
    let mut settings = SettingsState {
        selected: 12,
        theme_selected: 0,
        theme_picker: false,
    };
    assert_eq!(
        settings.handle_key(Key::Enter, Theme::Midnight),
        SettingsEffect::Change(SettingChange::SkyOrientation)
    );
    assert_eq!(SkyOrientation::Observer.next(), SkyOrientation::MapStyle);
    assert_eq!(SkyOrientation::MapStyle.next(), SkyOrientation::Observer);
}

#[test]
fn settings_rows_name_their_settings() {
    let mut settings = SettingsState {
        selected: 0,
        theme_selected: 0,
        theme_picker: false,
    };
    assert_eq!(
        settings.handle_key(Key::Right, Theme::Nord),
        SettingsEffect::Change(SettingChange::Language)
    );
    settings.select(2);
    assert_eq!(
        settings.handle_key(Key::Left, Theme::Nord),
        SettingsEffect::Change(SettingChange::Charset)
    );
    assert_eq!(Charset::Auto.next(), Charset::Ascii);
    settings.select(99);
    assert_eq!(settings.selected, 13);
    assert_eq!(
        settings.handle_key(Key::Left, Theme::Nord),
        SettingsEffect::Change(SettingChange::Magnitude { fainter: false })
    );
    assert_eq!(
        settings.handle_key(Key::Enter, Theme::Nord),
        SettingsEffect::Change(SettingChange::Magnitude { fainter: true })
    );
    settings.handle_key(Key::Down, Theme::Nord);
    assert_eq!(settings.selected, 13);
    assert_eq!(settings.handle_key(Key::Char('o'), Theme::Nord), SettingsEffect::Close);
}

#[test]
fn theme_shortcut_opens_picker_without_cycling_theme() {
    assert_eq!(
        sky_command(Key::Char('T'), sky_ctx()),
        SkyCommand::OpenThemePicker
    );
    let mut settings = SettingsState {
        selected: 0,
        theme_selected: 0,
        theme_picker: false,
    };
    settings.open_theme_picker(Theme::Midnight);
    assert!(settings.theme_picker);
    assert_eq!(settings.selected, 1);
    assert_eq!(settings.theme_selected, 0);
}

#[test]
fn theme_setting_opens_picker_and_applies_selected_theme() {
    let mut settings = SettingsState {
        selected: 1,
        theme_selected: 0,
        theme_picker: false,
    };
    assert_eq!(
        settings.handle_key(Key::Enter, Theme::Midnight),
        SettingsEffect::ThemePickerOpened
    );
    assert!(settings.theme_picker);
    settings.handle_key(Key::Down, Theme::Midnight);
    assert_eq!(
        settings.handle_key(Key::Enter, Theme::Midnight),
        SettingsEffect::ApplyTheme(Theme::Aurora)
    );
    assert!(!settings.theme_picker);
}

#[test]
fn theme_picker_stays_inside_the_list() {
    let mut settings = SettingsState {
        selected: 1,
        theme_selected: 0,
        theme_picker: true,
    };
    settings.handle_key(Key::Up, Theme::Midnight);
    assert_eq!(settings.theme_selected, 0);
    for _ in 0..20 {
        settings.handle_key(Key::Tab, Theme::Midnight);
    }
    assert_eq!(settings.theme_selected, 10);
    assert_eq!(
        settings.handle_key(Key::Right, Theme::Midnight),
        SettingsEffect::ApplyTheme(Theme::Mono)
    );
    settings.theme_picker = true;
    assert_eq!(settings.handle_key(Key::Char('q'), Theme::Mono), SettingsEffect::Nothing);
    assert!(!settings.theme_picker);
}

#[test]
fn sky_culture_shortcut_cycles_modes_without_footer_setting() {
    let mut selection = Selection {
        target: Some(Target::Constellation("Ori".to_string())),
        zoomed: true,
        zoom_code: Some("Ori".to_string()),
    };
    assert_eq!(
        sky_command(Key::Char('y'), sky_ctx()),
        SkyCommand::CycleSkyCulture
    );
    assert_eq!(selection.culture_changed(), TransitionChange::Clear);
    assert_eq!(selection.target, None);
    assert!(!selection.zoomed);
    assert_eq!(selection.zoom_code, None);
    assert_eq!(ground_command(Key::Char('y')), SkyCommand::CycleSkyCulture);

    let mut star = Selection {
        target: Some(Target::Star(8102)),
        zoomed: false,
        zoom_code: None,
    };
    assert_eq!(star.culture_changed(), TransitionChange::Keep);
    assert_eq!(star.target, Some(Target::Star(8102)));
}

#[test]
fn chinese_sky_tab_and_zoom_use_asterisms() {
    let codes = vec!["CN003".to_string(), "CN010".to_string()];
    let mut selection = empty_selection();
    assert_eq!(
        sky_command(Key::Tab, sky_ctx()),
        SkyCommand::CycleFigure { forward: true }
    );
    assert_eq!(
        selection.cycle_figure(&codes, true, true),
        Some(TransitionChange::Keep)
    );
    let selected = selection.selected_code().unwrap();
    assert!(selected.starts_with("CN"));
    let (zoomed, change) = selection.zoom_in(selected.clone(), true, true);
    assert!(zoomed);
    assert!(selection.zoomed);
    assert_eq!(selection.zoom_code, Some(selected.clone()));
    assert_eq!(change, TransitionChange::ZoomIn(selected));
}

#[test]
fn constellation_zoom_toggles_and_survives_tab_cycle() {
    let codes = vec!["Ori".to_string(), "Tau".to_string(), "Gem".to_string()];
    let mut selection = empty_selection();
    selection.cycle_figure(&codes, true, true);
    let first = selection.selected_code().unwrap();
    let (_, change) = selection.zoom_in(first.clone(), true, true);
    assert_eq!(change, TransitionChange::ZoomIn(first.clone()));
    assert_eq!(selection.zoom_code, Some(first.clone()));

    let ctx = SkyContext {
        zoomed: true,
        has_selection: true,
        ..sky_ctx()
    };
    assert_eq!(
        sky_command(Key::Tab, ctx),
        SkyCommand::CycleFigure { forward: true }
    );
    let change = selection.cycle_figure(&codes, true, true).unwrap();
    assert!(selection.zoomed);
    let second = selection.selected_code().unwrap();
    assert_ne!(second, first);
    assert_eq!(selection.zoom_code, Some(second.clone()));
    assert_eq!(
        change,
        TransitionChange::Zoom {
            from: first,
            to: second
        }
    );

    assert_eq!(sky_command(Key::Esc, ctx), SkyCommand::ToggleZoom);
    let change = selection.zoom_out(true);
    assert!(!selection.zoomed);
    assert!(selection.zoom_code.is_none());
    assert!(selection.selected_code().is_some());
    assert!(matches!(change, TransitionChange::ZoomOut(_)));
}

#[test]
fn q_exits_constellation_zoom_before_quitting() {
    let mut selection = empty_selection();
    selection.zoom_in("Ori".to_string(), true, true);
    let ctx = SkyContext {
        zoomed: true,
        ..sky_ctx()
    };
    assert_eq!(sky_command(Key::Char('q'), ctx), SkyCommand::ToggleZoom);
    selection.zoom_out(true);
    assert!(!selection.zoomed);
    assert_eq!(sky_command(Key::Char('q'), sky_ctx()), SkyCommand::Quit);
}

#[test]
fn hidden_figures_are_not_zoomed() {
    let mut selection = empty_selection();
    selection.select_code("Cru".to_string(), true);
    let (zoomed, change) = selection.zoom_in("Cru".to_string(), false, true);
    assert!(!zoomed);
    assert_eq!(change, TransitionChange::Keep);
    assert!(!selection.zoomed);
    assert_eq!(selection.selected_code(), Some("Cru".to_string()));
}

#[test]
fn search_results_outside_figures_leave_the_zoom() {
    let mut selection = empty_selection();
    selection.zoom_in("Ori".to_string(), true, true);
    let change = selection.select_result(Target::Constellation("ori".to_string()), true);
    assert_eq!(change, TransitionChange::Keep);
    assert_eq!(selection.zoom_code, Some("ori".to_string()));
    let change = selection.select_result(Target::Star(91262), true);
    assert_eq!(change, TransitionChange::Clear);
    assert!(!selection.zoomed);
    assert_eq!(selection.target, Some(Target::Star(91262)));
}

#[test]
fn pointer_keys_take_over_while_the_pointer_is_on() {
    let ctx = SkyContext {
        pointer_active: true,
        ..sky_ctx()
    };
    assert_eq!(sky_command(Key::Esc, ctx), SkyCommand::PointerOff);
    assert_eq!(
        sky_command(Key::Up, ctx),
        SkyCommand::MovePointer { dx: 0, dy: -1 }
    );
    assert_eq!(sky_command(Key::Char('x'), ctx), SkyCommand::TogglePointer);
    assert_eq!(sky_command(Key::Char('z'), ctx), SkyCommand::ToggleZoom);
    assert_eq!(
        sky_command(Key::Left, sky_ctx()),
        SkyCommand::CycleCity { forward: false }
    );
    let ground = SkyContext {
        view_mode: ViewMode::Ground,
        ..ctx
    };
    assert_eq!(
        sky_command(Key::Up, ground),
        SkyCommand::MoveCursor { dx: 0, dy: 1 }
    );
    assert_eq!(sky_command(Key::Char('s'), ground), SkyCommand::OpenSetupFromPreview);
    assert_eq!(sky_command(Key::Char('/'), ground), SkyCommand::OpenCitySearch);
    assert_eq!(sky_command(Key::Char('m'), ground), SkyCommand::Nothing);
}

#[test]
fn pointer_stays_on_a_resized_canvas() {
    let mut pointer = PointerState::default();
    pointer.active = true;
    assert!(pointer.set_canvas(100, 28));
    assert_eq!((pointer.x, pointer.y), (50, 14));
    pointer.move_by(-200, 5);
    assert_eq!((pointer.x, pointer.y), (0, 19));
    pointer.move_by(500, 500);
    assert_eq!((pointer.x, pointer.y), (99, 27));
    pointer.set_canvas(50, 14);
    assert_eq!((pointer.x, pointer.y), (49, 13));
    pointer.x = 10;
    pointer.set_canvas(100, 14);
    assert_eq!(pointer.x, 20);
    assert!(!pointer.set_canvas(0, 14));
    assert_eq!((pointer.width, pointer.height), (0, 0));
    pointer.move_by(3, 3);
    assert_eq!(pointer.x, 20);
}

fn result(label: &str) -> SearchResult {
    SearchResult {
        label: label.to_string(),
        detail: String::new(),
        target: Target::Moon,
    }
}

#[test]
fn search_box_edits_and_moves() {
    let mut search = SearchState::new(SearchMode::Sky, Language::En);
    assert_eq!(search.handle_key(Key::Char('v'), true), SearchEffect::Refresh);
    assert_eq!(search.handle_key(Key::Char('e'), true), SearchEffect::Refresh);
    assert_eq!(search.query, "ve");
    search.handle_key(Key::Backspace, true);
    assert_eq!(search.query, "v");
    search.set_results(vec![result("a"), result("b"), result("c")]);
    search.handle_key(Key::Down, true);
    search.handle_key(Key::Down, true);
    search.handle_key(Key::Down, true);
    assert_eq!(search.selected, 2);
    assert_eq!(search.handle_key(Key::Enter, true), SearchEffect::Activate(2));
    search.set_results(vec![result("a")]);
    assert_eq!(search.selected, 0);
    search.handle_key(Key::Up, true);
    assert_eq!(search.selected, 0);
    assert_eq!(search.handle_key(Key::Esc, true), SearchEffect::Close);
    let mut cities = SearchState::new(SearchMode::City, Language::En);
    assert_eq!(cities.handle_key(Key::Esc, false), SearchEffect::Quit);
    cities.select(1000);
    assert_eq!(cities.selected, cities.results.len() - 1);
}

fn tick_state() -> TickState {
    TickState {
        animations: true,
        animation_tick: 5,
        opening_ticks: 2,
        sky_transition: None,
        pending_ground: false,
        pointer_active: false,
        horizon_transition: None,
        rotation_transition: None,
    }
}

#[test]
fn ticks_count_animation_and_opening_only_when_animating() {
    let out = tick(tick_state());
    assert_eq!((out.animation_tick, out.opening_ticks), (6, 1));
    let mut state = tick_state();
    state.opening_ticks = 0;
    state.animation_tick = u64::MAX;
    let out = tick(state);
    assert_eq!((out.animation_tick, out.opening_ticks), (0, 0));
    state.animations = false;
    state.opening_ticks = 3;
    let out = tick(state);
    assert_eq!((out.animation_tick, out.opening_ticks), (u64::MAX, 3));
}

#[test]
fn ended_transitions_are_dropped_and_waiting_globe_entered() {
    let mut state = tick_state();
    state.sky_transition = Some(Timing { elapsed_ms: 720, duration_ms: 720 });
    state.pending_ground = true;
    state.pointer_active = true;
    let out = tick(state);
    assert!(out.clear_sky && out.enter_ground && !out.update_hover);
    state.pending_ground = false;
    let out = tick(state);
    assert!(out.clear_sky && !out.enter_ground && out.update_hover);
    state.sky_transition = Some(Timing { elapsed_ms: 100, duration_ms: 720 });
    state.horizon_transition = Some(Timing { elapsed_ms: 900, duration_ms: 720 });
    state.rotation_transition = Some(Timing { elapsed_ms: 0, duration_ms: 0 });
    let out = tick(state);
    assert!(!out.clear_sky && !out.enter_ground && !out.update_hover);
    assert!(out.clear_horizon && out.clear_rotation);
}

#[test]
fn tour_moves_on_after_four_seconds() {
    assert!(!tour_due(true, 3999));
    assert!(tour_due(true, 4000));
    assert!(!tour_due(false, 10_000));
}

fn zoomed_on(code: &str) -> Selection {
    Selection {
        target: Some(Target::Constellation(code.to_string())),
        zoomed: true,
        zoom_code: Some(code.to_string()),
    }
}

#[test]
fn globe_waits_for_zoom_out_of_the_figure_in_view() {
    let mut selection = zoomed_on("Ori");
    assert_eq!(selection.leave_for_globe(true), Some("Ori".to_string()));
    assert!(!selection.zoomed);
    assert_eq!(selection.zoom_code, None);
    assert_eq!(selection.target, Some(Target::Constellation("Ori".to_string())));

    let mut selection = zoomed_on("Ori");
    assert_eq!(selection.leave_for_globe(false), None);
    assert!(!selection.zoomed);

    let mut selection = empty_selection();
    assert_eq!(selection.leave_for_globe(true), None);

    let mut selection = zoomed_on("Cyg");
    selection.unzoom();
    assert!(!selection.zoomed);
    assert_eq!(selection.target, Some(Target::Constellation("Cyg".to_string())));
}

#[test]
fn zoomed_sky_draws_the_figure_of_the_running_zoom() {
    let selection = zoomed_on("Ori");
    let half = Timing { elapsed_ms: 300, duration_ms: 720 };
    let late = Timing { elapsed_ms: 360, duration_ms: 720 };
    let pan = Some(RunningTransition::Zoom { from: "Ori".to_string(), to: "Tau".to_string() });
    assert_eq!(selection.zoom_render_code(&pan, half), Some("Ori".to_string()));
    assert_eq!(selection.zoom_render_code(&pan, late), Some("Tau".to_string()));
    assert_eq!(
        selection.zoom_render_code(&pan, Timing { elapsed_ms: 0, duration_ms: 0 }),
        Some("Tau".to_string())
    );
    let out = Some(RunningTransition::ZoomOut("Cyg".to_string()));
    assert_eq!(selection.zoom_render_code(&out, half), Some("Cyg".to_string()));
    assert_eq!(selection.zoom_render_code(&Some(RunningTransition::Time), half), Some("Ori".to_string()));
    assert_eq!(empty_selection().zoom_render_code(&None, half), None);
}

#[test]
fn sky_stays_zoomed_while_zooming_out() {
    let selection = empty_selection();
    assert!(!selection.should_render_zoomed(&None));
    assert!(selection.should_render_zoomed(&Some(RunningTransition::ZoomOut("Ori".to_string()))));
    assert!(selection.should_render_zoomed(&Some(RunningTransition::PlaceZoomOut("Ori".to_string()))));
    assert!(!selection.should_render_zoomed(&Some(RunningTransition::ZoomIn("Ori".to_string()))));
    assert!(zoomed_on("Ori").should_render_zoomed(&None));
}

#[test]
fn held_arrows_move_the_pointer_faster() {
    let (step, stamp) = pointer_step(KeyKind::Press, None, Key::Left, 1000);
    assert_eq!(step, 1);
    assert_eq!(stamp, Stamp { key: Key::Left, at_ms: 1000 });
    let (step, _) = pointer_step(KeyKind::Press, Some(stamp), Key::Left, 1100);
    assert_eq!(step, 2);
    let (step, _) = pointer_step(KeyKind::Press, Some(stamp), Key::Left, 1200);
    assert_eq!(step, 1);
    let (step, _) = pointer_step(KeyKind::Press, Some(stamp), Key::Right, 1100);
    assert_eq!(step, 1);
    let (step, _) = pointer_step(KeyKind::Repeat, None, Key::Up, 0);
    assert_eq!(step, 2);
}

#[test]
fn pointer_toggles_on_its_canvas_and_forgets_hits_when_off() {
    let mut pointer = PointerState {
        active: false,
        x: 50,
        y: 2,
        width: 20,
        height: 10,
        hovered: None,
        hits: Vec::new(),
    };
    assert!(pointer.toggle());
    assert_eq!((pointer.x, pointer.y), (19, 2));
    pointer.hovered = Some(Target::Star(7));
    pointer.hits = vec![Target::Star(7)];
    assert!(!pointer.toggle());
    assert_eq!(pointer.hovered, None);
    assert!(pointer.hits.is_empty());
    assert_eq!((pointer.x, pointer.y), (19, 2));
}
