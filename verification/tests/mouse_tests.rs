use termarium::app::Screen;
use termarium::mouse::{
    bordered_inner, canvas_click, centered_rect, click_action, footer_click, inner_area,
    rect_contains, rect_local, scroll_action, search_box, settings_box, setup_box, sky_layout,
    theme_box, Area, ClickAction, ClickContext, ScrollAction, ScrollContext,
};

fn area(x: u16, y: u16, width: u16, height: u16) -> Area {
    Area { x, y, width, height }
}

fn screen_area() -> Area {
    area(0, 0, 120, 40)
}

fn context(screen: Screen) -> ClickContext {
    ClickContext {
        help: false,
        screen,
        theme_picker: false,
        search_results: 3,
        side_panel: false,
        turning: false,
    }
}

#[test]
fn rectangles_hold_their_cells_only() {
    let a = area(2, 3, 4, 2);
    assert!(rect_contains(a, 2, 3));
    assert!(rect_contains(a, 5, 4));
    assert!(!rect_contains(a, 6, 4));
    assert!(!rect_contains(a, 5, 5));
    assert!(!rect_contains(a, 1, 3));
    assert_eq!(rect_local(a, 5, 4), Some((3, 1)));
    assert_eq!(rect_local(a, 6, 4), None);
}

#[test]
fn boxes_are_centred_and_kept_inside_small_screens() {
    assert_eq!(centered_rect(screen_area(), 58, 18), area(31, 11, 58, 18));
    assert_eq!(centered_rect(area(0, 0, 15, 8), 58, 18), area(0, 0, 15, 8));
    assert_eq!(centered_rect(area(0, 0, 50, 30), 10, 4), area(15, 10, 20, 10));
}

#[test]
fn margins_and_borders_shrink_the_box() {
    assert_eq!(inner_area(area(10, 10, 20, 10), 2, 1), area(12, 11, 16, 8));
    assert_eq!(inner_area(area(5, 5, 3, 3), 2, 2), area(0, 0, 0, 0));
    assert_eq!(bordered_inner(area(5, 5, 10, 4)), area(6, 6, 8, 2));
    assert_eq!(bordered_inner(area(5, 5, 1, 1)), area(6, 6, 0, 0));
    assert_eq!(bordered_inner(area(5, 5, 0, 0)), area(5, 5, 0, 0));
}

#[test]
fn dialog_boxes_sit_in_the_middle_of_the_screen() {
    assert_eq!(search_box(screen_area()), area(33, 13, 54, 14));
    assert_eq!(settings_box(screen_area()), area(32, 12, 56, 15));
    assert_eq!(theme_box(screen_area()), area(42, 13, 36, 13));
    assert_eq!(setup_box(screen_area()), area(22, 10, 76, 20));
}

#[test]
fn sky_screen_has_header_canvas_and_footer() {
    let layout = sky_layout(screen_area(), false);
    assert_eq!(layout.header, area(0, 0, 120, 3));
    assert_eq!(layout.canvas_outer, area(0, 3, 120, 35));
    assert_eq!(layout.canvas_inner, area(1, 4, 118, 33));
    assert_eq!(layout.footer, area(0, 38, 120, 2));
    assert_eq!(layout.side_panel, None);
}

#[test]
fn side_panel_goes_right_on_wide_screens_and_below_on_tall_ones() {
    let wide = sky_layout(screen_area(), true);
    assert_eq!(wide.side_panel, Some(area(84, 0, 36, 40)));
    assert_eq!(wide.header, area(0, 0, 84, 3));
    let tall = sky_layout(area(0, 0, 80, 40), true);
    assert_eq!(tall.side_panel, Some(area(0, 30, 80, 10)));
    assert_eq!(tall.footer, area(0, 28, 80, 2));
    let small = sky_layout(area(0, 0, 80, 24), true);
    assert_eq!(small.side_panel, None);
}

#[test]
fn footer_thirds_open_search_switch_view_and_open_settings() {
    let footer = area(0, 38, 120, 2);
    assert_eq!(footer_click(footer, 5), ClickAction::OpenSearch);
    assert_eq!(footer_click(footer, 50), ClickAction::ToggleGroundSky);
    assert_eq!(footer_click(footer, 100), ClickAction::OpenSettings);
    assert_eq!(footer_click(area(0, 38, 2, 2), 0), ClickAction::Ignore);
}

#[test]
fn canvas_clicks_give_canvas_cells() {
    let layout = sky_layout(screen_area(), false);
    assert_eq!(canvas_click(layout, false, 10, 10), ClickAction::Canvas { x: 9, y: 6 });
    assert_eq!(canvas_click(layout, true, 10, 10), ClickAction::Ignore);
    assert_eq!(canvas_click(layout, false, 0, 10), ClickAction::Ignore);
    assert_eq!(canvas_click(layout, true, 5, 39), ClickAction::OpenSearch);
    let ctx = context(Screen::Sky);
    assert_eq!(click_action(ctx, screen_area(), 10, 10), ClickAction::Canvas { x: 9, y: 6 });
    assert_eq!(click_action(ctx, screen_area(), 100, 39), ClickAction::OpenSettings);
}

#[test]
fn help_closes_on_any_click() {
    let mut ctx = context(Screen::Search);
    ctx.help = true;
    assert_eq!(click_action(ctx, screen_area(), 0, 0), ClickAction::CloseHelp);
}

#[test]
fn search_clicks_open_the_listed_result() {
    let ctx = context(Screen::Search);
    assert_eq!(click_action(ctx, screen_area(), 40, 15), ClickAction::ActivateSearchResult(0));
    assert_eq!(click_action(ctx, screen_area(), 40, 17), ClickAction::ActivateSearchResult(2));
    assert_eq!(click_action(ctx, screen_area(), 40, 18), ClickAction::Ignore);
    assert_eq!(click_action(ctx, screen_area(), 40, 13), ClickAction::Ignore);
    assert_eq!(click_action(ctx, screen_area(), 10, 15), ClickAction::Ignore);
}

#[test]
fn settings_clicks_change_the_row_by_half() {
    let ctx = context(Screen::Settings);
    assert_eq!(
        click_action(ctx, screen_area(), 40, 12),
        ClickAction::AdjustSetting { index: 0, forward: false }
    );
    assert_eq!(
        click_action(ctx, screen_area(), 70, 13),
        ClickAction::AdjustSetting { index: 1, forward: true }
    );
    assert_eq!(click_action(ctx, screen_area(), 40, 26), ClickAction::Ignore);
}

#[test]
fn theme_picker_clicks_apply_a_theme_or_close() {
    let mut ctx = context(Screen::Settings);
    ctx.theme_picker = true;
    assert_eq!(click_action(ctx, screen_area(), 50, 13), ClickAction::ApplyTheme(0));
    assert_eq!(click_action(ctx, screen_area(), 50, 23), ClickAction::ApplyTheme(10));
    assert_eq!(click_action(ctx, screen_area(), 50, 25), ClickAction::Ignore);
    assert_eq!(click_action(ctx, screen_area(), 5, 5), ClickAction::CloseThemePicker);
}

#[test]
fn setup_clicks_step_the_city_or_save() {
    let ctx = context(Screen::Setup);
    assert_eq!(click_action(ctx, screen_area(), 30, 12), ClickAction::CycleSetupPreset(false));
    assert_eq!(click_action(ctx, screen_area(), 70, 12), ClickAction::CycleSetupPreset(true));
    assert_eq!(click_action(ctx, screen_area(), 30, 19), ClickAction::CommitSetup);
    assert_eq!(click_action(ctx, screen_area(), 30, 11), ClickAction::Ignore);
}

fn scroll_context(screen: Screen) -> ScrollContext {
    ScrollContext {
        help: false,
        screen,
        search_selected: 0,
        search_results: 0,
        theme_picker: false,
        theme_selected: 3,
        setting_selected: 5,
    }
}

#[test]
fn wheel_moves_the_selection_of_the_list_in_front() {
    let mut search = scroll_context(Screen::Search);
    assert_eq!(scroll_action(search, false), ScrollAction::SelectSearchResult(0));
    assert_eq!(scroll_action(search, true), ScrollAction::Ignore);
    search.search_results = 4;
    assert_eq!(scroll_action(search, true), ScrollAction::SelectSearchResult(1));
    let mut settings = scroll_context(Screen::Settings);
    assert_eq!(scroll_action(settings, false), ScrollAction::SelectSetting(4));
    settings.theme_picker = true;
    assert_eq!(scroll_action(settings, true), ScrollAction::SelectTheme(4));
    assert_eq!(scroll_action(scroll_context(Screen::Setup), true), ScrollAction::MoveSetupField(1));
    assert_eq!(scroll_action(scroll_context(Screen::Setup), false), ScrollAction::MoveSetupField(0));
    assert_eq!(scroll_action(scroll_context(Screen::Sky), true), ScrollAction::Ignore);
    let mut help = scroll_context(Screen::Settings);
    help.help = true;
    assert_eq!(scroll_action(help, true), ScrollAction::Ignore);
}
