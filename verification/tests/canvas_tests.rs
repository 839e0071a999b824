use termarium::app::presets;
use termarium::canvas::{
    canvas_label_char, canvas_label_char_width, canvas_label_width, draw_label, draw_pointer,
    draw_text,
    grid_to_lines, lines_to_grid,
    line_char, moon_cell, preset_city_label, selected_symbol,
};
use termarium::config::{LandscapeMode, Language, SkyOrientation};
use termarium::labels::{
    footer_mouse_line, landscape_label, sky_orientation_label, SkyLight,
};

#[test]
fn line_chars_are_single_width_ascii() {
    for ch in [
        line_char(0, 1, false),
        line_char(1, 0, false),
        line_char(1, 1, false),
        line_char(1, -1, false),
    ] {
        assert!(ch.is_ascii());
    }
    assert_eq!(line_char(0, 1, false), '|');
    assert_eq!(line_char(1, 0, false), '-');
    assert_eq!(line_char(-1, -1, false), '\\');
    assert_eq!(line_char(1, -1, true), '╱');
    assert_eq!(line_char(2, 3, true), '╲');
}

#[test]
fn moon_cells_shade_lit_halves() {
    assert_eq!(moon_cell(None, None, true), ' ');
    assert_eq!(moon_cell(Some(true), Some(true), true), '█');
    assert_eq!(moon_cell(Some(true), Some(false), false), '|');
    assert_eq!(moon_cell(None, Some(true), false), '\\');
    assert_eq!(moon_cell(Some(false), None, true), '░');
    assert_eq!(selected_symbol(true), '◎');
    assert_eq!(selected_symbol(false), '@');
}

#[test]
fn canvas_text_accounts_for_wide_chinese_cells() {
    assert_eq!(canvas_label_width("北京A", true), 5);
    assert_eq!(canvas_label_width("北京A", false), 1);
    assert_eq!(canvas_label_width("Vega", false), 4);
    assert_eq!(canvas_label_char('北', false), None);
    assert_eq!(canvas_label_char('北', true), Some('北'));
    assert_eq!(canvas_label_char('\u{7}', false), Some('\u{7}'));
    assert_eq!(canvas_label_char('\u{85}', true), None);
    assert_eq!(canvas_label_char_width('北', true), 2);
    assert_eq!(canvas_label_char_width('\u{301}', true), 1);

    let mut grid = vec![vec![(' ', 0u8); 8]];
    draw_text(&mut grid, 0, 0, "北京A", 7u8, true);
    let row: String = grid[0].iter().map(|cell| cell.0).collect();
    assert_eq!(row, "北 京 A   ");
    assert!(grid[0][..5].iter().all(|cell| cell.1 == 7));
    assert!(grid[0][5..].iter().all(|cell| cell.1 == 0));
}

#[test]
fn text_stops_before_running_off_the_row() {
    let mut grid = vec![vec![('.', 0u8); 4], vec![('.', 0u8); 3]];
    draw_text(&mut grid, 1, 0, "a北北", 1u8, true);
    let row: String = grid[0].iter().map(|cell| cell.0).collect();
    assert_eq!(row, ".a北 ");
    draw_text(&mut grid, 0, 1, "北\u{7}x", 2u8, false);
    let row: String = grid[1].iter().map(|cell| cell.0).collect();
    assert_eq!(row, "\u{7}x.");
    draw_label(&mut grid, 0, 1, "zz", 3u8, false);
    let row: String = grid[1].iter().map(|cell| cell.0).collect();
    assert_eq!(row, "\u{7}xz");
    draw_label(&mut grid, 1, 1, "zz", 3u8, false);
    draw_text(&mut grid, 0, 9, "zz", 3u8, false);
    let row: String = grid[1].iter().map(|cell| cell.0).collect();
    assert_eq!(row, "\u{7}xz");
}

#[test]
fn city_labels_use_chinese_only_with_unicode() {
    let shanghai = presets()[0];
    assert_eq!(preset_city_label(&shanghai, Language::Zh, true), "上海");
    assert_eq!(preset_city_label(&shanghai, Language::Zh, false), "Shanghai");
    assert_eq!(preset_city_label(&shanghai, Language::En, true), "Shanghai");
}

#[test]
fn settings_labels_are_localised() {
    assert_eq!(landscape_label(Language::En, LandscapeMode::Horizon), "ground ring");
    assert_eq!(landscape_label(Language::Zh, LandscapeMode::Bearings), "方位");
    assert_eq!(sky_orientation_label(Language::En, SkyOrientation::Observer), "observer");
    assert_eq!(sky_orientation_label(Language::Zh, SkyOrientation::MapStyle), "地图");
    assert_eq!(
        footer_mouse_line(Language::En, false),
        "mouse: left search · center flip · right settings"
    );
    assert_eq!(footer_mouse_line(Language::Zh, true), "鼠标: 左搜索 · 中切换 · 右设置");
    assert_eq!(SkyLight::Night.name_en(), "Night");
    assert_eq!(SkyLight::CivilTwilight.name_zh(), "民用曙暮光");
}

#[test]
fn themes_paint_with_their_own_palettes() {
    let midnight = termarium::palette::palette(termarium::config::Theme::Midnight);
    assert_eq!(midnight.bg, termarium::export::CellColor::Rgb(4, 8, 18));
    assert_eq!(midnight.selected, termarium::export::CellColor::Rgb(255, 238, 167));
    let mono = termarium::palette::palette(termarium::config::Theme::Mono);
    assert_eq!(mono.bg, termarium::export::CellColor::Black);
    assert_eq!(mono.panel, termarium::export::CellColor::Rgb(12, 12, 12));
    assert_eq!(mono.muted, termarium::export::CellColor::DarkGray);
    let nord = termarium::palette::palette(termarium::config::Theme::Nord);
    assert_eq!(nord.deep, termarium::export::CellColor::Rgb(163, 190, 140));
}

#[test]
fn lines_fill_and_cut_the_grid() {
    let lines = vec![
        vec![("ab".to_string(), 1u8), ("cd".to_string(), 2u8)],
        vec![("北".to_string(), 3u8)],
    ];
    let grid = lines_to_grid(&lines, 3, 3, (' ', 0u8));
    assert_eq!(grid.len(), 3);
    assert_eq!(grid[0], vec![('a', 1), ('b', 1), ('c', 2)]);
    assert_eq!(grid[1], vec![('北', 3), (' ', 0), (' ', 0)]);
    assert_eq!(grid[2], vec![(' ', 0); 3]);
    let shown = grid_to_lines(&grid);
    assert_eq!(shown[0], vec![('a', 1), ('b', 1), ('c', 2)]);
    // The cell after a wide character is covered by it and not written out.
    assert_eq!(shown[1], vec![('北', 3), (' ', 0)]);
    assert!(lines_to_grid(&lines, 0, 2, (' ', 0u8)).iter().all(|row| row.is_empty()));
}

fn text_of(grid: &[Vec<(char, u8)>]) -> Vec<String> {
    grid.iter().map(|row| row.iter().map(|cell| cell.0).collect()).collect()
}

#[test]
fn pointer_reticle_boxes_the_pointer_cell() {
    let mut grid = vec![vec![('.', 0u8); 9]; 7];
    draw_pointer(&mut grid, 4, 3, 2u8, 1u8, false);
    assert_eq!(
        text_of(&grid),
        vec![".........", ".+-----+.", ".|.....|.", ".|..+..|.", ".|.....|.", ".+-----+.", "........."]
    );
    assert_eq!(grid[3][4].1, 2);
    assert_eq!(grid[1][1].1, 1);
    assert_eq!(grid[0][0].1, 0);
    assert_eq!(grid[3][3].1, 0);
}

#[test]
fn pointer_reticle_is_clipped_and_kept_on_the_grid() {
    let mut grid = vec![vec![(' ', 0u8); 6]; 4];
    draw_pointer(&mut grid, 100, 100, 2u8, 1u8, true);
    assert_eq!(text_of(&grid), vec!["      ", "  ┌───", "  │   ", "  │  +"]);
    let mut empty: Vec<Vec<(char, u8)>> = Vec::new();
    draw_pointer(&mut empty, 0, 0, 2u8, 1u8, true);
    assert!(empty.is_empty());
}
