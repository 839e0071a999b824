use termarium::app::{
    city_indices, city_matches_query, city_search_results, next_position, offset_timezone, presets,
    figure_zoom_bounds, next_tour_city, preset_display_name, settings_count, PlacedStar, SearchMode, SearchState,
    SetupState, Target, ZoomBounds,
};
use termarium::config::{timezone_problem, Language, SkyCulture};
use termarium::constellations::ConstellationLine;

#[test]
fn setup_presets_are_available() {
    let presets = presets();
    assert!(presets.len() >= 10);
    assert!(presets.iter().any(|preset| preset.custom));
}

#[test]
fn city_indices_skip_the_custom_entry() {
    let indices = city_indices();
    let all = presets();
    assert_eq!(indices.len(), all.len() - 1);
    assert!(indices.iter().all(|index| !all[*index].custom));
    assert_eq!(indices[0], 0);
}

#[test]
fn city_search_finds_by_any_name() {
    let results = city_search_results("lon", Language::En);
    assert_eq!(results.len(), 1);
    assert_eq!(results[0].label, "London");
    assert!(matches!(results[0].target, Target::City(_)));
    let results = city_search_results("伦敦", Language::Zh);
    assert_eq!(results.len(), 1);
    assert_eq!(results[0].label, "伦敦");
    let results = city_search_results("  shanghai ", Language::En);
    assert_eq!(results[0].label, "Shanghai");
    assert_eq!(results[0].detail, "Shanghai · +31.2304 +121.4737 · Asia/Shanghai");
    assert_eq!(results[0].target, Target::City(0));
    let all = city_search_results("", Language::En);
    assert_eq!(all.len(), presets().len() - 1);
    assert!(city_search_results("nowhere at all", Language::En).is_empty());
}

#[test]
fn city_search_ignores_spaces_inside_names() {
    let results = city_search_results("capetown", Language::En);
    assert_eq!(results.len(), 1);
    assert_eq!(results[0].label, "Cape Town");
    let all = presets();
    let santiago = all.iter().find(|p| p.en == "Santiago").unwrap();
    assert!(city_matches_query(santiago, "america/santiago"));
    assert_eq!(preset_display_name(santiago, Language::Zh), "圣地亚哥");
}

#[test]
fn negative_coordinates_keep_their_sign() {
    let results = city_search_results("Buenos", Language::En);
    assert_eq!(
        results[0].detail,
        "Buenos Aires · -34.6037 -58.3816 · America/Argentina/Buenos_Aires"
    );
}

#[test]
fn search_state_starts_empty_or_with_cities() {
    let sky = SearchState::new(SearchMode::Sky, Language::En);
    assert!(sky.results.is_empty());
    assert_eq!(sky.selected, 0);
    assert!(sky.query.is_empty());
    let city = SearchState::new(SearchMode::City, Language::Zh);
    assert_eq!(city.results.len(), presets().len() - 1);
    assert_eq!(city.results[0].label, "上海");
    assert!(SearchState::default_state().results.is_empty());
}

#[test]
fn setup_preset_label_clamps_to_custom() {
    let setup = SetupState {
        preset_index: 1,
        preset_query: String::new(),
        field: 0,
        name: String::new(),
        latitude: String::new(),
        longitude: String::new(),
        timezone: String::new(),
    };
    assert_eq!(setup.preset_label(Language::En), "Beijing");
    assert_eq!(setup.preset_label(Language::Zh), "北京");
    let far = SetupState { preset_index: 999, ..setup };
    assert_eq!(far.preset_label(Language::En), "Custom");
    assert_eq!(far.preset_label(Language::Zh), "自定义");
}

#[test]
fn positions_cycle_both_ways() {
    assert_eq!(next_position(Some(2), 3, true), 0);
    assert_eq!(next_position(Some(0), 3, false), 2);
    assert_eq!(next_position(Some(1), 3, false), 0);
    assert_eq!(next_position(None, 3, true), 0);
    assert_eq!(next_position(None, 3, false), 2);
    assert_eq!(next_position(None, 0, true), 0);
    let forward = next_position(Some(1), 5, true);
    assert_eq!(next_position(Some(forward), 5, false), 1);
    assert_eq!(settings_count(), 14);
}

#[test]
fn zoom_bounds_pad_and_clip() {
    let full = ZoomBounds::full(80, 24);
    assert_eq!((full.min_x, full.max_x, full.min_y, full.max_y), (0, 79, 0, 23));
    let empty = ZoomBounds::full(0, 0);
    assert_eq!((empty.max_x, empty.max_y), (0, 0));
    let b = ZoomBounds::expanded(30, 60, 10, 12, 80, 24);
    assert_eq!((b.min_x, b.max_x, b.min_y, b.max_y), (20, 70, 6, 16));
    let edge = ZoomBounds::expanded(2, 3, 1, 1, 10, 5);
    assert_eq!((edge.min_x, edge.max_x, edge.min_y, edge.max_y), (0, 9, 0, 4));
}

#[test]
fn city_presets_have_valid_timezones() {
    let all = presets();
    assert!(all.iter().filter(|preset| !preset.custom).count() >= 40);
    for preset in &all {
        assert!(
            timezone_problem(preset.timezone).is_none(),
            "{} has invalid timezone {}",
            preset.en,
            preset.timezone
        );
    }
}

#[test]
fn map_preview_timezones_parse() {
    for longitude in [-179.0f64, -75.0, 0.0, 121.0, 179.0] {
        let offset = (longitude / 15.0).round().clamp(-12.0, 12.0) as i32;
        let timezone = offset_timezone(offset);
        assert!(timezone_problem(&timezone).is_none(), "{timezone} should parse");
    }
    assert_eq!(offset_timezone(0), "UTC");
    assert_eq!(offset_timezone(8), "Etc/GMT-8");
    assert_eq!(offset_timezone(-12), "Etc/GMT+12");
}

fn placed(hip: u32, x: usize, y: usize, constellation: &str) -> PlacedStar {
    PlacedStar {
        hip,
        x,
        y,
        constellation: constellation.to_string(),
    }
}

#[test]
fn zoom_bounds_frame_the_figure_stars() {
    let lines = vec![
        ConstellationLine {
            code: "Ori".to_string(),
            hips: vec![1, 2, 3],
        },
        ConstellationLine {
            code: "Tau".to_string(),
            hips: vec![4, 5],
        },
    ];
    let stars = vec![
        placed(1, 40, 10, "Ori"),
        placed(2, 46, 12, "Ori"),
        placed(2, 70, 20, "Ori"),
        placed(4, 5, 5, "Tau"),
        placed(9, 90, 2, "Cru"),
    ];
    // HIP 2 is drawn twice; its last cell counts, HIP 3 is not drawn.
    let bounds = figure_zoom_bounds(&lines, &stars, "ori", SkyCulture::Western, 100, 28).unwrap();
    assert_eq!(bounds, ZoomBounds::expanded(40, 70, 10, 20, 100, 28));
    assert_eq!((bounds.min_x, bounds.max_x, bounds.min_y, bounds.max_y), (30, 80, 6, 24));
    // One drawn figure star: western constellations add their member stars.
    let tau = figure_zoom_bounds(&lines, &stars, "Tau", SkyCulture::Western, 100, 28).unwrap();
    assert_eq!(tau, ZoomBounds::expanded(5, 5, 5, 5, 100, 28));
    let cru = figure_zoom_bounds(&lines, &stars, "Cru", SkyCulture::Western, 100, 28).unwrap();
    assert_eq!(cru, ZoomBounds::expanded(90, 90, 2, 2, 100, 28));
    assert!(figure_zoom_bounds(&lines, &stars, "Cru", SkyCulture::Chinese, 100, 28).is_none());
    assert!(figure_zoom_bounds(&lines, &stars, "Lyr", SkyCulture::Western, 100, 28).is_none());
}

#[test]
fn tour_steps_through_its_cities_and_wraps() {
    let cities = vec![3, 5, 9];
    assert_eq!(next_tour_city(&cities, Some(5)), Some(9));
    assert_eq!(next_tour_city(&cities, Some(9)), Some(3));
    assert_eq!(next_tour_city(&cities, Some(4)), Some(3));
    assert_eq!(next_tour_city(&cities, None), Some(3));
    assert_eq!(next_tour_city(&Vec::new(), Some(3)), None);
    assert_eq!(next_tour_city(&vec![2, 2, 7], Some(2)), Some(2));
}

#[test]
fn tour_of_the_presets_leaves_the_first_city_for_the_second() {
    let cities = city_indices();
    assert!(cities.len() > 1);
    assert_eq!(next_tour_city(&cities, Some(cities[0])), Some(cities[1]));
    assert_eq!(next_tour_city(&cities, Some(cities[cities.len() - 1])), Some(cities[0]));
}
