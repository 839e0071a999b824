use termarium::config::{
    default_constellations, default_landscape, default_sky_orientation, default_timezone,
    default_true, timezone_problem, Charset, LandscapeMode, Language, SkyCulture, SkyOrientation,
    Theme, CONFIG_VERSION,
};

#[test]
fn theme_indices_cover_every_theme() {
    for (index, theme) in Theme::all().into_iter().enumerate() {
        assert_eq!(theme.index(), index);
        assert_eq!(Theme::from_index(index), theme);
    }
    assert_eq!(Theme::from_index(usize::MAX), Theme::Mono);
}

#[test]
fn default_landscape_is_horizon() {
    assert_eq!(default_landscape(), LandscapeMode::Horizon);
}

#[test]
fn default_sky_orientation_is_observer() {
    assert_eq!(default_sky_orientation(), SkyOrientation::Observer);
}

#[test]
fn missing_fields_default_to_on_and_shanghai() {
    assert!(default_constellations());
    assert!(default_true());
    assert_eq!(default_timezone(), "Asia/Shanghai");
    assert_eq!(CONFIG_VERSION, 4);
}

#[test]
fn language_toggle_switches_and_returns() {
    assert_eq!(Language::En.toggle(), Language::Zh);
    assert_eq!(Language::Zh.toggle(), Language::En);
    assert_eq!(Language::En.toggle().toggle(), Language::En);
    assert_eq!(Language::En.code(), "en");
    assert_eq!(Language::Zh.code(), "zh");
}

#[test]
fn language_codes_parse_back() {
    assert_eq!(Language::from_code("en"), Ok(Language::En));
    assert_eq!(Language::from_code("zh"), Ok(Language::Zh));
    assert_eq!(
        Language::from_code("fr"),
        Err("unsupported language: fr".to_string())
    );
    assert!(Language::from_code("EN").is_err());
    assert!(Language::from_code("").is_err());
}

#[test]
fn theme_labels_match_config_names() {
    assert_eq!(Theme::Midnight.label(), "midnight");
    assert_eq!(Theme::SolarizedDark.label(), "solarized-dark");
    assert_eq!(Theme::TokyoNight.label(), "tokyo-night");
    assert_eq!(Theme::Mono.index(), 10);
    assert_eq!(Theme::from_index(11), Theme::Mono);
    assert_eq!(Theme::from_index(3), Theme::Dusk);
}

#[test]
fn settings_cycles_return_to_start() {
    assert_eq!(Charset::Auto.next(), Charset::Ascii);
    assert_eq!(Charset::Auto.next().next().next(), Charset::Auto);
    assert!(Charset::Unicode.canvas_unicode());
    assert!(!Charset::Auto.canvas_unicode());
    assert!(!Charset::Ascii.canvas_unicode());
    assert_eq!(LandscapeMode::Horizon.next(), LandscapeMode::Bearings);
    assert_eq!(LandscapeMode::Bearings.next(), LandscapeMode::Off);
    assert_eq!(LandscapeMode::Off.next(), LandscapeMode::Horizon);
    assert_eq!(LandscapeMode::Bearings.code(), "bearings");
    assert_eq!(SkyOrientation::Observer.next(), SkyOrientation::MapStyle);
    assert_eq!(SkyOrientation::MapStyle.next().next(), SkyOrientation::MapStyle);
    assert_eq!(SkyOrientation::MapStyle.code(), "map");
    assert_eq!(SkyCulture::Western.next(), SkyCulture::Chinese);
    assert_eq!(SkyCulture::Chinese.next(), SkyCulture::Western);
    assert_eq!(SkyCulture::Chinese.code(), "chinese");
}

#[test]
fn timezone_problem_names_unknown_zones() {
    assert_eq!(timezone_problem("Asia/Shanghai"), None);
    assert_eq!(timezone_problem("UTC"), None);
    assert_eq!(timezone_problem("Europe/London"), None);
    assert_eq!(
        timezone_problem("Mars/Olympus"),
        Some("unsupported timezone: Mars/Olympus".to_string())
    );
}

#[test]
fn figure_message_keys_follow_the_culture() {
    assert_eq!(SkyCulture::Western.figure_kind_key(), "constellation");
    assert_eq!(SkyCulture::Chinese.figure_kind_key(), "asterism");
    assert_eq!(SkyCulture::Western.figure_node_legend_key(), "legend_constellation");
    assert_eq!(SkyCulture::Chinese.figure_node_legend_key(), "legend_asterism");
}

#[test]
fn languages_parse_from_their_codes() {
    assert_eq!("en".parse::<Language>(), Ok(Language::En));
    assert_eq!("zh".parse::<Language>(), Ok(Language::Zh));
    assert_eq!("EN".parse::<Language>(), Err("unsupported language: EN".to_string()));
}
