use termarium::app::Target;
use termarium::config::{Language, SkyCulture};
use termarium::deep_sky::{self, DeepSkyObject};
use termarium::planets::{self, Planet};
use termarium::search::{sky_search_results, SearchStar, SKY_RESULT_LIMIT};
use termarium::star_aliases::StarName;

const SKY_FIGURES: &str =
    "code,zh,pinyin,en\nCN003,参宿,Shen Xiu,Three Stars\nCN004,觜宿,Zi Xiu,Turtle Beak\n";

const STAR_NAMES: &str = "hip,zh,pinyin,en,desig\n43,王良增九,Wang Liang Zeng Jiu,Wang Liang Added IX,\n8102,天仓五,Tian Cang Wu,Fifth Star of Square Granary,\n";

fn star(hip: u32, proper: &str, magnitude: &str) -> SearchStar {
    SearchStar {
        star: StarName {
            hip,
            proper: proper.to_string(),
        },
        magnitude: magnitude.to_string(),
    }
}

fn catalogue() -> Vec<SearchStar> {
    vec![
        star(91262, "Vega", "0.0"),
        star(8102, "", "3.5"),
        star(27989, "Betelgeuse", "0.5"),
        star(4242, "", "6.1"),
        star(43, "", "6.5"),
    ]
}

fn planet(name: &str, symbol: char) -> Planet {
    Planet {
        name: name.to_string(),
        symbol,
    }
}

fn object(name: &str, kind: &str, common: &str) -> DeepSkyObject {
    DeepSkyObject {
        name: name.to_string(),
        kind: kind.to_string(),
        common: common.to_string(),
    }
}

fn search(query: &str, culture: SkyCulture, language: Language) -> Vec<termarium::app::SearchResult> {
    let planets = vec![planet("Mars", 'M'), planet("Jupiter", 'J')];
    let objects = vec![
        object("M31", "galaxy", "Andromeda Galaxy"),
        object("M45", "open cluster", "Pleiades"),
        object("M1", "supernova remnant", ""),
    ];
    sky_search_results(
        query,
        culture,
        language,
        SKY_FIGURES,
        STAR_NAMES,
        "constellation",
        &catalogue(),
        &planets,
        &objects,
    )
}

#[test]
fn search_finds_vega_and_orion() {
    let results = search("Vega", SkyCulture::Western, Language::En);
    assert!(results.iter().any(|result| result.label == "Vega"));
    let results = search("猎户", SkyCulture::Western, Language::En);
    assert!(results
        .iter()
        .any(|result| matches!(result.target, Target::Constellation(_))));
}

#[test]
fn chinese_sky_search_finds_asterism_names() {
    for query in ["参宿", "Shen Xiu", "Three Stars"] {
        let results = search(query, SkyCulture::Chinese, Language::En);
        assert!(
            results
                .iter()
                .any(|result| result.target == Target::Constellation("CN003".to_string())),
            "{query} should find 参宿"
        );
    }
}

#[test]
fn western_sky_search_does_not_return_chinese_asterisms() {
    let results = search("参宿", SkyCulture::Western, Language::En);
    assert!(!results
        .iter()
        .any(|result| result.target == Target::Constellation("CN003".to_string())));
}

#[test]
fn search_finds_tau_ceti_aliases() {
    for query in ["Tau Ceti", "τ Ceti", "天仓五", "HD 10700", "HIP 8102"] {
        let results = search(query, SkyCulture::Western, Language::En);
        assert!(
            results.iter().any(|result| result.target == Target::Star(8102)),
            "{query} should find Tau Ceti"
        );
    }
    let results = search("天仓五", SkyCulture::Western, Language::Zh);
    assert!(
        results.iter().any(|result| result.label == "天仓五 / Tau Ceti"),
        "Chinese UI should show Chinese and English star names"
    );
}

#[test]
fn sky_results_carry_their_details() {
    let results = search("vega", SkyCulture::Western, Language::En);
    assert_eq!(results.len(), 1);
    assert_eq!(results[0].detail, "star · Vega · HIP 91262 · mag 0.0");
    let results = search("HIP 4242", SkyCulture::Western, Language::En);
    assert_eq!(results.len(), 1);
    assert_eq!(results[0].label, "HIP 4242");
    assert_eq!(results[0].detail, "star · HIP 4242 · mag 6.1");
    let results = search("ori", SkyCulture::Western, Language::En);
    assert_eq!(results[0].label, "Ori / Orion");
    assert_eq!(results[0].detail, "constellation · 猎户座");
    let results = search("shen", SkyCulture::Chinese, Language::En);
    assert_eq!(results[0].label, "参宿 / Three Stars");
    assert_eq!(results[0].detail, "constellation · 参宿");
}

#[test]
fn planets_and_deep_sky_follow_the_stars() {
    let results = search("  MARS ", SkyCulture::Western, Language::En);
    assert_eq!(results.len(), 1);
    assert_eq!(results[0].label, "Mars");
    assert_eq!(results[0].detail, "planet");
    assert_eq!(results[0].target, Target::Planet("Mars".to_string()));
    let results = search("pleiades", SkyCulture::Western, Language::En);
    assert_eq!(results.len(), 1);
    assert_eq!(results[0].detail, "open cluster · Pleiades");
    assert_eq!(results[0].target, Target::DeepSky("M45".to_string()));
    let results = search("remnant", SkyCulture::Western, Language::En);
    assert_eq!(results[0].label, "M1");
    assert_eq!(results[0].detail, "supernova remnant");
}

#[test]
fn blank_queries_find_nothing_and_long_lists_are_cut() {
    assert!(search("   ", SkyCulture::Western, Language::En).is_empty());
    // "a" occurs in dozens of constellation names.
    let results = search("a", SkyCulture::Western, Language::En);
    assert_eq!(results.len(), SKY_RESULT_LIMIT);
}

#[test]
fn deep_sky_and_planet_queries_ignore_case_and_spaces() {
    let m31 = object("M31", "galaxy", "Andromeda Galaxy");
    assert!(deep_sky::matches_query(&m31, " m31 "));
    assert!(deep_sky::matches_query(&m31, "GALAXY"));
    assert!(deep_sky::matches_query(&m31, "andromeda"));
    assert!(!deep_sky::matches_query(&m31, "nebula"));
    assert!(planets::matches_query(&planet("Jupiter", 'J'), "jup"));
    assert!(!planets::matches_query(&planet("Jupiter", 'J'), "sat"));
    assert!(planets::matches_query(&planet("Jupiter", 'J'), ""));
}

#[test]
fn search_finds_imported_chinese_star_names() {
    for query in ["王良增九", "Wang Liang Added IX"] {
        let results = search(query, SkyCulture::Western, Language::En);
        assert!(
            results.iter().any(|result| result.target == Target::Star(43)),
            "{query} should find HIP 43"
        );
    }
}

#[test]
fn star_name_search_lists_each_star_once() {
    let results = search("wang liang", SkyCulture::Western, Language::En);
    let found = results.iter().filter(|result| result.target == Target::Star(43)).count();
    assert_eq!(found, 1);
    assert!(search("王良增十", SkyCulture::Western, Language::En).is_empty());
}
