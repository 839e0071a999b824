use termarium::config::Language;
use termarium::star_aliases::{
    chinese_name, display_name, display_name_for, for_hip, hip_query, matches_query,
    summary_aliases_for, StarName,
};

fn star(hip: u32, proper: &str) -> StarName {
    StarName { hip, proper: proper.to_string() }
}

#[test]
fn finds_tau_ceti_aliases() {
    let tau = star(8102, "");
    for query in ["Tau Ceti", "τ Ceti", "天仓五", "HD10700", "HIP 8102"] {
        assert!(matches_query(&tau, query), "{query} should match Tau Ceti");
    }
    assert_eq!(display_name(&tau), "Tau Ceti");
    assert_eq!(display_name_for(&tau, Language::Zh), "天仓五 / Tau Ceti");
    assert_eq!(display_name_for(&tau, Language::En), "Tau Ceti");
    assert!(
        !summary_aliases_for(&tau, Language::En)
            .unwrap()
            .contains("天仓五")
    );
}

#[test]
fn stars_without_aliases_use_proper_name_or_number() {
    assert_eq!(display_name(&star(11767, "Polaris")), "Polaris");
    assert_eq!(display_name(&star(123, "")), "HIP 123");
    assert_eq!(display_name_for(&star(123, ""), Language::Zh), "HIP 123");
    assert!(for_hip(123).is_none());
    assert!(chinese_name(&star(123, "")).is_none());
    assert_eq!(chinese_name(&star(8102, "")), Some("天仓五"));
    assert!(summary_aliases_for(&star(123, ""), Language::En).is_none());
}

#[test]
fn alias_summary_keeps_four_other_names() {
    let tau = star(8102, "");
    assert_eq!(
        summary_aliases_for(&tau, Language::En).unwrap(),
        "τ Ceti, 52 Ceti, HD 10700, HR 509"
    );
    assert_eq!(
        summary_aliases_for(&tau, Language::Zh).unwrap(),
        "τ Ceti, 52 Ceti, HD 10700, HR 509"
    );
}

#[test]
fn hip_queries_parse_numbers() {
    assert_eq!(hip_query("HIP 8102"), Some(8102));
    assert_eq!(hip_query(" hip8102 "), Some(8102));
    assert_eq!(hip_query("8102"), Some(8102));
    assert_eq!(hip_query("+42"), Some(42));
    assert_eq!(hip_query("HIP"), None);
    assert_eq!(hip_query("HIP 99999999999"), None);
    assert_eq!(hip_query("vega"), None);
    assert_eq!(hip_query("HIP 4294967295"), Some(4294967295));
}

#[test]
fn search_matches_proper_names_and_numbers() {
    let polaris = star(11767, "Polaris");
    assert!(matches_query(&polaris, "polaris"));
    assert!(matches_query(&polaris, "HIP11767"));
    assert!(matches_query(&polaris, "hip 117"));
    assert!(!matches_query(&polaris, ""));
    assert!(!matches_query(&polaris, "   "));
    assert!(!matches_query(&polaris, "vega"));
    let vega = star(91262, "Vega");
    assert!(matches_query(&vega, "Alpha Lyrae"));
    assert!(matches_query(&vega, "织女"));
}
