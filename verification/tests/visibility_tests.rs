use termarium::config::SkyCulture;
use termarium::constellations::ConstellationLine;
use termarium::visibility::{figure_visible, path_is_shown, visible_figure_codes, ShownStar};

fn line(code: &str, hips: &[u32]) -> ConstellationLine {
    ConstellationLine {
        code: code.to_string(),
        hips: hips.to_vec(),
    }
}

fn shown(hip: u32, constellation: &str) -> ShownStar {
    ShownStar {
        hip,
        constellation: constellation.to_string(),
    }
}

#[test]
fn figures_need_a_segment_with_both_stars_shown() {
    let lines = vec![
        line("UMa", &[1, 2, 3]),
        line("Ori", &[10, 11]),
        line("Cas", &[20, 21]),
        line("Ori", &[12, 13]),
        line("And", &[30, 31]),
    ];
    let stars = vec![
        shown(2, "UMa"),
        shown(3, "UMa"),
        shown(12, "Ori"),
        shown(13, "Ori"),
        shown(20, "Cas"),
        shown(31, "And"),
    ];
    assert_eq!(visible_figure_codes(&lines, &stars), vec!["Ori".to_string(), "UMa".to_string()]);
    assert!(path_is_shown(&vec![2, 3], &stars));
    assert!(!path_is_shown(&vec![2], &stars));
    assert!(!path_is_shown(&vec![1, 2, 10], &stars));
    assert!(figure_visible(&lines, &stars, SkyCulture::Western, "ori"));
    assert!(!figure_visible(&lines, &stars, SkyCulture::Chinese, "Cas"));
    // A shown member star is enough for a western constellation.
    assert!(figure_visible(&lines, &stars, SkyCulture::Western, "cas"));
    assert!(!figure_visible(&lines, &stars, SkyCulture::Western, "Cyg"));
}
