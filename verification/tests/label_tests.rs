use termarium::app::PlacedStar;
use termarium::config::{Language, SkyCulture};
use termarium::constellations::ConstellationLine;
use termarium::figure_labels::{constellation_label_hits, label_at};
use termarium::selection::Selection;

const LABEL_FIGURES: &str = "code,zh,pinyin,en\nCN290,北斗,Bei Dou,Northern Dipper\n";

fn line(code: &str, hips: &[u32]) -> ConstellationLine {
    ConstellationLine {
        code: code.to_string(),
        hips: hips.to_vec(),
    }
}

fn star(hip: u32, x: usize, y: usize) -> PlacedStar {
    PlacedStar {
        hip,
        x,
        y,
        constellation: String::new(),
    }
}

fn drawn() -> Vec<PlacedStar> {
    vec![
        star(1, 10, 4),
        star(2, 14, 4),
        star(3, 14, 8),
        star(4, 20, 10),
        star(5, 30, 2),
        star(6, 32, 2),
    ]
}

#[test]
fn multi_path_figures_render_one_label() {
    let lines = vec![
        line("UMa", &[1, 2]),
        line("Ori", &[5, 6]),
        line("UMa", &[2, 3, 4]),
        line("Cas", &[7, 8]),
    ];
    let hits = constellation_label_hits(&lines, &drawn(), 120, 36, SkyCulture::Western, Language::En, "", true);
    assert_eq!(hits.iter().filter(|hit| hit.code == "UMa").count(), 1);
    assert_eq!(hits.len(), 2);
    // UMa: distinct cells (10,4) (14,4) (14,8) (20,10); mean (14, 6); label one column right.
    assert_eq!(hits[0].code, "UMa");
    assert_eq!(hits[0].label, "UMa");
    assert_eq!((hits[0].x, hits[0].y, hits[0].width), (15, 6, 3));
    assert_eq!(hits[1].code, "Ori");
    assert_eq!((hits[1].x, hits[1].y), (32, 2));

    let chinese = vec![line("CN290", &[1, 2]), line("CN290", &[3, 4])];
    let hits = constellation_label_hits(&chinese, &drawn(), 120, 36, SkyCulture::Chinese, Language::En, LABEL_FIGURES, true);
    assert_eq!(hits.iter().filter(|hit| hit.code == "CN290").count(), 1);
    assert_eq!(hits[0].label, "北斗");
    assert_eq!(hits[0].width, 4);
}

#[test]
fn labels_are_cut_at_the_canvas_edge() {
    let lines = vec![line("UMa", &[1, 2])];
    let hits = constellation_label_hits(&lines, &drawn(), 14, 36, SkyCulture::Western, Language::En, "", true);
    // Mean column 12, label from column 13, one column left on a 14-column canvas.
    assert_eq!((hits[0].x, hits[0].width), (13, 1));
    let hits = constellation_label_hits(&lines, &drawn(), 13, 36, SkyCulture::Western, Language::En, "", true);
    assert!(hits.is_empty());
    assert!(constellation_label_hits(&lines, &drawn(), 0, 36, SkyCulture::Western, Language::En, "", true).is_empty());
}

#[test]
fn sky_label_click_selects_constellation() {
    let lines = vec![line("UMa", &[1, 2]), line("Ori", &[5, 6])];
    let hits = constellation_label_hits(&lines, &drawn(), 120, 36, SkyCulture::Western, Language::En, "", true);
    let hit = &hits[0];
    let code = label_at(&hits, hit.x, hit.y, 120).unwrap();
    assert_eq!(code, hit.code);
    // The column before and after a label also count.
    assert_eq!(label_at(&hits, hit.x - 1, hit.y, 120), Some(code.clone()));
    assert_eq!(label_at(&hits, hit.x + hit.width, hit.y, 120), Some(code.clone()));
    assert_eq!(label_at(&hits, hit.x + hit.width + 1, hit.y, 120), None);
    assert_eq!(label_at(&hits, hit.x, hit.y + 1, 120), None);
    let mut selection = Selection {
        target: None,
        zoomed: false,
        zoom_code: None,
    };
    selection.select_code(code.clone(), true);
    assert_eq!(selection.selected_code(), Some(code));
}
