use termarium::config::{Language, SkyCulture};
use termarium::constellations::{
    chinese_meta, chinese_star_name_for_hip, chinese_star_name_matches, display_name_for_culture,
    figure_contains_hip, figure_label, load, load_chinese, matches_query, meta_for, meta_for_culture,
    metadata_for_culture, parse_line, pinyin_for, star_names_for_hip,
};

const FIGURES: &str = "code,zh,pinyin,en\nCN003,参宿,Shen Xiu,Three Stars\nCN004,觜宿,Zi Xiu,Turtle Beak\n";

const STAR_NAMES: &str = "hip,zh,pinyin,en,desig\n43,王良增九,Wang Liang Zeng Jiu,Wang Liang Added IX,\n27989,参宿四,Shen Xiu Si,Fourth Star of Three Stars,α Ori\n27989,参宿四二,Shen Xiu Si Er,Second Name,\nx12,坏行,,,\n";

#[test]
fn chinese_asterism_search_matches_names() {
    assert!(matches_query(SkyCulture::Chinese, "CN003", "参宿", FIGURES));
    assert!(matches_query(SkyCulture::Chinese, "CN003", "Shen Xiu", FIGURES));
    assert!(matches_query(SkyCulture::Chinese, "CN003", "Three Stars", FIGURES));
}

#[test]
fn western_search_matches_code_and_names() {
    assert!(matches_query(SkyCulture::Western, "Ori", "orion", FIGURES));
    assert!(matches_query(SkyCulture::Western, "Ori", "  ORI ", FIGURES));
    assert!(matches_query(SkyCulture::Western, "Ori", "猎户", FIGURES));
    assert!(!matches_query(SkyCulture::Western, "Ori", "lyra", FIGURES));
    assert!(!matches_query(SkyCulture::Chinese, "CN003", "Turtle", FIGURES));
}

#[test]
fn parses_figure_lines() {
    let data = "code,hips\nOri,1 2 3\nLyr, 4  5 \n,6 7\nCyg,8\nbad line\nAnd,9 x 10\r\n";
    let lines = load(data);
    assert_eq!(lines.len(), 3);
    assert_eq!(lines[0].code, "Ori");
    assert_eq!(lines[0].hips, vec![1, 2, 3]);
    assert_eq!(lines[0].segment_count(), 2);
    assert_eq!(lines[1].code, "Lyr");
    assert_eq!(lines[1].hips, vec![4, 5]);
    assert_eq!(lines[2].code, "And");
    assert_eq!(lines[2].hips, vec![9, 10]);
    assert_eq!(load_chinese("header\nCN001, 11 12\n").len(), 1);
    assert!(load("").is_empty());
    assert!(parse_line("Ori").is_none());
    assert!(parse_line("Ori,1").is_none());
    let line = parse_line("  Ori  ,+1 2").unwrap();
    assert_eq!(line.code, "Ori");
    assert_eq!(line.hips, vec![1, 2]);
}

#[test]
fn western_meta_lookup_ignores_case() {
    let meta = meta_for("ori");
    assert_eq!(meta.code, "Ori");
    assert_eq!(meta.en, "Orion");
    assert_eq!(meta.zh, "猎户座");
    let unknown = meta_for("Xyz");
    assert_eq!(unknown.code, "");
    assert_eq!(unknown.en, "Unknown");
    assert_eq!(unknown.zh, "未知");
    assert_eq!(metadata_for_culture(SkyCulture::Western, FIGURES).len(), 88);
}

#[test]
fn chinese_meta_reads_the_figure_file() {
    let metas = chinese_meta(FIGURES);
    assert_eq!(metas.len(), 2);
    assert_eq!(metas[0].code, "CN003");
    assert_eq!(metas[0].zh, "参宿");
    assert_eq!(metas[0].en, "Three Stars");
    let meta = meta_for_culture(SkyCulture::Chinese, "cn004", FIGURES);
    assert_eq!(meta.zh, "觜宿");
    assert_eq!(metadata_for_culture(SkyCulture::Chinese, FIGURES).len(), 2);
    assert_eq!(pinyin_for("CN003", FIGURES), Some("Shen Xiu".to_string()));
    assert_eq!(pinyin_for("cn003", FIGURES), None);
    assert_eq!(pinyin_for("Ori", FIGURES), None);
}

#[test]
fn figure_labels_follow_the_culture() {
    assert_eq!(figure_label(SkyCulture::Western, "uma", Language::En, FIGURES), "UMa");
    assert_eq!(figure_label(SkyCulture::Chinese, "CN003", Language::En, FIGURES), "参宿");
    assert_eq!(display_name_for_culture(SkyCulture::Western, "UMa", FIGURES), "Ursa Major");
    assert_eq!(display_name_for_culture(SkyCulture::Chinese, "CN004", FIGURES), "觜宿");
}

#[test]
fn chinese_star_names_are_found_by_number() {
    let names = star_names_for_hip(27989, STAR_NAMES);
    assert_eq!(names.len(), 2);
    assert_eq!(names[0].zh, "参宿四");
    assert_eq!(names[0].desig, "α Ori");
    assert_eq!(names[1].pinyin, "Shen Xiu Si Er");
    let first = chinese_star_name_for_hip(43, STAR_NAMES).unwrap();
    assert_eq!(first.en, "Wang Liang Added IX");
    assert!(chinese_star_name_for_hip(12, STAR_NAMES).is_none());
    assert!(chinese_star_name_matches(43, "王良增九", STAR_NAMES));
    assert!(chinese_star_name_matches(43, "Wang Liang Added IX", STAR_NAMES));
    assert!(chinese_star_name_matches(43, "wangliang", STAR_NAMES));
    assert!(chinese_star_name_matches(27989, "alpha", STAR_NAMES) == false);
    assert!(chinese_star_name_matches(27989, "α ori", STAR_NAMES));
    assert!(!chinese_star_name_matches(44, "王良", STAR_NAMES));
}

#[test]
fn figure_paths_tell_which_stars_they_join() {
    let lines = load("code,hips\nOri,26727 26311 25930\nOri,27989 26727\nUMa,54061 53910\n");
    assert!(figure_contains_hip(&lines, "ori", 27989));
    assert!(figure_contains_hip(&lines, "ORI", 25930));
    assert!(!figure_contains_hip(&lines, "Ori", 54061));
    assert!(figure_contains_hip(&lines, "UMa", 54061));
    assert!(!figure_contains_hip(&lines, "Cas", 26727));
}
