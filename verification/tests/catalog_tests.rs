use termarium::catalog::{
    deep_sky_fields, distinct_count, map_file_paths, non_empty_count, number_range, star_fields,
};

fn strings(values: &[&str]) -> Vec<String> {
    values.iter().map(|v| v.to_string()).collect()
}

#[test]
fn distinct_values_are_counted_once() {
    assert_eq!(distinct_count(&strings(&["Ori", "UMa", "Ori", "Cas", "UMa"])), 3);
    assert_eq!(distinct_count(&strings(&[])), 0);
    assert_eq!(distinct_count(&strings(&["ori", "Ori"])), 2);
}

#[test]
fn named_stars_and_number_ranges() {
    assert_eq!(non_empty_count(&strings(&["Vega", "", "Sirius", ""])), 2);
    assert_eq!(number_range(&vec![27989, 43, 91262, 8102]), (43, 91262));
    assert_eq!(number_range(&vec![]), (0, 0));
}

#[test]
fn star_rows_split_into_fields() {
    let s = star_fields("32349,\"Sirius\",6.7525,-16.7161,-1.44,0.009,\"CMa\"").unwrap();
    assert_eq!(s.hip, 32349);
    assert_eq!(s.proper, "Sirius");
    assert_eq!((s.ra.as_str(), s.dec.as_str(), s.magnitude.as_str()), ("6.7525", "-16.7161", "-1.44"));
    assert_eq!(s.color_index, Some("0.009".to_string()));
    assert_eq!(s.constellation, "CMa");

    let short = star_fields("7,,1.0,2.0,3.5").unwrap();
    assert_eq!(short.proper, "");
    assert_eq!(short.color_index, None);
    assert_eq!(short.constellation, "");

    assert!(star_fields("x,Vega,18.6,38.8,0.03").is_none());
    assert!(star_fields("91262,Vega,18.6,38.8").is_none());
    assert!(star_fields("").is_none());
}

#[test]
fn quotes_are_stripped_from_both_ends_only() {
    let s = star_fields("1,\"\"a\"b\"\",0,0,0,,\"\"\"").unwrap();
    assert_eq!(s.proper, "a\"b");
    assert_eq!(s.color_index, Some(String::new()));
    assert_eq!(s.constellation, "");
}

#[test]
fn deep_sky_rows_split_into_fields() {
    let d = deep_sky_fields("M31, Galaxy ,0.712,41.27, 3.4 ,And, Andromeda Galaxy").unwrap();
    assert_eq!((d.name.as_str(), d.kind.as_str()), ("M31", "Galaxy"));
    assert_eq!((d.ra.as_str(), d.dec.as_str()), ("0.712", "41.27"));
    assert_eq!(d.magnitude, Some("3.4".to_string()));
    assert_eq!(d.constellation, "And");
    assert_eq!(d.common, "Andromeda Galaxy");

    let blank = deep_sky_fields("M40,Double,12.37,58.08,  ,UMa").unwrap();
    assert_eq!(blank.magnitude, None);
    assert_eq!(blank.common, "");

    assert!(deep_sky_fields("M1,Nebula,5.57,22.01,8.4").is_none());
}

fn pairs(points: &[(&str, &str)]) -> Vec<(String, String)> {
    points.iter().map(|(a, b)| (a.to_string(), b.to_string())).collect()
}

#[test]
fn map_files_give_one_path_per_line() {
    let text = "# coastlines\n10,20;11,21\n\n   \n-5.5,40;bad;7,8,9\r\n";
    let paths = map_file_paths(text);
    assert_eq!(paths.len(), 2);
    assert_eq!(paths[0], pairs(&[("10", "20"), ("11", "21")]));
    assert_eq!(paths[1], pairs(&[("-5.5", "40"), ("7", "8,9")]));
    assert!(map_file_paths("").is_empty());
}
