use termarium::layout::{
    city_label_position, city_labels, ground_city_hit, label_cells_are_free, reserve_label_cells,
    reserve_marker_cells, CityMarker, CursorMark, SavedMark,
};

#[test]
fn city_label_positions_declutter_dense_rows() {
    let mut occupied = vec![vec![false; 24]; 7];
    let first = city_label_position(&occupied, 10, 3, 4).unwrap();
    reserve_label_cells(&mut occupied, first.0, first.1, 4);
    let second = city_label_position(&occupied, 10, 3, 4).unwrap();
    reserve_label_cells(&mut occupied, second.0, second.1, 4);

    assert_ne!(first, second);
    let overlap_on_same_row = first.1 == second.1
        && first.0 < second.0.saturating_add(4)
        && second.0 < first.0.saturating_add(4);
    assert!(!overlap_on_same_row);
    assert!(!label_cells_are_free(&occupied, first.0, first.1, 4));
    assert!(!label_cells_are_free(&occupied, second.0, second.1, 4));
}

#[test]
fn first_label_goes_right_then_left() {
    let mut occupied = vec![vec![false; 24]; 7];
    assert_eq!(city_label_position(&occupied, 10, 3, 4), Some((12, 3)));
    reserve_label_cells(&mut occupied, 12, 3, 4);
    assert_eq!(occupied[3][11..=16], [true; 6]);
    assert!(!occupied[3][10]);
    assert!(!occupied[3][17]);
    assert_eq!(city_label_position(&occupied, 10, 3, 4), Some((4, 3)));
    assert_eq!(city_label_position(&occupied, 10, 3, 0), None);
}

#[test]
fn labels_never_leave_the_grid() {
    let occupied = vec![vec![false; 6]; 2];
    assert_eq!(city_label_position(&occupied, 5, 1, 2), Some((1, 1)));
    assert_eq!(city_label_position(&occupied, 5, 1, 4), None);
    assert_eq!(city_label_position(&occupied, 3, 0, 8), None);
    assert!(!label_cells_are_free(&occupied, 3, 1, 4));
    assert!(!label_cells_are_free(&occupied, 0, 2, 1));
    assert!(label_cells_are_free(&occupied, 2, 1, 4));
}

#[test]
fn reserving_outside_the_grid_changes_nothing() {
    let mut occupied = vec![vec![false; 5]; 3];
    reserve_label_cells(&mut occupied, 7, 1, 2);
    reserve_label_cells(&mut occupied, 1, 9, 2);
    reserve_label_cells(&mut occupied, 1, 1, 0);
    assert!(occupied.iter().all(|row| row.iter().all(|cell| !*cell)));
}

#[test]
fn markers_fill_a_clipped_square() {
    let mut occupied = vec![vec![false; 5]; 4];
    reserve_marker_cells(&mut occupied, 0, 0, 1);
    assert_eq!(occupied[0], vec![true, true, false, false, false]);
    assert_eq!(occupied[1], vec![true, true, false, false, false]);
    assert_eq!(occupied[2], vec![false; 5]);
    reserve_marker_cells(&mut occupied, 4, 3, 2);
    assert_eq!(occupied[1], vec![true, true, true, true, true]);
    assert_eq!(occupied[3], vec![false, false, true, true, true]);
    assert!(!label_cells_are_free(&occupied, 3, 3, 1));
}

fn two_cities(first_focus: bool) -> Vec<CityMarker> {
    vec![
        CityMarker { index: 0, x: 5, y: 5, label_width: 4, focus: first_focus },
        CityMarker { index: 3, x: 8, y: 5, label_width: 3, focus: false },
    ]
}

#[test]
fn city_click_on_or_beside_a_marker_picks_the_nearest_city() {
    let cities = two_cities(false);
    assert_eq!(ground_city_hit(30, 10, None, None, &cities, 5, 5), Some(0));
    assert_eq!(ground_city_hit(30, 10, None, None, &cities, 6, 5), Some(0));
    assert_eq!(ground_city_hit(30, 10, None, None, &cities, 7, 5), Some(3));
    assert_eq!(ground_city_hit(30, 10, None, None, &cities, 9, 6), Some(3));
}

#[test]
fn city_click_on_a_label_picks_its_city() {
    // The first label cannot go right of its marker (the second marker is
    // in the way) nor left (off the canvas), so it goes right and above.
    let cities = two_cities(false);
    assert_eq!(ground_city_hit(30, 10, None, None, &cities, 10, 4), Some(0));
    // The second label goes to the right of its marker.
    assert_eq!(ground_city_hit(30, 10, None, None, &cities, 12, 5), Some(3));
    assert_eq!(ground_city_hit(30, 10, None, None, &cities, 20, 8), None);
}

#[test]
fn city_click_skips_labels_drawn_elsewhere() {
    let cities = two_cities(true);
    assert_eq!(ground_city_hit(30, 10, None, None, &cities, 10, 4), None);
    // A marker still counts when its label is drawn elsewhere.
    assert_eq!(ground_city_hit(30, 10, None, None, &cities, 5, 5), Some(0));
}

#[test]
fn city_click_labels_avoid_the_focus_marks() {
    let cities = vec![CityMarker { index: 2, x: 5, y: 5, label_width: 3, focus: false }];
    // Without a focus mark the label sits right of the marker.
    assert_eq!(ground_city_hit(30, 10, None, None, &cities, 8, 5), Some(2));
    // A saved place whose label covers that row pushes the label elsewhere.
    let saved = SavedMark { x: 10, y: 5, label_width: 4 };
    assert_eq!(ground_city_hit(30, 10, Some(saved), None, &cities, 8, 5), None);
    let cursor = CursorMark { x: 12, y: 5, label_width: None };
    assert_eq!(ground_city_hit(30, 10, None, Some(cursor), &cities, 8, 5), None);
}

#[test]
fn city_labels_are_placed_in_drawing_order() {
    let cities = two_cities(false);
    assert_eq!(city_labels(30, 10, None, None, &cities), vec![Some((7, 4)), Some((10, 5))]);
    let cities = two_cities(true);
    assert_eq!(city_labels(30, 10, None, None, &cities), vec![None, Some((10, 5))]);
}

#[test]
fn a_click_on_each_drawn_label_picks_its_city() {
    let cities = two_cities(false);
    let labels = city_labels(30, 10, None, None, &cities);
    for (city, label) in cities.iter().zip(labels.iter()) {
        let (x, y) = label.unwrap();
        let last = x + city.label_width - 1;
        assert_eq!(ground_city_hit(30, 10, None, None, &cities, last, y), Some(city.index));
    }
}

#[test]
fn dense_city_labels_do_not_overlap() {
    let cities: Vec<CityMarker> = (0..6)
        .map(|k| CityMarker { index: k, x: 10 + k % 3, y: 4 + k / 3, label_width: 5, focus: false })
        .collect();
    let labels = city_labels(40, 10, None, None, &cities);
    let placed: Vec<(usize, usize, usize)> = labels
        .iter()
        .zip(cities.iter())
        .filter_map(|(label, city)| label.map(|(x, y)| (x, y, city.label_width)))
        .collect();
    assert!(placed.len() >= 2);
    for (i, a) in placed.iter().enumerate() {
        for b in placed.iter().skip(i + 1) {
            let overlap = a.1 == b.1 && a.0 < b.0 + b.2 && b.0 < a.0 + a.2;
            assert!(!overlap, "{a:?} and {b:?} overlap");
        }
    }
}
