use termarium::app::Target;
use termarium::pointer::{
    hits_at, hover_hits, pick_targets, same_target, star_hits, PointerTarget,
};

fn star(hip: u32, x: usize, y: usize, milli_mag: i64) -> PointerTarget {
    PointerTarget {
        target: Target::Star(hip),
        x,
        y,
        score: milli_mag,
        sort_key: format!("star:{:010}", hip),
    }
}

fn moon(x: usize, y: usize) -> PointerTarget {
    PointerTarget {
        target: Target::Moon,
        x,
        y,
        score: -12000,
        sort_key: "moon".to_string(),
    }
}

#[test]
fn hover_lists_every_target_in_the_cell_brightest_first() {
    let targets = vec![star(10, 5, 5, 1500), star(20, 5, 5, 300), star(30, 6, 5, 100), moon(5, 5)];
    assert_eq!(
        hover_hits(&targets, 20, 10, 5, 5),
        vec![Target::Moon, Target::Star(20), Target::Star(10)]
    );
    assert_eq!(hover_hits(&targets, 20, 10, 6, 5), vec![Target::Star(30)]);
    assert_eq!(hover_hits(&targets, 20, 10, 7, 5), Vec::<Target>::new());
    assert_eq!(hover_hits(&targets, 0, 10, 5, 5), Vec::<Target>::new());
}

#[test]
fn equal_ranks_follow_the_sort_key() {
    let targets = vec![star(2, 1, 1, 500), star(1, 1, 1, 500)];
    assert_eq!(hits_at(&targets, 1, 1), vec![Target::Star(1), Target::Star(2)]);
}

#[test]
fn a_target_drawn_twice_in_a_cell_is_listed_once() {
    let targets = vec![star(7, 2, 2, 900), star(7, 2, 2, 900), star(8, 2, 2, 100)];
    assert_eq!(hits_at(&targets, 2, 2), vec![Target::Star(8), Target::Star(7)]);
}

#[test]
fn pick_on_a_target_keeps_the_pointer_there() {
    let targets = vec![star(10, 5, 5, 1500), star(20, 8, 5, 300)];
    let pick = pick_targets(&targets, 20, 10, 5, 5, 8).unwrap();
    assert_eq!((pick.x, pick.y), (5, 5));
    assert_eq!(pick.hits, vec![Target::Star(10)]);
}

#[test]
fn pick_beside_targets_moves_to_the_nearest() {
    let targets = vec![star(10, 8, 5, 100), star(20, 5, 5, 1500)];
    let pick = pick_targets(&targets, 20, 10, 6, 5, 8).unwrap();
    assert_eq!((pick.x, pick.y), (5, 5));
    assert_eq!(pick.hits, vec![Target::Star(20)]);
}

#[test]
fn pick_between_equally_near_targets_takes_the_brighter() {
    let targets = vec![star(10, 4, 5, 2000), star(20, 6, 5, 1000)];
    let pick = pick_targets(&targets, 20, 10, 5, 5, 8).unwrap();
    assert_eq!((pick.x, pick.y), (6, 5));
    assert_eq!(pick.hits, vec![Target::Star(20)]);
}

#[test]
fn pick_with_nothing_near_lists_nothing() {
    let targets = vec![star(10, 15, 5, 100)];
    let pick = pick_targets(&targets, 20, 10, 2, 2, 5).unwrap();
    assert_eq!((pick.x, pick.y), (2, 2));
    assert!(pick.hits.is_empty());
}

#[test]
fn pick_keeps_the_pointer_on_the_canvas() {
    let targets = vec![star(10, 9, 9, 100)];
    let pick = pick_targets(&targets, 10, 10, 100, 100, 0).unwrap();
    assert_eq!((pick.x, pick.y), (9, 9));
    assert_eq!(pick.hits, vec![Target::Star(10)]);
    assert!(pick_targets(&targets, 0, 10, 1, 1, 8).is_none());
    assert!(pick_targets(&targets, 10, 0, 1, 1, 8).is_none());
}

#[test]
fn targets_compare_by_kind_and_value() {
    assert!(same_target(&Target::Star(1), &Target::Star(1)));
    assert!(!same_target(&Target::Star(1), &Target::Star(2)));
    assert!(same_target(&Target::Planet("Mars".to_string()), &Target::Planet("Mars".to_string())));
    assert!(!same_target(&Target::Planet("Mars".to_string()), &Target::DeepSky("Mars".to_string())));
    assert!(same_target(&Target::Moon, &Target::Moon));
}

#[test]
fn listed_stars_are_the_star_hits_in_order() {
    let hits = vec![
        Target::Moon,
        Target::Star(20),
        Target::Planet("Mars".to_string()),
        Target::Star(10),
    ];
    assert_eq!(star_hits(&hits), vec![20, 10]);
    assert_eq!(star_hits(&Vec::new()), Vec::<u32>::new());
}
