use fast_point_in_polygon_for_glsl::emit::{emit, Axis, CheckText, FrameText};
use fast_point_in_polygon_for_glsl::frame::{candidate_pairs, split_frame, FramePoint::{Corner, Crossing}};
use fast_point_in_polygon_for_glsl::level::{classify_level, count_kept_points, keep_rings, Level};
use fast_point_in_polygon_for_glsl::split::{score_split, select_split, SplitScore};
use fast_point_in_polygon_for_glsl::tree::{orient, LineSplitCheckGeneralized, PolygonFastPrecalculatorPart, Query, Step};

fn triangle() -> PolygonFastPrecalculatorPart {
    PolygonFastPrecalculatorPart::Triangle {
        checks: [
            LineSplitCheckGeneralized::Less(0),
            LineSplitCheckGeneralized::Greater(1),
            LineSplitCheckGeneralized::Less(2),
        ],
    }
}

fn split_tree() -> PolygonFastPrecalculatorPart {
    PolygonFastPrecalculatorPart::LineSplit {
        check: 3,
        less: Box::new(triangle()),
        greater: Box::new(PolygonFastPrecalculatorPart::Empty),
    }
}

#[test]
fn triangle_leaf_needs_all_three_checks() {
    let t = triangle();
    assert!(t.decide(&vec![true, false, true]));
    assert!(!t.decide(&vec![true, true, true]));
    assert!(!t.decide(&vec![false, false, true]));
    assert!(!t.decide(&vec![true, false, false]));
}

#[test]
fn empty_leaf_is_outside() {
    assert!(!PolygonFastPrecalculatorPart::Empty.decide(&vec![]));
}

#[test]
fn split_follows_the_side_of_its_check() {
    let t = split_tree();
    assert!(t.decide(&vec![true, false, true, true]));
    assert!(!t.decide(&vec![true, false, true, false]));
}

#[test]
fn balanced_score_is_larger_over_smaller() {
    assert_eq!(score_split(3, 6, 9), Some(SplitScore::Balanced { larger: 6, smaller: 3 }));
    assert_eq!(score_split(6, 3, 9), Some(SplitScore::Balanced { larger: 6, smaller: 3 }));
    assert_eq!(score_split(4, 4, 100), Some(SplitScore::Balanced { larger: 4, smaller: 4 }));
    assert_eq!(score_split(1, 8, 9), Some(SplitScore::Balanced { larger: 8, smaller: 1 }));
}

#[test]
fn one_sided_split_is_last_resort_only_when_it_sheds_vertices() {
    assert_eq!(score_split(0, 5, 6), Some(SplitScore::LastResort));
    assert_eq!(score_split(5, 0, 6), Some(SplitScore::LastResort));
    assert_eq!(score_split(0, 5, 5), None);
    assert_eq!(score_split(0, 0, 0), None);
    assert_eq!(score_split(0, 0, 1), None);
}

#[test]
fn balanced_split_must_shrink_both_sides() {
    assert_eq!(score_split(5, 5, 4), None);
    assert_eq!(score_split(4, 2, 4), None);
    assert_eq!(score_split(2, 9, 9), None);
    assert_eq!(score_split(3, 3, 4), Some(SplitScore::Balanced { larger: 3, smaller: 3 }));
}

#[test]
fn scores_compare_as_ratios() {
    let a = SplitScore::Balanced { larger: 5, smaller: 4 };
    let b = SplitScore::Balanced { larger: 6, smaller: 3 };
    let c = SplitScore::Balanced { larger: 10, smaller: 8 };
    assert!(a.is_better(&b));
    assert!(!b.is_better(&a));
    assert!(!a.is_better(&c));
    assert!(!c.is_better(&a));
    assert!(b.is_better(&SplitScore::LastResort));
    assert!(!SplitScore::LastResort.is_better(&b));
    assert!(!SplitScore::LastResort.is_better(&SplitScore::LastResort));
}

#[test]
fn select_split_takes_the_first_best() {
    let results = vec![(0, 9), (3, 6), (4, 5), (5, 4), (8, 0), (4, 5)];
    assert_eq!(select_split(&results, 10), Some(2));
}

#[test]
fn select_split_prefers_any_balanced_split() {
    let results = vec![(0, 3), (1, 7), (0, 2)];
    assert_eq!(select_split(&results, 8), Some(1));
    let results = vec![(0, 9), (0, 3), (0, 2)];
    assert_eq!(select_split(&results, 8), Some(1));
}

#[test]
fn select_split_reports_no_admissible_split() {
    let results = vec![(0, 8), (8, 0), (0, 9)];
    assert_eq!(select_split(&results, 8), None);
    assert_eq!(select_split(&vec![], 8), None);
    assert_eq!(select_split(&vec![(5, 5), (0, 0)], 4), None);
    assert_eq!(select_split(&vec![(5, 5), (0, 3)], 4), Some(1));
}

#[test]
fn levels_follow_the_ring_sizes() {
    assert_eq!(classify_level(&vec![]), Level::Empty);
    assert_eq!(classify_level(&vec![3, 2, 0]), Level::Empty);
    assert_eq!(classify_level(&vec![4]), Level::Triangle(0));
    assert_eq!(classify_level(&vec![2, 3, 4]), Level::Triangle(2));
    assert_eq!(classify_level(&vec![5]), Level::General);
    assert_eq!(classify_level(&vec![4, 4]), Level::General);
    assert_eq!(classify_level(&vec![4, 3, 6]), Level::General);
}

#[test]
fn small_rings_are_dropped() {
    assert_eq!(keep_rings(&vec![3, 4, 2, 9, 0]), vec![1, 3]);
    assert_eq!(count_kept_points(&vec![3, 4, 2, 9, 0]), Some(13));
    assert_eq!(count_kept_points(&vec![]), Some(0));
    assert_eq!(count_kept_points(&vec![usize::MAX, 3, 2]), Some(usize::MAX));
    assert_eq!(count_kept_points(&vec![usize::MAX, 4]), None);
}

#[test]
fn frame_is_cut_at_two_crossings() {
    let (first, second) = split_frame(&vec![false, true, false, true]);
    assert_eq!(first, vec![Corner(0), Crossing(1), Crossing(3), Corner(3)]);
    assert_eq!(second, vec![Crossing(1), Corner(1), Corner(2), Crossing(3)]);
}

#[test]
fn frame_crossings_after_the_second_are_ignored() {
    let (first, second) = split_frame(&vec![true, true, true, false]);
    assert_eq!(first, vec![Crossing(0), Crossing(1), Corner(1), Corner(3)]);
    assert_eq!(second, vec![Crossing(0), Corner(0), Crossing(1)]);
    let (first, second) = split_frame(&vec![false, false]);
    assert_eq!(first, vec![Corner(0), Corner(1)]);
    assert!(second.is_empty());
}

#[test]
fn candidates_are_all_ordered_pairs() {
    let pairs = candidate_pairs(3);
    assert_eq!(pairs.len(), 9);
    assert_eq!(pairs[0], (0, 0));
    assert_eq!(pairs[5], (1, 2));
    assert_eq!(pairs[7], (2, 1));
    assert!(candidate_pairs(0).is_empty());
}

fn check(axis: Axis, k: &str, b: &str) -> CheckText {
    CheckText { axis, k: k.to_string(), b: b.to_string() }
}

#[test]
fn emitted_text_nests_the_tree() {
    let checks = vec![
        check(Axis::MulToX, "0e0", "1e0"),
        check(Axis::MulToY, "-5e-1", "2e0"),
        check(Axis::MulToX, "1e0", "0e0"),
        check(Axis::MulToY, "0e0", "5e-1"),
    ];
    let frame = FrameText {
        min_x: "1e0".to_string(),
        min_y: "2e0".to_string(),
        width: "3e0".to_string(),
        height: "4e0".to_string(),
    };
    let text = emit("star", &frame, &split_tree(), &checks);
    let expected = "bool is_inside_star(vec2 a) {\n\
\x20 a = (a - vec2(1e0, 2e0)) / vec2(3e0, 4e0);\n\
\x20 if (0. <= a.x && a.x <= 1. && 0. <= a.y && a.y <= 1.) {\n\
\x20   if (a.x < a.y * 0e0 + (5e-1)) {\n\
\x20     return (a.y < a.x * 0e0 + (1e0)) && !(a.x < a.y * -5e-1 + (2e0)) && (a.y < a.x * 1e0 + (0e0));\n\
\x20   } else {\n\
\x20     return false;\n\
\x20   }\n\
\x20 } else {\n\
\x20   return false;\n\
\x20 }\n\
}\n";
    assert_eq!(text, expected);
}

#[test]
fn emitted_empty_tree_returns_false() {
    let frame = FrameText {
        min_x: "0e0".to_string(),
        min_y: "0e0".to_string(),
        width: "1e0".to_string(),
        height: "1e0".to_string(),
    };
    let text = emit("none", &frame, &PolygonFastPrecalculatorPart::Empty, &vec![]);
    assert!(text.starts_with("bool is_inside_none(vec2 a) {\n"));
    assert!(text.contains("\n    return false;\n  } else {\n    return false;\n  }\n}\n"));
}

#[test]
fn lazy_query_asks_along_the_path() {
    let t = split_tree();
    assert_eq!(t.next_query(&vec![], 0), Query::Ask(3));
    assert_eq!(t.next_query(&vec![false], 0), Query::Answer(false));
    assert_eq!(t.next_query(&vec![true], 0), Query::Ask(0));
    assert_eq!(t.next_query(&vec![true, false], 0), Query::Answer(false));
    assert_eq!(t.next_query(&vec![true, true], 0), Query::Ask(1));
    assert_eq!(t.next_query(&vec![true, true, true], 0), Query::Answer(false));
    assert_eq!(t.next_query(&vec![true, true, false], 0), Query::Ask(2));
    assert_eq!(t.next_query(&vec![true, true, false, true], 0), Query::Answer(true));
    assert_eq!(t.next_query(&vec![true, true, false, false], 0), Query::Answer(false));
    assert_eq!(t.next_query(&vec![false, true], 1), Query::Ask(0));
}

#[test]
fn lazy_query_agrees_with_decide() {
    let t = split_tree();
    for bits in 0..16u32 {
        let sides: Vec<bool> = (0..4).map(|i| bits & (1 << i) != 0).collect();
        let mut answers = Vec::new();
        let inside = loop {
            match t.next_query(&answers, 0) {
                Query::Ask(i) => answers.push(sides[i]),
                Query::Answer(b) => break b,
            }
        };
        assert_eq!(inside, t.decide(&sides));
        assert!(answers.len() <= 4);
    }
}

#[test]
fn frame_with_one_crossing_gives_the_rest_to_the_second_piece() {
    let (first, second) = split_frame(&vec![false, true, false, false]);
    assert_eq!(first, vec![Corner(0), Crossing(1)]);
    assert_eq!(second, vec![Crossing(1), Corner(1), Corner(2), Corner(3)]);
}

#[test]
fn triangle_checks_are_oriented_toward_the_interior() {
    assert_eq!(orient(4, true), LineSplitCheckGeneralized::Less(4));
    assert_eq!(orient(2, false), LineSplitCheckGeneralized::Greater(2));
}

#[test]
fn one_step_query_descends_node_by_node() {
    let t = split_tree();
    assert!(matches!(t.step(&vec![]), Step::Ask(3)));
    let child = match t.step(&vec![true]) {
        Step::Child(c) => c,
        _ => panic!("a split hands the query to a child"),
    };
    assert!(matches!(child.step(&vec![]), Step::Ask(0)));
    assert!(matches!(child.step(&vec![true, true]), Step::Answer(false)));
    assert!(matches!(child.step(&vec![true, false]), Step::Ask(2)));
    assert!(matches!(child.step(&vec![true, false, true]), Step::Answer(true)));
    assert!(matches!(child.step(&vec![true, false, false]), Step::Answer(false)));
    match t.step(&vec![false]) {
        Step::Child(c) => assert!(matches!(c.step(&vec![]), Step::Answer(false))),
        _ => panic!("a split hands the query to a child"),
    }
}
