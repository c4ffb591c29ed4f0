use pathfinding_core::AStarState;
use pathfinding_core::Coordinate;
use pathfinding_core::SearchError;
use pathfinding_core::build_path;
use pathfinding_core::integer_decode;

fn c(x: f64, y: f64) -> Coordinate {
    Coordinate::new(x.to_bits(), y.to_bits())
}

#[test]
fn returns_an_empty_array_when_the_target_and_source_are_in_the_same_box() {
    let source = c(5., 5.);
    let target = c(8., 8.);
    let box_size = 10f64.to_bits();
    let result = build_path(source, target, box_size, vec![]).unwrap();

    assert_eq!(result.len(), 1);
    assert_eq!(result[0].source, None);
    assert_eq!(result[0].point, c(5., 5.))
}

#[test]
fn returns_a_path_of_two_items_when_the_source_and_target_are_in_adjacent_boxes() {
    let source = c(15., 15.);
    let target = c(22., 12.);
    let box_size = 10f64.to_bits();
    let result = build_path(source, target, box_size, vec![]).unwrap();
    assert_eq!(result.len(), 2);
    assert_eq!(result[0].source, None);
    assert_eq!(result[0].point, c(15., 15.));
    assert_eq!(result[1].source, Some(c(15., 15.)));
    assert_eq!(result[1].point, c(25., 15.));
}

#[test]
fn returns_a_path_of_three_items_when_the_source_and_target_are_2_boxes_apart() {
    let source = c(15., 15.);
    let target = c(32., 12.);
    let box_size = 10f64.to_bits();
    let result = build_path(source, target, box_size, vec![]).unwrap();
    assert_eq!(result.len(), 3);
    assert_eq!(result[0].source, None);
    assert_eq!(result[0].point, c(15., 15.));
    assert_eq!(result[1].point, c(25., 15.));
    assert_eq!(result[1].source, Some(c(15., 15.)));
    assert_eq!(result[2].point, c(35., 15.));
    assert_eq!(result[2].source, Some(c(25., 15.)));
}

#[test]
fn finds_diagonal_path() {
    let source = c(15., 5.);
    let target = c(5., 15.);
    let box_size = 10f64.to_bits();
    let result = build_path(source, target, box_size, vec![]).unwrap();
    assert_eq!(result.len(), 2);
    assert_eq!(result[0].source, None);
    assert_eq!(result[0].point, c(15., 5.));
    assert_eq!(result[1].source, Some(c(15., 5.)));
    assert_eq!(result[1].point, c(5., 15.));
}

#[test]
fn finds_correct_path_around_obstacles() {
    let source = c(5., 15.);
    let target = c(25., 15.);
    let box_size = 10f64.to_bits();
    let obstacles = vec![c(15., 5.), c(15., 15.)];
    let result = build_path(source, target, box_size, obstacles).unwrap();

    assert_eq!(result.len(), 5);
    assert_eq!(result[0].source, None);
    assert_eq!(result[0].point, c(5., 15.));
    assert_eq!(result[1].source, Some(c(5., 15.)));
    assert_eq!(result[1].point, c(5., 25.));
    assert_eq!(result[2].source, Some(c(5., 25.)));
    assert_eq!(result[2].point, c(15., 25.));
    assert_eq!(result[3].source, Some(c(15., 25.)));
    assert_eq!(result[3].point, c(25., 25.));
    assert_eq!(result[4].source, Some(c(25., 25.)));
    assert_eq!(result[4].point, c(25., 15.));
}

#[test]
fn same_box_short_circuit_ignores_terrain() {
    let result = build_path(c(5., 5.), c(8., 8.), 10f64.to_bits(), vec![c(15., 5.)]).unwrap();
    assert_eq!(result.len(), 1);
    assert_eq!(result[0].source, None);
    assert_eq!(result[0].point, c(5., 5.));
}

#[test]
fn rejects_zero_box_size() {
    let result = build_path(c(5., 5.), c(50., 50.), 0f64.to_bits(), vec![]);
    assert_eq!(result, Err(SearchError::InvalidBoxSize));
}

#[test]
fn rejects_negative_box_size() {
    let result = build_path(c(5., 5.), c(50., 50.), (-10f64).to_bits(), vec![]);
    assert_eq!(result, Err(SearchError::InvalidBoxSize));
}

#[test]
fn rejects_nan_box_size() {
    let result = build_path(c(5., 5.), c(50., 50.), f64::NAN.to_bits(), vec![]);
    assert_eq!(result, Err(SearchError::InvalidBoxSize));
}

#[test]
fn reports_no_path_when_source_is_walled_in() {
    let source = c(15., 15.);
    let target = c(105., 105.);
    let walls = vec![c(15., 5.), c(15., 25.), c(5., 15.), c(25., 15.)];
    let result = build_path(source, target, 10f64.to_bits(), walls);
    assert_eq!(result, Err(SearchError::NoPathFound));
}

#[test]
fn reports_no_path_for_walled_in_corridor() {
    let source = c(25., 25.);
    let target = c(105., 105.);
    let walls = vec![
        c(15., 15.),
        c(25., 15.),
        c(35., 15.),
        c(45., 15.),
        c(15., 25.),
        c(45., 25.),
        c(15., 35.),
        c(25., 35.),
        c(35., 35.),
        c(45., 35.),
    ];
    let result = build_path(source, target, 10f64.to_bits(), walls);
    assert_eq!(result, Err(SearchError::NoPathFound));
}

#[test]
fn determinism_identical_inputs_identical_outputs() {
    let terrain = vec![c(15., 5.), c(15., 15.)];
    let a = build_path(c(5., 15.), c(25., 15.), 10f64.to_bits(), terrain.clone()).unwrap();
    let b = build_path(c(5., 15.), c(25., 15.), 10f64.to_bits(), terrain).unwrap();
    assert_eq!(a.len(), b.len());
    for i in 0..a.len() {
        assert_eq!(a[i].point, b[i].point);
        assert_eq!(a[i].source, b[i].source);
        assert_eq!(a[i].heuristic, b[i].heuristic);
    }
}

#[test]
fn heuristic_is_the_euclidean_distance() {
    assert_eq!(c(0., 0.).heuristic(&c(3., 4.)), 5f64.to_bits());
    assert_eq!(c(15., 15.).heuristic(&c(22., 12.)), 58f64.sqrt().to_bits());
    assert_eq!(c(1.5, 2.25).heuristic(&c(-3.5, 7.75)), (5f64 * 5. + 5.5 * 5.5).sqrt().to_bits());
    assert_eq!(c(7., 9.).heuristic(&c(7., 9.)), 0f64.to_bits());
}

#[test]
fn centre_of_box_snaps_to_the_containing_box() {
    assert_eq!(c(17., 23.).centre_of_box(10f64.to_bits()), c(15., 25.));
    assert_eq!(c(15., 15.).centre_of_box(10f64.to_bits()), c(15., 15.));
    assert_eq!(c(0.5, 9.5).centre_of_box(10f64.to_bits()), c(5., 5.));
    assert_eq!(c(3., 4.).centre_of_box(2.5f64.to_bits()), c(3.75, 3.75));
}

#[test]
fn in_same_box_is_inclusive_and_rejects_nan() {
    let box_size = 10f64.to_bits();
    assert!(c(5., 5.).in_same_box(&c(10., 0.), box_size));
    assert!(c(5., 5.).in_same_box(&c(0., 10.), box_size));
    assert!(!c(5., 5.).in_same_box(&c(10.5, 0.), box_size));
    assert!(!c(5., 5.).in_same_box(&c(0., -0.5), box_size));
    assert!(!c(5., 5.).in_same_box(&c(f64::NAN, 5.), box_size));
}

#[test]
fn load_options_lists_the_eight_neighbour_centres() {
    let (adjacents, diagonals) = c(17., 23.).load_options(10f64.to_bits());
    assert_eq!(adjacents, vec![c(15., 15.), c(15., 35.), c(5., 25.), c(25., 25.)]);
    assert_eq!(diagonals.len(), 4);
    assert_eq!(diagonals[0].point, c(25., 15.));
    assert_eq!(diagonals[0].route_sides, (c(15., 15.), c(25., 25.)));
    assert_eq!(diagonals[1].point, c(5., 15.));
    assert_eq!(diagonals[1].route_sides, (c(15., 15.), c(5., 25.)));
    assert_eq!(diagonals[2].point, c(25., 35.));
    assert_eq!(diagonals[2].route_sides, (c(15., 35.), c(25., 25.)));
    assert_eq!(diagonals[3].point, c(5., 35.));
    assert_eq!(diagonals[3].route_sides, (c(15., 35.), c(5., 25.)));
}

#[test]
fn integer_decode_splits_mantissa_exponent_sign() {
    assert_eq!(integer_decode(1f64.to_bits()), (1u64 << 52, -52, 1));
    assert_eq!(integer_decode(2f64.to_bits()), (1u64 << 52, -51, 1));
    assert_eq!(integer_decode((-1f64).to_bits()), (1u64 << 52, -52, -1));
    assert_eq!(integer_decode(0f64.to_bits()), (0, -1075, 1));
    assert_eq!(integer_decode((-0f64).to_bits()), (0, -1075, -1));
}

#[test]
fn equality_follows_the_decomposition_rule() {
    let computed = 0.1f64 + 0.2f64;
    let written = 0.3f64;
    assert_ne!(computed.to_bits(), written.to_bits());
    assert_ne!(c(computed, 1.), c(written, 1.));
    assert_ne!(
        c(computed, 1.).as_int_tuple(),
        c(written, 1.).as_int_tuple()
    );

    let again = 0.1f64 + 0.2f64;
    assert_eq!(c(computed, 1.), c(again, 1.));
    assert_eq!(c(computed, 1.).as_int_tuple(), c(again, 1.).as_int_tuple());

    assert_ne!(c(0.0, 0.0), c(-0.0, 0.0));
    assert_ne!(c(0.0, 0.0).as_int_tuple(), c(-0.0, 0.0).as_int_tuple());
}

#[test]
fn path_nodes_carry_their_distance_to_the_target() {
    let source = c(15., 15.);
    let target = c(22., 12.);
    let result = build_path(source, target, 10f64.to_bits(), vec![]).unwrap();
    assert_eq!(result.len(), 2);
    assert_eq!(result[0].heuristic, (7f64 * 7. + 3. * 3.).sqrt().to_bits());
    assert_eq!(result[1].heuristic, (3f64 * 3. + 3. * 3.).sqrt().to_bits());
}

#[test]
fn fresh_state_is_empty() {
    let state = AStarState::new();
    assert_eq!(state.stack.len(), 0);
    assert_eq!(state.completed.len(), 0);
}
