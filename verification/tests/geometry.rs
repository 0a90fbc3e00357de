use uncad_model::bulge::segment_ends;
use uncad_model::curve::counts_define_a_curve;
use uncad_model::units::unit_name;

#[test]
fn the_common_codes_have_their_short_names() {
    assert_eq!(unit_name(4), "mm");
    assert_eq!(unit_name(1), "in");
    assert_eq!(unit_name(6), "m");
    assert_eq!(unit_name(21), "us-ft");
    assert_eq!(unit_name(24), "us-mi");
}

#[test]
fn unitless_and_undefined_codes_are_drawing_units() {
    for code in [0, 25, 999] {
        assert_eq!(unit_name(code), "du", "{code}");
    }
}

#[test]
fn a_closed_polyline_has_a_segment_back_to_its_first_vertex() {
    assert_eq!(segment_ends(3, true), vec![(0, 1), (1, 2), (2, 0)]);
    assert_eq!(segment_ends(3, false), vec![(0, 1), (1, 2)]);
}

#[test]
fn fewer_than_two_vertices_make_no_segment() {
    assert!(segment_ends(0, true).is_empty());
    assert!(segment_ends(1, true).is_empty());
    assert!(segment_ends(1, false).is_empty());
    assert_eq!(segment_ends(2, true), vec![(0, 1), (1, 0)]);
}

#[test]
fn counts_that_do_not_add_up_define_no_curve() {
    // Three control points and degree 2 need six knots, not four.
    assert!(!counts_define_a_curve(2, 4, 3, 0));
    assert!(counts_define_a_curve(2, 6, 3, 0));
    // Weights one per control point, or none at all.
    assert!(!counts_define_a_curve(2, 6, 3, 2));
    assert!(counts_define_a_curve(2, 6, 3, 3));
    // The degree is at least 1 and below the number of control points.
    assert!(!counts_define_a_curve(0, 4, 3, 0));
    assert!(!counts_define_a_curve(3, 7, 3, 0));
    assert!(!counts_define_a_curve(u32::MAX, usize::MAX, usize::MAX, 0));
}
