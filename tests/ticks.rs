use chartistry::bounds::Bounds;
use chartistry::grid::{default_labels, first_label_indices, for_ticks};
use chartistry::inner::{grid_segments, InnerLayout, LineStyle, Segment, UseInner};
use chartistry::padding::Padding;
use chartistry::state::{compute_state, PreState, State};
use chartistry::colour::Colour;
use chartistry::projection::{Domain, Projection};
use chartistry::ticks::{aligned, fitting_count, generate, nice_step};

#[test]
fn nice_steps_are_one_two_five() {
    assert_eq!(nice_step(100, 10), 10);
    assert_eq!(nice_step(100, 3), 50);
    assert_eq!(nice_step(100, 7), 20);
    assert_eq!(nice_step(1000, 4), 500);
    assert_eq!(nice_step(0, 1), 1);
    assert_eq!(nice_step(7, 100), 1);
}

#[test]
fn count_halves_until_labels_fit() {
    assert_eq!(fitting_count(500, 50, 500), 7);
    assert_eq!(fitting_count(100, 200, 100), 0);
    assert_eq!(fitting_count(0, 5, 0), 0);
}

#[test]
fn aligned_ticks_are_multiples_inside_domain() {
    assert_eq!(aligned(Domain::new(-7, 23), 10), vec![0, 10, 20]);
    assert_eq!(aligned(Domain::new(1, 4), 5), Vec::<i64>::new());
    assert_eq!(aligned(Domain::new(5, 5), 5), vec![5]);
}

#[test]
fn generated_ticks_cover_domain() {
    let t = generate(Domain::new(0, 100), 500, 50);
    assert_eq!(t, vec![0, 20, 40, 60, 80, 100]);
    for w in t.windows(2) {
        assert!(w[0] < w[1]);
    }
}

#[test]
fn no_pixels_give_no_ticks() {
    assert!(generate(Domain::new(0, 100), 0, 10).is_empty());
}

#[test]
fn duplicate_labels_keep_first_tick() {
    let labels: Vec<String> = ["0", "0", "1", "2", "1"].iter().map(|s| s.to_string()).collect();
    assert_eq!(first_label_indices(&labels), vec![0, 2, 3]);
    let p = Projection::new(Bounds::from_points(0, 0, 100, 50), Domain::new(0, 4), Domain::new(0, 4));
    let marks = for_ticks(&p, &vec![0, 1, 2, 3, 4], &labels, true);
    let got: Vec<(i64, String)> = marks.iter().map(|m| (m.pixel, m.label.clone())).collect();
    assert_eq!(got, vec![(0, "0".to_string()), (50, "1".to_string()), (75, "2".to_string())]);
    let rows = for_ticks(&p, &vec![0, 1, 2, 3, 4], &labels, false);
    assert_eq!(rows.iter().map(|m| m.pixel).collect::<Vec<_>>(), vec![50, 25, 13]);
}

#[test]
fn grid_lines_span_plot_area() {
    let p = Projection::new(Bounds::from_points(10, 20, 110, 70), Domain::new(0, 10), Domain::new(0, 10));
    let labels: Vec<String> = vec!["0".to_string(), "5".to_string()];
    let marks = for_ticks(&p, &vec![0, 5], &labels, true);
    let inner = p.bounds();
    assert_eq!(
        grid_segments(inner, &marks, true),
        vec![Segment { x1: 10, y1: 20, x2: 10, y2: 70 }, Segment { x1: 60, y1: 20, x2: 60, y2: 70 }]
    );
    let rows = for_ticks(&p, &vec![0, 5], &labels, false);
    assert_eq!(
        grid_segments(inner, &rows, false),
        vec![Segment { x1: 10, y1: 70, x2: 110, y2: 70 }, Segment { x1: 10, y1: 45, x2: 110, y2: 45 }]
    );
}

fn plain_state() -> State {
    let pre = PreState { font_height: 10, font_width: 5, padding: Padding::new(0), lines: vec![] };
    compute_state(&pre, Bounds::from_points(0, 0, 100, 50), &vec![], Domain::new(0, 10), Domain::new(0, 5), 20)
}

#[test]
fn inner_items_fall_back_to_default_colours() {
    let state = plain_state();
    match InnerLayout::AxisMarker(LineStyle::new().set_width(3)).into_use(&state) {
        UseInner::AxisMarker { colour, width } => {
            assert_eq!(colour, Colour::new(0xD2, 0xD2, 0xD2));
            assert_eq!(width, 3);
        }
        other => panic!("unexpected {:?}", other),
    }
    match InnerLayout::YGuideLine(LineStyle::new()).into_use(&state) {
        UseInner::GuideLine { colour, width, is_x } => {
            assert_eq!(colour, Colour::new(0x9A, 0x9A, 0x9A));
            assert_eq!(width, 1);
            assert!(!is_x);
        }
        other => panic!("unexpected {:?}", other),
    }
    match InnerLayout::YGridLine(LineStyle::new().set_colour(Some(Colour::new(1, 2, 3)))).into_use(&state) {
        UseInner::GridLine { colour, is_x, .. } => {
            assert_eq!(colour, Colour::new(1, 2, 3));
            assert!(!is_x);
        }
        other => panic!("unexpected {:?}", other),
    }
}

#[test]
fn grid_line_takes_marks_of_its_axis() {
    let state = plain_state();
    assert_eq!(state.x_ticks, vec![0, 5, 10]);
    match InnerLayout::XGridLine(LineStyle::new()).into_use(&state) {
        UseInner::GridLine { colour, marks, is_x, .. } => {
            assert_eq!(colour, Colour::new(0xEF, 0xF2, 0xFA));
            assert!(is_x);
            let got: Vec<(i64, String)> = marks.iter().map(|m| (m.pixel, m.label.clone())).collect();
            assert_eq!(got, vec![(0, "0".to_string()), (50, "5".to_string()), (100, "10".to_string())]);
        }
        other => panic!("unexpected {:?}", other),
    }
}

#[test]
fn default_labels_are_decimal() {
    assert_eq!(default_labels(&vec![-5, 0, 120]), vec!["-5".to_string(), "0".to_string(), "120".to_string()]);
}
