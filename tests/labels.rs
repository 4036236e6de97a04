use chartistry::anchor::Anchor;
use chartistry::bounds::Bounds;
use chartistry::edge::Edge;
use chartistry::label::RotatedLabel;
use chartistry::legend::Legend;
use chartistry::padding::Padding;
use chartistry::pointer::{page_bounds, use_watched_node};
use chartistry::projection::{Domain, Projection};
use chartistry::series::{Line, SeriesAcc};
use chartistry::colour::Colour;
use chartistry::state::{compute_state, ChartInputs, ChartState, EdgeLayout, PreState};

#[test]
fn anchor_keywords_parse_in_any_case() {
    assert_eq!(Anchor::parse("start"), Ok(Anchor::Start));
    assert_eq!(Anchor::parse("MIDDLE"), Ok(Anchor::Middle));
    assert_eq!(Anchor::parse("End"), Ok(Anchor::End));
    assert_eq!("eNd".parse::<Anchor>(), Ok(Anchor::End));
}

#[test]
fn unknown_anchor_is_named_in_error() {
    assert_eq!(Anchor::parse("Centre"), Err("unknown anchor: `Centre`".to_string()));
    assert_eq!(Anchor::parse(""), Err("unknown anchor: ``".to_string()));
}

#[test]
fn anchor_attributes() {
    assert_eq!(Anchor::Start.to_svg_attr(), "start");
    assert_eq!(Anchor::Middle.to_svg_attr(), "middle");
    assert_eq!(Anchor::End.to_svg_attr(), "end");
    assert_eq!(Anchor::Start.css_justify_content(), "flex-start");
    assert_eq!(Anchor::Middle.css_justify_content(), "center");
    assert_eq!(Anchor::End.css_justify_content(), "flex-end");
    assert_eq!(Anchor::End.map_points(1, 2, 3), 3);
}

#[test]
fn rotated_label_size() {
    let p = Padding::sides(3, 100, 5, 100);
    assert_eq!(RotatedLabel::start(String::new()).size(16, p), 0);
    assert_eq!(RotatedLabel::middle("Title".to_string()).fixed_height(16, p), 24);
    assert_eq!(RotatedLabel::end("Title".to_string()).fixed_width(16, p), 24);
    let l = RotatedLabel::new(Anchor::Middle, "x".to_string());
    assert_eq!(l.anchor, Anchor::Middle);
}

#[test]
fn rotated_label_position_per_edge() {
    let b = Bounds::from_points(0, 0, 100, 40);
    let p = Padding::new(0);
    assert_eq!(RotatedLabel::start("t".to_string()).position(Edge::Top, b, p), (0, 0, 20));
    assert_eq!(RotatedLabel::end("t".to_string()).position(Edge::Bottom, b, p), (0, 100, 20));
    assert_eq!(RotatedLabel::start("t".to_string()).position(Edge::Left, b, p), (270, 50, 40));
    assert_eq!(RotatedLabel::start("t".to_string()).position(Edge::Right, b, p), (90, 50, 0));
    assert_eq!(RotatedLabel::middle("t".to_string()).position(Edge::Right, b, Padding::new(2)), (90, 50, 20));
}

#[test]
fn legend_width_uses_longest_name() {
    let mut acc = SeriesAcc::new(vec![Colour::new(0, 0, 0)]);
    acc.apply_use_series(Line::new().with_name("ab".to_string()));
    acc.apply_use_series(Line::new().with_name("abcd".to_string()));
    let p = Padding::sides(1, 2, 3, 4);
    assert_eq!(Legend::width(16, 10, p, acc.lines()), 30 + 40 + 6);
    assert_eq!(Legend::width(16, 10, p, &vec![]), 36);
    assert_eq!(Legend::fixed_height(16, p), 20);
    assert_eq!(Legend::start().anchor, Anchor::Start);
    assert_eq!(Legend::middle().anchor, Anchor::Middle);
    assert_eq!(Legend::end(), Legend::new(Anchor::End));
}

#[test]
fn legend_keeps_no_padding_along_its_edge() {
    let p = Padding::sides(1, 2, 3, 4);
    assert_eq!(Legend::edge_padding(Edge::Top, p), Padding::sides(1, 0, 3, 0));
    assert_eq!(Legend::edge_padding(Edge::Left, p), Padding::sides(0, 2, 0, 4));
}

#[test]
fn pointer_over_node_and_plot() {
    let node = page_bounds(10, 20, 410, 220, 0, 100);
    assert_eq!(node, Bounds::from_points(10, 120, 410, 320));
    let w = use_watched_node(Some(node), true, 60, 130);
    assert!(w.mouse_hover);
    assert_eq!(w.mouse_rel, (50, 10));
    assert_eq!(w.mouse_abs, (60, 130));
    let plot = Projection::new(Bounds::from_points(40, 0, 400, 180), Domain::new(0, 1), Domain::new(0, 1));
    assert!(w.mouse_hover_inner(&plot));
    let outside = use_watched_node(Some(node), true, 0, 0);
    assert!(!outside.mouse_hover);
    assert!(!outside.mouse_hover_inner(&plot));
    let unseen = use_watched_node(Some(node), false, 60, 130);
    assert!(!unseen.mouse_hover);
    let unknown = use_watched_node(None, true, 60, 130);
    assert_eq!(unknown.mouse_rel, (0, 0));
    assert!(!unknown.mouse_hover);
}

#[test]
fn state_lays_out_and_projects() {
    let pre = PreState { font_height: 16, font_width: 10, padding: Padding::new(2), lines: vec![] };
    let items = vec![
        (Edge::Top, EdgeLayout::RotatedLabel(RotatedLabel::middle("Title".to_string()))),
        (Edge::Left, EdgeLayout::Legend(Legend::start())),
    ];
    let s = compute_state(&pre, Bounds::from_points(0, 0, 800, 400), &items, Domain::new(0, 100), Domain::new(0, 10), 50);
    assert_eq!(s.bands[0], Bounds::from_points(0, 0, 800, 20));
    assert_eq!(s.bands[1], Bounds::from_points(0, 20, 34, 400));
    assert_eq!(s.inner, Bounds::from_points(34, 20, 800, 400));
    assert_eq!(s.projection.bounds(), s.inner);
    assert_eq!(s.x_ticks, vec![0, 10, 20, 30, 40, 50, 60, 70, 80, 90, 100]);
    assert_eq!(s.y_ticks, vec![0, 2, 4, 6, 8, 10]);
}

#[test]
fn chart_state_recomputes_only_on_change() {
    let pre = PreState { font_height: 16, font_width: 10, padding: Padding::new(2), lines: vec![] };
    let items = vec![(Edge::Bottom, EdgeLayout::RotatedLabel(RotatedLabel::middle("x".to_string())))];
    let first = ChartInputs { outer: Bounds::from_points(0, 0, 400, 200), x: Domain::new(0, 10), y: Domain::new(0, 10) };
    let mut chart = ChartState::new(pre, items, 50, first);
    assert_eq!(chart.state().inner, Bounds::from_points(0, 0, 400, 180));
    assert!(!chart.set_inputs(first));
    assert_eq!(chart.state().inner, Bounds::from_points(0, 0, 400, 180));
    let wider = ChartInputs { outer: Bounds::from_points(0, 0, 800, 300), ..first };
    assert!(chart.set_inputs(wider));
    assert_eq!(chart.state().inner, Bounds::from_points(0, 0, 800, 280));
    assert_eq!(chart.state().projection.bounds(), Bounds::from_points(0, 0, 800, 280));
}
