use chartistry::bounds::Bounds;
use chartistry::edge::Edge;
use chartistry::layout::layout;
use chartistry::padding::Padding;

#[test]
fn bounds_width_and_height() {
    let b = Bounds::from_points(10, 20, 110, 70);
    assert_eq!(b.width(), 100);
    assert_eq!(b.height(), 50);
    assert_eq!(b.centre_x(), 60);
    assert_eq!(b.centre_y(), 45);
}

#[test]
fn degenerate_bounds_are_accepted() {
    let b = Bounds::from_points(50, 40, 30, 10);
    assert_eq!(b.width(), -20);
    assert_eq!(b.height(), -30);
    assert!(!b.contains(40, 20));
}

#[test]
fn midpoint_rounds_down() {
    let b = Bounds::from_points(-3, -3, 0, 0);
    assert_eq!(b.centre_x(), -2);
    assert_eq!(b.centre_y(), -2);
}

#[test]
fn contains_includes_edges() {
    let b = Bounds::new(10, 5);
    assert!(b.contains(0, 0));
    assert!(b.contains(10, 5));
    assert!(!b.contains(11, 5));
    assert!(!b.contains(3, -1));
}

#[test]
fn top_and_left_items_leave_inner_rectangle() {
    let outer = Bounds::from_points(0, 0, 800, 400);
    let (bands, inner) = layout(outer, &vec![(Edge::Top, 20), (Edge::Left, 50)]);
    assert_eq!(inner, Bounds::from_points(50, 20, 800, 400));
    assert_eq!(bands[0], Bounds::from_points(0, 0, 800, 20));
    assert_eq!(bands[1], Bounds::from_points(0, 20, 50, 400));
}

#[test]
fn no_items_leave_outer_rectangle() {
    let outer = Bounds::from_points(5, 6, 70, 80);
    let (bands, inner) = layout(outer, &vec![]);
    assert!(bands.is_empty());
    assert_eq!(inner, outer);
}

#[test]
fn declaration_order_places_first_item_outermost() {
    let outer = Bounds::from_points(0, 0, 100, 100);
    let (bands, inner) = layout(outer, &vec![(Edge::Bottom, 10), (Edge::Bottom, 15), (Edge::Right, 5)]);
    assert_eq!(bands[0], Bounds::from_points(0, 90, 100, 100));
    assert_eq!(bands[1], Bounds::from_points(0, 75, 100, 90));
    assert_eq!(bands[2], Bounds::from_points(95, 0, 100, 75));
    assert_eq!(inner, Bounds::from_points(0, 0, 95, 75));
}

#[test]
fn sizes_account_for_every_pixel() {
    let outer = Bounds::from_points(0, 0, 300, 200);
    let items = vec![(Edge::Left, 30), (Edge::Top, 12), (Edge::Right, 40), (Edge::Bottom, 8), (Edge::Left, 0)];
    let (_, inner) = layout(outer, &items);
    assert_eq!(30 + 40 + 0 + inner.width(), outer.width());
    assert_eq!(12 + 8 + inner.height(), outer.height());
}

#[test]
fn oversized_items_give_degenerate_inner() {
    let outer = Bounds::from_points(0, 0, 100, 50);
    let (_, inner) = layout(outer, &vec![(Edge::Left, 80), (Edge::Right, 40)]);
    assert_eq!(inner.width(), -20);
}

#[test]
fn padding_shrinks_bounds() {
    let p = Padding::sides(1, 2, 3, 4);
    assert_eq!(p.height(), 4);
    assert_eq!(p.width(), 6);
    let b = p.apply(Bounds::from_points(0, 0, 100, 50));
    assert_eq!(b, Bounds::from_points(4, 1, 98, 47));
    assert_eq!(Padding::new(2), Padding::sides(2, 2, 2, 2));
}
