use chartistry::bounds::Bounds;
use chartistry::colour::Colour;
use chartistry::path::{path_commands, render_line, series_positions, PathCommand};
use chartistry::projection::{Domain, Projection};
use chartistry::series::{Line, SeriesAcc, UseLine};

fn palette() -> Vec<Colour> {
    vec![Colour::new(255, 0, 0), Colour::new(0, 255, 0), Colour::new(0, 0, 255)]
}

#[test]
fn series_take_ids_and_palette_colours_in_order() {
    let mut acc = SeriesAcc::new(palette());
    let a = acc.apply_use_series(Line::new().with_name("a".to_string()));
    let b = acc.apply_use_series(Line::new().with_name("b".to_string()));
    let c = acc.apply_use_series(Line::new().with_name("c".to_string()));
    assert_eq!((a.id, b.id, c.id), (0, 1, 2));
    assert_eq!(a.colour, palette()[0]);
    assert_eq!(b.colour, palette()[1]);
    assert_eq!(c.colour, palette()[2]);
    assert!(a.colour != b.colour && b.colour != c.colour && a.colour != c.colour);
    assert_eq!(acc.lines().len(), 3);
    assert_eq!(acc.lines()[1].name, "b");
}

#[test]
fn own_colour_overrides_palette() {
    let own = Colour::new(12, 34, 56);
    let mut acc = SeriesAcc::new(palette());
    let a = acc.apply_use_series(Line::new());
    let b = acc.apply_use_series(Line::new().with_colour(Some(own)));
    let c = acc.apply_use_series(Line::new());
    assert_eq!(a.colour, palette()[0]);
    assert_eq!(b.colour, own);
    assert_eq!(c.colour, palette()[2]);
    assert_eq!(b.id, 1);
}

#[test]
fn palette_wraps_round() {
    let mut acc = SeriesAcc::new(vec![Colour::new(1, 1, 1), Colour::new(2, 2, 2)]);
    let ids: Vec<UseLine> = (0..5).map(|_| acc.apply_use_series(Line::new())).collect();
    assert_eq!(ids[4].colour, Colour::new(1, 1, 1));
    assert_eq!(ids[3].colour, Colour::new(2, 2, 2));
    assert_eq!(acc.next_colour(), Colour::new(2, 2, 2));
}

#[test]
fn push_uses_given_colour() {
    let mut acc = SeriesAcc::new(palette());
    let u = acc.push(Colour::new(9, 9, 9), Line::new().with_width(3));
    assert_eq!(u.colour, Colour::new(9, 9, 9));
    assert_eq!(u.width, 3);
    assert_eq!(u.id, 0);
}

#[test]
fn line_defaults() {
    let l = Line::new();
    assert_eq!(l.name, "");
    assert_eq!(l.colour, None);
    assert_eq!(l.width, 1);
}

#[test]
fn snippet_is_three_glyphs_wide() {
    assert_eq!(UseLine::taster_bounds(12, 7), Bounds::from_points(0, 0, 14, 12));
    assert_eq!(UseLine::snippet_width(12, 7), 21);
}

#[test]
fn missing_value_breaks_path() {
    let p = Projection::new(Bounds::from_points(0, 0, 100, 100), Domain::new(0, 4), Domain::new(0, 4));
    let pos = series_positions(&p, &vec![Some((1, 1)), None, Some((3, 3))]);
    assert_eq!(pos, vec![Some((25, 75)), None, Some((75, 25))]);
    let cmds = path_commands(&pos);
    assert_eq!(cmds, vec![PathCommand::MoveTo(25, 75), PathCommand::MoveTo(75, 25)]);
    assert_eq!(render_line(&pos), "M 25 75 M 75 25 ");
}

#[test]
fn path_joins_consecutive_points() {
    let pos = vec![None, Some((0, 10)), Some((5, -2)), Some((9, 9)), None, None, Some((1, 1)), Some((2, 2))];
    assert_eq!(render_line(&pos), "M 0 10 L 5 -2 L 9 9 M 1 1 L 2 2 ");
    assert_eq!(render_line(&vec![]), "");
    assert_eq!(render_line(&vec![None, None]), "");
}
