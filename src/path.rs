use crate::bounds::in_range;
use crate::projection::Projection;
use vstd::prelude::*;
use vstd::string::StringExecFns;

verus! {

/// One step of an SVG path.
#[derive(Clone, Copy, Debug, PartialEq, Eq, Structural)]
pub enum PathCommand {
    /// Start a new piece of the line at the point.
    MoveTo(i64, i64),
    /// Draw the line on to the point.
    LineTo(i64, i64),
}

/// The command for the point at `i`, if it is present: a point that follows
/// a gap, or starts the series, starts a new piece; any other continues the
/// line. A missing point is a gap and draws nothing.
pub open spec fn command_at(pos: Seq<Option<(i64, i64)>>, i: int) -> Option<PathCommand> {
    match pos[i] {
        None => None,
        Some(p) => Some(
            if i == 0 || pos[i - 1] is None {
                PathCommand::MoveTo(p.0, p.1)
            } else {
                PathCommand::LineTo(p.0, p.1)
            },
        ),
    }
}

/// The commands for all points, in order.
pub open spec fn commands(pos: Seq<Option<(i64, i64)>>) -> Seq<PathCommand>
    decreases pos.len(),
{
    if pos.len() == 0 {
        Seq::empty()
    } else {
        let rest = commands(pos.drop_last());
        match command_at(pos, pos.len() - 1) {
            Some(c) => rest.push(c),
            None => rest,
        }
    }
}

/// The command for each point depends on that point and the one before.
proof fn lemma_command_prefix(pos: Seq<Option<(i64, i64)>>, i: int)
    requires
        0 <= i < pos.len(),
    ensures
        command_at(pos.take(i + 1), i) == command_at(pos, i),
{
}

/// The commands that draw the points as one line, broken at each gap.
pub fn path_commands(pos: &Vec<Option<(i64, i64)>>) -> (r: Vec<PathCommand>)
    ensures
        r@ == commands(pos@),
{
    let mut r: Vec<PathCommand> = Vec::new();
    let mut need_move = true;
    let mut i: usize = 0;
    while i < pos.len()
        invariant
            i <= pos@.len(),
            r@ == commands(pos@.take(i as int)),
            need_move == (i == 0 || pos@[i - 1] is None),
        decreases pos@.len() - i,
    {
        proof {
            assert(pos@.take(i as int + 1).drop_last() =~= pos@.take(i as int));
            lemma_command_prefix(pos@, i as int);
        }
        match pos[i] {
            None => {
                need_move = true;
            },
            Some((x, y)) => {
                if need_move {
                    r.push(PathCommand::MoveTo(x, y));
                } else {
                    r.push(PathCommand::LineTo(x, y));
                }
                need_move = false;
            },
        }
        i = i + 1;
    }
    proof {
        assert(pos@.take(pos@.len() as int) =~= pos@);
    }
    r
}

/// The points of a series that are present, with each coordinate and its
/// pixel position in the coordinate range.
pub open spec fn points_fit(p: Projection, pts: Seq<Option<(i64, i64)>>) -> bool {
    forall|i: int|
        0 <= i < pts.len() ==> match #[trigger] pts[i] {
            None => true,
            Some(q) => in_range(q.0 as int) && in_range(q.1 as int) && in_range(
                p.spec_svg_x(q.0 as int),
            ) && in_range(p.spec_svg_y(q.1 as int)),
        }
}

/// The pixel positions of a series' data points; a missing value stays a gap.
pub fn series_positions(p: &Projection, pts: &Vec<Option<(i64, i64)>>) -> (r: Vec<
    Option<(i64, i64)>,
>)
    requires
        p.wf(),
        points_fit(*p, pts@),
    ensures
        r@.len() == pts@.len(),
        forall|i: int|
            0 <= i < pts@.len() ==> #[trigger] r@[i] == match pts@[i] {
                None => None,
                Some(q) => Some(
                    (p.spec_svg_x(q.0 as int) as i64, p.spec_svg_y(q.1 as int) as i64),
                ),
            },
{
    let mut r: Vec<Option<(i64, i64)>> = Vec::new();
    let mut i: usize = 0;
    while i < pts.len()
        invariant
            p.wf(),
            points_fit(*p, pts@),
            i <= pts@.len(),
            r@.len() == i,
            forall|j: int|
                0 <= j < i ==> #[trigger] r@[j] == match pts@[j] {
                    None => None,
                    Some(q) => Some(
                        (p.spec_svg_x(q.0 as int) as i64, p.spec_svg_y(q.1 as int) as i64),
                    ),
                },
        decreases pts@.len() - i,
    {
        let q = pts[i];
        match q {
            None => r.push(None),
            Some((x, y)) => {
                r.push(Some(p.position_to_svg(x, y)));
            },
        }
        i = i + 1;
    }
    r
}

/// The decimal form of an integer, as its `Display` writes it.
pub uninterp spec fn decimal_of(v: int) -> Seq<char>;

/// Relies on `i64`'s `Display` through `to_string`: the text depends on the
/// value alone.
#[verifier::external_body]
pub(crate) fn decimal(v: i64) -> (r: String)
    ensures
        r@ == decimal_of(v as int),
{
    v.to_string()
}

/// The text of one command, with a space after each part.
pub open spec fn command_text(c: PathCommand) -> Seq<char> {
    match c {
        PathCommand::MoveTo(x, y) => "M "@ + decimal_of(x as int) + " "@ + decimal_of(y as int) + " "@,
        PathCommand::LineTo(x, y) => "L "@ + decimal_of(x as int) + " "@ + decimal_of(y as int) + " "@,
    }
}

/// The text of all commands, one after another.
pub open spec fn path_text(cs: Seq<PathCommand>) -> Seq<char>
    decreases cs.len(),
{
    if cs.len() == 0 {
        Seq::empty()
    } else {
        path_text(cs.drop_last()) + command_text(cs.last())
    }
}

/// The SVG path data (`d` attribute) that draws the commands.
pub fn path_data(cs: &Vec<PathCommand>) -> (r: String)
    ensures
        r@ == path_text(cs@),
{
    let mut r = String::new();
    let mut i: usize = 0;
    while i < cs.len()
        invariant
            i <= cs@.len(),
            r@ == path_text(cs@.take(i as int)),
        decreases cs@.len() - i,
    {
        proof {
            assert(cs@.take(i as int + 1).drop_last() =~= cs@.take(i as int));
        }
        let (head, x, y) = match cs[i] {
            PathCommand::MoveTo(x, y) => ("M ", x, y),
            PathCommand::LineTo(x, y) => ("L ", x, y),
        };
        r.append(head);
        r.append(decimal(x).as_str());
        r.append(" ");
        r.append(decimal(y).as_str());
        r.append(" ");
        proof {
            let t = path_text(cs@.take(i as int));
            assert(r@ =~= t + command_text(cs@[i as int]));
        }
        i = i + 1;
    }
    proof {
        assert(cs@.take(cs@.len() as int) =~= cs@);
    }
    r
}

/// The path data that draws a series' pixel positions, broken at each gap.
pub fn render_line(pos: &Vec<Option<(i64, i64)>>) -> (r: String)
    ensures
        r@ == path_text(commands(pos@)),
{
    let cs = path_commands(pos);
    path_data(&cs)
}

/// No line is drawn into or out of a gap: every command that continues the
/// line joins two present, consecutive points.
pub proof fn lemma_no_line_across_gap(pos: Seq<Option<(i64, i64)>>, i: int)
    requires
        0 <= i < pos.len(),
        command_at(pos, i) matches Some(PathCommand::LineTo(_, _)),
    ensures
        i > 0,
        pos[i] is Some,
        pos[i - 1] is Some,
{
}

} // verus!
