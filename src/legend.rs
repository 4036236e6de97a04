use crate::anchor::Anchor;
use crate::bounds::in_range;
use crate::edge::Edge;
use crate::padding::Padding;
use crate::series::UseLine;
use vstd::prelude::*;
use vstd::string::StringSliceAdditionalSpecFns;
use vstd::utf8::encode_utf8;

verus! {

/// The length of a series name in bytes.
pub open spec fn name_len(s: String) -> int {
    encode_utf8(s@).len() as int
}

/// The widest name among `lines`, in pixels at `font_width` per byte; zero
/// for no lines.
pub open spec fn max_name_width(lines: Seq<UseLine>, font_width: int) -> int
    decreases lines.len(),
{
    if lines.len() == 0 {
        0
    } else {
        let rest = max_name_width(lines.drop_last(), font_width);
        let w = name_len(lines.last().name) * font_width;
        if w > rest {
            w
        } else {
            rest
        }
    }
}

/// Every name, in bytes and at `font_width` pixels per byte, fits in the
/// coordinate range.
pub open spec fn names_fit(lines: Seq<UseLine>, font_width: int) -> bool {
    forall|i: int|
        0 <= i < lines.len() ==> name_len(#[trigger] lines[i].name) <= 0xffff_ffff
            && name_len(lines[i].name) * font_width <= 0x0800_0000_0000
}

/// A key naming each series beside a sample of its line.
#[derive(Clone, Copy, Debug, PartialEq, Eq, Structural)]
pub struct Legend {
    pub anchor: Anchor,
}

impl Legend {
    pub fn new(anchor: Anchor) -> (r: Legend)
        ensures
            r.anchor == anchor,
    {
        Legend { anchor }
    }

    pub fn start() -> (r: Legend)
        ensures
            r.anchor == Anchor::Start,
    {
        Self::new(Anchor::Start)
    }

    pub fn middle() -> (r: Legend)
        ensures
            r.anchor == Anchor::Middle,
    {
        Self::new(Anchor::Middle)
    }

    pub fn end() -> (r: Legend)
        ensures
            r.anchor == Anchor::End,
    {
        Self::new(Anchor::End)
    }

    /// The width a legend takes on a left or right edge: a snippet, the
    /// widest name and the horizontal padding.
    pub fn width(font_height: i64, font_width: i64, padding: Padding, lines: &Vec<UseLine>) -> (r: i64)
        requires
            0 <= font_height <= 0x1000_0000_0000,
            0 <= font_width <= 0x0800_0000_0000,
            padding.wf(),
            names_fit(lines@, font_width as int),
        ensures
            r == 3 * font_width + max_name_width(lines@, font_width as int) + padding.spec_width(),
    {
        let snippet = UseLine::snippet_width(font_height, font_width);
        let mut widest: i64 = 0;
        let mut i: usize = 0;
        while i < lines.len()
            invariant
                i <= lines@.len(),
                0 <= font_width <= 0x0800_0000_0000,
                names_fit(lines@, font_width as int),
                widest == max_name_width(lines@.take(i as int), font_width as int),
                0 <= widest <= 0x0800_0000_0000,
            decreases lines@.len() - i,
        {
            let name = lines[i].name.as_str();
            let n = name.len();
            proof {
                assert(name@ == lines@[i as int].name@);
                assert(name.spec_bytes() == encode_utf8(lines@[i as int].name@));
                assert(name_len(lines@[i as int].name) * font_width <= 0x0800_0000_0000);
                assert(lines@.take(i as int + 1).drop_last() =~= lines@.take(i as int));
                assert(name_len(lines@[i as int].name) <= 0xffff_ffff);
                assert(n == name.spec_bytes().len() as usize);
                assert(n as int == name_len(lines@[i as int].name));
                if font_width > 0 {
                    assert(n <= n * font_width) by (nonlinear_arith)
                        requires
                            font_width >= 1,
                            n >= 0,
                    ;
                }
            }
            let w: i64 = if font_width == 0 {
                0
            } else {
                (n as i64) * font_width
            };
            if w > widest {
                widest = w;
            }
            i = i + 1;
        }
        proof {
            assert(lines@.take(lines@.len() as int) =~= lines@);
        }
        snippet + widest + padding.width()
    }

    /// The height a legend takes on a top or bottom edge: one line of text
    /// and the vertical padding.
    pub fn fixed_height(font_height: i64, padding: Padding) -> (r: i64)
        requires
            in_range(font_height as int),
            padding.wf(),
        ensures
            r == font_height + padding.spec_height(),
    {
        font_height + padding.height()
    }

    /// The padding kept round a legend on `edge`: none along the edge, so
    /// that the legend spans as much of it as it can.
    pub fn edge_padding(edge: Edge, padding: Padding) -> (r: Padding)
        ensures
            edge.spec_is_horizontal() ==> r == (Padding { top: padding.top, right: 0, bottom: padding.bottom, left: 0 }),
            !edge.spec_is_horizontal() ==> r == (Padding { top: 0, right: padding.right, bottom: 0, left: padding.left }),
    {
        if edge.is_horizontal() {
            Padding::sides(padding.top, 0, padding.bottom, 0)
        } else {
            Padding::sides(0, padding.right, 0, padding.left)
        }
    }
}

} // verus!
