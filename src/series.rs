use crate::bounds::{in_range, Bounds};
use crate::colour::Colour;
use vstd::prelude::*;

verus! {

/// A declared line series: its name, an optional colour that overrides the
/// palette, and its stroke width in pixels.
#[derive(Clone, Debug)]
pub struct Line {
    pub name: String,
    pub colour: Option<Colour>,
    pub width: i64,
}

impl Line {
    /// A series with no name, the palette's colour and a width of one pixel.
    pub fn new() -> (r: Line)
        ensures
            r.name@.len() == 0,
            r.colour is None,
            r.width == 1,
    {
        Line { name: String::new(), colour: None, width: 1 }
    }

    pub fn with_name(self, name: String) -> (r: Line)
        ensures
            r.name == name,
            r.colour == self.colour,
            r.width == self.width,
    {
        Line { name, ..self }
    }

    pub fn with_colour(self, colour: Option<Colour>) -> (r: Line)
        ensures
            r.name == self.name,
            r.colour == colour,
            r.width == self.width,
    {
        Line { colour, ..self }
    }

    pub fn with_width(self, width: i64) -> (r: Line)
        ensures
            r.name == self.name,
            r.colour == self.colour,
            r.width == width,
    {
        Line { width, ..self }
    }
}

/// A series once accumulated: its id, its name and its resolved colour and width.
#[derive(Clone, Debug)]
pub struct UseLine {
    pub id: usize,
    pub name: String,
    pub colour: Colour,
    pub width: i64,
}

impl UseLine {
    /// The box of the small sample line drawn beside a series name: two
    /// glyphs wide and one line high.
    pub fn taster_bounds(font_height: i64, font_width: i64) -> (r: Bounds)
        requires
            0 <= font_height <= 0x1000_0000_0000,
            0 <= font_width <= 0x0800_0000_0000,
        ensures
            r == (Bounds { left: 0, top: 0, right: (2 * font_width) as i64, bottom: font_height }),
    {
        Bounds::new(2 * font_width, font_height)
    }

    /// The width of a legend snippet before its name: the sample line plus
    /// one glyph of spacing.
    pub fn snippet_width(font_height: i64, font_width: i64) -> (r: i64)
        requires
            0 <= font_height <= 0x1000_0000_0000,
            0 <= font_width <= 0x0800_0000_0000,
        ensures
            r == 3 * font_width,
    {
        let b = Self::taster_bounds(font_height, font_width);
        b.width() + font_width
    }
}

/// The colour that the `n`-th series takes from `palette`, wrapping round.
pub open spec fn palette_colour(palette: Seq<Colour>, n: int) -> Colour {
    palette[n % palette.len() as int]
}

/// Gathers the declared series in order, giving each an id and a colour.
pub struct SeriesAcc {
    palette: Vec<Colour>,
    lines: Vec<UseLine>,
}

impl SeriesAcc {
    pub closed spec fn spec_palette(&self) -> Seq<Colour> {
        self.palette@
    }

    /// The series pushed so far.
    pub closed spec fn spec_lines(&self) -> Seq<UseLine> {
        self.lines@
    }

    /// The palette is not empty and each series' id is its position.
    pub open spec fn wf(&self) -> bool {
        &&& self.spec_palette().len() > 0
        &&& forall|i: int| 0 <= i < self.spec_lines().len() ==> #[trigger] self.spec_lines()[i].id == i
    }

    pub fn new(palette: Vec<Colour>) -> (r: SeriesAcc)
        requires
            palette@.len() > 0,
        ensures
            r.wf(),
            r.spec_palette() == palette@,
            r.spec_lines().len() == 0,
    {
        SeriesAcc { palette, lines: Vec::new() }
    }

    /// The series pushed so far, in order.
    pub fn lines(&self) -> (r: &Vec<UseLine>)
        ensures
            r@ == self.spec_lines(),
    {
        &self.lines
    }

    /// The palette colour for the next series: palette entries in order,
    /// starting again from the first once all are used.
    pub fn next_colour(&self) -> (r: Colour)
        requires
            self.wf(),
        ensures
            r == palette_colour(self.spec_palette(), self.spec_lines().len() as int),
    {
        self.palette[self.lines.len() % self.palette.len()]
    }

    /// Adds a series with `colour` as its palette colour; the series' own
    /// colour, where it has one, wins. Its id is the number of series pushed
    /// before it.
    pub fn push(&mut self, colour: Colour, line: Line) -> (r: UseLine)
        requires
            old(self).wf(),
            old(self).spec_lines().len() < usize::MAX,
        ensures
            final(self).wf(),
            final(self).spec_palette() == old(self).spec_palette(),
            final(self).spec_lines() == old(self).spec_lines().push(r),
            r.id == old(self).spec_lines().len(),
            r.name == line.name,
            r.width == line.width,
            r.colour == match line.colour {
                Some(c) => c,
                None => colour,
            },
    {
        let id = self.lines.len();
        let resolved = match line.colour {
            Some(c) => c,
            None => colour,
        };
        let u = UseLine { id, name: line.name, colour: resolved, width: line.width };
        let copy = UseLine { id, name: u.name.clone(), colour: resolved, width: u.width };
        self.lines.push(copy);
        proof {
            assert(self.lines@[id as int].name == u.name);
        }
        u
    }

    /// Adds a declared series, with the next palette colour unless it has
    /// its own.
    pub fn apply_use_series(&mut self, line: Line) -> (r: UseLine)
        requires
            old(self).wf(),
            old(self).spec_lines().len() < usize::MAX,
        ensures
            final(self).wf(),
            final(self).spec_palette() == old(self).spec_palette(),
            final(self).spec_lines() == old(self).spec_lines().push(r),
            r.id == old(self).spec_lines().len(),
            r.name == line.name,
            r.width == line.width,
            r.colour == match line.colour {
                Some(c) => c,
                None => palette_colour(old(self).spec_palette(), old(self).spec_lines().len() as int),
            },
    {
        let colour = self.next_colour();
        self.push(colour, line)
    }
}

/// Series pushed one after another take ids in order from zero; those
/// without their own colour take successive palette entries, so with a
/// palette of distinct colours no two of the first `palette.len()` series
/// share a palette colour; a series with its own colour keeps exactly it.
pub proof fn lemma_palette_order(palette: Seq<Colour>, i: int, j: int)
    requires
        palette.len() > 0,
        0 <= i < j < palette.len(),
        forall|a: int, b: int| 0 <= a < b < palette.len() ==> palette[a] != palette[b],
    ensures
        palette_colour(palette, i) == palette[i],
        palette_colour(palette, j) == palette[j],
        palette_colour(palette, i) != palette_colour(palette, j),
{
    vstd::arithmetic::div_mod::lemma_small_mod(i as nat, palette.len() as nat);
    vstd::arithmetic::div_mod::lemma_small_mod(j as nat, palette.len() as nat);
}

} // verus!
