//! The material palette: a fixed ordered cycle of display colors assigned to
//! spawned bodies by catalog index, modulo the palette length.

use crate::body::Color;
use vstd::prelude::*;

verus! {

/// A non-empty ordered sequence of colors.
pub struct MaterialPalette {
    colors: Vec<Color>,
}

impl View for MaterialPalette {
    type V = Seq<Color>;

    closed spec fn view(&self) -> Seq<Color> {
        self.colors@
    }
}

/// The colors the sandbox cycles through for spawned debris.
pub open spec fn standard_colors() -> Seq<Color> {
    seq![
        (Color { red: 255, green: 0, blue: 0 }),
        (Color { red: 0, green: 0, blue: 255 }),
        (Color { red: 255, green: 20, blue: 148 }),
        (Color { red: 255, green: 166, blue: 0 }),
        (Color { red: 128, green: 0, blue: 128 }),
        (Color { red: 0, green: 255, blue: 255 }),
    ]
}

impl MaterialPalette {
    /// A palette is usable when it has at least one color to cycle through.
    pub open spec fn wf(&self) -> bool {
        self@.len() > 0
    }

    /// Builds a palette from an explicit color list; an empty list is
    /// rejected, since there would be nothing to cycle through.
    pub fn from_colors(colors: Vec<Color>) -> (r: Option<MaterialPalette>)
        ensures
            match r {
                Some(p) => p@ == colors@ && p.wf(),
                None => colors@.len() == 0,
            },
    {
        if colors.len() == 0 {
            None
        } else {
            Some(MaterialPalette { colors })
        }
    }

    /// The sandbox's standard six-color palette.
    pub fn standard() -> (p: MaterialPalette)
        ensures
            p@ == standard_colors(),
            p.wf(),
    {
        let mut colors: Vec<Color> = Vec::new();
        colors.push(Color { red: 255, green: 0, blue: 0 });
        colors.push(Color { red: 0, green: 0, blue: 255 });
        colors.push(Color { red: 255, green: 20, blue: 148 });
        colors.push(Color { red: 255, green: 166, blue: 0 });
        colors.push(Color { red: 128, green: 0, blue: 128 });
        colors.push(Color { red: 0, green: 255, blue: 255 });
        let p = MaterialPalette { colors };
        proof {
            assert(p@ =~= standard_colors());
        }
        p
    }

    /// Number of colors in the cycle.
    pub fn len(&self) -> (n: usize)
        ensures
            n == self@.len(),
    {
        self.colors.len()
    }

    /// The color at `i`.
    pub fn color(&self, i: usize) -> (c: Color)
        requires
            i < self@.len(),
        ensures
            c == self@[i as int],
    {
        self.colors[i]
    }
}

} // verus!
