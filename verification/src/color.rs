use vstd::prelude::*;

verus! {

/// A side of the chess board.
///
/// `WHITE` is `Color(1)` and `BLACK` is `Color(2)`; every other payload is
/// invalid and excluded by [`Color::valid`].
#[derive(Debug, Clone, Copy, PartialEq, Eq)]
pub struct Color(pub u8);

impl Color {
    /// The white side, `Color(1)`.
    pub fn white() -> (r: Color)
        ensures
            r.0 == 1,
    {
        Color(1)
    }

    /// The black side, `Color(2)`.
    pub fn black() -> (r: Color)
        ensures
            r.0 == 2,
    {
        Color(2)
    }

    /// A color is one of the two sides.
    pub open spec fn valid(self) -> bool {
        self.0 == 1 || self.0 == 2
    }

    /// The opposite side, as a spec-level involution.
    pub open spec fn spec_other(self) -> Color {
        if self.0 == 1 {
            Color(2)
        } else {
            Color(1)
        }
    }

    /// The dense index of a color: white is 0, black is 1.
    pub open spec fn spec_index(self) -> int {
        if self.0 == 1 {
            0
        } else {
            1
        }
    }

    /// The opposite side.
    pub fn not(self) -> (r: Color)
        requires
            self.valid(),
        ensures
            r == self.spec_other(),
            r.valid(),
    {
        if self.0 == 1 {
            Color(2)
        } else {
            Color(1)
        }
    }

    /// The dense index of a color, used to address the per-color bitboards.
    pub fn index(self) -> (r: usize)
        requires
            self.valid(),
        ensures
            r == self.spec_index(),
            r < 2,
    {
        if self.0 == 1 {
            0
        } else {
            1
        }
    }
}

/// Flipping a side twice returns to the original side, and the two sides'
/// indices are distinct; the flip never fixes a side.
pub proof fn lemma_color_other_involution(c: Color)
    requires
        c.valid(),
    ensures
        c.spec_other().spec_other() == c,
        c.spec_other().valid(),
        c.spec_other() != c,
        c.spec_other().spec_index() != c.spec_index(),
{
}

} // verus!
