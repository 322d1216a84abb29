use vstd::prelude::*;

verus! {

/// A 4-bit set of castling rights: bit 0 white kingside, bit 1 white
/// queenside, bit 2 black kingside, bit 3 black queenside.
#[derive(Debug, Clone, Copy, PartialEq, Eq)]
pub struct CastlingRights(pub u8);

/// One set of rights is contained in another: no bit of `a` lies outside
/// `b`.
pub open spec fn cr_subset(a: u8, b: u8) -> bool {
    a & !b == 0
}

/// Containment of castling-rights sets is reflexive, holds after clearing
/// bits, and composes transitively.
pub proof fn lemma_cr_subset(a: u8, b: u8, c: u8)
    by (bit_vector)
    ensures
        cr_subset(a, a),
        cr_subset(a & !b, a),
        cr_subset(a, b) && cr_subset(b, c) ==> cr_subset(a, c),
        cr_subset(a, b) && b & c == 0 ==> a & c == 0,
{
}

impl CastlingRights {
    /// White kingside, `CastlingRights(1)`.
    pub fn wk() -> (r: CastlingRights)
        ensures
            r.0 == 1,
    {
        CastlingRights(1)
    }

    /// White queenside, `CastlingRights(2)`.
    pub fn wq() -> (r: CastlingRights)
        ensures
            r.0 == 2,
    {
        CastlingRights(2)
    }

    /// Black kingside, `CastlingRights(4)`.
    pub fn bk() -> (r: CastlingRights)
        ensures
            r.0 == 4,
    {
        CastlingRights(4)
    }

    /// Black queenside, `CastlingRights(8)`.
    pub fn bq() -> (r: CastlingRights)
        ensures
            r.0 == 8,
    {
        CastlingRights(8)
    }

    /// All four rights, `CastlingRights(15)`.
    pub fn all() -> (r: CastlingRights)
        ensures
            r.0 == 15,
    {
        CastlingRights(15)
    }

    /// No rights, `CastlingRights(0)`.
    pub fn no_rights() -> (r: CastlingRights)
        ensures
            r.0 == 0,
    {
        CastlingRights(0)
    }

    /// The intersection of two sets of rights.
    pub fn bitand(self, rhs: Self) -> (r: Self)
        ensures
            r.0 == self.0 & rhs.0,
    {
        CastlingRights(self.0 & rhs.0)
    }

    /// The union of two sets of rights.
    pub fn bitor(self, rhs: Self) -> (r: Self)
        ensures
            r.0 == self.0 | rhs.0,
    {
        CastlingRights(self.0 | rhs.0)
    }

    /// The complement of a set of rights.
    pub fn not(self) -> (r: Self)
        ensures
            r.0 == !self.0,
    {
        CastlingRights(!self.0)
    }
}

} // verus!
