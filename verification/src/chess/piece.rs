use vstd::prelude::*;
use vstd::string::StringSliceAdditionalSpecFns;

verus! {

/// A bare piece kind, without a color.
#[derive(Debug, Clone, Copy, PartialEq, Eq)]
pub enum Piece {
    Pawn,
    Knight,
    Bishop,
    Rook,
    Queen,
    King,
}

impl Piece {
    /// The kind with the given dense index: pawn 0 through king 5.
    pub fn try_from(value: u8) -> (r: Result<Piece, String>)
        ensures
            r is Ok <==> value <= 5,
            value == 0 ==> r == Ok::<Piece, String>(Piece::Pawn),
            value == 1 ==> r == Ok::<Piece, String>(Piece::Knight),
            value == 2 ==> r == Ok::<Piece, String>(Piece::Bishop),
            value == 3 ==> r == Ok::<Piece, String>(Piece::Rook),
            value == 4 ==> r == Ok::<Piece, String>(Piece::Queen),
            value == 5 ==> r == Ok::<Piece, String>(Piece::King),
    {
        match value {
            0 => Ok(Piece::Pawn),
            1 => Ok(Piece::Knight),
            2 => Ok(Piece::Bishop),
            3 => Ok(Piece::Rook),
            4 => Ok(Piece::Queen),
            5 => Ok(Piece::King),
            _ => Err("value out of range for a piece kind".to_owned()),
        }
    }

    /// The kind named by a single lower-case letter, as used in the textual
    /// position record.  Exactly the six one-letter tokens are accepted;
    /// anything else is an error.
    pub fn from_letter(s: &str) -> (r: Result<Piece, PieceParseError>)
        ensures
            s@ == ("p")@ ==> r == Ok::<Piece, PieceParseError>(Piece::Pawn),
            s@ == ("n")@ ==> r == Ok::<Piece, PieceParseError>(Piece::Knight),
            s@ == ("b")@ ==> r == Ok::<Piece, PieceParseError>(Piece::Bishop),
            s@ == ("r")@ ==> r == Ok::<Piece, PieceParseError>(Piece::Rook),
            s@ == ("q")@ ==> r == Ok::<Piece, PieceParseError>(Piece::Queen),
            s@ == ("k")@ ==> r == Ok::<Piece, PieceParseError>(Piece::King),
            r is Ok <==> (s.spec_bytes().len() == 1 && (s.spec_bytes()[0] == 112
                || s.spec_bytes()[0] == 110 || s.spec_bytes()[0] == 98 || s.spec_bytes()[0]
                == 114 || s.spec_bytes()[0] == 113 || s.spec_bytes()[0] == 107)),
            r matches Ok(kind) ==> (s.spec_bytes()[0] == 112 ==> kind == Piece::Pawn) && (
            s.spec_bytes()[0] == 110 ==> kind == Piece::Knight) && (s.spec_bytes()[0] == 98
                ==> kind == Piece::Bishop) && (s.spec_bytes()[0] == 114 ==> kind == Piece::Rook)
                && (s.spec_bytes()[0] == 113 ==> kind == Piece::Queen) && (s.spec_bytes()[0]
                == 107 ==> kind == Piece::King),
    {
        let bytes = s.as_bytes();
        proof {
            reveal_strlit("p");
            reveal_strlit("n");
            reveal_strlit("b");
            reveal_strlit("r");
            reveal_strlit("q");
            reveal_strlit("k");
            vstd::string::is_ascii_spec_bytes(s);
        }
        if bytes.len() != 1 {
            return Err(PieceParseError("the token is not a single piece letter".to_owned()));
        }
        let c = bytes[0];
        if c == 112 {
            Ok(Piece::Pawn)
        } else if c == 110 {
            Ok(Piece::Knight)
        } else if c == 98 {
            Ok(Piece::Bishop)
        } else if c == 114 {
            Ok(Piece::Rook)
        } else if c == 113 {
            Ok(Piece::Queen)
        } else if c == 107 {
            Ok(Piece::King)
        } else {
            Err(PieceParseError("the letter names no piece".to_owned()))
        }
    }
}

/// The failure of reading a piece kind from text.
#[derive(Debug)]
pub struct PieceParseError(String);

impl PieceParseError {
    /// A short description of the failure.
    pub fn message(&self) -> &str {
        self.0.as_str()
    }
}

} // verus!
