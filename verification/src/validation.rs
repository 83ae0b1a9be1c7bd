//! Geometry validation: a list of warnings, empty when the piece is
//! sound.

use vstd::prelude::*;

use crate::pattern::PatternPieceData;

verus! {

/// The exact warning list for a piece: a missing outline, a missing
/// name, a negative seam allowance, in that order.
pub open spec fn validate_warnings(p: PatternPieceData) -> Seq<Seq<char>> {
    let w0 = Seq::<Seq<char>>::empty();
    let w1 = if p.outline@.len() == 0 {
        w0.push("Piece has no outline segments"@)
    } else {
        w0
    };
    let w2 = if p.name@.len() == 0 {
        w1.push("Piece has no name"@)
    } else {
        w1
    };
    if p.seam_allowance_mm < 0 {
        w2.push("Seam allowance cannot be negative"@)
    } else {
        w2
    }
}

/// Validate one piece. The result is empty exactly when the piece has
/// an outline, a name, and a nonnegative seam allowance.
pub fn validate(piece: &PatternPieceData) -> (warnings: Vec<String>)
    ensures
        warnings.deep_view() == validate_warnings(*piece),
        warnings@.len() == 0 <==> piece.outline@.len() > 0 && piece.name@.len() > 0
            && piece.seam_allowance_mm >= 0,
{
    let mut warnings: Vec<String> = Vec::new();
    if piece.outline.len() == 0 {
        warnings.push(String::from_str("Piece has no outline segments"));
    }
    if piece.name.as_str().is_empty() {
        warnings.push(String::from_str("Piece has no name"));
    }
    if piece.seam_allowance_mm < 0 {
        warnings.push(String::from_str("Seam allowance cannot be negative"));
    }
    proof {
        assert(warnings.deep_view() =~= validate_warnings(*piece));
    }
    warnings
}

} // verus!
