//! Spreadsheet cell references in A1 notation.
use vstd::prelude::*;

use crate::bytes::{push_char, spec_dec, u64_to_dec};
use vstd::string::StringExecFns;

verus! {

/// The column letters, least significant last: base 26 over `A`..`Z`, with
/// the bijective numbering that makes column 26 `AA`.
pub open spec fn spec_col_letters(n: nat) -> Seq<char>
    decreases n,
{
    if n < 26 {
        seq![COL_LETTERS@[n as int]]
    } else {
        spec_col_letters((n / 26 - 1) as nat).push(COL_LETTERS@[(n % 26) as int])
    }
}

/// The column letters.
pub const COL_LETTERS: [char; 26] = ['A', 'B', 'C', 'D', 'E', 'F', 'G', 'H', 'I', 'J', 'K', 'L', 'M', 'N', 'O', 'P', 'Q', 'R', 'S', 'T', 'U', 'V', 'W', 'X', 'Y', 'Z'];

/// A1 notation of a zero-based cell: column letters, then the one-based row.
pub open spec fn spec_a1(col: nat, row: nat) -> Seq<char> {
    spec_col_letters(col) + spec_dec(row + 1)
}

/// Reference to a spreadsheet cell, zero-based.
#[derive(Clone, Copy, PartialEq, Eq, Structural, Debug)]
pub struct CellRef {
    /// Column index.
    pub col: u32,
    /// Row index.
    pub row: u32,
}

impl CellRef {
    /// Create a new cell reference.
    pub fn new(col: u32, row: u32) -> (r: CellRef)
        ensures
            r.col == col,
            r.row == row,
    {
        CellRef { col, row }
    }

    /// The A1 notation of this cell: column letters and one-based row.
    pub fn to_a1(&self) -> (r: String)
        ensures
            r@ == spec_a1(self.col as nat, self.row as nat),
    {
        let mut s = col_letters(self.col);
        let row = u64_to_dec(self.row as u64 + 1);
        s.append(row.as_str());
        s
    }
}

/// The column letters of a zero-based column index.
fn col_letters(n: u32) -> (r: String)
    ensures
        r@ == spec_col_letters(n as nat),
    decreases n,
{
    if n < 26 {
        let mut s = String::new();
        push_char(&mut s, COL_LETTERS[n as usize]);
        proof {
            assert(s@ =~= spec_col_letters(n as nat));
        }
        s
    } else {
        let mut s = col_letters(n / 26 - 1);
        push_char(&mut s, COL_LETTERS[(n % 26) as usize]);
        s
    }
}

} // verus!
