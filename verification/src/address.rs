//! Addresses of ranges.

use vstd::prelude::*;

verus! {

/// A rectangle of a sheet. Coordinates count from one.
#[derive(Clone, Debug, PartialEq, Eq)]
pub struct RangeAddress {
    pub sheet: String,
    pub start_row: u32,
    pub start_col: u32,
    pub end_row: u32,
    pub end_col: u32,
}

/// Whether the coordinates are those of an address.
pub open spec fn one_based(start_row: u32, start_col: u32, end_row: u32, end_col: u32) -> bool {
    start_row > 0 && start_col > 0 && end_row > 0 && end_col > 0
}

/// Whether the start is no later than the end.
pub open spec fn ordered(start_row: u32, start_col: u32, end_row: u32, end_col: u32) -> bool {
    start_row <= end_row && start_col <= end_col
}

impl RangeAddress {
    /// Whether the address is this rectangle.
    pub open spec fn spans(
        &self,
        sheet: Seq<char>,
        start_row: u32,
        start_col: u32,
        end_row: u32,
        end_col: u32,
    ) -> bool {
        &&& self.sheet@ == sheet
        &&& self.start_row == start_row
        &&& self.start_col == start_col
        &&& self.end_row == end_row
        &&& self.end_col == end_col
    }

    /// Whether height and width can be told.
    pub open spec fn measurable(&self) -> bool {
        &&& ordered(self.start_row, self.start_col, self.end_row, self.end_col)
        &&& self.end_row - self.start_row < u32::MAX
        &&& self.end_col - self.start_col < u32::MAX
    }

    /// The address of a rectangle, whose start must be no later than its end.
    pub fn new(
        sheet: &str,
        start_row: u32,
        start_col: u32,
        end_row: u32,
        end_col: u32,
    ) -> (r: Result<
        RangeAddress,
        &'static str,
    >)
        ensures
            match r {
                Ok(address) => one_based(start_row, start_col, end_row, end_col) && ordered(
                    start_row,
                    start_col,
                    end_row,
                    end_col,
                ) && address.spans(sheet@, start_row, start_col, end_row, end_col),
                Err(text) => if !one_based(start_row, start_col, end_row, end_col) {
                    text@ == "Row and column indices must be 1-based"@
                } else {
                    !ordered(start_row, start_col, end_row, end_col) && text@
                        == "Range must be ordered: start <= end"@
                },
            },
    {
        if start_row == 0 || start_col == 0 || end_row == 0 || end_col == 0 {
            return Err("Row and column indices must be 1-based");
        }
        if start_row > end_row || start_col > end_col {
            return Err("Range must be ordered: start <= end");
        }
        Ok(RangeAddress { sheet: sheet.to_owned(), start_row, start_col, end_row, end_col })
    }

    /// The number of columns.
    pub fn width(&self) -> (r: u32)
        requires
            self.measurable(),
        ensures
            r == self.end_col - self.start_col + 1,
    {
        self.end_col - self.start_col + 1
    }

    /// The number of rows.
    pub fn height(&self) -> (r: u32)
        requires
            self.measurable(),
        ensures
            r == self.end_row - self.start_row + 1,
    {
        self.end_row - self.start_row + 1
    }
}

} // verus!
