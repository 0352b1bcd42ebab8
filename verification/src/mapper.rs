//! Mapping a human-entered digit 1..=9 to a board cell, under either of the
//! two keymap conventions.

use vstd::prelude::*;

verus! {

/// The digit-to-coordinate convention a human inputs moves under.
#[derive(Copy, Clone, Debug, PartialEq, Eq, Structural)]
pub enum Keymap {
    /// Digit 1 is the top-left cell, digit 9 the bottom-right, row-major.
    Standard,
    /// Digit 1 is the bottom-left cell, digit 9 the top-right, mirroring a
    /// physical numeric keypad.
    Numpad,
}

/// An error of the engine's input boundary.
#[derive(Copy, Clone, Debug, PartialEq, Eq, Structural)]
pub enum InputError {
    /// The raw input is not a digit in 1..=9.
    InvalidInputDigit,
}

/// The row a digit addresses under a keymap.
pub open spec fn map_row(k: Keymap, d: int) -> int {
    match k {
        Keymap::Standard => (d - 1) / 3,
        Keymap::Numpad => (9 - d) / 3,
    }
}

/// The column a digit addresses under a keymap.
pub open spec fn map_col(k: Keymap, d: int) -> int {
    (d - 1) % 3
}

/// The (row, col) pair a digit addresses under a keymap.
pub open spec fn map_pair(k: Keymap, d: int) -> (int, int) {
    (map_row(k, d), map_col(k, d))
}

/// The digit that addresses a cell under a keymap: the inverse of `map_pair`.
pub open spec fn digit_for(k: Keymap, row: int, col: int) -> int {
    match k {
        Keymap::Standard => 3 * row + col + 1,
        Keymap::Numpad => 3 * (2 - row) + col + 1,
    }
}

impl Keymap {
    /// Translate a digit into the (row, col) pair it addresses under this
    /// keymap. Digits outside 1..=9 (0 included) are rejected; the caller is
    /// responsible for re-prompting.
    pub fn map_digit(self, digit: u32) -> (r: Result<(usize, usize), InputError>)
        ensures
            match r {
                Ok((row, col)) => {
                    &&& 1 <= digit <= 9
                    &&& row as int == map_row(self, digit as int)
                    &&& col as int == map_col(self, digit as int)
                    &&& row < 3
                    &&& col < 3
                },
                Err(e) => !(1 <= digit <= 9) && e == InputError::InvalidInputDigit,
            },
    {
        if digit < 1 || digit > 9 {
            return Err(InputError::InvalidInputDigit);
        }
        let row: u32 = match self {
            Keymap::Standard => (digit - 1) / 3,
            Keymap::Numpad => (9 - digit) / 3,
        };
        let col: u32 = (digit - 1) % 3;
        Ok((row as usize, col as usize))
    }

    /// Translate a digit into the flat row-major cell index it addresses
    /// under this keymap.
    pub fn map_digit_index(self, digit: u32) -> (r: Result<usize, InputError>)
        ensures
            match r {
                Ok(i) => {
                    &&& 1 <= digit <= 9
                    &&& i < 9
                    &&& i as int == 3 * map_row(self, digit as int) + map_col(self, digit as int)
                },
                Err(e) => !(1 <= digit <= 9) && e == InputError::InvalidInputDigit,
            },
    {
        match self.map_digit(digit) {
            Ok((row, col)) => Ok(3 * row + col),
            Err(e) => Err(e),
        }
    }
}

/// The digit a character stands for, accepted only for '1' through '9'
/// (the digit '0' addresses no cell and is rejected).
pub fn digit_from_char(c: char) -> (r: Option<u32>)
    ensures
        match r {
            Some(d) => 1 <= d <= 9 && c as u32 == d + 48,
            None => (c as u32) < 49 || (c as u32) > 57,
        },
{
    let v = c as u32;
    if 49 <= v && v <= 57 {
        Some(v - 48)
    } else {
        None
    }
}

/// Under each keymap, mapping a digit and then asking which digit addresses
/// the resulting cell returns the starting digit, and the cell lies on the
/// board.
pub proof fn lemma_keymap_roundtrip(k: Keymap, d: int)
    requires
        1 <= d <= 9,
    ensures
        0 <= map_row(k, d) < 3,
        0 <= map_col(k, d) < 3,
        digit_for(k, map_row(k, d), map_col(k, d)) == d,
{
    if d == 1 {
    } else if d == 2 {
    } else if d == 3 {
    } else if d == 4 {
    } else if d == 5 {
    } else if d == 6 {
    } else if d == 7 {
    } else if d == 8 {
    } else {
        assert(d == 9);
    }
}

/// Under each keymap, every board cell is addressed by exactly the digit
/// `digit_for` names, which lies in 1..=9.
pub proof fn lemma_keymap_onto(k: Keymap, row: int, col: int)
    requires
        0 <= row < 3,
        0 <= col < 3,
    ensures
        1 <= digit_for(k, row, col) <= 9,
        map_pair(k, digit_for(k, row, col)) == (row, col),
{
    if row == 0 {
        if col == 0 {
        } else if col == 1 {
        } else {
            assert(col == 2);
        }
    } else if row == 1 {
        if col == 0 {
        } else if col == 1 {
        } else {
            assert(col == 2);
        }
    } else {
        assert(row == 2);
        if col == 0 {
        } else if col == 1 {
        } else {
            assert(col == 2);
        }
    }
}

/// For each keymap, the map from digits 1..=9 to (row, col) pairs is a
/// bijection onto the 9 board cells: distinct digits address distinct cells,
/// and every cell is addressed by some digit.
pub proof fn lemma_keymap_bijection(k: Keymap)
    ensures
        forall|d1: int, d2: int|
            1 <= d1 <= 9 && 1 <= d2 <= 9 && #[trigger] map_pair(k, d1) == #[trigger] map_pair(
                k,
                d2,
            ) ==> d1 == d2,
        forall|row: int, col: int|
            0 <= row < 3 && 0 <= col < 3 ==> 1 <= #[trigger] digit_for(k, row, col) <= 9
                && map_pair(k, digit_for(k, row, col)) == (row, col),
{
    assert forall|d1: int, d2: int|
        1 <= d1 <= 9 && 1 <= d2 <= 9 && #[trigger] map_pair(k, d1) == #[trigger] map_pair(
            k,
            d2,
        ) implies d1 == d2 by {
        lemma_keymap_roundtrip(k, d1);
        lemma_keymap_roundtrip(k, d2);
    }
    assert forall|row: int, col: int| 0 <= row < 3 && 0 <= col < 3 implies 1 <= #[trigger] digit_for(
        k,
        row,
        col,
    ) <= 9 && map_pair(k, digit_for(k, row, col)) == (row, col) by {
        lemma_keymap_onto(k, row, col);
    }
}

} // verus!
