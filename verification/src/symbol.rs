//! The tape alphabet and the head movements.

use crate::error::MachineError;
use vstd::prelude::*;

verus! {

/// A tape symbol. The alphabet has exactly two letters.
#[derive(Clone, Copy, Debug, PartialEq, Eq, Hash, Structural)]
pub enum Symbol {
    Zero,
    One,
}

impl Symbol {
    /// The number that stands for the symbol: 0 for `Zero`, 1 for `One`.
    pub open spec fn number(self) -> int {
        match self {
            Symbol::Zero => 0,
            Symbol::One => 1,
        }
    }

    /// The symbol that a number stands for, if it stands for one.
    pub open spec fn of_number(n: int) -> Option<Symbol> {
        if n == 0 {
            Some(Symbol::Zero)
        } else if n == 1 {
            Some(Symbol::One)
        } else {
            None
        }
    }

    /// The symbol held by a cell whose bit is set (`One`) or clear (`Zero`).
    pub open spec fn of_bit(set: bool) -> Symbol {
        if set {
            Symbol::One
        } else {
            Symbol::Zero
        }
    }

    /// Converts the symbol to its number.
    pub fn to_number(self) -> (n: u8)
        ensures
            n == self.number(),
    {
        match self {
            Symbol::Zero => 0,
            Symbol::One => 1,
        }
    }

    /// Converts a number to the symbol it stands for. Only 0 and 1 stand for
    /// a symbol; any other number is rejected.
    pub fn from_number(n: u8) -> (r: Result<Symbol, MachineError>)
        ensures
            r == match Symbol::of_number(n as int) {
                Some(s) => Ok::<Symbol, MachineError>(s),
                None => Err(MachineError::InvalidSymbol(n)),
            },
    {
        if n == 0 {
            Ok(Symbol::Zero)
        } else if n == 1 {
            Ok(Symbol::One)
        } else {
            Err(MachineError::InvalidSymbol(n))
        }
    }

    /// Converts a list of numbers to the symbols they stand for, in order.
    /// The first number that is neither 0 nor 1 is rejected, and nothing is
    /// returned for the list.
    pub fn vec_from_numbers(numbers: &[u8]) -> (r: Result<Vec<Symbol>, MachineError>)
        ensures
            match r {
                Ok(symbols) => {
                    &&& symbols@.len() == numbers@.len()
                    &&& forall|i: int|
                        0 <= i < numbers@.len() ==> Symbol::of_number(numbers@[i] as int) == Some(
                            #[trigger] symbols@[i],
                        )
                },
                Err(e) => exists|k: int|
                    {
                        &&& 0 <= k < numbers@.len()
                        &&& Symbol::of_number(#[trigger] numbers@[k] as int) is None
                        &&& e == MachineError::InvalidSymbol(numbers@[k])
                        &&& forall|j: int|
                            0 <= j < k ==> Symbol::of_number(#[trigger] numbers@[j] as int) is Some
                    },
            },
    {
        let mut symbols: Vec<Symbol> = Vec::new();
        let mut i: usize = 0;
        while i < numbers.len()
            invariant
                i <= numbers@.len(),
                symbols@.len() == i,
                forall|j: int|
                    0 <= j < i ==> Symbol::of_number(numbers@[j] as int) == Some(
                        #[trigger] symbols@[j],
                    ),
            decreases numbers@.len() - i,
        {
            match Symbol::from_number(numbers[i]) {
                Ok(s) => {
                    symbols.push(s);
                },
                Err(e) => {
                    proof {
                        assert forall|j: int| 0 <= j < i implies Symbol::of_number(
                            #[trigger] numbers@[j] as int,
                        ) is Some by {
                            assert(Symbol::of_number(numbers@[j] as int) == Some(symbols@[j]));
                        }
                    }
                    return Err(e);
                },
            }
            i += 1;
        }
        Ok(symbols)
    }
}

/// The number of a symbol stands for that symbol again, and the symbol of
/// 0 or 1 has that number: the conversion loses nothing in either direction.
pub proof fn lemma_symbol_number_round_trip(s: Symbol, n: int)
    ensures
        Symbol::of_number(s.number()) == Some(s),
        0 <= s.number() <= 1,
        Symbol::of_number(n) matches Some(t) ==> t.number() == n,
        Symbol::of_number(n) is Some <==> n == 0 || n == 1,
{
}

/// A movement of the head after a rule has written its symbol.
#[derive(Clone, Copy, Debug, PartialEq, Eq, Structural)]
pub enum Direction {
    Left,
    Right,
    /// Stay where the head is. This is a movement of its own, not the
    /// absence of one.
    Stay,
}

impl Direction {
    /// The change of the head index that the movement asks for.
    pub open spec fn delta(self) -> int {
        match self {
            Direction::Left => -1,
            Direction::Right => 1,
            Direction::Stay => 0,
        }
    }

    /// The signed displacement of the head: -1, +1 or 0.
    pub fn displacement(self) -> (d: isize)
        ensures
            d == self.delta(),
    {
        match self {
            Direction::Left => -1,
            Direction::Right => 1,
            Direction::Stay => 0,
        }
    }
}

} // verus!
