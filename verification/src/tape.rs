//! The tape: a fixed number of binary cells, packed one bit per cell into
//! machine words and addressed by a cell index that runs over the whole tape.

use crate::bit_vec::{bits, get_bit, lemma_zero_word_is_clear, set_bit, unset_bit, USIZE_BIT_SIZE};
use crate::error::MachineError;
use crate::symbol::Symbol;
use vstd::prelude::*;

verus! {

/// A tape of binary cells. Cell `i` lives in word `i / USIZE_BIT_SIZE`, at
/// position `i % USIZE_BIT_SIZE` of that word. The capacity is fixed when the
/// tape is made; a cell that was never written holds `Zero`.
pub struct Tape {
    words: Vec<usize>,
}

impl View for Tape {
    type V = Seq<Symbol>;

    /// The cells of the tape, in tape order.
    closed spec fn view(&self) -> Seq<Symbol> {
        Seq::new(
            (self.words@.len() * USIZE_BIT_SIZE) as nat,
            |i: int|
                Symbol::of_bit(
                    bits(self.words@[i / (USIZE_BIT_SIZE as int)])[i % (USIZE_BIT_SIZE as int)],
                ),
        )
    }
}

/// A tape of `cells` cells that was never written: every cell holds `Zero`.
pub open spec fn blank(cells: nat) -> Seq<Symbol> {
    Seq::new(cells, |i: int| Symbol::Zero)
}

/// The cells `tape`, with the cells from `origin` on replaced by `cells`.
pub open spec fn overwrite(tape: Seq<Symbol>, origin: int, cells: Seq<Symbol>) -> Seq<Symbol> {
    Seq::new(
        tape.len(),
        |i: int|
            if origin <= i < origin + cells.len() {
                cells[i - origin]
            } else {
                tape[i]
            },
    )
}

/// Where cell `i` of a tape of `words` words lives: its word exists, its
/// position fits the word, and no other cell lives there.
proof fn lemma_cell_address(words: int, i: int)
    requires
        0 <= i < words * USIZE_BIT_SIZE,
    ensures
        0 <= i / (USIZE_BIT_SIZE as int) < words,
        0 <= i % (USIZE_BIT_SIZE as int) < USIZE_BIT_SIZE,
        i == (i / (USIZE_BIT_SIZE as int)) * USIZE_BIT_SIZE + i % (USIZE_BIT_SIZE as int),
{
    assert(USIZE_BIT_SIZE == 32 || USIZE_BIT_SIZE == 64);
}

impl Tape {
    /// The tape has at least one word, and a machine word can count its cells.
    pub closed spec fn wf(&self) -> bool {
        &&& self.words@.len() >= 1
        &&& self.words@.len() * USIZE_BIT_SIZE <= usize::MAX
    }

    /// A tape of `words` machine words, every cell holding `Zero`.
    pub(crate) fn zeroed(words: usize) -> (tape: Tape)
        requires
            words >= 1,
            words * USIZE_BIT_SIZE <= usize::MAX,
        ensures
            tape.wf(),
            tape@ == blank((words * USIZE_BIT_SIZE) as nat),
    {
        let tape = Tape { words: vec![0usize; words] };
        proof {
            lemma_zero_word_is_clear();
            assert forall|i: int| 0 <= i < words * USIZE_BIT_SIZE implies tape@[i]
                == Symbol::Zero by {
                lemma_cell_address(words as int, i);
            }
        }
        tape
    }

    /// A tape of `words` machine words, every cell holding `Zero`. A tape
    /// needs at least one word, and a machine word must be able to count its
    /// cells; any other size is refused.
    pub fn new(words: usize) -> (r: Result<Tape, MachineError>)
        ensures
            match r {
                Ok(tape) => {
                    &&& tape.wf()
                    &&& words >= 1
                    &&& words * USIZE_BIT_SIZE <= usize::MAX
                    &&& tape@ == blank((words * USIZE_BIT_SIZE) as nat)
                },
                Err(e) => {
                    &&& e == MachineError::InvalidCapacity
                    &&& (words == 0 || words * USIZE_BIT_SIZE > usize::MAX)
                },
            },
    {
        if words == 0 {
            return Err(MachineError::InvalidCapacity);
        }
        match words.checked_mul(USIZE_BIT_SIZE) {
            None => Err(MachineError::InvalidCapacity),
            Some(_) => Ok(Tape::zeroed(words)),
        }
    }

    /// The number of cells of the tape.
    pub fn capacity(&self) -> (cells: usize)
        requires
            self.wf(),
        ensures
            cells == self@.len(),
            cells >= 1,
    {
        assert(USIZE_BIT_SIZE >= 32);
        self.words.len() * USIZE_BIT_SIZE
    }

    /// The symbol in the cell at `index`, which lies on the tape.
    pub(crate) fn read_cell(&self, index: usize) -> (symbol: Symbol)
        requires
            self.wf(),
            index < self@.len(),
        ensures
            symbol == self@[index as int],
    {
        proof {
            lemma_cell_address(self.words@.len() as int, index as int);
        }
        let word_index: usize = index / USIZE_BIT_SIZE;
        let bit_index: usize = index % USIZE_BIT_SIZE;
        let bit: usize = get_bit(&self.words[word_index], &bit_index);
        if bit == 1 {
            Symbol::One
        } else {
            Symbol::Zero
        }
    }

    /// Stores `symbol` in the cell at `index`, which lies on the tape.
    /// `Zero` clears the cell's bit and `One` sets it.
    pub(crate) fn write_cell(&mut self, index: usize, symbol: Symbol)
        requires
            old(self).wf(),
            index < old(self)@.len(),
        ensures
            final(self).wf(),
            final(self)@ == old(self)@.update(index as int, symbol),
    {
        proof {
            lemma_cell_address(self.words@.len() as int, index as int);
        }
        let word_index: usize = index / USIZE_BIT_SIZE;
        let bit_index: usize = index % USIZE_BIT_SIZE;
        let mut word: usize = self.words[word_index];
        match symbol {
            Symbol::Zero => unset_bit(&mut word, &bit_index),
            Symbol::One => set_bit(&mut word, &bit_index),
        }
        self.words[word_index] = word;
        proof {
            assert forall|i: int| 0 <= i < old(self)@.len() implies self@[i] == old(self)@.update(index as int, symbol)[i] by {
                lemma_cell_address(self.words@.len() as int, i);
            }
        }
    }

    /// Reads the cell at `index`. An index outside the tape is an addressing
    /// fault.
    pub fn get(&self, index: usize) -> (r: Result<Symbol, MachineError>)
        requires
            self.wf(),
        ensures
            r == if index < self@.len() {
                Ok::<Symbol, MachineError>(self@[index as int])
            } else {
                Err(MachineError::AddressingFault)
            },
    {
        if index < self.capacity() {
            Ok(self.read_cell(index))
        } else {
            Err(MachineError::AddressingFault)
        }
    }

    /// Writes `symbol` to the cell at `index` and leaves every other cell as
    /// it was. An index outside the tape is an addressing fault, and nothing
    /// is written.
    pub fn set(&mut self, index: usize, symbol: Symbol) -> (r: Result<(), MachineError>)
        requires
            old(self).wf(),
        ensures
            final(self).wf(),
            index < old(self)@.len() ==> r == Ok::<(), MachineError>(()) && final(self)@ == old(self)@.update(index as int, symbol),
            index >= old(self)@.len() ==> r == Err::<(), MachineError>(
                MachineError::AddressingFault,
            ) && final(self)@ == old(self)@,
    {
        if index < self.capacity() {
            self.write_cell(index, symbol);
            Ok(())
        } else {
            Err(MachineError::AddressingFault)
        }
    }

    /// Lays `cells` out on the tape, one after the other, the first one at
    /// `origin`, and leaves every other cell as it was. A write that would
    /// run past the end of the tape is refused as a whole: nothing is
    /// written and nothing is cut off.
    pub fn write(&mut self, origin: usize, cells: &[Symbol]) -> (r: Result<(), MachineError>)
        requires
            old(self).wf(),
        ensures
            final(self).wf(),
            origin + cells@.len() <= old(self)@.len() ==> r == Ok::<(), MachineError>(())
                && final(self)@ == overwrite(old(self)@, origin as int, cells@),
            origin + cells@.len() > old(self)@.len() ==> r == Err::<(), MachineError>(
                MachineError::CapacityExceeded,
            ) && final(self)@ == old(self)@,
    {
        let capacity: usize = self.capacity();
        if origin > capacity || cells.len() > capacity - origin {
            return Err(MachineError::CapacityExceeded);
        }
        let mut done: usize = 0;
        while done < cells.len()
            invariant
                self.wf(),
                done <= cells@.len(),
                origin + cells@.len() <= old(self)@.len() <= usize::MAX,
                self@ == overwrite(old(self)@, origin as int, cells@.take(done as int)),
            decreases cells@.len() - done,
        {
            self.write_cell(origin + done, cells[done]);
            proof {
                assert(self@ =~= overwrite(
                    old(self)@,
                    origin as int,
                    cells@.take(done as int + 1),
                ));
            }
            done += 1;
        }
        Ok(())
    }
}

/// A cell reads back the symbol that was last written to it, whichever of
/// the two symbols that is and wherever on the tape the cell lies; the other
/// cells read as they did before.
pub proof fn lemma_set_then_get(tape: Seq<Symbol>, index: int, symbol: Symbol)
    requires
        0 <= index < tape.len(),
    ensures
        tape.update(index, symbol).len() == tape.len(),
        tape.update(index, symbol)[index] == symbol,
        forall|other: int|
            0 <= other < tape.len() && other != index ==> tape.update(index, symbol)[other]
                == tape[other],
{
}

/// Reading back the cells that a bulk write covered gives the symbols that
/// were written, in the order in which they were written; every other cell
/// reads as it did before.
pub proof fn lemma_write_then_read(tape: Seq<Symbol>, origin: int, cells: Seq<Symbol>)
    requires
        0 <= origin,
        origin + cells.len() <= tape.len(),
    ensures
        overwrite(tape, origin, cells).len() == tape.len(),
        overwrite(tape, origin, cells).subrange(origin, origin + cells.len()) == cells,
        overwrite(tape, origin, cells).subrange(0, origin) == tape.subrange(0, origin),
        overwrite(tape, origin, cells).subrange(origin + cells.len(), tape.len() as int)
            == tape.subrange(origin + cells.len(), tape.len() as int),
{
    let written = overwrite(tape, origin, cells);
    assert(written.subrange(origin + cells.len(), tape.len() as int) =~= tape.subrange(
        origin + cells.len(),
        tape.len() as int,
    ));
}

/// A cell that was never written reads `Zero`: every cell of a new tape
/// does, and so does every cell that the writes so far have not covered.
pub proof fn lemma_unwritten_cells_read_zero(
    cells: nat,
    origin: int,
    written: Seq<Symbol>,
    index: int,
    symbol: Symbol,
    i: int,
)
    requires
        0 <= i < cells,
    ensures
        blank(cells)[i] == Symbol::Zero,
        !(origin <= i < origin + written.len()) ==> overwrite(blank(cells), origin, written)[i]
            == Symbol::Zero,
        0 <= index < cells && i != index ==> blank(cells).update(index, symbol)[i] == Symbol::Zero,
{
}

} // verus!
