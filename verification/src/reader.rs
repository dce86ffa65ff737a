//! The byte source the decode engine pulls from, and the decode failure
//! taxonomy.

use vstd::prelude::*;

verus! {

/// Why a decode attempt failed. Every failure is returned to the immediate
/// caller; the engine never retries, resynchronizes or guesses.
#[derive(Clone, Copy, Debug, PartialEq, Eq)]
pub enum DecodeError {
    /// The byte source ran out before a complete instruction was formed.
    ExhaustedInput,
    /// No opcode-table entry exists for the bytes encountered.
    InvalidOpcode,
    /// An opcode was identified, but its ModRM encoding is a form the
    /// architecture disallows for it.
    InvalidOperand,
    /// A prefix combination the architecture forbids for the instruction.
    InvalidPrefixes,
    /// The encoding exceeds the architectural instruction length cap.
    TooLong,
}

/// A sequential, fallible, position-tracking byte cursor. The decode engine
/// only moves forward: all accumulated meaning is carried in its own state,
/// never by seeking back.
pub struct Reader<'a> {
    pub data: &'a [u8],
    pub pos: usize,
}

impl<'a> Reader<'a> {
    /// The bytes the cursor was created over.
    pub open spec fn spec_data(self) -> Seq<u8> {
        self.data@
    }

    /// The cursor's current position.
    pub open spec fn spec_pos(self) -> int {
        self.pos as int
    }

    /// The bytes not yet consumed.
    pub open spec fn remaining(self) -> Seq<u8> {
        self.data@.skip(self.pos as int)
    }

    pub open spec fn wf(self) -> bool {
        self.pos <= self.data@.len()
    }

    /// A cursor over `data`, positioned at its start.
    pub fn new(data: &'a [u8]) -> (r: Reader<'a>)
        ensures
            r.wf(),
            r.spec_data() == data@,
            r.spec_pos() == 0,
    {
        Reader { data, pos: 0 }
    }

    /// How many bytes have been consumed so far.
    pub fn offset(&self) -> (r: usize)
        ensures
            r == self.spec_pos(),
    {
        self.pos
    }

    /// Consume and return one byte; fails without retry when the source is
    /// exhausted.
    pub fn next(&mut self) -> (r: Result<u8, DecodeError>)
        requires
            old(self).wf(),
        ensures
            final(self).wf(),
            final(self).spec_data() == old(self).spec_data(),
            match r {
                Ok(b) => {
                    &&& old(self).spec_pos() < old(self).spec_data().len()
                    &&& b == old(self).spec_data()[old(self).spec_pos()]
                    &&& final(self).spec_pos() == old(self).spec_pos() + 1
                },
                Err(e) => {
                    &&& e == DecodeError::ExhaustedInput
                    &&& old(self).spec_pos() == old(self).spec_data().len()
                    &&& *final(self) == *old(self)
                },
            },
    {
        if self.pos < self.data.len() {
            let b = self.data[self.pos];
            self.pos = self.pos + 1;
            Ok(b)
        } else {
            Err(DecodeError::ExhaustedInput)
        }
    }
}

} // verus!
