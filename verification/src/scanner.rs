//! The boundary scanner: bytes go in chunk by chunk, complete units come out.

use crate::annexb::{
    closes_unit, complete_units, last_boundary, lemma_push_byte, lemma_remainder_is_unclosed,
    lemma_remainder_zero_run, lemma_unclosed_stream, lemma_zero_run, remainder, zero_run,
};
use vstd::prelude::*;

verus! {

/// Size of the reads that feed the scanner where nothing else is asked for.
/// The scanner itself takes chunks of any length.
pub const CHUNK_SIZE: usize = 8192;

/// The zero run of `s`, counted up to four: a run of four or more zero bytes
/// ends no start code, however long it is.
pub open spec fn capped_zero_run(s: Seq<u8>) -> int {
    if zero_run(s) < 4 {
        zero_run(s) as int
    } else {
        4
    }
}

/// Splits an Annex-B byte stream into its units across reads of any size.
///
/// The scanner keeps the bytes of the unit that no start code has closed yet,
/// and the length of the zero run that ends them, so that a start code may
/// begin in one chunk and end in a later one.
pub struct NalScanner {
    buffer: Vec<u8>,
    nulls: u8,
}

impl View for NalScanner {
    type V = Seq<u8>;

    /// The bytes taken in and not yet given out: the unclosed unit.
    closed spec fn view(&self) -> Seq<u8> {
        self.buffer@
    }
}

/// Appends `chunk[from..to]` to `buffer`.
fn append_range(buffer: &mut Vec<u8>, chunk: &[u8], from: usize, to: usize)
    requires
        from <= to <= chunk@.len(),
    ensures
        final(buffer)@ == old(buffer)@ + chunk@.subrange(from as int, to as int),
{
    let part = vstd::slice::slice_subrange(chunk, from, to);
    buffer.extend_from_slice(part);
}

impl NalScanner {
    #[verifier::type_invariant]
    spec fn holds_one_unclosed_unit(self) -> bool {
        &&& last_boundary(self.buffer@, self.buffer@.len() as int) == 0
        &&& self.nulls as int == capped_zero_run(self.buffer@)
    }

    /// A scanner at the head of a stream.
    pub fn new() -> (scanner: NalScanner)
        ensures
            scanner@ == Seq::<u8>::empty(),
    {
        NalScanner { buffer: Vec::new(), nulls: 0 }
    }

    /// Number of bytes held back for the unit that is not closed yet.
    pub fn pending_len(&self) -> (len: usize)
        ensures
            len == self@.len(),
    {
        self.buffer.len()
    }

    /// A copy of the bytes held back for the unit that is not closed yet.
    pub fn pending(&self) -> (bytes: Vec<u8>)
        ensures
            bytes@ == self@,
    {
        vstd::slice::slice_to_vec(self.buffer.as_slice())
    }

    /// Gives up the unclosed bytes, as at the end of a stream: a unit that no
    /// start code closes is never given out.
    pub fn discard_pending(&mut self)
        ensures
            final(self)@ == Seq::<u8>::empty(),
    {
        *self = NalScanner::new();
    }

    /// Takes the next chunk of the stream and returns the units that it
    /// completes, in stream order.
    ///
    /// The units are those of the unclosed bytes followed by the chunk, and
    /// what stays behind are the unclosed bytes of the two together.
    pub fn feed(&mut self, chunk: &[u8]) -> (units: Vec<Vec<u8>>)
        ensures
            units.deep_view() == complete_units(old(self)@ + chunk@),
            final(self)@ == remainder(old(self)@ + chunk@),
    {
        let mut taken = NalScanner::new();
        std::mem::swap(self, &mut taken);
        proof {
            use_type_invariant(&taken);
        }
        let mut buffer: Vec<u8> = taken.buffer;
        let mut nulls: u8 = taken.nulls;
        let ghost start = buffer@;
        let ghost stream = start + chunk@;
        let ghost held = start.len() as int;
        let mut units: Vec<Vec<u8>> = Vec::new();
        // chunk[begin..i] has been read and is not in the buffer yet
        let mut begin: usize = 0;
        let mut i: usize = 0;
        proof {
            lemma_unclosed_stream(start);
            assert(stream.subrange(0, held) =~= start);
        }
        while i < chunk.len()
            invariant
                begin <= i <= chunk@.len(),
                stream == start + chunk@,
                held == start.len(),
                units.deep_view() == complete_units(stream.subrange(0, held + i)),
                buffer@ + chunk@.subrange(begin as int, i as int) == remainder(
                    stream.subrange(0, held + i),
                ),
                nulls as int == capped_zero_run(stream.subrange(0, held + i)),
            decreases chunk@.len() - i,
        {
            let byte: u8 = chunk[i];
            let ghost seen = stream.subrange(0, held + i);
            let ghost rest = remainder(seen);
            proof {
                assert(stream.subrange(0, held + i + 1) =~= seen.push(byte));
                assert(seen.push(byte).drop_last() =~= seen);
                lemma_push_byte(seen, byte);
                lemma_zero_run(rest);
            }
            if byte == 0 {
                if nulls < 4 {
                    nulls = nulls + 1;
                }
            } else if byte == 1 && (nulls == 2 || nulls == 3) {
                let run: usize = nulls as usize;
                let mut unit: Vec<u8> = Vec::new();
                if run <= i - begin {
                    // the start code lies in the chunk: the unit ends before it
                    append_range(&mut buffer, chunk, begin, i - run);
                    begin = i - run;
                    std::mem::swap(&mut buffer, &mut unit);
                } else {
                    // the start code began in an earlier chunk: its first
                    // bytes are in the buffer and open the next unit
                    let excess: usize = run - (i - begin);
                    unit = buffer.split_off(buffer.len() - excess);
                    std::mem::swap(&mut buffer, &mut unit);
                }
                proof {
                    assert(unit@ =~= rest.subrange(0, rest.len() - run));
                    assert(buffer@ + chunk@.subrange(begin as int, i + 1) =~= rest.subrange(
                        rest.len() - run,
                        rest.len() as int,
                    ).push(byte));
                    if unit@.len() == 0 {
                        // the stream so far is this start code alone: it closes nothing
                        assert(!closes_unit(rest, byte));
                    }
                }
                if unit.len() > 0 {
                    let ghost before = units.deep_view();
                    let ghost closed = unit@;
                    proof {
                        assert(unit.deep_view() =~= closed);
                    }
                    units.push(unit);
                    proof {
                        assert(units.deep_view() =~= before.push(closed));
                    }
                }
                nulls = 0;
            } else {
                nulls = 0;
            }
            i = i + 1;
        }
        append_range(&mut buffer, chunk, begin, chunk.len());
        proof {
            assert(stream.subrange(0, held + i) =~= stream);
            lemma_remainder_is_unclosed(stream);
            lemma_remainder_zero_run(stream);
        }
        *self = NalScanner { buffer, nulls };
        units
    }
}

} // verus!
