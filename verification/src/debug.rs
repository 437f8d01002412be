//! # Debug
//!
//! Utilities used while testing: an approximate sample comparison and an
//! in-memory byte reader that stands in for a file.

use vstd::prelude::*;
use crate::sample_format::Sample;

verus! {

/// Whether two samples lie within `e` of one another: the absolute
/// difference of their amplitudes is strictly below the tolerance.
pub fn float_equal(a: Sample, b: Sample, e: Sample) -> (r: bool)
    ensures
        r == (if a.v >= b.v {
            a.v - b.v < e.v
        } else {
            b.v - a.v < e.v
        }),
{
    let d: i128 = (a.v as i128) - (b.v as i128);
    let m: i128 = if d < 0 {
        -d
    } else {
        d
    };
    m < e.v as i128
}

/// An in-memory byte stream: reads hand out consecutive spans of a stored
/// byte vector, so tests can parse data without touching a disk.
#[derive(Debug)]
pub struct VecReader {
    vec: Vec<u8>,
    pos: usize,
}

/// The mathematical state of a [`VecReader`]: the stored bytes and the
/// read position.
pub ghost struct VecReaderModel {
    /// The stored bytes.
    pub vec: Seq<u8>,
    /// How many bytes have been read so far.
    pub pos: nat,
}

impl View for VecReader {
    type V = VecReaderModel;

    closed spec fn view(&self) -> VecReaderModel {
        VecReaderModel { vec: self.vec@, pos: self.pos as nat }
    }
}

impl VecReader {
    #[verifier::type_invariant]
    spec fn type_wf(self) -> bool {
        self.pos <= self.vec@.len()
    }

    /// Creates a new reader over the given bytes, positioned at the start.
    pub fn new(vec: Vec<u8>) -> (r: VecReader)
        ensures
            r@.vec == vec@,
            r@.pos == 0,
    {
        VecReader { vec, pos: 0 }
    }

    /// Reads up to `n` bytes: the next `n` stored bytes, or whatever
    /// remains of them, advancing the position by as much.
    #[verifier::loop_isolation(false)]
    pub fn read(&mut self, n: usize) -> (r: Vec<u8>)
        ensures
            ({
                let avail = old(self)@.vec.len() - old(self)@.pos;
                let take = if n <= avail {
                    n as int
                } else {
                    avail
                };
                &&& r@ == old(self)@.vec.subrange(
                    old(self)@.pos as int,
                    old(self)@.pos + take,
                )
                &&& final(self)@.vec == old(self)@.vec
                &&& final(self)@.pos == old(self)@.pos + take
            }),
    {
        proof {
            use_type_invariant(&*self);
        }
        let mut r: Vec<u8> = Vec::new();
        if self.pos >= self.vec.len() {
            proof {
                assert(r@ =~= self@.vec.subrange(self@.pos as int, self@.pos as int));
            }
            return r;
        }
        let avail = self.vec.len() - self.pos;
        let take = if n <= avail {
            n
        } else {
            avail
        };
        let start = self.pos;
        let mut i: usize = 0;
        while i < take
            invariant
                i <= take,
                start + take <= self.vec@.len(),
                self.pos == start,
                r@ =~= self.vec@.subrange(start as int, start + i),
            decreases take - i,
        {
            r.push(self.vec[start + i]);
            proof {
                assert(r@ =~= self.vec@.subrange(start as int, start + i + 1));
            }
            i = i + 1;
        }
        self.pos = self.pos + take;
        r
    }
}

} // verus!
