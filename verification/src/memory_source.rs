//! A whole audio file held in memory, read and repositioned like a file, so
//! that a preloaded next track can be decoded without waiting on the disk.

use vstd::prelude::*;

verus! {

/// Where a seek measures its offset from.
#[derive(Debug, Clone, Copy, PartialEq, Eq, Structural)]
pub enum SeekTarget {
    /// From the start of the data.
    Start(u64),
    /// From the end of the data.
    End(i64),
    /// From the current position.
    Current(i64),
}

/// Why a seek was refused.
#[derive(Debug, Clone, Copy, PartialEq, Eq, Structural)]
pub enum SeekError {
    /// The target lies before the start of the data.
    NegativePosition,
}

/// An in-memory byte source with a read position.
pub struct MemoryAudioSource {
    data: Vec<u8>,
    position: u64,
}

impl MemoryAudioSource {
    #[verifier::type_invariant]
    closed spec fn inv(self) -> bool {
        &&& self.position <= i64::MAX
        &&& self.data@.len() <= i64::MAX
    }

    /// The bytes held.
    pub closed spec fn bytes(self) -> Seq<u8> {
        self.data@
    }

    /// The read position (it may lie past the end).
    pub closed spec fn pos(self) -> nat {
        self.position as nat
    }

    /// A source over `data`, positioned at its start (the file's contents,
    /// read whole by the caller).
    pub fn from_bytes(data: Vec<u8>) -> (s: Self)
        requires
            data@.len() <= i64::MAX,
        ensures
            s.bytes() == data@,
            s.pos() == 0,
    {
        MemoryAudioSource { data, position: 0 }
    }

    /// The number of bytes held.
    pub fn byte_len(&self) -> (n: u64)
        ensures
            n == self.bytes().len(),
    {
        self.data.len() as u64
    }

    /// The read position.
    pub fn position(&self) -> (p: u64)
        ensures
            p == self.pos(),
    {
        self.position
    }

    /// Copy bytes from the read position into `buf`, as many as fit and are
    /// left, and move the position past them. Returns how many were copied
    /// (zero at or past the end).
    pub fn read(&mut self, buf: &mut [u8]) -> (n: usize)
        ensures
            final(self).bytes() == old(self).bytes(),
            n == (if old(self).pos() >= old(self).bytes().len() {
                0
            } else {
                vstd::math::min(
                    old(buf)@.len() as int,
                    old(self).bytes().len() - old(self).pos(),
                )
            }),
            final(self).pos() == old(self).pos() + n,
            final(buf)@.len() == old(buf)@.len(),
            old(self).pos() < old(self).bytes().len() ==> final(buf)@.take(n as int) == old(
                self,
            ).bytes().subrange(
                old(self).pos() as int,
                old(self).pos() + n,
            ),
            final(buf)@.skip(n as int) == old(buf)@.skip(n as int),
    {
        proof {
            use_type_invariant(&*self);
        }
        let len = self.data.len();
        assert(len <= i64::MAX);
        if self.position >= len as u64 {
            return 0;
        }
        let pos = self.position as usize;
        let avail = len - pos;
        let blen = buf.len();
        let to_read = if blen < avail {
            blen
        } else {
            avail
        };
        let mut i: usize = 0;
        while i < to_read
            invariant
                len == self.data@.len(),
                pos + to_read <= len,
                to_read <= blen,
                blen == buf@.len(),
                blen == old(buf)@.len(),
                0 <= i <= to_read,
                forall|k: int| 0 <= k < i ==> buf@[k] == self.data@[pos + k],
                forall|k: int| i <= k < blen ==> buf@[k] == old(buf)@[k],
            decreases to_read - i,
        {
            buf[i] = self.data[pos + i];
            i = i + 1;
        }
        self.position = self.position + to_read as u64;
        assert(buf@.take(to_read as int) =~= self.data@.subrange(pos as int, pos + to_read));
        assert(buf@.skip(to_read as int) =~= old(buf)@.skip(to_read as int));
        to_read
    }

    /// Move the read position. Fails, leaving it unchanged, when the target
    /// lies before the start (a start offset beyond `i64::MAX` counts as
    /// negative); a target past the end is allowed.
    pub fn seek(&mut self, target: SeekTarget) -> (r: Result<u64, SeekError>)
        requires
            target matches SeekTarget::End(off) ==> i64::MIN <= old(self).bytes().len() + off
                <= i64::MAX,
            target matches SeekTarget::Current(off) ==> i64::MIN <= old(self).pos() + off
                <= i64::MAX,
        ensures
            final(self).bytes() == old(self).bytes(),
            ({
                let p: int = match target {
                    SeekTarget::Start(off) => if off <= i64::MAX {
                        off as int
                    } else {
                        -1
                    },
                    SeekTarget::End(off) => old(self).bytes().len() + off,
                    SeekTarget::Current(off) => old(self).pos() + off,
                };
                if p < 0 {
                    r == Err::<u64, SeekError>(SeekError::NegativePosition) && final(self).pos()
                        == old(self).pos()
                } else {
                    r == Ok::<u64, SeekError>(p as u64) && final(self).pos() == p
                }
            }),
    {
        proof {
            use_type_invariant(&*self);
        }
        let new_pos: i64 = match target {
            SeekTarget::Start(offset) => {
                if offset <= i64::MAX as u64 {
                    offset as i64
                } else {
                    -1
                }
            },
            SeekTarget::End(offset) => self.data.len() as i64 + offset,
            SeekTarget::Current(offset) => self.position as i64 + offset,
        };
        if new_pos < 0 {
            return Err(SeekError::NegativePosition);
        }
        self.position = new_pos as u64;
        Ok(self.position)
    }
}

} // verus!
