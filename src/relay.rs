//! The exact-length relay of the request body: exactly `Content-Length` bytes pass from
//! the client to the program, through a working buffer of fixed size.
use vstd::prelude::*;

verus! {

/// The size of the working buffer, 64 KiB.
pub const RELAY_BUFFER_SIZE: usize = 65536;

/// The size of the next read when `remaining` bytes are still owed: a full buffer, or
/// what is left.
pub open spec fn chunk_len(remaining: nat) -> nat {
    if remaining > RELAY_BUFFER_SIZE {
        RELAY_BUFFER_SIZE as nat
    } else {
        remaining
    }
}

/// How many bytes of a source of `len` bytes the relay has passed on when the source
/// runs out: its whole buffers.
pub open spec fn whole_buffers(len: nat) -> nat {
    (len / (RELAY_BUFFER_SIZE as nat)) * (RELAY_BUFFER_SIZE as nat)
}

/// The relay failed: the source ended before all the bytes owed were read.
#[derive(Clone, Copy, Debug, PartialEq, Eq, Structural)]
pub enum RelayError {
    SourceEnded,
}

/// Progress of one exact-length relay: how many bytes are owed, and how many have
/// passed. The caller reads `next_chunk` bytes into the buffer, writes them out and
/// reports the count with `advance`, until `is_done`.
pub struct ExactRelay {
    length: usize,
    relayed: usize,
}

impl ExactRelay {
    /// The number of bytes owed in all.
    pub closed spec fn spec_length(&self) -> nat {
        self.length as nat
    }

    /// The number of bytes passed so far.
    pub closed spec fn spec_relayed(&self) -> nat {
        self.relayed as nat
    }

    /// Never more bytes passed than owed.
    pub closed spec fn wf(&self) -> bool {
        self.relayed <= self.length
    }

    /// A relay of `length` bytes, none of them passed yet.
    pub fn new(length: usize) -> (r: ExactRelay)
        ensures
            r.wf(),
            r.spec_length() == length,
            r.spec_relayed() == 0,
    {
        ExactRelay { length, relayed: 0 }
    }

    /// The number of bytes still owed.
    pub fn remaining(&self) -> (r: usize)
        requires
            self.wf(),
        ensures
            r == self.spec_length() - self.spec_relayed(),
    {
        self.length - self.relayed
    }

    /// Whether every byte owed has passed.
    pub fn is_done(&self) -> (r: bool)
        requires
            self.wf(),
        ensures
            r <==> self.spec_relayed() == self.spec_length(),
    {
        self.relayed == self.length
    }

    /// How many bytes to read next.
    pub fn next_chunk(&self) -> (r: usize)
        requires
            self.wf(),
        ensures
            r == chunk_len((self.spec_length() - self.spec_relayed()) as nat),
            r <= RELAY_BUFFER_SIZE,
    {
        let remaining = self.length - self.relayed;
        if remaining > RELAY_BUFFER_SIZE {
            RELAY_BUFFER_SIZE
        } else {
            remaining
        }
    }

    /// Records that `got` bytes were read and passed on. Anything short of the chunk
    /// asked for means the source ended early: the relay fails and stays as it was.
    pub fn advance(&mut self, got: usize) -> (r: Result<(), RelayError>)
        requires
            old(self).wf(),
        ensures
            final(self).wf(),
            final(self).spec_length() == old(self).spec_length(),
            r is Ok <==> got == chunk_len(
                (old(self).spec_length() - old(self).spec_relayed()) as nat,
            ),
            r is Ok ==> final(self).spec_relayed() == old(self).spec_relayed() + got,
            r is Err ==> final(self).spec_relayed() == old(self).spec_relayed(),
    {
        if got == self.next_chunk() {
            self.relayed = self.relayed + got;
            Ok(())
        } else {
            Err(RelayError::SourceEnded)
        }
    }
}

/// A source that stops inside the buffer that begins at `pos` has `pos` whole buffers.
proof fn lemma_whole_buffers(pos: nat, len: nat, k: nat)
    requires
        pos == k * (RELAY_BUFFER_SIZE as nat),
        pos <= len < pos + RELAY_BUFFER_SIZE,
    ensures
        whole_buffers(len) == pos,
{
    assert(len / (RELAY_BUFFER_SIZE as nat) == k) by (nonlinear_arith)
        requires
            pos == k * 65536,
            pos <= len < pos + 65536,
    ;
}

/// Copies exactly `length` bytes from the front of `source` to the end of `sink`,
/// through a working buffer of `RELAY_BUFFER_SIZE` bytes whatever `length` is. Fails when
/// the source holds fewer bytes; the sink then has the whole buffers read before.
pub fn copy_exact(source: &[u8], sink: &mut Vec<u8>, length: usize) -> (r: Result<(), RelayError>)
    ensures
        r is Ok <==> source@.len() >= length,
        r is Ok ==> final(sink)@ == old(sink)@ + source@.take(length as int),
        r is Err ==> final(sink)@ == old(sink)@ + source@.take(
            whole_buffers(source@.len()) as int,
        ),
{
    let mut buffer: Vec<u8> = vec![0u8; RELAY_BUFFER_SIZE];
    let mut relay = ExactRelay::new(length);
    let mut pos: usize = 0;
    let ghost mut k: nat = 0;
    while !relay.is_done()
        invariant
            relay.wf(),
            relay.spec_length() == length,
            relay.spec_relayed() == pos,
            pos <= source@.len(),
            pos < length ==> pos == k * (RELAY_BUFFER_SIZE as nat),
            buffer.len() == RELAY_BUFFER_SIZE,
            sink@ == old(sink)@ + source@.take(pos as int),
        decreases length - pos,
    {
        let n = relay.next_chunk();
        if source.len() - pos < n {
            proof {
                lemma_whole_buffers(pos as nat, source@.len(), k);
            }
            return Err(RelayError::SourceEnded);
        }
        let mut j: usize = 0;
        while j < n
            invariant
                j <= n <= RELAY_BUFFER_SIZE,
                pos + n <= source.len(),
                buffer.len() == RELAY_BUFFER_SIZE,
                forall|i: int| 0 <= i < j ==> buffer@[i] == source@[pos + i],
            decreases n - j,
        {
            buffer.set(j, source[pos + j]);
            j = j + 1;
        }
        let mut j: usize = 0;
        while j < n
            invariant
                j <= n <= RELAY_BUFFER_SIZE,
                pos + n <= source@.len(),
                buffer.len() == RELAY_BUFFER_SIZE,
                forall|i: int| 0 <= i < n ==> buffer@[i] == source@[pos + i],
                sink@ == old(sink)@ + source@.take(pos + j),
            decreases n - j,
        {
            sink.push(buffer[j]);
            assert(source@.take(pos + j + 1) == source@.take(pos + j).push(source@[pos + j]));
            j = j + 1;
        }
        let advanced = relay.advance(n);
        pos = pos + n;
        proof {
            assert(advanced is Ok);
            k = k + 1;
            assert(pos < length ==> n == RELAY_BUFFER_SIZE);
            assert(pos < length ==> pos == k * (RELAY_BUFFER_SIZE as nat)) by (nonlinear_arith)
                requires
                    pos < length ==> n == 65536,
                    pos == (pos - n) + n,
                    (pos - n) < length ==> (pos - n) == (k - 1) * 65536,
                    (pos - n) < length,
            ;
        }
    }
    Ok(())
}

} // verus!
