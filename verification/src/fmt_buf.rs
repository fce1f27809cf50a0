//! A fixed 32-byte text buffer that keeps what fits of what is written to it.

use vstd::prelude::*;

verus! {

/// Capacity of a text buffer, in bytes.
pub const FMT_BUF_CAP: usize = 32;

/// Text buffer of fixed capacity.
pub struct FmtBuf {
    buf: Vec<u8>,
    len: usize,
}

impl FmtBuf {
    /// Full-size storage, and a length within it.
    #[verifier::type_invariant]
    spec fn wf(&self) -> bool {
        self.buf@.len() == FMT_BUF_CAP && self.len <= FMT_BUF_CAP
    }

    /// The bytes written so far.
    pub closed spec fn contents(&self) -> Seq<u8> {
        self.buf@.take(self.len as int)
    }

    /// An empty buffer.
    pub fn new() -> (r: FmtBuf)
        ensures
            r.contents() == Seq::<u8>::empty(),
    {
        let mut buf: Vec<u8> = Vec::new();
        let mut i: usize = 0;
        while i < FMT_BUF_CAP
            invariant
                i <= FMT_BUF_CAP,
                buf@.len() == i,
            decreases FMT_BUF_CAP - i,
        {
            buf.push(0);
            i += 1;
        }
        let r = FmtBuf { buf, len: 0 };
        assert(r.contents() =~= Seq::<u8>::empty());
        r
    }

    /// Appends as much of `s` as fits; fails if not all of it did.
    pub fn write_bytes(&mut self, s: &[u8]) -> (r: Result<(), ()>)
        ensures
            final(self).contents().len() <= FMT_BUF_CAP,
            final(self).contents() == old(self).contents() + s@.take(
                if s@.len() <= FMT_BUF_CAP - old(self).contents().len() {
                    s@.len() as int
                } else {
                    FMT_BUF_CAP - old(self).contents().len()
                },
            ),
            r is Ok <==> s@.len() <= FMT_BUF_CAP - old(self).contents().len(),
    {
        proof {
            use_type_invariant(&*self);
        }
        let remaining = FMT_BUF_CAP - self.len;
        let n = if s.len() < remaining {
            s.len()
        } else {
            remaining
        };
        let start = self.len;
        let mut out: Vec<u8> = Vec::new();
        let mut k: usize = 0;
        while k < FMT_BUF_CAP
            invariant
                self.buf@.len() == FMT_BUF_CAP,
                start == self.len,
                start + n <= FMT_BUF_CAP,
                n <= s@.len(),
                k <= FMT_BUF_CAP,
                out@.len() == k,
                forall|q: int| 0 <= q < k && q < start ==> #[trigger] out@[q] == self.buf@[q],
                forall|q: int| 0 <= q < k && start <= q < start + n ==> #[trigger] out@[q] == s@[q - start],
            decreases FMT_BUF_CAP - k,
        {
            if start <= k && k < start + n {
                out.push(s[k - start]);
            } else {
                out.push(self.buf[k]);
            }
            k += 1;
        }
        let ghost before = self.buf@;
        *self = FmtBuf { buf: out, len: start + n };
        assert(self.buf@.take(self.len as int) =~= before.take(start as int) + s@.take(n as int));
        if n < s.len() {
            Err(())
        } else {
            Ok(())
        }
    }

    /// The bytes written so far.
    pub fn as_bytes(&self) -> (r: Vec<u8>)
        ensures
            r@ == self.contents(),
    {
        proof {
            use_type_invariant(self);
        }
        let mut out: Vec<u8> = Vec::new();
        let mut i: usize = 0;
        while i < self.len
            invariant
                self.buf@.len() == FMT_BUF_CAP,
                self.len <= FMT_BUF_CAP,
                i <= self.len,
                out@ == self.buf@.take(i as int),
            decreases self.len - i,
        {
            out.push(self.buf[i]);
            i += 1;
        }
        out
    }
}

/// Writing never loses what was written before, and never keeps more than the capacity.
pub proof fn lemma_write_keeps_prefix(before: Seq<u8>, s: Seq<u8>, after: Seq<u8>)
    requires
        before.len() <= FMT_BUF_CAP,
        after == before + s.take(
            if s.len() <= FMT_BUF_CAP - before.len() {
                s.len() as int
            } else {
                FMT_BUF_CAP - before.len()
            },
        ),
    ensures
        after.len() <= FMT_BUF_CAP,
        after.take(before.len() as int) == before,
{
    assert(after.take(before.len() as int) =~= before);
}

} // verus!
