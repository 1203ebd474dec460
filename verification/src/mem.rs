use vstd::prelude::*;

verus! {

/// The model of a span of executable code memory.
///
/// `base` is the absolute machine address of `bytes[0]`. The engine never
/// assumes ownership of the underlying code; it works on this byte-level
/// image, and positions inside it are offsets from `base`. Toggling the
/// page protection around a write is the platform's part and stays outside
/// the model; within it, writes to mapped bytes always succeed.
pub struct CodeMemory {
    /// Absolute address of the first modeled byte.
    pub base: u64,
    /// The bytes of the modeled span, in address order.
    pub bytes: Vec<u8>,
}

/// The byte sequence with `patch` written at offset `off`.
pub open spec fn splice(s: Seq<u8>, off: int, patch: Seq<u8>) -> Seq<u8> {
    s.take(off) + patch + s.skip(off + patch.len())
}

impl CodeMemory {
    /// Every modeled byte has a representable absolute address.
    pub open spec fn wf(self) -> bool {
        self.base + self.bytes@.len() <= u64::MAX
    }

    /// Whether `[off, off + len)` lies within the modeled span.
    pub open spec fn contains_span(self, off: int, len: int) -> bool {
        0 <= off && 0 <= len && off + len <= self.bytes@.len()
    }

    pub fn new(base: u64, bytes: Vec<u8>) -> (r: Self)
        requires
            base + bytes@.len() <= u64::MAX,
        ensures
            r.base == base,
            r.bytes@ == bytes@,
            r.wf(),
    {
        CodeMemory { base, bytes }
    }

    /// Reads one byte of the image.
    pub fn read(&self, off: usize) -> (b: u8)
        requires
            off < self.bytes@.len(),
        ensures
            b == self.bytes@[off as int],
    {
        self.bytes[off]
    }

    /// Copies `len` bytes starting at `off` out of the image.
    pub fn read_span(&self, off: usize, len: usize) -> (r: Vec<u8>)
        requires
            self.contains_span(off as int, len as int),
        ensures
            r@ == self.bytes@.subrange(off as int, off + len),
    {
        let blen = self.bytes.len();
        let mut out: Vec<u8> = Vec::new();
        let mut i: usize = 0;
        while i < len
            invariant
                i <= len,
                off + len <= blen,
                blen == self.bytes@.len(),
                out@ == self.bytes@.subrange(off as int, off + i),
            decreases len - i,
        {
            out.push(self.bytes[off + i]);
            i = i + 1;
            proof {
                assert(out@ =~= self.bytes@.subrange(off as int, off + i));
            }
        }
        out
    }

    /// Writes `patch` over the bytes at `[off, off + patch.len())`.
    ///
    /// This is the code patcher's whole effect on the model: the span is
    /// replaced byte for byte and every other byte is untouched.
    pub fn write_span(&mut self, off: usize, patch: &Vec<u8>)
        requires
            old(self).contains_span(off as int, patch@.len() as int),
        ensures
            final(self).base == old(self).base,
            final(self).bytes@ == splice(old(self).bytes@, off as int, patch@),
            final(self).bytes@.len() == old(self).bytes@.len(),
            old(self).wf() ==> final(self).wf(),
    {
        let n = patch.len();
        let blen = self.bytes.len();
        let mut i: usize = 0;
        while i < n
            invariant
                i <= n,
                n == patch@.len(),
                off + n <= blen,
                blen == self.bytes@.len(),
                self.base == old(self).base,
                self.bytes@.len() == old(self).bytes@.len(),
                forall|j: int|
                    0 <= j < self.bytes@.len() && !(off <= j < off + i) ==> self.bytes@[j] == old(
                        self,
                    ).bytes@[j],
                forall|j: int| 0 <= j < i ==> self.bytes@[off + j] == patch@[j],
            decreases n - i,
        {
            self.bytes.set(off + i, patch[i]);
            i = i + 1;
        }
        proof {
            assert(final(self).bytes@ =~= splice(old(self).bytes@, off as int, patch@));
        }
    }

    /// Extends the image with fresh executable bytes and reports the offset
    /// where they begin.
    ///
    /// This models allocating an executable buffer adjacent to the code it
    /// must reach, as the trampoline builder asks for.
    pub fn append(&mut self, tail: &Vec<u8>) -> (off: usize)
        requires
            old(self).wf(),
            old(self).base + old(self).bytes@.len() + tail@.len() <= u64::MAX,
        ensures
            final(self).base == old(self).base,
            final(self).bytes@ == old(self).bytes@ + tail@,
            off == old(self).bytes@.len(),
            final(self).wf(),
    {
        let off = self.bytes.len();
        let n = tail.len();
        let mut i: usize = 0;
        while i < n
            invariant
                i <= n,
                n == tail@.len(),
                self.base == old(self).base,
                self.bytes@ == old(self).bytes@ + tail@.subrange(0, i as int),
                off == old(self).bytes@.len(),
            decreases n - i,
        {
            self.bytes.push(tail[i]);
            i = i + 1;
            proof {
                assert(self.bytes@ =~= old(self).bytes@ + tail@.subrange(0, i as int));
            }
        }
        proof {
            assert(tail@.subrange(0, n as int) =~= tail@);
        }
        off
    }
}

} // verus!
