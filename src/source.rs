use vstd::prelude::*;

verus! {

/// Why generating a value failed.
#[derive(Clone, Copy, Debug, PartialEq, Eq, Structural)]
pub enum GenError {
    /// The byte source held fewer bytes than the value needs.
    Exhausted,
    /// Node references nested deeper than the depth bound.
    DepthLimit,
    /// The type brings its own generator, which the schema does not hold
    /// (an opaque node, a sequence, an outside container).
    NoGenerator,
    /// A leaf that no rule matches, a reference to no node, or an enum
    /// without variants.
    Unresolved,
}

/// A finite supply of unstructured bytes, read front to back.
#[derive(Debug, PartialEq, Eq)]
pub struct ByteSource {
    pub data: Vec<u8>,
    pub pos: usize,
}

/// The unsigned 32-bit integer held little-endian in `data[pos..pos + 4]`.
pub open spec fn le_u32(data: Seq<u8>, pos: int) -> int {
    data[pos] as int + data[pos + 1] as int * 0x100 + data[pos + 2] as int * 0x1_0000
        + data[pos + 3] as int * 0x100_0000
}

impl ByteSource {
    /// The position lies within the data.
    pub open spec fn wf(&self) -> bool {
        self.pos <= self.data@.len()
    }

    /// A source that yields `data` from its start.
    pub fn new(data: Vec<u8>) -> (r: ByteSource)
        ensures
            r.wf(),
            r.data@ == data@,
            r.pos == 0,
    {
        ByteSource { data, pos: 0 }
    }

    /// The number of bytes not yet drawn.
    pub fn remaining(&self) -> (r: usize)
        requires
            self.wf(),
        ensures
            r == self.data@.len() - self.pos,
    {
        self.data.len() - self.pos
    }

    /// Draws one byte; fails, drawing nothing, when none is left.
    pub fn draw_byte(&mut self) -> (r: Result<u8, GenError>)
        requires
            old(self).wf(),
        ensures
            final(self).wf(),
            final(self).data@ == old(self).data@,
            old(self).pos < old(self).data@.len() ==> r == Ok::<u8, GenError>(
                old(self).data@[old(self).pos as int],
            ) && final(self).pos == old(self).pos + 1,
            old(self).pos >= old(self).data@.len() ==> r == Err::<u8, GenError>(GenError::Exhausted)
                && final(self).pos == old(self).pos,
    {
        if self.pos < self.data.len() {
            let b = self.data[self.pos];
            self.pos = self.pos + 1;
            Ok(b)
        } else {
            Err(GenError::Exhausted)
        }
    }

    /// Draws `n` bytes; fails, drawing nothing, when fewer are left.
    pub fn draw(&mut self, n: usize) -> (r: Result<Vec<u8>, GenError>)
        requires
            old(self).wf(),
        ensures
            final(self).wf(),
            final(self).data@ == old(self).data@,
            old(self).pos + n <= old(self).data@.len() ==> (r matches Ok(b) && b@
                == old(self).data@.subrange(old(self).pos as int, old(self).pos + n)
                && final(self).pos == old(self).pos + n),
            old(self).pos + n > old(self).data@.len() ==> r == Err::<Vec<u8>, GenError>(
                GenError::Exhausted,
            ) && final(self).pos == old(self).pos,
    {
        if n > self.data.len() - self.pos {
            return Err(GenError::Exhausted);
        }
        let len = self.data.len();
        let mut out: Vec<u8> = Vec::new();
        let mut i: usize = 0;
        while i < n
            invariant
                len == self.data@.len(),
                self.wf(),
                self.pos + n <= self.data@.len(),
                i <= n,
                out@ == self.data@.subrange(self.pos as int, self.pos + i),
            decreases n - i,
        {
            out.push(self.data[self.pos + i]);
            i = i + 1;
            assert(out@ =~= self.data@.subrange(self.pos as int, self.pos + i));
        }
        self.pos = self.pos + n;
        Ok(out)
    }

    /// Draws four bytes as a little-endian `u32`; fails, drawing nothing,
    /// when fewer are left.
    pub fn draw_u32(&mut self) -> (r: Result<u32, GenError>)
        requires
            old(self).wf(),
        ensures
            final(self).wf(),
            final(self).data@ == old(self).data@,
            old(self).pos + 4 <= old(self).data@.len() ==> (r matches Ok(x) && x as int == le_u32(
                old(self).data@,
                old(self).pos as int,
            ) && final(self).pos == old(self).pos + 4),
            old(self).pos + 4 > old(self).data@.len() ==> r == Err::<u32, GenError>(
                GenError::Exhausted,
            ) && final(self).pos == old(self).pos,
    {
        if 4 > self.data.len() - self.pos {
            return Err(GenError::Exhausted);
        }
        let p = self.pos;
        let b0 = self.data[p] as u32;
        let b1 = self.data[p + 1] as u32;
        let b2 = self.data[p + 2] as u32;
        let b3 = self.data[p + 3] as u32;
        self.pos = p + 4;
        Ok(b0 + b1 * 0x100 + b2 * 0x1_0000 + b3 * 0x100_0000)
    }
}

} // verus!
