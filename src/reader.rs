use vstd::prelude::*;

use crate::codec::ToFromBytes;
use crate::error::ToFromByteError;

verus! {

/// A forward-only cursor that reads from a borrowed byte buffer.
///
/// `pos` is the number of bytes consumed so far; a reader made by `new` keeps
/// `pos <= data.len()`.
pub struct BytesReader<'a> {
    /// The buffer read from.
    pub data: &'a [u8],
    /// Where the next byte comes from.
    pub pos: usize,
}

impl<'a> BytesReader<'a> {
    /// The cursor invariant: the position lies within the buffer.
    pub open spec fn wf(&self) -> bool {
        self.pos <= self.data@.len()
    }

    /// The bytes not yet consumed.
    pub open spec fn remaining(&self) -> Seq<u8> {
        self.data@.skip(self.pos as int)
    }

    /// A reader at the start of `data`.
    pub fn new(data: &'a [u8]) -> (r: Self)
        ensures
            r.data == data,
            r.pos == 0,
            r.remaining() == data@,
    {
        let r = BytesReader { data, pos: 0 };
        assert(r.remaining() =~= data@);
        r
    }

    /// Decodes a value of type `T` at the position and moves past it.
    pub fn read<T: ToFromBytes<'a>>(&mut self) -> (r: Result<T, ToFromByteError>)
        requires
            old(self).wf(),
        ensures
            final(self).data == old(self).data,
            final(self).wf(),
            r is Err ==> final(self).pos == old(self).pos,
            match T::parse(old(self).remaining()) {
                Ok((m, n)) => r matches Ok(v) && v.model() == m && final(self).pos == old(self).pos
                    + n,
                Err(e) => r == Err::<T, ToFromByteError>(e),
            },
    {
        let (value, _pos) = T::from_bytes(self)?;
        Ok(value)
    }

    /// Succeeds where `byte_count` more bytes remain.
    fn assert_enough_bytes(&self, byte_count: usize) -> (r: Result<(), ToFromByteError>)
        ensures
            r is Ok <==> self.pos + byte_count <= self.data@.len(),
            r is Ok ==> self.pos + byte_count <= usize::MAX,
            r is Err ==> r == Err::<(), ToFromByteError>(ToFromByteError::NotEnoughBytes),
    {
        if self.pos > self.data.len() || byte_count > self.data.len() - self.pos {
            return Err(ToFromByteError::NotEnoughBytes);
        }
        Ok(())
    }

    /// The next `byte_count` bytes, borrowed from the buffer; the position moves past
    /// them. Where fewer remain, fails with `NotEnoughBytes` and leaves the reader as
    /// it was.
    pub fn read_bytes(&mut self, byte_count: usize) -> (r: Result<&'a [u8], ToFromByteError>)
        ensures
            final(self).data == old(self).data,
            old(self).pos + byte_count <= old(self).data@.len() ==> (r matches Ok(s) && s@
                == old(self).data@.subrange(old(self).pos as int, old(self).pos + byte_count)
                && final(self).pos == old(self).pos + byte_count),
            old(self).pos + byte_count > old(self).data@.len() ==> r == Err::<&'a [u8], _>(
                ToFromByteError::NotEnoughBytes,
            ) && final(self).pos == old(self).pos,
    {
        self.assert_enough_bytes(byte_count)?;
        let slice = vstd::slice::slice_subrange(self.data, self.pos, self.pos + byte_count);
        self.pos = self.pos + byte_count;
        Ok(slice)
    }
}

} // verus!
