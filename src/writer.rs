use vstd::prelude::*;

use crate::codec::{encode_outcome, ToFromBytes};
use crate::error::ToFromByteError;

verus! {

/// `data` with `bytes` written over it from `pos` on.
pub open spec fn overwrite(data: Seq<u8>, pos: int, bytes: Seq<u8>) -> Seq<u8> {
    data.take(pos) + bytes + data.skip(pos + bytes.len())
}

/// Two writes in a row are one write of both byte runs.
pub proof fn lemma_overwrite_twice(data: Seq<u8>, pos: int, a: Seq<u8>, b: Seq<u8>)
    requires
        0 <= pos,
        pos + a.len() + b.len() <= data.len(),
    ensures
        overwrite(overwrite(data, pos, a), pos + a.len(), b) == overwrite(data, pos, a + b),
        overwrite(data, pos, a).len() == data.len(),
{
    assert(overwrite(overwrite(data, pos, a), pos + a.len(), b) =~= overwrite(data, pos, a + b));
}

/// A forward-only cursor that writes into a caller-owned byte buffer.
///
/// `pos` is the number of bytes written so far; a writer made by `new` keeps
/// `pos <= data.len()`.
pub struct BytesWriter<'a> {
    /// The buffer written into.
    pub data: &'a mut [u8],
    /// Where the next byte goes.
    pub pos: usize,
}

impl<'a> BytesWriter<'a> {
    /// The cursor invariant: the position lies within the buffer.
    pub open spec fn wf(&self) -> bool {
        self.pos <= self.data@.len()
    }

    /// `after` is `self` with `bytes` written at its position.
    pub open spec fn wrote(&self, after: &BytesWriter<'a>, bytes: Seq<u8>) -> bool {
        &&& after.pos == self.pos + bytes.len()
        &&& after.data@ == overwrite(self.data@, self.pos as int, bytes)
    }

    /// The number of bytes that still fit.
    pub open spec fn room(&self) -> int {
        self.data@.len() - self.pos
    }

    /// A writer at the start of `data`.
    pub fn new(data: &'a mut [u8]) -> (r: Self)
        ensures
            r.pos == 0,
            r.data@ == old(data)@,
            final(r.data)@ == final(data)@,
    {
        BytesWriter { data, pos: 0 }
    }

    /// Encodes `value` at the position and moves past it.
    pub fn write<'t, T: ToFromBytes<'t>>(&mut self, value: &T) -> (r: Result<(), ToFromByteError>)
        requires
            old(self).wf(),
        ensures
            final(final(self).data)@ == final(old(self).data)@,
            encode_outcome(
                *old(self),
                *final(self),
                T::encodable(value.model()),
                T::encoding(value.model()),
                r,
            ),
    {
        value.to_bytes(self)
    }

    /// Succeeds where `byte_count` more bytes fit.
    fn assert_enough_bytes(&self, byte_count: usize) -> (r: Result<(), ToFromByteError>)
        ensures
            r is Ok <==> byte_count <= self.room(),
            r is Ok ==> self.pos + byte_count <= usize::MAX,
            r is Err ==> r == Err::<(), ToFromByteError>(ToFromByteError::NotEnoughBytes),
    {
        if self.pos > self.data.len() || byte_count > self.data.len() - self.pos {
            return Err(ToFromByteError::NotEnoughBytes);
        }
        Ok(())
    }

    /// Copies `src` to the position and advances past it; where it does not fit,
    /// fails with `NotEnoughBytes` and changes nothing.
    pub fn write_bytes(&mut self, src: &[u8]) -> (r: Result<(), ToFromByteError>)
        ensures
            final(final(self).data)@ == final(old(self).data)@,
            final(self).data@.len() == old(self).data@.len(),
            old(self).pos + src@.len() <= old(self).data@.len() ==> r is Ok && old(self).wrote(
                &*final(self),
                src@,
            ),
            old(self).pos + src@.len() > old(self).data@.len() ==> r == Err::<(), _>(
                ToFromByteError::NotEnoughBytes,
            ) && final(self).pos == old(self).pos && final(self).data@ == old(self).data@,
    {
        self.assert_enough_bytes(src.len())?;
        let mut i: usize = 0;
        while i < src.len()
            invariant
                i <= src@.len(),
                self.pos + src@.len() <= self.data@.len(),
                self.data@.len() == old(self).data@.len(),
                self.pos == old(self).pos,
                final(self.data)@ == final(old(self).data)@,
                self.data@ == overwrite(old(self).data@, self.pos as int, src@.take(i as int)),
            decreases src@.len() - i,
        {
            assert(self.data@.len() == self.data.len());
            self.data[self.pos + i] = src[i];
            i = i + 1;
            assert(self.data@ =~= overwrite(old(self).data@, self.pos as int, src@.take(i as int)));
        }
        assert(src@.take(i as int) =~= src@);
        self.pos = self.pos + src.len();
        Ok(())
    }
}

} // verus!
