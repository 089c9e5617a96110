use vstd::prelude::*;

use crate::bigendian::{
    be_bytes, be_value, lemma_be_round_trip, lemma_be_value_bound, lemma_pow256_values, read_uint,
    write_uint,
};
use crate::codec::{encode_outcome, size_or_max, ToFromBytes};
use crate::error::ToFromByteError;
use crate::primitives::parse_uint;
use crate::reader::BytesReader;
use crate::writer::{lemma_overwrite_twice, overwrite, BytesWriter};

verus! {

/// The ceiling on the size of an encoded sequence, tuple or record: 1 MiB.
pub const CONTAINER_MAX_BYTES: usize = 1_048_576;

/// The encodings of `ms`, back to back.
pub open spec fn concat_encodings<'a, T: ToFromBytes<'a>>(ms: Seq<T::Model>) -> Seq<u8>
    decreases ms.len(),
{
    if ms.len() == 0 {
        Seq::empty()
    } else {
        concat_encodings::<T>(ms.drop_last()) + T::encoding(ms.last())
    }
}

/// What decoding `count` values back to back reads from the front of `data`.
pub open spec fn parse_elements<'a, T: ToFromBytes<'a>>(data: Seq<u8>, count: nat) -> Result<
    (Seq<T::Model>, nat),
    ToFromByteError,
>
    decreases count,
{
    if count == 0 {
        Ok((Seq::empty(), 0))
    } else {
        match parse_elements::<T>(data, (count - 1) as nat) {
            Ok((ms, n)) => match T::parse(data.skip(n as int)) {
                Ok((m, k)) => Ok((ms.push(m), n + k)),
                Err(e) => Err(e),
            },
            Err(e) => Err(e),
        }
    }
}

/// Whether every value in `ms` is encodable.
pub open spec fn all_encodable<'a, T: ToFromBytes<'a>>(ms: Seq<T::Model>) -> bool {
    forall|i: int| 0 <= i < ms.len() ==> T::encodable(#[trigger] ms[i])
}

/// The encodings of a prefix of `ms` followed by the next value's encoding are the
/// encodings of the longer prefix.
proof fn lemma_concat_step<'a, T: ToFromBytes<'a>>(ms: Seq<T::Model>, k: int)
    requires
        0 <= k < ms.len(),
    ensures
        concat_encodings::<T>(ms.take(k + 1)) == concat_encodings::<T>(ms.take(k)) + T::encoding(
            ms[k],
        ),
{
    assert(ms.take(k + 1).drop_last() =~= ms.take(k));
}

/// The encodings of a prefix are no longer than those of the whole.
proof fn lemma_concat_prefix_len<'a, T: ToFromBytes<'a>>(ms: Seq<T::Model>, k: int)
    requires
        0 <= k <= ms.len(),
    ensures
        concat_encodings::<T>(ms.take(k)).len() <= concat_encodings::<T>(ms).len(),
    decreases ms.len() - k,
{
    if k < ms.len() {
        lemma_concat_step::<T>(ms, k);
        lemma_concat_prefix_len::<T>(ms, k + 1);
    } else {
        assert(ms.take(k) =~= ms);
    }
}

/// Back-to-back encodings hold at least one byte per value.
proof fn lemma_concat_len_at_least_count<'a, T: ToFromBytes<'a>>(ms: Seq<T::Model>)
    ensures
        concat_encodings::<T>(ms).len() >= ms.len(),
    decreases ms.len(),
{
    if ms.len() > 0 {
        lemma_concat_len_at_least_count::<T>(ms.drop_last());
        T::lemma_encoding_nonempty(ms.last());
    }
}

/// Decoding back-to-back encodings gives the values back.
proof fn lemma_parse_elements_encoding<'a, T: ToFromBytes<'a>>(ms: Seq<T::Model>, rest: Seq<u8>)
    requires
        all_encodable::<T>(ms),
    ensures
        parse_elements::<T>(concat_encodings::<T>(ms) + rest, ms.len()) == Ok::<
            (Seq<T::Model>, nat),
            ToFromByteError,
        >((ms, concat_encodings::<T>(ms).len())),
    decreases ms.len(),
{
    if ms.len() > 0 {
        let init = ms.drop_last();
        let x = ms.last();
        let data = concat_encodings::<T>(ms) + rest;
        assert(data =~= concat_encodings::<T>(init) + (T::encoding(x) + rest));
        assert(all_encodable::<T>(init)) by {
            assert forall|i: int| 0 <= i < init.len() implies T::encodable(#[trigger] init[i]) by {
                assert(init[i] == ms[i]);
            }
        }
        lemma_parse_elements_encoding::<T>(init, T::encoding(x) + rest);
        assert(data.skip(concat_encodings::<T>(init).len() as int) =~= T::encoding(x) + rest);
        T::lemma_parse_encoding(x, rest);
        assert(init.push(x) =~= ms);
    } else {
        assert(ms =~= Seq::<T::Model>::empty());
        assert(concat_encodings::<T>(ms) + rest =~= rest);
    }
}

/// Once decoding `k` values fails, decoding more fails the same way.
proof fn lemma_parse_elements_err<'a, T: ToFromBytes<'a>>(data: Seq<u8>, k: nat, count: nat)
    requires
        k <= count,
        parse_elements::<T>(data, k) is Err,
    ensures
        parse_elements::<T>(data, count) == parse_elements::<T>(data, k),
    decreases count,
{
    if k < count {
        lemma_parse_elements_err::<T>(data, k, (count - 1) as nat);
    }
}

/// Decoding a proper prefix of back-to-back encodings fails with `NotEnoughBytes`.
proof fn lemma_parse_elements_truncated<'a, T: ToFromBytes<'a>>(ms: Seq<T::Model>, n: nat)
    requires
        all_encodable::<T>(ms),
        n < concat_encodings::<T>(ms).len(),
    ensures
        parse_elements::<T>(concat_encodings::<T>(ms).take(n as int), ms.len()) == Err::<
            (Seq<T::Model>, nat),
            ToFromByteError,
        >(ToFromByteError::NotEnoughBytes),
    decreases ms.len(),
{
    let init = ms.drop_last();
    let x = ms.last();
    let head = concat_encodings::<T>(init);
    let data = concat_encodings::<T>(ms).take(n as int);
    assert(all_encodable::<T>(init)) by {
        assert forall|i: int| 0 <= i < init.len() implies T::encodable(#[trigger] init[i]) by {
            assert(init[i] == ms[i]);
        }
    }
    if n < head.len() {
        assert(data =~= head.take(n as int));
        lemma_parse_elements_truncated::<T>(init, n);
    } else {
        let j = (n - head.len()) as nat;
        assert(data =~= head + T::encoding(x).take(j as int));
        lemma_parse_elements_encoding::<T>(init, T::encoding(x).take(j as int));
        assert(data.skip(head.len() as int) =~= T::encoding(x).take(j as int));
        T::lemma_parse_truncated(x, j);
    }
}

/// Sequences: the element count in 4 bytes, then each element's encoding in order.
impl<'a, T: ToFromBytes<'a>> ToFromBytes<'a> for Vec<T> {
    type Model = Seq<T::Model>;

    open spec fn model(&self) -> Seq<T::Model> {
        self@.map_values(|v: T| v.model())
    }

    open spec fn spec_max_bytes() -> usize {
        CONTAINER_MAX_BYTES
    }

    open spec fn encodable(m: Seq<T::Model>) -> bool {
        m.len() <= u32::MAX && all_encodable::<T>(m)
    }

    open spec fn encoding(m: Seq<T::Model>) -> Seq<u8> {
        be_bytes(m.len(), 4) + concat_encodings::<T>(m)
    }

    open spec fn parse(data: Seq<u8>) -> Result<(Seq<T::Model>, nat), ToFromByteError> {
        match parse_uint(data, 4) {
            Ok((count, _)) => match parse_elements::<T>(data.skip(4), count) {
                Ok((ms, n)) => Ok((ms, 4 + n)),
                Err(e) => Err(e),
            },
            Err(e) => Err(e),
        }
    }

    proof fn lemma_max_bytes_bounded() {
    }

    proof fn lemma_encoding_nonempty(m: Seq<T::Model>) {
        assert(be_bytes(m.len(), 4).len() == 4);
    }

    proof fn lemma_unencodable_is_large(m: Seq<T::Model>) {
        assert(be_bytes(m.len(), 4).len() == 4);
        if m.len() > u32::MAX {
            lemma_concat_len_at_least_count::<T>(m);
        } else {
            let i = choose|i: int| 0 <= i < m.len() && !T::encodable(#[trigger] m[i]);
            T::lemma_unencodable_is_large(m[i]);
            lemma_concat_step::<T>(m, i);
            lemma_concat_prefix_len::<T>(m, i + 1);
        }
    }

    proof fn lemma_parse_encoding(m: Seq<T::Model>, rest: Seq<u8>) {
        let data = Self::encoding(m) + rest;
        lemma_pow256_values();
        lemma_be_round_trip(m.len(), 4);
        assert(data.take(4) =~= be_bytes(m.len(), 4));
        assert(data.skip(4) =~= concat_encodings::<T>(m) + rest);
        lemma_parse_elements_encoding::<T>(m, rest);
    }

    proof fn lemma_parse_truncated(m: Seq<T::Model>, n: nat) {
        let data = Self::encoding(m).take(n as int);
        lemma_pow256_values();
        lemma_be_round_trip(m.len(), 4);
        if n >= 4 {
            assert(data.take(4) =~= be_bytes(m.len(), 4));
            assert(data.skip(4) =~= concat_encodings::<T>(m).take(n - 4));
            lemma_parse_elements_truncated::<T>(m, (n - 4) as nat);
        }
    }

    fn max_bytes() -> (r: usize) {
        CONTAINER_MAX_BYTES
    }

    fn to_bytes(&self, writer: &mut BytesWriter<'_>) -> (r: Result<(), ToFromByteError>) {
        let ghost ms = self.model();
        let ghost w0 = *writer;
        let len = self.len();
        if len > u32::MAX as usize {
            return Err(ToFromByteError::InvalidValue);
        }
        proof {
            lemma_pow256_values();
            lemma_concat_prefix_len::<T>(ms, 0);
        }
        write_uint(writer, len as u128, 4)?;
        assert(ms.take(0) =~= Seq::<T::Model>::empty());
        let mut i: usize = 0;
        while i < len
            invariant
                i <= len == self@.len() == ms.len() <= u32::MAX,
                ms == self.model(),
                w0 == *old(writer),
                w0.wf(),
                forall|k: int| 0 <= k < i ==> T::encodable(#[trigger] ms[k]),
                writer.wf(),
                writer.data@.len() == w0.data@.len(),
                final(writer.data)@ == final(w0.data)@,
                writer.pos == w0.pos + 4 + concat_encodings::<T>(ms.take(i as int)).len(),
                writer.data@ == overwrite(
                    w0.data@,
                    w0.pos as int,
                    be_bytes(len as nat, 4) + concat_encodings::<T>(ms.take(i as int)),
                ),
            decreases len - i,
        {
            proof {
                lemma_concat_step::<T>(ms, i as int);
                lemma_concat_prefix_len::<T>(ms, i + 1);
            }
            assert(self@[i as int].model() == ms[i as int]);
            assert(be_bytes(len as nat, 4).len() == 4);
            self[i].to_bytes(writer)?;
            proof {
                lemma_overwrite_twice(
                    w0.data@,
                    w0.pos as int,
                    be_bytes(len as nat, 4) + concat_encodings::<T>(ms.take(i as int)),
                    T::encoding(ms[i as int]),
                );
                assert(be_bytes(len as nat, 4) + concat_encodings::<T>(ms.take(i as int))
                    + T::encoding(ms[i as int]) =~= be_bytes(len as nat, 4) + concat_encodings::<T>(
                    ms.take(i + 1),
                ));
            }
            i = i + 1;
        }
        proof {
            assert(ms.take(i as int) =~= ms);
        }
        Ok(())
    }

    fn from_bytes(reader: &mut BytesReader<'a>) -> (r: Result<(Vec<T>, usize), ToFromByteError>) {
        let ghost start = reader.remaining();
        let start_pos = reader.pos;
        let count = read_uint(reader, 4)?;
        proof {
            lemma_pow256_values();
            lemma_be_value_bound(start.take(4));
        }
        let count = count as usize;
        let ghost body = start.skip(4);
        // The reservation is bounded by the bytes that remain, so that a forged count
        // cannot force a large allocation.
        let room = reader.data.len() - reader.pos;
        let mut value: Vec<T> = Vec::with_capacity(if count < room {
            count
        } else {
            room
        });
        let mut i: usize = 0;
        assert(value@.map_values(|v: T| v.model()) =~= Seq::<T::Model>::empty());
        while i < count
            invariant
                i <= count,
                count as nat == be_value(start.take(4)),
                body == start.skip(4),
                start == old(reader).remaining(),
                start_pos == old(reader).pos,
                reader.data == old(reader).data,
                reader.wf(),
                start_pos + 4 <= reader.pos,
                reader.remaining() == body.skip(reader.pos - start_pos - 4),
                parse_elements::<T>(body, i as nat) == Ok::<(Seq<T::Model>, nat), ToFromByteError>(
                    (value@.map_values(|v: T| v.model()), (reader.pos - start_pos - 4) as nat),
                ),
            decreases count - i,
        {
            let ghost before_elements = value@.map_values(|v: T| v.model());
            match T::from_bytes(reader) {
                Ok((v, _)) => {
                    value.push(v);
                    proof {
                        assert(value@.map_values(|v: T| v.model()) =~= before_elements.push(
                            v.model(),
                        ));
                        assert(reader.remaining() =~= body.skip(reader.pos - start_pos - 4));
                    }
                },
                Err(e) => {
                    proof {
                        lemma_parse_elements_err::<T>(body, (i + 1) as nat, count as nat);
                    }
                    reader.pos = start_pos;
                    return Err(e);
                },
            }
            i = i + 1;
        }
        Ok((value, reader.pos))
    }

    fn byte_count(&self) -> (r: usize) {
        let ghost ms = self.model();
        let mut total: usize = 4;
        let mut i: usize = 0;
        assert(ms.take(0) =~= Seq::<T::Model>::empty());
        while i < self.len()
            invariant
                i <= self@.len() == ms.len(),
                ms == self.model(),
                total == size_or_max(4 + concat_encodings::<T>(ms.take(i as int)).len()),
            decreases self@.len() - i,
        {
            proof {
                lemma_concat_step::<T>(ms, i as int);
            }
            let item = self[i].byte_count();
            total = if total > usize::MAX - item {
                usize::MAX
            } else {
                total + item
            };
            i = i + 1;
        }
        proof {
            assert(ms.take(i as int) =~= ms);
            assert(be_bytes(ms.len(), 4).len() == 4);
        }
        total
    }
}

} // verus!
