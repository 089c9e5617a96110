use vstd::prelude::*;

use crate::codec::{add_sizes, encode_outcome, ToFromBytes};
use crate::error::ToFromByteError;
use crate::reader::BytesReader;
use crate::sequences::CONTAINER_MAX_BYTES;
use crate::writer::{lemma_overwrite_twice, BytesWriter};

verus! {

/// Writes the wire value of the tuple `(x0,)`.
fn write_tuple1<'a, T0: ToFromBytes<'a>>(
    x0: &T0,
    writer: &mut BytesWriter<'_>,
) -> (r: Result<(), ToFromByteError>)
    requires
        old(writer).wf(),
    ensures
        final(final(writer).data)@ == final(old(writer).data)@,
        encode_outcome(
            *old(writer),
            *final(writer),
            <(T0,) as ToFromBytes<'a>>::encodable((x0.model(),)),
            <(T0,) as ToFromBytes<'a>>::encoding((x0.model(),)),
            r,
        ),
{
    x0.to_bytes(writer)
}

/// 1-tuples: the element's encoding.
impl<'a, T0: ToFromBytes<'a>> ToFromBytes<'a> for (T0,) {
    type Model = (T0::Model,);

    open spec fn model(&self) -> (T0::Model,) {
        (self.0.model(),)
    }

    open spec fn spec_max_bytes() -> usize {
        CONTAINER_MAX_BYTES
    }

    open spec fn encodable(m: (T0::Model,)) -> bool {
        T0::encodable(m.0)
    }

    open spec fn encoding(m: (T0::Model,)) -> Seq<u8> {
        T0::encoding(m.0)
    }

    open spec fn parse(data: Seq<u8>) -> Result<((T0::Model,), nat), ToFromByteError> {
        match T0::parse(data) {
            Ok((v0, n0)) => Ok(((v0,), n0)),
            Err(e) => Err(e),
        }
    }

    proof fn lemma_max_bytes_bounded() {
    }

    proof fn lemma_encoding_nonempty(m: (T0::Model,)) {
        T0::lemma_encoding_nonempty(m.0);
    }

    proof fn lemma_unencodable_is_large(m: (T0::Model,)) {
        T0::lemma_unencodable_is_large(m.0);
    }

    proof fn lemma_parse_encoding(m: (T0::Model,), rest: Seq<u8>) {
        T0::lemma_parse_encoding(m.0, rest);
    }

    proof fn lemma_parse_truncated(m: (T0::Model,), n: nat) {
        T0::lemma_parse_truncated(m.0, n);
    }

    fn max_bytes() -> (r: usize) {
        CONTAINER_MAX_BYTES
    }

    fn to_bytes(&self, writer: &mut BytesWriter<'_>) -> (r: Result<(), ToFromByteError>) {
        write_tuple1(&self.0, writer)
    }

    fn from_bytes(reader: &mut BytesReader<'a>) -> (r: Result<((T0,), usize), ToFromByteError>) {
        let (v0, _) = T0::from_bytes(reader)?;
        Ok(((v0,), reader.pos))
    }

    fn byte_count(&self) -> (r: usize) {
        self.0.byte_count()
    }
}

/// Writes the wire value of the tuple `(x0, x1)`.
fn write_tuple2<'a, T0: ToFromBytes<'a>, T1: ToFromBytes<'a>>(
    x0: &T0, x1: &T1,
    writer: &mut BytesWriter<'_>,
) -> (r: Result<(), ToFromByteError>)
    requires
        old(writer).wf(),
    ensures
        final(final(writer).data)@ == final(old(writer).data)@,
        encode_outcome(
            *old(writer),
            *final(writer),
            <(T0, T1) as ToFromBytes<'a>>::encodable((x0.model(), x1.model())),
            <(T0, T1) as ToFromBytes<'a>>::encoding((x0.model(), x1.model())),
            r,
        ),
{
    let ghost w0 = *writer;
    x0.to_bytes(writer)?;
    let r = write_tuple1(x1, writer);
    proof {
        if r is Ok {
            lemma_overwrite_twice(
                w0.data@,
                w0.pos as int,
                T0::encoding(x0.model()),
                <(T1,) as ToFromBytes<'a>>::encoding((x1.model(),)),
            );
        }
    }
    r
}

/// 2-tuples: the first element's encoding, then the encoding of the other 1 as a tuple.
impl<'a, T0: ToFromBytes<'a>, T1: ToFromBytes<'a>> ToFromBytes<'a> for (T0, T1) {
    type Model = (T0::Model, T1::Model);

    open spec fn model(&self) -> (T0::Model, T1::Model) {
        (self.0.model(), self.1.model())
    }

    open spec fn spec_max_bytes() -> usize {
        CONTAINER_MAX_BYTES
    }

    open spec fn encodable(m: (T0::Model, T1::Model)) -> bool {
        T0::encodable(m.0) && <(T1,) as ToFromBytes<'a>>::encodable((m.1,))
    }

    open spec fn encoding(m: (T0::Model, T1::Model)) -> Seq<u8> {
        T0::encoding(m.0) + <(T1,) as ToFromBytes<'a>>::encoding((m.1,))
    }

    open spec fn parse(data: Seq<u8>) -> Result<((T0::Model, T1::Model), nat), ToFromByteError> {
        match T0::parse(data) {
            Ok((v0, n0)) => match <(T1,) as ToFromBytes<'a>>::parse(data.skip(n0 as int)) {
                Ok((t, n)) => Ok(((v0, t.0), n0 + n)),
                Err(e) => Err(e),
            },
            Err(e) => Err(e),
        }
    }

    proof fn lemma_max_bytes_bounded() {
    }

    proof fn lemma_encoding_nonempty(m: (T0::Model, T1::Model)) {
        T0::lemma_encoding_nonempty(m.0);
    }

    proof fn lemma_unencodable_is_large(m: (T0::Model, T1::Model)) {
        if !T0::encodable(m.0) {
            T0::lemma_unencodable_is_large(m.0);
        } else {
            <(T1,) as ToFromBytes<'a>>::lemma_unencodable_is_large((m.1,));
        }
    }

    proof fn lemma_parse_encoding(m: (T0::Model, T1::Model), rest: Seq<u8>) {
        let head = T0::encoding(m.0);
        let tail = <(T1,) as ToFromBytes<'a>>::encoding((m.1,));
        assert(Self::encoding(m) + rest =~= head + (tail + rest));
        T0::lemma_parse_encoding(m.0, tail + rest);
        assert((head + (tail + rest)).skip(head.len() as int) =~= tail + rest);
        <(T1,) as ToFromBytes<'a>>::lemma_parse_encoding((m.1,), rest);
    }

    proof fn lemma_parse_truncated(m: (T0::Model, T1::Model), n: nat) {
        let head = T0::encoding(m.0);
        let tail = <(T1,) as ToFromBytes<'a>>::encoding((m.1,));
        let data = Self::encoding(m).take(n as int);
        if n < head.len() {
            assert(data =~= head.take(n as int));
            T0::lemma_parse_truncated(m.0, n);
        } else {
            let j = (n - head.len()) as nat;
            assert(data =~= head + tail.take(j as int));
            T0::lemma_parse_encoding(m.0, tail.take(j as int));
            assert(data.skip(head.len() as int) =~= tail.take(j as int));
            <(T1,) as ToFromBytes<'a>>::lemma_parse_truncated((m.1,), j);
        }
    }

    fn max_bytes() -> (r: usize) {
        CONTAINER_MAX_BYTES
    }

    fn to_bytes(&self, writer: &mut BytesWriter<'_>) -> (r: Result<(), ToFromByteError>) {
        write_tuple2(&self.0, &self.1, writer)
    }

    fn from_bytes(reader: &mut BytesReader<'a>) -> (r: Result<((T0, T1), usize), ToFromByteError>) {
        let start_pos = reader.pos;
        let ghost start = reader.remaining();
        let (v0, _) = T0::from_bytes(reader)?;
        assert(reader.remaining() =~= start.skip(reader.pos - start_pos));
        match <(T1,) as ToFromBytes<'a>>::from_bytes(reader) {
            Ok(((v1,), pos)) => Ok(((v0, v1), pos)),
            Err(e) => {
                reader.pos = start_pos;
                Err(e)
            },
        }
    }

    fn byte_count(&self) -> (r: usize) {
        let total = self.0.byte_count();
        let total = add_sizes(
            total,
            self.1.byte_count(),
            Ghost(T0::encoding(self.0.model()).len()),
            Ghost(T1::encoding(self.1.model()).len()),
        );
        total
    }
}

/// Writes the wire value of the tuple `(x0, x1, x2)`.
fn write_tuple3<'a, T0: ToFromBytes<'a>, T1: ToFromBytes<'a>, T2: ToFromBytes<'a>>(
    x0: &T0, x1: &T1, x2: &T2,
    writer: &mut BytesWriter<'_>,
) -> (r: Result<(), ToFromByteError>)
    requires
        old(writer).wf(),
    ensures
        final(final(writer).data)@ == final(old(writer).data)@,
        encode_outcome(
            *old(writer),
            *final(writer),
            <(T0, T1, T2) as ToFromBytes<'a>>::encodable((x0.model(), x1.model(), x2.model())),
            <(T0, T1, T2) as ToFromBytes<'a>>::encoding((x0.model(), x1.model(), x2.model())),
            r,
        ),
{
    let ghost w0 = *writer;
    x0.to_bytes(writer)?;
    let r = write_tuple2(x1, x2, writer);
    proof {
        if r is Ok {
            lemma_overwrite_twice(
                w0.data@,
                w0.pos as int,
                T0::encoding(x0.model()),
                <(T1, T2) as ToFromBytes<'a>>::encoding((x1.model(), x2.model())),
            );
        }
    }
    r
}

/// 3-tuples: the first element's encoding, then the encoding of the other 2 as a tuple.
impl<'a, T0: ToFromBytes<'a>, T1: ToFromBytes<'a>, T2: ToFromBytes<'a>> ToFromBytes<'a> for (T0, T1, T2) {
    type Model = (T0::Model, T1::Model, T2::Model);

    open spec fn model(&self) -> (T0::Model, T1::Model, T2::Model) {
        (self.0.model(), self.1.model(), self.2.model())
    }

    open spec fn spec_max_bytes() -> usize {
        CONTAINER_MAX_BYTES
    }

    open spec fn encodable(m: (T0::Model, T1::Model, T2::Model)) -> bool {
        T0::encodable(m.0) && <(T1, T2) as ToFromBytes<'a>>::encodable((m.1, m.2))
    }

    open spec fn encoding(m: (T0::Model, T1::Model, T2::Model)) -> Seq<u8> {
        T0::encoding(m.0) + <(T1, T2) as ToFromBytes<'a>>::encoding((m.1, m.2))
    }

    open spec fn parse(data: Seq<u8>) -> Result<((T0::Model, T1::Model, T2::Model), nat), ToFromByteError> {
        match T0::parse(data) {
            Ok((v0, n0)) => match <(T1, T2) as ToFromBytes<'a>>::parse(data.skip(n0 as int)) {
                Ok((t, n)) => Ok(((v0, t.0, t.1), n0 + n)),
                Err(e) => Err(e),
            },
            Err(e) => Err(e),
        }
    }

    proof fn lemma_max_bytes_bounded() {
    }

    proof fn lemma_encoding_nonempty(m: (T0::Model, T1::Model, T2::Model)) {
        T0::lemma_encoding_nonempty(m.0);
    }

    proof fn lemma_unencodable_is_large(m: (T0::Model, T1::Model, T2::Model)) {
        if !T0::encodable(m.0) {
            T0::lemma_unencodable_is_large(m.0);
        } else {
            <(T1, T2) as ToFromBytes<'a>>::lemma_unencodable_is_large((m.1, m.2));
        }
    }

    proof fn lemma_parse_encoding(m: (T0::Model, T1::Model, T2::Model), rest: Seq<u8>) {
        let head = T0::encoding(m.0);
        let tail = <(T1, T2) as ToFromBytes<'a>>::encoding((m.1, m.2));
        assert(Self::encoding(m) + rest =~= head + (tail + rest));
        T0::lemma_parse_encoding(m.0, tail + rest);
        assert((head + (tail + rest)).skip(head.len() as int) =~= tail + rest);
        <(T1, T2) as ToFromBytes<'a>>::lemma_parse_encoding((m.1, m.2), rest);
    }

    proof fn lemma_parse_truncated(m: (T0::Model, T1::Model, T2::Model), n: nat) {
        let head = T0::encoding(m.0);
        let tail = <(T1, T2) as ToFromBytes<'a>>::encoding((m.1, m.2));
        let data = Self::encoding(m).take(n as int);
        if n < head.len() {
            assert(data =~= head.take(n as int));
            T0::lemma_parse_truncated(m.0, n);
        } else {
            let j = (n - head.len()) as nat;
            assert(data =~= head + tail.take(j as int));
            T0::lemma_parse_encoding(m.0, tail.take(j as int));
            assert(data.skip(head.len() as int) =~= tail.take(j as int));
            <(T1, T2) as ToFromBytes<'a>>::lemma_parse_truncated((m.1, m.2), j);
        }
    }

    fn max_bytes() -> (r: usize) {
        CONTAINER_MAX_BYTES
    }

    fn to_bytes(&self, writer: &mut BytesWriter<'_>) -> (r: Result<(), ToFromByteError>) {
        write_tuple3(&self.0, &self.1, &self.2, writer)
    }

    fn from_bytes(reader: &mut BytesReader<'a>) -> (r: Result<((T0, T1, T2), usize), ToFromByteError>) {
        let start_pos = reader.pos;
        let ghost start = reader.remaining();
        let (v0, _) = T0::from_bytes(reader)?;
        assert(reader.remaining() =~= start.skip(reader.pos - start_pos));
        match <(T1, T2) as ToFromBytes<'a>>::from_bytes(reader) {
            Ok(((v1, v2), pos)) => Ok(((v0, v1, v2), pos)),
            Err(e) => {
                reader.pos = start_pos;
                Err(e)
            },
        }
    }

    fn byte_count(&self) -> (r: usize) {
        let total = self.0.byte_count();
        let total = add_sizes(
            total,
            self.1.byte_count(),
            Ghost(T0::encoding(self.0.model()).len()),
            Ghost(T1::encoding(self.1.model()).len()),
        );
        let total = add_sizes(
            total,
            self.2.byte_count(),
            Ghost(T0::encoding(self.0.model()).len() + T1::encoding(self.1.model()).len()),
            Ghost(T2::encoding(self.2.model()).len()),
        );
        total
    }
}

/// Writes the wire value of the tuple `(x0, x1, x2, x3)`.
fn write_tuple4<'a, T0: ToFromBytes<'a>, T1: ToFromBytes<'a>, T2: ToFromBytes<'a>, T3: ToFromBytes<'a>>(
    x0: &T0, x1: &T1, x2: &T2, x3: &T3,
    writer: &mut BytesWriter<'_>,
) -> (r: Result<(), ToFromByteError>)
    requires
        old(writer).wf(),
    ensures
        final(final(writer).data)@ == final(old(writer).data)@,
        encode_outcome(
            *old(writer),
            *final(writer),
            <(T0, T1, T2, T3) as ToFromBytes<'a>>::encodable((x0.model(), x1.model(), x2.model(), x3.model())),
            <(T0, T1, T2, T3) as ToFromBytes<'a>>::encoding((x0.model(), x1.model(), x2.model(), x3.model())),
            r,
        ),
{
    let ghost w0 = *writer;
    x0.to_bytes(writer)?;
    let r = write_tuple3(x1, x2, x3, writer);
    proof {
        if r is Ok {
            lemma_overwrite_twice(
                w0.data@,
                w0.pos as int,
                T0::encoding(x0.model()),
                <(T1, T2, T3) as ToFromBytes<'a>>::encoding((x1.model(), x2.model(), x3.model())),
            );
        }
    }
    r
}

/// 4-tuples: the first element's encoding, then the encoding of the other 3 as a tuple.
impl<'a, T0: ToFromBytes<'a>, T1: ToFromBytes<'a>, T2: ToFromBytes<'a>, T3: ToFromBytes<'a>> ToFromBytes<'a> for (T0, T1, T2, T3) {
    type Model = (T0::Model, T1::Model, T2::Model, T3::Model);

    open spec fn model(&self) -> (T0::Model, T1::Model, T2::Model, T3::Model) {
        (self.0.model(), self.1.model(), self.2.model(), self.3.model())
    }

    open spec fn spec_max_bytes() -> usize {
        CONTAINER_MAX_BYTES
    }

    open spec fn encodable(m: (T0::Model, T1::Model, T2::Model, T3::Model)) -> bool {
        T0::encodable(m.0) && <(T1, T2, T3) as ToFromBytes<'a>>::encodable((m.1, m.2, m.3))
    }

    open spec fn encoding(m: (T0::Model, T1::Model, T2::Model, T3::Model)) -> Seq<u8> {
        T0::encoding(m.0) + <(T1, T2, T3) as ToFromBytes<'a>>::encoding((m.1, m.2, m.3))
    }

    open spec fn parse(data: Seq<u8>) -> Result<((T0::Model, T1::Model, T2::Model, T3::Model), nat), ToFromByteError> {
        match T0::parse(data) {
            Ok((v0, n0)) => match <(T1, T2, T3) as ToFromBytes<'a>>::parse(data.skip(n0 as int)) {
                Ok((t, n)) => Ok(((v0, t.0, t.1, t.2), n0 + n)),
                Err(e) => Err(e),
            },
            Err(e) => Err(e),
        }
    }

    proof fn lemma_max_bytes_bounded() {
    }

    proof fn lemma_encoding_nonempty(m: (T0::Model, T1::Model, T2::Model, T3::Model)) {
        T0::lemma_encoding_nonempty(m.0);
    }

    proof fn lemma_unencodable_is_large(m: (T0::Model, T1::Model, T2::Model, T3::Model)) {
        if !T0::encodable(m.0) {
            T0::lemma_unencodable_is_large(m.0);
        } else {
            <(T1, T2, T3) as ToFromBytes<'a>>::lemma_unencodable_is_large((m.1, m.2, m.3));
        }
    }

    proof fn lemma_parse_encoding(m: (T0::Model, T1::Model, T2::Model, T3::Model), rest: Seq<u8>) {
        let head = T0::encoding(m.0);
        let tail = <(T1, T2, T3) as ToFromBytes<'a>>::encoding((m.1, m.2, m.3));
        assert(Self::encoding(m) + rest =~= head + (tail + rest));
        T0::lemma_parse_encoding(m.0, tail + rest);
        assert((head + (tail + rest)).skip(head.len() as int) =~= tail + rest);
        <(T1, T2, T3) as ToFromBytes<'a>>::lemma_parse_encoding((m.1, m.2, m.3), rest);
    }

    proof fn lemma_parse_truncated(m: (T0::Model, T1::Model, T2::Model, T3::Model), n: nat) {
        let head = T0::encoding(m.0);
        let tail = <(T1, T2, T3) as ToFromBytes<'a>>::encoding((m.1, m.2, m.3));
        let data = Self::encoding(m).take(n as int);
        if n < head.len() {
            assert(data =~= head.take(n as int));
            T0::lemma_parse_truncated(m.0, n);
        } else {
            let j = (n - head.len()) as nat;
            assert(data =~= head + tail.take(j as int));
            T0::lemma_parse_encoding(m.0, tail.take(j as int));
            assert(data.skip(head.len() as int) =~= tail.take(j as int));
            <(T1, T2, T3) as ToFromBytes<'a>>::lemma_parse_truncated((m.1, m.2, m.3), j);
        }
    }

    fn max_bytes() -> (r: usize) {
        CONTAINER_MAX_BYTES
    }

    fn to_bytes(&self, writer: &mut BytesWriter<'_>) -> (r: Result<(), ToFromByteError>) {
        write_tuple4(&self.0, &self.1, &self.2, &self.3, writer)
    }

    fn from_bytes(reader: &mut BytesReader<'a>) -> (r: Result<((T0, T1, T2, T3), usize), ToFromByteError>) {
        let start_pos = reader.pos;
        let ghost start = reader.remaining();
        let (v0, _) = T0::from_bytes(reader)?;
        assert(reader.remaining() =~= start.skip(reader.pos - start_pos));
        match <(T1, T2, T3) as ToFromBytes<'a>>::from_bytes(reader) {
            Ok(((v1, v2, v3), pos)) => Ok(((v0, v1, v2, v3), pos)),
            Err(e) => {
                reader.pos = start_pos;
                Err(e)
            },
        }
    }

    fn byte_count(&self) -> (r: usize) {
        let total = self.0.byte_count();
        let total = add_sizes(
            total,
            self.1.byte_count(),
            Ghost(T0::encoding(self.0.model()).len()),
            Ghost(T1::encoding(self.1.model()).len()),
        );
        let total = add_sizes(
            total,
            self.2.byte_count(),
            Ghost(T0::encoding(self.0.model()).len() + T1::encoding(self.1.model()).len()),
            Ghost(T2::encoding(self.2.model()).len()),
        );
        let total = add_sizes(
            total,
            self.3.byte_count(),
            Ghost(T0::encoding(self.0.model()).len() + T1::encoding(self.1.model()).len() + T2::encoding(self.2.model()).len()),
            Ghost(T3::encoding(self.3.model()).len()),
        );
        total
    }
}

/// Writes the wire value of the tuple `(x0, x1, x2, x3, x4)`.
fn write_tuple5<'a, T0: ToFromBytes<'a>, T1: ToFromBytes<'a>, T2: ToFromBytes<'a>, T3: ToFromBytes<'a>, T4: ToFromBytes<'a>>(
    x0: &T0, x1: &T1, x2: &T2, x3: &T3, x4: &T4,
    writer: &mut BytesWriter<'_>,
) -> (r: Result<(), ToFromByteError>)
    requires
        old(writer).wf(),
    ensures
        final(final(writer).data)@ == final(old(writer).data)@,
        encode_outcome(
            *old(writer),
            *final(writer),
            <(T0, T1, T2, T3, T4) as ToFromBytes<'a>>::encodable((x0.model(), x1.model(), x2.model(), x3.model(), x4.model())),
            <(T0, T1, T2, T3, T4) as ToFromBytes<'a>>::encoding((x0.model(), x1.model(), x2.model(), x3.model(), x4.model())),
            r,
        ),
{
    let ghost w0 = *writer;
    x0.to_bytes(writer)?;
    let r = write_tuple4(x1, x2, x3, x4, writer);
    proof {
        if r is Ok {
            lemma_overwrite_twice(
                w0.data@,
                w0.pos as int,
                T0::encoding(x0.model()),
                <(T1, T2, T3, T4) as ToFromBytes<'a>>::encoding((x1.model(), x2.model(), x3.model(), x4.model())),
            );
        }
    }
    r
}

/// 5-tuples: the first element's encoding, then the encoding of the other 4 as a tuple.
impl<'a, T0: ToFromBytes<'a>, T1: ToFromBytes<'a>, T2: ToFromBytes<'a>, T3: ToFromBytes<'a>, T4: ToFromBytes<'a>> ToFromBytes<'a> for (T0, T1, T2, T3, T4) {
    type Model = (T0::Model, T1::Model, T2::Model, T3::Model, T4::Model);

    open spec fn model(&self) -> (T0::Model, T1::Model, T2::Model, T3::Model, T4::Model) {
        (self.0.model(), self.1.model(), self.2.model(), self.3.model(), self.4.model())
    }

    open spec fn spec_max_bytes() -> usize {
        CONTAINER_MAX_BYTES
    }

    open spec fn encodable(m: (T0::Model, T1::Model, T2::Model, T3::Model, T4::Model)) -> bool {
        T0::encodable(m.0) && <(T1, T2, T3, T4) as ToFromBytes<'a>>::encodable((m.1, m.2, m.3, m.4))
    }

    open spec fn encoding(m: (T0::Model, T1::Model, T2::Model, T3::Model, T4::Model)) -> Seq<u8> {
        T0::encoding(m.0) + <(T1, T2, T3, T4) as ToFromBytes<'a>>::encoding((m.1, m.2, m.3, m.4))
    }

    open spec fn parse(data: Seq<u8>) -> Result<((T0::Model, T1::Model, T2::Model, T3::Model, T4::Model), nat), ToFromByteError> {
        match T0::parse(data) {
            Ok((v0, n0)) => match <(T1, T2, T3, T4) as ToFromBytes<'a>>::parse(data.skip(n0 as int)) {
                Ok((t, n)) => Ok(((v0, t.0, t.1, t.2, t.3), n0 + n)),
                Err(e) => Err(e),
            },
            Err(e) => Err(e),
        }
    }

    proof fn lemma_max_bytes_bounded() {
    }

    proof fn lemma_encoding_nonempty(m: (T0::Model, T1::Model, T2::Model, T3::Model, T4::Model)) {
        T0::lemma_encoding_nonempty(m.0);
    }

    proof fn lemma_unencodable_is_large(m: (T0::Model, T1::Model, T2::Model, T3::Model, T4::Model)) {
        if !T0::encodable(m.0) {
            T0::lemma_unencodable_is_large(m.0);
        } else {
            <(T1, T2, T3, T4) as ToFromBytes<'a>>::lemma_unencodable_is_large((m.1, m.2, m.3, m.4));
        }
    }

    proof fn lemma_parse_encoding(m: (T0::Model, T1::Model, T2::Model, T3::Model, T4::Model), rest: Seq<u8>) {
        let head = T0::encoding(m.0);
        let tail = <(T1, T2, T3, T4) as ToFromBytes<'a>>::encoding((m.1, m.2, m.3, m.4));
        assert(Self::encoding(m) + rest =~= head + (tail + rest));
        T0::lemma_parse_encoding(m.0, tail + rest);
        assert((head + (tail + rest)).skip(head.len() as int) =~= tail + rest);
        <(T1, T2, T3, T4) as ToFromBytes<'a>>::lemma_parse_encoding((m.1, m.2, m.3, m.4), rest);
    }

    proof fn lemma_parse_truncated(m: (T0::Model, T1::Model, T2::Model, T3::Model, T4::Model), n: nat) {
        let head = T0::encoding(m.0);
        let tail = <(T1, T2, T3, T4) as ToFromBytes<'a>>::encoding((m.1, m.2, m.3, m.4));
        let data = Self::encoding(m).take(n as int);
        if n < head.len() {
            assert(data =~= head.take(n as int));
            T0::lemma_parse_truncated(m.0, n);
        } else {
            let j = (n - head.len()) as nat;
            assert(data =~= head + tail.take(j as int));
            T0::lemma_parse_encoding(m.0, tail.take(j as int));
            assert(data.skip(head.len() as int) =~= tail.take(j as int));
            <(T1, T2, T3, T4) as ToFromBytes<'a>>::lemma_parse_truncated((m.1, m.2, m.3, m.4), j);
        }
    }

    fn max_bytes() -> (r: usize) {
        CONTAINER_MAX_BYTES
    }

    fn to_bytes(&self, writer: &mut BytesWriter<'_>) -> (r: Result<(), ToFromByteError>) {
        write_tuple5(&self.0, &self.1, &self.2, &self.3, &self.4, writer)
    }

    fn from_bytes(reader: &mut BytesReader<'a>) -> (r: Result<((T0, T1, T2, T3, T4), usize), ToFromByteError>) {
        let start_pos = reader.pos;
        let ghost start = reader.remaining();
        let (v0, _) = T0::from_bytes(reader)?;
        assert(reader.remaining() =~= start.skip(reader.pos - start_pos));
        match <(T1, T2, T3, T4) as ToFromBytes<'a>>::from_bytes(reader) {
            Ok(((v1, v2, v3, v4), pos)) => Ok(((v0, v1, v2, v3, v4), pos)),
            Err(e) => {
                reader.pos = start_pos;
                Err(e)
            },
        }
    }

    fn byte_count(&self) -> (r: usize) {
        let total = self.0.byte_count();
        let total = add_sizes(
            total,
            self.1.byte_count(),
            Ghost(T0::encoding(self.0.model()).len()),
            Ghost(T1::encoding(self.1.model()).len()),
        );
        let total = add_sizes(
            total,
            self.2.byte_count(),
            Ghost(T0::encoding(self.0.model()).len() + T1::encoding(self.1.model()).len()),
            Ghost(T2::encoding(self.2.model()).len()),
        );
        let total = add_sizes(
            total,
            self.3.byte_count(),
            Ghost(T0::encoding(self.0.model()).len() + T1::encoding(self.1.model()).len() + T2::encoding(self.2.model()).len()),
            Ghost(T3::encoding(self.3.model()).len()),
        );
        let total = add_sizes(
            total,
            self.4.byte_count(),
            Ghost(T0::encoding(self.0.model()).len() + T1::encoding(self.1.model()).len() + T2::encoding(self.2.model()).len() + T3::encoding(self.3.model()).len()),
            Ghost(T4::encoding(self.4.model()).len()),
        );
        total
    }
}

/// Writes the wire value of the tuple `(x0, x1, x2, x3, x4, x5)`.
fn write_tuple6<'a, T0: ToFromBytes<'a>, T1: ToFromBytes<'a>, T2: ToFromBytes<'a>, T3: ToFromBytes<'a>, T4: ToFromBytes<'a>, T5: ToFromBytes<'a>>(
    x0: &T0, x1: &T1, x2: &T2, x3: &T3, x4: &T4, x5: &T5,
    writer: &mut BytesWriter<'_>,
) -> (r: Result<(), ToFromByteError>)
    requires
        old(writer).wf(),
    ensures
        final(final(writer).data)@ == final(old(writer).data)@,
        encode_outcome(
            *old(writer),
            *final(writer),
            <(T0, T1, T2, T3, T4, T5) as ToFromBytes<'a>>::encodable((x0.model(), x1.model(), x2.model(), x3.model(), x4.model(), x5.model())),
            <(T0, T1, T2, T3, T4, T5) as ToFromBytes<'a>>::encoding((x0.model(), x1.model(), x2.model(), x3.model(), x4.model(), x5.model())),
            r,
        ),
{
    let ghost w0 = *writer;
    x0.to_bytes(writer)?;
    let r = write_tuple5(x1, x2, x3, x4, x5, writer);
    proof {
        if r is Ok {
            lemma_overwrite_twice(
                w0.data@,
                w0.pos as int,
                T0::encoding(x0.model()),
                <(T1, T2, T3, T4, T5) as ToFromBytes<'a>>::encoding((x1.model(), x2.model(), x3.model(), x4.model(), x5.model())),
            );
        }
    }
    r
}

/// 6-tuples: the first element's encoding, then the encoding of the other 5 as a tuple.
impl<'a, T0: ToFromBytes<'a>, T1: ToFromBytes<'a>, T2: ToFromBytes<'a>, T3: ToFromBytes<'a>, T4: ToFromBytes<'a>, T5: ToFromBytes<'a>> ToFromBytes<'a> for (T0, T1, T2, T3, T4, T5) {
    type Model = (T0::Model, T1::Model, T2::Model, T3::Model, T4::Model, T5::Model);

    open spec fn model(&self) -> (T0::Model, T1::Model, T2::Model, T3::Model, T4::Model, T5::Model) {
        (self.0.model(), self.1.model(), self.2.model(), self.3.model(), self.4.model(), self.5.model())
    }

    open spec fn spec_max_bytes() -> usize {
        CONTAINER_MAX_BYTES
    }

    open spec fn encodable(m: (T0::Model, T1::Model, T2::Model, T3::Model, T4::Model, T5::Model)) -> bool {
        T0::encodable(m.0) && <(T1, T2, T3, T4, T5) as ToFromBytes<'a>>::encodable((m.1, m.2, m.3, m.4, m.5))
    }

    open spec fn encoding(m: (T0::Model, T1::Model, T2::Model, T3::Model, T4::Model, T5::Model)) -> Seq<u8> {
        T0::encoding(m.0) + <(T1, T2, T3, T4, T5) as ToFromBytes<'a>>::encoding((m.1, m.2, m.3, m.4, m.5))
    }

    open spec fn parse(data: Seq<u8>) -> Result<((T0::Model, T1::Model, T2::Model, T3::Model, T4::Model, T5::Model), nat), ToFromByteError> {
        match T0::parse(data) {
            Ok((v0, n0)) => match <(T1, T2, T3, T4, T5) as ToFromBytes<'a>>::parse(data.skip(n0 as int)) {
                Ok((t, n)) => Ok(((v0, t.0, t.1, t.2, t.3, t.4), n0 + n)),
                Err(e) => Err(e),
            },
            Err(e) => Err(e),
        }
    }

    proof fn lemma_max_bytes_bounded() {
    }

    proof fn lemma_encoding_nonempty(m: (T0::Model, T1::Model, T2::Model, T3::Model, T4::Model, T5::Model)) {
        T0::lemma_encoding_nonempty(m.0);
    }

    proof fn lemma_unencodable_is_large(m: (T0::Model, T1::Model, T2::Model, T3::Model, T4::Model, T5::Model)) {
        if !T0::encodable(m.0) {
            T0::lemma_unencodable_is_large(m.0);
        } else {
            <(T1, T2, T3, T4, T5) as ToFromBytes<'a>>::lemma_unencodable_is_large((m.1, m.2, m.3, m.4, m.5));
        }
    }

    proof fn lemma_parse_encoding(m: (T0::Model, T1::Model, T2::Model, T3::Model, T4::Model, T5::Model), rest: Seq<u8>) {
        let head = T0::encoding(m.0);
        let tail = <(T1, T2, T3, T4, T5) as ToFromBytes<'a>>::encoding((m.1, m.2, m.3, m.4, m.5));
        assert(Self::encoding(m) + rest =~= head + (tail + rest));
        T0::lemma_parse_encoding(m.0, tail + rest);
        assert((head + (tail + rest)).skip(head.len() as int) =~= tail + rest);
        <(T1, T2, T3, T4, T5) as ToFromBytes<'a>>::lemma_parse_encoding((m.1, m.2, m.3, m.4, m.5), rest);
    }

    proof fn lemma_parse_truncated(m: (T0::Model, T1::Model, T2::Model, T3::Model, T4::Model, T5::Model), n: nat) {
        let head = T0::encoding(m.0);
        let tail = <(T1, T2, T3, T4, T5) as ToFromBytes<'a>>::encoding((m.1, m.2, m.3, m.4, m.5));
        let data = Self::encoding(m).take(n as int);
        if n < head.len() {
            assert(data =~= head.take(n as int));
            T0::lemma_parse_truncated(m.0, n);
        } else {
            let j = (n - head.len()) as nat;
            assert(data =~= head + tail.take(j as int));
            T0::lemma_parse_encoding(m.0, tail.take(j as int));
            assert(data.skip(head.len() as int) =~= tail.take(j as int));
            <(T1, T2, T3, T4, T5) as ToFromBytes<'a>>::lemma_parse_truncated((m.1, m.2, m.3, m.4, m.5), j);
        }
    }

    fn max_bytes() -> (r: usize) {
        CONTAINER_MAX_BYTES
    }

    fn to_bytes(&self, writer: &mut BytesWriter<'_>) -> (r: Result<(), ToFromByteError>) {
        write_tuple6(&self.0, &self.1, &self.2, &self.3, &self.4, &self.5, writer)
    }

    fn from_bytes(reader: &mut BytesReader<'a>) -> (r: Result<((T0, T1, T2, T3, T4, T5), usize), ToFromByteError>) {
        let start_pos = reader.pos;
        let ghost start = reader.remaining();
        let (v0, _) = T0::from_bytes(reader)?;
        assert(reader.remaining() =~= start.skip(reader.pos - start_pos));
        match <(T1, T2, T3, T4, T5) as ToFromBytes<'a>>::from_bytes(reader) {
            Ok(((v1, v2, v3, v4, v5), pos)) => Ok(((v0, v1, v2, v3, v4, v5), pos)),
            Err(e) => {
                reader.pos = start_pos;
                Err(e)
            },
        }
    }

    fn byte_count(&self) -> (r: usize) {
        let total = self.0.byte_count();
        let total = add_sizes(
            total,
            self.1.byte_count(),
            Ghost(T0::encoding(self.0.model()).len()),
            Ghost(T1::encoding(self.1.model()).len()),
        );
        let total = add_sizes(
            total,
            self.2.byte_count(),
            Ghost(T0::encoding(self.0.model()).len() + T1::encoding(self.1.model()).len()),
            Ghost(T2::encoding(self.2.model()).len()),
        );
        let total = add_sizes(
            total,
            self.3.byte_count(),
            Ghost(T0::encoding(self.0.model()).len() + T1::encoding(self.1.model()).len() + T2::encoding(self.2.model()).len()),
            Ghost(T3::encoding(self.3.model()).len()),
        );
        let total = add_sizes(
            total,
            self.4.byte_count(),
            Ghost(T0::encoding(self.0.model()).len() + T1::encoding(self.1.model()).len() + T2::encoding(self.2.model()).len() + T3::encoding(self.3.model()).len()),
            Ghost(T4::encoding(self.4.model()).len()),
        );
        let total = add_sizes(
            total,
            self.5.byte_count(),
            Ghost(T0::encoding(self.0.model()).len() + T1::encoding(self.1.model()).len() + T2::encoding(self.2.model()).len() + T3::encoding(self.3.model()).len() + T4::encoding(self.4.model()).len()),
            Ghost(T5::encoding(self.5.model()).len()),
        );
        total
    }
}

/// Writes the wire value of the tuple `(x0, x1, x2, x3, x4, x5, x6)`.
fn write_tuple7<'a, T0: ToFromBytes<'a>, T1: ToFromBytes<'a>, T2: ToFromBytes<'a>, T3: ToFromBytes<'a>, T4: ToFromBytes<'a>, T5: ToFromBytes<'a>, T6: ToFromBytes<'a>>(
    x0: &T0, x1: &T1, x2: &T2, x3: &T3, x4: &T4, x5: &T5, x6: &T6,
    writer: &mut BytesWriter<'_>,
) -> (r: Result<(), ToFromByteError>)
    requires
        old(writer).wf(),
    ensures
        final(final(writer).data)@ == final(old(writer).data)@,
        encode_outcome(
            *old(writer),
            *final(writer),
            <(T0, T1, T2, T3, T4, T5, T6) as ToFromBytes<'a>>::encodable((x0.model(), x1.model(), x2.model(), x3.model(), x4.model(), x5.model(), x6.model())),
            <(T0, T1, T2, T3, T4, T5, T6) as ToFromBytes<'a>>::encoding((x0.model(), x1.model(), x2.model(), x3.model(), x4.model(), x5.model(), x6.model())),
            r,
        ),
{
    let ghost w0 = *writer;
    x0.to_bytes(writer)?;
    let r = write_tuple6(x1, x2, x3, x4, x5, x6, writer);
    proof {
        if r is Ok {
            lemma_overwrite_twice(
                w0.data@,
                w0.pos as int,
                T0::encoding(x0.model()),
                <(T1, T2, T3, T4, T5, T6) as ToFromBytes<'a>>::encoding((x1.model(), x2.model(), x3.model(), x4.model(), x5.model(), x6.model())),
            );
        }
    }
    r
}

/// 7-tuples: the first element's encoding, then the encoding of the other 6 as a tuple.
impl<'a, T0: ToFromBytes<'a>, T1: ToFromBytes<'a>, T2: ToFromBytes<'a>, T3: ToFromBytes<'a>, T4: ToFromBytes<'a>, T5: ToFromBytes<'a>, T6: ToFromBytes<'a>> ToFromBytes<'a> for (T0, T1, T2, T3, T4, T5, T6) {
    type Model = (T0::Model, T1::Model, T2::Model, T3::Model, T4::Model, T5::Model, T6::Model);

    open spec fn model(&self) -> (T0::Model, T1::Model, T2::Model, T3::Model, T4::Model, T5::Model, T6::Model) {
        (self.0.model(), self.1.model(), self.2.model(), self.3.model(), self.4.model(), self.5.model(), self.6.model())
    }

    open spec fn spec_max_bytes() -> usize {
        CONTAINER_MAX_BYTES
    }

    open spec fn encodable(m: (T0::Model, T1::Model, T2::Model, T3::Model, T4::Model, T5::Model, T6::Model)) -> bool {
        T0::encodable(m.0) && <(T1, T2, T3, T4, T5, T6) as ToFromBytes<'a>>::encodable((m.1, m.2, m.3, m.4, m.5, m.6))
    }

    open spec fn encoding(m: (T0::Model, T1::Model, T2::Model, T3::Model, T4::Model, T5::Model, T6::Model)) -> Seq<u8> {
        T0::encoding(m.0) + <(T1, T2, T3, T4, T5, T6) as ToFromBytes<'a>>::encoding((m.1, m.2, m.3, m.4, m.5, m.6))
    }

    open spec fn parse(data: Seq<u8>) -> Result<((T0::Model, T1::Model, T2::Model, T3::Model, T4::Model, T5::Model, T6::Model), nat), ToFromByteError> {
        match T0::parse(data) {
            Ok((v0, n0)) => match <(T1, T2, T3, T4, T5, T6) as ToFromBytes<'a>>::parse(data.skip(n0 as int)) {
                Ok((t, n)) => Ok(((v0, t.0, t.1, t.2, t.3, t.4, t.5), n0 + n)),
                Err(e) => Err(e),
            },
            Err(e) => Err(e),
        }
    }

    proof fn lemma_max_bytes_bounded() {
    }

    proof fn lemma_encoding_nonempty(m: (T0::Model, T1::Model, T2::Model, T3::Model, T4::Model, T5::Model, T6::Model)) {
        T0::lemma_encoding_nonempty(m.0);
    }

    proof fn lemma_unencodable_is_large(m: (T0::Model, T1::Model, T2::Model, T3::Model, T4::Model, T5::Model, T6::Model)) {
        if !T0::encodable(m.0) {
            T0::lemma_unencodable_is_large(m.0);
        } else {
            <(T1, T2, T3, T4, T5, T6) as ToFromBytes<'a>>::lemma_unencodable_is_large((m.1, m.2, m.3, m.4, m.5, m.6));
        }
    }

    proof fn lemma_parse_encoding(m: (T0::Model, T1::Model, T2::Model, T3::Model, T4::Model, T5::Model, T6::Model), rest: Seq<u8>) {
        let head = T0::encoding(m.0);
        let tail = <(T1, T2, T3, T4, T5, T6) as ToFromBytes<'a>>::encoding((m.1, m.2, m.3, m.4, m.5, m.6));
        assert(Self::encoding(m) + rest =~= head + (tail + rest));
        T0::lemma_parse_encoding(m.0, tail + rest);
        assert((head + (tail + rest)).skip(head.len() as int) =~= tail + rest);
        <(T1, T2, T3, T4, T5, T6) as ToFromBytes<'a>>::lemma_parse_encoding((m.1, m.2, m.3, m.4, m.5, m.6), rest);
    }

    proof fn lemma_parse_truncated(m: (T0::Model, T1::Model, T2::Model, T3::Model, T4::Model, T5::Model, T6::Model), n: nat) {
        let head = T0::encoding(m.0);
        let tail = <(T1, T2, T3, T4, T5, T6) as ToFromBytes<'a>>::encoding((m.1, m.2, m.3, m.4, m.5, m.6));
        let data = Self::encoding(m).take(n as int);
        if n < head.len() {
            assert(data =~= head.take(n as int));
            T0::lemma_parse_truncated(m.0, n);
        } else {
            let j = (n - head.len()) as nat;
            assert(data =~= head + tail.take(j as int));
            T0::lemma_parse_encoding(m.0, tail.take(j as int));
            assert(data.skip(head.len() as int) =~= tail.take(j as int));
            <(T1, T2, T3, T4, T5, T6) as ToFromBytes<'a>>::lemma_parse_truncated((m.1, m.2, m.3, m.4, m.5, m.6), j);
        }
    }

    fn max_bytes() -> (r: usize) {
        CONTAINER_MAX_BYTES
    }

    fn to_bytes(&self, writer: &mut BytesWriter<'_>) -> (r: Result<(), ToFromByteError>) {
        write_tuple7(&self.0, &self.1, &self.2, &self.3, &self.4, &self.5, &self.6, writer)
    }

    fn from_bytes(reader: &mut BytesReader<'a>) -> (r: Result<((T0, T1, T2, T3, T4, T5, T6), usize), ToFromByteError>) {
        let start_pos = reader.pos;
        let ghost start = reader.remaining();
        let (v0, _) = T0::from_bytes(reader)?;
        assert(reader.remaining() =~= start.skip(reader.pos - start_pos));
        match <(T1, T2, T3, T4, T5, T6) as ToFromBytes<'a>>::from_bytes(reader) {
            Ok(((v1, v2, v3, v4, v5, v6), pos)) => Ok(((v0, v1, v2, v3, v4, v5, v6), pos)),
            Err(e) => {
                reader.pos = start_pos;
                Err(e)
            },
        }
    }

    fn byte_count(&self) -> (r: usize) {
        let total = self.0.byte_count();
        let total = add_sizes(
            total,
            self.1.byte_count(),
            Ghost(T0::encoding(self.0.model()).len()),
            Ghost(T1::encoding(self.1.model()).len()),
        );
        let total = add_sizes(
            total,
            self.2.byte_count(),
            Ghost(T0::encoding(self.0.model()).len() + T1::encoding(self.1.model()).len()),
            Ghost(T2::encoding(self.2.model()).len()),
        );
        let total = add_sizes(
            total,
            self.3.byte_count(),
            Ghost(T0::encoding(self.0.model()).len() + T1::encoding(self.1.model()).len() + T2::encoding(self.2.model()).len()),
            Ghost(T3::encoding(self.3.model()).len()),
        );
        let total = add_sizes(
            total,
            self.4.byte_count(),
            Ghost(T0::encoding(self.0.model()).len() + T1::encoding(self.1.model()).len() + T2::encoding(self.2.model()).len() + T3::encoding(self.3.model()).len()),
            Ghost(T4::encoding(self.4.model()).len()),
        );
        let total = add_sizes(
            total,
            self.5.byte_count(),
            Ghost(T0::encoding(self.0.model()).len() + T1::encoding(self.1.model()).len() + T2::encoding(self.2.model()).len() + T3::encoding(self.3.model()).len() + T4::encoding(self.4.model()).len()),
            Ghost(T5::encoding(self.5.model()).len()),
        );
        let total = add_sizes(
            total,
            self.6.byte_count(),
            Ghost(T0::encoding(self.0.model()).len() + T1::encoding(self.1.model()).len() + T2::encoding(self.2.model()).len() + T3::encoding(self.3.model()).len() + T4::encoding(self.4.model()).len() + T5::encoding(self.5.model()).len()),
            Ghost(T6::encoding(self.6.model()).len()),
        );
        total
    }
}

/// Writes the wire value of the tuple `(x0, x1, x2, x3, x4, x5, x6, x7)`.
fn write_tuple8<'a, T0: ToFromBytes<'a>, T1: ToFromBytes<'a>, T2: ToFromBytes<'a>, T3: ToFromBytes<'a>, T4: ToFromBytes<'a>, T5: ToFromBytes<'a>, T6: ToFromBytes<'a>, T7: ToFromBytes<'a>>(
    x0: &T0, x1: &T1, x2: &T2, x3: &T3, x4: &T4, x5: &T5, x6: &T6, x7: &T7,
    writer: &mut BytesWriter<'_>,
) -> (r: Result<(), ToFromByteError>)
    requires
        old(writer).wf(),
    ensures
        final(final(writer).data)@ == final(old(writer).data)@,
        encode_outcome(
            *old(writer),
            *final(writer),
            <(T0, T1, T2, T3, T4, T5, T6, T7) as ToFromBytes<'a>>::encodable((x0.model(), x1.model(), x2.model(), x3.model(), x4.model(), x5.model(), x6.model(), x7.model())),
            <(T0, T1, T2, T3, T4, T5, T6, T7) as ToFromBytes<'a>>::encoding((x0.model(), x1.model(), x2.model(), x3.model(), x4.model(), x5.model(), x6.model(), x7.model())),
            r,
        ),
{
    let ghost w0 = *writer;
    x0.to_bytes(writer)?;
    let r = write_tuple7(x1, x2, x3, x4, x5, x6, x7, writer);
    proof {
        if r is Ok {
            lemma_overwrite_twice(
                w0.data@,
                w0.pos as int,
                T0::encoding(x0.model()),
                <(T1, T2, T3, T4, T5, T6, T7) as ToFromBytes<'a>>::encoding((x1.model(), x2.model(), x3.model(), x4.model(), x5.model(), x6.model(), x7.model())),
            );
        }
    }
    r
}

/// 8-tuples: the first element's encoding, then the encoding of the other 7 as a tuple.
impl<'a, T0: ToFromBytes<'a>, T1: ToFromBytes<'a>, T2: ToFromBytes<'a>, T3: ToFromBytes<'a>, T4: ToFromBytes<'a>, T5: ToFromBytes<'a>, T6: ToFromBytes<'a>, T7: ToFromBytes<'a>> ToFromBytes<'a> for (T0, T1, T2, T3, T4, T5, T6, T7) {
    type Model = (T0::Model, T1::Model, T2::Model, T3::Model, T4::Model, T5::Model, T6::Model, T7::Model);

    open spec fn model(&self) -> (T0::Model, T1::Model, T2::Model, T3::Model, T4::Model, T5::Model, T6::Model, T7::Model) {
        (self.0.model(), self.1.model(), self.2.model(), self.3.model(), self.4.model(), self.5.model(), self.6.model(), self.7.model())
    }

    open spec fn spec_max_bytes() -> usize {
        CONTAINER_MAX_BYTES
    }

    open spec fn encodable(m: (T0::Model, T1::Model, T2::Model, T3::Model, T4::Model, T5::Model, T6::Model, T7::Model)) -> bool {
        T0::encodable(m.0) && <(T1, T2, T3, T4, T5, T6, T7) as ToFromBytes<'a>>::encodable((m.1, m.2, m.3, m.4, m.5, m.6, m.7))
    }

    open spec fn encoding(m: (T0::Model, T1::Model, T2::Model, T3::Model, T4::Model, T5::Model, T6::Model, T7::Model)) -> Seq<u8> {
        T0::encoding(m.0) + <(T1, T2, T3, T4, T5, T6, T7) as ToFromBytes<'a>>::encoding((m.1, m.2, m.3, m.4, m.5, m.6, m.7))
    }

    open spec fn parse(data: Seq<u8>) -> Result<((T0::Model, T1::Model, T2::Model, T3::Model, T4::Model, T5::Model, T6::Model, T7::Model), nat), ToFromByteError> {
        match T0::parse(data) {
            Ok((v0, n0)) => match <(T1, T2, T3, T4, T5, T6, T7) as ToFromBytes<'a>>::parse(data.skip(n0 as int)) {
                Ok((t, n)) => Ok(((v0, t.0, t.1, t.2, t.3, t.4, t.5, t.6), n0 + n)),
                Err(e) => Err(e),
            },
            Err(e) => Err(e),
        }
    }

    proof fn lemma_max_bytes_bounded() {
    }

    proof fn lemma_encoding_nonempty(m: (T0::Model, T1::Model, T2::Model, T3::Model, T4::Model, T5::Model, T6::Model, T7::Model)) {
        T0::lemma_encoding_nonempty(m.0);
    }

    proof fn lemma_unencodable_is_large(m: (T0::Model, T1::Model, T2::Model, T3::Model, T4::Model, T5::Model, T6::Model, T7::Model)) {
        if !T0::encodable(m.0) {
            T0::lemma_unencodable_is_large(m.0);
        } else {
            <(T1, T2, T3, T4, T5, T6, T7) as ToFromBytes<'a>>::lemma_unencodable_is_large((m.1, m.2, m.3, m.4, m.5, m.6, m.7));
        }
    }

    proof fn lemma_parse_encoding(m: (T0::Model, T1::Model, T2::Model, T3::Model, T4::Model, T5::Model, T6::Model, T7::Model), rest: Seq<u8>) {
        let head = T0::encoding(m.0);
        let tail = <(T1, T2, T3, T4, T5, T6, T7) as ToFromBytes<'a>>::encoding((m.1, m.2, m.3, m.4, m.5, m.6, m.7));
        assert(Self::encoding(m) + rest =~= head + (tail + rest));
        T0::lemma_parse_encoding(m.0, tail + rest);
        assert((head + (tail + rest)).skip(head.len() as int) =~= tail + rest);
        <(T1, T2, T3, T4, T5, T6, T7) as ToFromBytes<'a>>::lemma_parse_encoding((m.1, m.2, m.3, m.4, m.5, m.6, m.7), rest);
    }

    proof fn lemma_parse_truncated(m: (T0::Model, T1::Model, T2::Model, T3::Model, T4::Model, T5::Model, T6::Model, T7::Model), n: nat) {
        let head = T0::encoding(m.0);
        let tail = <(T1, T2, T3, T4, T5, T6, T7) as ToFromBytes<'a>>::encoding((m.1, m.2, m.3, m.4, m.5, m.6, m.7));
        let data = Self::encoding(m).take(n as int);
        if n < head.len() {
            assert(data =~= head.take(n as int));
            T0::lemma_parse_truncated(m.0, n);
        } else {
            let j = (n - head.len()) as nat;
            assert(data =~= head + tail.take(j as int));
            T0::lemma_parse_encoding(m.0, tail.take(j as int));
            assert(data.skip(head.len() as int) =~= tail.take(j as int));
            <(T1, T2, T3, T4, T5, T6, T7) as ToFromBytes<'a>>::lemma_parse_truncated((m.1, m.2, m.3, m.4, m.5, m.6, m.7), j);
        }
    }

    fn max_bytes() -> (r: usize) {
        CONTAINER_MAX_BYTES
    }

    fn to_bytes(&self, writer: &mut BytesWriter<'_>) -> (r: Result<(), ToFromByteError>) {
        write_tuple8(&self.0, &self.1, &self.2, &self.3, &self.4, &self.5, &self.6, &self.7, writer)
    }

    fn from_bytes(reader: &mut BytesReader<'a>) -> (r: Result<((T0, T1, T2, T3, T4, T5, T6, T7), usize), ToFromByteError>) {
        let start_pos = reader.pos;
        let ghost start = reader.remaining();
        let (v0, _) = T0::from_bytes(reader)?;
        assert(reader.remaining() =~= start.skip(reader.pos - start_pos));
        match <(T1, T2, T3, T4, T5, T6, T7) as ToFromBytes<'a>>::from_bytes(reader) {
            Ok(((v1, v2, v3, v4, v5, v6, v7), pos)) => Ok(((v0, v1, v2, v3, v4, v5, v6, v7), pos)),
            Err(e) => {
                reader.pos = start_pos;
                Err(e)
            },
        }
    }

    fn byte_count(&self) -> (r: usize) {
        let total = self.0.byte_count();
        let total = add_sizes(
            total,
            self.1.byte_count(),
            Ghost(T0::encoding(self.0.model()).len()),
            Ghost(T1::encoding(self.1.model()).len()),
        );
        let total = add_sizes(
            total,
            self.2.byte_count(),
            Ghost(T0::encoding(self.0.model()).len() + T1::encoding(self.1.model()).len()),
            Ghost(T2::encoding(self.2.model()).len()),
        );
        let total = add_sizes(
            total,
            self.3.byte_count(),
            Ghost(T0::encoding(self.0.model()).len() + T1::encoding(self.1.model()).len() + T2::encoding(self.2.model()).len()),
            Ghost(T3::encoding(self.3.model()).len()),
        );
        let total = add_sizes(
            total,
            self.4.byte_count(),
            Ghost(T0::encoding(self.0.model()).len() + T1::encoding(self.1.model()).len() + T2::encoding(self.2.model()).len() + T3::encoding(self.3.model()).len()),
            Ghost(T4::encoding(self.4.model()).len()),
        );
        let total = add_sizes(
            total,
            self.5.byte_count(),
            Ghost(T0::encoding(self.0.model()).len() + T1::encoding(self.1.model()).len() + T2::encoding(self.2.model()).len() + T3::encoding(self.3.model()).len() + T4::encoding(self.4.model()).len()),
            Ghost(T5::encoding(self.5.model()).len()),
        );
        let total = add_sizes(
            total,
            self.6.byte_count(),
            Ghost(T0::encoding(self.0.model()).len() + T1::encoding(self.1.model()).len() + T2::encoding(self.2.model()).len() + T3::encoding(self.3.model()).len() + T4::encoding(self.4.model()).len() + T5::encoding(self.5.model()).len()),
            Ghost(T6::encoding(self.6.model()).len()),
        );
        let total = add_sizes(
            total,
            self.7.byte_count(),
            Ghost(T0::encoding(self.0.model()).len() + T1::encoding(self.1.model()).len() + T2::encoding(self.2.model()).len() + T3::encoding(self.3.model()).len() + T4::encoding(self.4.model()).len() + T5::encoding(self.5.model()).len() + T6::encoding(self.6.model()).len()),
            Ghost(T7::encoding(self.7.model()).len()),
        );
        total
    }
}

/// Writes the wire value of the tuple `(x0, x1, x2, x3, x4, x5, x6, x7, x8)`.
fn write_tuple9<'a, T0: ToFromBytes<'a>, T1: ToFromBytes<'a>, T2: ToFromBytes<'a>, T3: ToFromBytes<'a>, T4: ToFromBytes<'a>, T5: ToFromBytes<'a>, T6: ToFromBytes<'a>, T7: ToFromBytes<'a>, T8: ToFromBytes<'a>>(
    x0: &T0, x1: &T1, x2: &T2, x3: &T3, x4: &T4, x5: &T5, x6: &T6, x7: &T7, x8: &T8,
    writer: &mut BytesWriter<'_>,
) -> (r: Result<(), ToFromByteError>)
    requires
        old(writer).wf(),
    ensures
        final(final(writer).data)@ == final(old(writer).data)@,
        encode_outcome(
            *old(writer),
            *final(writer),
            <(T0, T1, T2, T3, T4, T5, T6, T7, T8) as ToFromBytes<'a>>::encodable((x0.model(), x1.model(), x2.model(), x3.model(), x4.model(), x5.model(), x6.model(), x7.model(), x8.model())),
            <(T0, T1, T2, T3, T4, T5, T6, T7, T8) as ToFromBytes<'a>>::encoding((x0.model(), x1.model(), x2.model(), x3.model(), x4.model(), x5.model(), x6.model(), x7.model(), x8.model())),
            r,
        ),
{
    let ghost w0 = *writer;
    x0.to_bytes(writer)?;
    let r = write_tuple8(x1, x2, x3, x4, x5, x6, x7, x8, writer);
    proof {
        if r is Ok {
            lemma_overwrite_twice(
                w0.data@,
                w0.pos as int,
                T0::encoding(x0.model()),
                <(T1, T2, T3, T4, T5, T6, T7, T8) as ToFromBytes<'a>>::encoding((x1.model(), x2.model(), x3.model(), x4.model(), x5.model(), x6.model(), x7.model(), x8.model())),
            );
        }
    }
    r
}

/// 9-tuples: the first element's encoding, then the encoding of the other 8 as a tuple.
impl<'a, T0: ToFromBytes<'a>, T1: ToFromBytes<'a>, T2: ToFromBytes<'a>, T3: ToFromBytes<'a>, T4: ToFromBytes<'a>, T5: ToFromBytes<'a>, T6: ToFromBytes<'a>, T7: ToFromBytes<'a>, T8: ToFromBytes<'a>> ToFromBytes<'a> for (T0, T1, T2, T3, T4, T5, T6, T7, T8) {
    type Model = (T0::Model, T1::Model, T2::Model, T3::Model, T4::Model, T5::Model, T6::Model, T7::Model, T8::Model);

    open spec fn model(&self) -> (T0::Model, T1::Model, T2::Model, T3::Model, T4::Model, T5::Model, T6::Model, T7::Model, T8::Model) {
        (self.0.model(), self.1.model(), self.2.model(), self.3.model(), self.4.model(), self.5.model(), self.6.model(), self.7.model(), self.8.model())
    }

    open spec fn spec_max_bytes() -> usize {
        CONTAINER_MAX_BYTES
    }

    open spec fn encodable(m: (T0::Model, T1::Model, T2::Model, T3::Model, T4::Model, T5::Model, T6::Model, T7::Model, T8::Model)) -> bool {
        T0::encodable(m.0) && <(T1, T2, T3, T4, T5, T6, T7, T8) as ToFromBytes<'a>>::encodable((m.1, m.2, m.3, m.4, m.5, m.6, m.7, m.8))
    }

    open spec fn encoding(m: (T0::Model, T1::Model, T2::Model, T3::Model, T4::Model, T5::Model, T6::Model, T7::Model, T8::Model)) -> Seq<u8> {
        T0::encoding(m.0) + <(T1, T2, T3, T4, T5, T6, T7, T8) as ToFromBytes<'a>>::encoding((m.1, m.2, m.3, m.4, m.5, m.6, m.7, m.8))
    }

    open spec fn parse(data: Seq<u8>) -> Result<((T0::Model, T1::Model, T2::Model, T3::Model, T4::Model, T5::Model, T6::Model, T7::Model, T8::Model), nat), ToFromByteError> {
        match T0::parse(data) {
            Ok((v0, n0)) => match <(T1, T2, T3, T4, T5, T6, T7, T8) as ToFromBytes<'a>>::parse(data.skip(n0 as int)) {
                Ok((t, n)) => Ok(((v0, t.0, t.1, t.2, t.3, t.4, t.5, t.6, t.7), n0 + n)),
                Err(e) => Err(e),
            },
            Err(e) => Err(e),
        }
    }

    proof fn lemma_max_bytes_bounded() {
    }

    proof fn lemma_encoding_nonempty(m: (T0::Model, T1::Model, T2::Model, T3::Model, T4::Model, T5::Model, T6::Model, T7::Model, T8::Model)) {
        T0::lemma_encoding_nonempty(m.0);
    }

    proof fn lemma_unencodable_is_large(m: (T0::Model, T1::Model, T2::Model, T3::Model, T4::Model, T5::Model, T6::Model, T7::Model, T8::Model)) {
        if !T0::encodable(m.0) {
            T0::lemma_unencodable_is_large(m.0);
        } else {
            <(T1, T2, T3, T4, T5, T6, T7, T8) as ToFromBytes<'a>>::lemma_unencodable_is_large((m.1, m.2, m.3, m.4, m.5, m.6, m.7, m.8));
        }
    }

    proof fn lemma_parse_encoding(m: (T0::Model, T1::Model, T2::Model, T3::Model, T4::Model, T5::Model, T6::Model, T7::Model, T8::Model), rest: Seq<u8>) {
        let head = T0::encoding(m.0);
        let tail = <(T1, T2, T3, T4, T5, T6, T7, T8) as ToFromBytes<'a>>::encoding((m.1, m.2, m.3, m.4, m.5, m.6, m.7, m.8));
        assert(Self::encoding(m) + rest =~= head + (tail + rest));
        T0::lemma_parse_encoding(m.0, tail + rest);
        assert((head + (tail + rest)).skip(head.len() as int) =~= tail + rest);
        <(T1, T2, T3, T4, T5, T6, T7, T8) as ToFromBytes<'a>>::lemma_parse_encoding((m.1, m.2, m.3, m.4, m.5, m.6, m.7, m.8), rest);
    }

    proof fn lemma_parse_truncated(m: (T0::Model, T1::Model, T2::Model, T3::Model, T4::Model, T5::Model, T6::Model, T7::Model, T8::Model), n: nat) {
        let head = T0::encoding(m.0);
        let tail = <(T1, T2, T3, T4, T5, T6, T7, T8) as ToFromBytes<'a>>::encoding((m.1, m.2, m.3, m.4, m.5, m.6, m.7, m.8));
        let data = Self::encoding(m).take(n as int);
        if n < head.len() {
            assert(data =~= head.take(n as int));
            T0::lemma_parse_truncated(m.0, n);
        } else {
            let j = (n - head.len()) as nat;
            assert(data =~= head + tail.take(j as int));
            T0::lemma_parse_encoding(m.0, tail.take(j as int));
            assert(data.skip(head.len() as int) =~= tail.take(j as int));
            <(T1, T2, T3, T4, T5, T6, T7, T8) as ToFromBytes<'a>>::lemma_parse_truncated((m.1, m.2, m.3, m.4, m.5, m.6, m.7, m.8), j);
        }
    }

    fn max_bytes() -> (r: usize) {
        CONTAINER_MAX_BYTES
    }

    fn to_bytes(&self, writer: &mut BytesWriter<'_>) -> (r: Result<(), ToFromByteError>) {
        write_tuple9(&self.0, &self.1, &self.2, &self.3, &self.4, &self.5, &self.6, &self.7, &self.8, writer)
    }

    fn from_bytes(reader: &mut BytesReader<'a>) -> (r: Result<((T0, T1, T2, T3, T4, T5, T6, T7, T8), usize), ToFromByteError>) {
        let start_pos = reader.pos;
        let ghost start = reader.remaining();
        let (v0, _) = T0::from_bytes(reader)?;
        assert(reader.remaining() =~= start.skip(reader.pos - start_pos));
        match <(T1, T2, T3, T4, T5, T6, T7, T8) as ToFromBytes<'a>>::from_bytes(reader) {
            Ok(((v1, v2, v3, v4, v5, v6, v7, v8), pos)) => Ok(((v0, v1, v2, v3, v4, v5, v6, v7, v8), pos)),
            Err(e) => {
                reader.pos = start_pos;
                Err(e)
            },
        }
    }

    fn byte_count(&self) -> (r: usize) {
        let total = self.0.byte_count();
        let total = add_sizes(
            total,
            self.1.byte_count(),
            Ghost(T0::encoding(self.0.model()).len()),
            Ghost(T1::encoding(self.1.model()).len()),
        );
        let total = add_sizes(
            total,
            self.2.byte_count(),
            Ghost(T0::encoding(self.0.model()).len() + T1::encoding(self.1.model()).len()),
            Ghost(T2::encoding(self.2.model()).len()),
        );
        let total = add_sizes(
            total,
            self.3.byte_count(),
            Ghost(T0::encoding(self.0.model()).len() + T1::encoding(self.1.model()).len() + T2::encoding(self.2.model()).len()),
            Ghost(T3::encoding(self.3.model()).len()),
        );
        let total = add_sizes(
            total,
            self.4.byte_count(),
            Ghost(T0::encoding(self.0.model()).len() + T1::encoding(self.1.model()).len() + T2::encoding(self.2.model()).len() + T3::encoding(self.3.model()).len()),
            Ghost(T4::encoding(self.4.model()).len()),
        );
        let total = add_sizes(
            total,
            self.5.byte_count(),
            Ghost(T0::encoding(self.0.model()).len() + T1::encoding(self.1.model()).len() + T2::encoding(self.2.model()).len() + T3::encoding(self.3.model()).len() + T4::encoding(self.4.model()).len()),
            Ghost(T5::encoding(self.5.model()).len()),
        );
        let total = add_sizes(
            total,
            self.6.byte_count(),
            Ghost(T0::encoding(self.0.model()).len() + T1::encoding(self.1.model()).len() + T2::encoding(self.2.model()).len() + T3::encoding(self.3.model()).len() + T4::encoding(self.4.model()).len() + T5::encoding(self.5.model()).len()),
            Ghost(T6::encoding(self.6.model()).len()),
        );
        let total = add_sizes(
            total,
            self.7.byte_count(),
            Ghost(T0::encoding(self.0.model()).len() + T1::encoding(self.1.model()).len() + T2::encoding(self.2.model()).len() + T3::encoding(self.3.model()).len() + T4::encoding(self.4.model()).len() + T5::encoding(self.5.model()).len() + T6::encoding(self.6.model()).len()),
            Ghost(T7::encoding(self.7.model()).len()),
        );
        let total = add_sizes(
            total,
            self.8.byte_count(),
            Ghost(T0::encoding(self.0.model()).len() + T1::encoding(self.1.model()).len() + T2::encoding(self.2.model()).len() + T3::encoding(self.3.model()).len() + T4::encoding(self.4.model()).len() + T5::encoding(self.5.model()).len() + T6::encoding(self.6.model()).len() + T7::encoding(self.7.model()).len()),
            Ghost(T8::encoding(self.8.model()).len()),
        );
        total
    }
}

/// Writes the wire value of the tuple `(x0, x1, x2, x3, x4, x5, x6, x7, x8, x9)`.
fn write_tuple10<'a, T0: ToFromBytes<'a>, T1: ToFromBytes<'a>, T2: ToFromBytes<'a>, T3: ToFromBytes<'a>, T4: ToFromBytes<'a>, T5: ToFromBytes<'a>, T6: ToFromBytes<'a>, T7: ToFromBytes<'a>, T8: ToFromBytes<'a>, T9: ToFromBytes<'a>>(
    x0: &T0, x1: &T1, x2: &T2, x3: &T3, x4: &T4, x5: &T5, x6: &T6, x7: &T7, x8: &T8, x9: &T9,
    writer: &mut BytesWriter<'_>,
) -> (r: Result<(), ToFromByteError>)
    requires
        old(writer).wf(),
    ensures
        final(final(writer).data)@ == final(old(writer).data)@,
        encode_outcome(
            *old(writer),
            *final(writer),
            <(T0, T1, T2, T3, T4, T5, T6, T7, T8, T9) as ToFromBytes<'a>>::encodable((x0.model(), x1.model(), x2.model(), x3.model(), x4.model(), x5.model(), x6.model(), x7.model(), x8.model(), x9.model())),
            <(T0, T1, T2, T3, T4, T5, T6, T7, T8, T9) as ToFromBytes<'a>>::encoding((x0.model(), x1.model(), x2.model(), x3.model(), x4.model(), x5.model(), x6.model(), x7.model(), x8.model(), x9.model())),
            r,
        ),
{
    let ghost w0 = *writer;
    x0.to_bytes(writer)?;
    let r = write_tuple9(x1, x2, x3, x4, x5, x6, x7, x8, x9, writer);
    proof {
        if r is Ok {
            lemma_overwrite_twice(
                w0.data@,
                w0.pos as int,
                T0::encoding(x0.model()),
                <(T1, T2, T3, T4, T5, T6, T7, T8, T9) as ToFromBytes<'a>>::encoding((x1.model(), x2.model(), x3.model(), x4.model(), x5.model(), x6.model(), x7.model(), x8.model(), x9.model())),
            );
        }
    }
    r
}

/// 10-tuples: the first element's encoding, then the encoding of the other 9 as a tuple.
impl<'a, T0: ToFromBytes<'a>, T1: ToFromBytes<'a>, T2: ToFromBytes<'a>, T3: ToFromBytes<'a>, T4: ToFromBytes<'a>, T5: ToFromBytes<'a>, T6: ToFromBytes<'a>, T7: ToFromBytes<'a>, T8: ToFromBytes<'a>, T9: ToFromBytes<'a>> ToFromBytes<'a> for (T0, T1, T2, T3, T4, T5, T6, T7, T8, T9) {
    type Model = (T0::Model, T1::Model, T2::Model, T3::Model, T4::Model, T5::Model, T6::Model, T7::Model, T8::Model, T9::Model);

    open spec fn model(&self) -> (T0::Model, T1::Model, T2::Model, T3::Model, T4::Model, T5::Model, T6::Model, T7::Model, T8::Model, T9::Model) {
        (self.0.model(), self.1.model(), self.2.model(), self.3.model(), self.4.model(), self.5.model(), self.6.model(), self.7.model(), self.8.model(), self.9.model())
    }

    open spec fn spec_max_bytes() -> usize {
        CONTAINER_MAX_BYTES
    }

    open spec fn encodable(m: (T0::Model, T1::Model, T2::Model, T3::Model, T4::Model, T5::Model, T6::Model, T7::Model, T8::Model, T9::Model)) -> bool {
        T0::encodable(m.0) && <(T1, T2, T3, T4, T5, T6, T7, T8, T9) as ToFromBytes<'a>>::encodable((m.1, m.2, m.3, m.4, m.5, m.6, m.7, m.8, m.9))
    }

    open spec fn encoding(m: (T0::Model, T1::Model, T2::Model, T3::Model, T4::Model, T5::Model, T6::Model, T7::Model, T8::Model, T9::Model)) -> Seq<u8> {
        T0::encoding(m.0) + <(T1, T2, T3, T4, T5, T6, T7, T8, T9) as ToFromBytes<'a>>::encoding((m.1, m.2, m.3, m.4, m.5, m.6, m.7, m.8, m.9))
    }

    open spec fn parse(data: Seq<u8>) -> Result<((T0::Model, T1::Model, T2::Model, T3::Model, T4::Model, T5::Model, T6::Model, T7::Model, T8::Model, T9::Model), nat), ToFromByteError> {
        match T0::parse(data) {
            Ok((v0, n0)) => match <(T1, T2, T3, T4, T5, T6, T7, T8, T9) as ToFromBytes<'a>>::parse(data.skip(n0 as int)) {
                Ok((t, n)) => Ok(((v0, t.0, t.1, t.2, t.3, t.4, t.5, t.6, t.7, t.8), n0 + n)),
                Err(e) => Err(e),
            },
            Err(e) => Err(e),
        }
    }

    proof fn lemma_max_bytes_bounded() {
    }

    proof fn lemma_encoding_nonempty(m: (T0::Model, T1::Model, T2::Model, T3::Model, T4::Model, T5::Model, T6::Model, T7::Model, T8::Model, T9::Model)) {
        T0::lemma_encoding_nonempty(m.0);
    }

    proof fn lemma_unencodable_is_large(m: (T0::Model, T1::Model, T2::Model, T3::Model, T4::Model, T5::Model, T6::Model, T7::Model, T8::Model, T9::Model)) {
        if !T0::encodable(m.0) {
            T0::lemma_unencodable_is_large(m.0);
        } else {
            <(T1, T2, T3, T4, T5, T6, T7, T8, T9) as ToFromBytes<'a>>::lemma_unencodable_is_large((m.1, m.2, m.3, m.4, m.5, m.6, m.7, m.8, m.9));
        }
    }

    proof fn lemma_parse_encoding(m: (T0::Model, T1::Model, T2::Model, T3::Model, T4::Model, T5::Model, T6::Model, T7::Model, T8::Model, T9::Model), rest: Seq<u8>) {
        let head = T0::encoding(m.0);
        let tail = <(T1, T2, T3, T4, T5, T6, T7, T8, T9) as ToFromBytes<'a>>::encoding((m.1, m.2, m.3, m.4, m.5, m.6, m.7, m.8, m.9));
        assert(Self::encoding(m) + rest =~= head + (tail + rest));
        T0::lemma_parse_encoding(m.0, tail + rest);
        assert((head + (tail + rest)).skip(head.len() as int) =~= tail + rest);
        <(T1, T2, T3, T4, T5, T6, T7, T8, T9) as ToFromBytes<'a>>::lemma_parse_encoding((m.1, m.2, m.3, m.4, m.5, m.6, m.7, m.8, m.9), rest);
    }

    proof fn lemma_parse_truncated(m: (T0::Model, T1::Model, T2::Model, T3::Model, T4::Model, T5::Model, T6::Model, T7::Model, T8::Model, T9::Model), n: nat) {
        let head = T0::encoding(m.0);
        let tail = <(T1, T2, T3, T4, T5, T6, T7, T8, T9) as ToFromBytes<'a>>::encoding((m.1, m.2, m.3, m.4, m.5, m.6, m.7, m.8, m.9));
        let data = Self::encoding(m).take(n as int);
        if n < head.len() {
            assert(data =~= head.take(n as int));
            T0::lemma_parse_truncated(m.0, n);
        } else {
            let j = (n - head.len()) as nat;
            assert(data =~= head + tail.take(j as int));
            T0::lemma_parse_encoding(m.0, tail.take(j as int));
            assert(data.skip(head.len() as int) =~= tail.take(j as int));
            <(T1, T2, T3, T4, T5, T6, T7, T8, T9) as ToFromBytes<'a>>::lemma_parse_truncated((m.1, m.2, m.3, m.4, m.5, m.6, m.7, m.8, m.9), j);
        }
    }

    fn max_bytes() -> (r: usize) {
        CONTAINER_MAX_BYTES
    }

    fn to_bytes(&self, writer: &mut BytesWriter<'_>) -> (r: Result<(), ToFromByteError>) {
        write_tuple10(&self.0, &self.1, &self.2, &self.3, &self.4, &self.5, &self.6, &self.7, &self.8, &self.9, writer)
    }

    fn from_bytes(reader: &mut BytesReader<'a>) -> (r: Result<((T0, T1, T2, T3, T4, T5, T6, T7, T8, T9), usize), ToFromByteError>) {
        let start_pos = reader.pos;
        let ghost start = reader.remaining();
        let (v0, _) = T0::from_bytes(reader)?;
        assert(reader.remaining() =~= start.skip(reader.pos - start_pos));
        match <(T1, T2, T3, T4, T5, T6, T7, T8, T9) as ToFromBytes<'a>>::from_bytes(reader) {
            Ok(((v1, v2, v3, v4, v5, v6, v7, v8, v9), pos)) => Ok(((v0, v1, v2, v3, v4, v5, v6, v7, v8, v9), pos)),
            Err(e) => {
                reader.pos = start_pos;
                Err(e)
            },
        }
    }

    fn byte_count(&self) -> (r: usize) {
        let total = self.0.byte_count();
        let total = add_sizes(
            total,
            self.1.byte_count(),
            Ghost(T0::encoding(self.0.model()).len()),
            Ghost(T1::encoding(self.1.model()).len()),
        );
        let total = add_sizes(
            total,
            self.2.byte_count(),
            Ghost(T0::encoding(self.0.model()).len() + T1::encoding(self.1.model()).len()),
            Ghost(T2::encoding(self.2.model()).len()),
        );
        let total = add_sizes(
            total,
            self.3.byte_count(),
            Ghost(T0::encoding(self.0.model()).len() + T1::encoding(self.1.model()).len() + T2::encoding(self.2.model()).len()),
            Ghost(T3::encoding(self.3.model()).len()),
        );
        let total = add_sizes(
            total,
            self.4.byte_count(),
            Ghost(T0::encoding(self.0.model()).len() + T1::encoding(self.1.model()).len() + T2::encoding(self.2.model()).len() + T3::encoding(self.3.model()).len()),
            Ghost(T4::encoding(self.4.model()).len()),
        );
        let total = add_sizes(
            total,
            self.5.byte_count(),
            Ghost(T0::encoding(self.0.model()).len() + T1::encoding(self.1.model()).len() + T2::encoding(self.2.model()).len() + T3::encoding(self.3.model()).len() + T4::encoding(self.4.model()).len()),
            Ghost(T5::encoding(self.5.model()).len()),
        );
        let total = add_sizes(
            total,
            self.6.byte_count(),
            Ghost(T0::encoding(self.0.model()).len() + T1::encoding(self.1.model()).len() + T2::encoding(self.2.model()).len() + T3::encoding(self.3.model()).len() + T4::encoding(self.4.model()).len() + T5::encoding(self.5.model()).len()),
            Ghost(T6::encoding(self.6.model()).len()),
        );
        let total = add_sizes(
            total,
            self.7.byte_count(),
            Ghost(T0::encoding(self.0.model()).len() + T1::encoding(self.1.model()).len() + T2::encoding(self.2.model()).len() + T3::encoding(self.3.model()).len() + T4::encoding(self.4.model()).len() + T5::encoding(self.5.model()).len() + T6::encoding(self.6.model()).len()),
            Ghost(T7::encoding(self.7.model()).len()),
        );
        let total = add_sizes(
            total,
            self.8.byte_count(),
            Ghost(T0::encoding(self.0.model()).len() + T1::encoding(self.1.model()).len() + T2::encoding(self.2.model()).len() + T3::encoding(self.3.model()).len() + T4::encoding(self.4.model()).len() + T5::encoding(self.5.model()).len() + T6::encoding(self.6.model()).len() + T7::encoding(self.7.model()).len()),
            Ghost(T8::encoding(self.8.model()).len()),
        );
        let total = add_sizes(
            total,
            self.9.byte_count(),
            Ghost(T0::encoding(self.0.model()).len() + T1::encoding(self.1.model()).len() + T2::encoding(self.2.model()).len() + T3::encoding(self.3.model()).len() + T4::encoding(self.4.model()).len() + T5::encoding(self.5.model()).len() + T6::encoding(self.6.model()).len() + T7::encoding(self.7.model()).len() + T8::encoding(self.8.model()).len()),
            Ghost(T9::encoding(self.9.model()).len()),
        );
        total
    }
}

/// Writes the wire value of the tuple `(x0, x1, x2, x3, x4, x5, x6, x7, x8, x9, x10)`.
fn write_tuple11<'a, T0: ToFromBytes<'a>, T1: ToFromBytes<'a>, T2: ToFromBytes<'a>, T3: ToFromBytes<'a>, T4: ToFromBytes<'a>, T5: ToFromBytes<'a>, T6: ToFromBytes<'a>, T7: ToFromBytes<'a>, T8: ToFromBytes<'a>, T9: ToFromBytes<'a>, T10: ToFromBytes<'a>>(
    x0: &T0, x1: &T1, x2: &T2, x3: &T3, x4: &T4, x5: &T5, x6: &T6, x7: &T7, x8: &T8, x9: &T9, x10: &T10,
    writer: &mut BytesWriter<'_>,
) -> (r: Result<(), ToFromByteError>)
    requires
        old(writer).wf(),
    ensures
        final(final(writer).data)@ == final(old(writer).data)@,
        encode_outcome(
            *old(writer),
            *final(writer),
            <(T0, T1, T2, T3, T4, T5, T6, T7, T8, T9, T10) as ToFromBytes<'a>>::encodable((x0.model(), x1.model(), x2.model(), x3.model(), x4.model(), x5.model(), x6.model(), x7.model(), x8.model(), x9.model(), x10.model())),
            <(T0, T1, T2, T3, T4, T5, T6, T7, T8, T9, T10) as ToFromBytes<'a>>::encoding((x0.model(), x1.model(), x2.model(), x3.model(), x4.model(), x5.model(), x6.model(), x7.model(), x8.model(), x9.model(), x10.model())),
            r,
        ),
{
    let ghost w0 = *writer;
    x0.to_bytes(writer)?;
    let r = write_tuple10(x1, x2, x3, x4, x5, x6, x7, x8, x9, x10, writer);
    proof {
        if r is Ok {
            lemma_overwrite_twice(
                w0.data@,
                w0.pos as int,
                T0::encoding(x0.model()),
                <(T1, T2, T3, T4, T5, T6, T7, T8, T9, T10) as ToFromBytes<'a>>::encoding((x1.model(), x2.model(), x3.model(), x4.model(), x5.model(), x6.model(), x7.model(), x8.model(), x9.model(), x10.model())),
            );
        }
    }
    r
}

/// 11-tuples: the first element's encoding, then the encoding of the other 10 as a tuple.
impl<'a, T0: ToFromBytes<'a>, T1: ToFromBytes<'a>, T2: ToFromBytes<'a>, T3: ToFromBytes<'a>, T4: ToFromBytes<'a>, T5: ToFromBytes<'a>, T6: ToFromBytes<'a>, T7: ToFromBytes<'a>, T8: ToFromBytes<'a>, T9: ToFromBytes<'a>, T10: ToFromBytes<'a>> ToFromBytes<'a> for (T0, T1, T2, T3, T4, T5, T6, T7, T8, T9, T10) {
    type Model = (T0::Model, T1::Model, T2::Model, T3::Model, T4::Model, T5::Model, T6::Model, T7::Model, T8::Model, T9::Model, T10::Model);

    open spec fn model(&self) -> (T0::Model, T1::Model, T2::Model, T3::Model, T4::Model, T5::Model, T6::Model, T7::Model, T8::Model, T9::Model, T10::Model) {
        (self.0.model(), self.1.model(), self.2.model(), self.3.model(), self.4.model(), self.5.model(), self.6.model(), self.7.model(), self.8.model(), self.9.model(), self.10.model())
    }

    open spec fn spec_max_bytes() -> usize {
        CONTAINER_MAX_BYTES
    }

    open spec fn encodable(m: (T0::Model, T1::Model, T2::Model, T3::Model, T4::Model, T5::Model, T6::Model, T7::Model, T8::Model, T9::Model, T10::Model)) -> bool {
        T0::encodable(m.0) && <(T1, T2, T3, T4, T5, T6, T7, T8, T9, T10) as ToFromBytes<'a>>::encodable((m.1, m.2, m.3, m.4, m.5, m.6, m.7, m.8, m.9, m.10))
    }

    open spec fn encoding(m: (T0::Model, T1::Model, T2::Model, T3::Model, T4::Model, T5::Model, T6::Model, T7::Model, T8::Model, T9::Model, T10::Model)) -> Seq<u8> {
        T0::encoding(m.0) + <(T1, T2, T3, T4, T5, T6, T7, T8, T9, T10) as ToFromBytes<'a>>::encoding((m.1, m.2, m.3, m.4, m.5, m.6, m.7, m.8, m.9, m.10))
    }

    open spec fn parse(data: Seq<u8>) -> Result<((T0::Model, T1::Model, T2::Model, T3::Model, T4::Model, T5::Model, T6::Model, T7::Model, T8::Model, T9::Model, T10::Model), nat), ToFromByteError> {
        match T0::parse(data) {
            Ok((v0, n0)) => match <(T1, T2, T3, T4, T5, T6, T7, T8, T9, T10) as ToFromBytes<'a>>::parse(data.skip(n0 as int)) {
                Ok((t, n)) => Ok(((v0, t.0, t.1, t.2, t.3, t.4, t.5, t.6, t.7, t.8, t.9), n0 + n)),
                Err(e) => Err(e),
            },
            Err(e) => Err(e),
        }
    }

    proof fn lemma_max_bytes_bounded() {
    }

    proof fn lemma_encoding_nonempty(m: (T0::Model, T1::Model, T2::Model, T3::Model, T4::Model, T5::Model, T6::Model, T7::Model, T8::Model, T9::Model, T10::Model)) {
        T0::lemma_encoding_nonempty(m.0);
    }

    proof fn lemma_unencodable_is_large(m: (T0::Model, T1::Model, T2::Model, T3::Model, T4::Model, T5::Model, T6::Model, T7::Model, T8::Model, T9::Model, T10::Model)) {
        if !T0::encodable(m.0) {
            T0::lemma_unencodable_is_large(m.0);
        } else {
            <(T1, T2, T3, T4, T5, T6, T7, T8, T9, T10) as ToFromBytes<'a>>::lemma_unencodable_is_large((m.1, m.2, m.3, m.4, m.5, m.6, m.7, m.8, m.9, m.10));
        }
    }

    proof fn lemma_parse_encoding(m: (T0::Model, T1::Model, T2::Model, T3::Model, T4::Model, T5::Model, T6::Model, T7::Model, T8::Model, T9::Model, T10::Model), rest: Seq<u8>) {
        let head = T0::encoding(m.0);
        let tail = <(T1, T2, T3, T4, T5, T6, T7, T8, T9, T10) as ToFromBytes<'a>>::encoding((m.1, m.2, m.3, m.4, m.5, m.6, m.7, m.8, m.9, m.10));
        assert(Self::encoding(m) + rest =~= head + (tail + rest));
        T0::lemma_parse_encoding(m.0, tail + rest);
        assert((head + (tail + rest)).skip(head.len() as int) =~= tail + rest);
        <(T1, T2, T3, T4, T5, T6, T7, T8, T9, T10) as ToFromBytes<'a>>::lemma_parse_encoding((m.1, m.2, m.3, m.4, m.5, m.6, m.7, m.8, m.9, m.10), rest);
    }

    proof fn lemma_parse_truncated(m: (T0::Model, T1::Model, T2::Model, T3::Model, T4::Model, T5::Model, T6::Model, T7::Model, T8::Model, T9::Model, T10::Model), n: nat) {
        let head = T0::encoding(m.0);
        let tail = <(T1, T2, T3, T4, T5, T6, T7, T8, T9, T10) as ToFromBytes<'a>>::encoding((m.1, m.2, m.3, m.4, m.5, m.6, m.7, m.8, m.9, m.10));
        let data = Self::encoding(m).take(n as int);
        if n < head.len() {
            assert(data =~= head.take(n as int));
            T0::lemma_parse_truncated(m.0, n);
        } else {
            let j = (n - head.len()) as nat;
            assert(data =~= head + tail.take(j as int));
            T0::lemma_parse_encoding(m.0, tail.take(j as int));
            assert(data.skip(head.len() as int) =~= tail.take(j as int));
            <(T1, T2, T3, T4, T5, T6, T7, T8, T9, T10) as ToFromBytes<'a>>::lemma_parse_truncated((m.1, m.2, m.3, m.4, m.5, m.6, m.7, m.8, m.9, m.10), j);
        }
    }

    fn max_bytes() -> (r: usize) {
        CONTAINER_MAX_BYTES
    }

    fn to_bytes(&self, writer: &mut BytesWriter<'_>) -> (r: Result<(), ToFromByteError>) {
        write_tuple11(&self.0, &self.1, &self.2, &self.3, &self.4, &self.5, &self.6, &self.7, &self.8, &self.9, &self.10, writer)
    }

    fn from_bytes(reader: &mut BytesReader<'a>) -> (r: Result<((T0, T1, T2, T3, T4, T5, T6, T7, T8, T9, T10), usize), ToFromByteError>) {
        let start_pos = reader.pos;
        let ghost start = reader.remaining();
        let (v0, _) = T0::from_bytes(reader)?;
        assert(reader.remaining() =~= start.skip(reader.pos - start_pos));
        match <(T1, T2, T3, T4, T5, T6, T7, T8, T9, T10) as ToFromBytes<'a>>::from_bytes(reader) {
            Ok(((v1, v2, v3, v4, v5, v6, v7, v8, v9, v10), pos)) => Ok(((v0, v1, v2, v3, v4, v5, v6, v7, v8, v9, v10), pos)),
            Err(e) => {
                reader.pos = start_pos;
                Err(e)
            },
        }
    }

    fn byte_count(&self) -> (r: usize) {
        let total = self.0.byte_count();
        let total = add_sizes(
            total,
            self.1.byte_count(),
            Ghost(T0::encoding(self.0.model()).len()),
            Ghost(T1::encoding(self.1.model()).len()),
        );
        let total = add_sizes(
            total,
            self.2.byte_count(),
            Ghost(T0::encoding(self.0.model()).len() + T1::encoding(self.1.model()).len()),
            Ghost(T2::encoding(self.2.model()).len()),
        );
        let total = add_sizes(
            total,
            self.3.byte_count(),
            Ghost(T0::encoding(self.0.model()).len() + T1::encoding(self.1.model()).len() + T2::encoding(self.2.model()).len()),
            Ghost(T3::encoding(self.3.model()).len()),
        );
        let total = add_sizes(
            total,
            self.4.byte_count(),
            Ghost(T0::encoding(self.0.model()).len() + T1::encoding(self.1.model()).len() + T2::encoding(self.2.model()).len() + T3::encoding(self.3.model()).len()),
            Ghost(T4::encoding(self.4.model()).len()),
        );
        let total = add_sizes(
            total,
            self.5.byte_count(),
            Ghost(T0::encoding(self.0.model()).len() + T1::encoding(self.1.model()).len() + T2::encoding(self.2.model()).len() + T3::encoding(self.3.model()).len() + T4::encoding(self.4.model()).len()),
            Ghost(T5::encoding(self.5.model()).len()),
        );
        let total = add_sizes(
            total,
            self.6.byte_count(),
            Ghost(T0::encoding(self.0.model()).len() + T1::encoding(self.1.model()).len() + T2::encoding(self.2.model()).len() + T3::encoding(self.3.model()).len() + T4::encoding(self.4.model()).len() + T5::encoding(self.5.model()).len()),
            Ghost(T6::encoding(self.6.model()).len()),
        );
        let total = add_sizes(
            total,
            self.7.byte_count(),
            Ghost(T0::encoding(self.0.model()).len() + T1::encoding(self.1.model()).len() + T2::encoding(self.2.model()).len() + T3::encoding(self.3.model()).len() + T4::encoding(self.4.model()).len() + T5::encoding(self.5.model()).len() + T6::encoding(self.6.model()).len()),
            Ghost(T7::encoding(self.7.model()).len()),
        );
        let total = add_sizes(
            total,
            self.8.byte_count(),
            Ghost(T0::encoding(self.0.model()).len() + T1::encoding(self.1.model()).len() + T2::encoding(self.2.model()).len() + T3::encoding(self.3.model()).len() + T4::encoding(self.4.model()).len() + T5::encoding(self.5.model()).len() + T6::encoding(self.6.model()).len() + T7::encoding(self.7.model()).len()),
            Ghost(T8::encoding(self.8.model()).len()),
        );
        let total = add_sizes(
            total,
            self.9.byte_count(),
            Ghost(T0::encoding(self.0.model()).len() + T1::encoding(self.1.model()).len() + T2::encoding(self.2.model()).len() + T3::encoding(self.3.model()).len() + T4::encoding(self.4.model()).len() + T5::encoding(self.5.model()).len() + T6::encoding(self.6.model()).len() + T7::encoding(self.7.model()).len() + T8::encoding(self.8.model()).len()),
            Ghost(T9::encoding(self.9.model()).len()),
        );
        let total = add_sizes(
            total,
            self.10.byte_count(),
            Ghost(T0::encoding(self.0.model()).len() + T1::encoding(self.1.model()).len() + T2::encoding(self.2.model()).len() + T3::encoding(self.3.model()).len() + T4::encoding(self.4.model()).len() + T5::encoding(self.5.model()).len() + T6::encoding(self.6.model()).len() + T7::encoding(self.7.model()).len() + T8::encoding(self.8.model()).len() + T9::encoding(self.9.model()).len()),
            Ghost(T10::encoding(self.10.model()).len()),
        );
        total
    }
}

/// Writes the wire value of the tuple `(x0, x1, x2, x3, x4, x5, x6, x7, x8, x9, x10, x11)`.
fn write_tuple12<'a, T0: ToFromBytes<'a>, T1: ToFromBytes<'a>, T2: ToFromBytes<'a>, T3: ToFromBytes<'a>, T4: ToFromBytes<'a>, T5: ToFromBytes<'a>, T6: ToFromBytes<'a>, T7: ToFromBytes<'a>, T8: ToFromBytes<'a>, T9: ToFromBytes<'a>, T10: ToFromBytes<'a>, T11: ToFromBytes<'a>>(
    x0: &T0, x1: &T1, x2: &T2, x3: &T3, x4: &T4, x5: &T5, x6: &T6, x7: &T7, x8: &T8, x9: &T9, x10: &T10, x11: &T11,
    writer: &mut BytesWriter<'_>,
) -> (r: Result<(), ToFromByteError>)
    requires
        old(writer).wf(),
    ensures
        final(final(writer).data)@ == final(old(writer).data)@,
        encode_outcome(
            *old(writer),
            *final(writer),
            <(T0, T1, T2, T3, T4, T5, T6, T7, T8, T9, T10, T11) as ToFromBytes<'a>>::encodable((x0.model(), x1.model(), x2.model(), x3.model(), x4.model(), x5.model(), x6.model(), x7.model(), x8.model(), x9.model(), x10.model(), x11.model())),
            <(T0, T1, T2, T3, T4, T5, T6, T7, T8, T9, T10, T11) as ToFromBytes<'a>>::encoding((x0.model(), x1.model(), x2.model(), x3.model(), x4.model(), x5.model(), x6.model(), x7.model(), x8.model(), x9.model(), x10.model(), x11.model())),
            r,
        ),
{
    let ghost w0 = *writer;
    x0.to_bytes(writer)?;
    let r = write_tuple11(x1, x2, x3, x4, x5, x6, x7, x8, x9, x10, x11, writer);
    proof {
        if r is Ok {
            lemma_overwrite_twice(
                w0.data@,
                w0.pos as int,
                T0::encoding(x0.model()),
                <(T1, T2, T3, T4, T5, T6, T7, T8, T9, T10, T11) as ToFromBytes<'a>>::encoding((x1.model(), x2.model(), x3.model(), x4.model(), x5.model(), x6.model(), x7.model(), x8.model(), x9.model(), x10.model(), x11.model())),
            );
        }
    }
    r
}

/// 12-tuples: the first element's encoding, then the encoding of the other 11 as a tuple.
impl<'a, T0: ToFromBytes<'a>, T1: ToFromBytes<'a>, T2: ToFromBytes<'a>, T3: ToFromBytes<'a>, T4: ToFromBytes<'a>, T5: ToFromBytes<'a>, T6: ToFromBytes<'a>, T7: ToFromBytes<'a>, T8: ToFromBytes<'a>, T9: ToFromBytes<'a>, T10: ToFromBytes<'a>, T11: ToFromBytes<'a>> ToFromBytes<'a> for (T0, T1, T2, T3, T4, T5, T6, T7, T8, T9, T10, T11) {
    type Model = (T0::Model, T1::Model, T2::Model, T3::Model, T4::Model, T5::Model, T6::Model, T7::Model, T8::Model, T9::Model, T10::Model, T11::Model);

    open spec fn model(&self) -> (T0::Model, T1::Model, T2::Model, T3::Model, T4::Model, T5::Model, T6::Model, T7::Model, T8::Model, T9::Model, T10::Model, T11::Model) {
        (self.0.model(), self.1.model(), self.2.model(), self.3.model(), self.4.model(), self.5.model(), self.6.model(), self.7.model(), self.8.model(), self.9.model(), self.10.model(), self.11.model())
    }

    open spec fn spec_max_bytes() -> usize {
        CONTAINER_MAX_BYTES
    }

    open spec fn encodable(m: (T0::Model, T1::Model, T2::Model, T3::Model, T4::Model, T5::Model, T6::Model, T7::Model, T8::Model, T9::Model, T10::Model, T11::Model)) -> bool {
        T0::encodable(m.0) && <(T1, T2, T3, T4, T5, T6, T7, T8, T9, T10, T11) as ToFromBytes<'a>>::encodable((m.1, m.2, m.3, m.4, m.5, m.6, m.7, m.8, m.9, m.10, m.11))
    }

    open spec fn encoding(m: (T0::Model, T1::Model, T2::Model, T3::Model, T4::Model, T5::Model, T6::Model, T7::Model, T8::Model, T9::Model, T10::Model, T11::Model)) -> Seq<u8> {
        T0::encoding(m.0) + <(T1, T2, T3, T4, T5, T6, T7, T8, T9, T10, T11) as ToFromBytes<'a>>::encoding((m.1, m.2, m.3, m.4, m.5, m.6, m.7, m.8, m.9, m.10, m.11))
    }

    open spec fn parse(data: Seq<u8>) -> Result<((T0::Model, T1::Model, T2::Model, T3::Model, T4::Model, T5::Model, T6::Model, T7::Model, T8::Model, T9::Model, T10::Model, T11::Model), nat), ToFromByteError> {
        match T0::parse(data) {
            Ok((v0, n0)) => match <(T1, T2, T3, T4, T5, T6, T7, T8, T9, T10, T11) as ToFromBytes<'a>>::parse(data.skip(n0 as int)) {
                Ok((t, n)) => Ok(((v0, t.0, t.1, t.2, t.3, t.4, t.5, t.6, t.7, t.8, t.9, t.10), n0 + n)),
                Err(e) => Err(e),
            },
            Err(e) => Err(e),
        }
    }

    proof fn lemma_max_bytes_bounded() {
    }

    proof fn lemma_encoding_nonempty(m: (T0::Model, T1::Model, T2::Model, T3::Model, T4::Model, T5::Model, T6::Model, T7::Model, T8::Model, T9::Model, T10::Model, T11::Model)) {
        T0::lemma_encoding_nonempty(m.0);
    }

    proof fn lemma_unencodable_is_large(m: (T0::Model, T1::Model, T2::Model, T3::Model, T4::Model, T5::Model, T6::Model, T7::Model, T8::Model, T9::Model, T10::Model, T11::Model)) {
        if !T0::encodable(m.0) {
            T0::lemma_unencodable_is_large(m.0);
        } else {
            <(T1, T2, T3, T4, T5, T6, T7, T8, T9, T10, T11) as ToFromBytes<'a>>::lemma_unencodable_is_large((m.1, m.2, m.3, m.4, m.5, m.6, m.7, m.8, m.9, m.10, m.11));
        }
    }

    proof fn lemma_parse_encoding(m: (T0::Model, T1::Model, T2::Model, T3::Model, T4::Model, T5::Model, T6::Model, T7::Model, T8::Model, T9::Model, T10::Model, T11::Model), rest: Seq<u8>) {
        let head = T0::encoding(m.0);
        let tail = <(T1, T2, T3, T4, T5, T6, T7, T8, T9, T10, T11) as ToFromBytes<'a>>::encoding((m.1, m.2, m.3, m.4, m.5, m.6, m.7, m.8, m.9, m.10, m.11));
        assert(Self::encoding(m) + rest =~= head + (tail + rest));
        T0::lemma_parse_encoding(m.0, tail + rest);
        assert((head + (tail + rest)).skip(head.len() as int) =~= tail + rest);
        <(T1, T2, T3, T4, T5, T6, T7, T8, T9, T10, T11) as ToFromBytes<'a>>::lemma_parse_encoding((m.1, m.2, m.3, m.4, m.5, m.6, m.7, m.8, m.9, m.10, m.11), rest);
    }

    proof fn lemma_parse_truncated(m: (T0::Model, T1::Model, T2::Model, T3::Model, T4::Model, T5::Model, T6::Model, T7::Model, T8::Model, T9::Model, T10::Model, T11::Model), n: nat) {
        let head = T0::encoding(m.0);
        let tail = <(T1, T2, T3, T4, T5, T6, T7, T8, T9, T10, T11) as ToFromBytes<'a>>::encoding((m.1, m.2, m.3, m.4, m.5, m.6, m.7, m.8, m.9, m.10, m.11));
        let data = Self::encoding(m).take(n as int);
        if n < head.len() {
            assert(data =~= head.take(n as int));
            T0::lemma_parse_truncated(m.0, n);
        } else {
            let j = (n - head.len()) as nat;
            assert(data =~= head + tail.take(j as int));
            T0::lemma_parse_encoding(m.0, tail.take(j as int));
            assert(data.skip(head.len() as int) =~= tail.take(j as int));
            <(T1, T2, T3, T4, T5, T6, T7, T8, T9, T10, T11) as ToFromBytes<'a>>::lemma_parse_truncated((m.1, m.2, m.3, m.4, m.5, m.6, m.7, m.8, m.9, m.10, m.11), j);
        }
    }

    fn max_bytes() -> (r: usize) {
        CONTAINER_MAX_BYTES
    }

    fn to_bytes(&self, writer: &mut BytesWriter<'_>) -> (r: Result<(), ToFromByteError>) {
        write_tuple12(&self.0, &self.1, &self.2, &self.3, &self.4, &self.5, &self.6, &self.7, &self.8, &self.9, &self.10, &self.11, writer)
    }

    fn from_bytes(reader: &mut BytesReader<'a>) -> (r: Result<((T0, T1, T2, T3, T4, T5, T6, T7, T8, T9, T10, T11), usize), ToFromByteError>) {
        let start_pos = reader.pos;
        let ghost start = reader.remaining();
        let (v0, _) = T0::from_bytes(reader)?;
        assert(reader.remaining() =~= start.skip(reader.pos - start_pos));
        match <(T1, T2, T3, T4, T5, T6, T7, T8, T9, T10, T11) as ToFromBytes<'a>>::from_bytes(reader) {
            Ok(((v1, v2, v3, v4, v5, v6, v7, v8, v9, v10, v11), pos)) => Ok(((v0, v1, v2, v3, v4, v5, v6, v7, v8, v9, v10, v11), pos)),
            Err(e) => {
                reader.pos = start_pos;
                Err(e)
            },
        }
    }

    fn byte_count(&self) -> (r: usize) {
        let total = self.0.byte_count();
        let total = add_sizes(
            total,
            self.1.byte_count(),
            Ghost(T0::encoding(self.0.model()).len()),
            Ghost(T1::encoding(self.1.model()).len()),
        );
        let total = add_sizes(
            total,
            self.2.byte_count(),
            Ghost(T0::encoding(self.0.model()).len() + T1::encoding(self.1.model()).len()),
            Ghost(T2::encoding(self.2.model()).len()),
        );
        let total = add_sizes(
            total,
            self.3.byte_count(),
            Ghost(T0::encoding(self.0.model()).len() + T1::encoding(self.1.model()).len() + T2::encoding(self.2.model()).len()),
            Ghost(T3::encoding(self.3.model()).len()),
        );
        let total = add_sizes(
            total,
            self.4.byte_count(),
            Ghost(T0::encoding(self.0.model()).len() + T1::encoding(self.1.model()).len() + T2::encoding(self.2.model()).len() + T3::encoding(self.3.model()).len()),
            Ghost(T4::encoding(self.4.model()).len()),
        );
        let total = add_sizes(
            total,
            self.5.byte_count(),
            Ghost(T0::encoding(self.0.model()).len() + T1::encoding(self.1.model()).len() + T2::encoding(self.2.model()).len() + T3::encoding(self.3.model()).len() + T4::encoding(self.4.model()).len()),
            Ghost(T5::encoding(self.5.model()).len()),
        );
        let total = add_sizes(
            total,
            self.6.byte_count(),
            Ghost(T0::encoding(self.0.model()).len() + T1::encoding(self.1.model()).len() + T2::encoding(self.2.model()).len() + T3::encoding(self.3.model()).len() + T4::encoding(self.4.model()).len() + T5::encoding(self.5.model()).len()),
            Ghost(T6::encoding(self.6.model()).len()),
        );
        let total = add_sizes(
            total,
            self.7.byte_count(),
            Ghost(T0::encoding(self.0.model()).len() + T1::encoding(self.1.model()).len() + T2::encoding(self.2.model()).len() + T3::encoding(self.3.model()).len() + T4::encoding(self.4.model()).len() + T5::encoding(self.5.model()).len() + T6::encoding(self.6.model()).len()),
            Ghost(T7::encoding(self.7.model()).len()),
        );
        let total = add_sizes(
            total,
            self.8.byte_count(),
            Ghost(T0::encoding(self.0.model()).len() + T1::encoding(self.1.model()).len() + T2::encoding(self.2.model()).len() + T3::encoding(self.3.model()).len() + T4::encoding(self.4.model()).len() + T5::encoding(self.5.model()).len() + T6::encoding(self.6.model()).len() + T7::encoding(self.7.model()).len()),
            Ghost(T8::encoding(self.8.model()).len()),
        );
        let total = add_sizes(
            total,
            self.9.byte_count(),
            Ghost(T0::encoding(self.0.model()).len() + T1::encoding(self.1.model()).len() + T2::encoding(self.2.model()).len() + T3::encoding(self.3.model()).len() + T4::encoding(self.4.model()).len() + T5::encoding(self.5.model()).len() + T6::encoding(self.6.model()).len() + T7::encoding(self.7.model()).len() + T8::encoding(self.8.model()).len()),
            Ghost(T9::encoding(self.9.model()).len()),
        );
        let total = add_sizes(
            total,
            self.10.byte_count(),
            Ghost(T0::encoding(self.0.model()).len() + T1::encoding(self.1.model()).len() + T2::encoding(self.2.model()).len() + T3::encoding(self.3.model()).len() + T4::encoding(self.4.model()).len() + T5::encoding(self.5.model()).len() + T6::encoding(self.6.model()).len() + T7::encoding(self.7.model()).len() + T8::encoding(self.8.model()).len() + T9::encoding(self.9.model()).len()),
            Ghost(T10::encoding(self.10.model()).len()),
        );
        let total = add_sizes(
            total,
            self.11.byte_count(),
            Ghost(T0::encoding(self.0.model()).len() + T1::encoding(self.1.model()).len() + T2::encoding(self.2.model()).len() + T3::encoding(self.3.model()).len() + T4::encoding(self.4.model()).len() + T5::encoding(self.5.model()).len() + T6::encoding(self.6.model()).len() + T7::encoding(self.7.model()).len() + T8::encoding(self.8.model()).len() + T9::encoding(self.9.model()).len() + T10::encoding(self.10.model()).len()),
            Ghost(T11::encoding(self.11.model()).len()),
        );
        total
    }
}

/// Writes the wire value of the tuple `(x0, x1, x2, x3, x4, x5, x6, x7, x8, x9, x10, x11, x12)`.
fn write_tuple13<'a, T0: ToFromBytes<'a>, T1: ToFromBytes<'a>, T2: ToFromBytes<'a>, T3: ToFromBytes<'a>, T4: ToFromBytes<'a>, T5: ToFromBytes<'a>, T6: ToFromBytes<'a>, T7: ToFromBytes<'a>, T8: ToFromBytes<'a>, T9: ToFromBytes<'a>, T10: ToFromBytes<'a>, T11: ToFromBytes<'a>, T12: ToFromBytes<'a>>(
    x0: &T0, x1: &T1, x2: &T2, x3: &T3, x4: &T4, x5: &T5, x6: &T6, x7: &T7, x8: &T8, x9: &T9, x10: &T10, x11: &T11, x12: &T12,
    writer: &mut BytesWriter<'_>,
) -> (r: Result<(), ToFromByteError>)
    requires
        old(writer).wf(),
    ensures
        final(final(writer).data)@ == final(old(writer).data)@,
        encode_outcome(
            *old(writer),
            *final(writer),
            <(T0, T1, T2, T3, T4, T5, T6, T7, T8, T9, T10, T11, T12) as ToFromBytes<'a>>::encodable((x0.model(), x1.model(), x2.model(), x3.model(), x4.model(), x5.model(), x6.model(), x7.model(), x8.model(), x9.model(), x10.model(), x11.model(), x12.model())),
            <(T0, T1, T2, T3, T4, T5, T6, T7, T8, T9, T10, T11, T12) as ToFromBytes<'a>>::encoding((x0.model(), x1.model(), x2.model(), x3.model(), x4.model(), x5.model(), x6.model(), x7.model(), x8.model(), x9.model(), x10.model(), x11.model(), x12.model())),
            r,
        ),
{
    let ghost w0 = *writer;
    x0.to_bytes(writer)?;
    let r = write_tuple12(x1, x2, x3, x4, x5, x6, x7, x8, x9, x10, x11, x12, writer);
    proof {
        if r is Ok {
            lemma_overwrite_twice(
                w0.data@,
                w0.pos as int,
                T0::encoding(x0.model()),
                <(T1, T2, T3, T4, T5, T6, T7, T8, T9, T10, T11, T12) as ToFromBytes<'a>>::encoding((x1.model(), x2.model(), x3.model(), x4.model(), x5.model(), x6.model(), x7.model(), x8.model(), x9.model(), x10.model(), x11.model(), x12.model())),
            );
        }
    }
    r
}

/// 13-tuples: the first element's encoding, then the encoding of the other 12 as a tuple.
impl<'a, T0: ToFromBytes<'a>, T1: ToFromBytes<'a>, T2: ToFromBytes<'a>, T3: ToFromBytes<'a>, T4: ToFromBytes<'a>, T5: ToFromBytes<'a>, T6: ToFromBytes<'a>, T7: ToFromBytes<'a>, T8: ToFromBytes<'a>, T9: ToFromBytes<'a>, T10: ToFromBytes<'a>, T11: ToFromBytes<'a>, T12: ToFromBytes<'a>> ToFromBytes<'a> for (T0, T1, T2, T3, T4, T5, T6, T7, T8, T9, T10, T11, T12) {
    type Model = (T0::Model, T1::Model, T2::Model, T3::Model, T4::Model, T5::Model, T6::Model, T7::Model, T8::Model, T9::Model, T10::Model, T11::Model, T12::Model);

    open spec fn model(&self) -> (T0::Model, T1::Model, T2::Model, T3::Model, T4::Model, T5::Model, T6::Model, T7::Model, T8::Model, T9::Model, T10::Model, T11::Model, T12::Model) {
        (self.0.model(), self.1.model(), self.2.model(), self.3.model(), self.4.model(), self.5.model(), self.6.model(), self.7.model(), self.8.model(), self.9.model(), self.10.model(), self.11.model(), self.12.model())
    }

    open spec fn spec_max_bytes() -> usize {
        CONTAINER_MAX_BYTES
    }

    open spec fn encodable(m: (T0::Model, T1::Model, T2::Model, T3::Model, T4::Model, T5::Model, T6::Model, T7::Model, T8::Model, T9::Model, T10::Model, T11::Model, T12::Model)) -> bool {
        T0::encodable(m.0) && <(T1, T2, T3, T4, T5, T6, T7, T8, T9, T10, T11, T12) as ToFromBytes<'a>>::encodable((m.1, m.2, m.3, m.4, m.5, m.6, m.7, m.8, m.9, m.10, m.11, m.12))
    }

    open spec fn encoding(m: (T0::Model, T1::Model, T2::Model, T3::Model, T4::Model, T5::Model, T6::Model, T7::Model, T8::Model, T9::Model, T10::Model, T11::Model, T12::Model)) -> Seq<u8> {
        T0::encoding(m.0) + <(T1, T2, T3, T4, T5, T6, T7, T8, T9, T10, T11, T12) as ToFromBytes<'a>>::encoding((m.1, m.2, m.3, m.4, m.5, m.6, m.7, m.8, m.9, m.10, m.11, m.12))
    }

    open spec fn parse(data: Seq<u8>) -> Result<((T0::Model, T1::Model, T2::Model, T3::Model, T4::Model, T5::Model, T6::Model, T7::Model, T8::Model, T9::Model, T10::Model, T11::Model, T12::Model), nat), ToFromByteError> {
        match T0::parse(data) {
            Ok((v0, n0)) => match <(T1, T2, T3, T4, T5, T6, T7, T8, T9, T10, T11, T12) as ToFromBytes<'a>>::parse(data.skip(n0 as int)) {
                Ok((t, n)) => Ok(((v0, t.0, t.1, t.2, t.3, t.4, t.5, t.6, t.7, t.8, t.9, t.10, t.11), n0 + n)),
                Err(e) => Err(e),
            },
            Err(e) => Err(e),
        }
    }

    proof fn lemma_max_bytes_bounded() {
    }

    proof fn lemma_encoding_nonempty(m: (T0::Model, T1::Model, T2::Model, T3::Model, T4::Model, T5::Model, T6::Model, T7::Model, T8::Model, T9::Model, T10::Model, T11::Model, T12::Model)) {
        T0::lemma_encoding_nonempty(m.0);
    }

    proof fn lemma_unencodable_is_large(m: (T0::Model, T1::Model, T2::Model, T3::Model, T4::Model, T5::Model, T6::Model, T7::Model, T8::Model, T9::Model, T10::Model, T11::Model, T12::Model)) {
        if !T0::encodable(m.0) {
            T0::lemma_unencodable_is_large(m.0);
        } else {
            <(T1, T2, T3, T4, T5, T6, T7, T8, T9, T10, T11, T12) as ToFromBytes<'a>>::lemma_unencodable_is_large((m.1, m.2, m.3, m.4, m.5, m.6, m.7, m.8, m.9, m.10, m.11, m.12));
        }
    }

    proof fn lemma_parse_encoding(m: (T0::Model, T1::Model, T2::Model, T3::Model, T4::Model, T5::Model, T6::Model, T7::Model, T8::Model, T9::Model, T10::Model, T11::Model, T12::Model), rest: Seq<u8>) {
        let head = T0::encoding(m.0);
        let tail = <(T1, T2, T3, T4, T5, T6, T7, T8, T9, T10, T11, T12) as ToFromBytes<'a>>::encoding((m.1, m.2, m.3, m.4, m.5, m.6, m.7, m.8, m.9, m.10, m.11, m.12));
        assert(Self::encoding(m) + rest =~= head + (tail + rest));
        T0::lemma_parse_encoding(m.0, tail + rest);
        assert((head + (tail + rest)).skip(head.len() as int) =~= tail + rest);
        <(T1, T2, T3, T4, T5, T6, T7, T8, T9, T10, T11, T12) as ToFromBytes<'a>>::lemma_parse_encoding((m.1, m.2, m.3, m.4, m.5, m.6, m.7, m.8, m.9, m.10, m.11, m.12), rest);
    }

    proof fn lemma_parse_truncated(m: (T0::Model, T1::Model, T2::Model, T3::Model, T4::Model, T5::Model, T6::Model, T7::Model, T8::Model, T9::Model, T10::Model, T11::Model, T12::Model), n: nat) {
        let head = T0::encoding(m.0);
        let tail = <(T1, T2, T3, T4, T5, T6, T7, T8, T9, T10, T11, T12) as ToFromBytes<'a>>::encoding((m.1, m.2, m.3, m.4, m.5, m.6, m.7, m.8, m.9, m.10, m.11, m.12));
        let data = Self::encoding(m).take(n as int);
        if n < head.len() {
            assert(data =~= head.take(n as int));
            T0::lemma_parse_truncated(m.0, n);
        } else {
            let j = (n - head.len()) as nat;
            assert(data =~= head + tail.take(j as int));
            T0::lemma_parse_encoding(m.0, tail.take(j as int));
            assert(data.skip(head.len() as int) =~= tail.take(j as int));
            <(T1, T2, T3, T4, T5, T6, T7, T8, T9, T10, T11, T12) as ToFromBytes<'a>>::lemma_parse_truncated((m.1, m.2, m.3, m.4, m.5, m.6, m.7, m.8, m.9, m.10, m.11, m.12), j);
        }
    }

    fn max_bytes() -> (r: usize) {
        CONTAINER_MAX_BYTES
    }

    fn to_bytes(&self, writer: &mut BytesWriter<'_>) -> (r: Result<(), ToFromByteError>) {
        write_tuple13(&self.0, &self.1, &self.2, &self.3, &self.4, &self.5, &self.6, &self.7, &self.8, &self.9, &self.10, &self.11, &self.12, writer)
    }

    fn from_bytes(reader: &mut BytesReader<'a>) -> (r: Result<((T0, T1, T2, T3, T4, T5, T6, T7, T8, T9, T10, T11, T12), usize), ToFromByteError>) {
        let start_pos = reader.pos;
        let ghost start = reader.remaining();
        let (v0, _) = T0::from_bytes(reader)?;
        assert(reader.remaining() =~= start.skip(reader.pos - start_pos));
        match <(T1, T2, T3, T4, T5, T6, T7, T8, T9, T10, T11, T12) as ToFromBytes<'a>>::from_bytes(reader) {
            Ok(((v1, v2, v3, v4, v5, v6, v7, v8, v9, v10, v11, v12), pos)) => Ok(((v0, v1, v2, v3, v4, v5, v6, v7, v8, v9, v10, v11, v12), pos)),
            Err(e) => {
                reader.pos = start_pos;
                Err(e)
            },
        }
    }

    fn byte_count(&self) -> (r: usize) {
        let total = self.0.byte_count();
        let total = add_sizes(
            total,
            self.1.byte_count(),
            Ghost(T0::encoding(self.0.model()).len()),
            Ghost(T1::encoding(self.1.model()).len()),
        );
        let total = add_sizes(
            total,
            self.2.byte_count(),
            Ghost(T0::encoding(self.0.model()).len() + T1::encoding(self.1.model()).len()),
            Ghost(T2::encoding(self.2.model()).len()),
        );
        let total = add_sizes(
            total,
            self.3.byte_count(),
            Ghost(T0::encoding(self.0.model()).len() + T1::encoding(self.1.model()).len() + T2::encoding(self.2.model()).len()),
            Ghost(T3::encoding(self.3.model()).len()),
        );
        let total = add_sizes(
            total,
            self.4.byte_count(),
            Ghost(T0::encoding(self.0.model()).len() + T1::encoding(self.1.model()).len() + T2::encoding(self.2.model()).len() + T3::encoding(self.3.model()).len()),
            Ghost(T4::encoding(self.4.model()).len()),
        );
        let total = add_sizes(
            total,
            self.5.byte_count(),
            Ghost(T0::encoding(self.0.model()).len() + T1::encoding(self.1.model()).len() + T2::encoding(self.2.model()).len() + T3::encoding(self.3.model()).len() + T4::encoding(self.4.model()).len()),
            Ghost(T5::encoding(self.5.model()).len()),
        );
        let total = add_sizes(
            total,
            self.6.byte_count(),
            Ghost(T0::encoding(self.0.model()).len() + T1::encoding(self.1.model()).len() + T2::encoding(self.2.model()).len() + T3::encoding(self.3.model()).len() + T4::encoding(self.4.model()).len() + T5::encoding(self.5.model()).len()),
            Ghost(T6::encoding(self.6.model()).len()),
        );
        let total = add_sizes(
            total,
            self.7.byte_count(),
            Ghost(T0::encoding(self.0.model()).len() + T1::encoding(self.1.model()).len() + T2::encoding(self.2.model()).len() + T3::encoding(self.3.model()).len() + T4::encoding(self.4.model()).len() + T5::encoding(self.5.model()).len() + T6::encoding(self.6.model()).len()),
            Ghost(T7::encoding(self.7.model()).len()),
        );
        let total = add_sizes(
            total,
            self.8.byte_count(),
            Ghost(T0::encoding(self.0.model()).len() + T1::encoding(self.1.model()).len() + T2::encoding(self.2.model()).len() + T3::encoding(self.3.model()).len() + T4::encoding(self.4.model()).len() + T5::encoding(self.5.model()).len() + T6::encoding(self.6.model()).len() + T7::encoding(self.7.model()).len()),
            Ghost(T8::encoding(self.8.model()).len()),
        );
        let total = add_sizes(
            total,
            self.9.byte_count(),
            Ghost(T0::encoding(self.0.model()).len() + T1::encoding(self.1.model()).len() + T2::encoding(self.2.model()).len() + T3::encoding(self.3.model()).len() + T4::encoding(self.4.model()).len() + T5::encoding(self.5.model()).len() + T6::encoding(self.6.model()).len() + T7::encoding(self.7.model()).len() + T8::encoding(self.8.model()).len()),
            Ghost(T9::encoding(self.9.model()).len()),
        );
        let total = add_sizes(
            total,
            self.10.byte_count(),
            Ghost(T0::encoding(self.0.model()).len() + T1::encoding(self.1.model()).len() + T2::encoding(self.2.model()).len() + T3::encoding(self.3.model()).len() + T4::encoding(self.4.model()).len() + T5::encoding(self.5.model()).len() + T6::encoding(self.6.model()).len() + T7::encoding(self.7.model()).len() + T8::encoding(self.8.model()).len() + T9::encoding(self.9.model()).len()),
            Ghost(T10::encoding(self.10.model()).len()),
        );
        let total = add_sizes(
            total,
            self.11.byte_count(),
            Ghost(T0::encoding(self.0.model()).len() + T1::encoding(self.1.model()).len() + T2::encoding(self.2.model()).len() + T3::encoding(self.3.model()).len() + T4::encoding(self.4.model()).len() + T5::encoding(self.5.model()).len() + T6::encoding(self.6.model()).len() + T7::encoding(self.7.model()).len() + T8::encoding(self.8.model()).len() + T9::encoding(self.9.model()).len() + T10::encoding(self.10.model()).len()),
            Ghost(T11::encoding(self.11.model()).len()),
        );
        let total = add_sizes(
            total,
            self.12.byte_count(),
            Ghost(T0::encoding(self.0.model()).len() + T1::encoding(self.1.model()).len() + T2::encoding(self.2.model()).len() + T3::encoding(self.3.model()).len() + T4::encoding(self.4.model()).len() + T5::encoding(self.5.model()).len() + T6::encoding(self.6.model()).len() + T7::encoding(self.7.model()).len() + T8::encoding(self.8.model()).len() + T9::encoding(self.9.model()).len() + T10::encoding(self.10.model()).len() + T11::encoding(self.11.model()).len()),
            Ghost(T12::encoding(self.12.model()).len()),
        );
        total
    }
}

} // verus!
