use vstd::arithmetic::div_mod::{lemma_breakdown, lemma_div_denominator, lemma_div_pos_is_pos};
use vstd::arithmetic::mul::lemma_mul_strictly_positive;
use vstd::prelude::*;

use crate::error::ToFromByteError;
use crate::reader::BytesReader;
use crate::writer::BytesWriter;

verus! {

/// `256` to the power `n`.
pub open spec fn pow256(n: nat) -> nat
    decreases n,
{
    if n == 0 {
        1
    } else {
        256 * pow256((n - 1) as nat)
    }
}

/// The `n` low bytes of `v`, most significant first.
pub open spec fn be_bytes(v: nat, n: nat) -> Seq<u8> {
    Seq::new(n, |k: int| ((v / pow256((n - 1 - k) as nat)) % 256) as u8)
}

/// The number that big-endian bytes stand for.
pub open spec fn be_value(s: Seq<u8>) -> nat
    decreases s.len(),
{
    if s.len() == 0 {
        0
    } else {
        (be_value(s.drop_last()) * 256 + s.last()) as nat
    }
}

/// The two's-complement form of `v` in `n` bytes, as an unsigned number.
pub open spec fn twos_complement(v: int, n: nat) -> nat {
    if v < 0 {
        (v + pow256(n)) as nat
    } else {
        v as nat
    }
}

/// The signed number whose `n`-byte two's-complement form is `u`.
pub open spec fn from_twos_complement(u: nat, n: nat) -> int {
    if n > 0 && u >= pow256(n) / 2 {
        u - pow256(n)
    } else {
        u as int
    }
}

pub proof fn lemma_pow256_positive(n: nat)
    ensures
        pow256(n) > 0,
    decreases n,
{
    if n > 0 {
        lemma_pow256_positive((n - 1) as nat);
    }
}

pub proof fn lemma_pow256_monotonic(a: nat, b: nat)
    requires
        a <= b,
    ensures
        pow256(a) <= pow256(b),
    decreases b,
{
    if a < b {
        lemma_pow256_monotonic(a, (b - 1) as nat);
        lemma_pow256_positive((b - 1) as nat);
    }
}

/// The byte values of the widths in use.
pub proof fn lemma_pow256_values()
    ensures
        pow256(0) == 1,
        pow256(1) == 0x100,
        pow256(2) == 0x1_0000,
        pow256(4) == 0x1_0000_0000,
        pow256(8) == 0x1_0000_0000_0000_0000,
        pow256(16) == 0x1_0000_0000_0000_0000_0000_0000_0000_0000,
{
    reveal_with_fuel(pow256, 17);
}

/// One byte holds a number below `256` as it is.
pub proof fn lemma_be_bytes_one(v: nat)
    requires
        v < 256,
    ensures
        be_bytes(v, 1) == seq![v as u8],
{
    assert(pow256(0) == 1);
    assert(be_bytes(v, 1)[0] == ((v / pow256(0)) % 256) as u8);
    assert(be_bytes(v, 1) =~= seq![v as u8]);
}

/// Reading back the `n` low bytes of `v` gives `v` modulo `256^n`.
pub proof fn lemma_be_value_of_bytes(v: nat, n: nat)
    ensures
        be_value(be_bytes(v, n)) == v % pow256(n),
        be_bytes(v, n).len() == n,
    decreases n,
{
    if n == 0 {
        assert(be_bytes(v, n) =~= Seq::<u8>::empty());
    } else {
        let s = be_bytes(v, n);
        lemma_pow256_positive((n - 1) as nat);
        lemma_be_value_of_bytes(v / 256, (n - 1) as nat);
        assert forall|k: int| 0 <= k < n - 1 implies #[trigger] s.drop_last()[k] == be_bytes(
            v / 256,
            (n - 1) as nat,
        )[k] by {
            lemma_pow256_positive((n - 2 - k) as nat);
            lemma_div_denominator(v as int, 256, pow256((n - 2 - k) as nat) as int);
        }
        assert(s.drop_last() =~= be_bytes(v / 256, (n - 1) as nat));
        assert(pow256(0) == 1);
        assert(s[n - 1] == ((v / pow256(0)) % 256) as u8);
        assert(v / 1 == v);
        assert(s.last() == v % 256);
        lemma_breakdown(v as int, 256, pow256((n - 1) as nat) as int);
    }
}

/// A value below `256^n` comes back whole from its `n` bytes.
pub proof fn lemma_be_round_trip(v: nat, n: nat)
    requires
        v < pow256(n),
    ensures
        be_value(be_bytes(v, n)) == v,
        be_bytes(v, n).len() == n,
{
    lemma_be_value_of_bytes(v, n);
    vstd::arithmetic::div_mod::lemma_small_mod(v, pow256(n));
}

/// `n` bytes stand for a number below `256^n`.
pub proof fn lemma_be_value_bound(s: Seq<u8>)
    ensures
        be_value(s) < pow256(s.len()),
    decreases s.len(),
{
    if s.len() > 0 {
        lemma_be_value_bound(s.drop_last());
    }
}

/// The two's-complement forms of an `n`-byte signed range come back whole.
pub proof fn lemma_twos_complement_round_trip(v: int, n: nat)
    requires
        n > 0,
        -(pow256(n) / 2) <= v < pow256(n) / 2,
    ensures
        twos_complement(v, n) < pow256(n),
        from_twos_complement(twos_complement(v, n), n) == v,
{
    lemma_pow256_positive((n - 1) as nat);
}

/// Writes the `width` low bytes of `v`, most significant first; where they do not fit,
/// fails with `NotEnoughBytes` and changes nothing.
pub fn write_uint<'a>(writer: &mut BytesWriter<'a>, v: u128, width: usize) -> (r: Result<
    (),
    ToFromByteError,
>)
    requires
        old(writer).wf(),
        width <= 16,
    ensures
        final(final(writer).data)@ == final(old(writer).data)@,
        final(writer).data@.len() == old(writer).data@.len(),
        width <= old(writer).room() ==> r is Ok && old(writer).wrote(
            &*final(writer),
            be_bytes(v as nat, width as nat),
        ),
        width > old(writer).room() ==> r == Err::<(), _>(ToFromByteError::NotEnoughBytes)
            && final(writer).pos == old(writer).pos && final(writer).data@ == old(writer).data@,
{
    if width > writer.data.len() - writer.pos {
        return Err(ToFromByteError::NotEnoughBytes);
    }
    let ghost target = be_bytes(v as nat, width as nat);
    let ghost start = writer.data@;
    let pos = writer.pos;
    let mut rest: u128 = v;
    let mut i: usize = 0;
    assert(pow256(0) == 1);
    while i < width
        invariant
            i <= width <= 16,
            pos == writer.pos == old(writer).pos,
            pos + width <= writer.data@.len(),
            start == old(writer).data@,
            target == be_bytes(v as nat, width as nat),
            writer.data@.len() == start.len(),
            final(writer.data)@ == final(old(writer).data)@,
            rest == v as nat / pow256(i as nat),
            forall|j: int|
                0 <= j < start.len() && !(pos + width - i <= j < pos + width) ==> #[trigger] writer.data@[j]
                    == start[j],
            forall|k: int| width - i <= k < width ==> writer.data@[pos + k] == #[trigger] target[k],
        decreases width - i,
    {
        proof {
            lemma_pow256_positive(i as nat);
            lemma_div_denominator(v as int, pow256(i as nat) as int, 256);
            assert(pow256((i + 1) as nat) == pow256(i as nat) * 256);
            assert(target[width - 1 - i] == ((v as nat / pow256(i as nat)) % 256) as u8);
        }
        assert(writer.data@.len() == writer.data.len());
        writer.data[pos + width - 1 - i] = (rest % 256) as u8;
        rest = rest / 256;
        i = i + 1;
    }
    assert(writer.data@ =~= crate::writer::overwrite(start, pos as int, target));
    writer.pos = pos + width;
    Ok(())
}

/// Reads `width` bytes as a big-endian number; where fewer remain, fails with
/// `NotEnoughBytes` and leaves the reader as it was.
pub fn read_uint<'a>(reader: &mut BytesReader<'a>, width: usize) -> (r: Result<
    u128,
    ToFromByteError,
>)
    requires
        old(reader).wf(),
        width <= 16,
    ensures
        final(reader).data == old(reader).data,
        final(reader).wf(),
        width <= old(reader).remaining().len() ==> (r matches Ok(v) && v == be_value(
            old(reader).remaining().take(width as int),
        ) && final(reader).pos == old(reader).pos + width),
        width > old(reader).remaining().len() ==> r == Err::<u128, _>(
            ToFromByteError::NotEnoughBytes,
        ) && final(reader).pos == old(reader).pos,
{
    let bytes = reader.read_bytes(width)?;
    let mut v: u128 = 0;
    let mut i: usize = 0;
    while i < width
        invariant
            i <= width <= 16,
            bytes@.len() == width,
            v == be_value(bytes@.take(i as int)),
        decreases width - i,
    {
        proof {
            lemma_be_value_bound(bytes@.take(i as int));
            lemma_pow256_monotonic((i + 1) as nat, 16);
            lemma_pow256_values();
            assert(bytes@.take(i + 1).drop_last() =~= bytes@.take(i as int));
        }
        v = v * 256 + bytes[i] as u128;
        i = i + 1;
    }
    assert(bytes@.take(i as int) =~= bytes@);
    assert(old(reader).remaining().take(width as int) =~= bytes@);
    Ok(v)
}

} // verus!
