//! The shared byte layout of every stored collection in this crate: a
//! length prefix, optional alignment padding, then a run of fixed-size
//! record chunks.

use crate::item::{PodItem, PodLength};
use vstd::arithmetic::div_mod::lemma_fundamental_div_mod;
use vstd::arithmetic::mul::lemma_mul_inequality;
use vstd::prelude::*;

verus! {

/// Number of whole records of `size` bytes that fit between `start` and
/// `total`.
pub open spec fn spec_capacity_of(total: int, start: int, size: int) -> int {
    if size > 0 && total >= start {
        (total - start) / size
    } else {
        0
    }
}

/// The bytes of record chunk `i` in `buf`, counting from `start`.
pub open spec fn spec_chunk(buf: Seq<u8>, start: int, size: int, i: int) -> Seq<u8> {
    buf.subrange(start + i * size, start + i * size + size)
}

/// The first `count` record chunks of `buf`, counting from `start`.
pub open spec fn spec_chunks(buf: Seq<u8>, start: int, size: int, count: int) -> Seq<Seq<u8>> {
    Seq::new(if count >= 0 { count as nat } else { 0 }, |i: int| spec_chunk(buf, start, size, i))
}

/// The length-prefix bytes of `buf`.
pub open spec fn spec_prefix<L: PodLength>(buf: Seq<u8>) -> Seq<u8> {
    buf.subrange(0, L::spec_size() as int)
}

/// The record count that the length prefix of `buf` stores.
pub open spec fn spec_stored_count<L: PodLength>(buf: Seq<u8>) -> nat
    recommends
        buf.len() >= L::spec_size(),
{
    L::spec_len_of_bytes(spec_prefix::<L>(buf))
}

/// Padding inserted after a prefix of `prefix_size` bytes so that data
/// starts at a multiple of `align`.
pub open spec fn spec_padding_for(prefix_size: int, align: int) -> int {
    if align <= 1 {
        0
    } else if prefix_size % align == 0 {
        0
    } else {
        align - (prefix_size % align)
    }
}

/// Record chunk `i` lies inside the buffer whenever `i` is below the
/// buffer's capacity.
pub proof fn lemma_chunk_fits(total: int, start: int, size: int, i: int)
    requires
        size > 0,
        0 <= start <= total,
        0 <= i < spec_capacity_of(total, start, size),
    ensures
        start + (i + 1) * size <= total,
        i * size >= 0,
        (i + 1) * size == i * size + size,
{
    let n = total - start;
    lemma_fundamental_div_mod(n, size);
    lemma_mul_inequality(i + 1, n / size, size);
    assert((i + 1) * size <= (n / size) * size);
    assert(i * size >= 0) by (nonlinear_arith)
        requires
            i >= 0,
            size > 0,
    ;
    assert((i + 1) * size == i * size + size) by (nonlinear_arith);
}

/// Overwrite `bytes.len()` bytes of `buf` starting at `at`; every other
/// byte keeps its value.
pub fn splice(buf: &mut Vec<u8>, at: usize, bytes: &[u8])
    requires
        at + bytes@.len() <= old(buf)@.len(),
    ensures
        final(buf)@.len() == old(buf)@.len(),
        final(buf)@ == old(buf)@.subrange(0, at as int) + bytes@ + old(buf)@.subrange(
            at + bytes@.len(),
            old(buf)@.len() as int,
        ),
{
    let n = bytes.len();
    let total = buf.len();
    let mut i: usize = 0;
    while i < n
        invariant
            n == bytes@.len(),
            at + n <= total <= usize::MAX,
            total == buf@.len(),
            at + n <= buf@.len(),
            buf@.len() == old(buf)@.len(),
            0 <= i <= n,
            forall|j: int| 0 <= j < i ==> buf@[at + j] == bytes@[j],
            forall|j: int| 0 <= j < buf@.len() && !(at <= j < at + i) ==> buf@[j] == old(buf)@[j],
        decreases n - i,
    {
        buf[at + i] = bytes[i];
        i += 1;
    }
    proof {
        assert(buf@ =~= old(buf)@.subrange(0, at as int) + bytes@ + old(buf)@.subrange(
            at + bytes@.len(),
            old(buf)@.len() as int,
        ));
    }
}

/// A splice leaves every chunk that does not overlap the spliced range
/// unchanged.
pub proof fn lemma_chunks_outside_splice(
    pre: Seq<u8>,
    post: Seq<u8>,
    start: int,
    size: int,
    count: int,
    at: int,
    written: int,
)
    requires
        pre.len() == post.len(),
        forall|j: int| 0 <= j < pre.len() && !(at <= j < at + written) ==> post[j] == pre[j],
        size > 0,
        0 <= start,
        count >= 0,
        start + count * size <= pre.len(),
        at + written <= start || at >= start + count * size,
    ensures
        spec_chunks(post, start, size, count) == spec_chunks(pre, start, size, count),
{
    assert forall|i: int| 0 <= i < count implies spec_chunk(post, start, size, i) == spec_chunk(
        pre,
        start,
        size,
        i,
    ) by {
        lemma_mul_inequality(i + 1, count, size);
        assert(i * size >= 0) by (nonlinear_arith)
            requires
                i >= 0,
                size > 0,
        ;
        assert((i + 1) * size == i * size + size) by (nonlinear_arith);
        assert(spec_chunk(post, start, size, i) =~= spec_chunk(pre, start, size, i));
    }
    assert(spec_chunks(post, start, size, count) =~= spec_chunks(pre, start, size, count));
}

/// Items encode, element for element, to the given chunks.
pub open spec fn encodes<T: PodItem>(items: Seq<T>, chunks: Seq<Seq<u8>>) -> bool {
    &&& items.len() == chunks.len()
    &&& forall|i: int| 0 <= i < items.len() ==> items[i].enc() == #[trigger] chunks[i]
}

/// Read the record count stored in the length prefix of `data`, or `None`
/// when the stored count does not fit in `usize`.
pub fn read_count_prefix<L: PodLength>(data: &[u8]) -> (r: Option<usize>)
    requires
        data@.len() >= L::spec_size(),
    ensures
        match r {
            Some(v) => v == spec_stored_count::<L>(data@),
            None => spec_stored_count::<L>(data@) > usize::MAX,
        },
{
    let lsize = L::packed_len();
    let prefix = L::from_bytes(vstd::slice::slice_subrange(data, 0, lsize));
    prefix.len_value()
}

/// Store `v` in the length prefix of `buf`; every byte past the prefix
/// keeps its value.
pub fn write_count_prefix<L: PodLength>(buf: &mut Vec<u8>, v: usize) -> (r: Result<
    (),
    crate::error::SplPodError,
>)
    requires
        old(buf)@.len() >= L::spec_size(),
    ensures
        final(buf)@.len() == old(buf)@.len(),
        final(buf)@.subrange(L::spec_size() as int, final(buf)@.len() as int) == old(
            buf,
        )@.subrange(L::spec_size() as int, old(buf)@.len() as int),
        match r {
            Ok(()) => v <= L::spec_max() && spec_stored_count::<L>(final(buf)@) == v,
            Err(e) => v > L::spec_max() && e == crate::error::SplPodError::ValueOutOfRange
                && final(buf)@ == old(buf)@,
        },
{
    match L::from_len(v) {
        Ok(prefix) => {
            proof {
                prefix.lemma_enc_len();
            }
            let bytes = prefix.to_bytes();
            splice(buf, 0, bytes.as_slice());
            proof {
                assert(spec_prefix::<L>(buf@) =~= prefix.enc());
                assert(buf@.subrange(L::spec_size() as int, buf@.len() as int) =~= old(
                    buf,
                )@.subrange(L::spec_size() as int, old(buf)@.len() as int));
            }
            Ok(())
        },
        Err(e) => Err(e),
    }
}

/// Decode the first `count` records stored in `data` past `start`.
pub fn read_chunks<T: PodItem>(data: &[u8], start: usize, count: usize) -> (r: Vec<T>)
    requires
        T::spec_size() > 0,
        start + count * T::spec_size() <= data@.len(),
    ensures
        encodes(r@, spec_chunks(data@, start as int, T::spec_size() as int, count as int)),
{
    let size = T::packed_len();
    let dlen = data.len();
    let mut items: Vec<T> = Vec::new();
    let mut i: usize = 0;
    while i < count
        invariant
            T::spec_size() > 0,
            size == T::spec_size(),
            dlen == data@.len(),
            start + count * size <= dlen,
            0 <= i <= count,
            items@.len() == i,
            forall|j: int|
                0 <= j < i ==> (#[trigger] items@[j]).enc() == spec_chunk(
                    data@,
                    start as int,
                    size as int,
                    j,
                ),
        decreases count - i,
    {
        proof {
            lemma_mul_inequality(i + 1 as int, count as int, size as int);
            assert(i * size >= 0) by (nonlinear_arith)
                requires
                    i >= 0,
                    size > 0,
            ;
            assert((i + 1) * size == i * size + size) by (nonlinear_arith);
            assert(start + i * size + size <= dlen);
        }
        let off = start + i * size;
        let item = T::from_bytes(vstd::slice::slice_subrange(data, off, off + size));
        items.push(item);
        i += 1;
    }
    proof {
        assert(encodes(
            items@,
            spec_chunks(data@, start as int, T::spec_size() as int, count as int),
        ));
    }
    items
}

/// Move every chunk in `from + 1 .. count` one place down, overwriting
/// chunk `from`; bytes outside the overwritten range keep their value.
pub fn shift_chunks_left(buf: &mut Vec<u8>, start: usize, size: usize, from: usize, count: usize)
    requires
        size > 0,
        from < count,
        start + count * size <= old(buf)@.len(),
    ensures
        final(buf)@.len() == old(buf)@.len(),
        forall|b: int|
            0 <= b < old(buf)@.len() && !(start + from * size <= b < start + (count - 1) * size)
                ==> final(buf)@[b] == old(buf)@[b],
        forall|k: int|
            from <= k < count - 1 ==> spec_chunk(final(buf)@, start as int, size as int, k)
                == spec_chunk(old(buf)@, start as int, size as int, k + 1),
{
    let dlen = buf.len();
    let mut j = from;
    while j < count - 1
        invariant
            size > 0,
            from <= j <= count - 1,
            from < count,
            start + count * size <= dlen,
            dlen == buf@.len() == old(buf)@.len(),
            forall|b: int|
                0 <= b < dlen && !(start + from * size <= b < start + j * size) ==> buf@[b] == old(
                    buf,
                )@[b],
            forall|k: int|
                from <= k < j ==> spec_chunk(buf@, start as int, size as int, k) == spec_chunk(
                    old(buf)@,
                    start as int,
                    size as int,
                    k + 1,
                ),
        decreases count - j,
    {
        proof {
            assert(j * size >= 0) by (nonlinear_arith)
                requires
                    j >= 0,
                    size > 0,
            ;
            assert((j + 1) * size == j * size + size) by (nonlinear_arith);
            assert((j + 2) * size == (j + 1) * size + size) by (nonlinear_arith);
            assert(start + (j + 2) * size <= dlen) by {
                lemma_mul_inequality(j + 2, count as int, size as int);
            }
        }
        let src_off = start + (j + 1) * size;
        let ghost pre = buf@;
        let chunk_bytes = vstd::slice::slice_to_vec(
            vstd::slice::slice_subrange(buf.as_slice(), src_off, src_off + size),
        );
        splice(buf, start + j * size, chunk_bytes.as_slice());
        proof {
            assert forall|b: int|
                0 <= b < dlen && !(start + from * size <= b < start + (j + 1) * size) implies buf@[b]
                == old(buf)@[b] by {
                assert((j + 1) * size == j * size + size) by (nonlinear_arith);
                assert(j * size >= from * size) by (nonlinear_arith)
                    requires
                        from <= j,
                        size > 0,
                ;
                assert(buf@[b] == pre[b]);
            }
            assert forall|k: int| from <= k < j + 1 implies spec_chunk(
                buf@,
                start as int,
                size as int,
                k,
            ) == spec_chunk(old(buf)@, start as int, size as int, k + 1) by {
                assert((k + 1) * size == k * size + size) by (nonlinear_arith);
                assert((k + 2) * size == (k + 1) * size + size) by (nonlinear_arith);
                assert(k * size >= 0) by (nonlinear_arith)
                    requires
                        k >= 0,
                        size > 0,
                ;
                lemma_mul_inequality(k + 2, count as int, size as int);
                if k < j {
                    assert(k * size + size <= j * size) by (nonlinear_arith)
                        requires
                            k < j,
                            size > 0,
                    ;
                    assert(spec_chunk(buf@, start as int, size as int, k) =~= spec_chunk(
                        pre,
                        start as int,
                        size as int,
                        k,
                    ));
                } else {
                    assert(spec_chunk(buf@, start as int, size as int, k) =~= spec_chunk(
                        old(buf)@,
                        start as int,
                        size as int,
                        k + 1,
                    ));
                }
            }
        }
        j += 1;
    }
}

} // verus!
