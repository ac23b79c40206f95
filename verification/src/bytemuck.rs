//! Conversions between records and raw bytes.

use crate::error::SplPodError;
use crate::item::PodItem;
use crate::layout::{encodes, spec_chunk, spec_chunks, read_chunks};
use vstd::arithmetic::mul::lemma_mul_inequality;
use vstd::prelude::*;

verus! {

/// Stored size of a record type.
pub fn pod_get_packed_len<T: PodItem>() -> (r: usize)
    ensures
        r == T::spec_size(),
{
    T::packed_len()
}

/// The byte encoding of a record.
pub fn pod_bytes_of<T: PodItem>(t: &T) -> (r: Vec<u8>)
    ensures
        r@ == t.enc(),
{
    t.to_bytes()
}

/// Read one record out of exactly one record's worth of bytes.
pub fn pod_from_bytes<T: PodItem>(bytes: &[u8]) -> (r: Result<T, SplPodError>)
    ensures
        bytes@.len() == T::spec_size() ==> (r matches Ok(t) && t.enc() == bytes@),
        bytes@.len() != T::spec_size() ==> r == Err::<T, SplPodError>(SplPodError::PodCast),
{
    if bytes.len() == T::packed_len() {
        Ok(T::from_bytes(bytes))
    } else {
        Err(SplPodError::PodCast)
    }
}

/// Read one record, treating an empty input as no record at all.
pub fn pod_maybe_from_bytes<T: PodItem>(bytes: &[u8]) -> (r: Result<Option<T>, SplPodError>)
    ensures
        bytes@.len() == 0 ==> r == Ok::<Option<T>, SplPodError>(None),
        bytes@.len() == T::spec_size() && bytes@.len() != 0 ==> (r matches Ok(Some(t)) && t.enc()
            == bytes@),
        bytes@.len() != 0 && bytes@.len() != T::spec_size() ==> r == Err::<
            Option<T>,
            SplPodError,
        >(SplPodError::PodCast),
{
    if bytes.len() == 0 {
        Ok(None)
    } else if bytes.len() == T::packed_len() {
        Ok(Some(T::from_bytes(bytes)))
    } else {
        Err(SplPodError::PodCast)
    }
}

/// Read a whole run of records out of a buffer that divides evenly into
/// records.
pub fn pod_slice_from_bytes<T: PodItem>(bytes: &[u8]) -> (r: Result<Vec<T>, SplPodError>)
    ensures
        ({
            let size = T::spec_size() as int;
            if size > 0 && bytes@.len() as int % size == 0 {
                r matches Ok(items) && encodes(
                    items@,
                    spec_chunks(bytes@, 0, size, bytes@.len() as int / size),
                )
            } else {
                r == Err::<Vec<T>, SplPodError>(SplPodError::PodCast)
            }
        }),
{
    let size = T::packed_len();
    if size == 0 || bytes.len() % size != 0 {
        return Err(SplPodError::PodCast);
    }
    let count = bytes.len() / size;
    proof {
        let blen = bytes@.len() as int;
        let sz = size as int;
        vstd::arithmetic::div_mod::lemma_fundamental_div_mod(blen, sz);
        assert(count * sz == blen) by (nonlinear_arith)
            requires
                sz > 0,
                count == blen / sz,
                blen % sz == 0,
                blen == sz * (blen / sz) + blen % sz,
        ;
    }
    Ok(read_chunks::<T>(bytes, 0, count))
}

/// Encode a run of records into one contiguous byte buffer.
pub fn pod_slice_to_bytes<T: PodItem>(items: &[T]) -> (r: Vec<u8>)
    ensures
        r@.len() == items@.len() * T::spec_size(),
        encodes(items@, spec_chunks(r@, 0, T::spec_size() as int, items@.len() as int)),
{
    let size = T::packed_len();
    let n = items.len();
    let mut out: Vec<u8> = Vec::new();
    let mut i: usize = 0;
    while i < n
        invariant
            size == T::spec_size(),
            n == items@.len(),
            0 <= i <= n,
            out@.len() == i * size,
            i * size <= usize::MAX,
            forall|j: int|
                0 <= j < i ==> (#[trigger] items@[j]).enc() == spec_chunk(
                    out@,
                    0,
                    size as int,
                    j,
                ),
        decreases n - i,
    {
        let ghost pre = out@;
        let item = items[i];
        proof {
            item.lemma_enc_len();
            assert((i + 1) * size == i * size + size) by (nonlinear_arith);
        }
        let mut bytes = item.to_bytes();
        out.append(&mut bytes);
        proof {
            assert(vstd::std_specs::vec::spec_vec_len(&out) == out@.len());
            assert forall|j: int| 0 <= j < i + 1 implies (#[trigger] items@[j]).enc()
                == spec_chunk(out@, 0, size as int, j) by {
                assert(j * size >= 0) by (nonlinear_arith)
                    requires
                        j >= 0,
                        size >= 0,
                ;
                assert((j + 1) * size == j * size + size) by (nonlinear_arith);
                if j < i {
                    lemma_mul_inequality(j + 1, i as int, size as int);
                    assert(spec_chunk(out@, 0, size as int, j) =~= spec_chunk(
                        pre,
                        0,
                        size as int,
                        j,
                    ));
                } else {
                    assert(spec_chunk(out@, 0, size as int, j) =~= items@[j].enc());
                }
            }
        }
        i += 1;
    }
    proof {
        assert(encodes(items@, spec_chunks(out@, 0, T::spec_size() as int, items@.len() as int)));
    }
    out
}

} // verus!
