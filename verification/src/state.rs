//! The persisted requirement list and the resolution pass: a
//! discriminator-keyed entry inside a type-length-value buffer holds a
//! capacity-bounded run of account requirements, and resolution expands a
//! partially-specified instruction by each requirement in stored order.

use crate::account::{
    spec_meta_of_bytes, spec_resolve_meta, ExtraAccountMeta, ExtraAccountMetaV,
};
use crate::account_info::{infos_view, AccountInfo, AccountInfoV};
use crate::error::{
    spec_pod_err, spec_res_err, AccountResolutionError, ProgramError, SplPodError, TlvError,
};
use crate::instruction::{keys_of, metas_view, AccountMeta, AccountMetaV, Instruction};
use crate::item::PodItem;
use crate::layout::splice;
use crate::pubkey::Pubkey;
use crate::slice::{spec_pod_slice_unpack, PodSlice};
use vstd::bytes::{spec_u32_from_le_bytes, spec_u32_to_le_bytes, u32_from_le_bytes, u32_to_le_bytes};
use vstd::prelude::*;

verus! {

/// Number of bytes an entry header occupies: an 8-byte discriminator and
/// a 4-byte little-endian value length.
pub const TLV_BASE_LEN: usize = 12;

/// An unused discriminator slot: all zeros.
pub open spec fn spec_zero_discriminator() -> Seq<u8> {
    Seq::new(8, |i: int| 0u8)
}

/// The value bytes stored for a discriminator: entries are walked from
/// `off`; an all-zero discriminator means no further entry exists.
pub open spec fn spec_tlv_get(data: Seq<u8>, disc: Seq<u8>, off: int) -> Result<
    Seq<u8>,
    ProgramError,
>
    decreases data.len() - off,
{
    if off < 0 || off + TLV_BASE_LEN > data.len() {
        Err(ProgramError::InvalidAccountData)
    } else {
        let entry_disc = data.subrange(off, off + 8);
        if entry_disc == spec_zero_discriminator() {
            Err(ProgramError::Custom(TlvError::TypeNotFound.spec_code()))
        } else {
            let len = spec_u32_from_le_bytes(data.subrange(off + 8, off + 12)) as int;
            if off + 12 + len > data.len() {
                Err(ProgramError::InvalidAccountData)
            } else if entry_disc == disc {
                Ok(data.subrange(off + 12, off + 12 + len))
            } else {
                spec_tlv_get(data, disc, off + 12 + len)
            }
        }
    }
}

/// The value offset that allocating `size` bytes under `disc` claims:
/// the first unused slot, provided the whole entry fits the buffer and
/// no entry already uses `disc`.
pub open spec fn spec_tlv_alloc_off(data: Seq<u8>, disc: Seq<u8>, size: int, off: int) -> Result<
    int,
    ProgramError,
>
    decreases data.len() - off,
{
    if off < 0 || off + TLV_BASE_LEN > data.len() {
        Err(spec_pod_err(SplPodError::BufferTooSmall))
    } else {
        let entry_disc = data.subrange(off, off + 8);
        if entry_disc == spec_zero_discriminator() {
            if off + 12 + size > data.len() {
                Err(spec_pod_err(SplPodError::BufferTooSmall))
            } else {
                Ok(off + 12)
            }
        } else if entry_disc == disc {
            Err(ProgramError::Custom(TlvError::TypeAlreadyExists.spec_code()))
        } else {
            let len = spec_u32_from_le_bytes(data.subrange(off + 8, off + 12)) as int;
            if off + 12 + len > data.len() {
                Err(ProgramError::InvalidAccountData)
            } else {
                spec_tlv_alloc_off(data, disc, size, off + 12 + len)
            }
        }
    }
}

/// Copy the value bytes stored for a discriminator.
fn tlv_get_value(data: &[u8], disc: &[u8; 8]) -> (r: Result<Vec<u8>, ProgramError>)
    ensures
        match (r, spec_tlv_get(data@, disc@, 0)) {
            (Ok(v), Ok(bytes)) => v@ == bytes,
            (Err(e), Err(f)) => e == f,
            _ => false,
        },
{
    let dlen = data.len();
    let zero = [0u8; 8];
    let mut off: usize = 0;
    loop
        invariant
            dlen == data@.len(),
            0 <= off <= dlen,
            zero@ == spec_zero_discriminator(),
            spec_tlv_get(data@, disc@, off as int) == spec_tlv_get(data@, disc@, 0),
        decreases dlen - off,
    {
        proof {
            assert(zero@ =~= spec_zero_discriminator());
        }
        if dlen - off < TLV_BASE_LEN {
            return Err(ProgramError::InvalidAccountData);
        }
        let entry_disc = vstd::slice::slice_subrange(data, off, off + 8);
        if crate::pods::bytes_eq(entry_disc, zero.as_slice()) {
            return Err(ProgramError::Custom(TlvError::TypeNotFound.code()));
        }
        let len = u32_from_le_bytes(vstd::slice::slice_subrange(data, off + 8, off + 12)) as usize;
        if len > dlen - off - 12 {
            return Err(ProgramError::InvalidAccountData);
        }
        if crate::pods::bytes_eq(entry_disc, disc.as_slice()) {
            let value = vstd::slice::slice_to_vec(
                vstd::slice::slice_subrange(data, off + 12, off + 12 + len),
            );
            return Ok(value);
        }
        off = off + 12 + len;
    }
}

/// Find the value offset an allocation would claim, without writing.
fn tlv_alloc_offset(data: &[u8], disc: &[u8; 8], size: usize) -> (r: Result<usize, ProgramError>)
    ensures
        match (r, spec_tlv_alloc_off(data@, disc@, size as int, 0)) {
            (Ok(v), Ok(w)) => v as int == w && 12 <= v && v + size <= data@.len(),
            (Err(e), Err(f)) => e == f,
            _ => false,
        },
{
    let dlen = data.len();
    let zero = [0u8; 8];
    let mut off: usize = 0;
    loop
        invariant
            dlen == data@.len(),
            0 <= off <= dlen,
            zero@ == spec_zero_discriminator(),
            spec_tlv_alloc_off(data@, disc@, size as int, off as int) == spec_tlv_alloc_off(
                data@,
                disc@,
                size as int,
                0,
            ),
        decreases dlen - off,
    {
        proof {
            assert(zero@ =~= spec_zero_discriminator());
        }
        if dlen - off < TLV_BASE_LEN {
            return Err(ProgramError::from(SplPodError::BufferTooSmall));
        }
        let entry_disc = vstd::slice::slice_subrange(data, off, off + 8);
        if crate::pods::bytes_eq(entry_disc, zero.as_slice()) {
            if size > dlen - off - 12 {
                return Err(ProgramError::from(SplPodError::BufferTooSmall));
            }
            return Ok(off + 12);
        }
        if crate::pods::bytes_eq(entry_disc, disc.as_slice()) {
            return Err(ProgramError::Custom(TlvError::TypeAlreadyExists.code()));
        }
        let len = u32_from_le_bytes(vstd::slice::slice_subrange(data, off + 8, off + 12)) as usize;
        if len > dlen - off - 12 {
            return Err(ProgramError::InvalidAccountData);
        }
        off = off + 12 + len;
    }
}

/// The requirements a run of stored record chunks denotes.
pub open spec fn spec_metas_of_chunks(chunks: Seq<Seq<u8>>) -> Seq<ExtraAccountMetaV> {
    chunks.map_values(|c: Seq<u8>| spec_meta_of_bytes(c))
}

/// The account references that resolving the requirements in stored
/// order appends: each requirement sees the instruction's accounts
/// followed by every requirement already resolved.
pub open spec fn spec_resolve_all(
    metas: Seq<ExtraAccountMetaV>,
    program_id: Seq<u8>,
    keys0: Seq<Seq<u8>>,
    data: Seq<u8>,
) -> Result<Seq<AccountMetaV>, ProgramError>
    decreases metas.len(),
{
    if metas.len() == 0 {
        Ok(Seq::empty())
    } else {
        match spec_resolve_all(metas.drop_last(), program_id, keys0, data) {
            Err(e) => Err(e),
            Ok(prev) => match spec_resolve_meta(
                metas.last(),
                program_id,
                keys0 + keys_of(prev),
                data,
            ) {
                Err(e) => Err(e),
                Ok(m) => Ok(prev.push(m)),
            },
        }
    }
}

/// Once a prefix of the requirement list fails to resolve, the whole
/// list fails the same way.
pub proof fn lemma_resolve_all_prefix_error(
    metas: Seq<ExtraAccountMetaV>,
    program_id: Seq<u8>,
    keys0: Seq<Seq<u8>>,
    data: Seq<u8>,
    j: int,
)
    requires
        0 <= j <= metas.len(),
        spec_resolve_all(metas.take(j), program_id, keys0, data) is Err,
    ensures
        spec_resolve_all(metas, program_id, keys0, data) == spec_resolve_all(
            metas.take(j),
            program_id,
            keys0,
            data,
        ),
    decreases metas.len() - j,
{
    if j < metas.len() {
        assert(metas.take(j + 1).drop_last() =~= metas.take(j));
        lemma_resolve_all_prefix_error(metas, program_id, keys0, data, j + 1);
    } else {
        assert(metas.take(j) =~= metas);
    }
}

/// Everything resolution determines from a stored buffer: find the
/// discriminator's value bytes, read the requirement run, resolve each
/// requirement in stored order.
pub open spec fn spec_eaml_resolution(
    data: Seq<u8>,
    disc: Seq<u8>,
    instr: crate::instruction::InstructionV,
) -> Result<Seq<AccountMetaV>, ProgramError> {
    match spec_tlv_get(data, disc, 0) {
        Err(e) => Err(e),
        Ok(value) => match spec_pod_slice_unpack::<ExtraAccountMeta>(value) {
            Err(e) => Err(e),
            Ok(chunks) => spec_resolve_all(
                spec_metas_of_chunks(chunks),
                instr.program_id,
                keys_of(instr.accounts),
                instr.data,
            ),
        },
    }
}

/// A record value's view is the requirement its encoding denotes.
pub proof fn lemma_meta_of_enc(m: ExtraAccountMeta)
    ensures
        spec_meta_of_bytes(m.enc()) == m@,
{
    assert(m.enc().subrange(1, 33) =~= m.address_config@);
}

/// Resolve a run of requirements against an instruction's accounts,
/// appending each resolved reference to a working copy of the account
/// list.
fn resolve_metas(
    metas: &Vec<ExtraAccountMeta>,
    program_id: &Pubkey,
    accounts: &Vec<AccountMeta>,
    data: &[u8],
) -> (r: Result<Vec<AccountMeta>, ProgramError>)
    ensures
        ({
            let s = spec_resolve_all(
                metas@.map_values(|m: ExtraAccountMeta| m@),
                program_id@,
                keys_of(metas_view(accounts@)),
                data@,
            );
            match (r, s) {
                (Ok(out), Ok(resolved)) => metas_view(out@) == metas_view(accounts@) + resolved,
                (Err(e), Err(f)) => e == f,
                _ => false,
            }
        }),
{
    let ghost metviews = metas@.map_values(|m: ExtraAccountMeta| m@);
    let ghost keys0 = keys_of(metas_view(accounts@));
    let mut working: Vec<AccountMeta> = Vec::new();
    let base = accounts.len();
    let mut i: usize = 0;
    while i < base
        invariant
            base == accounts@.len(),
            0 <= i <= base,
            working@.len() == i,
            forall|j: int| 0 <= j < i ==> working@[j] == accounts@[j],
        decreases base - i,
    {
        working.push(accounts[i]);
        i += 1;
    }
    proof {
        assert(working@ =~= accounts@);
    }
    let n = metas.len();
    let mut i: usize = 0;
    while i < n
        invariant
            n == metas@.len(),
            0 <= i <= n,
            metviews == metas@.map_values(|m: ExtraAccountMeta| m@),
            keys0 == keys_of(metas_view(accounts@)),
            working@.len() == accounts@.len() + i,
            spec_resolve_all(metviews.take(i as int), program_id@, keys0, data@) matches Ok(v)
                && metas_view(working@) == metas_view(accounts@) + v,
        decreases n - i,
    {
        proof {
            assert(metviews.take(i + 1).drop_last() =~= metviews.take(i as int));
            assert(metviews.take(i + 1).last() == metviews[i as int]);
            assert(metviews[i as int] == metas@[i as int]@);
        }
        let meta = &metas[i];
        let ghost wpre = working@;
        let resolved = match meta.resolve(program_id, &working, data) {
            Ok(m) => m,
            Err(e) => {
                proof {
                    let prev = spec_resolve_all(
                        metviews.take(i as int),
                        program_id@,
                        keys0,
                        data@,
                    )->Ok_0;
                    assert(keys_of(metas_view(working@)) =~= keys0 + keys_of(prev));
                    lemma_resolve_all_prefix_error(metviews, program_id@, keys0, data@, i + 1);
                }
                return Err(e);
            },
        };
        proof {
            let prev = spec_resolve_all(metviews.take(i as int), program_id@, keys0, data@)->Ok_0;
            assert(keys_of(metas_view(working@)) =~= keys0 + keys_of(prev));
        }
        working.push(resolved);
        proof {
            let prev = spec_resolve_all(metviews.take(i as int), program_id@, keys0, data@)->Ok_0;
            assert(spec_resolve_all(
                metviews.take(i + 1).drop_last(),
                program_id@,
                keys0,
                data@,
            ) == Ok::<Seq<AccountMetaV>, ProgramError>(prev));
            assert(spec_resolve_meta(
                metviews[i as int],
                program_id@,
                keys_of(metas_view(wpre)),
                data@,
            ) == Ok::<AccountMetaV, ProgramError>(resolved@));
            assert(keys_of(metas_view(wpre)) == keys0 + keys_of(prev));
            assert(spec_resolve_meta(
                metviews.take(i + 1).last(),
                program_id@,
                keys0 + keys_of(prev),
                data@,
            ) == Ok::<AccountMetaV, ProgramError>(resolved@));
            assert(spec_resolve_all(metviews.take(i + 1), program_id@, keys0, data@) == Ok::<
                Seq<AccountMetaV>,
                ProgramError,
            >(prev.push(resolved@)));
            let v = spec_resolve_all(metviews.take(i + 1), program_id@, keys0, data@)->Ok_0;
            assert(v == prev.push(resolved@));
            assert(working@ =~= wpre.push(resolved));
            assert forall|j: int| 0 <= j < working@.len() implies metas_view(working@)[j] == (
            metas_view(accounts@) + v)[j] by {
                if j < wpre.len() {
                    assert(metas_view(working@)[j] == wpre[j]@);
                    assert(metas_view(wpre)[j] == (metas_view(accounts@) + prev)[j]);
                } else {
                    assert(metas_view(working@)[j] == resolved@);
                }
            }
            assert(metas_view(working@) =~= metas_view(accounts@) + v);
        }
        i += 1;
    }
    proof {
        assert(metviews.take(n as int) =~= metviews);
    }
    Ok(working)
}

/// The first handle in the pool whose address matches.
pub open spec fn spec_find_info(pool: Seq<AccountInfoV>, key: Seq<u8>) -> Option<AccountInfoV>
    decreases pool.len(),
{
    if pool.len() == 0 {
        None
    } else if pool.first().key == key {
        Some(pool.first())
    } else {
        spec_find_info(pool.drop_first(), key)
    }
}

/// When no handle before position `i` matches, the search result is the
/// search result from position `i` on.
pub proof fn lemma_find_info_from(pool: Seq<AccountInfoV>, key: Seq<u8>, i: int)
    requires
        0 <= i <= pool.len(),
        forall|j: int| 0 <= j < i ==> pool[j].key != key,
    ensures
        spec_find_info(pool, key) == spec_find_info(pool.skip(i), key),
    decreases i,
{
    if i > 0 {
        lemma_find_info_from(pool, key, i - 1);
        assert(pool.skip(i - 1).first() == pool[i - 1]);
        assert(pool.skip(i - 1).drop_first() =~= pool.skip(i));
    } else {
        assert(pool.skip(0) =~= pool);
    }
}

/// The handles matched to a run of resolved references, in resolution
/// order; fails when some reference has no handle in the pool.
pub open spec fn spec_match_handles(
    resolved: Seq<AccountMetaV>,
    pool: Seq<AccountInfoV>,
) -> Result<Seq<AccountInfoV>, ProgramError>
    decreases resolved.len(),
{
    if resolved.len() == 0 {
        Ok(Seq::empty())
    } else {
        match spec_match_handles(resolved.drop_last(), pool) {
            Err(e) => Err(e),
            Ok(prev) => match spec_find_info(pool, resolved.last().pubkey) {
                None => Err(spec_res_err(AccountResolutionError::IncorrectAccount)),
                Some(h) => Ok(prev.push(h)),
            },
        }
    }
}

/// Once a prefix of the resolved references fails to match, the whole
/// run fails the same way.
pub proof fn lemma_match_handles_prefix_error(
    resolved: Seq<AccountMetaV>,
    pool: Seq<AccountInfoV>,
    j: int,
)
    requires
        0 <= j <= resolved.len(),
        spec_match_handles(resolved.take(j), pool) is Err,
    ensures
        spec_match_handles(resolved, pool) == spec_match_handles(resolved.take(j), pool),
    decreases resolved.len() - j,
{
    if j < resolved.len() {
        assert(resolved.take(j + 1).drop_last() =~= resolved.take(j));
        lemma_match_handles_prefix_error(resolved, pool, j + 1);
    } else {
        assert(resolved.take(j) =~= resolved);
    }
}

/// Find the first handle in the pool whose address matches.
fn find_info(pool: &Vec<AccountInfo>, key: &Pubkey) -> (r: Option<AccountInfo>)
    ensures
        match (r, spec_find_info(infos_view(pool@), key@)) {
            (Some(a), Some(b)) => a@ == b,
            (None, None) => true,
            _ => false,
        },
{
    let n = pool.len();
    let mut i: usize = 0;
    while i < n
        invariant
            n == pool@.len(),
            0 <= i <= n,
            forall|j: int| 0 <= j < i ==> infos_view(pool@)[j].key != key@,
        decreases n - i,
    {
        if pool[i].key == *key {
            proof {
                lemma_find_info_from(infos_view(pool@), key@, i as int);
                assert(infos_view(pool@).skip(i as int).first() == infos_view(pool@)[i as int]);
            }
            return Some(pool[i]);
        }
        i += 1;
    }
    proof {
        lemma_find_info_from(infos_view(pool@), key@, n as int);
    }
    None
}

/// Match every resolved reference to a handle from the pool, preserving
/// resolution order.
fn match_handles(resolved: &Vec<AccountMeta>, pool: &Vec<AccountInfo>) -> (r: Result<
    Vec<AccountInfo>,
    ProgramError,
>)
    ensures
        ({
            let s = spec_match_handles(metas_view(resolved@), infos_view(pool@));
            match (r, s) {
                (Ok(out), Ok(views)) => infos_view(out@) == views,
                (Err(e), Err(f)) => e == f,
                _ => false,
            }
        }),
{
    let ghost rviews = metas_view(resolved@);
    let n = resolved.len();
    let mut out: Vec<AccountInfo> = Vec::new();
    let mut i: usize = 0;
    while i < n
        invariant
            n == resolved@.len(),
            0 <= i <= n,
            rviews == metas_view(resolved@),
            spec_match_handles(rviews.take(i as int), infos_view(pool@)) matches Ok(v)
                && infos_view(out@) == v,
        decreases n - i,
    {
        proof {
            assert(rviews.take(i + 1).drop_last() =~= rviews.take(i as int));
            assert(rviews.take(i + 1).last() == rviews[i as int]);
        }
        match find_info(pool, &resolved[i].pubkey) {
            Some(info) => {
                out.push(info);
                proof {
                    let v = spec_match_handles(rviews.take(i + 1), infos_view(pool@))->Ok_0;
                    assert(infos_view(out@) =~= v);
                }
            },
            None => {
                proof {
                    lemma_match_handles_prefix_error(rviews, infos_view(pool@), i + 1);
                }
                return Err(ProgramError::from(AccountResolutionError::IncorrectAccount));
            },
        }
        i += 1;
    }
    proof {
        assert(rviews.take(n as int) =~= rviews);
    }
    Ok(out)
}

/// A stateless helper for storing and resolving the extra accounts an
/// instruction requires, keyed by the instruction's discriminator.
pub struct ExtraAccountMetaList;

impl ExtraAccountMetaList {
    /// The number of bytes needed to store `num_items` requirements:
    /// entry header, record count, and the records themselves.
    pub fn size_of(num_items: usize) -> (r: Result<usize, ProgramError>)
        ensures
            match r {
                Ok(v) => v == TLV_BASE_LEN + 4 + num_items * 35 && v <= usize::MAX,
                Err(e) => TLV_BASE_LEN + 4 + num_items * 35 > usize::MAX && e == spec_pod_err(
                    SplPodError::CalculationFailure,
                ),
            },
    {
        let inner = PodSlice::<ExtraAccountMeta>::size_of(num_items)?;
        match inner.checked_add(TLV_BASE_LEN) {
            Some(v) => Ok(v),
            None => Err(ProgramError::from(SplPodError::CalculationFailure)),
        }
    }

    /// Write the requirement list under the given discriminator:
    /// allocate the entry, then store the record count and every record.
    ///
    /// On failure the buffer is unchanged.
    pub fn init_with_pod_account_metas(
        data: &mut Vec<u8>,
        discriminator: &[u8; 8],
        pod_account_metas: &Vec<ExtraAccountMeta>,
    ) -> (r: Result<(), ProgramError>)
        ensures
            match (r, spec_eaml_init_accept(
                old(data)@,
                discriminator@,
                pod_account_metas@.len() as int,
            )) {
                (Ok(()), Ok(voff)) => spec_eaml_init_writes(
                    old(data)@,
                    final(data)@,
                    discriminator@,
                    pod_account_metas@,
                    voff,
                ),
                (Err(e), Err(f)) => e == f && final(data)@ == old(data)@,
                _ => false,
            },
    {
        let n = pod_account_metas.len();
        let size = PodSlice::<ExtraAccountMeta>::size_of(n)?;
        if size > 0xffffffffusize {
            return Err(ProgramError::from(SplPodError::CalculationFailure));
        }
        let voff = tlv_alloc_offset(data.as_slice(), discriminator, size)?;
        let dlen = data.len();
        let ghost pre = data@;
        splice(data, voff - 12, discriminator.as_slice());
        let ghost g1 = data@;
        let size_bytes = u32_to_le_bytes(size as u32);
        splice(data, voff - 4, size_bytes.as_slice());
        let ghost g2 = data@;
        let count_bytes = u32_to_le_bytes(n as u32);
        splice(data, voff, count_bytes.as_slice());
        proof {
            assert(data@.subrange(voff - 12, voff - 4) =~= discriminator@);
            assert(data@.subrange(voff - 4, voff as int) =~= spec_u32_to_le_bytes(size as u32));
            assert(data@.subrange(voff as int, voff + 4) =~= spec_u32_to_le_bytes(n as u32));
            assert forall|b: int|
                0 <= b < pre.len() && !(voff - 12 <= b < voff + 4 + n * 35) implies data@[b]
                == pre[b] by {
                assert(data@[b] == g2[b]);
                assert(g2[b] == g1[b]);
                assert(g1[b] == pre[b]);
            }
        }
        let mut i: usize = 0;
        while i < n
            invariant
                n == pod_account_metas@.len(),
                0 <= i <= n,
                data@.len() == pre.len(),
                dlen == data@.len(),
                12 <= voff,
                voff + 4 + n * 35 <= data@.len(),
                data@.subrange(voff - 12, voff - 4) == discriminator@,
                data@.subrange(voff - 4, voff as int) == spec_u32_to_le_bytes(
                    (4 + n * 35) as u32,
                ),
                data@.subrange(voff as int, voff + 4) == spec_u32_to_le_bytes(n as u32),
                forall|j: int|
                    0 <= j < i ==> data@.subrange(
                        voff + 4 + j * 35,
                        voff + 4 + j * 35 + 35,
                    ) == (#[trigger] pod_account_metas@[j]).enc(),
                forall|b: int|
                    0 <= b < pre.len() && !(voff - 12 <= b < voff + 4 + n * 35) ==> data@[b]
                        == pre[b],
            decreases n - i,
        {
            let ghost mid = data@;
            let meta = &pod_account_metas[i];
            proof {
                meta.lemma_enc_len();
                assert(i * 35 + 35 == (i + 1) * 35) by (nonlinear_arith);
                assert((i + 1) * 35 <= n * 35) by (nonlinear_arith)
                    requires
                        i + 1 <= n,
                ;
                assert(i * 35 >= 0) by (nonlinear_arith)
                    requires
                        i >= 0,
                ;
                assert(voff + 4 + i * 35 + 35 <= dlen);
            }
            let bytes = meta.to_bytes();
            splice(data, voff + 4 + i * 35, bytes.as_slice());
            proof {
                assert(data@.subrange(voff - 12, voff - 4) =~= mid.subrange(voff - 12, voff - 4));
                assert(data@.subrange(voff - 4, voff as int) =~= mid.subrange(
                    voff - 4,
                    voff as int,
                ));
                assert(data@.subrange(voff as int, voff + 4) =~= mid.subrange(
                    voff as int,
                    voff + 4,
                ));
                assert forall|j: int| 0 <= j < i + 1 implies data@.subrange(
                    voff + 4 + j * 35,
                    voff + 4 + j * 35 + 35,
                ) == (#[trigger] pod_account_metas@[j]).enc() by {
                    assert(j * 35 + 35 == (j + 1) * 35) by (nonlinear_arith);
                    assert((j + 1) * 35 <= n * 35) by (nonlinear_arith)
                        requires
                            j + 1 <= n,
                    ;
                    assert(j * 35 >= 0) by (nonlinear_arith)
                        requires
                            j >= 0,
                    ;
                    if j < i {
                        assert((j + 1) * 35 <= i * 35) by (nonlinear_arith)
                            requires
                                j + 1 <= i,
                        ;
                        assert(data@.subrange(voff + 4 + j * 35, voff + 4 + j * 35 + 35)
                            =~= mid.subrange(voff + 4 + j * 35, voff + 4 + j * 35 + 35));
                    } else {
                        assert(data@.subrange(voff + 4 + j * 35, voff + 4 + j * 35 + 35)
                            =~= bytes@);
                    }
                }
                assert forall|b: int|
                    0 <= b < pre.len() && !(voff - 12 <= b < voff + 4 + n * 35) implies data@[b]
                    == pre[b] by {
                    assert(data@[b] == mid[b]);
                }
            }
            i += 1;
        }
        proof {
            assert(spec_eaml_init_writes(
                pre,
                data@,
                discriminator@,
                pod_account_metas@,
                voff as int,
            ));
        }
        Ok(())
    }

    /// Write the requirement list that fixes the given account
    /// references, under the given discriminator.
    pub fn init_with_account_metas(
        data: &mut Vec<u8>,
        discriminator: &[u8; 8],
        account_metas: &Vec<AccountMeta>,
    ) -> (r: Result<(), ProgramError>)
        ensures
            match (r, spec_eaml_init_accept(
                old(data)@,
                discriminator@,
                account_metas@.len() as int,
            )) {
                (Ok(()), Ok(voff)) => spec_eaml_init_writes(
                    old(data)@,
                    final(data)@,
                    discriminator@,
                    account_metas@.map_values(
                        |m: AccountMeta| crate::account::fixed_meta_of(m),
                    ),
                    voff,
                ),
                (Err(e), Err(f)) => e == f && final(data)@ == old(data)@,
                _ => false,
            },
    {
        let mut converted: Vec<ExtraAccountMeta> = Vec::new();
        let n = account_metas.len();
        let mut i: usize = 0;
        while i < n
            invariant
                n == account_metas@.len(),
                0 <= i <= n,
                converted@.len() == i,
                forall|j: int|
                    0 <= j < i ==> converted@[j] == crate::account::fixed_meta_of(
                        #[trigger] account_metas@[j],
                    ),
            decreases n - i,
        {
            converted.push(ExtraAccountMeta::from_meta(&account_metas[i]));
            i += 1;
        }
        proof {
            assert(converted@ =~= account_metas@.map_values(
                |m: AccountMeta| crate::account::fixed_meta_of(m),
            ));
        }
        Self::init_with_pod_account_metas(data, discriminator, &converted)
    }

    /// Write the requirement list that fixes the accounts the given
    /// runtime handles refer to, under the given discriminator.
    pub fn init_with_account_infos(
        data: &mut Vec<u8>,
        discriminator: &[u8; 8],
        account_infos: &Vec<AccountInfo>,
    ) -> (r: Result<(), ProgramError>)
        ensures
            match (r, spec_eaml_init_accept(
                old(data)@,
                discriminator@,
                account_infos@.len() as int,
            )) {
                (Ok(()), Ok(voff)) => spec_eaml_init_writes(
                    old(data)@,
                    final(data)@,
                    discriminator@,
                    account_infos@.map_values(
                        |a: AccountInfo| crate::account::fixed_meta_of_info(a),
                    ),
                    voff,
                ),
                (Err(e), Err(f)) => e == f && final(data)@ == old(data)@,
                _ => false,
            },
    {
        let mut converted: Vec<ExtraAccountMeta> = Vec::new();
        let n = account_infos.len();
        let mut i: usize = 0;
        while i < n
            invariant
                n == account_infos@.len(),
                0 <= i <= n,
                converted@.len() == i,
                forall|j: int|
                    0 <= j < i ==> converted@[j] == crate::account::fixed_meta_of_info(
                        #[trigger] account_infos@[j],
                    ),
            decreases n - i,
        {
            converted.push(ExtraAccountMeta::from_info(&account_infos[i]));
            i += 1;
        }
        proof {
            assert(converted@ =~= account_infos@.map_values(
                |a: AccountInfo| crate::account::fixed_meta_of_info(a),
            ));
        }
        Self::init_with_pod_account_metas(data, discriminator, &converted)
    }

    /// Read the requirement list stored under the given discriminator.
    pub fn unpack_with_tlv_state(data: &[u8], discriminator: &[u8; 8]) -> (r: Result<
        PodSlice<ExtraAccountMeta>,
        ProgramError,
    >)
        ensures
            ({
                let s = spec_eaml_unpack(data@, discriminator@);
                match (r, s) {
                    (Ok(v), Ok(chunks)) => crate::layout::encodes(v.spec_items(), chunks),
                    (Err(e), Err(f)) => e == f,
                    _ => false,
                }
            }),
    {
        let value = tlv_get_value(data, discriminator)?;
        PodSlice::<ExtraAccountMeta>::unpack(value.as_slice())
    }

    /// Resolve the stored requirement list and append the resolved
    /// account references to the instruction, in stored order.
    ///
    /// On failure the instruction is unchanged.
    pub fn add_to_instruction(
        discriminator: &[u8; 8],
        instruction: &mut Instruction,
        data: &[u8],
    ) -> (r: Result<(), ProgramError>)
        ensures
            match (r, spec_eaml_resolution(data@, discriminator@, old(instruction)@)) {
                (Ok(()), Ok(resolved)) => {
                    &&& final(instruction)@.program_id == old(instruction)@.program_id
                    &&& final(instruction)@.data == old(instruction)@.data
                    &&& final(instruction)@.accounts == old(instruction)@.accounts + resolved
                },
                (Err(e), Err(f)) => e == f && *final(instruction) == *old(instruction),
                _ => false,
            },
    {
        let value = tlv_get_value(data, discriminator)?;
        let list = PodSlice::<ExtraAccountMeta>::unpack(value.as_slice())?;
        let metas = vstd::slice::slice_to_vec(list.data());
        proof {
            let chunks = spec_pod_slice_unpack::<ExtraAccountMeta>(value@)->Ok_0;
            assert forall|j: int| 0 <= j < metas@.len() implies metas@.map_values(
                |m: ExtraAccountMeta| m@,
            )[j] == #[trigger] spec_metas_of_chunks(chunks)[j] by {
                lemma_meta_of_enc(metas@[j]);
            }
            assert(metas@.map_values(|m: ExtraAccountMeta| m@) =~= spec_metas_of_chunks(chunks));
        }
        let working = resolve_metas(&metas, &instruction.program_id, &instruction.accounts, data_of
            (instruction))?;
        instruction.accounts = working;
        Ok(())
    }

    /// Resolve the stored requirement list, append the resolved account
    /// references to the instruction, and collect the matching runtime
    /// handle for each from the pool, in the same order.
    ///
    /// On failure both the instruction and the handle list are
    /// unchanged.
    pub fn add_to_cpi_instruction(
        discriminator: &[u8; 8],
        cpi_instruction: &mut Instruction,
        cpi_account_infos: &mut Vec<AccountInfo>,
        data: &[u8],
        account_infos: &Vec<AccountInfo>,
    ) -> (r: Result<(), ProgramError>)
        ensures
            ({
                let s = spec_eaml_cpi(
                    data@,
                    discriminator@,
                    old(cpi_instruction)@,
                    infos_view(account_infos@),
                );
                match (r, s) {
                    (Ok(()), Ok((resolved, handles))) => {
                        &&& final(cpi_instruction)@.program_id == old(cpi_instruction)@.program_id
                        &&& final(cpi_instruction)@.data == old(cpi_instruction)@.data
                        &&& final(cpi_instruction)@.accounts == old(cpi_instruction)@.accounts
                            + resolved
                        &&& infos_view(final(cpi_account_infos)@) == infos_view(
                            old(cpi_account_infos)@,
                        ) + handles
                    },
                    (Err(e), Err(f)) => e == f && *final(cpi_instruction) == *old(cpi_instruction)
                        && *final(cpi_account_infos) == *old(cpi_account_infos),
                    _ => false,
                }
            }),
    {
        let value = tlv_get_value(data, discriminator)?;
        let list = PodSlice::<ExtraAccountMeta>::unpack(value.as_slice())?;
        let metas = vstd::slice::slice_to_vec(list.data());
        proof {
            let chunks = spec_pod_slice_unpack::<ExtraAccountMeta>(value@)->Ok_0;
            assert forall|j: int| 0 <= j < metas@.len() implies metas@.map_values(
                |m: ExtraAccountMeta| m@,
            )[j] == #[trigger] spec_metas_of_chunks(chunks)[j] by {
                lemma_meta_of_enc(metas@[j]);
            }
            assert(metas@.map_values(|m: ExtraAccountMeta| m@) =~= spec_metas_of_chunks(chunks));
        }
        let base = cpi_instruction.accounts.len();
        let working = resolve_metas(
            &metas,
            &cpi_instruction.program_id,
            &cpi_instruction.accounts,
            data_of(cpi_instruction),
        )?;
        proof {
            assert(metas_view(working@).len() == working@.len());
            assert(metas_view(old(cpi_instruction).accounts@).len() == old(
                cpi_instruction,
            ).accounts@.len());
        }
        let mut appended: Vec<AccountMeta> = Vec::new();
        let wlen = working.len();
        let mut i: usize = base;
        while i < wlen
            invariant
                base <= i <= wlen,
                wlen == working@.len(),
                appended@.len() == i - base,
                forall|j: int| 0 <= j < i - base ==> appended@[j] == working@[base + j],
            decreases wlen - i,
        {
            appended.push(working[i]);
            i += 1;
        }
        let ghost resolvedspec = spec_eaml_resolution(
            data@,
            discriminator@,
            old(cpi_instruction)@,
        )->Ok_0;
        proof {
            assert(appended@ =~= working@.subrange(base as int, wlen as int));
            assert(metas_view(appended@) =~= metas_view(working@).subrange(
                base as int,
                wlen as int,
            ));
            assert(metas_view(appended@) =~= resolvedspec);
        }
        let matched = match_handles(&appended, account_infos)?;
        let mut infos = matched;
        let mut combined: Vec<AccountInfo> = Vec::new();
        let clen = cpi_account_infos.len();
        let mut i: usize = 0;
        while i < clen
            invariant
                clen == cpi_account_infos@.len(),
                0 <= i <= clen,
                combined@.len() == i,
                forall|j: int| 0 <= j < i ==> combined@[j] == cpi_account_infos@[j],
            decreases clen - i,
        {
            combined.push(cpi_account_infos[i]);
            i += 1;
        }
        proof {
            assert(combined@ =~= cpi_account_infos@);
        }
        combined.append(&mut infos);
        cpi_instruction.accounts = working;
        *cpi_account_infos = combined;
        proof {
            let s = spec_eaml_cpi(
                data@,
                discriminator@,
                old(cpi_instruction)@,
                infos_view(account_infos@),
            );
            assert(s == Ok::<(Seq<AccountMetaV>, Seq<AccountInfoV>), ProgramError>(
                (resolvedspec, spec_match_handles(resolvedspec, infos_view(account_infos@))->Ok_0),
            ));
            assert(infos_view(cpi_account_infos@) =~= infos_view(old(cpi_account_infos)@)
                + s->Ok_0.1);
            assert(metas_view(cpi_instruction.accounts@) =~= old(cpi_instruction)@.accounts
                + resolvedspec);
        }
        Ok(())
    }
}

/// The instruction payload bytes, borrowed.
fn data_of(instruction: &Instruction) -> (r: &[u8])
    ensures
        r@ == instruction@.data,
{
    instruction.data.as_slice()
}

/// Whether writing a requirement list of `n` records under `disc` is
/// accepted, and at which value offset it lands.
pub open spec fn spec_eaml_init_accept(data: Seq<u8>, disc: Seq<u8>, n: int) -> Result<
    int,
    ProgramError,
> {
    if 4 + n * 35 > usize::MAX || 4 + n * 35 > u32::MAX {
        Err(spec_pod_err(SplPodError::CalculationFailure))
    } else {
        spec_tlv_alloc_off(data, disc, 4 + n * 35, 0)
    }
}

/// What a successful write leaves in the buffer: the discriminator, the
/// entry length, the record count, the records, and every other byte
/// unchanged.
pub open spec fn spec_eaml_init_writes(
    pre: Seq<u8>,
    post: Seq<u8>,
    disc: Seq<u8>,
    metas: Seq<ExtraAccountMeta>,
    voff: int,
) -> bool {
    let n = metas.len() as int;
    &&& post.len() == pre.len()
    &&& post.subrange(voff - 12, voff - 4) == disc
    &&& post.subrange(voff - 4, voff) == spec_u32_to_le_bytes((4 + n * 35) as u32)
    &&& post.subrange(voff, voff + 4) == spec_u32_to_le_bytes(n as u32)
    &&& (forall|j: int|
        0 <= j < n ==> post.subrange(voff + 4 + j * 35, voff + 4 + j * 35 + 35) == (
        #[trigger] metas[j]).enc())
    &&& (forall|b: int|
        0 <= b < pre.len() && !(voff - 12 <= b < voff + 4 + n * 35) ==> post[b] == pre[b])
}

/// The stored record chunks unpacking finds for a discriminator.
pub open spec fn spec_eaml_unpack(data: Seq<u8>, disc: Seq<u8>) -> Result<
    Seq<Seq<u8>>,
    ProgramError,
> {
    match spec_tlv_get(data, disc, 0) {
        Err(e) => Err(e),
        Ok(value) => spec_pod_slice_unpack::<ExtraAccountMeta>(value),
    }
}

/// Everything a cross-program resolution determines: the resolved
/// references and the matching handles from the pool.
pub open spec fn spec_eaml_cpi(
    data: Seq<u8>,
    disc: Seq<u8>,
    instr: crate::instruction::InstructionV,
    pool: Seq<AccountInfoV>,
) -> Result<(Seq<AccountMetaV>, Seq<AccountInfoV>), ProgramError> {
    match spec_eaml_resolution(data, disc, instr) {
        Err(e) => Err(e),
        Ok(resolved) => match spec_match_handles(resolved, pool) {
            Err(e) => Err(e),
            Ok(handles) => Ok((resolved, handles)),
        },
    }
}

} // verus!
