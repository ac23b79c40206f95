//! Laws of the resolution engine, stated and proved over the
//! specification functions that the executable contracts use.

use crate::account::{spec_fixed_meta, spec_meta_of_bytes, spec_resolve_meta, ExtraAccountMeta, ExtraAccountMetaV};
use crate::account_info::AccountInfoV;
use crate::error::{spec_pod_err, ProgramError, SplPodError};
use crate::instruction::{keys_of, AccountMetaV, InstructionV};
use crate::item::PodItem;
use crate::pubkey::derived_address;
use crate::seeds::{spec_eval_seeds, spec_parse_seeds};
use crate::state::{
    spec_eaml_init_accept, spec_eaml_init_writes, spec_eaml_resolution, spec_find_info,
    spec_match_handles, spec_metas_of_chunks, spec_resolve_all, spec_tlv_get,
    spec_zero_discriminator,
};
use vstd::prelude::*;

verus! {

broadcast use vstd::seq_lib::group_seq_properties;

/// The reference a requirement with a literal address resolves to.
pub open spec fn spec_fixed_resolved(m: ExtraAccountMetaV) -> AccountMetaV {
    AccountMetaV {
        pubkey: m.address_config,
        is_signer: m.is_signer,
        is_writable: m.is_writable,
    }
}

/// A list of fixed requirements resolves to exactly its stored
/// addresses and flags, in stored order, against any program id,
/// any prior accounts, and any payload.
pub proof fn lemma_fixed_requirements_resolve(
    metas: Seq<ExtraAccountMetaV>,
    program_id: Seq<u8>,
    keys0: Seq<Seq<u8>>,
    data: Seq<u8>,
)
    requires
        forall|i: int| 0 <= i < metas.len() ==> (#[trigger] metas[i]).discriminator == 0,
    ensures
        spec_resolve_all(metas, program_id, keys0, data) == Ok::<
            Seq<AccountMetaV>,
            ProgramError,
        >(metas.map_values(|m: ExtraAccountMetaV| spec_fixed_resolved(m))),
    decreases metas.len(),
{
    let out = metas.map_values(|m: ExtraAccountMetaV| spec_fixed_resolved(m));
    if metas.len() == 0 {
        assert(out =~= Seq::<AccountMetaV>::empty());
    } else {
        lemma_fixed_requirements_resolve(metas.drop_last(), program_id, keys0, data);
        assert(metas.drop_last().map_values(|m: ExtraAccountMetaV| spec_fixed_resolved(m))
            =~= out.drop_last());
        assert(metas.last().discriminator == 0);
        assert(out =~= out.drop_last().push(spec_fixed_resolved(metas.last())));
    }
}

/// Round trip: a requirement list built from account references alone
/// resolves back to exactly those references, in the same order, with
/// the same signer and writable flags, whatever the instruction.
pub proof fn lemma_fixed_round_trip(
    metas: Seq<AccountMetaV>,
    program_id: Seq<u8>,
    keys0: Seq<Seq<u8>>,
    data: Seq<u8>,
)
    ensures
        spec_resolve_all(
            metas.map_values(|m: AccountMetaV| spec_fixed_meta(m)),
            program_id,
            keys0,
            data,
        ) == Ok::<Seq<AccountMetaV>, ProgramError>(metas),
{
    let fixed = metas.map_values(|m: AccountMetaV| spec_fixed_meta(m));
    assert forall|i: int| 0 <= i < fixed.len() implies (#[trigger] fixed[i]).discriminator
        == 0 by {
    }
    lemma_fixed_requirements_resolve(fixed, program_id, keys0, data);
    assert(fixed.map_values(|m: ExtraAccountMetaV| spec_fixed_resolved(m)) =~= metas) by {
        assert forall|i: int| 0 <= i < metas.len() implies fixed.map_values(
            |m: ExtraAccountMetaV| spec_fixed_resolved(m),
        )[i] == metas[i] by {
            assert(spec_fixed_resolved(spec_fixed_meta(metas[i])) =~= metas[i]);
        }
    }
}

/// Round trip, through storage: after a list of fixed requirements is
/// written into a fresh zeroed buffer of exactly the quoted size,
/// resolving the buffer against any instruction yields exactly the
/// stored addresses and flags, in stored order.
pub proof fn lemma_stored_fixed_round_trip(
    pre: Seq<u8>,
    post: Seq<u8>,
    disc: Seq<u8>,
    metas: Seq<ExtraAccountMeta>,
    instr: InstructionV,
)
    requires
        disc.len() == 8,
        disc != spec_zero_discriminator(),
        pre.len() == 16 + metas.len() * 35,
        forall|i: int| 0 <= i < pre.len() ==> pre[i] == 0u8,
        16 + (metas.len() + 1) * 35 <= usize::MAX,
        16 + (metas.len() + 1) * 35 <= u32::MAX,
        spec_eaml_init_writes(pre, post, disc, metas, 12),
        forall|i: int| 0 <= i < metas.len() ==> (#[trigger] metas[i]).discriminator == 0,
    ensures
        spec_eaml_resolution(post, disc, instr) == Ok::<Seq<AccountMetaV>, ProgramError>(
            metas.map_values(|m: ExtraAccountMeta| spec_fixed_resolved(m@)),
        ),
{
    let n = metas.len() as int;
    let size = 4 + n * 35;
    assert((n + 1) * 35 == n * 35 + 35) by (nonlinear_arith);
    assert(n * 35 >= 0) by (nonlinear_arith)
        requires
            n >= 0,
    ;
    vstd::bytes::lemma_auto_spec_u32_to_from_le_bytes();
    assert(vstd::bytes::spec_u32_to_le_bytes(size as u32).len() == 4);
    assert(vstd::bytes::spec_u32_to_le_bytes(n as u32).len() == 4);
    // The entry found at offset zero.
    assert(post.subrange(0, 8) =~= disc);
    assert(post.subrange(8, 12) =~= vstd::bytes::spec_u32_to_le_bytes(size as u32));
    assert(vstd::bytes::spec_u32_from_le_bytes(post.subrange(8, 12)) == size as u32);
    let value = post.subrange(12, 12 + size);
    assert(spec_tlv_get(post, disc, 0) == Ok::<Seq<u8>, ProgramError>(value));
    // The record run inside the value bytes.
    assert(value.subrange(0, 4) =~= post.subrange(12, 16));
    assert(post.subrange(12, 16) =~= vstd::bytes::spec_u32_to_le_bytes(n as u32));
    assert(crate::layout::spec_stored_count::<crate::pods::PodU32>(value) == n) by {
        assert(crate::layout::spec_prefix::<crate::pods::PodU32>(value) =~= value.subrange(0, 4));
    }
    assert(value.len() - 4 == n * 35);
    vstd::arithmetic::div_mod::lemma_div_by_multiple(n, 35);
    assert((n * 35) / 35 == n);
    let chunks = crate::layout::spec_chunks(value, 4, 35, n);
    assert(crate::slice::spec_max_len_for_type(value.len() - 4, n, 35) == Ok::<int, ProgramError>(
        n,
    ));
    assert(crate::slice::spec_pod_slice_unpack::<ExtraAccountMeta>(value) == Ok::<
        Seq<Seq<u8>>,
        ProgramError,
    >(chunks));
    // Each chunk is the encoding the write left there.
    assert forall|i: int| 0 <= i < n implies #[trigger] chunks[i] == metas[i].enc() by {
        assert(i * 35 >= 0) by (nonlinear_arith)
            requires
                i >= 0,
        ;
        assert((i + 1) * 35 == i * 35 + 35) by (nonlinear_arith);
        assert((i + 1) * 35 <= n * 35) by (nonlinear_arith)
            requires
                i + 1 <= n,
        ;
        assert(post.subrange(16 + i * 35, 16 + i * 35 + 35) == metas[i].enc());
        assert(crate::layout::spec_chunk(value, 4, 35, i) =~= post.subrange(
            16 + i * 35,
            16 + i * 35 + 35,
        ));
    }
    assert forall|i: int| 0 <= i < n implies #[trigger] spec_metas_of_chunks(chunks)[i]
        == metas[i]@ by {
        crate::state::lemma_meta_of_enc(metas[i]);
    }
    assert(spec_metas_of_chunks(chunks) =~= metas.map_values(|m: ExtraAccountMeta| m@));
    let mviews = metas.map_values(|m: ExtraAccountMeta| m@);
    assert forall|i: int| 0 <= i < mviews.len() implies (#[trigger] mviews[i]).discriminator
        == 0 by {
        assert(mviews[i] == metas[i]@);
    }
    lemma_fixed_requirements_resolve(
        mviews,
        instr.program_id,
        keys_of(instr.accounts),
        instr.data,
    );
    assert(metas.map_values(|m: ExtraAccountMeta| m@).map_values(
        |m: ExtraAccountMetaV| spec_fixed_resolved(m),
    ) =~= metas.map_values(|m: ExtraAccountMeta| spec_fixed_resolved(m@)));
}

/// Determinism: resolution is a function of the stored bytes, the
/// discriminator and the instruction alone, so identical inputs always
/// yield the identical result.
pub proof fn lemma_resolution_deterministic(
    data: Seq<u8>,
    disc: Seq<u8>,
    first: InstructionV,
    second: InstructionV,
)
    requires
        first == second,
    ensures
        spec_eaml_resolution(data, disc, first) == spec_eaml_resolution(data, disc, second),
{
}

/// A derived requirement built from a seed list resolves by evaluating
/// exactly those seeds: the packed configuration loses nothing.
pub proof fn lemma_derived_requirement_resolves_its_seeds(
    seeds: Seq<crate::seeds::SeedV>,
    is_signer: bool,
    is_writable: bool,
    program_id: Seq<u8>,
    keys: Seq<Seq<u8>>,
    data: Seq<u8>,
)
    requires
        crate::seeds::spec_pack_seeds(seeds) is Ok,
    ensures
        ({
            let m = ExtraAccountMetaV {
                discriminator: 1,
                address_config: crate::seeds::spec_pack_seeds(seeds)->Ok_0,
                is_signer,
                is_writable,
            };
            spec_resolve_meta(m, program_id, keys, data) == match spec_eval_seeds(
                seeds,
                keys,
                data,
            ) {
                Err(e) => Err::<AccountMetaV, ProgramError>(crate::error::spec_res_err(e)),
                Ok(seed_bytes) => match derived_address(seed_bytes, program_id) {
                    None => Err(
                        crate::error::spec_res_err(
                            crate::error::AccountResolutionError::CalculationFailure,
                        ),
                    ),
                    Some((pubkey, bump)) => Ok(
                        AccountMetaV { pubkey, is_signer, is_writable },
                    ),
                },
            }
        }),
{
    crate::seeds::lemma_seed_config_round_trip(seeds);
}

/// A successful resolution resolves every prefix of the requirement
/// list to the matching prefix of the output.
pub proof fn lemma_resolve_all_prefix(
    metas: Seq<ExtraAccountMetaV>,
    program_id: Seq<u8>,
    keys0: Seq<Seq<u8>>,
    data: Seq<u8>,
    j: int,
)
    requires
        spec_resolve_all(metas, program_id, keys0, data) is Ok,
        0 <= j <= metas.len(),
    ensures
        spec_resolve_all(metas, program_id, keys0, data)->Ok_0.len() == metas.len(),
        spec_resolve_all(metas.take(j), program_id, keys0, data) == Ok::<
            Seq<AccountMetaV>,
            ProgramError,
        >(spec_resolve_all(metas, program_id, keys0, data)->Ok_0.take(j)),
    decreases metas.len(),
{
    let out = spec_resolve_all(metas, program_id, keys0, data)->Ok_0;
    if metas.len() == 0 {
        assert(metas.take(j) =~= metas);
        assert(out.take(j) =~= out);
    } else {
        let prev = spec_resolve_all(metas.drop_last(), program_id, keys0, data)->Ok_0;
        lemma_resolve_all_prefix(metas.drop_last(), program_id, keys0, data, 0);
        assert(out =~= prev.push(out.last()));
        if j == metas.len() {
            assert(metas.take(j) =~= metas);
            assert(out.take(j) =~= out);
        } else {
            lemma_resolve_all_prefix(metas.drop_last(), program_id, keys0, data, j);
            assert(metas.drop_last().take(j) =~= metas.take(j));
            assert(prev.take(j) =~= out.take(j));
        }
    }
}

/// Chaining: in a successful resolution, requirement `i` resolves
/// against the instruction's accounts followed by the addresses the
/// earlier requirements just resolved to — so a seed that names an
/// earlier derived entry uses that entry's just-computed address.
pub proof fn lemma_chaining(
    metas: Seq<ExtraAccountMetaV>,
    program_id: Seq<u8>,
    keys0: Seq<Seq<u8>>,
    data: Seq<u8>,
    i: int,
)
    requires
        spec_resolve_all(metas, program_id, keys0, data) is Ok,
        0 <= i < metas.len(),
    ensures
        ({
            let out = spec_resolve_all(metas, program_id, keys0, data)->Ok_0;
            spec_resolve_meta(metas[i], program_id, keys0 + keys_of(out.take(i)), data) == Ok::<
                AccountMetaV,
                ProgramError,
            >(out[i])
        }),
{
    let out = spec_resolve_all(metas, program_id, keys0, data)->Ok_0;
    lemma_resolve_all_prefix(metas, program_id, keys0, data, i);
    lemma_resolve_all_prefix(metas, program_id, keys0, data, i + 1);
    assert(metas.take(i + 1).drop_last() =~= metas.take(i));
    assert(metas.take(i + 1).last() == metas[i]);
    assert(out.take(i + 1).last() == out[i]);
    assert(out.take(i + 1) =~= out.take(i).push(out[i]));
}

/// Capacity boundary: a zeroed buffer of exactly the size quoted for
/// `n` requirements accepts a list of `n` and refuses a list of
/// `n + 1` with `BufferTooSmall`.
pub proof fn lemma_capacity_boundary(data: Seq<u8>, disc: Seq<u8>, n: int)
    requires
        0 <= n,
        disc.len() == 8,
        disc != spec_zero_discriminator(),
        data.len() == 16 + n * 35,
        forall|i: int| 0 <= i < data.len() ==> data[i] == 0u8,
        16 + (n + 1) * 35 <= usize::MAX,
        16 + (n + 1) * 35 <= u32::MAX,
    ensures
        spec_eaml_init_accept(data, disc, n) == Ok::<int, ProgramError>(12),
        spec_eaml_init_accept(data, disc, n + 1) == Err::<int, ProgramError>(
            spec_pod_err(SplPodError::BufferTooSmall),
        ),
{
    assert((n + 1) * 35 == n * 35 + 35) by (nonlinear_arith);
    assert(n * 35 >= 0) by (nonlinear_arith)
        requires
            n >= 0,
    ;
    assert(data.subrange(0, 8) =~= spec_zero_discriminator());
}

/// The first matching handle exists exactly when some handle carries
/// the address.
proof fn lemma_find_info_cases(pool: Seq<AccountInfoV>, key: Seq<u8>)
    ensures
        match spec_find_info(pool, key) {
            Some(h) => pool.contains(h) && h.key == key,
            None => forall|i: int| 0 <= i < pool.len() ==> (#[trigger] pool[i]).key != key,
        },
    decreases pool.len(),
{
    if pool.len() > 0 {
        if pool.first().key == key {
            assert(pool[0] == pool.first());
        } else {
            lemma_find_info_cases(pool.drop_first(), key);
            match spec_find_info(pool.drop_first(), key) {
                Some(h) => {
                    let j = choose|j: int|
                        0 <= j < pool.drop_first().len() && pool.drop_first()[j] == h;
                    assert(pool[j + 1] == h);
                },
                None => {
                    assert forall|i: int| 0 <= i < pool.len() implies (#[trigger] pool[i]).key
                        != key by {
                        if i > 0 {
                            assert(pool.drop_first()[i - 1] == pool[i]);
                        }
                    }
                },
            }
        }
    }
}

/// Two pools that hold the same handles, where handles sharing an
/// address are equal, give the same first match for every address.
proof fn lemma_find_info_order_free(
    pool1: Seq<AccountInfoV>,
    pool2: Seq<AccountInfoV>,
    key: Seq<u8>,
)
    requires
        pool1.to_multiset() == pool2.to_multiset(),
        forall|i: int, j: int|
            0 <= i < pool1.len() && 0 <= j < pool1.len() && (#[trigger] pool1[i]).key == (
            #[trigger] pool1[j]).key ==> pool1[i] == pool1[j],
    ensures
        spec_find_info(pool1, key) == spec_find_info(pool2, key),
{
    pool1.to_multiset_ensures();
    pool2.to_multiset_ensures();
    lemma_find_info_cases(pool1, key);
    lemma_find_info_cases(pool2, key);
    match (spec_find_info(pool1, key), spec_find_info(pool2, key)) {
        (Some(h1), Some(h2)) => {
            assert(pool2.contains(h2));
            assert(pool2.to_multiset().count(h2) > 0);
            assert(pool1.contains(h2));
            let i1 = choose|i: int| 0 <= i < pool1.len() && pool1[i] == h1;
            let i2 = choose|i: int| 0 <= i < pool1.len() && pool1[i] == h2;
            assert(pool1[i1] == pool1[i2]);
        },
        (Some(h1), None) => {
            assert(pool1.contains(h1));
            assert(pool1.to_multiset().count(h1) > 0);
            assert(pool2.contains(h1));
            let i = choose|i: int| 0 <= i < pool2.len() && pool2[i] == h1;
            assert(pool2[i].key == key);
        },
        (None, Some(h2)) => {
            assert(pool2.contains(h2));
            assert(pool2.to_multiset().count(h2) > 0);
            assert(pool1.contains(h2));
            let i = choose|i: int| 0 <= i < pool1.len() && pool1[i] == h2;
            assert(pool1[i].key == key);
        },
        (None, None) => {},
    }
}

/// Pool-order independence: matching handles to the resolved references
/// gives the same result for any two pools that hold the same handles,
/// provided handles that share an address are equal.
pub proof fn lemma_pool_order_independence(
    resolved: Seq<AccountMetaV>,
    pool1: Seq<AccountInfoV>,
    pool2: Seq<AccountInfoV>,
)
    requires
        pool1.to_multiset() == pool2.to_multiset(),
        forall|i: int, j: int|
            0 <= i < pool1.len() && 0 <= j < pool1.len() && (#[trigger] pool1[i]).key == (
            #[trigger] pool1[j]).key ==> pool1[i] == pool1[j],
    ensures
        spec_match_handles(resolved, pool1) == spec_match_handles(resolved, pool2),
    decreases resolved.len(),
{
    if resolved.len() > 0 {
        lemma_pool_order_independence(resolved.drop_last(), pool1, pool2);
        lemma_find_info_order_free(pool1, pool2, resolved.last().pubkey);
    }
}

} // verus!
