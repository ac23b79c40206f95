//! Seed specifications: how one seed byte string for address derivation
//! is produced, and how a bounded list of such specifications is packed
//! into a requirement record's fixed-size configuration area.

use crate::error::AccountResolutionError;
use vstd::prelude::*;

verus! {

/// Number of bytes a requirement record reserves for its configuration.
pub const ADDRESS_CONFIG_LEN: usize = 32;

/// What a seed specification amounts to.
pub enum SeedV {
    /// A fixed byte string embedded in the record.
    Literal { bytes: Seq<u8> },
    /// `length` bytes of the instruction payload starting at `index`.
    InstructionData { index: u8, length: u8 },
    /// The address at `index` in the combined account list.
    AccountKey { index: u8 },
}

/// How to produce one seed byte string for address derivation.
#[derive(Clone, Debug)]
pub enum Seed {
    /// A fixed byte string embedded in the record.
    Literal {
        /// The seed bytes themselves.
        bytes: Vec<u8>,
    },
    /// A slice of the instruction payload.
    InstructionData {
        /// Where the slice starts in the payload.
        index: u8,
        /// How many payload bytes the seed takes.
        length: u8,
    },
    /// The address at a position of the combined account list: the
    /// instruction's accounts followed by the requirements already
    /// resolved in the current pass.
    AccountKey {
        /// The position in the combined account list.
        index: u8,
    },
}

impl View for Seed {
    type V = SeedV;

    open spec fn view(&self) -> SeedV {
        match self {
            Seed::Literal { bytes } => SeedV::Literal { bytes: bytes@ },
            Seed::InstructionData { index, length } => SeedV::InstructionData {
                index: *index,
                length: *length,
            },
            Seed::AccountKey { index } => SeedV::AccountKey { index: *index },
        }
    }
}

/// The seeds of a sequence, as spec values.
pub open spec fn seeds_view(seeds: Seq<Seed>) -> Seq<SeedV> {
    seeds.map_values(|s: Seed| s@)
}

/// The packed encoding of one seed specification: a tag byte followed by
/// the variant's fields.
pub open spec fn spec_seed_enc(s: SeedV) -> Seq<u8> {
    match s {
        SeedV::Literal { bytes } => seq![1u8, bytes.len() as u8] + bytes,
        SeedV::InstructionData { index, length } => seq![2u8, index, length],
        SeedV::AccountKey { index } => seq![3u8, index],
    }
}

/// The packed encoding of a sequence of seed specifications.
pub open spec fn spec_seeds_enc(seeds: Seq<SeedV>) -> Seq<u8>
    decreases seeds.len(),
{
    if seeds.len() == 0 {
        Seq::empty()
    } else {
        spec_seeds_enc(seeds.drop_last()) + spec_seed_enc(seeds.last())
    }
}

/// A seed specification that the packed encoding can represent: a
/// literal's length must fit its one-byte length field.
pub open spec fn spec_seed_packable(s: SeedV) -> bool {
    match s {
        SeedV::Literal { bytes } => bytes.len() <= 255,
        _ => true,
    }
}

/// The configuration area a list of seed specifications packs into: a
/// count byte, the packed seed records, and zero padding up to the fixed
/// size.
///
/// Packing fails with `InvalidSeedConfig` when a literal cannot be
/// represented, and with `SeedConfigsTooLarge` when the records do not
/// fit the area.
pub open spec fn spec_pack_seeds(seeds: Seq<SeedV>) -> Result<Seq<u8>, AccountResolutionError> {
    if !(forall|i: int| 0 <= i < seeds.len() ==> spec_seed_packable(#[trigger] seeds[i])) {
        Err(AccountResolutionError::InvalidSeedConfig)
    } else {
        let body = spec_seeds_enc(seeds);
        if 1 + body.len() > ADDRESS_CONFIG_LEN {
            Err(AccountResolutionError::SeedConfigsTooLarge)
        } else {
            Ok(
                seq![seeds.len() as u8] + body + Seq::new(
                    (ADDRESS_CONFIG_LEN - 1 - body.len()) as nat,
                    |i: int| 0u8,
                ),
            )
        }
    }
}

/// The seed specifications stored in a configuration area: `k` packed
/// records starting at `off`.
pub open spec fn spec_parse_seed_records(config: Seq<u8>, off: int, k: nat) -> Result<
    Seq<SeedV>,
    AccountResolutionError,
>
    decreases k,
{
    if k == 0 {
        Ok(Seq::empty())
    } else if off < 0 || off >= config.len() {
        Err(AccountResolutionError::InvalidBytesForSeed)
    } else {
        let tag = config[off];
        if tag == 1 {
            if off + 2 > config.len() {
                Err(AccountResolutionError::InvalidBytesForSeed)
            } else {
                let len = config[off + 1] as int;
                if off + 2 + len > config.len() {
                    Err(AccountResolutionError::InvalidBytesForSeed)
                } else {
                    let head = SeedV::Literal { bytes: config.subrange(off + 2, off + 2 + len) };
                    match spec_parse_seed_records(config, off + 2 + len, (k - 1) as nat) {
                        Ok(rest) => Ok(seq![head] + rest),
                        Err(e) => Err(e),
                    }
                }
            }
        } else if tag == 2 {
            if off + 3 > config.len() {
                Err(AccountResolutionError::InvalidBytesForSeed)
            } else {
                let head = SeedV::InstructionData {
                    index: config[off + 1],
                    length: config[off + 2],
                };
                match spec_parse_seed_records(config, off + 3, (k - 1) as nat) {
                    Ok(rest) => Ok(seq![head] + rest),
                    Err(e) => Err(e),
                }
            }
        } else if tag == 3 {
            if off + 2 > config.len() {
                Err(AccountResolutionError::InvalidBytesForSeed)
            } else {
                let head = SeedV::AccountKey { index: config[off + 1] };
                match spec_parse_seed_records(config, off + 2, (k - 1) as nat) {
                    Ok(rest) => Ok(seq![head] + rest),
                    Err(e) => Err(e),
                }
            }
        } else {
            Err(AccountResolutionError::InvalidBytesForSeed)
        }
    }
}

/// The seed specifications a whole configuration area stores: the count
/// byte, then that many packed records.
pub open spec fn spec_parse_seeds(config: Seq<u8>) -> Result<Seq<SeedV>, AccountResolutionError> {
    if config.len() != ADDRESS_CONFIG_LEN {
        Err(AccountResolutionError::InvalidBytesForSeed)
    } else {
        spec_parse_seed_records(config, 1, config[0] as nat)
    }
}

/// The byte string one seed specification produces, given the program's
/// combined account addresses and the instruction payload.
pub open spec fn spec_eval_seed(s: SeedV, keys: Seq<Seq<u8>>, data: Seq<u8>) -> Result<
    Seq<u8>,
    AccountResolutionError,
> {
    match s {
        SeedV::Literal { bytes } => Ok(bytes),
        SeedV::InstructionData { index, length } => {
            if index + length > data.len() {
                Err(AccountResolutionError::InstructionDataTooSmall)
            } else {
                Ok(data.subrange(index as int, index + length))
            }
        },
        SeedV::AccountKey { index } => {
            if index >= keys.len() {
                Err(AccountResolutionError::AccountNotFound)
            } else {
                Ok(keys[index as int])
            }
        },
    }
}

/// The byte strings a list of seed specifications produces, in order.
pub open spec fn spec_eval_seeds(seeds: Seq<SeedV>, keys: Seq<Seq<u8>>, data: Seq<u8>) -> Result<
    Seq<Seq<u8>>,
    AccountResolutionError,
>
    decreases seeds.len(),
{
    if seeds.len() == 0 {
        Ok(Seq::empty())
    } else {
        match spec_eval_seeds(seeds.drop_last(), keys, data) {
            Err(e) => Err(e),
            Ok(prev) => match spec_eval_seed(seeds.last(), keys, data) {
                Err(e) => Err(e),
                Ok(bytes) => Ok(prev.push(bytes)),
            },
        }
    }
}

impl Seed {
    /// Whether the packed encoding can represent this seed.
    pub fn packable(&self) -> (r: bool)
        ensures
            r == spec_seed_packable(self@),
    {
        match self {
            Seed::Literal { bytes } => bytes.len() <= 255,
            Seed::InstructionData { .. } => true,
            Seed::AccountKey { .. } => true,
        }
    }

    /// The packed encoding of this seed.
    pub fn pack(&self) -> (r: Vec<u8>)
        requires
            spec_seed_packable(self@),
        ensures
            r@ == spec_seed_enc(self@),
    {
        let mut out: Vec<u8> = Vec::new();
        match self {
            Seed::Literal { bytes } => {
                out.push(1);
                out.push(bytes.len() as u8);
                let mut rest = vstd::slice::slice_to_vec(bytes.as_slice());
                out.append(&mut rest);
            },
            Seed::InstructionData { index, length } => {
                out.push(2);
                out.push(*index);
                out.push(*length);
            },
            Seed::AccountKey { index } => {
                out.push(3);
                out.push(*index);
            },
        }
        proof {
            assert(out@ =~= spec_seed_enc(self@));
        }
        out
    }
}

/// Pack a list of seed specifications into a configuration area.
pub fn pack_address_config(seeds: &Vec<Seed>) -> (r: Result<[u8; 32], AccountResolutionError>)
    ensures
        match (r, spec_pack_seeds(seeds_view(seeds@))) {
            (Ok(config), Ok(bytes)) => config@ == bytes,
            (Err(e), Err(f)) => e == f,
            _ => false,
        },
{
    let n = seeds.len();
    let mut body: Vec<u8> = Vec::new();
    let mut i: usize = 0;
    while i < n
        invariant
            n == seeds@.len(),
            0 <= i <= n,
            forall|j: int| 0 <= j < i ==> spec_seed_packable(#[trigger] seeds_view(seeds@)[j]),
            body@ == spec_seeds_enc(seeds_view(seeds@).take(i as int)),
        decreases n - i,
    {
        let seed = &seeds[i];
        if !seed.packable() {
            proof {
                assert(seeds_view(seeds@)[i as int] == seeds@[i as int]@);
                assert(!spec_seed_packable(seeds_view(seeds@)[i as int]));
            }
            return Err(AccountResolutionError::InvalidSeedConfig);
        }
        let mut piece = seed.pack();
        proof {
            assert(seeds_view(seeds@).take(i + 1).drop_last() =~= seeds_view(seeds@).take(
                i as int,
            ));
            assert(seeds_view(seeds@).take(i + 1).last() == seeds_view(seeds@)[i as int]);
            assert(piece@.len() <= 257);
        }
        body.append(&mut piece);
        proof {
            assert(body@ =~= spec_seeds_enc(seeds_view(seeds@).take(i + 1)));
        }
        i += 1;
    }
    proof {
        assert(seeds_view(seeds@).take(n as int) =~= seeds_view(seeds@));
    }
    if body.len() > ADDRESS_CONFIG_LEN - 1 {
        return Err(AccountResolutionError::SeedConfigsTooLarge);
    }
    let mut config = [0u8; 32];
    proof {
        lemma_seeds_enc_min_len(seeds_view(seeds@));
        assert(2 * (n as int) <= 31);
    }
    config[0] = n as u8;
    let mut i: usize = 0;
    while i < body.len()
        invariant
            body@.len() <= 31,
            config@.len() == 32,
            0 <= i <= body@.len(),
            config@[0] == seeds@.len() as u8,
            forall|j: int| 0 <= j < i ==> config@[1 + j] == body@[j],
            forall|j: int| 1 + i <= j < 32 ==> config@[j] == 0u8,
        decreases body@.len() - i,
    {
        config[i + 1] = body[i];
        i += 1;
    }
    proof {
        assert(config@ =~= seq![seeds@.len() as u8] + body@ + Seq::new(
            (ADDRESS_CONFIG_LEN - 1 - body@.len()) as nat,
            |j: int| 0u8,
        ));
    }
    Ok(config)
}

/// Each packed seed takes at least two bytes, so a packed body bounds
/// its seed count.
pub proof fn lemma_seeds_enc_min_len(seeds: Seq<SeedV>)
    ensures
        spec_seeds_enc(seeds).len() >= 2 * seeds.len(),
    decreases seeds.len(),
{
    if seeds.len() > 0 {
        lemma_seeds_enc_min_len(seeds.drop_last());
    }
}

/// The packed encoding splits off its first seed record.
proof fn lemma_seeds_enc_first(seeds: Seq<SeedV>)
    requires
        seeds.len() > 0,
    ensures
        spec_seeds_enc(seeds) == spec_seed_enc(seeds.first()) + spec_seeds_enc(seeds.drop_first()),
    decreases seeds.len(),
{
    if seeds.len() == 1 {
        assert(seeds.drop_last() =~= Seq::<SeedV>::empty());
        assert(seeds.drop_first() =~= Seq::<SeedV>::empty());
        assert(spec_seeds_enc(seeds) =~= spec_seed_enc(seeds.first()) + spec_seeds_enc(
            seeds.drop_first(),
        ));
    } else {
        lemma_seeds_enc_first(seeds.drop_last());
        assert(seeds.drop_last().first() == seeds.first());
        assert(seeds.drop_last().drop_first() =~= seeds.drop_first().drop_last());
        assert(seeds.drop_first().len() > 0);
        assert(seeds.drop_first().last() == seeds.last());
        assert(spec_seeds_enc(seeds) =~= spec_seed_enc(seeds.first()) + spec_seeds_enc(
            seeds.drop_first(),
        ));
    }
}

/// Packed seed records starting at `off` read back as exactly the seeds
/// that were packed.
proof fn lemma_parse_packed_records(config: Seq<u8>, off: int, seeds: Seq<SeedV>)
    requires
        forall|i: int| 0 <= i < seeds.len() ==> spec_seed_packable(#[trigger] seeds[i]),
        0 <= off,
        off + spec_seeds_enc(seeds).len() <= config.len(),
        config.subrange(off, off + spec_seeds_enc(seeds).len() as int) == spec_seeds_enc(seeds),
    ensures
        spec_parse_seed_records(config, off, seeds.len() as nat) == Ok::<
            Seq<SeedV>,
            AccountResolutionError,
        >(seeds),
    decreases seeds.len(),
{
    if seeds.len() == 0 {
        assert(seeds =~= Seq::<SeedV>::empty());
    } else {
        lemma_seeds_enc_first(seeds);
        let head = seeds.first();
        let head_enc = spec_seed_enc(head);
        let rest = seeds.drop_first();
        let rest_enc = spec_seeds_enc(rest);
        let enc = spec_seeds_enc(seeds);
        let sub = config.subrange(off, off + enc.len() as int);
        assert forall|t: int| 0 <= t < enc.len() implies config[off + t] == enc[t] by {
            assert(sub[t] == config[off + t]);
            assert(sub[t] == enc[t]);
        }
        let next = off + head_enc.len();
        assert forall|t: int|
            0 <= t < rest_enc.len() implies config.subrange(
            next,
            next + rest_enc.len() as int,
        )[t] == rest_enc[t] by {
            assert(config[off + (head_enc.len() + t)] == enc[head_enc.len() + t]);
            assert(enc[head_enc.len() + t] == rest_enc[t]);
        }
        assert(config.subrange(next, next + rest_enc.len() as int) =~= rest_enc);
        lemma_parse_packed_records(config, next, rest);
        assert(config[off + 0] == enc[0]);
        match head {
            SeedV::Literal { bytes } => {
                assert(config[off] == 1);
                assert(config[off + 1] == enc[1]);
                assert(config[off + 1] == bytes.len() as u8);
                assert(bytes.len() <= 255);
                assert forall|t: int|
                    0 <= t < bytes.len() implies config.subrange(
                    off + 2,
                    off + 2 + bytes.len() as int,
                )[t] == bytes[t] by {
                    assert(config[off + (2 + t)] == enc[2 + t]);
                    assert(enc[2 + t] == head_enc[2 + t]);
                    assert(head_enc[2 + t] == bytes[t]);
                }
                assert(config.subrange(off + 2, off + 2 + bytes.len() as int) =~= bytes);
            },
            SeedV::InstructionData { index, length } => {
                assert(config[off] == 2);
                assert(config[off + 1] == enc[1]);
                assert(config[off + 2] == enc[2]);
                assert(config[off + 1] == index);
                assert(config[off + 2] == length);
            },
            SeedV::AccountKey { index } => {
                assert(config[off] == 3);
                assert(config[off + 1] == enc[1]);
                assert(config[off + 1] == index);
            },
        }
        assert(seq![head] + rest =~= seeds);
    }
}

/// Round trip of the configuration area: a packed seed list reads back
/// as exactly the seeds that were packed.
pub proof fn lemma_seed_config_round_trip(seeds: Seq<SeedV>)
    requires
        spec_pack_seeds(seeds) is Ok,
    ensures
        spec_parse_seeds(spec_pack_seeds(seeds)->Ok_0) == Ok::<
            Seq<SeedV>,
            AccountResolutionError,
        >(seeds),
{
    let body = spec_seeds_enc(seeds);
    let config = spec_pack_seeds(seeds)->Ok_0;
    lemma_seeds_enc_min_len(seeds);
    assert(config.len() == ADDRESS_CONFIG_LEN);
    assert(config[0] == seeds.len() as u8);
    assert((seeds.len() as u8) as nat == seeds.len());
    assert(config.subrange(1, 1 + body.len() as int) =~= body);
    lemma_parse_packed_records(config, 1, seeds);
}

/// Once a prefix of the seed list fails to evaluate, the whole list
/// fails the same way.
pub proof fn lemma_eval_seeds_prefix_error(
    seeds: Seq<SeedV>,
    keys: Seq<Seq<u8>>,
    data: Seq<u8>,
    j: int,
)
    requires
        0 <= j <= seeds.len(),
        spec_eval_seeds(seeds.take(j), keys, data) is Err,
    ensures
        spec_eval_seeds(seeds, keys, data) == spec_eval_seeds(seeds.take(j), keys, data),
    decreases seeds.len() - j,
{
    if j < seeds.len() {
        assert(seeds.take(j + 1).drop_last() =~= seeds.take(j));
        lemma_eval_seeds_prefix_error(seeds, keys, data, j + 1);
    } else {
        assert(seeds.take(j) =~= seeds);
    }
}

/// Read the seed specifications stored in a configuration area.
pub fn unpack_address_config(config: &[u8]) -> (r: Result<Vec<Seed>, AccountResolutionError>)
    ensures
        match (r, spec_parse_seeds(config@)) {
            (Ok(seeds), Ok(views)) => seeds_view(seeds@) == views,
            (Err(e), Err(f)) => e == f,
            _ => false,
        },
{
    if config.len() != ADDRESS_CONFIG_LEN {
        return Err(AccountResolutionError::InvalidBytesForSeed);
    }
    parse_seed_records(config, 1, config[0])
}

/// Read `k` packed seed records starting at `off`.
fn parse_seed_records(config: &[u8], off: usize, k: u8) -> (r: Result<
    Vec<Seed>,
    AccountResolutionError,
>)
    ensures
        match (r, spec_parse_seed_records(config@, off as int, k as nat)) {
            (Ok(seeds), Ok(views)) => seeds_view(seeds@) == views,
            (Err(e), Err(f)) => e == f,
            _ => false,
        },
    decreases k,
{
    if k == 0 {
        let r: Vec<Seed> = Vec::new();
        proof {
            assert(seeds_view(r@) =~= Seq::<SeedV>::empty());
        }
        return Ok(r);
    }
    let clen = config.len();
    if off >= clen {
        return Err(AccountResolutionError::InvalidBytesForSeed);
    }
    let tag = config[off];
    let (head, next) = if tag == 1 {
        if clen - off < 2 {
            return Err(AccountResolutionError::InvalidBytesForSeed);
        }
        let len = config[off + 1] as usize;
        if len > clen - off - 2 {
            return Err(AccountResolutionError::InvalidBytesForSeed);
        }
        let bytes = vstd::slice::slice_to_vec(
            vstd::slice::slice_subrange(config, off + 2, off + 2 + len),
        );
        (Seed::Literal { bytes }, off + 2 + len)
    } else if tag == 2 {
        if clen - off < 3 {
            return Err(AccountResolutionError::InvalidBytesForSeed);
        }
        (Seed::InstructionData { index: config[off + 1], length: config[off + 2] }, off + 3)
    } else if tag == 3 {
        if clen - off < 2 {
            return Err(AccountResolutionError::InvalidBytesForSeed);
        }
        (Seed::AccountKey { index: config[off + 1] }, off + 2)
    } else {
        return Err(AccountResolutionError::InvalidBytesForSeed);
    };
    let mut rest = parse_seed_records(config, next, k - 1)?;
    rest.insert(0, head);
    proof {
        let spec_r = spec_parse_seed_records(config@, off as int, k as nat);
        assert(seeds_view(rest@) =~= spec_r->Ok_0);
    }
    Ok(rest)
}

/// Produce, in order, the seed byte strings of a list of seed
/// specifications.
pub fn evaluate_seeds(seeds: &Vec<Seed>, keys: &Vec<crate::pubkey::Pubkey>, data: &[u8]) -> (r:
    Result<Vec<Vec<u8>>, AccountResolutionError>)
    ensures
        ({
            let keyviews = keys@.map_values(|k: crate::pubkey::Pubkey| k@);
            match (r, spec_eval_seeds(seeds_view(seeds@), keyviews, data@)) {
                (Ok(out), Ok(views)) => out@.map_values(|b: Vec<u8>| b@) == views,
                (Err(e), Err(f)) => e == f,
                _ => false,
            }
        }),
{
    let ghost keyviews = keys@.map_values(|k: crate::pubkey::Pubkey| k@);
    let n = seeds.len();
    let mut out: Vec<Vec<u8>> = Vec::new();
    let mut i: usize = 0;
    while i < n
        invariant
            n == seeds@.len(),
            0 <= i <= n,
            keyviews == keys@.map_values(|k: crate::pubkey::Pubkey| k@),
            spec_eval_seeds(seeds_view(seeds@).take(i as int), keyviews, data@) matches Ok(v)
                && out@.map_values(|b: Vec<u8>| b@) == v,
        decreases n - i,
    {
        proof {
            assert(seeds_view(seeds@).take(i + 1).drop_last() =~= seeds_view(seeds@).take(i as int));
            assert(seeds_view(seeds@).take(i + 1).last() == seeds_view(seeds@)[i as int]);
        }
        let seed = &seeds[i];
        let piece: Vec<u8> = match seed {
            Seed::Literal { bytes } => vstd::slice::slice_to_vec(bytes.as_slice()),
            Seed::InstructionData { index, length } => {
                let index = *index as usize;
                let length = *length as usize;
                if index + length > data.len() {
                    proof {
                        assert(seeds_view(seeds@).take(i + 1).drop_last() =~= seeds_view(
                            seeds@,
                        ).take(i as int));
                        lemma_eval_seeds_prefix_error(seeds_view(seeds@), keyviews, data@, i + 1);
                    }
                    return Err(AccountResolutionError::InstructionDataTooSmall);
                }
                vstd::slice::slice_to_vec(
                    vstd::slice::slice_subrange(data, index, index + length),
                )
            },
            Seed::AccountKey { index } => {
                let index = *index as usize;
                if index >= keys.len() {
                    proof {
                        assert(seeds_view(seeds@).take(i + 1).drop_last() =~= seeds_view(
                            seeds@,
                        ).take(i as int));
                        lemma_eval_seeds_prefix_error(seeds_view(seeds@), keyviews, data@, i + 1);
                    }
                    return Err(AccountResolutionError::AccountNotFound);
                }
                keys[index].to_vec()
            },
        };
        out.push(piece);
        proof {
            assert(out@.map_values(|b: Vec<u8>| b@) =~= spec_eval_seeds(
                seeds_view(seeds@).take(i + 1),
                keyviews,
                data@,
            )->Ok_0);
        }
        i += 1;
    }
    proof {
        assert(seeds_view(seeds@).take(n as int) =~= seeds_view(seeds@));
    }
    Ok(out)
}

} // verus!
