use tlv_account_resolution::account::ExtraAccountMeta;
use tlv_account_resolution::account_info::AccountInfo;
use tlv_account_resolution::error::{AccountResolutionError, ProgramError, SplPodError, TlvError};
use tlv_account_resolution::instruction::{AccountMeta, Instruction};
use tlv_account_resolution::pubkey::Pubkey;
use tlv_account_resolution::seeds::Seed;
use tlv_account_resolution::state::ExtraAccountMetaList;

const TEST_DISCRIMINATOR: [u8; 8] = [1; 8];
const TEST_OTHER_DISCRIMINATOR: [u8; 8] = [2; 8];

fn new_unique() -> Pubkey {
    Pubkey::new_from_array(solana_pubkey::Pubkey::new_unique().to_bytes())
}

fn find_pda(seeds: &[&[u8]], program_id: &Pubkey) -> Pubkey {
    let pid = solana_pubkey::Pubkey::new_from_array(program_id.0);
    let (key, _bump) = solana_pubkey::Pubkey::find_program_address(seeds, &pid);
    Pubkey::new_from_array(key.to_bytes())
}

fn as_metas(accounts: &[AccountMeta]) -> Vec<ExtraAccountMeta> {
    accounts.iter().map(ExtraAccountMeta::from_meta).collect()
}

#[test]
fn init_with_metas() {
    let metas = vec![
        AccountMeta::new(new_unique(), false),
        AccountMeta::new(new_unique(), true),
        AccountMeta::new_readonly(new_unique(), true),
        AccountMeta::new_readonly(new_unique(), false),
    ];
    let account_size = ExtraAccountMetaList::size_of(metas.len()).unwrap();
    let mut buffer = vec![0; account_size];

    ExtraAccountMetaList::init_with_account_metas(&mut buffer, &TEST_DISCRIMINATOR, &metas)
        .unwrap();

    let mut instruction = Instruction::new_with_bytes(new_unique(), &[], vec![]);
    ExtraAccountMetaList::add_to_instruction(&TEST_DISCRIMINATOR, &mut instruction, &buffer)
        .unwrap();

    assert_eq!(as_metas(&instruction.accounts), as_metas(&metas));
}

#[test]
fn init_with_infos() {
    let account_infos = vec![
        AccountInfo::new(new_unique(), false, true),
        AccountInfo::new(new_unique(), true, false),
        AccountInfo::new(new_unique(), false, false),
    ];
    let account_size = ExtraAccountMetaList::size_of(account_infos.len()).unwrap();
    let mut buffer = vec![0; account_size];

    ExtraAccountMetaList::init_with_account_infos(&mut buffer, &TEST_DISCRIMINATOR, &account_infos)
        .unwrap();

    let mut instruction = Instruction::new_with_bytes(new_unique(), &[], vec![]);
    ExtraAccountMetaList::add_to_instruction(&TEST_DISCRIMINATOR, &mut instruction, &buffer)
        .unwrap();

    let resolved: Vec<ExtraAccountMeta> =
        instruction.accounts.iter().map(ExtraAccountMeta::from_meta).collect();
    let expected: Vec<ExtraAccountMeta> =
        account_infos.iter().map(ExtraAccountMeta::from_info).collect();
    assert_eq!(resolved, expected);
}

#[test]
fn init_with_pod_account_metas() {
    let program_id = new_unique();

    let extra_meta3_literal_str = "seed_prefix";

    let ix_account1 = AccountMeta::new(new_unique(), false);
    let ix_account2 = AccountMeta::new(new_unique(), true);

    let extra_meta1 = AccountMeta::new(new_unique(), false);
    let extra_meta2 = AccountMeta::new(new_unique(), true);
    let extra_meta3 = ExtraAccountMeta::new_with_seeds(
        &vec![
            Seed::Literal {
                bytes: extra_meta3_literal_str.as_bytes().to_vec(),
            },
            Seed::InstructionData {
                index: 1,
                length: 1, // u8
            },
            Seed::AccountKey { index: 0 },
            Seed::AccountKey { index: 2 },
        ],
        false,
        true,
    )
    .unwrap();

    let metas = vec![
        ExtraAccountMeta::from_meta(&extra_meta1),
        ExtraAccountMeta::from_meta(&extra_meta2),
        extra_meta3,
    ];

    let ix_data = vec![1, 2, 3, 4];
    let ix_accounts = vec![ix_account1.clone(), ix_account2.clone()];
    let mut instruction = Instruction::new_with_bytes(program_id, &ix_data, ix_accounts);

    let account_size = ExtraAccountMetaList::size_of(metas.len()).unwrap();
    let mut buffer = vec![0; account_size];

    ExtraAccountMetaList::init_with_pod_account_metas(&mut buffer, &TEST_DISCRIMINATOR, &metas)
        .unwrap();

    ExtraAccountMetaList::add_to_instruction(&TEST_DISCRIMINATOR, &mut instruction, &buffer)
        .unwrap();

    let check_extra_meta3_u8_arg = ix_data[1];
    let check_extra_meta3_pubkey = find_pda(
        &[
            extra_meta3_literal_str.as_bytes(),
            &[check_extra_meta3_u8_arg],
            &ix_account1.pubkey.0,
            &extra_meta1.pubkey.0,
        ],
        &program_id,
    );
    let check_metas = [
        ix_account1,
        ix_account2,
        extra_meta1,
        extra_meta2,
        AccountMeta::new(check_extra_meta3_pubkey, false),
    ];

    assert_eq!(
        instruction.accounts.get(4).unwrap().pubkey,
        check_extra_meta3_pubkey,
    );
    assert_eq!(as_metas(&instruction.accounts), as_metas(&check_metas));
}

#[test]
fn init_multiple() {
    let extra_meta5_literal_str = "seed_prefix";
    let extra_meta5_literal_u32 = 4u32;
    let other_meta2_literal_str = "other_seed_prefix";

    let extra_meta1 = AccountMeta::new(new_unique(), false);
    let extra_meta2 = AccountMeta::new(new_unique(), true);
    let extra_meta3 = AccountMeta::new_readonly(new_unique(), true);
    let extra_meta4 = AccountMeta::new_readonly(new_unique(), false);
    let extra_meta5 = ExtraAccountMeta::new_with_seeds(
        &vec![
            Seed::Literal {
                bytes: extra_meta5_literal_str.as_bytes().to_vec(),
            },
            Seed::Literal {
                bytes: extra_meta5_literal_u32.to_le_bytes().to_vec(),
            },
            Seed::InstructionData {
                index: 5,
                length: 1, // u8
            },
            Seed::AccountKey { index: 2 },
        ],
        false,
        true,
    )
    .unwrap();

    let other_meta1 = AccountMeta::new(new_unique(), false);
    let other_meta2 = ExtraAccountMeta::new_with_seeds(
        &vec![
            Seed::Literal {
                bytes: other_meta2_literal_str.as_bytes().to_vec(),
            },
            Seed::InstructionData {
                index: 1,
                length: 4, // u32
            },
            Seed::AccountKey { index: 0 },
        ],
        false,
        true,
    )
    .unwrap();

    let metas = vec![
        ExtraAccountMeta::from_meta(&extra_meta1),
        ExtraAccountMeta::from_meta(&extra_meta2),
        ExtraAccountMeta::from_meta(&extra_meta3),
        ExtraAccountMeta::from_meta(&extra_meta4),
        extra_meta5,
    ];
    let other_metas = vec![ExtraAccountMeta::from_meta(&other_meta1), other_meta2];

    let account_size = ExtraAccountMetaList::size_of(metas.len()).unwrap()
        + ExtraAccountMetaList::size_of(other_metas.len()).unwrap();
    let mut buffer = vec![0; account_size];

    ExtraAccountMetaList::init_with_pod_account_metas(&mut buffer, &TEST_DISCRIMINATOR, &metas)
        .unwrap();
    ExtraAccountMetaList::init_with_pod_account_metas(
        &mut buffer,
        &TEST_OTHER_DISCRIMINATOR,
        &other_metas,
    )
    .unwrap();

    let program_id = new_unique();
    let ix_data = vec![0, 0, 0, 0, 0, 7, 0, 0];
    let ix_accounts = vec![];
    let mut instruction = Instruction::new_with_bytes(program_id, &ix_data, ix_accounts);
    ExtraAccountMetaList::add_to_instruction(&TEST_DISCRIMINATOR, &mut instruction, &buffer)
        .unwrap();

    let check_extra_meta5_u8_arg = ix_data[5];
    let check_extra_meta5_pubkey = find_pda(
        &[
            extra_meta5_literal_str.as_bytes(),
            extra_meta5_literal_u32.to_le_bytes().as_ref(),
            &[check_extra_meta5_u8_arg],
            &extra_meta3.pubkey.0,
        ],
        &program_id,
    );
    let check_metas = [
        extra_meta1,
        extra_meta2,
        extra_meta3,
        extra_meta4,
        AccountMeta::new(check_extra_meta5_pubkey, false),
    ];

    assert_eq!(
        instruction.accounts.get(4).unwrap().pubkey,
        check_extra_meta5_pubkey,
    );
    assert_eq!(as_metas(&instruction.accounts), as_metas(&check_metas));

    let program_id = new_unique();
    let ix_account1 = AccountMeta::new(new_unique(), false);
    let ix_account2 = AccountMeta::new(new_unique(), true);
    let ix_accounts = vec![ix_account1.clone(), ix_account2.clone()];
    let ix_data = vec![0, 26, 0, 0, 0, 0, 0];
    let mut instruction = Instruction::new_with_bytes(program_id, &ix_data, ix_accounts);
    ExtraAccountMetaList::add_to_instruction(&TEST_OTHER_DISCRIMINATOR, &mut instruction, &buffer)
        .unwrap();

    let check_other_meta2_u32_arg = u32::from_le_bytes(ix_data[1..5].try_into().unwrap());
    let check_other_meta2_pubkey = find_pda(
        &[
            other_meta2_literal_str.as_bytes(),
            check_other_meta2_u32_arg.to_le_bytes().as_ref(),
            &ix_account1.pubkey.0,
        ],
        &program_id,
    );
    let check_other_metas = [
        ix_account1,
        ix_account2,
        other_meta1,
        AccountMeta::new(check_other_meta2_pubkey, false),
    ];

    assert_eq!(
        instruction.accounts.get(3).unwrap().pubkey,
        check_other_meta2_pubkey,
    );
    assert_eq!(as_metas(&instruction.accounts), as_metas(&check_other_metas));
}

#[test]
fn init_mixed() {
    let extra_meta5_literal_str = "seed_prefix";
    let extra_meta6_literal_u64 = 28u64;

    let account_infos = vec![
        AccountInfo::new(new_unique(), false, true),
        AccountInfo::new(new_unique(), true, false),
        AccountInfo::new(new_unique(), false, false),
    ];

    let extra_meta1 = AccountMeta::new(new_unique(), false);
    let extra_meta2 = AccountMeta::new(new_unique(), true);
    let extra_meta3 = AccountMeta::new_readonly(new_unique(), true);
    let extra_meta4 = AccountMeta::new_readonly(new_unique(), false);
    let extra_meta5 = ExtraAccountMeta::new_with_seeds(
        &vec![
            Seed::Literal {
                bytes: extra_meta5_literal_str.as_bytes().to_vec(),
            },
            Seed::InstructionData {
                index: 1,
                length: 8, // [u8; 8]
            },
            Seed::InstructionData {
                index: 9,
                length: 32, // a full address
            },
            Seed::AccountKey { index: 2 },
        ],
        false,
        true,
    )
    .unwrap();
    let extra_meta6 = ExtraAccountMeta::new_with_seeds(
        &vec![
            Seed::Literal {
                bytes: extra_meta6_literal_u64.to_le_bytes().to_vec(),
            },
            Seed::AccountKey { index: 1 },
            Seed::AccountKey { index: 4 },
        ],
        false,
        true,
    )
    .unwrap();

    let metas = vec![
        ExtraAccountMeta::from_meta(&extra_meta1),
        ExtraAccountMeta::from_meta(&extra_meta2),
        ExtraAccountMeta::from_meta(&extra_meta3),
        ExtraAccountMeta::from_meta(&extra_meta4),
        extra_meta5,
        extra_meta6,
    ];

    let account_size = ExtraAccountMetaList::size_of(account_infos.len()).unwrap()
        + ExtraAccountMetaList::size_of(metas.len()).unwrap();
    let mut buffer = vec![0; account_size];

    ExtraAccountMetaList::init_with_account_infos(&mut buffer, &TEST_DISCRIMINATOR, &account_infos)
        .unwrap();
    ExtraAccountMetaList::init_with_pod_account_metas(
        &mut buffer,
        &TEST_OTHER_DISCRIMINATOR,
        &metas,
    )
    .unwrap();

    let program_id = new_unique();
    let mut instruction = Instruction::new_with_bytes(program_id, &[], vec![]);
    ExtraAccountMetaList::add_to_instruction(&TEST_DISCRIMINATOR, &mut instruction, &buffer)
        .unwrap();
    let resolved: Vec<ExtraAccountMeta> =
        instruction.accounts.iter().map(ExtraAccountMeta::from_meta).collect();
    let expected: Vec<ExtraAccountMeta> =
        account_infos.iter().map(ExtraAccountMeta::from_info).collect();
    assert_eq!(resolved, expected);

    let program_id = new_unique();
    let instruction_u8array_arg = [1, 2, 3, 4, 5, 6, 7, 8];
    let instruction_pubkey_arg = new_unique();
    let mut instruction_data = vec![0];
    instruction_data.extend_from_slice(&instruction_u8array_arg);
    instruction_data.extend_from_slice(&instruction_pubkey_arg.0);
    let mut instruction = Instruction::new_with_bytes(program_id, &instruction_data, vec![]);
    ExtraAccountMetaList::add_to_instruction(&TEST_OTHER_DISCRIMINATOR, &mut instruction, &buffer)
        .unwrap();

    let check_extra_meta5_pubkey = find_pda(
        &[
            extra_meta5_literal_str.as_bytes(),
            &instruction_u8array_arg,
            &instruction_pubkey_arg.0,
            &extra_meta3.pubkey.0,
        ],
        &program_id,
    );

    let check_extra_meta6_pubkey = find_pda(
        &[
            extra_meta6_literal_u64.to_le_bytes().as_ref(),
            &extra_meta2.pubkey.0,
            &check_extra_meta5_pubkey.0, // The first PDA should be at index 4
        ],
        &program_id,
    );

    let check_metas = vec![
        extra_meta1,
        extra_meta2,
        extra_meta3,
        extra_meta4,
        AccountMeta::new(check_extra_meta5_pubkey, false),
        AccountMeta::new(check_extra_meta6_pubkey, false),
    ];

    assert_eq!(
        instruction.accounts.get(4).unwrap().pubkey,
        check_extra_meta5_pubkey,
    );
    assert_eq!(
        instruction.accounts.get(5).unwrap().pubkey,
        check_extra_meta6_pubkey,
    );
    assert_eq!(as_metas(&instruction.accounts), as_metas(&check_metas));
}

#[test]
fn cpi_instruction() {
    // Say we have a program that calls into another program, and that
    // other program will need extra account handles.
    let program_id = new_unique();

    // The handles of the instruction's own accounts.
    let ix_account_infos = [
        AccountInfo::new(new_unique(), false, true),
        AccountInfo::new(new_unique(), false, true),
    ];
    // The instruction's own account references.
    let ix_accounts = vec![
        AccountMeta::new(ix_account_infos[0].key, false),
        AccountMeta::new(ix_account_infos[1].key, false),
    ];

    // The extra account handles the called program requires.
    let extra_account_infos = [
        AccountInfo::new(new_unique(), false, true),
        AccountInfo::new(new_unique(), true, false),
        AccountInfo::new(new_unique(), false, false),
    ];

    // Also two required PDAs.
    let required_pda1_literal_string = "required_pda1";
    let required_pda2_literal_u32 = 4u32;

    let required_pda1 = ExtraAccountMeta::new_with_seeds(
        &vec![
            Seed::Literal {
                bytes: required_pda1_literal_string.as_bytes().to_vec(),
            },
            Seed::InstructionData {
                index: 1,
                length: 8, // [u8; 8]
            },
            Seed::AccountKey { index: 1 },
        ],
        false,
        true,
    )
    .unwrap();
    let required_pda2 = ExtraAccountMeta::new_with_seeds(
        &vec![
            Seed::Literal {
                bytes: required_pda2_literal_u32.to_le_bytes().to_vec(),
            },
            Seed::InstructionData {
                index: 9,
                length: 8, // u64
            },
            Seed::AccountKey { index: 5 },
        ],
        false,
        true,
    )
    .unwrap();

    // The called program has 2 account references and 5 extra required
    // accounts (3 fixed, 2 PDAs).
    let mut required_accounts: Vec<ExtraAccountMeta> =
        extra_account_infos.iter().map(ExtraAccountMeta::from_info).collect();
    required_accounts.push(required_pda1);
    required_accounts.push(required_pda2);

    let account_size = ExtraAccountMetaList::size_of(required_accounts.len()).unwrap();
    let mut buffer = vec![0; account_size];

    ExtraAccountMetaList::init_with_pod_account_metas(
        &mut buffer,
        &TEST_DISCRIMINATOR,
        &required_accounts,
    )
    .unwrap();

    // Make an instruction to check later.
    let instruction_u8array_arg = [1, 2, 3, 4, 5, 6, 7, 8];
    let instruction_u64_arg = 208u64;
    let mut instruction_data = vec![0];
    instruction_data.extend_from_slice(&instruction_u8array_arg);
    instruction_data.extend_from_slice(instruction_u64_arg.to_le_bytes().as_ref());

    let mut instruction =
        Instruction::new_with_bytes(program_id, &instruction_data, ix_accounts.clone());
    ExtraAccountMetaList::add_to_instruction(&TEST_DISCRIMINATOR, &mut instruction, &buffer)
        .unwrap();

    // Now our program is going to use its own set of account handles,
    // which must contain all required handles, in a messed-up order.
    let mut messed_account_infos = Vec::new();
    messed_account_infos.extend(ix_account_infos);
    messed_account_infos.extend(extra_account_infos.iter().copied());

    // Also the extra PDAs with their actual addresses.
    let check_required_pda1_pubkey = find_pda(
        &[
            required_pda1_literal_string.as_bytes(),
            &instruction_u8array_arg,
            &ix_account_infos[1].key.0, // The second account
        ],
        &program_id,
    );
    let check_required_pda2_pubkey = find_pda(
        &[
            required_pda2_literal_u32.to_le_bytes().as_ref(),
            instruction_u64_arg.to_le_bytes().as_ref(),
            &check_required_pda1_pubkey.0, // The first PDA should be at index 5
        ],
        &program_id,
    );

    let extra_pda_info1 = AccountInfo::new(check_required_pda1_pubkey, false, true);
    messed_account_infos.push(extra_pda_info1);
    let extra_pda_info2 = AccountInfo::new(check_required_pda2_pubkey, false, true);
    messed_account_infos.push(extra_pda_info2);

    // Now throw in a few extras that might be just for our program.
    messed_account_infos.push(AccountInfo::new(new_unique(), false, true));
    messed_account_infos.push(AccountInfo::new(new_unique(), false, true));

    // Mess 'em up!
    messed_account_infos.swap(0, 4);
    messed_account_infos.swap(1, 2);
    messed_account_infos.swap(3, 4);

    // Perform the account resolution.
    let mut cpi_instruction =
        Instruction::new_with_bytes(program_id, &instruction_data, ix_accounts);
    let mut cpi_account_infos = ix_account_infos.to_vec();
    ExtraAccountMetaList::add_to_cpi_instruction(
        &TEST_DISCRIMINATOR,
        &mut cpi_instruction,
        &mut cpi_account_infos,
        &buffer,
        &messed_account_infos,
    )
    .unwrap();

    // Our CPI instruction should match the check instruction.
    assert_eq!(cpi_instruction, instruction);

    // CPI account infos should have the instruction account infos and
    // the extra required account infos, in the correct order.
    let mut all_account_infos = ix_account_infos.to_vec();
    all_account_infos.extend(extra_account_infos.iter().copied());
    all_account_infos.push(extra_pda_info1);
    all_account_infos.push(extra_pda_info2);

    assert_eq!(cpi_account_infos.len(), all_account_infos.len());
    for (a, b) in std::iter::zip(cpi_account_infos, all_account_infos) {
        assert_eq!(a.key, b.key);
        assert_eq!(a.is_signer, b.is_signer);
        assert_eq!(a.is_writable, b.is_writable);
    }
}

#[test]
fn pool_order_does_not_matter() {
    // Two pools holding the same handles in different orders give the
    // same expanded instruction and the same collected handles.
    let program_id = new_unique();
    let infos = vec![
        AccountInfo::new(new_unique(), false, true),
        AccountInfo::new(new_unique(), true, false),
        AccountInfo::new(new_unique(), false, false),
    ];
    let required: Vec<ExtraAccountMeta> = infos.iter().map(ExtraAccountMeta::from_info).collect();
    let account_size = ExtraAccountMetaList::size_of(required.len()).unwrap();
    let mut buffer = vec![0; account_size];
    ExtraAccountMetaList::init_with_pod_account_metas(&mut buffer, &TEST_DISCRIMINATOR, &required)
        .unwrap();

    let mut pool_one = infos.clone();
    pool_one.push(AccountInfo::new(new_unique(), false, true));
    let mut pool_two = pool_one.clone();
    pool_two.swap(0, 3);
    pool_two.swap(1, 2);

    let mut ix_one = Instruction::new_with_bytes(program_id, &[], vec![]);
    let mut infos_one = Vec::new();
    ExtraAccountMetaList::add_to_cpi_instruction(
        &TEST_DISCRIMINATOR,
        &mut ix_one,
        &mut infos_one,
        &buffer,
        &pool_one,
    )
    .unwrap();

    let mut ix_two = Instruction::new_with_bytes(program_id, &[], vec![]);
    let mut infos_two = Vec::new();
    ExtraAccountMetaList::add_to_cpi_instruction(
        &TEST_DISCRIMINATOR,
        &mut ix_two,
        &mut infos_two,
        &buffer,
        &pool_two,
    )
    .unwrap();

    assert_eq!(ix_one, ix_two);
    assert_eq!(infos_one, infos_two);
}

#[test]
fn missing_handle_leaves_everything_unchanged() {
    // A pool without one required address fails with IncorrectAccount
    // and leaves both the instruction and the handle list unchanged.
    let program_id = new_unique();
    let infos = vec![
        AccountInfo::new(new_unique(), false, true),
        AccountInfo::new(new_unique(), true, false),
    ];
    let required: Vec<ExtraAccountMeta> = infos.iter().map(ExtraAccountMeta::from_info).collect();
    let account_size = ExtraAccountMetaList::size_of(required.len()).unwrap();
    let mut buffer = vec![0; account_size];
    ExtraAccountMetaList::init_with_pod_account_metas(&mut buffer, &TEST_DISCRIMINATOR, &required)
        .unwrap();

    // Only the first handle is available.
    let pool = vec![infos[0]];

    let mut instruction = Instruction::new_with_bytes(program_id, &[], vec![]);
    let snapshot = instruction.clone();
    let mut collected = vec![infos[0]];
    let err = ExtraAccountMetaList::add_to_cpi_instruction(
        &TEST_DISCRIMINATOR,
        &mut instruction,
        &mut collected,
        &buffer,
        &pool,
    )
    .unwrap_err();
    assert_eq!(
        err,
        AccountResolutionError::IncorrectAccount.into()
    );
    assert_eq!(instruction, snapshot);
    assert_eq!(collected.len(), 1);
}

#[test]
fn account_key_out_of_range_fails_and_leaves_instruction_unchanged() {
    // A seed that names combined account number five, evaluated while
    // only three accounts are known, fails with AccountNotFound and the
    // instruction's account list is unchanged afterwards.
    let program_id = new_unique();
    let fixed = AccountMeta::new(new_unique(), false);
    let derived = ExtraAccountMeta::new_with_seeds(
        &vec![Seed::AccountKey { index: 5 }],
        false,
        true,
    )
    .unwrap();
    let metas = vec![ExtraAccountMeta::from_meta(&fixed), derived];
    let account_size = ExtraAccountMetaList::size_of(metas.len()).unwrap();
    let mut buffer = vec![0; account_size];
    ExtraAccountMetaList::init_with_pod_account_metas(&mut buffer, &TEST_DISCRIMINATOR, &metas)
        .unwrap();

    // Two original accounts plus the fixed entry: three combined
    // accounts when the derived entry is evaluated.
    let ix_accounts = vec![
        AccountMeta::new(new_unique(), false),
        AccountMeta::new(new_unique(), false),
    ];
    let mut instruction = Instruction::new_with_bytes(program_id, &[7], ix_accounts);
    let snapshot = instruction.clone();

    let err = ExtraAccountMetaList::add_to_instruction(
        &TEST_DISCRIMINATOR,
        &mut instruction,
        &buffer,
    )
    .unwrap_err();
    assert_eq!(err, AccountResolutionError::AccountNotFound.into());
    assert_eq!(instruction, snapshot);
}

#[test]
fn seed_scenario_resolves_expected_address() {
    // A list holding one fixed account (writable, non-signer) and one
    // derived account seeded by a literal, one payload byte, and the
    // address at combined position zero.
    let program_id = new_unique();
    let account_a = AccountMeta::new(new_unique(), false);
    let derived = ExtraAccountMeta::new_with_seeds(
        &vec![
            Seed::Literal { bytes: b"seed".to_vec() },
            Seed::InstructionData { index: 0, length: 1 },
            Seed::AccountKey { index: 0 },
        ],
        false,
        true,
    )
    .unwrap();
    let metas = vec![ExtraAccountMeta::from_meta(&account_a), derived];
    let account_size = ExtraAccountMetaList::size_of(metas.len()).unwrap();
    let mut buffer = vec![0; account_size];
    ExtraAccountMetaList::init_with_pod_account_metas(&mut buffer, &TEST_DISCRIMINATOR, &metas)
        .unwrap();

    let account_b = AccountMeta::new(new_unique(), false);
    let mut instruction =
        Instruction::new_with_bytes(program_id, &[7], vec![account_b.clone()]);
    ExtraAccountMetaList::add_to_instruction(&TEST_DISCRIMINATOR, &mut instruction, &buffer)
        .unwrap();

    let expected = find_pda(&[b"seed", &[7], &account_b.pubkey.0], &program_id);
    assert_eq!(instruction.accounts.len(), 3);
    assert_eq!(instruction.accounts[1].pubkey, account_a.pubkey);
    assert!(instruction.accounts[1].is_writable);
    assert!(!instruction.accounts[1].is_signer);
    assert_eq!(instruction.accounts[2].pubkey, expected);
    assert!(instruction.accounts[2].is_writable);
    assert!(!instruction.accounts[2].is_signer);
}

#[test]
fn capacity_boundary() {
    // size_of(n) bytes hold exactly n requirements: writing n succeeds,
    // writing n + 1 into the same size fails with BufferTooSmall.
    let n = 3;
    let size = ExtraAccountMetaList::size_of(n).unwrap();

    let metas: Vec<ExtraAccountMeta> = (0..n)
        .map(|_| ExtraAccountMeta::from_meta(&AccountMeta::new(new_unique(), false)))
        .collect();
    let mut buffer = vec![0; size];
    ExtraAccountMetaList::init_with_pod_account_metas(&mut buffer, &TEST_DISCRIMINATOR, &metas)
        .unwrap();

    let one_more: Vec<ExtraAccountMeta> = (0..n + 1)
        .map(|_| ExtraAccountMeta::from_meta(&AccountMeta::new(new_unique(), false)))
        .collect();
    let mut too_small = vec![0; size];
    let snapshot = too_small.clone();
    let err = ExtraAccountMetaList::init_with_pod_account_metas(
        &mut too_small,
        &TEST_DISCRIMINATOR,
        &one_more,
    )
    .unwrap_err();
    assert_eq!(err, SplPodError::BufferTooSmall.into());
    assert_eq!(too_small, snapshot);
}

#[test]
fn writing_same_discriminator_twice_fails() {
    let metas = vec![ExtraAccountMeta::from_meta(&AccountMeta::new(new_unique(), false))];
    let size = ExtraAccountMetaList::size_of(metas.len()).unwrap();
    let mut buffer = vec![0; 2 * size];
    ExtraAccountMetaList::init_with_pod_account_metas(&mut buffer, &TEST_DISCRIMINATOR, &metas)
        .unwrap();
    let err = ExtraAccountMetaList::init_with_pod_account_metas(
        &mut buffer,
        &TEST_DISCRIMINATOR,
        &metas,
    )
    .unwrap_err();
    assert_eq!(err, TlvError::TypeAlreadyExists.into());
}

#[test]
fn missing_discriminator_is_not_found() {
    let metas = vec![ExtraAccountMeta::from_meta(&AccountMeta::new(new_unique(), false))];
    let size = ExtraAccountMetaList::size_of(metas.len()).unwrap();
    // leave room for a second, still-unwritten entry
    let mut buffer = vec![0; 2 * size];
    ExtraAccountMetaList::init_with_pod_account_metas(&mut buffer, &TEST_DISCRIMINATOR, &metas)
        .unwrap();

    let mut instruction = Instruction::new_with_bytes(new_unique(), &[], vec![]);
    let err = ExtraAccountMetaList::add_to_instruction(
        &TEST_OTHER_DISCRIMINATOR,
        &mut instruction,
        &buffer,
    )
    .unwrap_err();
    assert_eq!(err, TlvError::TypeNotFound.into());
    assert!(instruction.accounts.is_empty());
}

#[test]
fn payload_slice_past_end_fails() {
    let program_id = new_unique();
    let derived = ExtraAccountMeta::new_with_seeds(
        &vec![Seed::InstructionData { index: 4, length: 4 }],
        false,
        true,
    )
    .unwrap();
    let metas = vec![derived];
    let size = ExtraAccountMetaList::size_of(metas.len()).unwrap();
    let mut buffer = vec![0; size];
    ExtraAccountMetaList::init_with_pod_account_metas(&mut buffer, &TEST_DISCRIMINATOR, &metas)
        .unwrap();

    // Payload of five bytes: a slice of four bytes starting at four
    // needs eight.
    let mut instruction = Instruction::new_with_bytes(program_id, &[1, 2, 3, 4, 5], vec![]);
    let snapshot = instruction.clone();
    let err = ExtraAccountMetaList::add_to_instruction(
        &TEST_DISCRIMINATOR,
        &mut instruction,
        &buffer,
    )
    .unwrap_err();
    assert_eq!(err, AccountResolutionError::InstructionDataTooSmall.into());
    assert_eq!(instruction, snapshot);
}

#[test]
fn too_many_seed_bytes_rejected_at_construction() {
    let seeds = vec![Seed::Literal { bytes: vec![7; 32] }];
    let err = ExtraAccountMeta::new_with_seeds(&seeds, false, true).unwrap_err();
    assert_eq!(err, AccountResolutionError::SeedConfigsTooLarge.into());
}

#[test]
fn resolution_is_deterministic() {
    let program_id = new_unique();
    let payload = [9, 8, 7];
    let derived = ExtraAccountMeta::new_with_seeds(
        &vec![
            Seed::Literal { bytes: b"stable".to_vec() },
            Seed::InstructionData { index: 0, length: 2 },
        ],
        true,
        false,
    )
    .unwrap();
    let metas = vec![derived];
    let size = ExtraAccountMetaList::size_of(metas.len()).unwrap();
    let mut buffer = vec![0; size];
    ExtraAccountMetaList::init_with_pod_account_metas(&mut buffer, &TEST_DISCRIMINATOR, &metas)
        .unwrap();

    let mut first = Instruction::new_with_bytes(program_id, &payload, vec![]);
    let mut second = Instruction::new_with_bytes(program_id, &payload, vec![]);
    ExtraAccountMetaList::add_to_instruction(&TEST_DISCRIMINATOR, &mut first, &buffer).unwrap();
    ExtraAccountMetaList::add_to_instruction(&TEST_DISCRIMINATOR, &mut second, &buffer).unwrap();
    assert_eq!(first, second);
    // and the derived address really depends on the seeds
    assert_ne!(first.accounts[0].pubkey, program_id);
    assert!(first.accounts[0].is_signer);
    assert!(!first.accounts[0].is_writable);
}

#[test]
fn unpack_reads_back_stored_requirements() {
    let metas = vec![
        ExtraAccountMeta::from_meta(&AccountMeta::new(new_unique(), false)),
        ExtraAccountMeta::new_with_seeds(
            &vec![Seed::AccountKey { index: 0 }],
            false,
            true,
        )
        .unwrap(),
    ];
    let size = ExtraAccountMetaList::size_of(metas.len()).unwrap();
    let mut buffer = vec![0; size];
    ExtraAccountMetaList::init_with_pod_account_metas(&mut buffer, &TEST_DISCRIMINATOR, &metas)
        .unwrap();

    let list = ExtraAccountMetaList::unpack_with_tlv_state(&buffer, &TEST_DISCRIMINATOR).unwrap();
    assert_eq!(list.data(), metas.as_slice());
}

#[test]
fn oversized_literal_rejected_at_construction() {
    // A literal longer than its one-byte length field can describe is an
    // invalid seed configuration.
    let seeds = vec![Seed::Literal { bytes: vec![0; 300] }];
    let err = ExtraAccountMeta::new_with_seeds(&seeds, false, true).unwrap_err();
    assert_eq!(err, AccountResolutionError::InvalidSeedConfig.into());
}

#[test]
fn corrupt_stored_records_fail_to_resolve() {
    let program_id = new_unique();
    let derived = ExtraAccountMeta::new_with_seeds(
        &vec![Seed::Literal { bytes: b"x".to_vec() }],
        false,
        true,
    )
    .unwrap();
    let metas = vec![derived];
    let size = ExtraAccountMetaList::size_of(metas.len()).unwrap();
    let mut buffer = vec![0; size];
    ExtraAccountMetaList::init_with_pod_account_metas(&mut buffer, &TEST_DISCRIMINATOR, &metas)
        .unwrap();

    // The stored record starts after the entry header and the record
    // count; its second byte is the stored seed count.
    let record = 12 + 4;

    // A seed record with an unknown tag is invalid.
    let mut bad_seed = buffer.clone();
    bad_seed[record + 2] = 9;
    let mut instruction = Instruction::new_with_bytes(program_id, &[], vec![]);
    let err = ExtraAccountMetaList::add_to_instruction(
        &TEST_DISCRIMINATOR,
        &mut instruction,
        &bad_seed,
    )
    .unwrap_err();
    assert_eq!(err, AccountResolutionError::InvalidBytesForSeed.into());
    assert!(instruction.accounts.is_empty());

    // A requirement with an unknown discriminator byte is invalid
    // account data.
    let mut bad_kind = buffer;
    bad_kind[record] = 7;
    let mut instruction = Instruction::new_with_bytes(program_id, &[], vec![]);
    let err = ExtraAccountMetaList::add_to_instruction(
        &TEST_DISCRIMINATOR,
        &mut instruction,
        &bad_kind,
    )
    .unwrap_err();
    assert_eq!(err, ProgramError::InvalidAccountData);
    assert!(instruction.accounts.is_empty());
}
