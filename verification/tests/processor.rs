use nft_contract::account::AccountInfo;
use nft_contract::error::{NFTError, ProgramError};
use nft_contract::instruction::NFTInstruction;
use nft_contract::process_instruction;
use nft_contract::processor::{
    find_collection_seeds, find_nft_seeds, initialize_collection, mint_nft,
    process_burn_nft, process_initialize_collection, process_mint_nft, process_transfer_nft,
    process_update_collection_metadata, process_update_nft_metadata,
};
use nft_contract::pubkey::Pubkey;
use nft_contract::state::{
    CollectionAccount, NFTAccount, COLLECTION_ACCOUNT_SIZE, COLLECTION_SEED_PREFIX,
    NFT_ACCOUNT_SIZE, NFT_SEED_PREFIX,
};
use solana_program::pubkey::Pubkey as LedgerKey;

fn key(ledger_key: &LedgerKey) -> Pubkey {
    Pubkey::new_from_array(ledger_key.to_bytes())
}

fn filled(byte: u8) -> Pubkey {
    Pubkey::new_from_array([byte; 32])
}

fn account(key: Pubkey, is_signer: bool, owner: Pubkey, lamports: u64, data: Vec<u8>) -> AccountInfo {
    AccountInfo { key, is_signer, is_writable: !is_signer, owner, lamports, data }
}

fn collection_address(program: &LedgerKey, authority: &LedgerKey, name: &str) -> (Pubkey, u8) {
    let (address, bump) = LedgerKey::find_program_address(
        &[b"collection", authority.as_ref(), name.as_bytes()],
        program,
    );
    (key(&address), bump)
}

fn nft_address(program: &LedgerKey, collection: &Pubkey, serial_number: u64) -> (Pubkey, u8) {
    let (address, bump) = LedgerKey::find_program_address(
        &[b"nft", &collection.bytes, &serial_number.to_le_bytes()],
        program,
    );
    (key(&address), bump)
}

fn request(instruction: NFTInstruction) -> Vec<u8> {
    instruction.pack().unwrap()
}

/// The accounts of a request to create the collection `name` of `authority`.
fn initialize_accounts(program: &LedgerKey, authority: &LedgerKey, name: &str) -> Vec<AccountInfo> {
    let system = filled(0);
    let (collection, _) = collection_address(program, authority, name);
    vec![
        account(collection, false, system, 0, vec![0; COLLECTION_ACCOUNT_SIZE]),
        account(key(authority), true, system, 1_000_000, vec![]),
        account(system, false, system, 0, vec![]),
    ]
}

/// A collection that `authority` has created, as its account holds it.
fn live_collection(
    program: &LedgerKey,
    authority: &LedgerKey,
    name: &str,
    is_mutable: bool,
) -> AccountInfo {
    let mut accounts = initialize_accounts(program, authority, name);
    let data = request(NFTInstruction::InitializeCollection {
        name: name.to_string(),
        symbol: "FOO".to_string(),
        uri: "uri1".to_string(),
        royalty_percentage: 5,
        is_mutable,
    });
    process_instruction(&key(program), &mut accounts, &data, 0).unwrap();
    accounts.remove(0)
}

/// An asset with the number `serial_number` that `authority` has minted into
/// `collection` at the time 100; the collection's account is brought up to
/// date.
fn live_nft(
    program: &LedgerKey,
    authority: &LedgerKey,
    collection: &mut AccountInfo,
    serial_number: u64,
) -> AccountInfo {
    let system = filled(0);
    let (address, _) = nft_address(program, &collection.key, serial_number);
    let mut accounts = vec![
        account(collection.key, false, collection.owner, collection.lamports, collection.data.clone()),
        account(address, false, system, 5_000, vec![]),
        account(key(authority), true, system, 1_000_000, vec![]),
        account(system, false, system, 0, vec![]),
    ];
    let data = request(NFTInstruction::MintNFT { metadata_uri: "m1".to_string(), serial_number });
    process_instruction(&key(program), &mut accounts, &data, 100).unwrap();
    let nft = accounts.remove(1);
    *collection = accounts.remove(0);
    nft
}

fn same_accounts(a: &[AccountInfo], b: &[AccountInfo]) -> bool {
    a.len() == b.len()
        && a.iter().zip(b.iter()).all(|(x, y)| {
            x.key == y.key
                && x.is_signer == y.is_signer
                && x.is_writable == y.is_writable
                && x.owner == y.owner
                && x.lamports == y.lamports
                && x.data == y.data
        })
}

fn copy_of(accounts: &[AccountInfo]) -> Vec<AccountInfo> {
    accounts
        .iter()
        .map(|a| AccountInfo {
            key: a.key,
            is_signer: a.is_signer,
            is_writable: a.is_writable,
            owner: a.owner,
            lamports: a.lamports,
            data: a.data.clone(),
        })
        .collect()
}

#[test]
fn test_initialize_collection() {
    let program_id = LedgerKey::new_unique();
    let authority_key = LedgerKey::new_unique();
    let system_program_key = LedgerKey::new_unique();

    let collection_seeds = [
        &COLLECTION_SEED_PREFIX[..],
        &authority_key.to_bytes(),
        "Test Collection".as_bytes(),
    ];
    let (collection_key, _) = LedgerKey::find_program_address(&collection_seeds, &program_id);

    let collection_account = AccountInfo {
        key: key(&collection_key),
        is_signer: false,
        is_writable: true,
        owner: key(&program_id),
        lamports: 0,
        data: vec![0; COLLECTION_ACCOUNT_SIZE],
    };
    let authority_account = AccountInfo {
        key: key(&authority_key),
        is_signer: true,
        is_writable: false,
        owner: key(&system_program_key),
        lamports: 0,
        data: vec![],
    };
    let system_program_account = AccountInfo {
        key: key(&system_program_key),
        is_signer: false,
        is_writable: false,
        owner: key(&system_program_key),
        lamports: 0,
        data: vec![],
    };
    let mut accounts = vec![collection_account, authority_account, system_program_account];

    let instruction = NFTInstruction::InitializeCollection {
        name: "Test Collection".to_string(),
        symbol: "TEST".to_string(),
        uri: "https://test.com".to_string(),
        royalty_percentage: 5,
        is_mutable: true,
    };
    let instruction_data = instruction.pack().unwrap();

    let result = process_instruction(&key(&program_id), &mut accounts, &instruction_data, 0);

    assert!(result.is_ok());

    let record = CollectionAccount::decode(&accounts[0].data).unwrap();
    assert_eq!(record.authority, key(&authority_key));
    assert_eq!(record.name, "Test Collection");
    assert_eq!(record.symbol, "TEST");
    assert_eq!(record.uri, "https://test.com");
    assert_eq!(record.royalty_percentage, 5);
    assert!(record.is_mutable);
    assert_eq!(record.total_minted, 0);
}

#[test]
fn initialize_asks_for_the_account_at_the_derived_address() {
    let program = LedgerKey::new_unique();
    let authority = LedgerKey::new_unique();
    let mut accounts = initialize_accounts(&program, &authority, "Foo");
    let (address, bump) = collection_address(&program, &authority, "Foo");
    let outcome = process_initialize_collection(
        &key(&program),
        &mut accounts,
        "Foo".to_string(),
        "FOO".to_string(),
        "uri1".to_string(),
        5,
        true,
    );
    let create = outcome.unwrap().unwrap();
    assert_eq!(create.payer, key(&authority));
    assert_eq!(create.new_account, address);
    assert_eq!(create.space, 314);
    assert_eq!(create.owner, key(&program));
    assert_eq!(
        create.signer_seeds,
        vec![
            b"collection".to_vec(),
            authority.to_bytes().to_vec(),
            b"Foo".to_vec(),
            vec![bump],
        ]
    );
    let replayed = LedgerKey::create_program_address(
        &[&create.signer_seeds[0], &create.signer_seeds[1], &create.signer_seeds[2], &create.signer_seeds[3]],
        &program,
    )
    .unwrap();
    assert_eq!(key(&replayed), accounts[0].key);
    assert_eq!(accounts[0].owner, key(&program));
    assert_eq!(accounts[0].data.len(), COLLECTION_ACCOUNT_SIZE);
}

#[test]
fn initialize_sizes_an_account_that_does_not_exist_yet() {
    let program = LedgerKey::new_unique();
    let authority = LedgerKey::new_unique();
    let mut accounts = initialize_accounts(&program, &authority, "Foo");
    accounts[0].data = vec![];
    let data = request(NFTInstruction::InitializeCollection {
        name: "Foo".to_string(),
        symbol: "FOO".to_string(),
        uri: "uri1".to_string(),
        royalty_percentage: 100,
        is_mutable: false,
    });
    assert!(process_instruction(&key(&program), &mut accounts, &data, 0).is_ok());
    assert_eq!(accounts[0].data.len(), 314);
    let record = CollectionAccount::decode(&accounts[0].data).unwrap();
    assert_eq!(record.royalty_percentage, 100);
    assert!(!record.is_mutable);
}

#[test]
fn initialize_wants_three_accounts() {
    let program = LedgerKey::new_unique();
    let authority = LedgerKey::new_unique();
    let mut accounts = initialize_accounts(&program, &authority, "Foo");
    accounts.pop();
    let before = copy_of(&accounts);
    let outcome = process_initialize_collection(
        &key(&program),
        &mut accounts,
        "Foo".to_string(),
        "FOO".to_string(),
        "uri1".to_string(),
        5,
        true,
    );
    assert_eq!(outcome.err(), Some(ProgramError::NotEnoughAccountKeys));
    assert!(same_accounts(&before, &accounts));
}

#[test]
fn initialize_wants_the_signature_of_the_authority() {
    let program = LedgerKey::new_unique();
    let authority = LedgerKey::new_unique();
    let mut accounts = initialize_accounts(&program, &authority, "Foo");
    accounts[1].is_signer = false;
    let outcome = process_initialize_collection(
        &key(&program),
        &mut accounts,
        "Foo".to_string(),
        "FOO".to_string(),
        "uri1".to_string(),
        101,
        true,
    );
    assert_eq!(outcome.err(), Some(ProgramError::MissingRequiredSignature));
}

#[test]
fn initialize_refuses_a_royalty_above_one_hundred() {
    let program = LedgerKey::new_unique();
    let authority = LedgerKey::new_unique();
    for royalty in [101u8, 150, 255] {
        let mut accounts = initialize_accounts(&program, &authority, "Foo");
        let before = copy_of(&accounts);
        let outcome = process_initialize_collection(
            &key(&program),
            &mut accounts,
            "Foo".to_string(),
            "FOO".to_string(),
            "uri1".to_string(),
            royalty,
            true,
        );
        assert_eq!(
            outcome.err(),
            Some(ProgramError::Custom(NFTError::InvalidRoyaltyPercentage))
        );
        assert!(same_accounts(&before, &accounts));
    }
}

#[test]
fn initialize_twice_is_refused_and_keeps_the_record() {
    let program = LedgerKey::new_unique();
    let authority = LedgerKey::new_unique();
    let mut accounts = initialize_accounts(&program, &authority, "Foo");
    let data = request(NFTInstruction::InitializeCollection {
        name: "Foo".to_string(),
        symbol: "FOO".to_string(),
        uri: "uri1".to_string(),
        royalty_percentage: 5,
        is_mutable: true,
    });
    assert!(process_instruction(&key(&program), &mut accounts, &data, 0).is_ok());
    let before = copy_of(&accounts);
    let second = process_instruction(&key(&program), &mut accounts, &data, 1);
    assert_eq!(second.err(), Some(ProgramError::Custom(NFTError::AlreadyInitialized)));
    assert!(same_accounts(&before, &accounts));
}

#[test]
fn initialize_refuses_an_address_that_the_seeds_do_not_derive() {
    let program = LedgerKey::new_unique();
    let authority = LedgerKey::new_unique();
    let mut accounts = initialize_accounts(&program, &authority, "Foo");
    let outcome = process_initialize_collection(
        &key(&program),
        &mut accounts,
        "Bar".to_string(),
        "FOO".to_string(),
        "uri1".to_string(),
        5,
        true,
    );
    assert_eq!(outcome.err(), Some(ProgramError::InvalidAccountData));

    let mut accounts = initialize_accounts(&program, &authority, "Foo");
    accounts[0].key = key(&authority);
    let outcome = process_initialize_collection(
        &key(&program),
        &mut accounts,
        "Foo".to_string(),
        "FOO".to_string(),
        "uri1".to_string(),
        5,
        true,
    );
    assert_eq!(outcome.err(), Some(ProgramError::InvalidAccountData));
}

#[test]
fn initialize_refuses_a_name_that_is_too_long_for_a_seed() {
    let program = LedgerKey::new_unique();
    let authority = LedgerKey::new_unique();
    let name = "a".repeat(33);
    let mut accounts = initialize_accounts(&program, &authority, "Foo");
    let outcome = process_initialize_collection(
        &key(&program),
        &mut accounts,
        name,
        "FOO".to_string(),
        "uri1".to_string(),
        5,
        true,
    );
    assert_eq!(outcome.err(), Some(ProgramError::InvalidAccountData));
}

#[test]
fn initialize_refuses_a_record_that_does_not_fit() {
    let program = LedgerKey::new_unique();
    let authority = LedgerKey::new_unique();
    let mut accounts = initialize_accounts(&program, &authority, "Foo");
    let outcome = process_initialize_collection(
        &key(&program),
        &mut accounts,
        "Foo".to_string(),
        "FOO".to_string(),
        "u".repeat(255),
        5,
        true,
    );
    assert_eq!(outcome.err(), Some(ProgramError::RecordTooLarge));
    let mut accounts = initialize_accounts(&program, &authority, "Foo");
    let outcome = process_initialize_collection(
        &key(&program),
        &mut accounts,
        "Foo".to_string(),
        "FOO".to_string(),
        "u".repeat(254),
        5,
        true,
    );
    assert!(outcome.is_ok());
}

#[test]
fn initialize_with_a_given_address_does_not_derive_one() {
    let program = filled(7);
    let authority = filled(8);
    let target = filled(9);
    let system = filled(0);
    let mut accounts = vec![
        account(target, false, system, 0, vec![]),
        account(authority, true, system, 0, vec![]),
        account(system, false, system, 0, vec![]),
    ];
    let outcome = initialize_collection(
        &program,
        &mut accounts,
        "Foo".to_string(),
        "FOO".to_string(),
        "uri1".to_string(),
        5,
        true,
        Some((target, 254)),
    );
    let create = outcome.unwrap().unwrap();
    assert_eq!(create.signer_seeds[3], vec![254]);
    assert_eq!(accounts[0].owner, program);

    let mut accounts = vec![
        account(target, false, system, 0, vec![]),
        account(authority, true, system, 0, vec![]),
        account(system, false, system, 0, vec![]),
    ];
    let outcome = initialize_collection(
        &program,
        &mut accounts,
        "Foo".to_string(),
        "FOO".to_string(),
        "uri1".to_string(),
        5,
        true,
        None,
    );
    assert_eq!(outcome.err(), Some(ProgramError::InvalidAccountData));
}

#[test]
fn test_mint_nft() {
    let program = LedgerKey::new_unique();
    let authority = LedgerKey::new_unique();
    let system = filled(0);
    let collection = live_collection(&program, &authority, "Foo", true);
    let (address, bump) = nft_address(&program, &collection.key, 1);
    let mut accounts = vec![
        collection,
        account(address, false, system, 0, vec![]),
        account(key(&authority), true, system, 0, vec![]),
        account(system, false, system, 0, vec![]),
    ];
    let data = request(NFTInstruction::MintNFT { metadata_uri: "m1".to_string(), serial_number: 1 });
    let create = process_instruction(&key(&program), &mut accounts, &data, 1_700_000_000)
        .unwrap()
        .unwrap();

    assert_eq!(create.payer, key(&authority));
    assert_eq!(create.new_account, address);
    assert_eq!(create.space, 293);
    assert_eq!(create.owner, key(&program));
    assert_eq!(
        create.signer_seeds,
        vec![
            b"nft".to_vec(),
            accounts[0].key.bytes.to_vec(),
            vec![1, 0, 0, 0, 0, 0, 0, 0],
            vec![bump],
        ]
    );

    let nft = NFTAccount::decode(&accounts[1].data).unwrap();
    assert_eq!(nft.owner, key(&authority));
    assert_eq!(nft.collection, accounts[0].key);
    assert_eq!(nft.metadata_uri, "m1");
    assert!(nft.is_minted);
    assert_eq!(nft.serial_number, 1);
    assert_eq!(nft.created_at, 1_700_000_000);
    assert_eq!(nft.updated_at, 1_700_000_000);
    assert_eq!(accounts[1].owner, key(&program));
    assert_eq!(accounts[1].data.len(), NFT_ACCOUNT_SIZE);

    let collection = CollectionAccount::decode(&accounts[0].data).unwrap();
    assert_eq!(collection.total_minted, 1);
    assert_eq!(collection.name, "Foo");
    assert_eq!(collection.royalty_percentage, 5);
}

#[test]
fn mint_counts_every_asset_once() {
    let program = LedgerKey::new_unique();
    let authority = LedgerKey::new_unique();
    let mut collection = live_collection(&program, &authority, "Foo", true);
    for serial in 1..=3u64 {
        live_nft(&program, &authority, &mut collection, serial * 10);
        let record = CollectionAccount::decode(&collection.data).unwrap();
        assert_eq!(record.total_minted, serial);
    }
}

#[test]
fn mint_twice_with_one_number_is_refused() {
    let program = LedgerKey::new_unique();
    let authority = LedgerKey::new_unique();
    let system = filled(0);
    let mut collection = live_collection(&program, &authority, "Foo", true);
    let nft = live_nft(&program, &authority, &mut collection, 1);
    assert_eq!(nft.key, nft_address(&program, &collection.key, 1).0);
    let mut accounts = vec![
        collection,
        nft,
        account(key(&authority), true, system, 0, vec![]),
        account(system, false, system, 0, vec![]),
    ];
    let before = copy_of(&accounts);
    let outcome =
        process_mint_nft(&key(&program), &mut accounts, "other".to_string(), 1, 200);
    assert_eq!(outcome.err(), Some(ProgramError::Custom(NFTError::AlreadyInitialized)));
    assert!(same_accounts(&before, &accounts));
}

#[test]
fn mint_checks_in_order() {
    let program = LedgerKey::new_unique();
    let authority = LedgerKey::new_unique();
    let stranger = LedgerKey::new_unique();
    let system = filled(0);
    let collection = live_collection(&program, &authority, "Foo", true);
    let (address, _) = nft_address(&program, &collection.key, 1);
    let good = vec![
        collection,
        account(address, false, system, 0, vec![]),
        account(key(&authority), true, system, 0, vec![]),
        account(system, false, system, 0, vec![]),
    ];

    let mut accounts = copy_of(&good[..3]);
    assert_eq!(
        process_mint_nft(&key(&program), &mut accounts, "m1".to_string(), 1, 0).err(),
        Some(ProgramError::NotEnoughAccountKeys)
    );

    let mut accounts = copy_of(&good);
    accounts[2].is_signer = false;
    accounts[0].owner = system;
    assert_eq!(
        process_mint_nft(&key(&program), &mut accounts, "m1".to_string(), 1, 0).err(),
        Some(ProgramError::MissingRequiredSignature)
    );

    let mut accounts = copy_of(&good);
    accounts[0].owner = system;
    accounts[0].data = vec![1; 10];
    assert_eq!(
        process_mint_nft(&key(&program), &mut accounts, "m1".to_string(), 1, 0).err(),
        Some(ProgramError::IncorrectProgramId)
    );

    let mut accounts = copy_of(&good);
    accounts[0].data = vec![1; 10];
    assert_eq!(
        process_mint_nft(&key(&program), &mut accounts, "m1".to_string(), 1, 0).err(),
        Some(ProgramError::InvalidRecord)
    );

    let mut accounts = copy_of(&good);
    accounts[2].key = key(&stranger);
    accounts[1].data = vec![0, 1];
    assert_eq!(
        process_mint_nft(&key(&program), &mut accounts, "m1".to_string(), 1, 0).err(),
        Some(ProgramError::Custom(NFTError::InsufficientAuthority))
    );

    let mut accounts = copy_of(&good);
    accounts[1].data = vec![0, 1];
    assert_eq!(
        process_mint_nft(&key(&program), &mut accounts, "m1".to_string(), 2, 0).err(),
        Some(ProgramError::Custom(NFTError::AlreadyInitialized))
    );

    let mut accounts = copy_of(&good);
    assert_eq!(
        process_mint_nft(&key(&program), &mut accounts, "m1".to_string(), 2, 0).err(),
        Some(ProgramError::InvalidAccountData)
    );

    let mut accounts = copy_of(&good);
    let before = copy_of(&accounts);
    assert_eq!(
        process_mint_nft(&key(&program), &mut accounts, "m".repeat(201), 1, 0).err(),
        Some(ProgramError::RecordTooLarge)
    );
    assert!(same_accounts(&before, &accounts));

    let mut accounts = copy_of(&good);
    assert!(process_mint_nft(&key(&program), &mut accounts, "m".repeat(200), 1, 0).is_ok());
}

#[test]
fn mint_reports_a_counter_that_would_wrap() {
    let program = filled(7);
    let authority = filled(8);
    let system = filled(0);
    let full = CollectionAccount {
        authority,
        name: "Foo".to_string(),
        symbol: "FOO".to_string(),
        uri: "uri1".to_string(),
        royalty_percentage: 5,
        is_mutable: true,
        total_minted: u64::MAX,
    };
    let mut accounts = vec![
        account(filled(1), false, program, 0, full.encode().unwrap()),
        account(filled(2), false, system, 0, vec![]),
        account(authority, true, system, 0, vec![]),
        account(system, false, system, 0, vec![]),
    ];
    let before = copy_of(&accounts);
    let outcome =
        mint_nft(&program, &mut accounts, "m1".to_string(), 1, 0, Some((filled(2), 255)));
    assert_eq!(outcome.err(), Some(ProgramError::Custom(NFTError::Overflow)));
    assert!(same_accounts(&before, &accounts));

    let mut almost = full.clone();
    almost.total_minted = u64::MAX - 1;
    accounts[0].data = almost.encode().unwrap();
    let outcome =
        mint_nft(&program, &mut accounts, "m1".to_string(), 1, 0, Some((filled(2), 255)));
    assert!(outcome.is_ok());
    assert_eq!(CollectionAccount::decode(&accounts[0].data).unwrap().total_minted, u64::MAX);
}

#[test]
fn test_transfer_nft() {
    let program = LedgerKey::new_unique();
    let authority = LedgerKey::new_unique();
    let buyer = LedgerKey::new_unique();
    let system = filled(0);
    let mut collection = live_collection(&program, &authority, "Foo", true);
    let nft = live_nft(&program, &authority, &mut collection, 7);
    let mut accounts = vec![nft, account(key(&authority), true, system, 9, vec![])];
    let before = copy_of(&accounts);
    let data = request(NFTInstruction::TransferNFT { new_owner: key(&buyer) });
    let outcome = process_instruction(&key(&program), &mut accounts, &data, 250);
    assert!(outcome.unwrap().is_none());

    let record = NFTAccount::decode(&accounts[0].data).unwrap();
    assert_eq!(record.owner, key(&buyer));
    assert_eq!(record.updated_at, 250);
    assert_eq!(record.created_at, 100);
    assert_eq!(record.collection, collection.key);
    assert_eq!(record.serial_number, 7);
    assert_eq!(record.metadata_uri, "m1");
    assert!(record.is_minted);
    assert_eq!(accounts[0].lamports, before[0].lamports);
    assert_eq!(accounts[0].owner, before[0].owner);
    assert!(same_accounts(&before[1..], &accounts[1..]));
}

#[test]
fn transfer_checks_in_order() {
    let program = LedgerKey::new_unique();
    let authority = LedgerKey::new_unique();
    let stranger = LedgerKey::new_unique();
    let system = filled(0);
    let mut collection = live_collection(&program, &authority, "Foo", true);
    let nft = live_nft(&program, &authority, &mut collection, 7);
    let good = vec![nft, account(key(&authority), true, system, 9, vec![])];

    let mut accounts = copy_of(&good[..1]);
    assert_eq!(
        process_transfer_nft(&key(&program), &mut accounts, key(&stranger), 1).err(),
        Some(ProgramError::NotEnoughAccountKeys)
    );

    let mut accounts = copy_of(&good);
    accounts[1].is_signer = false;
    assert_eq!(
        process_transfer_nft(&key(&program), &mut accounts, key(&stranger), 1).err(),
        Some(ProgramError::MissingRequiredSignature)
    );

    let mut accounts = copy_of(&good);
    accounts[0].owner = system;
    assert_eq!(
        process_transfer_nft(&key(&program), &mut accounts, key(&stranger), 1).err(),
        Some(ProgramError::IncorrectProgramId)
    );

    let mut accounts = copy_of(&good);
    accounts[0].data.truncate(NFT_ACCOUNT_SIZE - 1);
    assert_eq!(
        process_transfer_nft(&key(&program), &mut accounts, key(&stranger), 1).err(),
        Some(ProgramError::InvalidRecord)
    );

    let mut accounts = copy_of(&good);
    accounts[1].key = key(&stranger);
    let before = copy_of(&accounts);
    assert_eq!(
        process_transfer_nft(&key(&program), &mut accounts, key(&stranger), 1).err(),
        Some(ProgramError::Custom(NFTError::InvalidOwner))
    );
    assert!(same_accounts(&before, &accounts));

    let mut accounts = copy_of(&good);
    let mut unminted = NFTAccount::decode(&accounts[0].data).unwrap();
    unminted.is_minted = false;
    accounts[0].data = unminted.encode().unwrap();
    assert_eq!(
        process_transfer_nft(&key(&program), &mut accounts, key(&stranger), 1).err(),
        Some(ProgramError::Custom(NFTError::NotMinted))
    );
}

#[test]
fn test_burn_nft() {
    let program = LedgerKey::new_unique();
    let authority = LedgerKey::new_unique();
    let system = filled(0);
    let mut collection = live_collection(&program, &authority, "Foo", true);
    let nft = live_nft(&program, &authority, &mut collection, 7);
    assert_eq!(nft.lamports, 5_000);
    let mut accounts = vec![nft, account(key(&authority), true, system, 9, vec![3, 4])];
    let data = request(NFTInstruction::BurnNFT);
    let outcome = process_instruction(&key(&program), &mut accounts, &data, 300);
    assert!(outcome.unwrap().is_none());
    assert_eq!(accounts[0].data, vec![0u8; NFT_ACCOUNT_SIZE]);
    assert_eq!(accounts[0].lamports, 0);
    assert_eq!(accounts[1].lamports, 5_009);
    assert_eq!(accounts[1].data, vec![3, 4]);
    assert_eq!(accounts[0].owner, key(&program));
}

#[test]
fn burn_reports_a_balance_that_would_wrap() {
    let program = LedgerKey::new_unique();
    let authority = LedgerKey::new_unique();
    let system = filled(0);
    let mut collection = live_collection(&program, &authority, "Foo", true);
    let nft = live_nft(&program, &authority, &mut collection, 7);
    let mut accounts = vec![nft, account(key(&authority), true, system, u64::MAX - 4_999, vec![])];
    let before = copy_of(&accounts);
    let outcome = process_burn_nft(&key(&program), &mut accounts);
    assert_eq!(outcome.err(), Some(ProgramError::Custom(NFTError::Overflow)));
    assert!(same_accounts(&before, &accounts));

    accounts[1].lamports = u64::MAX - 5_000;
    assert!(process_burn_nft(&key(&program), &mut accounts).is_ok());
    assert_eq!(accounts[1].lamports, u64::MAX);
}

#[test]
fn burn_wants_the_owner() {
    let program = LedgerKey::new_unique();
    let authority = LedgerKey::new_unique();
    let stranger = LedgerKey::new_unique();
    let system = filled(0);
    let mut collection = live_collection(&program, &authority, "Foo", true);
    let nft = live_nft(&program, &authority, &mut collection, 7);
    let mut accounts = vec![nft, account(key(&stranger), true, system, 0, vec![])];
    assert_eq!(
        process_burn_nft(&key(&program), &mut accounts).err(),
        Some(ProgramError::Custom(NFTError::InvalidOwner))
    );
    accounts.pop();
    assert_eq!(
        process_burn_nft(&key(&program), &mut accounts).err(),
        Some(ProgramError::NotEnoughAccountKeys)
    );
}

#[test]
fn a_burnt_account_takes_a_new_asset() {
    let program = LedgerKey::new_unique();
    let authority = LedgerKey::new_unique();
    let system = filled(0);
    let mut collection = live_collection(&program, &authority, "Foo", true);
    let nft = live_nft(&program, &authority, &mut collection, 7);
    let mut accounts = vec![nft, account(key(&authority), true, system, 0, vec![])];
    process_burn_nft(&key(&program), &mut accounts).unwrap();
    let burnt = accounts.remove(0);

    let mut accounts = vec![
        collection,
        burnt,
        account(key(&authority), true, system, 0, vec![]),
        account(system, false, system, 0, vec![]),
    ];
    let outcome = process_mint_nft(&key(&program), &mut accounts, "again".to_string(), 7, 900);
    assert!(outcome.is_ok());
    let record = NFTAccount::decode(&accounts[1].data).unwrap();
    assert_eq!(record.metadata_uri, "again");
    assert_eq!(record.created_at, 900);
    assert_eq!(record.updated_at, 900);
    assert_eq!(record.owner, key(&authority));
    assert_eq!(CollectionAccount::decode(&accounts[0].data).unwrap().total_minted, 2);
}

#[test]
fn test_update_nft_metadata() {
    let program = LedgerKey::new_unique();
    let authority = LedgerKey::new_unique();
    let system = filled(0);
    let mut collection = live_collection(&program, &authority, "Foo", true);
    let nft = live_nft(&program, &authority, &mut collection, 7);
    let mut accounts =
        vec![nft, account(key(&authority), true, system, 0, vec![]), collection];
    let before = copy_of(&accounts);
    let data = request(NFTInstruction::UpdateNFTMetadata { new_metadata_uri: "m2".to_string() });
    let outcome = process_instruction(&key(&program), &mut accounts, &data, 400);
    assert!(outcome.unwrap().is_none());
    let record = NFTAccount::decode(&accounts[0].data).unwrap();
    assert_eq!(record.metadata_uri, "m2");
    assert_eq!(record.updated_at, 400);
    assert_eq!(record.created_at, 100);
    assert_eq!(record.owner, key(&authority));
    assert_eq!(record.serial_number, 7);
    assert!(same_accounts(&before[1..], &accounts[1..]));
}

#[test]
fn update_nft_metadata_checks_in_order() {
    let program = LedgerKey::new_unique();
    let authority = LedgerKey::new_unique();
    let system = filled(0);
    let mut collection = live_collection(&program, &authority, "Foo", true);
    let other = live_collection(&program, &authority, "Bar", true);
    let nft = live_nft(&program, &authority, &mut collection, 7);
    let good = vec![nft, account(key(&authority), true, system, 0, vec![]), collection];

    let mut accounts = copy_of(&good[..2]);
    assert_eq!(
        process_update_nft_metadata(&key(&program), &mut accounts, "m2".to_string(), 1).err(),
        Some(ProgramError::NotEnoughAccountKeys)
    );

    let mut accounts = copy_of(&good);
    accounts[2].owner = system;
    assert_eq!(
        process_update_nft_metadata(&key(&program), &mut accounts, "m2".to_string(), 1).err(),
        Some(ProgramError::IncorrectProgramId)
    );

    let mut accounts = copy_of(&good);
    accounts[2] = other;
    assert_eq!(
        process_update_nft_metadata(&key(&program), &mut accounts, "m2".to_string(), 1).err(),
        Some(ProgramError::InvalidAccountData)
    );

    let mut accounts = copy_of(&good);
    accounts[2].data = vec![0; 5];
    assert_eq!(
        process_update_nft_metadata(&key(&program), &mut accounts, "m2".to_string(), 1).err(),
        Some(ProgramError::InvalidRecord)
    );

    let mut accounts = copy_of(&good);
    let before = copy_of(&accounts);
    assert_eq!(
        process_update_nft_metadata(&key(&program), &mut accounts, "m".repeat(201), 1).err(),
        Some(ProgramError::RecordTooLarge)
    );
    assert!(same_accounts(&before, &accounts));
}

#[test]
fn test_update_collection_metadata() {
    let program = LedgerKey::new_unique();
    let authority = LedgerKey::new_unique();
    let system = filled(0);
    let collection = live_collection(&program, &authority, "Foo", true);
    let mut accounts = vec![collection, account(key(&authority), true, system, 0, vec![])];
    let data =
        request(NFTInstruction::UpdateCollectionMetadata { new_uri: "uri2 longer".to_string() });
    let outcome = process_instruction(&key(&program), &mut accounts, &data, 500);
    assert!(outcome.unwrap().is_none());
    let record = CollectionAccount::decode(&accounts[0].data).unwrap();
    assert_eq!(record.uri, "uri2 longer");
    assert_eq!(record.name, "Foo");
    assert_eq!(record.symbol, "FOO");
    assert_eq!(record.authority, key(&authority));
    assert_eq!(record.royalty_percentage, 5);
    assert!(record.is_mutable);
    assert_eq!(record.total_minted, 0);
}

#[test]
fn update_collection_metadata_wants_the_authority() {
    let program = LedgerKey::new_unique();
    let authority = LedgerKey::new_unique();
    let stranger = LedgerKey::new_unique();
    let system = filled(0);
    let collection = live_collection(&program, &authority, "Foo", true);
    let mut accounts = vec![collection, account(key(&stranger), true, system, 0, vec![])];
    let before = copy_of(&accounts);
    assert_eq!(
        process_update_collection_metadata(&key(&program), &mut accounts, "x".to_string()).err(),
        Some(ProgramError::Custom(NFTError::InsufficientAuthority))
    );
    assert!(same_accounts(&before, &accounts));
    accounts[1].is_signer = false;
    assert_eq!(
        process_update_collection_metadata(&key(&program), &mut accounts, "x".to_string()).err(),
        Some(ProgramError::MissingRequiredSignature)
    );
}

#[test]
fn a_fixed_collection_refuses_every_update() {
    let program = LedgerKey::new_unique();
    let authority = LedgerKey::new_unique();
    let buyer = LedgerKey::new_unique();
    let system = filled(0);
    let mut collection = live_collection(&program, &authority, "Foo", false);
    let nft = live_nft(&program, &authority, &mut collection, 1);

    let mut accounts =
        vec![copy_of(&[collection]).remove(0), account(key(&authority), true, system, 0, vec![])];
    let before = copy_of(&accounts);
    assert_eq!(
        process_update_collection_metadata(&key(&program), &mut accounts, "uri2".to_string())
            .err(),
        Some(ProgramError::Custom(NFTError::ImmutableMetadata))
    );
    assert!(same_accounts(&before, &accounts));
    let collection = accounts.remove(0);

    let mut accounts = vec![
        nft,
        account(key(&authority), true, system, 0, vec![]),
        copy_of(&[collection]).remove(0),
    ];
    assert_eq!(
        process_update_nft_metadata(&key(&program), &mut accounts, "m2".to_string(), 5).err(),
        Some(ProgramError::Custom(NFTError::ImmutableMetadata))
    );

    let mut pair = vec![accounts.remove(0), account(key(&authority), true, system, 0, vec![])];
    process_transfer_nft(&key(&program), &mut pair, key(&buyer), 6).unwrap();
    let mut accounts = vec![
        pair.remove(0),
        account(key(&buyer), true, system, 0, vec![]),
        accounts.remove(1),
    ];
    let before = copy_of(&accounts);
    assert_eq!(
        process_update_nft_metadata(&key(&program), &mut accounts, "m2".to_string(), 7).err(),
        Some(ProgramError::Custom(NFTError::ImmutableMetadata))
    );
    assert!(same_accounts(&before, &accounts));
}

#[test]
fn the_life_of_an_asset() {
    let program = LedgerKey::new_unique();
    let a = LedgerKey::new_unique();
    let b = LedgerKey::new_unique();
    let system = filled(0);

    let mut accounts = initialize_accounts(&program, &a, "Foo");
    let data = request(NFTInstruction::InitializeCollection {
        name: "Foo".to_string(),
        symbol: "FOO".to_string(),
        uri: "uri1".to_string(),
        royalty_percentage: 5,
        is_mutable: true,
    });
    process_instruction(&key(&program), &mut accounts, &data, 10).unwrap();
    let collection = accounts.remove(0);
    let record = CollectionAccount::decode(&collection.data).unwrap();
    assert_eq!(record.authority, key(&a));
    assert_eq!(record.total_minted, 0);
    assert_eq!(record.royalty_percentage, 5);
    assert!(record.is_mutable);

    let (address, _) = nft_address(&program, &collection.key, 1);
    let mut accounts = vec![
        collection,
        account(address, false, system, 2_000, vec![]),
        account(key(&a), true, system, 0, vec![]),
        account(system, false, system, 0, vec![]),
    ];
    let data = request(NFTInstruction::MintNFT { metadata_uri: "m1".to_string(), serial_number: 1 });
    process_instruction(&key(&program), &mut accounts, &data, 20).unwrap();
    let nft_account = accounts.remove(1);
    let collection = accounts.remove(0);
    let nft = NFTAccount::decode(&nft_account.data).unwrap();
    assert_eq!(nft.owner, key(&a));
    assert_eq!(nft.collection, collection.key);
    assert!(nft.is_minted);
    assert_eq!(nft.serial_number, 1);
    assert_eq!(CollectionAccount::decode(&collection.data).unwrap().total_minted, 1);

    let mut accounts = vec![nft_account, account(key(&a), true, system, 0, vec![])];
    let data = request(NFTInstruction::TransferNFT { new_owner: key(&b) });
    process_instruction(&key(&program), &mut accounts, &data, 30).unwrap();
    let nft_account = accounts.remove(0);
    assert_eq!(NFTAccount::decode(&nft_account.data).unwrap().owner, key(&b));

    let mut accounts =
        vec![nft_account, account(key(&b), true, system, 70, vec![]), collection];
    let data = request(NFTInstruction::UpdateNFTMetadata { new_metadata_uri: "m2".to_string() });
    process_instruction(&key(&program), &mut accounts, &data, 40).unwrap();
    let nft = NFTAccount::decode(&accounts[0].data).unwrap();
    assert_eq!(nft.metadata_uri, "m2");
    assert_eq!(nft.updated_at, 40);
    assert!(nft.updated_at > 30);

    accounts.pop();
    let data = request(NFTInstruction::BurnNFT);
    process_instruction(&key(&program), &mut accounts, &data, 50).unwrap();
    assert!(accounts[0].data.iter().all(|&byte| byte == 0));
    assert_eq!(accounts[0].data.len(), NFT_ACCOUNT_SIZE);
    assert_eq!(accounts[1].lamports, 2_070);
    assert_eq!(accounts[0].lamports, 0);
}

#[test]
fn bytes_that_are_no_request_touch_no_account() {
    let program = LedgerKey::new_unique();
    let authority = LedgerKey::new_unique();
    for data in [vec![], vec![6u8], vec![3u8, 0], vec![1u8, 2, 0, 0, 0, b'm']] {
        let mut accounts = initialize_accounts(&program, &authority, "Foo");
        let before = copy_of(&accounts);
        let outcome = process_instruction(&key(&program), &mut accounts, &data, 0);
        assert_eq!(outcome.err(), Some(ProgramError::Custom(NFTError::InvalidInstruction)));
        assert!(same_accounts(&before, &accounts));
    }
    let mut none: Vec<AccountInfo> = vec![];
    assert_eq!(
        process_instruction(&key(&program), &mut none, &[9u8], 0).err(),
        Some(ProgramError::Custom(NFTError::InvalidInstruction))
    );
    assert_eq!(
        process_instruction(&key(&program), &mut none, &[3u8], 0).err(),
        Some(ProgramError::NotEnoughAccountKeys)
    );
}

#[test]
fn seeds_are_the_prefix_the_parent_and_the_name_or_number() {
    let authority = filled(4);
    let seeds = find_collection_seeds(&authority, "Foo");
    assert_eq!(seeds, vec![b"collection".to_vec(), vec![4u8; 32], b"Foo".to_vec()]);
    let seeds = find_nft_seeds(&authority, 0x0102_0304_0506_0708);
    assert_eq!(seeds, vec![b"nft".to_vec(), vec![4u8; 32], vec![8, 7, 6, 5, 4, 3, 2, 1]]);
    assert_eq!(&COLLECTION_SEED_PREFIX[..], b"collection");
    assert_eq!(&NFT_SEED_PREFIX[..], b"nft");
}
