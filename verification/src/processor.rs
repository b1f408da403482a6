//! The six operations of the registry.
//!
//! Every operation checks what it was handed before it changes anything, in
//! a fixed order, and the first check that fails decides the error. A request
//! that fails leaves every account as it was.

use vstd::prelude::*;
use vstd::slice::{slice_subrange, slice_to_vec};
use vstd::utf8::encode_utf8;
use crate::account::{is_all_zero, AccountInfo, AccountState, CreateAccount, CreateRequest, Transition};
use crate::codec::{
    bool_byte, i64_le, lemma_i64_len, lemma_u64_round_trip, put_u64, text_bytes, u64_le,
};
use crate::error::{NFTError, ProgramError};
use crate::instruction::{InstructionData, NFTInstruction};
use crate::pubkey::{
    derived_view, lemma_pubkey_view, program_address, seeds_view, try_find_program_address, Pubkey,
    MAX_SEED_LEN,
};
use crate::state::{
    all_zero, lemma_collection_decoded_fits, lemma_nft_decoded_fits, CollectionAccount,
    CollectionData, NFTAccount, NFTData, zeros, COLLECTION_ACCOUNT_SIZE,
    COLLECTION_SEED_PREFIX, MAX_ROYALTY_PERCENTAGE, NFT_ACCOUNT_SIZE, NFT_SEED_PREFIX,
};

verus! {

/// The first seed of the address of a collection: the bytes of "collection".
pub open spec fn collection_seed_prefix() -> Seq<u8> {
    COLLECTION_SEED_PREFIX@
}

/// The first seed of the address of an asset: the bytes of "nft".
pub open spec fn nft_seed_prefix() -> Seq<u8> {
    NFT_SEED_PREFIX@
}

/// The seeds of the address of a collection: the prefix, the authority and
/// the name.
pub open spec fn collection_seeds(authority: Seq<u8>, name: Seq<char>) -> Seq<Seq<u8>> {
    seq![collection_seed_prefix(), authority, encode_utf8(name)]
}

/// The seeds of the address of an asset: the prefix, the collection's
/// address and the serial number as eight bytes, lowest first.
pub open spec fn nft_seeds(collection: Seq<u8>, serial_number: u64) -> Seq<Seq<u8>> {
    seq![nft_seed_prefix(), collection, u64_le(serial_number)]
}

/// Whether `key` is the address that was derived.
pub open spec fn is_derived(key: Seq<u8>, derived: Option<(Seq<u8>, u8)>) -> bool {
    derived matches Some((address, _)) && address == key
}

/// The request to create the account at a derived address.
pub open spec fn creation(
    payer: Seq<u8>,
    new_account: Seq<u8>,
    space: u64,
    owner: Seq<u8>,
    seeds: Seq<Seq<u8>>,
    derived: Option<(Seq<u8>, u8)>,
) -> CreateRequest {
    CreateRequest {
        payer,
        new_account,
        space,
        owner,
        signer_seeds: seeds.push(seq![derived.unwrap().1]),
    }
}

/// An account once the ledger has created it for `program_id` and the
/// registry has written `image` into it.
pub open spec fn created(account: AccountState, program_id: Seq<u8>, image: Seq<u8>)
    -> AccountState {
    AccountState { owner: program_id, data: image, ..account }
}

/// What creating a collection does. The accounts are the collection's, the
/// authority's and the service that creates accounts; `derived` is the
/// address that the collection's seeds derive.
pub open spec fn initialize_collection_spec(
    program_id: Seq<u8>,
    accounts: Seq<AccountState>,
    name: Seq<char>,
    symbol: Seq<char>,
    uri: Seq<char>,
    royalty_percentage: u8,
    is_mutable: bool,
    derived: Option<(Seq<u8>, u8)>,
) -> Result<Transition, ProgramError> {
    if accounts.len() < 3 {
        Err(ProgramError::NotEnoughAccountKeys)
    } else if !accounts[1].is_signer {
        Err(ProgramError::MissingRequiredSignature)
    } else if royalty_percentage > MAX_ROYALTY_PERCENTAGE {
        Err(ProgramError::Custom(NFTError::InvalidRoyaltyPercentage))
    } else if !all_zero(accounts[0].data) {
        Err(ProgramError::Custom(NFTError::AlreadyInitialized))
    } else if !is_derived(accounts[0].key, derived) {
        Err(ProgramError::InvalidAccountData)
    } else {
        let record = CollectionData {
            authority: accounts[1].key,
            name,
            symbol,
            uri,
            royalty_percentage,
            is_mutable,
            total_minted: 0,
        };
        if !record.fits() {
            Err(ProgramError::RecordTooLarge)
        } else {
            Ok(
                Transition {
                    accounts: accounts.update(
                        0,
                        created(accounts[0], program_id, record.image()),
                    ),
                    create: Some(
                        creation(
                            accounts[1].key,
                            accounts[0].key,
                            COLLECTION_ACCOUNT_SIZE as u64,
                            program_id,
                            collection_seeds(accounts[1].key, name),
                            derived,
                        ),
                    ),
                },
            )
        }
    }
}

/// Whether `outcome`, with the accounts as an operation left them, is what
/// `expected` asks for: on success the accounts and the request to create an
/// account are as stated, on failure the error is and the accounts are as
/// they were.
pub open spec fn outcome_is(
    outcome: Result<Option<CreateAccount>, ProgramError>,
    before: Seq<AccountState>,
    after: Seq<AccountState>,
    expected: Result<Transition, ProgramError>,
) -> bool {
    match expected {
        Ok(transition) => {
            &&& outcome matches Ok(create)
            &&& after == transition.accounts
            &&& match transition.create {
                Some(request) => create matches Some(c) && c@ == request,
                None => create is None,
            }
        },
        Err(error) => outcome == Err::<Option<CreateAccount>, ProgramError>(error) && after
            == before,
    }
}

/// Whether two addresses are the same.
pub fn same_key(a: &Pubkey, b: &Pubkey) -> (same: bool)
    ensures
        same == (a@ == b@),
{
    proof {
        lemma_pubkey_view(*a, *b);
    }
    *a == *b
}

/// The bytes of "collection".
fn collection_prefix() -> (prefix: Vec<u8>)
    ensures
        prefix@ == collection_seed_prefix(),
{
    slice_to_vec(COLLECTION_SEED_PREFIX.as_slice())
}

/// The bytes of "nft".
fn nft_prefix() -> (prefix: Vec<u8>)
    ensures
        prefix@ == nft_seed_prefix(),
{
    slice_to_vec(NFT_SEED_PREFIX.as_slice())
}

/// The bytes of an address, as a seed.
fn key_seed(key: &Pubkey) -> (seed: Vec<u8>)
    ensures
        seed@ == key@,
{
    let mut seed: Vec<u8> = Vec::new();
    seed.extend_from_slice(key.bytes.as_slice());
    assert(seed@ =~= key@);
    seed
}

/// The seeds of the address of the collection that `authority` names `name`.
pub fn find_collection_seeds(authority: &Pubkey, name: &str) -> (seeds: Vec<Vec<u8>>)
    ensures
        seeds_view(seeds) == collection_seeds(authority@, name@),
{
    let mut seeds: Vec<Vec<u8>> = Vec::new();
    seeds.push(collection_prefix());
    seeds.push(key_seed(authority));
    let mut name_seed: Vec<u8> = Vec::new();
    name_seed.extend_from_slice(name.as_bytes());
    assert(name_seed@ =~= encode_utf8(name@));
    seeds.push(name_seed);
    assert(seeds_view(seeds) =~= collection_seeds(authority@, name@));
    seeds
}

/// The seeds of the address of the asset with the number `serial_number` in
/// `collection`.
pub fn find_nft_seeds(collection: &Pubkey, serial_number: u64) -> (seeds: Vec<Vec<u8>>)
    ensures
        seeds_view(seeds) == nft_seeds(collection@, serial_number),
{
    let mut seeds: Vec<Vec<u8>> = Vec::new();
    seeds.push(nft_prefix());
    seeds.push(key_seed(collection));
    let mut serial_seed: Vec<u8> = Vec::new();
    put_u64(&mut serial_seed, serial_number);
    assert(serial_seed@ =~= u64_le(serial_number));
    seeds.push(serial_seed);
    assert(seeds_view(seeds) =~= nft_seeds(collection@, serial_number));
    seeds
}

/// The request to create the account at the address that `seeds` derive
/// with the bump byte `bump`.
fn create_request(
    payer: Pubkey,
    new_account: Pubkey,
    space: usize,
    owner: Pubkey,
    seeds: Vec<Vec<u8>>,
    bump: u8,
) -> (request: CreateAccount)
    requires
        space <= 1024,
    ensures
        request@ == (CreateRequest {
            payer: payer@,
            new_account: new_account@,
            space: space as u64,
            owner: owner@,
            signer_seeds: seeds_view(seeds).push(seq![bump]),
        }),
{
    let mut signer_seeds = seeds;
    let mut bump_seed: Vec<u8> = Vec::new();
    bump_seed.push(bump);
    assert(bump_seed@ =~= seq![bump]);
    signer_seeds.push(bump_seed);
    assert(seeds_view(signer_seeds) =~= seeds_view(seeds).push(seq![bump]));
    CreateAccount { payer, new_account, space: space as u64, owner, signer_seeds }
}

/// Creates a collection at the address that `derived` gives: checks the
/// request, asks for the account and writes the record of a collection into
/// which nothing has been minted.
pub fn initialize_collection(
    program_id: &Pubkey,
    accounts: &mut Vec<AccountInfo>,
    name: String,
    symbol: String,
    uri: String,
    royalty_percentage: u8,
    is_mutable: bool,
    derived: Option<(Pubkey, u8)>,
) -> (outcome: Result<Option<CreateAccount>, ProgramError>)
    ensures
        outcome_is(
            outcome,
            old(accounts).deep_view(),
            final(accounts).deep_view(),
            initialize_collection_spec(
                program_id@,
                old(accounts).deep_view(),
                name@,
                symbol@,
                uri@,
                royalty_percentage,
                is_mutable,
                derived_view(derived),
            ),
        ),
{
    if accounts.len() < 3 {
        return Err(ProgramError::NotEnoughAccountKeys);
    }
    if !accounts[1].is_signer {
        return Err(ProgramError::MissingRequiredSignature);
    }
    if royalty_percentage > MAX_ROYALTY_PERCENTAGE {
        return Err(ProgramError::Custom(NFTError::InvalidRoyaltyPercentage));
    }
    if !is_all_zero(&accounts[0].data) {
        return Err(ProgramError::Custom(NFTError::AlreadyInitialized));
    }
    let bump = match derived {
        Some((address, bump)) => {
            if !same_key(&address, &accounts[0].key) {
                return Err(ProgramError::InvalidAccountData);
            }
            bump
        },
        None => { return Err(ProgramError::InvalidAccountData); },
    };
    let authority = accounts[1].key;
    let seeds = find_collection_seeds(&authority, name.as_str());
    let record = CollectionAccount::new(authority, name, symbol, uri, royalty_percentage, is_mutable);
    let image = match record.encode() {
        Ok(image) => image,
        Err(error) => { return Err(error); },
    };
    let request = create_request(
        authority,
        accounts[0].key,
        COLLECTION_ACCOUNT_SIZE,
        *program_id,
        seeds,
        bump,
    );
    accounts[0].owner = *program_id;
    accounts[0].data = image;
    assert(accounts.deep_view() =~= old(accounts).deep_view().update(
        0,
        created(old(accounts).deep_view()[0], program_id@, record@.image()),
    ));
    Ok(Some(request))
}

/// Creates a collection: derives the address of the collection that the
/// authority names `name`, and goes on as [`initialize_collection`] does.
/// From a name of more than thirty-two bytes no address is derived.
pub fn process_initialize_collection(
    program_id: &Pubkey,
    accounts: &mut Vec<AccountInfo>,
    name: String,
    symbol: String,
    uri: String,
    royalty_percentage: u8,
    is_mutable: bool,
) -> (outcome: Result<Option<CreateAccount>, ProgramError>)
    ensures
        outcome_is(
            outcome,
            old(accounts).deep_view(),
            final(accounts).deep_view(),
            initialize_collection_spec(
                program_id@,
                old(accounts).deep_view(),
                name@,
                symbol@,
                uri@,
                royalty_percentage,
                is_mutable,
                program_address(
                    collection_seeds(old(accounts).deep_view()[1].key, name@),
                    program_id@,
                ),
            ),
        ),
        encode_utf8(name@).len() > MAX_SEED_LEN ==> outcome_is(
            outcome,
            old(accounts).deep_view(),
            final(accounts).deep_view(),
            initialize_collection_spec(
                program_id@,
                old(accounts).deep_view(),
                name@,
                symbol@,
                uri@,
                royalty_percentage,
                is_mutable,
                None,
            ),
        ),
{
    let derived = if accounts.len() < 3 {
        None
    } else {
        let seeds = find_collection_seeds(&accounts[1].key, name.as_str());
        assert(seeds_view(seeds)[2] == encode_utf8(name@));
        try_find_program_address(&seeds, program_id)
    };
    initialize_collection(
        program_id,
        accounts,
        name,
        symbol,
        uri,
        royalty_percentage,
        is_mutable,
        derived,
    )
}


/// The data of an account once `image` has been written over its start.
pub open spec fn stored(data: Seq<u8>, image: Seq<u8>) -> Seq<u8> {
    image + data.skip(image.len() as int)
}

/// An account once `image` has been written over the start of its data.
pub open spec fn overwritten(account: AccountState, image: Seq<u8>) -> AccountState {
    AccountState { data: stored(account.data, image), ..account }
}

/// The collection that the first account holds, where the third account is
/// its authority and has signed, the first belongs to the program, and the
/// second is still blank: what minting checks before anything else.
pub open spec fn mintable_collection(program_id: Seq<u8>, accounts: Seq<AccountState>) -> Result<
    CollectionData,
    ProgramError,
> {
    if !accounts[2].is_signer {
        Err(ProgramError::MissingRequiredSignature)
    } else if accounts[0].owner != program_id {
        Err(ProgramError::IncorrectProgramId)
    } else {
        match CollectionData::decode(accounts[0].data) {
            None => Err(ProgramError::InvalidRecord),
            Some(collection) => if collection.authority != accounts[2].key {
                Err(ProgramError::Custom(NFTError::InsufficientAuthority))
            } else if !all_zero(accounts[1].data) {
                Err(ProgramError::Custom(NFTError::AlreadyInitialized))
            } else {
                Ok(collection)
            },
        }
    }
}

/// The record of an asset that is minted at the ledger time `now`.
pub open spec fn minted(
    owner: Seq<u8>,
    collection: Seq<u8>,
    metadata_uri: Seq<char>,
    serial_number: u64,
    now: i64,
) -> NFTData {
    NFTData {
        owner,
        collection,
        metadata_uri,
        is_minted: true,
        serial_number,
        created_at: now,
        updated_at: now,
    }
}

/// A collection with one more asset counted.
pub open spec fn counted(collection: CollectionData) -> CollectionData {
    CollectionData { total_minted: (collection.total_minted + 1) as u64, ..collection }
}

/// What minting an asset does. The accounts are the collection's, the
/// asset's, the authority's and the service that creates accounts; `derived`
/// is the address that the asset's seeds derive; `now` is the ledger time.
pub open spec fn mint_nft_spec(
    program_id: Seq<u8>,
    accounts: Seq<AccountState>,
    metadata_uri: Seq<char>,
    serial_number: u64,
    now: i64,
    derived: Option<(Seq<u8>, u8)>,
) -> Result<Transition, ProgramError> {
    if accounts.len() < 4 {
        Err(ProgramError::NotEnoughAccountKeys)
    } else {
        match mintable_collection(program_id, accounts) {
            Err(error) => Err(error),
            Ok(collection) => {
                let nft = minted(
                    accounts[2].key,
                    accounts[0].key,
                    metadata_uri,
                    serial_number,
                    now,
                );
                if !is_derived(accounts[1].key, derived) {
                    Err(ProgramError::InvalidAccountData)
                } else if !nft.fits() {
                    Err(ProgramError::RecordTooLarge)
                } else if collection.total_minted == u64::MAX {
                    Err(ProgramError::Custom(NFTError::Overflow))
                } else {
                    Ok(
                        Transition {
                            accounts: accounts.update(
                                1,
                                created(accounts[1], program_id, nft.image()),
                            ).update(0, overwritten(accounts[0], counted(collection).image())),
                            create: Some(
                                creation(
                                    accounts[2].key,
                                    accounts[1].key,
                                    NFT_ACCOUNT_SIZE as u64,
                                    program_id,
                                    nft_seeds(accounts[0].key, serial_number),
                                    derived,
                                ),
                            ),
                        },
                    )
                }
            },
        }
    }
}

/// The asset that the first account holds, where the second account is its
/// owner and has signed, and the first belongs to the program: what the
/// operations on one asset check before anything else.
pub open spec fn owned_nft(program_id: Seq<u8>, accounts: Seq<AccountState>) -> Result<
    NFTData,
    ProgramError,
> {
    if !accounts[1].is_signer {
        Err(ProgramError::MissingRequiredSignature)
    } else if accounts[0].owner != program_id {
        Err(ProgramError::IncorrectProgramId)
    } else {
        match NFTData::decode(accounts[0].data) {
            None => Err(ProgramError::InvalidRecord),
            Some(nft) => if nft.owner != accounts[1].key {
                Err(ProgramError::Custom(NFTError::InvalidOwner))
            } else if !nft.is_minted {
                Err(ProgramError::Custom(NFTError::NotMinted))
            } else {
                Ok(nft)
            },
        }
    }
}

/// What handing an asset to `new_owner` does. The accounts are the asset's
/// and the current owner's; `now` is the ledger time.
pub open spec fn transfer_nft_spec(
    program_id: Seq<u8>,
    accounts: Seq<AccountState>,
    new_owner: Seq<u8>,
    now: i64,
) -> Result<Transition, ProgramError> {
    if accounts.len() < 2 {
        Err(ProgramError::NotEnoughAccountKeys)
    } else {
        match owned_nft(program_id, accounts) {
            Err(error) => Err(error),
            Ok(nft) => {
                let moved = NFTData { owner: new_owner, updated_at: now, ..nft };
                Ok(
                    Transition {
                        accounts: accounts.update(0, overwritten(accounts[0], moved.image())),
                        create: None,
                    },
                )
            },
        }
    }
}

/// What burning an asset does. The accounts are the asset's and the owner's.
pub open spec fn burn_nft_spec(program_id: Seq<u8>, accounts: Seq<AccountState>) -> Result<
    Transition,
    ProgramError,
> {
    if accounts.len() < 2 {
        Err(ProgramError::NotEnoughAccountKeys)
    } else {
        match owned_nft(program_id, accounts) {
            Err(error) => Err(error),
            Ok(nft) => if accounts[1].lamports + accounts[0].lamports > u64::MAX {
                Err(ProgramError::Custom(NFTError::Overflow))
            } else {
                Ok(
                    Transition {
                        accounts: accounts.update(
                            1,
                            AccountState {
                                lamports: (accounts[1].lamports + accounts[0].lamports) as u64,
                                ..accounts[1]
                            },
                        ).update(
                            0,
                            AccountState {
                                lamports: 0,
                                data: zeros(accounts[0].data.len() as int),
                                ..accounts[0]
                            },
                        ),
                        create: None,
                    },
                )
            },
        }
    }
}

/// What pointing an asset to new metadata does. The accounts are the
/// asset's, the owner's and the collection's; `now` is the ledger time.
pub open spec fn update_nft_metadata_spec(
    program_id: Seq<u8>,
    accounts: Seq<AccountState>,
    new_metadata_uri: Seq<char>,
    now: i64,
) -> Result<Transition, ProgramError> {
    if accounts.len() < 3 {
        Err(ProgramError::NotEnoughAccountKeys)
    } else if !accounts[1].is_signer {
        Err(ProgramError::MissingRequiredSignature)
    } else if accounts[0].owner != program_id || accounts[2].owner != program_id {
        Err(ProgramError::IncorrectProgramId)
    } else {
        match owned_nft(program_id, accounts) {
            Err(error) => Err(error),
            Ok(nft) => if nft.collection != accounts[2].key {
                Err(ProgramError::InvalidAccountData)
            } else {
                match CollectionData::decode(accounts[2].data) {
                    None => Err(ProgramError::InvalidRecord),
                    Some(collection) => {
                        let updated = NFTData {
                            metadata_uri: new_metadata_uri,
                            updated_at: now,
                            ..nft
                        };
                        if !collection.is_mutable {
                            Err(ProgramError::Custom(NFTError::ImmutableMetadata))
                        } else if !updated.fits() {
                            Err(ProgramError::RecordTooLarge)
                        } else {
                            Ok(
                                Transition {
                                    accounts: accounts.update(
                                        0,
                                        overwritten(accounts[0], updated.image()),
                                    ),
                                    create: None,
                                },
                            )
                        }
                    },
                }
            },
        }
    }
}

/// What pointing a collection to new metadata does. The accounts are the
/// collection's and the authority's.
pub open spec fn update_collection_metadata_spec(
    program_id: Seq<u8>,
    accounts: Seq<AccountState>,
    new_uri: Seq<char>,
) -> Result<Transition, ProgramError> {
    if accounts.len() < 2 {
        Err(ProgramError::NotEnoughAccountKeys)
    } else if !accounts[1].is_signer {
        Err(ProgramError::MissingRequiredSignature)
    } else if accounts[0].owner != program_id {
        Err(ProgramError::IncorrectProgramId)
    } else {
        match CollectionData::decode(accounts[0].data) {
            None => Err(ProgramError::InvalidRecord),
            Some(collection) => {
                let updated = CollectionData { uri: new_uri, ..collection };
                if collection.authority != accounts[1].key {
                    Err(ProgramError::Custom(NFTError::InsufficientAuthority))
                } else if !collection.is_mutable {
                    Err(ProgramError::Custom(NFTError::ImmutableMetadata))
                } else if !updated.fits() {
                    Err(ProgramError::RecordTooLarge)
                } else {
                    Ok(
                        Transition {
                            accounts: accounts.update(0, overwritten(accounts[0], updated.image())),
                            create: None,
                        },
                    )
                }
            },
        }
    }
}


/// `image`, followed by what `data` holds after the first bytes that `image`
/// takes the place of.
fn store(data: &Vec<u8>, image: Vec<u8>) -> (fresh: Vec<u8>)
    requires
        image.len() <= data.len(),
    ensures
        fresh@ == stored(data@, image@),
{
    let mut fresh = image;
    let kept = slice_subrange(data.as_slice(), fresh.len(), data.len());
    fresh.extend_from_slice(kept);
    assert(fresh@ =~= stored(data@, image@));
    fresh
}

/// Reads the collection of the first account and checks that the third
/// account is its authority and has signed, and that the second is blank.
fn load_mintable_collection(program_id: &Pubkey, accounts: &Vec<AccountInfo>) -> (loaded: Result<
    CollectionAccount,
    ProgramError,
>)
    requires
        accounts.len() >= 3,
    ensures
        match loaded {
            Ok(collection) => mintable_collection(program_id@, accounts.deep_view()) == Ok::<
                CollectionData,
                ProgramError,
            >(collection@),
            Err(error) => mintable_collection(program_id@, accounts.deep_view()) == Err::<
                CollectionData,
                ProgramError,
            >(error),
        },
{
    if !accounts[2].is_signer {
        return Err(ProgramError::MissingRequiredSignature);
    }
    if !same_key(&accounts[0].owner, program_id) {
        return Err(ProgramError::IncorrectProgramId);
    }
    let collection = match CollectionAccount::decode(accounts[0].data.as_slice()) {
        Ok(collection) => collection,
        Err(error) => { return Err(error); },
    };
    if !same_key(&collection.authority, &accounts[2].key) {
        return Err(ProgramError::Custom(NFTError::InsufficientAuthority));
    }
    if !is_all_zero(&accounts[1].data) {
        return Err(ProgramError::Custom(NFTError::AlreadyInitialized));
    }
    Ok(collection)
}

/// A collection that fits its layout still fits it with another count.
pub proof fn lemma_counted_fits(collection: CollectionData, total: u64)
    requires
        collection.fits(),
    ensures
        (CollectionData { total_minted: total, ..collection }).fits(),
{
    let other = CollectionData { total_minted: total, ..collection };
    let head = collection.authority + text_bytes(collection.name) + text_bytes(collection.symbol)
        + text_bytes(collection.uri) + seq![collection.royalty_percentage] + seq![
        bool_byte(collection.is_mutable),
    ];
    lemma_u64_round_trip(total, Seq::empty());
    lemma_u64_round_trip(collection.total_minted, Seq::empty());
    assert(collection.packed() == head + u64_le(collection.total_minted));
    assert(other.packed() == head + u64_le(total));
}

/// Mints an asset at the address that `derived` gives: checks the request,
/// asks for the account, writes the record of the asset and counts it in the
/// collection.
pub fn mint_nft(
    program_id: &Pubkey,
    accounts: &mut Vec<AccountInfo>,
    metadata_uri: String,
    serial_number: u64,
    now: i64,
    derived: Option<(Pubkey, u8)>,
) -> (outcome: Result<Option<CreateAccount>, ProgramError>)
    ensures
        outcome_is(
            outcome,
            old(accounts).deep_view(),
            final(accounts).deep_view(),
            mint_nft_spec(
                program_id@,
                old(accounts).deep_view(),
                metadata_uri@,
                serial_number,
                now,
                derived_view(derived),
            ),
        ),
{
    if accounts.len() < 4 {
        return Err(ProgramError::NotEnoughAccountKeys);
    }
    let mut collection = match load_mintable_collection(program_id, accounts) {
        Ok(collection) => collection,
        Err(error) => { return Err(error); },
    };
    let ghost decoded = collection@;
    let bump = match derived {
        Some((address, bump)) => {
            if !same_key(&address, &accounts[1].key) {
                return Err(ProgramError::InvalidAccountData);
            }
            bump
        },
        None => { return Err(ProgramError::InvalidAccountData); },
    };
    let authority = accounts[2].key;
    let collection_key = accounts[0].key;
    let nft = NFTAccount::new(authority, collection_key, metadata_uri, serial_number, now);
    let nft_image = match nft.encode() {
        Ok(image) => image,
        Err(error) => { return Err(error); },
    };
    match collection.increment_minted() {
        Ok(()) => {},
        Err(error) => { return Err(ProgramError::Custom(error)); },
    }
    proof {
        lemma_collection_decoded_fits(old(accounts).deep_view()[0].data);
        lemma_counted_fits(decoded, collection.total_minted);
        assert(collection@ == counted(decoded));
    }
    let collection_image = match collection.encode() {
        Ok(image) => image,
        Err(error) => { return Err(error); },
    };
    let request = create_request(
        authority,
        accounts[1].key,
        NFT_ACCOUNT_SIZE,
        *program_id,
        find_nft_seeds(&collection_key, serial_number),
        bump,
    );
    let collection_data = store(&accounts[0].data, collection_image);
    accounts[1].owner = *program_id;
    accounts[1].data = nft_image;
    accounts[0].data = collection_data;
    assert(accounts.deep_view() =~= old(accounts).deep_view().update(
        1,
        created(old(accounts).deep_view()[1], program_id@, nft@.image()),
    ).update(0, overwritten(old(accounts).deep_view()[0], collection@.image())));
    Ok(Some(request))
}

/// Mints an asset: derives the address of the asset with the number
/// `serial_number` in the collection, and goes on as [`mint_nft`] does.
pub fn process_mint_nft(
    program_id: &Pubkey,
    accounts: &mut Vec<AccountInfo>,
    metadata_uri: String,
    serial_number: u64,
    now: i64,
) -> (outcome: Result<Option<CreateAccount>, ProgramError>)
    ensures
        outcome_is(
            outcome,
            old(accounts).deep_view(),
            final(accounts).deep_view(),
            mint_nft_spec(
                program_id@,
                old(accounts).deep_view(),
                metadata_uri@,
                serial_number,
                now,
                program_address(
                    nft_seeds(old(accounts).deep_view()[0].key, serial_number),
                    program_id@,
                ),
            ),
        ),
{
    let derived = if accounts.len() < 4 {
        None
    } else {
        let seeds = find_nft_seeds(&accounts[0].key, serial_number);
        try_find_program_address(&seeds, program_id)
    };
    mint_nft(program_id, accounts, metadata_uri, serial_number, now, derived)
}

/// Reads the asset of the first account and checks that the second account
/// owns it and has signed.
fn load_owned_nft(program_id: &Pubkey, accounts: &Vec<AccountInfo>) -> (loaded: Result<
    NFTAccount,
    ProgramError,
>)
    requires
        accounts.len() >= 2,
    ensures
        match loaded {
            Ok(nft) => owned_nft(program_id@, accounts.deep_view()) == Ok::<NFTData, ProgramError>(
                nft@,
            ),
            Err(error) => owned_nft(program_id@, accounts.deep_view()) == Err::<
                NFTData,
                ProgramError,
            >(error),
        },
{
    if !accounts[1].is_signer {
        return Err(ProgramError::MissingRequiredSignature);
    }
    if !same_key(&accounts[0].owner, program_id) {
        return Err(ProgramError::IncorrectProgramId);
    }
    let nft = match NFTAccount::decode(accounts[0].data.as_slice()) {
        Ok(nft) => nft,
        Err(error) => { return Err(error); },
    };
    if !same_key(&nft.owner, &accounts[1].key) {
        return Err(ProgramError::Custom(NFTError::InvalidOwner));
    }
    if !nft.is_minted {
        return Err(ProgramError::Custom(NFTError::NotMinted));
    }
    Ok(nft)
}

/// An asset that fits its layout still fits it with another owner and
/// another time of its last change.
pub proof fn lemma_moved_fits(nft: NFTData, new_owner: Seq<u8>, now: i64)
    requires
        nft.fits(),
        new_owner.len() == 32,
    ensures
        (NFTData { owner: new_owner, updated_at: now, ..nft }).fits(),
{
    let moved = NFTData { owner: new_owner, updated_at: now, ..nft };
    let middle = nft.collection + text_bytes(nft.metadata_uri) + seq![bool_byte(nft.is_minted)]
        + u64_le(nft.serial_number) + i64_le(nft.created_at);
    lemma_i64_len(now);
    lemma_i64_len(nft.updated_at);
    assert(nft.packed() =~= nft.owner + middle + i64_le(nft.updated_at));
    assert(moved.packed() =~= new_owner + middle + i64_le(now));
}

/// Hands the asset of the first account to `new_owner`, at the ledger time
/// `now`.
pub fn process_transfer_nft(
    program_id: &Pubkey,
    accounts: &mut Vec<AccountInfo>,
    new_owner: Pubkey,
    now: i64,
) -> (outcome: Result<Option<CreateAccount>, ProgramError>)
    ensures
        outcome_is(
            outcome,
            old(accounts).deep_view(),
            final(accounts).deep_view(),
            transfer_nft_spec(program_id@, old(accounts).deep_view(), new_owner@, now),
        ),
{
    if accounts.len() < 2 {
        return Err(ProgramError::NotEnoughAccountKeys);
    }
    let mut nft = match load_owned_nft(program_id, accounts) {
        Ok(nft) => nft,
        Err(error) => { return Err(error); },
    };
    let ghost decoded = nft@;
    nft.transfer(new_owner, now);
    proof {
        lemma_nft_decoded_fits(old(accounts).deep_view()[0].data);
        lemma_pubkey_view(new_owner, new_owner);
        lemma_moved_fits(decoded, new_owner@, now);
    }
    let image = match nft.encode() {
        Ok(image) => image,
        Err(error) => { return Err(error); },
    };
    let data = store(&accounts[0].data, image);
    accounts[0].data = data;
    assert(accounts.deep_view() =~= old(accounts).deep_view().update(
        0,
        overwritten(old(accounts).deep_view()[0], nft@.image()),
    ));
    Ok(None)
}

/// Burns the asset of the first account: pays the whole balance of the
/// account to the owner and overwrites every byte of it with zero.
pub fn process_burn_nft(program_id: &Pubkey, accounts: &mut Vec<AccountInfo>) -> (outcome: Result<
    Option<CreateAccount>,
    ProgramError,
>)
    ensures
        outcome_is(
            outcome,
            old(accounts).deep_view(),
            final(accounts).deep_view(),
            burn_nft_spec(program_id@, old(accounts).deep_view()),
        ),
{
    if accounts.len() < 2 {
        return Err(ProgramError::NotEnoughAccountKeys);
    }
    match load_owned_nft(program_id, accounts) {
        Ok(_) => {},
        Err(error) => { return Err(error); },
    }
    let paid = match accounts[1].lamports.checked_add(accounts[0].lamports) {
        Some(paid) => paid,
        None => { return Err(ProgramError::Custom(NFTError::Overflow)); },
    };
    let size = accounts[0].data.len();
    let mut blank: Vec<u8> = Vec::new();
    blank.resize(size, 0u8);
    assert(blank@ =~= zeros(size as int));
    accounts[1].lamports = paid;
    accounts[0].lamports = 0;
    accounts[0].data = blank;
    assert(accounts.deep_view() =~= old(accounts).deep_view().update(
        1,
        AccountState { lamports: paid, ..old(accounts).deep_view()[1] },
    ).update(
        0,
        AccountState { lamports: 0, data: zeros(size as int), ..old(accounts).deep_view()[0] },
    ));
    Ok(None)
}

/// Points the asset of the first account to `new_metadata_uri`, at the
/// ledger time `now`, where the collection allows it.
pub fn process_update_nft_metadata(
    program_id: &Pubkey,
    accounts: &mut Vec<AccountInfo>,
    new_metadata_uri: String,
    now: i64,
) -> (outcome: Result<Option<CreateAccount>, ProgramError>)
    ensures
        outcome_is(
            outcome,
            old(accounts).deep_view(),
            final(accounts).deep_view(),
            update_nft_metadata_spec(
                program_id@,
                old(accounts).deep_view(),
                new_metadata_uri@,
                now,
            ),
        ),
{
    if accounts.len() < 3 {
        return Err(ProgramError::NotEnoughAccountKeys);
    }
    if !accounts[1].is_signer {
        return Err(ProgramError::MissingRequiredSignature);
    }
    if !same_key(&accounts[0].owner, program_id) {
        return Err(ProgramError::IncorrectProgramId);
    }
    if !same_key(&accounts[2].owner, program_id) {
        return Err(ProgramError::IncorrectProgramId);
    }
    let mut nft = match load_owned_nft(program_id, accounts) {
        Ok(nft) => nft,
        Err(error) => { return Err(error); },
    };
    if !same_key(&nft.collection, &accounts[2].key) {
        return Err(ProgramError::InvalidAccountData);
    }
    let collection = match CollectionAccount::decode(accounts[2].data.as_slice()) {
        Ok(collection) => collection,
        Err(error) => { return Err(error); },
    };
    if !collection.is_mutable {
        return Err(ProgramError::Custom(NFTError::ImmutableMetadata));
    }
    nft.update_metadata(new_metadata_uri, now);
    let image = match nft.encode() {
        Ok(image) => image,
        Err(error) => { return Err(error); },
    };
    let data = store(&accounts[0].data, image);
    accounts[0].data = data;
    assert(accounts.deep_view() =~= old(accounts).deep_view().update(
        0,
        overwritten(old(accounts).deep_view()[0], nft@.image()),
    ));
    Ok(None)
}

/// Points the collection of the first account to `new_uri`, where the
/// collection allows it.
pub fn process_update_collection_metadata(
    program_id: &Pubkey,
    accounts: &mut Vec<AccountInfo>,
    new_uri: String,
) -> (outcome: Result<Option<CreateAccount>, ProgramError>)
    ensures
        outcome_is(
            outcome,
            old(accounts).deep_view(),
            final(accounts).deep_view(),
            update_collection_metadata_spec(program_id@, old(accounts).deep_view(), new_uri@),
        ),
{
    if accounts.len() < 2 {
        return Err(ProgramError::NotEnoughAccountKeys);
    }
    if !accounts[1].is_signer {
        return Err(ProgramError::MissingRequiredSignature);
    }
    if !same_key(&accounts[0].owner, program_id) {
        return Err(ProgramError::IncorrectProgramId);
    }
    let mut collection = match CollectionAccount::decode(accounts[0].data.as_slice()) {
        Ok(collection) => collection,
        Err(error) => { return Err(error); },
    };
    if !same_key(&collection.authority, &accounts[1].key) {
        return Err(ProgramError::Custom(NFTError::InsufficientAuthority));
    }
    if !collection.is_mutable {
        return Err(ProgramError::Custom(NFTError::ImmutableMetadata));
    }
    collection.uri = new_uri;
    let image = match collection.encode() {
        Ok(image) => image,
        Err(error) => { return Err(error); },
    };
    let data = store(&accounts[0].data, image);
    accounts[0].data = data;
    assert(accounts.deep_view() =~= old(accounts).deep_view().update(
        0,
        overwritten(old(accounts).deep_view()[0], collection@.image()),
    ));
    Ok(None)
}


/// What a request does: the operation that its bytes ask for, on the
/// accounts in the order in which that operation takes them, at the ledger
/// time `now`. Bytes that are no request fail before any account is looked
/// at.
pub open spec fn process_instruction_spec(
    program_id: Seq<u8>,
    accounts: Seq<AccountState>,
    instruction_data: Seq<u8>,
    now: i64,
) -> Result<Transition, ProgramError> {
    match InstructionData::parse(instruction_data) {
        None => Err(ProgramError::Custom(NFTError::InvalidInstruction)),
        Some(InstructionData::InitializeCollection {
            name,
            symbol,
            uri,
            royalty_percentage,
            is_mutable,
        }) => initialize_collection_spec(
            program_id,
            accounts,
            name,
            symbol,
            uri,
            royalty_percentage,
            is_mutable,
            program_address(collection_seeds(accounts[1].key, name), program_id),
        ),
        Some(InstructionData::MintNFT { metadata_uri, serial_number }) => mint_nft_spec(
            program_id,
            accounts,
            metadata_uri,
            serial_number,
            now,
            program_address(nft_seeds(accounts[0].key, serial_number), program_id),
        ),
        Some(InstructionData::TransferNFT { new_owner }) => transfer_nft_spec(
            program_id,
            accounts,
            new_owner,
            now,
        ),
        Some(InstructionData::BurnNFT) => burn_nft_spec(program_id, accounts),
        Some(InstructionData::UpdateNFTMetadata { new_metadata_uri }) => update_nft_metadata_spec(
            program_id,
            accounts,
            new_metadata_uri,
            now,
        ),
        Some(
            InstructionData::UpdateCollectionMetadata { new_uri },
        ) => update_collection_metadata_spec(program_id, accounts, new_uri),
    }
}

/// Runs one request of the program `program_id` on `accounts`, at the ledger
/// time `now`. On success the accounts hold what the request has written,
/// and the result names the account that the ledger has to create for it,
/// if the request needs one; on failure no account has changed.
pub fn process_instruction(
    program_id: &Pubkey,
    accounts: &mut Vec<AccountInfo>,
    instruction_data: &[u8],
    now: i64,
) -> (outcome: Result<Option<CreateAccount>, ProgramError>)
    ensures
        outcome_is(
            outcome,
            old(accounts).deep_view(),
            final(accounts).deep_view(),
            process_instruction_spec(
                program_id@,
                old(accounts).deep_view(),
                instruction_data@,
                now,
            ),
        ),
{
    let instruction = match NFTInstruction::unpack(instruction_data) {
        Ok(instruction) => instruction,
        Err(error) => { return Err(ProgramError::Custom(error)); },
    };
    match instruction {
        NFTInstruction::InitializeCollection {
            name,
            symbol,
            uri,
            royalty_percentage,
            is_mutable,
        } => process_initialize_collection(
            program_id,
            accounts,
            name,
            symbol,
            uri,
            royalty_percentage,
            is_mutable,
        ),
        NFTInstruction::MintNFT { metadata_uri, serial_number } => process_mint_nft(
            program_id,
            accounts,
            metadata_uri,
            serial_number,
            now,
        ),
        NFTInstruction::TransferNFT { new_owner } => process_transfer_nft(
            program_id,
            accounts,
            new_owner,
            now,
        ),
        NFTInstruction::BurnNFT => process_burn_nft(program_id, accounts),
        NFTInstruction::UpdateNFTMetadata { new_metadata_uri } => process_update_nft_metadata(
            program_id,
            accounts,
            new_metadata_uri,
            now,
        ),
        NFTInstruction::UpdateCollectionMetadata {
            new_uri,
        } => process_update_collection_metadata(program_id, accounts, new_uri),
    }
}

} // verus!
