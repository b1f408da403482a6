//! What holds of the operations whatever they are handed.

use vstd::prelude::*;
use crate::account::{AccountState, Transition};
use crate::error::{NFTError, ProgramError};
use crate::processor::{
    burn_nft_spec, counted, lemma_counted_fits, lemma_moved_fits, initialize_collection_spec, is_derived, mint_nft_spec,
    mintable_collection, minted, owned_nft, overwritten, stored, transfer_nft_spec,
    update_collection_metadata_spec, update_nft_metadata_spec,
};
use crate::state::{
    all_zero, lemma_collection_decode_image, lemma_collection_decoded_fits,
    lemma_collection_image_not_zero, lemma_nft_decode_image, lemma_nft_decoded_fits,
    lemma_nft_image_not_zero, lemma_take_of_stored, CollectionData, NFTData,
    COLLECTION_ACCOUNT_SIZE, MAX_ROYALTY_PERCENTAGE, NFT_ACCOUNT_SIZE,
};

verus! {

/// The record of a collection that has just been created.
pub open spec fn initialized(
    authority: Seq<u8>,
    name: Seq<char>,
    symbol: Seq<char>,
    uri: Seq<char>,
    royalty_percentage: u8,
    is_mutable: bool,
) -> CollectionData {
    CollectionData {
        authority,
        name,
        symbol,
        uri,
        royalty_percentage,
        is_mutable,
        total_minted: 0,
    }
}

/// A collection record that is written over the old one reads back as written.
pub proof fn lemma_collection_overwritten(data: Seq<u8>, c: CollectionData)
    requires
        c.fits(),
    ensures
        CollectionData::decode(stored(data, c.image())) == Some(c),
{
    let image = c.image();
    lemma_collection_decode_image(c);
    lemma_take_of_stored(image, data.skip(image.len() as int));
    assert(image.take(COLLECTION_ACCOUNT_SIZE as int) =~= image);
}

/// An asset record that is written over the old one reads back as written.
pub proof fn lemma_nft_overwritten(data: Seq<u8>, n: NFTData)
    requires
        n.fits(),
    ensures
        NFTData::decode(stored(data, n.image())) == Some(n),
{
    let image = n.image();
    lemma_nft_decode_image(n);
    lemma_take_of_stored(image, data.skip(image.len() as int));
    assert(image.take(NFT_ACCOUNT_SIZE as int) =~= image);
}

/// A royalty above one hundred percent never creates a collection: the
/// request fails, and where the accounts are there and the authority has
/// signed, it fails for the royalty.
pub proof fn law_royalty_above_hundred_is_refused(
    program_id: Seq<u8>,
    accounts: Seq<AccountState>,
    name: Seq<char>,
    symbol: Seq<char>,
    uri: Seq<char>,
    royalty_percentage: u8,
    is_mutable: bool,
    derived: Option<(Seq<u8>, u8)>,
)
    requires
        royalty_percentage > MAX_ROYALTY_PERCENTAGE,
    ensures
        initialize_collection_spec(
            program_id,
            accounts,
            name,
            symbol,
            uri,
            royalty_percentage,
            is_mutable,
            derived,
        ) is Err,
        accounts.len() >= 3 && accounts[1].is_signer ==> initialize_collection_spec(
            program_id,
            accounts,
            name,
            symbol,
            uri,
            royalty_percentage,
            is_mutable,
            derived,
        ) == Err::<Transition, ProgramError>(
            ProgramError::Custom(NFTError::InvalidRoyaltyPercentage),
        ),
{
}

/// Creating a collection writes the record of that collection, with nothing
/// minted and a royalty of at most one hundred percent, hands the account to
/// the program, and touches no other account.
pub proof fn law_initialize_writes_the_collection(
    program_id: Seq<u8>,
    accounts: Seq<AccountState>,
    name: Seq<char>,
    symbol: Seq<char>,
    uri: Seq<char>,
    royalty_percentage: u8,
    is_mutable: bool,
    derived: Option<(Seq<u8>, u8)>,
)
    requires
        initialize_collection_spec(
            program_id,
            accounts,
            name,
            symbol,
            uri,
            royalty_percentage,
            is_mutable,
            derived,
        ) is Ok,
    ensures
        ({
            let after = initialize_collection_spec(
                program_id,
                accounts,
                name,
                symbol,
                uri,
                royalty_percentage,
                is_mutable,
                derived,
            )->Ok_0.accounts;
            let record = initialized(
                accounts[1].key,
                name,
                symbol,
                uri,
                royalty_percentage,
                is_mutable,
            );
            &&& after.len() == accounts.len()
            &&& forall|i: int| 1 <= i < accounts.len() ==> after[i] == accounts[i]
            &&& after[0].owner == program_id
            &&& after[0].data.len() == COLLECTION_ACCOUNT_SIZE
            &&& CollectionData::decode(after[0].data) == Some(record)
            &&& record.well_formed()
        }),
{
    let record = initialized(accounts[1].key, name, symbol, uri, royalty_percentage, is_mutable);
    lemma_collection_decode_image(record);
}

/// Creating the same collection a second time fails, because the account is
/// taken, unless the record that the first time wrote is the blank one.
pub proof fn law_initialize_twice_is_refused(
    program_id: Seq<u8>,
    accounts: Seq<AccountState>,
    name: Seq<char>,
    symbol: Seq<char>,
    uri: Seq<char>,
    royalty_percentage: u8,
    is_mutable: bool,
    derived: Option<(Seq<u8>, u8)>,
)
    requires
        initialize_collection_spec(
            program_id,
            accounts,
            name,
            symbol,
            uri,
            royalty_percentage,
            is_mutable,
            derived,
        ) is Ok,
        !initialized(accounts[1].key, name, symbol, uri, royalty_percentage, is_mutable).blank(),
    ensures
        initialize_collection_spec(
            program_id,
            initialize_collection_spec(
                program_id,
                accounts,
                name,
                symbol,
                uri,
                royalty_percentage,
                is_mutable,
                derived,
            )->Ok_0.accounts,
            name,
            symbol,
            uri,
            royalty_percentage,
            is_mutable,
            derived,
        ) == Err::<Transition, ProgramError>(ProgramError::Custom(NFTError::AlreadyInitialized)),
{
    let record = initialized(accounts[1].key, name, symbol, uri, royalty_percentage, is_mutable);
    lemma_collection_image_not_zero(record);
}


/// Minting counts exactly one more asset in the collection and changes
/// nothing else of it, and writes the record of the new asset, which belongs
/// to the authority.
pub proof fn law_mint_counts_one(
    program_id: Seq<u8>,
    accounts: Seq<AccountState>,
    metadata_uri: Seq<char>,
    serial_number: u64,
    now: i64,
    derived: Option<(Seq<u8>, u8)>,
)
    requires
        mint_nft_spec(program_id, accounts, metadata_uri, serial_number, now, derived) is Ok,
    ensures
        ({
            let after = mint_nft_spec(
                program_id,
                accounts,
                metadata_uri,
                serial_number,
                now,
                derived,
            )->Ok_0.accounts;
            let before = CollectionData::decode(accounts[0].data);
            &&& before is Some
            &&& before->0.total_minted < u64::MAX
            &&& CollectionData::decode(after[0].data) == Some(
                CollectionData {
                    total_minted: (before->0.total_minted + 1) as u64,
                    ..before->0
                },
            )
            &&& NFTData::decode(after[1].data) == Some(
                minted(accounts[2].key, accounts[0].key, metadata_uri, serial_number, now),
            )
            &&& after[1].owner == program_id
            &&& after.len() == accounts.len()
            &&& forall|i: int| 2 <= i < accounts.len() ==> after[i] == accounts[i]
        }),
{
    let collection = mintable_collection(program_id, accounts)->Ok_0;
    let nft = minted(accounts[2].key, accounts[0].key, metadata_uri, serial_number, now);
    lemma_collection_decoded_fits(accounts[0].data);
    lemma_counted_fits(collection, counted(collection).total_minted);
    lemma_collection_overwritten(accounts[0].data, counted(collection));
    lemma_nft_decode_image(nft);
}

/// Minting the same number into the same collection a second time fails,
/// because the account of the asset is taken: the address of an asset
/// depends on nothing but the collection and the number.
pub proof fn law_mint_twice_is_refused(
    program_id: Seq<u8>,
    accounts: Seq<AccountState>,
    metadata_uri: Seq<char>,
    serial_number: u64,
    now: i64,
    derived: Option<(Seq<u8>, u8)>,
    second_uri: Seq<char>,
    later: i64,
)
    requires
        mint_nft_spec(program_id, accounts, metadata_uri, serial_number, now, derived) is Ok,
    ensures
        mint_nft_spec(
            program_id,
            mint_nft_spec(
                program_id,
                accounts,
                metadata_uri,
                serial_number,
                now,
                derived,
            )->Ok_0.accounts,
            second_uri,
            serial_number,
            later,
            derived,
        ) == Err::<Transition, ProgramError>(ProgramError::Custom(NFTError::AlreadyInitialized)),
{
    let collection = mintable_collection(program_id, accounts)->Ok_0;
    let nft = minted(accounts[2].key, accounts[0].key, metadata_uri, serial_number, now);
    lemma_collection_decoded_fits(accounts[0].data);
    lemma_counted_fits(collection, counted(collection).total_minted);
    lemma_collection_overwritten(accounts[0].data, counted(collection));
    lemma_nft_image_not_zero(nft);
}

/// A transfer changes the owner of an asset and the time of its last
/// change, and nothing else: not its collection, its number, its metadata
/// or the time at which it was made, and no other account.
pub proof fn law_transfer_changes_owner_only(
    program_id: Seq<u8>,
    accounts: Seq<AccountState>,
    new_owner: Seq<u8>,
    now: i64,
)
    requires
        new_owner.len() == 32,
        transfer_nft_spec(program_id, accounts, new_owner, now) is Ok,
    ensures
        ({
            let after = transfer_nft_spec(program_id, accounts, new_owner, now)->Ok_0.accounts;
            let before = NFTData::decode(accounts[0].data);
            &&& before is Some
            &&& NFTData::decode(after[0].data) == Some(
                NFTData { owner: new_owner, updated_at: now, ..before->0 },
            )
            &&& after[0] == (AccountState { data: after[0].data, ..accounts[0] })
            &&& after[0].data.len() == accounts[0].data.len()
            &&& after.len() == accounts.len()
            &&& forall|i: int| 1 <= i < accounts.len() ==> after[i] == accounts[i]
        }),
{
    let nft = owned_nft(program_id, accounts)->Ok_0;
    let moved = NFTData { owner: new_owner, updated_at: now, ..nft };
    lemma_nft_decoded_fits(accounts[0].data);
    lemma_moved_fits(nft, new_owner, now);
    lemma_nft_overwritten(accounts[0].data, moved);
    lemma_nft_decode_image(moved);
}

/// Burning an asset pays the whole balance of its account to the owner and
/// leaves the account with no balance and with zeros for every byte; no
/// other account changes.
pub proof fn law_burn_clears_the_account(program_id: Seq<u8>, accounts: Seq<AccountState>)
    requires
        burn_nft_spec(program_id, accounts) is Ok,
    ensures
        ({
            let after = burn_nft_spec(program_id, accounts)->Ok_0.accounts;
            &&& all_zero(after[0].data)
            &&& after[0].data.len() == accounts[0].data.len()
            &&& after[0].lamports == 0
            &&& after[1].lamports == accounts[1].lamports + accounts[0].lamports
            &&& after[0] == (AccountState { data: after[0].data, lamports: 0, ..accounts[0] })
            &&& after[1] == (AccountState { lamports: after[1].lamports, ..accounts[1] })
            &&& after.len() == accounts.len()
            &&& forall|i: int| 2 <= i < accounts.len() ==> after[i] == accounts[i]
        }),
{
}

/// The account of a burnt asset can take a new asset: minting into it is
/// not refused for the account being taken, and what it then holds is the
/// new asset and nothing of the old one.
pub proof fn law_mint_after_burn(
    program_id: Seq<u8>,
    burnt: Seq<AccountState>,
    accounts: Seq<AccountState>,
    metadata_uri: Seq<char>,
    serial_number: u64,
    now: i64,
    derived: Option<(Seq<u8>, u8)>,
)
    requires
        burn_nft_spec(program_id, burnt) is Ok,
        accounts.len() >= 4,
        accounts[1].data == burn_nft_spec(program_id, burnt)->Ok_0.accounts[0].data,
    ensures
        mint_nft_spec(program_id, accounts, metadata_uri, serial_number, now, derived) != Err::<
            Transition,
            ProgramError,
        >(ProgramError::Custom(NFTError::AlreadyInitialized)),
        ({
            let collection = CollectionData::decode(accounts[0].data);
            let nft = minted(accounts[2].key, accounts[0].key, metadata_uri, serial_number, now);
            &&& accounts[2].is_signer
            &&& accounts[0].owner == program_id
            &&& collection is Some
            &&& collection->0.authority == accounts[2].key
            &&& collection->0.total_minted < u64::MAX
            &&& is_derived(accounts[1].key, derived)
            &&& nft.fits()
        }) ==> {
            let outcome = mint_nft_spec(
                program_id,
                accounts,
                metadata_uri,
                serial_number,
                now,
                derived,
            );
            &&& outcome is Ok
            &&& NFTData::decode(outcome->Ok_0.accounts[1].data) == Some(
                minted(accounts[2].key, accounts[0].key, metadata_uri, serial_number, now),
            )
        },
{
    let nft = minted(accounts[2].key, accounts[0].key, metadata_uri, serial_number, now);
    if nft.fits() {
        lemma_nft_decode_image(nft);
    }
}

/// Whether the metadata of an asset may change is for its collection to
/// say. Where the owner has signed and the accounts are the asset's and its
/// collection's, the request fails for the metadata being fixed if the
/// collection forbids changes; if it allows them and the new record fits,
/// the request succeeds and changes the URI and the time of the last change,
/// and nothing else.
pub proof fn law_update_nft_metadata_follows_the_collection(
    program_id: Seq<u8>,
    accounts: Seq<AccountState>,
    new_metadata_uri: Seq<char>,
    now: i64,
)
    requires
        accounts.len() >= 3,
        owned_nft(program_id, accounts) is Ok,
        accounts[2].owner == program_id,
        owned_nft(program_id, accounts)->Ok_0.collection == accounts[2].key,
        CollectionData::decode(accounts[2].data) is Some,
    ensures
        ({
            let nft = owned_nft(program_id, accounts)->Ok_0;
            let collection = CollectionData::decode(accounts[2].data)->0;
            let updated = NFTData { metadata_uri: new_metadata_uri, updated_at: now, ..nft };
            let outcome = update_nft_metadata_spec(program_id, accounts, new_metadata_uri, now);
            &&& !collection.is_mutable ==> outcome == Err::<Transition, ProgramError>(
                ProgramError::Custom(NFTError::ImmutableMetadata),
            )
            &&& collection.is_mutable && updated.fits() ==> {
                &&& outcome is Ok
                &&& NFTData::decode(outcome->Ok_0.accounts[0].data) == Some(updated)
                &&& outcome->Ok_0.accounts == accounts.update(
                    0,
                    AccountState { data: outcome->Ok_0.accounts[0].data, ..accounts[0] },
                )
            }
        }),
{
    let nft = owned_nft(program_id, accounts)->Ok_0;
    let updated = NFTData { metadata_uri: new_metadata_uri, updated_at: now, ..nft };
    if updated.fits() {
        lemma_nft_overwritten(accounts[0].data, updated);
    }
}

/// Whether the metadata of a collection may change is for the collection to
/// say. Where the authority has signed for its collection, the request
/// fails for the metadata being fixed if the collection forbids changes; if
/// it allows them and the new record fits, the request succeeds and changes
/// the URI, and nothing else.
pub proof fn law_update_collection_metadata_follows_the_collection(
    program_id: Seq<u8>,
    accounts: Seq<AccountState>,
    new_uri: Seq<char>,
)
    requires
        accounts.len() >= 2,
        accounts[1].is_signer,
        accounts[0].owner == program_id,
        CollectionData::decode(accounts[0].data) is Some,
        CollectionData::decode(accounts[0].data)->0.authority == accounts[1].key,
    ensures
        ({
            let collection = CollectionData::decode(accounts[0].data)->0;
            let updated = CollectionData { uri: new_uri, ..collection };
            let outcome = update_collection_metadata_spec(program_id, accounts, new_uri);
            &&& !collection.is_mutable ==> outcome == Err::<Transition, ProgramError>(
                ProgramError::Custom(NFTError::ImmutableMetadata),
            )
            &&& collection.is_mutable && updated.fits() ==> {
                &&& outcome is Ok
                &&& CollectionData::decode(outcome->Ok_0.accounts[0].data) == Some(updated)
                &&& outcome->Ok_0.accounts == accounts.update(
                    0,
                    AccountState { data: outcome->Ok_0.accounts[0].data, ..accounts[0] },
                )
            }
        }),
{
    let collection = CollectionData::decode(accounts[0].data)->0;
    let updated = CollectionData { uri: new_uri, ..collection };
    if updated.fits() {
        lemma_collection_overwritten(accounts[0].data, updated);
    }
}

} // verus!
