//! The two kinds of record that the registry keeps, and the bytes in which
//! an account holds them.
//!
//! A record occupies a layout of fixed size at the start of its account's
//! data: the fields one after another, then zeros up to the layout's size.

use vstd::prelude::*;
use vstd::slice::slice_subrange;
use vstd::utf8::{encode_scalar, encode_utf8};
use crate::codec::{
    bool_byte, lemma_take_bool, lemma_take_i64, lemma_take_key, lemma_take_text, lemma_take_u64,
    lemma_take_u8, lemma_taken_bool, lemma_taken_i64, lemma_taken_key, lemma_taken_text,
    lemma_taken_u64, lemma_taken_u8,
    put_bool, put_i64, put_key, put_text, put_u64, read_bool, read_i64, read_key, read_text,
    read_u64, read_u8, take_bool, take_i64, take_key, take_text, take_u64, take_u8, text_bytes,
    text_fits, u64_le, i64_le, rest_of, u32_le, u32_from_le, u64_from_le, lemma_u32_round_trip,
    lemma_u64_round_trip,
};
use crate::error::{NFTError, ProgramError};
use crate::pubkey::Pubkey;

verus! {

/// The size of the layout of a collection record, in bytes: room for a name
/// of 50 bytes, a symbol of 10 and a URI of 200.
pub const COLLECTION_ACCOUNT_SIZE: usize = 32 + 4 + 50 + 4 + 10 + 4 + 200 + 1 + 1 + 8;

/// The size of the layout of an asset record, in bytes: room for a URI of
/// 200 bytes.
pub const NFT_ACCOUNT_SIZE: usize = 32 + 32 + 4 + 200 + 1 + 8 + 8 + 8;

/// The first seed of the address of a collection: the bytes of "collection".
pub const COLLECTION_SEED_PREFIX: [u8; 10] = [99, 111, 108, 108, 101, 99, 116, 105, 111, 110];

/// The first seed of the address of an asset: the bytes of "nft".
pub const NFT_SEED_PREFIX: [u8; 3] = [110, 102, 116];

/// The highest royalty that a collection can ask, in percent.
pub const MAX_ROYALTY_PERCENTAGE: u8 = 100;

/// `n` zero bytes.
pub open spec fn zeros(n: int) -> Seq<u8> {
    Seq::new(n as nat, |i: int| 0u8)
}

/// Whether every byte is zero: the state of an account that holds no record.
pub open spec fn all_zero(data: Seq<u8>) -> bool {
    forall|i: int| 0 <= i < data.len() ==> data[i] == 0
}

/// A named collection of assets, with its policy and its mint counter.
#[derive(Debug)]
pub struct CollectionAccount {
    /// The address that may mint into the collection and change its URI.
    pub authority: Pubkey,
    /// The name, which is also a seed of the collection's address.
    pub name: String,
    /// The symbol.
    pub symbol: String,
    /// Where the collection's metadata is found.
    pub uri: String,
    /// The royalty in percent, at most one hundred.
    pub royalty_percentage: u8,
    /// Whether the metadata of the collection and of its assets may change.
    pub is_mutable: bool,
    /// How many assets have been minted into the collection.
    pub total_minted: u64,
}

/// What a collection record is in contracts.
#[verifier::ext_equal]
pub struct CollectionData {
    pub authority: Seq<u8>,
    pub name: Seq<char>,
    pub symbol: Seq<char>,
    pub uri: Seq<char>,
    pub royalty_percentage: u8,
    pub is_mutable: bool,
    pub total_minted: u64,
}

impl View for CollectionAccount {
    type V = CollectionData;

    open spec fn view(&self) -> CollectionData {
        CollectionData {
            authority: self.authority@,
            name: self.name@,
            symbol: self.symbol@,
            uri: self.uri@,
            royalty_percentage: self.royalty_percentage,
            is_mutable: self.is_mutable,
            total_minted: self.total_minted,
        }
    }
}

impl CollectionData {
    /// The fields one after another.
    pub open spec fn packed(self) -> Seq<u8> {
        self.authority + text_bytes(self.name) + text_bytes(self.symbol) + text_bytes(self.uri)
            + seq![self.royalty_percentage] + seq![bool_byte(self.is_mutable)] + u64_le(
            self.total_minted,
        )
    }

    /// Whether the record can be written down: the address is one, and the
    /// length of each text fits its prefix.
    pub open spec fn writable(self) -> bool {
        &&& self.authority.len() == 32
        &&& text_fits(self.name)
        &&& text_fits(self.symbol)
        &&& text_fits(self.uri)
    }

    /// Whether the record can be written down in the layout.
    pub open spec fn fits(self) -> bool {
        self.writable() && self.packed().len() <= COLLECTION_ACCOUNT_SIZE
    }

    /// The bytes of the layout that holds the record.
    pub open spec fn image(self) -> Seq<u8> {
        self.packed() + zeros(COLLECTION_ACCOUNT_SIZE - self.packed().len())
    }

    /// The record whose fields open `bytes`, if there is one.
    #[verifier::opaque]
    pub open spec fn parse(bytes: Seq<u8>) -> Option<CollectionData> {
        match take_key(bytes) {
            None => None,
            Some((authority, b1)) => match take_text(b1) {
                None => None,
                Some((name, b2)) => match take_text(b2) {
                    None => None,
                    Some((symbol, b3)) => match take_text(b3) {
                        None => None,
                        Some((uri, b4)) => match take_u8(b4) {
                            None => None,
                            Some((royalty_percentage, b5)) => match take_bool(b5) {
                                None => None,
                                Some((is_mutable, b6)) => match take_u64(b6) {
                                    None => None,
                                    Some((total_minted, b7)) => Some(
                                        CollectionData {
                                            authority,
                                            name,
                                            symbol,
                                            uri,
                                            royalty_percentage,
                                            is_mutable,
                                            total_minted,
                                        },
                                    ),
                                },
                            },
                        },
                    },
                },
            },
        }
    }

    /// The record that the data of an account holds: the one whose fields
    /// open the layout. Data shorter than the layout holds none.
    pub open spec fn decode(data: Seq<u8>) -> Option<CollectionData> {
        if data.len() < COLLECTION_ACCOUNT_SIZE {
            None
        } else {
            Self::parse(data.take(COLLECTION_ACCOUNT_SIZE as int))
        }
    }

    /// The invariant of a collection: the royalty is at most one hundred
    /// percent.
    pub open spec fn well_formed(self) -> bool {
        self.royalty_percentage <= MAX_ROYALTY_PERCENTAGE
    }
}

/// The fields of a collection, followed by `tail`, grouped from the right.
pub open spec fn collection_chain(c: CollectionData, tail: Seq<u8>) -> Seq<u8> {
    c.authority + (text_bytes(c.name) + (text_bytes(c.symbol) + (text_bytes(c.uri) + (
    seq![c.royalty_percentage] + (seq![bool_byte(c.is_mutable)] + (u64_le(c.total_minted)
        + tail))))))
}

proof fn lemma_collection_chain(c: CollectionData, tail: Seq<u8>)
    ensures
        c.packed() + tail == collection_chain(c, tail),
{
    assert(c.packed() + tail =~= collection_chain(c, tail));
}

/// Reading back the fields of a collection gives the collection, whatever
/// follows the fields.
pub proof fn lemma_collection_round_trip(c: CollectionData, tail: Seq<u8>)
    requires
        c.writable(),
    ensures
        CollectionData::parse(c.packed() + tail) == Some(c),
{
    reveal(CollectionData::parse);
    let t6 = u64_le(c.total_minted) + tail;
    let t5 = seq![bool_byte(c.is_mutable)] + t6;
    let t4 = seq![c.royalty_percentage] + t5;
    let t3 = text_bytes(c.uri) + t4;
    let t2 = text_bytes(c.symbol) + t3;
    let t1 = text_bytes(c.name) + t2;
    lemma_collection_chain(c, tail);
    lemma_take_key(c.authority, t1);
    lemma_take_text(c.name, t2);
    lemma_take_text(c.symbol, t3);
    lemma_take_text(c.uri, t4);
    lemma_take_u8(c.royalty_percentage, t5);
    lemma_take_bool(c.is_mutable, t6);
    lemma_take_u64(c.total_minted, tail);
}

/// What reading a collection leaves of `bytes`.
pub open spec fn collection_rest(bytes: Seq<u8>) -> Seq<u8> {
    let b1 = rest_of(take_key(bytes));
    let b2 = rest_of(take_text(b1));
    let b3 = rest_of(take_text(b2));
    let b4 = rest_of(take_text(b3));
    let b5 = rest_of(take_u8(b4));
    let b6 = rest_of(take_bool(b5));
    rest_of(take_u64(b6))
}

/// The bytes from which a collection was read are the fields of that
/// collection, followed by what the reading left.
pub proof fn lemma_collection_parse_sound(bytes: Seq<u8>)
    ensures
        CollectionData::parse(bytes) matches Some(c) ==> c.writable() && bytes == c.packed()
            + collection_rest(bytes),
{
    reveal(CollectionData::parse);
    if let Some(c) = CollectionData::parse(bytes) {
        let b1 = rest_of(take_key(bytes));
        let b2 = rest_of(take_text(b1));
        let b3 = rest_of(take_text(b2));
        let b4 = rest_of(take_text(b3));
        let b5 = rest_of(take_u8(b4));
        let b6 = rest_of(take_bool(b5));
        let b7 = rest_of(take_u64(b6));
        lemma_taken_key(bytes);
        lemma_taken_text(b1);
        lemma_taken_text(b2);
        lemma_taken_text(b3);
        lemma_taken_u8(b4);
        lemma_taken_bool(b5);
        lemma_taken_u64(b6);
        lemma_collection_chain(c, b7);
    }
}


/// The layout that holds a collection reads back as that collection.
pub proof fn lemma_collection_decode_image(c: CollectionData)
    requires
        c.fits(),
    ensures
        c.image().len() == COLLECTION_ACCOUNT_SIZE,
        CollectionData::decode(c.image()) == Some(c),
{
    lemma_collection_round_trip(c, zeros(COLLECTION_ACCOUNT_SIZE - c.packed().len()));
    assert(c.image().take(COLLECTION_ACCOUNT_SIZE as int) =~= c.image());
}

/// A collection that was read from the data of an account fits the layout.
pub proof fn lemma_collection_decoded_fits(data: Seq<u8>)
    ensures
        CollectionData::decode(data) matches Some(c) ==> c.fits(),
{
    if data.len() >= COLLECTION_ACCOUNT_SIZE {
        let layout = data.take(COLLECTION_ACCOUNT_SIZE as int);
        lemma_collection_parse_sound(layout);
        if let Some(c) = CollectionData::parse(layout) {
            assert(layout.len() == c.packed().len() + collection_rest(layout).len());
        }
    }
}

impl Clone for CollectionAccount {
    fn clone(&self) -> (copy: CollectionAccount)
        ensures
            copy == *self,
    {
        CollectionAccount {
            authority: self.authority,
            name: self.name.clone(),
            symbol: self.symbol.clone(),
            uri: self.uri.clone(),
            royalty_percentage: self.royalty_percentage,
            is_mutable: self.is_mutable,
            total_minted: self.total_minted,
        }
    }
}

impl CollectionAccount {
    /// A collection into which nothing has been minted yet.
    pub fn new(
        authority: Pubkey,
        name: String,
        symbol: String,
        uri: String,
        royalty_percentage: u8,
        is_mutable: bool,
    ) -> (collection: CollectionAccount)
        ensures
            collection == (CollectionAccount {
                authority,
                name,
                symbol,
                uri,
                royalty_percentage,
                is_mutable,
                total_minted: 0,
            }),
    {
        CollectionAccount {
            authority,
            name,
            symbol,
            uri,
            royalty_percentage,
            is_mutable,
            total_minted: 0,
        }
    }

    /// Counts one more minted asset. The counter never wraps: at its highest
    /// value it stays, and the call reports the overflow.
    pub fn increment_minted(&mut self) -> (done: Result<(), NFTError>)
        ensures
            old(self).total_minted < u64::MAX ==> done is Ok && *final(self) == (CollectionAccount {
                total_minted: (old(self).total_minted + 1) as u64,
                ..*old(self)
            }),
            old(self).total_minted == u64::MAX ==> done == Err::<(), NFTError>(NFTError::Overflow)
                && *final(self) == *old(self),
    {
        match self.total_minted.checked_add(1) {
            Some(total) => {
                self.total_minted = total;
                Ok(())
            },
            None => Err(NFTError::Overflow),
        }
    }

    /// The bytes of the layout that holds this collection, where it fits.
    pub fn encode(&self) -> (image: Result<Vec<u8>, ProgramError>)
        ensures
            match image {
                Ok(bytes) => self@.fits() && bytes@ == self@.image(),
                Err(e) => !self@.fits() && e == ProgramError::RecordTooLarge,
            },
    {
        let mut out: Vec<u8> = Vec::new();
        put_key(&mut out, &self.authority);
        if !put_text(&mut out, self.name.as_str()) {
            return Err(ProgramError::RecordTooLarge);
        }
        if !put_text(&mut out, self.symbol.as_str()) {
            return Err(ProgramError::RecordTooLarge);
        }
        if !put_text(&mut out, self.uri.as_str()) {
            return Err(ProgramError::RecordTooLarge);
        }
        out.push(self.royalty_percentage);
        put_bool(&mut out, self.is_mutable);
        put_u64(&mut out, self.total_minted);
        assert(out@ =~= self@.packed());
        if out.len() > COLLECTION_ACCOUNT_SIZE {
            return Err(ProgramError::RecordTooLarge);
        }
        out.resize(COLLECTION_ACCOUNT_SIZE, 0u8);
        assert(out@ =~= self@.image());
        Ok(out)
    }

    /// The collection that the data of an account holds.
    pub fn decode(data: &[u8]) -> (record: Result<CollectionAccount, ProgramError>)
        ensures
            match record {
                Ok(c) => CollectionData::decode(data@) == Some(c@),
                Err(e) => CollectionData::decode(data@) is None && e == ProgramError::InvalidRecord,
            },
    {
        proof {
            reveal(CollectionData::parse);
        }
        if data.len() < COLLECTION_ACCOUNT_SIZE {
            return Err(ProgramError::InvalidRecord);
        }
        let layout = slice_subrange(data, 0, COLLECTION_ACCOUNT_SIZE);
        assert(layout@ =~= data@.take(COLLECTION_ACCOUNT_SIZE as int));
        assert(layout@.skip(0) =~= layout@);
        let (authority, at) = match read_key(layout, 0) {
            Some(pair) => pair,
            None => { return Err(ProgramError::InvalidRecord); },
        };
        let (name, at) = match read_text(layout, at) {
            Some(pair) => pair,
            None => { return Err(ProgramError::InvalidRecord); },
        };
        let (symbol, at) = match read_text(layout, at) {
            Some(pair) => pair,
            None => { return Err(ProgramError::InvalidRecord); },
        };
        let (uri, at) = match read_text(layout, at) {
            Some(pair) => pair,
            None => { return Err(ProgramError::InvalidRecord); },
        };
        let (royalty_percentage, at) = match read_u8(layout, at) {
            Some(pair) => pair,
            None => { return Err(ProgramError::InvalidRecord); },
        };
        let (is_mutable, at) = match read_bool(layout, at) {
            Some(pair) => pair,
            None => { return Err(ProgramError::InvalidRecord); },
        };
        let (total_minted, at) = match read_u64(layout, at) {
            Some(pair) => pair,
            None => { return Err(ProgramError::InvalidRecord); },
        };
        Ok(
            CollectionAccount {
                authority,
                name,
                symbol,
                uri,
                royalty_percentage,
                is_mutable,
                total_minted,
            },
        )
    }
}


/// One minted asset: who owns it, the collection it belongs to, where its
/// metadata is found, and when it was made and last changed.
#[derive(Debug)]
pub struct NFTAccount {
    /// The address that may transfer, change and burn the asset.
    pub owner: Pubkey,
    /// The address of the collection that the asset was minted into.
    pub collection: Pubkey,
    /// Where the asset's metadata is found.
    pub metadata_uri: String,
    /// Whether the asset has been minted.
    pub is_minted: bool,
    /// The number of the asset within its collection, which is also a seed of
    /// the asset's address.
    pub serial_number: u64,
    /// The ledger time at which the asset was minted.
    pub created_at: i64,
    /// The ledger time of the last change.
    pub updated_at: i64,
}

/// What an asset record is in contracts.
#[verifier::ext_equal]
pub struct NFTData {
    pub owner: Seq<u8>,
    pub collection: Seq<u8>,
    pub metadata_uri: Seq<char>,
    pub is_minted: bool,
    pub serial_number: u64,
    pub created_at: i64,
    pub updated_at: i64,
}

impl View for NFTAccount {
    type V = NFTData;

    open spec fn view(&self) -> NFTData {
        NFTData {
            owner: self.owner@,
            collection: self.collection@,
            metadata_uri: self.metadata_uri@,
            is_minted: self.is_minted,
            serial_number: self.serial_number,
            created_at: self.created_at,
            updated_at: self.updated_at,
        }
    }
}

impl NFTData {
    /// The fields one after another.
    pub open spec fn packed(self) -> Seq<u8> {
        self.owner + self.collection + text_bytes(self.metadata_uri) + seq![
            bool_byte(self.is_minted),
        ] + u64_le(self.serial_number) + i64_le(self.created_at) + i64_le(self.updated_at)
    }

    /// Whether the record can be written down: the addresses are addresses,
    /// and the length of the text fits its prefix.
    pub open spec fn writable(self) -> bool {
        &&& self.owner.len() == 32
        &&& self.collection.len() == 32
        &&& text_fits(self.metadata_uri)
    }

    /// Whether the record can be written down in the layout.
    pub open spec fn fits(self) -> bool {
        self.writable() && self.packed().len() <= NFT_ACCOUNT_SIZE
    }

    /// The bytes of the layout that holds the record.
    pub open spec fn image(self) -> Seq<u8> {
        self.packed() + zeros(NFT_ACCOUNT_SIZE - self.packed().len())
    }

    /// The record whose fields open `bytes`, if there is one.
    #[verifier::opaque]
    pub open spec fn parse(bytes: Seq<u8>) -> Option<NFTData> {
        match take_key(bytes) {
            None => None,
            Some((owner, b1)) => match take_key(b1) {
                None => None,
                Some((collection, b2)) => match take_text(b2) {
                    None => None,
                    Some((metadata_uri, b3)) => match take_bool(b3) {
                        None => None,
                        Some((is_minted, b4)) => match take_u64(b4) {
                            None => None,
                            Some((serial_number, b5)) => match take_i64(b5) {
                                None => None,
                                Some((created_at, b6)) => match take_i64(b6) {
                                    None => None,
                                    Some((updated_at, b7)) => Some(
                                        NFTData {
                                            owner,
                                            collection,
                                            metadata_uri,
                                            is_minted,
                                            serial_number,
                                            created_at,
                                            updated_at,
                                        },
                                    ),
                                },
                            },
                        },
                    },
                },
            },
        }
    }

    /// The record that the data of an account holds: the one whose fields
    /// open the layout. Data shorter than the layout holds none.
    pub open spec fn decode(data: Seq<u8>) -> Option<NFTData> {
        if data.len() < NFT_ACCOUNT_SIZE {
            None
        } else {
            Self::parse(data.take(NFT_ACCOUNT_SIZE as int))
        }
    }
}

/// The fields of an asset, followed by `tail`, grouped from the right.
pub open spec fn nft_chain(n: NFTData, tail: Seq<u8>) -> Seq<u8> {
    n.owner + (n.collection + (text_bytes(n.metadata_uri) + (seq![bool_byte(n.is_minted)] + (
    u64_le(n.serial_number) + (i64_le(n.created_at) + (i64_le(n.updated_at) + tail))))))
}

proof fn lemma_nft_chain(n: NFTData, tail: Seq<u8>)
    ensures
        n.packed() + tail == nft_chain(n, tail),
{
    assert(n.packed() + tail =~= nft_chain(n, tail));
}

/// Reading back the fields of an asset gives the asset, whatever follows
/// the fields.
pub proof fn lemma_nft_round_trip(n: NFTData, tail: Seq<u8>)
    requires
        n.writable(),
    ensures
        NFTData::parse(n.packed() + tail) == Some(n),
{
    reveal(NFTData::parse);
    let t6 = i64_le(n.updated_at) + tail;
    let t5 = i64_le(n.created_at) + t6;
    let t4 = u64_le(n.serial_number) + t5;
    let t3 = seq![bool_byte(n.is_minted)] + t4;
    let t2 = text_bytes(n.metadata_uri) + t3;
    let t1 = n.collection + t2;
    lemma_nft_chain(n, tail);
    lemma_take_key(n.owner, t1);
    lemma_take_key(n.collection, t2);
    lemma_take_text(n.metadata_uri, t3);
    lemma_take_bool(n.is_minted, t4);
    lemma_take_u64(n.serial_number, t5);
    lemma_take_i64(n.created_at, t6);
    lemma_take_i64(n.updated_at, tail);
}

/// What reading an asset leaves of `bytes`.
pub open spec fn nft_rest(bytes: Seq<u8>) -> Seq<u8> {
    let b1 = rest_of(take_key(bytes));
    let b2 = rest_of(take_key(b1));
    let b3 = rest_of(take_text(b2));
    let b4 = rest_of(take_bool(b3));
    let b5 = rest_of(take_u64(b4));
    let b6 = rest_of(take_i64(b5));
    rest_of(take_i64(b6))
}

/// The bytes from which an asset was read are the fields of that asset,
/// followed by what the reading left.
pub proof fn lemma_nft_parse_sound(bytes: Seq<u8>)
    ensures
        NFTData::parse(bytes) matches Some(n) ==> n.writable() && bytes == n.packed() + nft_rest(
            bytes,
        ),
{
    reveal(NFTData::parse);
    if let Some(n) = NFTData::parse(bytes) {
        let b1 = rest_of(take_key(bytes));
        let b2 = rest_of(take_key(b1));
        let b3 = rest_of(take_text(b2));
        let b4 = rest_of(take_bool(b3));
        let b5 = rest_of(take_u64(b4));
        let b6 = rest_of(take_i64(b5));
        let b7 = rest_of(take_i64(b6));
        lemma_taken_key(bytes);
        lemma_taken_key(b1);
        lemma_taken_text(b2);
        lemma_taken_bool(b3);
        lemma_taken_u64(b4);
        lemma_taken_i64(b5);
        lemma_taken_i64(b6);
        lemma_nft_chain(n, b7);
    }
}

/// The layout that holds an asset reads back as that asset.
pub proof fn lemma_nft_decode_image(n: NFTData)
    requires
        n.fits(),
    ensures
        n.image().len() == NFT_ACCOUNT_SIZE,
        NFTData::decode(n.image()) == Some(n),
{
    lemma_nft_round_trip(n, zeros(NFT_ACCOUNT_SIZE - n.packed().len()));
    assert(n.image().take(NFT_ACCOUNT_SIZE as int) =~= n.image());
}

/// An asset that was read from the data of an account fits the layout.
pub proof fn lemma_nft_decoded_fits(data: Seq<u8>)
    ensures
        NFTData::decode(data) matches Some(n) ==> n.fits(),
{
    if data.len() >= NFT_ACCOUNT_SIZE {
        let layout = data.take(NFT_ACCOUNT_SIZE as int);
        lemma_nft_parse_sound(layout);
        if let Some(n) = NFTData::parse(layout) {
            assert(layout.len() == n.packed().len() + nft_rest(layout).len());
        }
    }
}

impl Clone for NFTAccount {
    fn clone(&self) -> (copy: NFTAccount)
        ensures
            copy == *self,
    {
        NFTAccount {
            owner: self.owner,
            collection: self.collection,
            metadata_uri: self.metadata_uri.clone(),
            is_minted: self.is_minted,
            serial_number: self.serial_number,
            created_at: self.created_at,
            updated_at: self.updated_at,
        }
    }
}

impl NFTAccount {
    /// A freshly minted asset: made and last changed at `timestamp`.
    pub fn new(
        owner: Pubkey,
        collection: Pubkey,
        metadata_uri: String,
        serial_number: u64,
        timestamp: i64,
    ) -> (nft: NFTAccount)
        ensures
            nft == (NFTAccount {
                owner,
                collection,
                metadata_uri,
                is_minted: true,
                serial_number,
                created_at: timestamp,
                updated_at: timestamp,
            }),
    {
        NFTAccount {
            owner,
            collection,
            metadata_uri,
            is_minted: true,
            serial_number,
            created_at: timestamp,
            updated_at: timestamp,
        }
    }

    /// Hands the asset to `new_owner` at the ledger time `timestamp`. Nothing
    /// but the owner and the time of the last change is touched.
    pub fn transfer(&mut self, new_owner: Pubkey, timestamp: i64)
        ensures
            *final(self) == (NFTAccount { owner: new_owner, updated_at: timestamp, ..*old(self) }),
    {
        self.owner = new_owner;
        self.updated_at = timestamp;
    }

    /// Points the asset to new metadata at the ledger time `timestamp`.
    /// Nothing but the URI and the time of the last change is touched.
    pub fn update_metadata(&mut self, new_metadata_uri: String, timestamp: i64)
        ensures
            *final(self) == (NFTAccount {
                metadata_uri: new_metadata_uri,
                updated_at: timestamp,
                ..*old(self)
            }),
    {
        self.metadata_uri = new_metadata_uri;
        self.updated_at = timestamp;
    }

    /// The bytes of the layout that holds this asset, where it fits.
    pub fn encode(&self) -> (image: Result<Vec<u8>, ProgramError>)
        ensures
            match image {
                Ok(bytes) => self@.fits() && bytes@ == self@.image(),
                Err(e) => !self@.fits() && e == ProgramError::RecordTooLarge,
            },
    {
        let mut out: Vec<u8> = Vec::new();
        put_key(&mut out, &self.owner);
        put_key(&mut out, &self.collection);
        if !put_text(&mut out, self.metadata_uri.as_str()) {
            return Err(ProgramError::RecordTooLarge);
        }
        put_bool(&mut out, self.is_minted);
        put_u64(&mut out, self.serial_number);
        put_i64(&mut out, self.created_at);
        put_i64(&mut out, self.updated_at);
        assert(out@ =~= self@.packed());
        if out.len() > NFT_ACCOUNT_SIZE {
            return Err(ProgramError::RecordTooLarge);
        }
        out.resize(NFT_ACCOUNT_SIZE, 0u8);
        assert(out@ =~= self@.image());
        Ok(out)
    }

    /// The asset that the data of an account holds.
    pub fn decode(data: &[u8]) -> (record: Result<NFTAccount, ProgramError>)
        ensures
            match record {
                Ok(n) => NFTData::decode(data@) == Some(n@),
                Err(e) => NFTData::decode(data@) is None && e == ProgramError::InvalidRecord,
            },
    {
        proof {
            reveal(NFTData::parse);
        }
        if data.len() < NFT_ACCOUNT_SIZE {
            return Err(ProgramError::InvalidRecord);
        }
        let layout = slice_subrange(data, 0, NFT_ACCOUNT_SIZE);
        assert(layout@ =~= data@.take(NFT_ACCOUNT_SIZE as int));
        assert(layout@.skip(0) =~= layout@);
        let (owner, at) = match read_key(layout, 0) {
            Some(pair) => pair,
            None => { return Err(ProgramError::InvalidRecord); },
        };
        let (collection, at) = match read_key(layout, at) {
            Some(pair) => pair,
            None => { return Err(ProgramError::InvalidRecord); },
        };
        let (metadata_uri, at) = match read_text(layout, at) {
            Some(pair) => pair,
            None => { return Err(ProgramError::InvalidRecord); },
        };
        let (is_minted, at) = match read_bool(layout, at) {
            Some(pair) => pair,
            None => { return Err(ProgramError::InvalidRecord); },
        };
        let (serial_number, at) = match read_u64(layout, at) {
            Some(pair) => pair,
            None => { return Err(ProgramError::InvalidRecord); },
        };
        let (created_at, at) = match read_i64(layout, at) {
            Some(pair) => pair,
            None => { return Err(ProgramError::InvalidRecord); },
        };
        let (updated_at, at) = match read_i64(layout, at) {
            Some(pair) => pair,
            None => { return Err(ProgramError::InvalidRecord); },
        };
        Ok(
            NFTAccount {
                owner,
                collection,
                metadata_uri,
                is_minted,
                serial_number,
                created_at,
                updated_at,
            },
        )
    }
}


/// Bytes that are put together are all zero exactly where both parts are.
pub proof fn lemma_all_zero_concat(a: Seq<u8>, b: Seq<u8>)
    ensures
        all_zero(a + b) <==> all_zero(a) && all_zero(b),
{
    let s = a + b;
    if all_zero(s) {
        assert forall|i: int| 0 <= i < a.len() implies a[i] == 0 by {
            assert(s[i] == a[i]);
        }
        assert forall|i: int| 0 <= i < b.len() implies b[i] == 0 by {
            assert(s[a.len() + i] == b[i]);
        }
    }
}

/// The bytes of a text that is not empty are not all zero: the length that
/// opens them is not.
pub proof fn lemma_text_not_zero(text: Seq<char>)
    requires
        text_fits(text),
        text.len() > 0,
    ensures
        !all_zero(text_bytes(text)),
{
    let body = encode_utf8(text);
    assert(body.len() > 0) by {
        assert(body == encode_scalar(text[0] as u32) + encode_utf8(text.drop_first()));
    }
    let n = body.len() as u32;
    let prefix = u32_le(n);
    lemma_u32_round_trip(n, Seq::empty());
    assert(prefix + Seq::<u8>::empty() =~= prefix);
    if all_zero(text_bytes(text)) {
        lemma_all_zero_concat(prefix, body);
        assert(prefix[0] == 0 && prefix[1] == 0 && prefix[2] == 0 && prefix[3] == 0);
        assert(u32_from_le(prefix) == 0);
    }
}

impl CollectionData {
    /// Whether the record is the one that zeros spell: the address of zeros
    /// as authority, empty texts, no royalty, no leave to change, and
    /// nothing minted.
    pub open spec fn blank(self) -> bool {
        &&& all_zero(self.authority)
        &&& self.name.len() == 0
        &&& self.symbol.len() == 0
        &&& self.uri.len() == 0
        &&& self.royalty_percentage == 0
        &&& !self.is_mutable
        &&& self.total_minted == 0
    }
}

/// The layout of a collection is all zero only for the blank collection.
pub proof fn lemma_collection_image_not_zero(c: CollectionData)
    requires
        c.fits(),
        !c.blank(),
    ensures
        !all_zero(c.image()),
{
    let pad = zeros(COLLECTION_ACCOUNT_SIZE - c.packed().len());
    if all_zero(c.image()) {
        lemma_all_zero_concat(c.packed(), pad);
        let empty = Seq::<u8>::empty();
        lemma_collection_chain(c, empty);
        assert(c.packed() + empty =~= c.packed());
        let t6 = u64_le(c.total_minted) + empty;
        let t5 = seq![bool_byte(c.is_mutable)] + t6;
        let t4 = seq![c.royalty_percentage] + t5;
        let t3 = text_bytes(c.uri) + t4;
        let t2 = text_bytes(c.symbol) + t3;
        let t1 = text_bytes(c.name) + t2;
        lemma_all_zero_concat(c.authority, t1);
        lemma_all_zero_concat(text_bytes(c.name), t2);
        lemma_all_zero_concat(text_bytes(c.symbol), t3);
        lemma_all_zero_concat(text_bytes(c.uri), t4);
        lemma_all_zero_concat(seq![c.royalty_percentage], t5);
        lemma_all_zero_concat(seq![bool_byte(c.is_mutable)], t6);
        lemma_all_zero_concat(u64_le(c.total_minted), empty);
        if c.name.len() > 0 {
            lemma_text_not_zero(c.name);
        }
        if c.symbol.len() > 0 {
            lemma_text_not_zero(c.symbol);
        }
        if c.uri.len() > 0 {
            lemma_text_not_zero(c.uri);
        }
        assert(seq![c.royalty_percentage][0] == 0);
        assert(seq![bool_byte(c.is_mutable)][0] == 0);
        let total = u64_le(c.total_minted);
        lemma_u64_round_trip(c.total_minted, empty);
        assert(total + empty =~= total);
        assert(total[0] == 0 && total[1] == 0 && total[2] == 0 && total[3] == 0);
        assert(total[4] == 0 && total[5] == 0 && total[6] == 0 && total[7] == 0);
        assert(total.skip(4)[0] == total[4]);
        assert(total.skip(4)[1] == total[5]);
        assert(total.skip(4)[2] == total[6]);
        assert(total.skip(4)[3] == total[7]);
        assert(u64_from_le(total) == 0);
    }
}

/// The layout of an asset that has been minted is never all zero.
pub proof fn lemma_nft_image_not_zero(n: NFTData)
    requires
        n.fits(),
        n.is_minted,
    ensures
        !all_zero(n.image()),
{
    let pad = zeros(NFT_ACCOUNT_SIZE - n.packed().len());
    if all_zero(n.image()) {
        lemma_all_zero_concat(n.packed(), pad);
        let empty = Seq::<u8>::empty();
        lemma_nft_chain(n, empty);
        assert(n.packed() + empty =~= n.packed());
        let t6 = i64_le(n.updated_at) + empty;
        let t5 = i64_le(n.created_at) + t6;
        let t4 = u64_le(n.serial_number) + t5;
        let t3 = seq![bool_byte(n.is_minted)] + t4;
        let t2 = text_bytes(n.metadata_uri) + t3;
        let t1 = n.collection + t2;
        lemma_all_zero_concat(n.owner, t1);
        lemma_all_zero_concat(n.collection, t2);
        lemma_all_zero_concat(text_bytes(n.metadata_uri), t3);
        lemma_all_zero_concat(seq![bool_byte(n.is_minted)], t4);
        assert(seq![bool_byte(n.is_minted)][0] == 0);
    }
}

/// What is written over the start of an account's data is what the account
/// then holds, as far as a record goes.
pub proof fn lemma_take_of_stored(image: Seq<u8>, tail: Seq<u8>)
    ensures
        (image + tail).take(image.len() as int) == image,
{
    assert((image + tail).take(image.len() as int) =~= image);
}

} // verus!
