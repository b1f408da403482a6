//! The requests that the registry takes, and the bytes in which they arrive.
//!
//! A request is one byte that says which operation is asked for, followed by
//! the fields of that operation, and nothing after them.

use vstd::prelude::*;
use crate::codec::{
    bool_byte, lemma_take_bool, lemma_take_key, lemma_take_text, lemma_take_u64, lemma_take_u8,
    lemma_taken_bool, lemma_taken_key, lemma_taken_text, lemma_taken_u64, lemma_taken_u8,
    put_bool, put_key, put_text, put_u64, read_bool, read_key, read_text, read_u64, read_u8,
    rest_of, take_bool, take_key, take_text, take_u64, take_u8, text_bytes, text_fits, u64_le,
};
use crate::error::NFTError;
use crate::pubkey::Pubkey;

verus! {

/// One request to the registry. The accounts that each operation takes, in
/// order, are listed with it.
#[derive(Debug)]
pub enum NFTInstruction {
    /// Creates a collection.
    ///
    /// 0. the collection's account, at its derived address (writable)
    /// 1. the authority (signer)
    /// 2. the service that creates accounts
    InitializeCollection {
        name: String,
        symbol: String,
        uri: String,
        royalty_percentage: u8,
        is_mutable: bool,
    },
    /// Mints an asset into a collection.
    ///
    /// 0. the collection's account
    /// 1. the asset's account, at its derived address (writable)
    /// 2. the collection's authority (signer)
    /// 3. the service that creates accounts
    MintNFT { metadata_uri: String, serial_number: u64 },
    /// Hands an asset to a new owner.
    ///
    /// 0. the asset's account (writable)
    /// 1. the current owner (signer)
    TransferNFT { new_owner: Pubkey },
    /// Destroys an asset and pays the balance of its account to the owner.
    ///
    /// 0. the asset's account (writable)
    /// 1. the owner (signer)
    BurnNFT,
    /// Points an asset to new metadata.
    ///
    /// 0. the asset's account (writable)
    /// 1. the owner (signer)
    /// 2. the account of the asset's collection
    UpdateNFTMetadata { new_metadata_uri: String },
    /// Points a collection to new metadata.
    ///
    /// 0. the collection's account (writable)
    /// 1. the authority (signer)
    UpdateCollectionMetadata { new_uri: String },
}

/// What a request is in contracts.
#[verifier::ext_equal]
pub enum InstructionData {
    InitializeCollection {
        name: Seq<char>,
        symbol: Seq<char>,
        uri: Seq<char>,
        royalty_percentage: u8,
        is_mutable: bool,
    },
    MintNFT { metadata_uri: Seq<char>, serial_number: u64 },
    TransferNFT { new_owner: Seq<u8> },
    BurnNFT,
    UpdateNFTMetadata { new_metadata_uri: Seq<char> },
    UpdateCollectionMetadata { new_uri: Seq<char> },
}

impl View for NFTInstruction {
    type V = InstructionData;

    open spec fn view(&self) -> InstructionData {
        match *self {
            NFTInstruction::InitializeCollection {
                name,
                symbol,
                uri,
                royalty_percentage,
                is_mutable,
            } => InstructionData::InitializeCollection {
                name: name@,
                symbol: symbol@,
                uri: uri@,
                royalty_percentage,
                is_mutable,
            },
            NFTInstruction::MintNFT { metadata_uri, serial_number } => InstructionData::MintNFT {
                metadata_uri: metadata_uri@,
                serial_number,
            },
            NFTInstruction::TransferNFT { new_owner } => InstructionData::TransferNFT {
                new_owner: new_owner@,
            },
            NFTInstruction::BurnNFT => InstructionData::BurnNFT,
            NFTInstruction::UpdateNFTMetadata {
                new_metadata_uri,
            } => InstructionData::UpdateNFTMetadata { new_metadata_uri: new_metadata_uri@ },
            NFTInstruction::UpdateCollectionMetadata {
                new_uri,
            } => InstructionData::UpdateCollectionMetadata { new_uri: new_uri@ },
        }
    }
}

impl InstructionData {
    /// The byte that says which operation is asked for.
    pub open spec fn tag(self) -> u8 {
        match self {
            InstructionData::InitializeCollection { .. } => 0,
            InstructionData::MintNFT { .. } => 1,
            InstructionData::TransferNFT { .. } => 2,
            InstructionData::BurnNFT => 3,
            InstructionData::UpdateNFTMetadata { .. } => 4,
            InstructionData::UpdateCollectionMetadata { .. } => 5,
        }
    }

    /// The fields of the operation, one after another.
    pub open spec fn fields(self) -> Seq<u8> {
        match self {
            InstructionData::InitializeCollection {
                name,
                symbol,
                uri,
                royalty_percentage,
                is_mutable,
            } => text_bytes(name) + (text_bytes(symbol) + (text_bytes(uri) + (seq![
                royalty_percentage,
            ] + seq![bool_byte(is_mutable)]))),
            InstructionData::MintNFT { metadata_uri, serial_number } => text_bytes(metadata_uri)
                + u64_le(serial_number),
            InstructionData::TransferNFT { new_owner } => new_owner,
            InstructionData::BurnNFT => Seq::empty(),
            InstructionData::UpdateNFTMetadata { new_metadata_uri } => text_bytes(
                new_metadata_uri,
            ),
            InstructionData::UpdateCollectionMetadata { new_uri } => text_bytes(new_uri),
        }
    }

    /// The bytes of the request.
    pub open spec fn packed(self) -> Seq<u8> {
        seq![self.tag()] + self.fields()
    }

    /// Whether the request can be written down: its address is one, and the
    /// length of each text fits its prefix.
    pub open spec fn writable(self) -> bool {
        match self {
            InstructionData::InitializeCollection { name, symbol, uri, .. } => text_fits(name)
                && text_fits(symbol) && text_fits(uri),
            InstructionData::MintNFT { metadata_uri, .. } => text_fits(metadata_uri),
            InstructionData::TransferNFT { new_owner } => new_owner.len() == 32,
            InstructionData::BurnNFT => true,
            InstructionData::UpdateNFTMetadata { new_metadata_uri } => text_fits(new_metadata_uri),
            InstructionData::UpdateCollectionMetadata { new_uri } => text_fits(new_uri),
        }
    }

    /// The request that `bytes` are, if they are one: the operation that the
    /// first byte names, its fields, and nothing more.
    pub open spec fn parse(bytes: Seq<u8>) -> Option<InstructionData> {
        match take_u8(bytes) {
            None => None,
            Some((tag, body)) => if tag == 0 {
                Self::parse_initialize_collection(body)
            } else if tag == 1 {
                match take_text(body) {
                    None => None,
                    Some((metadata_uri, b1)) => match take_u64(b1) {
                        None => None,
                        Some((serial_number, rest)) => Self::finished(
                            InstructionData::MintNFT { metadata_uri, serial_number },
                            rest,
                        ),
                    },
                }
            } else if tag == 2 {
                match take_key(body) {
                    None => None,
                    Some((new_owner, rest)) => Self::finished(
                        InstructionData::TransferNFT { new_owner },
                        rest,
                    ),
                }
            } else if tag == 3 {
                Self::finished(InstructionData::BurnNFT, body)
            } else if tag == 4 {
                match take_text(body) {
                    None => None,
                    Some((new_metadata_uri, rest)) => Self::finished(
                        InstructionData::UpdateNFTMetadata { new_metadata_uri },
                        rest,
                    ),
                }
            } else if tag == 5 {
                match take_text(body) {
                    None => None,
                    Some((new_uri, rest)) => Self::finished(
                        InstructionData::UpdateCollectionMetadata { new_uri },
                        rest,
                    ),
                }
            } else {
                None
            },
        }
    }

    /// The request to create a collection whose fields `body` are.
    pub open spec fn parse_initialize_collection(body: Seq<u8>) -> Option<InstructionData> {
        match take_text(body) {
            None => None,
            Some((name, b1)) => match take_text(b1) {
                None => None,
                Some((symbol, b2)) => match take_text(b2) {
                    None => None,
                    Some((uri, b3)) => match take_u8(b3) {
                        None => None,
                        Some((royalty_percentage, b4)) => match take_bool(b4) {
                            None => None,
                            Some((is_mutable, rest)) => Self::finished(
                                InstructionData::InitializeCollection {
                                    name,
                                    symbol,
                                    uri,
                                    royalty_percentage,
                                    is_mutable,
                                },
                                rest,
                            ),
                        },
                    },
                },
            },
        }
    }

    /// `request`, unless bytes are left over after it.
    pub open spec fn finished(request: InstructionData, rest: Seq<u8>) -> Option<
        InstructionData,
    > {
        if rest.len() == 0 {
            Some(request)
        } else {
            None
        }
    }
}

/// The bytes of a request read back as that request.
pub proof fn law_instruction_round_trip(request: InstructionData)
    requires
        request.writable(),
    ensures
        InstructionData::parse(request.packed()) == Some(request),
{
    let none = Seq::<u8>::empty();
    lemma_take_u8(request.tag(), request.fields());
    match request {
        InstructionData::InitializeCollection {
            name,
            symbol,
            uri,
            royalty_percentage,
            is_mutable,
        } => {
            let t4 = seq![bool_byte(is_mutable)];
            let t3 = seq![royalty_percentage] + t4;
            let t2 = text_bytes(uri) + t3;
            let t1 = text_bytes(symbol) + t2;
            lemma_take_text(name, t1);
            lemma_take_text(symbol, t2);
            lemma_take_text(uri, t3);
            lemma_take_u8(royalty_percentage, t4);
            lemma_take_bool(is_mutable, none);
            assert(t4 =~= t4 + none);
        },
        InstructionData::MintNFT { metadata_uri, serial_number } => {
            lemma_take_text(metadata_uri, u64_le(serial_number));
            lemma_take_u64(serial_number, none);
            assert(u64_le(serial_number) =~= u64_le(serial_number) + none);
        },
        InstructionData::TransferNFT { new_owner } => {
            lemma_take_key(new_owner, none);
            assert(new_owner =~= new_owner + none);
        },
        InstructionData::BurnNFT => {},
        InstructionData::UpdateNFTMetadata { new_metadata_uri } => {
            lemma_take_text(new_metadata_uri, none);
            assert(text_bytes(new_metadata_uri) =~= text_bytes(new_metadata_uri) + none);
        },
        InstructionData::UpdateCollectionMetadata { new_uri } => {
            lemma_take_text(new_uri, none);
            assert(text_bytes(new_uri) =~= text_bytes(new_uri) + none);
        },
    }
}


/// Bytes that read as a request are the bytes of that request.
pub proof fn law_instruction_parse_sound(bytes: Seq<u8>)
    ensures
        InstructionData::parse(bytes) matches Some(request) ==> request.writable() && bytes
            == request.packed(),
{
    if let Some(request) = InstructionData::parse(bytes) {
        lemma_taken_u8(bytes);
        let body = rest_of(take_u8(bytes));
        match request {
            InstructionData::InitializeCollection { .. } => {
                let b1 = rest_of(take_text(body));
                let b2 = rest_of(take_text(b1));
                let b3 = rest_of(take_text(b2));
                let b4 = rest_of(take_u8(b3));
                lemma_taken_text(body);
                lemma_taken_text(b1);
                lemma_taken_text(b2);
                lemma_taken_u8(b3);
                lemma_taken_bool(b4);
                assert(b4 =~= seq![b4[0]]);
            },
            InstructionData::MintNFT { .. } => {
                let b1 = rest_of(take_text(body));
                lemma_taken_text(body);
                lemma_taken_u64(b1);
                assert(b1 =~= b1 + rest_of(take_u64(b1)));
            },
            InstructionData::TransferNFT { .. } => {
                lemma_taken_key(body);
                assert(body =~= body + rest_of(take_key(body)));
            },
            InstructionData::BurnNFT => {
                assert(body =~= Seq::<u8>::empty());
            },
            InstructionData::UpdateNFTMetadata { .. } => {
                lemma_taken_text(body);
                assert(body =~= body + rest_of(take_text(body)));
            },
            InstructionData::UpdateCollectionMetadata { .. } => {
                lemma_taken_text(body);
                assert(body =~= body + rest_of(take_text(body)));
            },
        }
    }
}

impl NFTInstruction {
    /// The bytes of this request; none where a text is too long for its
    /// length to be written down.
    pub fn pack(&self) -> (bytes: Option<Vec<u8>>)
        ensures
            bytes is Some == self@.writable(),
            bytes matches Some(b) ==> b@ == self@.packed(),
    {
        let mut out: Vec<u8> = Vec::new();
        match self {
            NFTInstruction::InitializeCollection {
                name,
                symbol,
                uri,
                royalty_percentage,
                is_mutable,
            } => {
                out.push(0u8);
                if !put_text(&mut out, name.as_str()) {
                    return None;
                }
                if !put_text(&mut out, symbol.as_str()) {
                    return None;
                }
                if !put_text(&mut out, uri.as_str()) {
                    return None;
                }
                out.push(*royalty_percentage);
                put_bool(&mut out, *is_mutable);
            },
            NFTInstruction::MintNFT { metadata_uri, serial_number } => {
                out.push(1u8);
                if !put_text(&mut out, metadata_uri.as_str()) {
                    return None;
                }
                put_u64(&mut out, *serial_number);
            },
            NFTInstruction::TransferNFT { new_owner } => {
                out.push(2u8);
                put_key(&mut out, new_owner);
            },
            NFTInstruction::BurnNFT => {
                out.push(3u8);
            },
            NFTInstruction::UpdateNFTMetadata { new_metadata_uri } => {
                out.push(4u8);
                if !put_text(&mut out, new_metadata_uri.as_str()) {
                    return None;
                }
            },
            NFTInstruction::UpdateCollectionMetadata { new_uri } => {
                out.push(5u8);
                if !put_text(&mut out, new_uri.as_str()) {
                    return None;
                }
            },
        }
        assert(out@ =~= self@.packed());
        Some(out)
    }

    /// The request that `data` are. Bytes that are no request, or a request
    /// with more bytes after it, are refused.
    pub fn unpack(data: &[u8]) -> (request: Result<NFTInstruction, NFTError>)
        ensures
            match request {
                Ok(r) => InstructionData::parse(data@) == Some(r@),
                Err(e) => InstructionData::parse(data@) is None && e
                    == NFTError::InvalidInstruction,
            },
    {
        assert(data@.skip(0) =~= data@);
        let (tag, at) = match read_u8(data, 0) {
            Some(pair) => pair,
            None => { return Err(NFTError::InvalidInstruction); },
        };
        let (request, end) = if tag == 0 {
            let (name, at) = match read_text(data, at) {
                Some(pair) => pair,
                None => { return Err(NFTError::InvalidInstruction); },
            };
            let (symbol, at) = match read_text(data, at) {
                Some(pair) => pair,
                None => { return Err(NFTError::InvalidInstruction); },
            };
            let (uri, at) = match read_text(data, at) {
                Some(pair) => pair,
                None => { return Err(NFTError::InvalidInstruction); },
            };
            let (royalty_percentage, at) = match read_u8(data, at) {
                Some(pair) => pair,
                None => { return Err(NFTError::InvalidInstruction); },
            };
            let (is_mutable, at) = match read_bool(data, at) {
                Some(pair) => pair,
                None => { return Err(NFTError::InvalidInstruction); },
            };
            (
                NFTInstruction::InitializeCollection {
                    name,
                    symbol,
                    uri,
                    royalty_percentage,
                    is_mutable,
                },
                at,
            )
        } else if tag == 1 {
            let (metadata_uri, at) = match read_text(data, at) {
                Some(pair) => pair,
                None => { return Err(NFTError::InvalidInstruction); },
            };
            let (serial_number, at) = match read_u64(data, at) {
                Some(pair) => pair,
                None => { return Err(NFTError::InvalidInstruction); },
            };
            (NFTInstruction::MintNFT { metadata_uri, serial_number }, at)
        } else if tag == 2 {
            let (new_owner, at) = match read_key(data, at) {
                Some(pair) => pair,
                None => { return Err(NFTError::InvalidInstruction); },
            };
            (NFTInstruction::TransferNFT { new_owner }, at)
        } else if tag == 3 {
            (NFTInstruction::BurnNFT, at)
        } else if tag == 4 {
            let (new_metadata_uri, at) = match read_text(data, at) {
                Some(pair) => pair,
                None => { return Err(NFTError::InvalidInstruction); },
            };
            (NFTInstruction::UpdateNFTMetadata { new_metadata_uri }, at)
        } else if tag == 5 {
            let (new_uri, at) = match read_text(data, at) {
                Some(pair) => pair,
                None => { return Err(NFTError::InvalidInstruction); },
            };
            (NFTInstruction::UpdateCollectionMetadata { new_uri }, at)
        } else {
            return Err(NFTError::InvalidInstruction);
        };
        if end != data.len() {
            return Err(NFTError::InvalidInstruction);
        }
        Ok(request)
    }
}

} // verus!
