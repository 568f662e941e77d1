//! Addresses that can sign: what one is, and what a provider of them
//! offers.

pub mod dev;
pub mod prefill;
pub mod shelley;

use crate::util::bech::{bech32_decode_to_bytes, bech32_payload};
use crate::util::hexcode::{
    decode, encode, hex_bytes, hex_text, is_hex_text, lemma_hex_round_trip,
};
use crate::util::json::{json_pretty_object, json_text_field, pretty_object, text_field};
use crate::util::keys::ed25519_signature;
use vstd::prelude::*;
use vstd::string::StringSliceAdditionalSpecFns;

verus! {

/// An address with the keys that sign for it. The private key stays in
/// this value: nothing in the library writes it to the wire.
#[derive(Debug)]
pub struct AddressBundle {
    pub address: String,
    pub pubkey: [u8; 32],
    pub privkey: [u8; 32],
    pub address_raw: Vec<u8>,
}

/// An address bundle as mathematical values.
pub struct BundleView {
    pub address: Seq<char>,
    pub pubkey: Seq<u8>,
    pub privkey: Seq<u8>,
    pub address_raw: Seq<u8>,
}

impl View for AddressBundle {
    type V = BundleView;

    open spec fn view(&self) -> BundleView {
        BundleView {
            address: self.address@,
            pubkey: self.pubkey@,
            privkey: self.privkey@,
            address_raw: self.address_raw@,
        }
    }
}

impl Clone for AddressBundle {
    fn clone(&self) -> (copy: Self)
        ensures
            copy@ == self@,
    {
        AddressBundle {
            address: self.address.clone(),
            pubkey: self.pubkey,
            privkey: self.privkey,
            address_raw: self.address_raw.clone(),
        }
    }
}

/// The views of a list of bundles, in order.
pub open spec fn bundle_views(list: Seq<AddressBundle>) -> Seq<BundleView> {
    list.map_values(|b: AddressBundle| b@)
}

/// Why a provider could not do what was asked.
#[derive(Debug)]
pub enum ProviderError {
    /// The operating system gave no randomness for a new key.
    EntropyUnavailable,
    /// Anything else, in the provider's words.
    Other(String),
}

/// What a source of addresses offers. Making an address and signing are
/// required. Rotation and listing are optional: a provider without a pool
/// reports no addresses and hands out a fresh one each time.
pub trait AddressProvider: Sized {
    /// Makes a new address.
    fn new_address(&self) -> (made: Result<AddressBundle, ProviderError>)
        ensures
            made matches Ok(bundle) ==> self.makes(bundle@),
    ;
    /// Signs the UTF-8 bytes of `message` with the 32-byte private key.
    fn sign_message_raw(&self, privkey: &[u8; 32], message: &str) -> (signed: Result<
        [u8; 64],
        ProviderError,
    >)
        ensures
            self.always_signs() ==> signed is Ok,
            signed matches Ok(s) ==> s@ == ed25519_signature(privkey@, message.spec_bytes()),
    ;

    /// The position in the pool of the address that comes next.
    fn current_index(&self) -> (index: usize)
        default_ensures
            index == 0,
    { 0 }
    /// How many addresses the pool holds.
    fn total_addresses(&self) -> (total: usize)
        default_ensures
            total == 0,
    { 0 }
    /// The next address of the rotation: without a pool, a new address.
    fn next_address(&mut self) -> (next: Result<AddressBundle, ProviderError>)
        default_ensures
            *final(self) == *old(self), next matches Ok(bundle) ==> old(self).makes(bundle@),
    { self.new_address() }
    /// Every address of the pool.
    fn all_addresses(&self) -> (all: Result<Vec<AddressBundle>, ProviderError>)
        default_ensures
            (all matches Ok(list) && list@.len() == 0),
    {
        Ok(Vec::new())
    }

    /// What this provider's new addresses are like. A provider that says
    /// nothing of them leaves this as it is.
    open spec fn makes(&self, bundle: BundleView) -> bool {
        true
    }

    /// Whether this provider signs with every key and for every message. A
    /// provider that may fail to sign leaves this as it is.
    open spec fn always_signs(&self) -> bool {
        false
    }
}

/// Why a key record gives no bundle.
#[derive(Copy, Clone, Debug, PartialEq, Eq, Structural)]
pub enum KeyRecordError {
    /// The document is no JSON or lacks one of the three fields.
    Malformed,
    /// A key is not hexadecimal or not 32 bytes long.
    KeysUnreadable,
    /// The address is no Bech32 text.
    AddressUnreadable,
}

/// The bundle that the three fields of a key record stand for: the keys
/// from their hexadecimal text, the raw address from the Bech32 text. The
/// keys are looked at first.
pub open spec fn record_bundle(
    address: Seq<char>,
    pubkey_hex: Seq<char>,
    privkey_hex: Seq<char>,
) -> Result<BundleView, KeyRecordError> {
    if !(is_hex_text(pubkey_hex) && is_hex_text(privkey_hex) && hex_bytes(pubkey_hex).len() == 32
        && hex_bytes(privkey_hex).len() == 32) {
        Err(KeyRecordError::KeysUnreadable)
    } else {
        match bech32_payload(address) {
            Some(raw) => Ok(
                BundleView {
                    address,
                    pubkey: hex_bytes(pubkey_hex),
                    privkey: hex_bytes(privkey_hex),
                    address_raw: raw,
                },
            ),
            None => Err(KeyRecordError::AddressUnreadable),
        }
    }
}

/// The bundle that a key record stands for.
pub open spec fn document_bundle(document: Seq<char>) -> Result<BundleView, KeyRecordError> {
    match (
        json_text_field(document, "address"@),
        json_text_field(document, "pubkey_hex"@),
        json_text_field(document, "privkey_hex"@),
    ) {
        (Some(address), Some(pubkey_hex), Some(privkey_hex)) => record_bundle(
            address,
            pubkey_hex,
            privkey_hex,
        ),
        _ => Err(KeyRecordError::Malformed),
    }
}

/// The key record of a bundle: the address and both keys in hexadecimal,
/// as one JSON object.
pub open spec fn bundle_document(bundle: BundleView) -> Option<Seq<char>> {
    json_pretty_object(
        "address"@,
        bundle.address,
        "pubkey_hex"@,
        hex_text(bundle.pubkey),
        "privkey_hex"@,
        hex_text(bundle.privkey),
    )
}

/// Thirty-two bytes as an array.
fn array_of_32(bytes: &Vec<u8>) -> (array: [u8; 32])
    requires
        bytes@.len() == 32,
    ensures
        array@ == bytes@,
{
    let mut array: [u8; 32] = [0u8; 32];
    let mut i: usize = 0;
    while i < 32
        invariant
            i <= 32,
            bytes@.len() == 32,
            forall|j: int| 0 <= j < i ==> array@[j] == bytes@[j],
        decreases 32 - i,
    {
        array[i] = bytes[i];
        i += 1;
    }
    assert(array@ =~= bytes@);
    array
}

impl AddressBundle {
    /// Reads a bundle from the three fields of a key record.
    pub fn from_record(address: &str, pubkey_hex: &str, privkey_hex: &str) -> (read: Result<
        AddressBundle,
        KeyRecordError,
    >)
        ensures
            match read {
                Ok(bundle) => record_bundle(address@, pubkey_hex@, privkey_hex@) == Ok::<
                    BundleView,
                    KeyRecordError,
                >(bundle@),
                Err(why) => record_bundle(address@, pubkey_hex@, privkey_hex@) == Err::<
                    BundleView,
                    KeyRecordError,
                >(why),
            },
    {
        let pubkey = match decode(pubkey_hex) {
            Some(bytes) => bytes,
            None => { return Err(KeyRecordError::KeysUnreadable); },
        };
        let privkey = match decode(privkey_hex) {
            Some(bytes) => bytes,
            None => { return Err(KeyRecordError::KeysUnreadable); },
        };
        if pubkey.len() != 32 || privkey.len() != 32 {
            return Err(KeyRecordError::KeysUnreadable);
        }
        match bech32_decode_to_bytes(address) {
            Some(raw) => Ok(
                AddressBundle {
                    address: address.to_owned(),
                    pubkey: array_of_32(&pubkey),
                    privkey: array_of_32(&privkey),
                    address_raw: raw,
                },
            ),
            None => Err(KeyRecordError::AddressUnreadable),
        }
    }

    /// Reads a bundle from a key record.
    pub fn from_document(document: &str) -> (read: Result<AddressBundle, KeyRecordError>)
        ensures
            match read {
                Ok(bundle) => document_bundle(document@) == Ok::<BundleView, KeyRecordError>(
                    bundle@,
                ),
                Err(why) => document_bundle(document@) == Err::<BundleView, KeyRecordError>(why),
            },
    {
        let address = match text_field(document, "address") {
            Some(text) => text,
            None => { return Err(KeyRecordError::Malformed); },
        };
        let pubkey_hex = match text_field(document, "pubkey_hex") {
            Some(text) => text,
            None => { return Err(KeyRecordError::Malformed); },
        };
        let privkey_hex = match text_field(document, "privkey_hex") {
            Some(text) => text,
            None => { return Err(KeyRecordError::Malformed); },
        };
        AddressBundle::from_record(address.as_str(), pubkey_hex.as_str(), privkey_hex.as_str())
    }

    /// Writes the key record of this bundle. `None` where the JSON writer
    /// gives none.
    pub fn to_document(&self) -> (document: Option<String>)
        ensures
            match document {
                Some(text) => bundle_document(self@) == Some(text@),
                None => bundle_document(self@) is None,
            },
    {
        let pubkey_hex = encode(self.pubkey.as_slice());
        let privkey_hex = encode(self.privkey.as_slice());
        pretty_object(
            ("address", self.address.as_str()),
            ("pubkey_hex", pubkey_hex.as_str()),
            ("privkey_hex", privkey_hex.as_str()),
        )
    }
}

/// The keys of a bundle come back from their hexadecimal text: a record
/// made of a bundle's address and keys reads as that bundle wherever its
/// address reads as its raw bytes.
pub proof fn lemma_record_of_bundle_reads_back(bundle: BundleView)
    requires
        bundle.pubkey.len() == 32,
        bundle.privkey.len() == 32,
        bech32_payload(bundle.address) == Some(bundle.address_raw),
    ensures
        record_bundle(bundle.address, hex_text(bundle.pubkey), hex_text(bundle.privkey)) == Ok::<
            BundleView,
            KeyRecordError,
        >(bundle),
{
    lemma_hex_round_trip(bundle.pubkey);
    lemma_hex_round_trip(bundle.privkey);
}

} // verus!
