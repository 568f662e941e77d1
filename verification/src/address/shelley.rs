//! Fresh enterprise addresses: a new Ed25519 key, the address that names
//! it, and where its record is kept.

use crate::address::{AddressBundle, AddressProvider, BundleView, ProviderError};
use crate::network::Network;
use crate::util::bech::{bech32_encode, bech32_text, blake2b224, blake2b_224, valid_hrp};
use crate::util::hexcode::{encode, hex_text};
use crate::util::keys::{ed25519_public_key, fresh_secret, public_key, sign};
use vstd::prelude::*;
use vstd::string::StringExecFns;

verus! {

/// The first byte of an enterprise address: the address type in the high
/// nibble, the network tag in the low one.
pub open spec fn enterprise_header(network_id: u8) -> u8 {
    (0x60 + network_id % 16) as u8
}

/// The raw bytes of the enterprise address of a public key: the header,
/// then the 224-bit digest of the key.
pub open spec fn enterprise_raw(network_id: u8, pubkey: Seq<u8>) -> Seq<u8> {
    seq![enterprise_header(network_id)] + blake2b_224(pubkey)
}

/// A bundle whose public key belongs to its private key and whose address
/// is the enterprise address of that public key.
pub open spec fn is_enterprise_bundle(hrp: Seq<char>, network_id: u8, bundle: BundleView) -> bool {
    &&& bundle.pubkey == ed25519_public_key(bundle.privkey)
    &&& bundle.address_raw == enterprise_raw(network_id, bundle.pubkey)
    &&& bundle.address == bech32_text(hrp, bundle.address_raw)
}

/// Where the record of a key is kept: a file in the keystore named by the
/// public key in hexadecimal.
pub open spec fn record_path(keystore_dir: Seq<char>, pubkey: Seq<u8>) -> Seq<char> {
    keystore_dir + "/"@ + hex_text(pubkey) + ".json"@
}

/// Both network prefixes are prefixes that Bech32 admits.
pub proof fn lemma_network_prefixes_admitted(network: Network)
    ensures
        valid_hrp(network.hrp_text()),
{
    reveal_strlit("addr");
    reveal_strlit("addr_test");
}

/// The header byte as the bit operations give it.
proof fn lemma_header_bits(network_id: u8)
    ensures
        (0x60u8 | (network_id & 0x0f)) == enterprise_header(network_id),
{
    assert((0x60u8 | (network_id & 0x0f)) == 0x60u8 + network_id % 16) by (bit_vector);
}

/// A provider of fresh enterprise addresses on one network.
pub struct ShelleyProvider {
    hrp: String,
    network_id: u8,
    keystore_dir: String,
}

impl ShelleyProvider {
    #[verifier::type_invariant]
    spec fn prefix_admitted(&self) -> bool {
        valid_hrp(self.hrp@)
    }

    /// The prefix of this provider's addresses.
    pub closed spec fn prefix(&self) -> Seq<char> {
        self.hrp@
    }

    /// The network tag in this provider's address headers.
    pub closed spec fn network_tag(&self) -> u8 {
        self.network_id
    }

    /// The directory this provider's key records belong in.
    pub closed spec fn keystore(&self) -> Seq<char> {
        self.keystore_dir@
    }

    /// A provider for `network` whose records belong in `keystore_dir`.
    pub fn new(network: Network, keystore_dir: &str) -> (provider: Self)
        ensures
            provider.prefix() == network.hrp_text(),
            provider.network_tag() == network.id_value(),
            provider.keystore() == keystore_dir@,
    {
        proof {
            lemma_network_prefixes_admitted(network);
        }
        ShelleyProvider {
            hrp: network.bech32_hrp().to_owned(),
            network_id: network.network_id(),
            keystore_dir: keystore_dir.to_owned(),
        }
    }

    /// The bundle of a given private key: its public key and its
    /// enterprise address on this provider's network.
    pub fn address_for(&self, privkey: [u8; 32]) -> (bundle: AddressBundle)
        ensures
            bundle@.privkey == privkey@,
            is_enterprise_bundle(self.prefix(), self.network_tag(), bundle@),
    {
        proof {
            use_type_invariant(self);
            lemma_header_bits(self.network_id);
        }
        let pubkey = public_key(&privkey);
        let header: u8 = 0x60u8 | (self.network_id & 0x0f);
        let digest = blake2b224(pubkey.as_slice());
        let mut raw: Vec<u8> = Vec::new();
        raw.push(header);
        let mut i: usize = 0;
        while i < 28
            invariant
                i <= 28,
                raw@ == seq![header] + digest@.take(i as int),
            decreases 28 - i,
        {
            raw.push(digest[i]);
            i += 1;
            assert(digest@.take(i as int) == digest@.take(i - 1).push(digest@[i - 1]));
        }
        assert(digest@.take(28) == digest@);
        let address = bech32_encode(self.hrp.as_str(), raw.as_slice());
        AddressBundle { address, pubkey, privkey, address_raw: raw }
    }

    /// The path of the file that keeps the record of `bundle`'s key.
    pub fn key_file_path(&self, bundle: &AddressBundle) -> (path: String)
        ensures
            path@ == record_path(self.keystore(), bundle@.pubkey),
    {
        let mut path = self.keystore_dir.clone();
        let name = encode(bundle.pubkey.as_slice());
        path.append("/");
        path.append(name.as_str());
        path.append(".json");
        path
    }
}

impl AddressProvider for ShelleyProvider {
    /// Draws a private key from the operating system and makes its bundle.
    fn new_address(&self) -> (made: Result<AddressBundle, ProviderError>)
        ensures
            made matches Ok(bundle) ==> is_enterprise_bundle(
                self.prefix(),
                self.network_tag(),
                bundle@,
            ),
    {
        match fresh_secret() {
            Some(privkey) => Ok(self.address_for(privkey)),
            None => Err(ProviderError::EntropyUnavailable),
        }
    }

    fn sign_message_raw(&self, privkey: &[u8; 32], message: &str) -> (signed: Result<
        [u8; 64],
        ProviderError,
    >)
        ensures
            signed is Ok,
    {
        Ok(sign(privkey, message.as_bytes()))
    }

    /// This provider keeps no pool.
    fn all_addresses(&self) -> (all: Result<Vec<AddressBundle>, ProviderError>)
        ensures
            (all matches Ok(list) && list@.len() == 0),
    {
        Ok(Vec::new())
    }

    /// Every new address is the enterprise address of its key on this
    /// provider's network.
    open spec fn makes(&self, bundle: BundleView) -> bool {
        is_enterprise_bundle(self.prefix(), self.network_tag(), bundle)
    }

    open spec fn always_signs(&self) -> bool {
        true
    }
}

} // verus!
