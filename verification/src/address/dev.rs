//! A provider of throw-away addresses for development. Its addresses carry
//! the public key itself under the prefix `addr_dev` and belong to no
//! network.

use crate::address::{AddressBundle, AddressProvider, BundleView, ProviderError};
use crate::util::bech::{bech32_encode, bech32_text, valid_hrp};
use crate::util::keys::{ed25519_public_key, fresh_secret, public_key, sign};
use vstd::prelude::*;

verus! {

/// A bundle whose public key belongs to its private key and whose address
/// spells that public key under the prefix `addr_dev`.
pub open spec fn is_dev_bundle(bundle: BundleView) -> bool {
    &&& bundle.pubkey == ed25519_public_key(bundle.privkey)
    &&& bundle.address_raw == bundle.pubkey
    &&& bundle.address == bech32_text("addr_dev"@, bundle.pubkey)
}

/// A provider of development addresses. It holds no state.
#[derive(Clone, Copy, Debug)]
pub struct DevAddressProvider;

impl DevAddressProvider {
    pub fn new() -> (provider: Self) {
        DevAddressProvider
    }

    /// The development bundle of a given private key.
    pub fn address_for(&self, privkey: [u8; 32]) -> (bundle: AddressBundle)
        ensures
            bundle@.privkey == privkey@,
            is_dev_bundle(bundle@),
    {
        proof {
            reveal_strlit("addr_dev");
            assert(valid_hrp("addr_dev"@));
        }
        let pubkey = public_key(&privkey);
        let address = bech32_encode("addr_dev", pubkey.as_slice());
        let mut raw: Vec<u8> = Vec::new();
        let mut i: usize = 0;
        while i < 32
            invariant
                i <= 32,
                raw@ == pubkey@.take(i as int),
            decreases 32 - i,
        {
            raw.push(pubkey[i]);
            i += 1;
            assert(pubkey@.take(i as int) == pubkey@.take(i - 1).push(pubkey@[i - 1]));
        }
        assert(pubkey@.take(32) == pubkey@);
        AddressBundle { address, pubkey, privkey, address_raw: raw }
    }
}

impl AddressProvider for DevAddressProvider {
    fn new_address(&self) -> (made: Result<AddressBundle, ProviderError>)
        ensures
            made matches Ok(bundle) ==> is_dev_bundle(bundle@),
    {
        match fresh_secret() {
            Some(privkey) => Ok(self.address_for(privkey)),
            None => Err(ProviderError::EntropyUnavailable),
        }
    }

    fn sign_message_raw(&self, privkey: &[u8; 32], message: &str) -> (signed: Result<
        [u8; 64],
        ProviderError,
    >)
        ensures
            signed is Ok,
    {
        Ok(sign(privkey, message.as_bytes()))
    }

    /// Every new address is the development address of its key.
    open spec fn makes(&self, bundle: BundleView) -> bool {
        is_dev_bundle(bundle)
    }

    open spec fn always_signs(&self) -> bool {
        true
    }
}

} // verus!
