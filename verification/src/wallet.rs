//! Keys for several chains, all derived from one seed phrase, and signing
//! with them.

use vstd::prelude::*;
use vstd::string::StringExecFns;

verus! {

/// The seed that `bip39` derives from a mnemonic phrase with an empty
/// password: `Seed::new` on what `Mnemonic::from_phrase` makes of the phrase
/// in English. `None` where it rejects the phrase.
pub uninterp spec fn mnemonic_seed(phrase: Seq<char>) -> Option<Seq<u8>>;

/// Whether `k256` accepts `secret` as a secp256k1 signing key, as
/// `SigningKey::from_bytes` decides it.
pub uninterp spec fn secp256k1_key_valid(secret: Seq<u8>) -> bool;

/// The recoverable secp256k1 signature that `k256` gives for `message` under
/// the key `secret`; `None` where it gives none.
pub uninterp spec fn secp256k1_signature(secret: Seq<u8>, message: Seq<u8>) -> Option<Seq<u8>>;

/// The Ed25519 signature that `ed25519_dalek` gives for `message` under the
/// secret key `secret`; `None` where it rejects the key.
pub uninterp spec fn ed25519_signature(secret: Seq<u8>, message: Seq<u8>) -> Option<Seq<u8>>;

/// Calls `bip39::Mnemonic::from_phrase` for English and, on the mnemonic it
/// returns, `bip39::Seed::new` with an empty password. Both depend on the
/// phrase alone. A seed is the 64 bytes that PBKDF2 fills.
#[verifier::external_body]
fn seed_from_phrase(phrase: &str) -> (r: Option<Vec<u8>>)
    ensures
        r.is_some() == mnemonic_seed(phrase@).is_some(),
        r.is_some() ==> r.unwrap()@ == mnemonic_seed(phrase@).unwrap(),
        r.is_some() ==> r.unwrap().len() == 64,
{
    match bip39::Mnemonic::from_phrase(phrase, bip39::Language::English) {
        Ok(mnemonic) => Some(bip39::Seed::new(&mnemonic, "").as_bytes().to_vec()),
        Err(_) => None,
    }
}

/// Calls `k256::ecdsa::SigningKey::from_bytes` and says whether it returned a
/// key. It returns none for bytes that are not 32 in number.
#[verifier::external_body]
fn eth_key_is_valid(secret: &[u8]) -> (r: bool)
    ensures
        r == secp256k1_key_valid(secret@),
        r ==> secret@.len() == 32,
{
    k256::ecdsa::SigningKey::from_bytes(secret).is_ok()
}

/// Makes a `k256::ecdsa::SigningKey` of `secret` and calls its `try_sign` for
/// a recoverable signature, which hashes the message with Keccak-256 and picks
/// the nonce by RFC 6979, so that key and message decide the result. Such a
/// signature has 65 bytes. A key that `from_bytes` rejects signs nothing.
#[verifier::external_body]
fn eth_sign(secret: &[u8], message: &[u8]) -> (r: Option<Vec<u8>>)
    ensures
        r.is_some() == secp256k1_signature(secret@, message@).is_some(),
        r.is_some() ==> r.unwrap()@ == secp256k1_signature(secret@, message@).unwrap(),
        r.is_some() ==> r.unwrap().len() == 65 && secp256k1_key_valid(secret@),
{
    let key = k256::ecdsa::SigningKey::from_bytes(secret).ok()?;
    let signed: Result<k256::ecdsa::recoverable::Signature, _> =
        k256::ecdsa::signature::Signer::try_sign(&key, message);
    signed.ok().map(|signature| AsRef::<[u8]>::as_ref(&signature).to_vec())
}

/// Makes an `ed25519_dalek::Keypair` of `secret` and calls its `sign`, which
/// is deterministic. `SecretKey::from_bytes` accepts exactly the keys of 32
/// bytes, and a signature has 64 bytes.
#[verifier::external_body]
fn ed25519_sign(secret: &[u8], message: &[u8]) -> (r: Option<Vec<u8>>)
    ensures
        r.is_some() == (secret@.len() == 32),
        r.is_some() == ed25519_signature(secret@, message@).is_some(),
        r.is_some() ==> r.unwrap()@ == ed25519_signature(secret@, message@).unwrap(),
        r.is_some() ==> r.unwrap().len() == 64,
{
    let secret = ed25519_dalek::SecretKey::from_bytes(secret).ok()?;
    let public = ed25519_dalek::PublicKey::from(&secret);
    let keypair = ed25519_dalek::Keypair { secret, public };
    Some(ed25519_dalek::Signer::sign(&keypair, message).to_bytes().to_vec())
}

/// The chains that keys are held for.
#[derive(Clone, Copy, Debug, PartialEq, Eq, Structural)]
pub enum Chain {
    Eth,
    Sol,
    Sui,
    Aptos,
}

/// What can go wrong with keys and signatures.
#[derive(Debug)]
pub enum WalletError {
    /// The phrase is no valid mnemonic.
    InvalidMnemonic,
    /// The seed has fewer than 64 bytes.
    InvalidSeed,
    /// The bytes meant for the Ethereum key are no valid key.
    InvalidEthKey,
    /// The key of the chain did not sign.
    SigningFailed,
    /// No key is held for the chain of this name.
    UnsupportedChain(String),
}

/// The mathematical content of a [`WalletError`].
pub enum WalletErrorView {
    InvalidMnemonic,
    InvalidSeed,
    InvalidEthKey,
    SigningFailed,
    UnsupportedChain(Seq<char>),
}

impl View for WalletError {
    type V = WalletErrorView;

    open spec fn view(&self) -> WalletErrorView {
        match self {
            WalletError::InvalidMnemonic => WalletErrorView::InvalidMnemonic,
            WalletError::InvalidSeed => WalletErrorView::InvalidSeed,
            WalletError::InvalidEthKey => WalletErrorView::InvalidEthKey,
            WalletError::SigningFailed => WalletErrorView::SigningFailed,
            WalletError::UnsupportedChain(name) => WalletErrorView::UnsupportedChain(name@),
        }
    }
}

impl WalletErrorView {
    /// The error in words.
    pub open spec fn message(self) -> Seq<char> {
        match self {
            WalletErrorView::InvalidMnemonic => "Error parsing mnemonic"@,
            WalletErrorView::InvalidSeed => "Error reading seed"@,
            WalletErrorView::InvalidEthKey => "Error creating ETH key"@,
            WalletErrorView::SigningFailed => "Error signing"@,
            WalletErrorView::UnsupportedChain(name) => "Unsupported chain: "@ + name,
        }
    }
}

impl WalletError {
    /// The error in words.
    pub fn to_string(&self) -> (r: String)
        ensures
            r@ == self@.message(),
    {
        match self {
            WalletError::InvalidMnemonic => String::from_str("Error parsing mnemonic"),
            WalletError::InvalidSeed => String::from_str("Error reading seed"),
            WalletError::InvalidEthKey => String::from_str("Error creating ETH key"),
            WalletError::SigningFailed => String::from_str("Error signing"),
            WalletError::UnsupportedChain(name) => String::from_str("Unsupported chain: ").concat(
                name.as_str(),
            ),
        }
    }
}

/// The secret keys of each chain, 32 bytes each.
#[derive(Debug)]
pub struct MultiChainKeys {
    /// Ethereum private key (secp256k1)
    pub eth_key: Vec<u8>,
    /// Solana secret key (ed25519)
    pub sol_keypair: Vec<u8>,
    /// Sui secret key (ed25519)
    pub sui_key: Vec<u8>,
    /// Aptos secret key (ed25519)
    pub aptos_key: Vec<u8>,
}

/// The mathematical content of [`MultiChainKeys`].
pub struct KeysView {
    pub eth_key: Seq<u8>,
    pub sol_keypair: Seq<u8>,
    pub sui_key: Seq<u8>,
    pub aptos_key: Seq<u8>,
}

impl View for MultiChainKeys {
    type V = KeysView;

    open spec fn view(&self) -> KeysView {
        KeysView {
            eth_key: self.eth_key@,
            sol_keypair: self.sol_keypair@,
            sui_key: self.sui_key@,
            aptos_key: self.aptos_key@,
        }
    }
}

/// The keys that a seed gives: its first 32 bytes for Ethereum and Sui, its
/// next 32 bytes for Solana and Aptos.
pub open spec fn keys_of_seed(seed: Seq<u8>) -> KeysView {
    KeysView {
        eth_key: seed.subrange(0, 32),
        sol_keypair: seed.subrange(32, 64),
        sui_key: seed.subrange(0, 32),
        aptos_key: seed.subrange(32, 64),
    }
}

/// What deriving keys from `seed` gives, where `eth_key_accepted` says whether
/// the bytes meant for the Ethereum key are a valid key.
pub open spec fn keys_or_error(seed: Seq<u8>, eth_key_accepted: bool) -> Result<
    KeysView,
    WalletErrorView,
> {
    if seed.len() < 64 {
        Err(WalletErrorView::InvalidSeed)
    } else if !eth_key_accepted {
        Err(WalletErrorView::InvalidEthKey)
    } else {
        Ok(keys_of_seed(seed))
    }
}

/// What deriving keys from a phrase gives.
pub open spec fn keys_of_phrase(phrase: Seq<char>) -> Result<KeysView, WalletErrorView> {
    match mnemonic_seed(phrase) {
        None => Err(WalletErrorView::InvalidMnemonic),
        Some(seed) => keys_or_error(seed, secp256k1_key_valid(seed.subrange(0, 32))),
    }
}

/// The view of keys or of the error in their place.
pub open spec fn keys_outcome(r: Result<MultiChainKeys, WalletError>) -> Result<
    KeysView,
    WalletErrorView,
> {
    match r {
        Ok(keys) => Ok(keys@),
        Err(e) => Err(e@),
    }
}

/// The view of a signature or of the error in its place.
pub open spec fn signing_outcome(r: Result<Vec<u8>, WalletError>) -> Result<
    Seq<u8>,
    WalletErrorView,
> {
    match r {
        Ok(signature) => Ok(signature@),
        Err(e) => Err(e@),
    }
}

/// The chain of a name: "eth", "sol", "sui" or "aptos".
pub open spec fn chain_named(name: Seq<char>) -> Option<Chain> {
    if name == "eth"@ {
        Some(Chain::Eth)
    } else if name == "sol"@ {
        Some(Chain::Sol)
    } else if name == "sui"@ {
        Some(Chain::Sui)
    } else if name == "aptos"@ {
        Some(Chain::Aptos)
    } else {
        None
    }
}

impl KeysView {
    /// The key held for `chain`.
    pub open spec fn key_for(self, chain: Chain) -> Seq<u8> {
        match chain {
            Chain::Eth => self.eth_key,
            Chain::Sol => self.sol_keypair,
            Chain::Sui => self.sui_key,
            Chain::Aptos => self.aptos_key,
        }
    }

    /// The signature of `message` under the key of `chain`: secp256k1 for
    /// Ethereum, Ed25519 for the others.
    pub open spec fn signature_by(self, chain: Chain, message: Seq<u8>) -> Option<Seq<u8>> {
        match chain {
            Chain::Eth => secp256k1_signature(self.eth_key, message),
            _ => ed25519_signature(self.key_for(chain), message),
        }
    }

    /// What signing `message` for the chain called `name` gives.
    pub open spec fn signed(self, name: Seq<char>, message: Seq<u8>) -> Result<
        Seq<u8>,
        WalletErrorView,
    > {
        match chain_named(name) {
            None => Err(WalletErrorView::UnsupportedChain(name)),
            Some(chain) => signed_or_error(self.signature_by(chain, message)),
        }
    }
}

/// A signature as a result: the error of failed signing where there is none.
pub open spec fn signed_or_error(signature: Option<Seq<u8>>) -> Result<Seq<u8>, WalletErrorView> {
    match signature {
        Some(s) => Ok(s),
        None => Err(WalletErrorView::SigningFailed),
    }
}

/// The bytes of `bytes` from position `from` up to `to`.
fn copy_range(bytes: &[u8], from: usize, to: usize) -> (r: Vec<u8>)
    requires
        from <= to <= bytes@.len(),
    ensures
        r@ == bytes@.subrange(from as int, to as int),
{
    let mut out: Vec<u8> = Vec::new();
    let mut i: usize = from;
    while i < to
        invariant
            from <= i <= to <= bytes@.len(),
            out@ == bytes@.subrange(from as int, i as int),
        decreases to - i,
    {
        out.push(bytes[i]);
        assert(out@ =~= bytes@.subrange(from as int, i + 1));
        i += 1;
    }
    out
}

impl Chain {
    /// The chain of a name, if keys are held for it.
    pub fn from_name(name: &str) -> (r: Option<Chain>)
        ensures
            r == chain_named(name@),
    {
        let owned = name.to_owned();
        if owned == "eth".to_owned() {
            Some(Chain::Eth)
        } else if owned == "sol".to_owned() {
            Some(Chain::Sol)
        } else if owned == "sui".to_owned() {
            Some(Chain::Sui)
        } else if owned == "aptos".to_owned() {
            Some(Chain::Aptos)
        } else {
            None
        }
    }
}

/// Cuts a seed into the keys of each chain. `eth_key_accepted` says whether
/// the first 32 bytes are a valid Ethereum key.
pub fn assemble_keys(seed: &[u8], eth_key_accepted: bool) -> (r: Result<
    MultiChainKeys,
    WalletError,
>)
    ensures
        keys_outcome(r) == keys_or_error(seed@, eth_key_accepted),
{
    if seed.len() < 64 {
        return Err(WalletError::InvalidSeed);
    }
    if !eth_key_accepted {
        return Err(WalletError::InvalidEthKey);
    }
    Ok(
        MultiChainKeys {
            eth_key: copy_range(seed, 0, 32),
            sol_keypair: copy_range(seed, 32, 64),
            sui_key: copy_range(seed, 0, 32),
            aptos_key: copy_range(seed, 32, 64),
        },
    )
}

/// Derives the keys of each chain from a seed of 64 bytes or more.
pub fn keys_from_seed(seed: &[u8]) -> (r: Result<MultiChainKeys, WalletError>)
    ensures
        keys_outcome(r) == keys_or_error(seed@, secp256k1_key_valid(seed@.subrange(0, 32))),
{
    if seed.len() < 64 {
        return Err(WalletError::InvalidSeed);
    }
    let first = copy_range(seed, 0, 32);
    let accepted = eth_key_is_valid(first.as_slice());
    assemble_keys(seed, accepted)
}

/// Reads `phrase` as an English BIP39 mnemonic and derives the keys of each
/// chain from its seed.
pub fn keys_from_phrase(phrase: &str) -> (r: Result<MultiChainKeys, WalletError>)
    ensures
        keys_outcome(r) == keys_of_phrase(phrase@),
{
    match seed_from_phrase(phrase) {
        None => Err(WalletError::InvalidMnemonic),
        Some(seed) => keys_from_seed(seed.as_slice()),
    }
}

/// Turns what a signing call gave into a result.
pub fn signature_or_error(signature: Option<Vec<u8>>) -> (r: Result<Vec<u8>, WalletError>)
    ensures
        signing_outcome(r) == signed_or_error(
            match signature {
                Some(s) => Some(s@),
                None => None,
            },
        ),
{
    match signature {
        Some(s) => Ok(s),
        None => Err(WalletError::SigningFailed),
    }
}

impl MultiChainKeys {
    /// Signs `message` with the key of `chain`.
    pub fn sign_for(&self, chain: Chain, message: &[u8]) -> (r: Result<Vec<u8>, WalletError>)
        ensures
            signing_outcome(r) == signed_or_error(self@.signature_by(chain, message@)),
            r.is_ok() ==> r.unwrap().len() == (if chain == Chain::Eth {
                65int
            } else {
                64int
            }),
            chain != Chain::Eth ==> r.is_ok() == (self@.key_for(chain).len() == 32),
    {
        let signature = match chain {
            Chain::Eth => eth_sign(self.eth_key.as_slice(), message),
            Chain::Sol => ed25519_sign(self.sol_keypair.as_slice(), message),
            Chain::Sui => ed25519_sign(self.sui_key.as_slice(), message),
            Chain::Aptos => ed25519_sign(self.aptos_key.as_slice(), message),
        };
        signature_or_error(signature)
    }

    /// Signs `message` for the chain called `chain`: "eth", "sol", "sui" or
    /// "aptos". Any other name is an error that carries the name.
    pub fn sign_transaction(&self, chain: &str, message: &[u8]) -> (r: Result<
        Vec<u8>,
        WalletError,
    >)
        ensures
            signing_outcome(r) == self@.signed(chain@, message@),
            chain_named(chain@).is_none() ==> r.is_err(),
            chain_named(chain@).is_some() && chain_named(chain@).unwrap() != Chain::Eth ==> (
            r.is_ok() == (self@.key_for(chain_named(chain@).unwrap()).len() == 32)),
    {
        match Chain::from_name(chain) {
            Some(found) => self.sign_for(found, message),
            None => Err(WalletError::UnsupportedChain(chain.to_owned())),
        }
    }
}

} // verus!
