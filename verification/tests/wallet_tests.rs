use bip39::{Language, Mnemonic, Seed};
use ed25519_dalek::{Keypair as Ed25519Keypair, Verifier};
use k256::ecdsa::SigningKey as K256SigningKey;
use libcheese::wallet::{
    assemble_keys, keys_from_phrase, keys_from_seed, signature_or_error, Chain, MultiChainKeys,
    WalletError,
};

const PHRASE: &str =
    "abandon abandon abandon abandon abandon abandon abandon abandon abandon abandon abandon about";

fn seed_bytes() -> Vec<u8> {
    let mnemonic = Mnemonic::from_phrase(PHRASE, Language::English).unwrap();
    Seed::new(&mnemonic, "").as_bytes().to_vec()
}

fn random_ed_secret() -> Vec<u8> {
    Ed25519Keypair::generate(&mut rand::rngs::OsRng).secret.to_bytes().to_vec()
}

fn random_eth_secret() -> Vec<u8> {
    K256SigningKey::random(&mut rand_core::OsRng).to_bytes().to_vec()
}

#[test]
fn test_sign_eth_transaction() {
    let master_seed_bytes = seed_bytes();
    let eth_signing_key = K256SigningKey::from_bytes(&master_seed_bytes[0..32]).unwrap();

    let keys = MultiChainKeys {
        eth_key: eth_signing_key.to_bytes().to_vec(),
        sol_keypair: random_ed_secret(),
        sui_key: random_ed_secret(),
        aptos_key: random_ed_secret(),
    };

    let message = b"hello world";
    let signature = keys.sign_transaction("eth", message).unwrap();
    assert_eq!(signature.len(), 65);
}

#[test]
fn test_sign_sol_transaction() {
    let master_seed_bytes = seed_bytes();
    let sol_secret = ed25519_dalek::SecretKey::from_bytes(&master_seed_bytes[32..64]).unwrap();

    let keys = MultiChainKeys {
        eth_key: random_eth_secret(),
        sol_keypair: sol_secret.to_bytes().to_vec(),
        sui_key: random_ed_secret(),
        aptos_key: random_ed_secret(),
    };

    let message = b"hello world";
    let signature = keys.sign_transaction("sol", message).unwrap();
    assert_eq!(signature.len(), 64);
}

#[test]
fn test_sign_sui_transaction() {
    let master_seed_bytes = seed_bytes();
    let sui_secret = ed25519_dalek::SecretKey::from_bytes(&master_seed_bytes[0..32]).unwrap();

    let keys = MultiChainKeys {
        eth_key: random_eth_secret(),
        sol_keypair: random_ed_secret(),
        sui_key: sui_secret.to_bytes().to_vec(),
        aptos_key: random_ed_secret(),
    };

    let message = b"hello world";
    let signature = keys.sign_transaction("sui", message).unwrap();
    assert_eq!(signature.len(), 64);
}

#[test]
fn test_sign_aptos_transaction() {
    let master_seed_bytes = seed_bytes();
    let aptos_secret = ed25519_dalek::SecretKey::from_bytes(&master_seed_bytes[32..64]).unwrap();

    let keys = MultiChainKeys {
        eth_key: random_eth_secret(),
        sol_keypair: random_ed_secret(),
        sui_key: random_ed_secret(),
        aptos_key: aptos_secret.to_bytes().to_vec(),
    };

    let message = b"hello world";
    let signature = keys.sign_transaction("aptos", message).unwrap();
    assert_eq!(signature.len(), 64);
}

#[test]
fn test_sign_unsupported_chain() {
    let keys = MultiChainKeys {
        eth_key: random_eth_secret(),
        sol_keypair: random_ed_secret(),
        sui_key: random_ed_secret(),
        aptos_key: random_ed_secret(),
    };
    let message = b"hello world";
    let result = keys.sign_transaction("bitcoin", message);
    assert!(result.is_err());
    assert_eq!(result.unwrap_err().to_string(), "Unsupported chain: bitcoin");
}

#[test]
fn keys_come_from_the_halves_of_the_seed() {
    let seed = seed_bytes();
    assert_eq!(seed.len(), 64);
    assert_eq!(&seed[0..4], &[0x5e, 0xb0, 0x0b, 0xbd]);
    let keys = keys_from_phrase(PHRASE).unwrap();
    assert_eq!(keys.eth_key, seed[0..32].to_vec());
    assert_eq!(keys.sui_key, seed[0..32].to_vec());
    assert_eq!(keys.sol_keypair, seed[32..64].to_vec());
    assert_eq!(keys.aptos_key, seed[32..64].to_vec());
}

#[test]
fn keys_from_a_phrase_ignore_surrounding_space() {
    let padded = format!("  {}\n", PHRASE);
    let keys = keys_from_phrase(&padded).unwrap();
    assert_eq!(keys.eth_key, seed_bytes()[0..32].to_vec());
}

#[test]
fn a_phrase_that_is_no_mnemonic_gives_no_keys() {
    assert!(matches!(keys_from_phrase("abandon abandon abandon"), Err(WalletError::InvalidMnemonic)));
    assert!(matches!(keys_from_phrase(""), Err(WalletError::InvalidMnemonic)));
    let wrong_checksum =
        "abandon abandon abandon abandon abandon abandon abandon abandon abandon abandon abandon abandon";
    assert!(matches!(keys_from_phrase(wrong_checksum), Err(WalletError::InvalidMnemonic)));
}

#[test]
fn a_short_seed_gives_no_keys() {
    assert!(matches!(keys_from_seed(&[7u8; 63]), Err(WalletError::InvalidSeed)));
    assert!(matches!(keys_from_seed(&[]), Err(WalletError::InvalidSeed)));
    assert!(matches!(assemble_keys(&[7u8; 63], true), Err(WalletError::InvalidSeed)));
}

#[test]
fn a_seed_whose_first_half_is_no_scalar_gives_no_keys() {
    assert!(matches!(keys_from_seed(&[0u8; 64]), Err(WalletError::InvalidEthKey)));
    assert!(matches!(keys_from_seed(&[0xffu8; 64]), Err(WalletError::InvalidEthKey)));
    assert!(matches!(assemble_keys(&[7u8; 64], false), Err(WalletError::InvalidEthKey)));
}

#[test]
fn a_longer_seed_gives_keys_from_its_first_64_bytes() {
    let mut seed = vec![0u8; 70];
    for (i, byte) in seed.iter_mut().enumerate() {
        *byte = i as u8 + 1;
    }
    let keys = keys_from_seed(&seed).unwrap();
    assert_eq!(keys.eth_key, (1u8..=32).collect::<Vec<u8>>());
    assert_eq!(keys.sol_keypair, (33u8..=64).collect::<Vec<u8>>());
    assert_eq!(keys.sui_key, keys.eth_key);
    assert_eq!(keys.aptos_key, keys.sol_keypair);
    let assembled = assemble_keys(&seed, true).unwrap();
    assert_eq!(assembled.eth_key, keys.eth_key);
    assert_eq!(assembled.aptos_key, keys.aptos_key);
}

#[test]
fn ed25519_signatures_verify_under_the_public_key() {
    let keys = keys_from_phrase(PHRASE).unwrap();
    let message = b"hello world";
    let secret = ed25519_dalek::SecretKey::from_bytes(&keys.sol_keypair).unwrap();
    let public = ed25519_dalek::PublicKey::from(&secret);
    for chain in ["sol", "aptos"] {
        let bytes = keys.sign_transaction(chain, message).unwrap();
        let signature = ed25519_dalek::Signature::from_bytes(&bytes).unwrap();
        assert!(public.verify(message, &signature).is_ok());
        assert!(public.verify(b"hello w0rld", &signature).is_err());
    }
    let sui_secret = ed25519_dalek::SecretKey::from_bytes(&keys.sui_key).unwrap();
    let sui_public = ed25519_dalek::PublicKey::from(&sui_secret);
    let bytes = keys.sign_transaction("sui", message).unwrap();
    let signature = ed25519_dalek::Signature::from_bytes(&bytes).unwrap();
    assert!(sui_public.verify(message, &signature).is_ok());
    assert!(public.verify(message, &signature).is_err());
}

#[test]
fn eth_signatures_recover_the_public_key() {
    let keys = keys_from_phrase(PHRASE).unwrap();
    let message = b"hello world";
    let bytes = keys.sign_transaction("eth", message).unwrap();
    let signature = k256::ecdsa::recoverable::Signature::try_from(bytes.as_slice()).unwrap();
    let recovered = signature.recover_verifying_key(message).unwrap();
    let expected = K256SigningKey::from_bytes(&keys.eth_key).unwrap().verifying_key();
    assert_eq!(recovered, expected);
}

#[test]
fn signing_is_repeatable() {
    let keys = keys_from_phrase(PHRASE).unwrap();
    for chain in ["eth", "sol", "sui", "aptos"] {
        let first = keys.sign_transaction(chain, b"hello world").unwrap();
        let second = keys.sign_transaction(chain, b"hello world").unwrap();
        let other = keys.sign_transaction(chain, b"hello worle").unwrap();
        assert_eq!(first, second);
        assert_ne!(first, other);
        assert_ne!(first, b"hello world".to_vec());
    }
}

#[test]
fn signing_by_chain_and_by_name_agree() {
    let keys = keys_from_phrase(PHRASE).unwrap();
    let pairs = [("eth", Chain::Eth), ("sol", Chain::Sol), ("sui", Chain::Sui), ("aptos", Chain::Aptos)];
    for (name, chain) in pairs {
        assert_eq!(Chain::from_name(name), Some(chain));
        assert_eq!(
            keys.sign_transaction(name, b"m").unwrap(),
            keys.sign_for(chain, b"m").unwrap()
        );
    }
    assert_eq!(Chain::from_name("ETH"), None);
    assert_eq!(Chain::from_name(""), None);
    assert_eq!(Chain::from_name("solana"), None);
}

#[test]
fn a_key_of_the_wrong_length_does_not_sign() {
    let keys = MultiChainKeys {
        eth_key: vec![1u8; 31],
        sol_keypair: vec![1u8; 33],
        sui_key: vec![],
        aptos_key: vec![1u8; 32],
    };
    assert!(matches!(keys.sign_transaction("eth", b"m"), Err(WalletError::SigningFailed)));
    assert!(matches!(keys.sign_transaction("sol", b"m"), Err(WalletError::SigningFailed)));
    assert!(matches!(keys.sign_transaction("sui", b"m"), Err(WalletError::SigningFailed)));
    assert_eq!(keys.sign_transaction("aptos", b"m").unwrap().len(), 64);
}

#[test]
fn an_eth_key_of_zero_does_not_sign() {
    let keys = MultiChainKeys {
        eth_key: vec![0u8; 32],
        sol_keypair: vec![0u8; 32],
        sui_key: vec![0u8; 32],
        aptos_key: vec![0u8; 32],
    };
    assert!(matches!(keys.sign_transaction("eth", b"m"), Err(WalletError::SigningFailed)));
    assert_eq!(keys.sign_transaction("sol", b"m").unwrap().len(), 64);
}

#[test]
fn an_empty_message_can_be_signed() {
    let keys = keys_from_phrase(PHRASE).unwrap();
    assert_eq!(keys.sign_transaction("eth", b"").unwrap().len(), 65);
    assert_eq!(keys.sign_transaction("sol", b"").unwrap().len(), 64);
}

#[test]
fn errors_read_as_sentences() {
    assert_eq!(WalletError::InvalidMnemonic.to_string(), "Error parsing mnemonic");
    assert_eq!(WalletError::InvalidSeed.to_string(), "Error reading seed");
    assert_eq!(WalletError::InvalidEthKey.to_string(), "Error creating ETH key");
    assert_eq!(WalletError::SigningFailed.to_string(), "Error signing");
    assert_eq!(WalletError::UnsupportedChain("btc".to_string()).to_string(), "Unsupported chain: btc");
    assert_eq!(WalletError::UnsupportedChain(String::new()).to_string(), "Unsupported chain: ");
}

#[test]
fn a_missing_signature_is_a_signing_error() {
    assert!(matches!(signature_or_error(None), Err(WalletError::SigningFailed)));
    assert_eq!(signature_or_error(Some(vec![1, 2, 3])).unwrap(), vec![1, 2, 3]);
}
