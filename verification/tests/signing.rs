use drop_ledger::contract::Contract;
use drop_ledger::roles::AccountStatus;
use drop_ledger::signing::{signature_message, vec_to_64_byte_array, verify_signature};
use ed25519_dalek::Signer;
use ed25519_dalek::SigningKey;

fn s(x: &str) -> String {
    x.to_string()
}

/// A deterministic Ed25519 key, and its 33-byte form with the curve byte.
fn test_key() -> (SigningKey, Vec<u8>) {
    let sk = SigningKey::from_bytes(&[7u8; 32]);
    let vk = sk.verifying_key().to_bytes();
    let mut key = vec![0u8];
    key.extend_from_slice(&vk);
    (sk, key)
}

#[test]
fn signature_message_is_account_comma_base58_key() {
    // 32 zero bytes render as 32 ones in base58, so a wrapper that handed
    // its input back unchanged would fail this
    let key = vec![0u8; 33];
    let msg = signature_message(&s("alice.near"), &key);
    assert_eq!(msg, s("alice.near,11111111111111111111111111111111"));
    // and a real key round-trips through the bs58 crate
    let (_, key) = test_key();
    let msg = signature_message(&s("alice.near"), &key);
    let expected = format!("alice.near,{}", bs58::encode(&key[1..]).into_string());
    assert_eq!(msg, expected);
}

#[test]
fn sixty_four_byte_conversion() {
    assert_eq!(vec_to_64_byte_array(vec![9u8; 64]), Some([9u8; 64]));
    assert_eq!(vec_to_64_byte_array(vec![9u8; 63]), None);
    assert_eq!(vec_to_64_byte_array(Vec::new()), None);
}

#[test]
fn real_signatures_verify_and_forgeries_do_not() {
    let (sk, key) = test_key();
    let account = s("alice.near");
    let message = signature_message(&account, &key);
    let signature: Vec<u8> = sk.sign(message.as_bytes()).to_bytes().to_vec();
    assert!(verify_signature(&signature, &account, &key));
    // the same signature does not authenticate another account
    assert!(!verify_signature(&signature, &s("bob.near"), &key));
    // a corrupted signature is rejected
    let mut bad = signature.clone();
    bad[0] ^= 1;
    assert!(!verify_signature(&bad, &account, &key));
    // a signature under a different key is rejected
    let other = SigningKey::from_bytes(&[8u8; 32]);
    let forged: Vec<u8> = other.sign(message.as_bytes()).to_bytes().to_vec();
    assert!(!verify_signature(&forged, &account, &key));
}

#[test]
fn expected_claim_key_names_the_right_key() {
    let mut c = Contract::new(None, None, None, vec![s("admin.near")], vec![0u8]);
    c.add_account_status(&s("admin.near"), s("sponsor.near"), AccountStatus::Sponsor)
        .unwrap();
    let drop_key = vec![0u8, 1, 2, 3];
    let id = c
        .create_token_drop(&s("sponsor.near"), s("i"), s("n"), None, drop_key.clone(), 5)
        .unwrap();
    // without a piece, the drop's own key authenticates the claim
    assert_eq!(c.expected_claim_key(&id, None), Some(drop_key));
    // with a piece, the piece's key does
    let piece = vec![0u8, 9, 9];
    assert_eq!(c.expected_claim_key(&id, Some(&piece)), Some(piece.clone()));
    // an unregistered drop has no key
    assert_eq!(c.expected_claim_key(&s("ghost||0"), None), None);
}

#[test]
fn signature_gate_composes_with_claims() {
    let mut c = Contract::new(None, None, None, vec![s("admin.near")], vec![0u8]);
    let (sk, key) = test_key();
    let id = c
        .create_token_drop(&s("admin.near"), s("i"), s("n"), None, key.clone(), 5)
        .unwrap();
    let claimer = s("alice.near");
    // the host checks the signature against the drop's key, then claims
    let expected = c.expected_claim_key(&id, None).unwrap();
    let message = signature_message(&claimer, &expected);
    let good: Vec<u8> = sk.sign(message.as_bytes()).to_bytes().to_vec();
    let ok = verify_signature(&good, &claimer, &expected);
    assert!(ok);
    c.claim_drop(&claimer, &id, None, ok, 1).unwrap();
    assert_eq!(c.ft_balance_of(&claimer), 5);
}
