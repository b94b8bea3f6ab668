use base64::Engine;
use bulennode::signature::{
    canonical_payload, check_proof, derive_address, verify_signature, SignatureError,
};
use bulennode::state::State;
use bulennode::submit::{SubmitError, TxInput};
use bulennode::transaction::Transaction;
use p256::ecdsa::signature::Signer;
use p256::ecdsa::{Signature, SigningKey};
use p256::pkcs8::{EncodePublicKey, LineEnding};

fn key(seed: u8) -> SigningKey {
    SigningKey::from_slice(&[seed; 32]).unwrap()
}

fn pem_of(key: &SigningKey) -> String {
    key.verifying_key().to_public_key_pem(LineEnding::LF).unwrap()
}

fn sign(key: &SigningKey, message: &str) -> String {
    let signature: Signature = key.sign(message.as_bytes());
    base64::engine::general_purpose::STANDARD.encode(signature.to_der().as_bytes())
}

fn unsigned(from: &str, nonce: u64) -> Transaction {
    Transaction {
        id: "tx-1".to_string(),
        from: from.to_string(),
        to: "bob".to_string(),
        amount: 10,
        fee: 1,
        nonce,
        timestamp: "2024-01-01T00:00:00Z".to_string(),
        action: "transfer".to_string(),
        memo: None,
        public_key: None,
        signature: None,
    }
}

fn signed(key: &SigningKey, nonce: u64) -> Transaction {
    let pem = pem_of(key);
    let mut tx = unsigned(&derive_address(&pem), nonce);
    tx.signature = Some(sign(key, &canonical_payload(&tx)));
    tx.public_key = Some(pem);
    tx
}

#[test]
fn address_of_a_key() {
    assert_eq!(
        derive_address("-----BEGIN PUBLIC KEY-----\nabc\n-----END PUBLIC KEY-----\n"),
        "addr_a9b0e16e0ae11f69636913f3ac4fae98093a250c"
    );
    assert_eq!(derive_address("").len(), 45);
}

#[test]
fn payload_that_is_signed() {
    let mut tx = unsigned("al\"ice", 3);
    tx.memo = Some("not signed".to_string());
    assert_eq!(
        canonical_payload(&tx),
        "{\"amount\":10,\"fee\":1,\"from\":\"al\\\"ice\",\"nonce\":3,\"to\":\"bob\"}"
    );
}

#[test]
fn a_signed_transaction_is_accepted() {
    let k = key(7);
    let tx = signed(&k, 1);
    assert_eq!(verify_signature(true, 0, &tx), Ok(()));
    assert_eq!(verify_signature(false, 0, &unsigned("anyone", 9)), Ok(()));
    let mut relabelled = signed(&k, 1);
    relabelled.id = "other".to_string();
    relabelled.memo = Some("memo".to_string());
    relabelled.action = "stake".to_string();
    assert_eq!(verify_signature(true, 0, &relabelled), Ok(()));
}

#[test]
fn every_signature_error_has_its_input() {
    let k = key(7);
    let good = signed(&k, 1);

    let mut tx = signed(&k, 1);
    tx.public_key = None;
    assert_eq!(verify_signature(true, 0, &tx), Err(SignatureError::MissingPublicKey));

    let mut tx = signed(&k, 1);
    tx.signature = None;
    assert_eq!(verify_signature(true, 0, &tx), Err(SignatureError::MissingSignature));

    let mut tx = signed(&k, 1);
    tx.from = "addr_someone_else".to_string();
    assert_eq!(verify_signature(true, 0, &tx), Err(SignatureError::AddressMismatch));

    let mut tx = signed(&k, 1);
    tx.public_key = Some(pem_of(&key(8)));
    assert_eq!(verify_signature(true, 0, &tx), Err(SignatureError::AddressMismatch));

    let mut tx = signed(&k, 1);
    tx.signature = Some("not base64!".to_string());
    assert_eq!(verify_signature(true, 0, &tx), Err(SignatureError::InvalidEncoding));

    let mut tx = signed(&k, 1);
    tx.signature = Some("AAAA".to_string());
    assert_eq!(verify_signature(true, 0, &tx), Err(SignatureError::InvalidSignature));

    let mut tx = unsigned(&derive_address("no key at all"), 1);
    tx.public_key = Some("no key at all".to_string());
    tx.signature = good.signature.clone();
    assert_eq!(verify_signature(true, 0, &tx), Err(SignatureError::InvalidPublicKey));

    let mut tx = signed(&k, 1);
    tx.amount = 11;
    assert_eq!(verify_signature(true, 0, &tx), Err(SignatureError::VerificationFailed));

    let mut tx = signed(&k, 1);
    tx.signature = Some(sign(&key(8), &canonical_payload(&tx)));
    assert_eq!(verify_signature(true, 0, &tx), Err(SignatureError::VerificationFailed));

    assert_eq!(
        verify_signature(true, 1, &good),
        Err(SignatureError::InvalidNonce { expected: 2, got: 1 })
    );
    assert_eq!(
        verify_signature(true, 0, &signed(&k, 2)),
        Err(SignatureError::InvalidNonce { expected: 1, got: 2 })
    );
}

#[test]
fn proof_of_a_message() {
    let k = key(3);
    let pem = pem_of(&k);
    let signature = sign(&k, "hello");
    assert_eq!(check_proof(&pem, "hello", &signature), Ok(()));
    assert_eq!(check_proof(&pem, "hello!", &signature), Err(SignatureError::VerificationFailed));
    assert_eq!(check_proof("garbage", "hello", &signature), Err(SignatureError::InvalidPublicKey));
    assert_eq!(check_proof("garbage", "hello", "AAAA"), Err(SignatureError::InvalidSignature));
    assert_eq!(check_proof("garbage", "hello", "%%%"), Err(SignatureError::InvalidEncoding));
}

#[test]
fn signature_messages() {
    assert_eq!(SignatureError::MissingPublicKey.message(), "missing publicKey");
    assert_eq!(SignatureError::MissingSignature.message(), "missing signature");
    assert_eq!(SignatureError::AddressMismatch.message(), "from does not match publicKey");
    assert_eq!(SignatureError::InvalidEncoding.message(), "invalid signature encoding");
    assert_eq!(SignatureError::InvalidSignature.message(), "invalid signature");
    assert_eq!(SignatureError::InvalidPublicKey.message(), "invalid publicKey pem");
    assert_eq!(SignatureError::VerificationFailed.message(), "signature verification failed");
    assert_eq!(
        SignatureError::InvalidNonce { expected: 1, got: 0 }.message(),
        "invalid nonce: expected 1, got 0"
    );
}

#[test]
fn a_node_that_asks_for_signatures() {
    let k = key(11);
    let pem = pem_of(&k);
    let address = derive_address(&pem);
    let mut state = State::new("node-1", "t".to_string(), 0);
    state.faucet(&address, Some(100), true).unwrap();
    let draft = unsigned(&address, 1);
    let signature = sign(&k, &canonical_payload(&draft));
    let input = |signature: Option<String>, amount: u64| TxInput {
        from: address.clone(),
        to: Some("bob".to_string()),
        amount,
        fee: 1,
        nonce: None,
        public_key: Some(pem.clone()),
        signature,
        memo: None,
        action: None,
    };
    assert_eq!(
        state.submit_transaction(true, input(None, 10)),
        Err(SubmitError::Signature(SignatureError::MissingSignature))
    );
    assert_eq!(
        state.submit_transaction(true, input(Some(signature.clone()), 12)),
        Err(SubmitError::Signature(SignatureError::VerificationFailed))
    );
    let accepted = state.submit_transaction(true, input(Some(signature.clone()), 10)).unwrap();
    assert_eq!(accepted.nonce, 1);
    assert_eq!(state.verify_signature(true, &accepted), Ok(()));
    state.produce_block_at("node-1", "t".to_string(), 0).unwrap();
    assert_eq!(state.account(&address).balance, 89);
    assert_eq!(
        state.verify_signature(true, &accepted),
        Err(SignatureError::InvalidNonce { expected: 2, got: 1 })
    );
}
