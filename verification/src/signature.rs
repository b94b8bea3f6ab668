//! Signed transactions: the address of a key, the payload that a signer
//! commits to, and the checks that a signed transaction has to pass.

use crate::encoding::{digest_hex, digest_text, push_number, push_text, with_number, with_text};
use crate::text::{chars_of, decimal, push_decimal, same_text, text_of};
use crate::transaction::{Transaction, TransactionView};
use base64::Engine;
use p256::ecdsa::signature::Verifier;
use p256::pkcs8::DecodePublicKey;
use vstd::prelude::*;
use vstd::string::*;

verus! {

/// The bytes that a text in standard base64, with padding, stands for;
/// `None` for a text that is no such base64.
pub uninterp spec fn base64_bytes(text: Seq<char>) -> Option<Seq<u8>>;

/// Whether bytes are a P-256 ECDSA signature in ASN.1 DER.
pub uninterp spec fn der_signature_reads(der: Seq<u8>) -> bool;

/// Whether a text is a P-256 public key in PEM.
pub uninterp spec fn public_key_reads(pem: Seq<char>) -> bool;

/// Whether the DER signature is one of the message under the PEM key, by
/// ECDSA over P-256 with SHA-256.
pub uninterp spec fn ecdsa_verifies(pem: Seq<char>, message: Seq<u8>, der: Seq<u8>) -> bool;

/// The model of optional bytes.
pub open spec fn optional_bytes(bytes: Option<Vec<u8>>) -> Option<Seq<u8>> {
    match bytes {
        Some(b) => Some(b@),
        None => None,
    }
}

/// Calls `decode` of the `STANDARD` engine of `base64`: the decoded bytes,
/// or `None` where the text is refused; a function of the text alone.
#[verifier::external_body]
fn decode_base64(text: &str) -> (r: Option<Vec<u8>>)
    ensures
        optional_bytes(r) == base64_bytes(text@),
{
    base64::engine::general_purpose::STANDARD.decode(text).ok()
}

/// Calls `p256::ecdsa::Signature::from_der` and says whether it succeeded;
/// a function of the bytes alone.
#[verifier::external_body]
fn der_signature_ok(der: &[u8]) -> (r: bool)
    ensures
        r == der_signature_reads(der@),
{
    p256::ecdsa::Signature::from_der(der).is_ok()
}

/// Calls `p256::ecdsa::VerifyingKey::from_public_key_pem` and says whether
/// it succeeded; a function of the text alone.
#[verifier::external_body]
fn public_key_ok(pem: &str) -> (r: bool)
    ensures
        r == public_key_reads(pem@),
{
    p256::ecdsa::VerifyingKey::from_public_key_pem(pem).is_ok()
}

/// Reads the signature and the key as the two functions above do, calls
/// `verify` of the key on the message and the signature, and says whether
/// it succeeded; a function of the three arguments alone.
#[verifier::external_body]
fn signature_ok(pem: &str, message: &[u8], der: &[u8]) -> (r: bool)
    ensures
        r == ecdsa_verifies(pem@, message@, der@),
{
    match (
        p256::ecdsa::Signature::from_der(der),
        p256::ecdsa::VerifyingKey::from_public_key_pem(pem),
    ) {
        (Ok(signature), Ok(key)) => key.verify(message, &signature).is_ok(),
        _ => false,
    }
}

/// How many hexadecimal digits of the key's digest make an address.
pub const ADDRESS_DIGITS: usize = 40;

/// The address of a public key: `addr_` and the first forty hexadecimal
/// digits of the SHA-256 digest of the key's PEM text.
pub open spec fn address_of(public_key: Seq<char>) -> Seq<char> {
    let digest = digest_hex(public_key);
    "addr_"@ + (if digest.len() <= ADDRESS_DIGITS {
        digest
    } else {
        digest.take(ADDRESS_DIGITS as int)
    })
}

/// Derives the address of a public key.
pub fn derive_address(public_key: &str) -> (r: String)
    ensures
        r@ == address_of(public_key@),
{
    let digest = digest_text(public_key);
    let chars = chars_of(digest.as_str());
    let short: String = if chars.len() <= ADDRESS_DIGITS {
        proof {
            assert(chars@.subrange(0, chars@.len() as int) =~= chars@);
        }
        text_of(&chars, 0, chars.len())
    } else {
        text_of(&chars, 0, ADDRESS_DIGITS)
    };
    "addr_".to_string().concat(short.as_str())
}

/// The text that a signer signs: a JSON object of the amount, the fee, the
/// sender, the nonce and the receiver, in this order. The id, the
/// timestamp, the memo and the action of a transaction are not signed.
pub open spec fn payload_json(tx: TransactionView) -> Seq<char> {
    let a = with_number(Seq::empty(), "{\"amount\":"@, tx.amount);
    let b = with_number(a, ",\"fee\":"@, tx.fee);
    let c = with_text(b, ",\"from\":"@, tx.from);
    let d = with_number(c, ",\"nonce\":"@, tx.nonce);
    let e = with_text(d, ",\"to\":"@, tx.to);
    e + "}"@
}

/// Writes the text that a signer signs.
pub fn canonical_payload(tx: &Transaction) -> (r: String)
    ensures
        r@ == payload_json(tx@),
{
    let mut out = String::new();
    push_number(&mut out, "{\"amount\":", tx.amount);
    push_number(&mut out, ",\"fee\":", tx.fee);
    push_text(&mut out, ",\"from\":", tx.from.as_str());
    push_number(&mut out, ",\"nonce\":", tx.nonce);
    push_text(&mut out, ",\"to\":", tx.to.as_str());
    out.append("}");
    out
}

/// Why a signed transaction is refused.
#[derive(Clone, Copy, Debug, PartialEq, Eq, Structural)]
pub enum SignatureError {
    /// The transaction carries no public key.
    MissingPublicKey,
    /// The transaction carries no signature.
    MissingSignature,
    /// The sender is not the address of the public key.
    AddressMismatch,
    /// The signature is no base64.
    InvalidEncoding,
    /// The signature is no DER signature.
    InvalidSignature,
    /// The public key is no PEM key.
    InvalidPublicKey,
    /// The signature is not one of the payload under the key.
    VerificationFailed,
    /// The nonce is not the sender's nonce plus one.
    InvalidNonce { expected: u128, got: u64 },
}

impl SignatureError {
    /// The text that a caller is shown for the error.
    pub open spec fn message_text(self) -> Seq<char> {
        match self {
            SignatureError::MissingPublicKey => "missing publicKey"@,
            SignatureError::MissingSignature => "missing signature"@,
            SignatureError::AddressMismatch => "from does not match publicKey"@,
            SignatureError::InvalidEncoding => "invalid signature encoding"@,
            SignatureError::InvalidSignature => "invalid signature"@,
            SignatureError::InvalidPublicKey => "invalid publicKey pem"@,
            SignatureError::VerificationFailed => "signature verification failed"@,
            SignatureError::InvalidNonce { expected, got } => "invalid nonce: expected "@
                + decimal(expected as nat) + ", got "@ + decimal(got as nat),
        }
    }

    /// The text that a caller is shown for the error.
    pub fn message(&self) -> (r: String)
        ensures
            r@ == self.message_text(),
    {
        match self {
            SignatureError::MissingPublicKey => "missing publicKey".to_string(),
            SignatureError::MissingSignature => "missing signature".to_string(),
            SignatureError::AddressMismatch => "from does not match publicKey".to_string(),
            SignatureError::InvalidEncoding => "invalid signature encoding".to_string(),
            SignatureError::InvalidSignature => "invalid signature".to_string(),
            SignatureError::InvalidPublicKey => "invalid publicKey pem".to_string(),
            SignatureError::VerificationFailed => "signature verification failed".to_string(),
            SignatureError::InvalidNonce { expected, got } => {
                let mut out = "invalid nonce: expected ".to_string();
                push_decimal(&mut out, *expected);
                out.append(", got ");
                push_decimal(&mut out, *got as u128);
                out
            },
        }
    }
}

/// Whether a signature in base64 is one of a message under a PEM key, and
/// which step fails where it is not: the base64, the DER signature, the key,
/// the verification, in this order.
pub open spec fn proof_check(public_key: Seq<char>, message: Seq<char>, signature: Seq<char>) -> Result<
    (),
    SignatureError,
> {
    match base64_bytes(signature) {
        None => Err(SignatureError::InvalidEncoding),
        Some(der) => if !der_signature_reads(der) {
            Err(SignatureError::InvalidSignature)
        } else if !public_key_reads(public_key) {
            Err(SignatureError::InvalidPublicKey)
        } else if !ecdsa_verifies(public_key, vstd::utf8::encode_utf8(message), der) {
            Err(SignatureError::VerificationFailed)
        } else {
            Ok(())
        },
    }
}

/// Checks a signature in base64 of a message under a PEM key.
pub fn check_proof(public_key: &str, message: &str, signature: &str) -> (r: Result<
    (),
    SignatureError,
>)
    ensures
        r == proof_check(public_key@, message@, signature@),
{
    let der: Vec<u8> = match decode_base64(signature) {
        Some(bytes) => bytes,
        None => {
            return Err(SignatureError::InvalidEncoding);
        },
    };
    if !der_signature_ok(der.as_slice()) {
        return Err(SignatureError::InvalidSignature);
    }
    if !public_key_ok(public_key) {
        return Err(SignatureError::InvalidPublicKey);
    }
    if !signature_ok(public_key, message.as_bytes(), der.as_slice()) {
        return Err(SignatureError::VerificationFailed);
    }
    Ok(())
}

/// Whether a node that asks for signatures accepts a transaction of a sender
/// whose nonce is `sender_nonce`, and why not. The transaction has to carry a
/// key and a signature, its sender has to be the address of the key, the
/// signature has to be one of the payload under the key, and the nonce has
/// to be the sender's nonce plus one. A node that asks for no signatures
/// accepts every transaction here.
pub open spec fn signature_check(required: bool, sender_nonce: u64, tx: TransactionView) -> Result<
    (),
    SignatureError,
> {
    if !required {
        Ok(())
    } else if tx.public_key is None {
        Err(SignatureError::MissingPublicKey)
    } else if tx.signature is None {
        Err(SignatureError::MissingSignature)
    } else if tx.from != address_of(tx.public_key->0) {
        Err(SignatureError::AddressMismatch)
    } else if proof_check(tx.public_key->0, payload_json(tx), tx.signature->0) is Err {
        proof_check(tx.public_key->0, payload_json(tx), tx.signature->0)
    } else if tx.nonce != sender_nonce + 1 {
        Err(SignatureError::InvalidNonce { expected: (sender_nonce + 1) as u128, got: tx.nonce })
    } else {
        Ok(())
    }
}

/// Checks the signature of a transaction for a node that asks for
/// signatures or not, against the nonce of the sender's account.
pub fn verify_signature(required: bool, sender_nonce: u64, tx: &Transaction) -> (r: Result<
    (),
    SignatureError,
>)
    ensures
        r == signature_check(required, sender_nonce, tx@),
{
    if !required {
        return Ok(());
    }
    let public_key: &String = match &tx.public_key {
        Some(key) => key,
        None => {
            return Err(SignatureError::MissingPublicKey);
        },
    };
    let signature: &String = match &tx.signature {
        Some(signature) => signature,
        None => {
            return Err(SignatureError::MissingSignature);
        },
    };
    let expected_address = derive_address(public_key.as_str());
    if !same_text(tx.from.as_str(), expected_address.as_str()) {
        return Err(SignatureError::AddressMismatch);
    }
    let payload = canonical_payload(tx);
    match check_proof(public_key.as_str(), payload.as_str(), signature.as_str()) {
        Ok(()) => {},
        Err(e) => {
            return Err(e);
        },
    }
    let expected: u128 = sender_nonce as u128 + 1;
    if tx.nonce as u128 != expected {
        return Err(SignatureError::InvalidNonce { expected, got: tx.nonce });
    }
    Ok(())
}

} // verus!
