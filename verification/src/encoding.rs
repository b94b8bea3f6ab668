//! The canonical text of transactions and blocks, and the digests taken of it.

use crate::text::{decimal, hex_lower, hex_text, push_decimal};
use crate::transaction::{Transaction, TransactionView};
use sha2::Digest;
use vstd::prelude::*;
use vstd::string::*;

verus! {

/// The SHA-256 digest of a sequence of bytes.
pub uninterp spec fn sha256(data: Seq<u8>) -> Seq<u8>;

/// A text as a JSON string literal: quoted, with the escapes of JSON.
pub uninterp spec fn json_string(text: Seq<char>) -> Seq<char>;

/// Calls `sha2::Sha256::digest`: the result is the SHA-256 digest of `data`,
/// which depends on `data` alone.
#[verifier::external_body]
fn sha256_of(data: &[u8]) -> (r: Vec<u8>)
    ensures
        r@ == sha256(data@),
{
    sha2::Sha256::digest(data).to_vec()
}

/// Calls `serde_json::to_string` on a text: the result is the text as a JSON
/// string literal, which depends on the text alone.
#[verifier::external_body]
fn json_string_of(text: &str) -> (r: String)
    ensures
        r@ == json_string(text@),
{
    serde_json::to_string(text).unwrap_or_default()
}

/// The lower-case hexadecimal SHA-256 digest of a text in UTF-8.
pub open spec fn digest_hex(text: Seq<char>) -> Seq<char> {
    hex_lower(sha256(vstd::utf8::encode_utf8(text)))
}

/// Computes the lower-case hexadecimal SHA-256 digest of a text.
pub fn digest_text(text: &str) -> (r: String)
    ensures
        r@ == digest_hex(text@),
{
    let digest = sha256_of(text.as_bytes());
    hex_text(&digest)
}

/// `prefix` followed by a key and the JSON string of a text.
pub open spec fn with_text(prefix: Seq<char>, key: Seq<char>, text: Seq<char>) -> Seq<char> {
    prefix + key + json_string(text)
}

/// `prefix` followed by a key and a number in base ten.
pub open spec fn with_number(prefix: Seq<char>, key: Seq<char>, n: u64) -> Seq<char> {
    prefix + key + decimal(n as nat)
}

/// `prefix` followed by a key and the JSON string of a text, where there is one.
pub open spec fn with_optional(prefix: Seq<char>, key: Seq<char>, text: Option<Seq<char>>) -> Seq<
    char,
> {
    match text {
        Some(t) => with_text(prefix, key, t),
        None => prefix,
    }
}

/// Appends a key and the JSON string of a text.
pub fn push_text(out: &mut String, key: &str, text: &str)
    ensures
        final(out)@ == with_text(old(out)@, key@, text@),
{
    out.append(key);
    let quoted = json_string_of(text);
    out.append(quoted.as_str());
}

/// Appends a key and a number in base ten.
pub fn push_number(out: &mut String, key: &str, n: u64)
    ensures
        final(out)@ == with_number(old(out)@, key@, n),
{
    out.append(key);
    push_decimal(out, n as u128);
}

/// Appends a key and the JSON string of a text, where there is one.
pub fn push_optional(out: &mut String, key: &str, text: &Option<String>)
    ensures
        final(out)@ == with_optional(old(out)@, key@, crate::transaction::optional_text(*text)),
{
    match text {
        Some(t) => push_text(out, key, t.as_str()),
        None => {},
    }
}

/// `prefix` followed by the canonical JSON object of a transaction: its
/// members in the order id, from, to, amount, fee, nonce, timestamp, action,
/// then memo, public_key and signature where they are present.
pub open spec fn with_transaction(prefix: Seq<char>, tx: TransactionView) -> Seq<char> {
    let a = with_text(prefix, "{\"id\":"@, tx.id);
    let b = with_text(a, ",\"from\":"@, tx.from);
    let c = with_text(b, ",\"to\":"@, tx.to);
    let d = with_number(c, ",\"amount\":"@, tx.amount);
    let e = with_number(d, ",\"fee\":"@, tx.fee);
    let f = with_number(e, ",\"nonce\":"@, tx.nonce);
    let g = with_text(f, ",\"timestamp\":"@, tx.timestamp);
    let h = with_text(g, ",\"action\":"@, tx.action);
    let i = with_optional(h, ",\"memo\":"@, tx.memo);
    let j = with_optional(i, ",\"public_key\":"@, tx.public_key);
    let k = with_optional(j, ",\"signature\":"@, tx.signature);
    k + "}"@
}

/// The canonical JSON object of a transaction.
pub open spec fn transaction_json(tx: TransactionView) -> Seq<char> {
    with_transaction(Seq::empty(), tx)
}

/// `prefix` followed by the canonical JSON objects of the transactions,
/// separated by commas.
pub open spec fn with_transactions(prefix: Seq<char>, list: Seq<TransactionView>) -> Seq<char>
    decreases list.len(),
{
    if list.len() == 0 {
        prefix
    } else if list.len() == 1 {
        with_transaction(prefix, list[0])
    } else {
        with_transaction(with_transactions(prefix, list.drop_last()) + ","@, list.last())
    }
}

/// Appends the canonical JSON object of a transaction.
pub fn push_transaction(out: &mut String, tx: &Transaction)
    ensures
        final(out)@ == with_transaction(old(out)@, tx@),
{
    push_text(out, "{\"id\":", tx.id.as_str());
    push_text(out, ",\"from\":", tx.from.as_str());
    push_text(out, ",\"to\":", tx.to.as_str());
    push_number(out, ",\"amount\":", tx.amount);
    push_number(out, ",\"fee\":", tx.fee);
    push_number(out, ",\"nonce\":", tx.nonce);
    push_text(out, ",\"timestamp\":", tx.timestamp.as_str());
    push_text(out, ",\"action\":", tx.action.as_str());
    push_optional(out, ",\"memo\":", &tx.memo);
    push_optional(out, ",\"public_key\":", &tx.public_key);
    push_optional(out, ",\"signature\":", &tx.signature);
    out.append("}");
}

/// Appends the canonical JSON objects of the transactions, separated by commas.
pub fn push_transactions(out: &mut String, list: &Vec<Transaction>)
    ensures
        final(out)@ == with_transactions(
            old(out)@,
            crate::transaction::transaction_views(list@),
        ),
{
    let ghost views = crate::transaction::transaction_views(list@);
    let mut i: usize = 0;
    while i < list.len()
        invariant
            views == crate::transaction::transaction_views(list@),
            i <= list@.len(),
            out@ == with_transactions(old(out)@, views.take(i as int)),
        decreases list@.len() - i,
    {
        if i > 0 {
            out.append(",");
        }
        push_transaction(out, &list[i]);
        proof {
            let next = views.take(i + 1);
            assert(next.drop_last() =~= views.take(i as int));
            assert(next.last() == list@[i as int]@);
            assert(next[0] == views[0]);
        }
        i = i + 1;
    }
    proof {
        assert(views.take(i as int) =~= views);
    }
}

/// The canonical JSON object of a transaction.
pub fn transaction_text(tx: &Transaction) -> (r: String)
    ensures
        r@ == transaction_json(tx@),
{
    let mut out = String::new();
    push_transaction(&mut out, tx);
    out
}

} // verus!
