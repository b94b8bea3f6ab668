//! What a client of a node's HTTP interface sends and receives, and the
//! payment links that it can build on its own.

use crate::payments::PaymentStatus;
use crate::text::{decimal, push_decimal};
use vstd::prelude::*;
use vstd::string::*;

verus! {

/// A request to create a payment.
#[derive(Debug, PartialEq, Eq)]
pub struct PaymentRequest {
    pub to: String,
    pub amount: u64,
    pub memo: Option<String>,
    pub expires_in_seconds: Option<u64>,
    pub webhook_url: Option<String>,
}

/// A payment as a node reports it.
#[derive(Debug, PartialEq, Eq)]
pub struct PaymentResponse {
    pub id: String,
    pub to: String,
    pub amount: u64,
    pub memo: Option<String>,
    pub status: String,
    pub created_at: String,
    pub expires_at: String,
    pub transaction_id: Option<String>,
    pub block_index: Option<u64>,
    pub webhook_url: Option<String>,
}

/// A request to build a payment link.
#[derive(Debug, PartialEq, Eq)]
pub struct PaymentLinkRequest {
    pub address: String,
    pub amount: u64,
    pub memo: Option<String>,
}

/// A payment link as a node reports it.
#[derive(Debug, PartialEq, Eq)]
pub struct PaymentLinkResponse {
    pub ok: bool,
    pub link: String,
    pub qr_data_url: Option<String>,
}

/// A request to estimate rewards.
#[derive(Debug, PartialEq, Eq)]
pub struct RewardEstimateRequest {
    pub stake: u64,
    pub uptime_hours_per_day: u64,
    pub days: u64,
    pub device_class: Option<String>,
}

/// Whether a byte stands for itself in a percent-encoded text: the letters
/// and digits of ASCII, and `-`, `.`, `_`, `~`.
pub open spec fn unreserved(b: u8) -> bool {
    ||| 0x30 <= b <= 0x39
    ||| 0x41 <= b <= 0x5a
    ||| 0x61 <= b <= 0x7a
    ||| b == 0x2d
    ||| b == 0x2e
    ||| b == 0x5f
    ||| b == 0x7e
}

/// The upper-case hexadecimal digit for a value below sixteen.
pub open spec fn upper_hex_digit(d: u8) -> char {
    if d < 10 {
        (0x30 + d) as char
    } else {
        (0x41 + d - 10) as char
    }
}

/// One byte percent-encoded: itself where it is unreserved, else `%` and
/// its two upper-case hexadecimal digits.
pub open spec fn percent_encoded_byte(b: u8) -> Seq<char> {
    if unreserved(b) {
        seq![b as char]
    } else {
        seq!['%', upper_hex_digit(b / 16), upper_hex_digit(b % 16)]
    }
}

/// Bytes percent-encoded, one after the other.
pub open spec fn percent_encoded(bytes: Seq<u8>) -> Seq<char>
    decreases bytes.len(),
{
    if bytes.len() == 0 {
        Seq::empty()
    } else {
        percent_encoded(bytes.drop_last()) + percent_encoded_byte(bytes.last())
    }
}

/// Calls `urlencoding::encode`: every byte of the text in UTF-8 is
/// percent-encoded but for the letters and digits of ASCII and `-`, `.`,
/// `_`, `~`, with upper-case hexadecimal digits.
#[verifier::external_body]
fn url_encode(text: &str) -> (r: String)
    ensures
        r@ == percent_encoded(vstd::utf8::encode_utf8(text@)),
{
    urlencoding::encode(text).into_owned()
}

/// A payment link: `bulen:`, the address, the amount in base ten, and the
/// percent-encoded memo where there is one.
pub open spec fn payment_link(address: Seq<char>, amount: u64, memo: Option<Seq<char>>) -> Seq<
    char,
> {
    let base = "bulen:"@ + address + "?amount="@ + decimal(amount as nat);
    match memo {
        Some(m) => base + "&memo="@ + percent_encoded(vstd::utf8::encode_utf8(m)),
        None => base,
    }
}

/// The model of an optional borrowed text.
pub open spec fn optional_str(text: Option<&str>) -> Option<Seq<char>> {
    match text {
        Some(s) => Some(s@),
        None => None,
    }
}

/// Builds a payment link without asking a node.
pub fn build_payment_link(address: &str, amount: u64, memo: Option<&str>) -> (r: String)
    ensures
        r@ == payment_link(address@, amount, optional_str(memo)),
{
    let mut link = "bulen:".to_string();
    link.append(address);
    link.append("?amount=");
    push_decimal(&mut link, amount as u128);
    match memo {
        Some(m) => {
            link.append("&memo=");
            let encoded = url_encode(m);
            link.append(encoded.as_str());
        },
        None => {},
    }
    link
}

/// The path of a payment below the base of a node's interface.
pub fn payment_path(id: &str) -> (r: String)
    ensures
        r@ == "payments/"@ + id@,
{
    "payments/".to_string().concat(id)
}

impl PaymentLinkRequest {
    /// The link that the request asks for.
    pub fn link(&self) -> (r: String)
        ensures
            r@ == payment_link(
                self.address@,
                self.amount,
                crate::transaction::optional_text(self.memo),
            ),
    {
        match &self.memo {
            Some(m) => build_payment_link(self.address.as_str(), self.amount, Some(m.as_str())),
            None => build_payment_link(self.address.as_str(), self.amount, None),
        }
    }
}

impl PaymentResponse {
    /// Where the payment stands, where the node reports a status that is known.
    pub fn state(&self) -> (r: Option<PaymentStatus>)
        ensures
            r == PaymentStatus::of_name(self.status@),
    {
        PaymentStatus::parse(self.status.as_str())
    }
}

} // verus!
