//! Fresh identifiers for transactions and payments.

use vstd::prelude::*;
use vstd::string::*;

verus! {

/// Calls `uuid::Uuid::new_v4` and writes the random identifier in its
/// hyphenated form. Nothing is known of the result. The call stops the
/// program where the system has no random bytes to give.
#[verifier::external_body]
fn random_uuid() -> (text: String) {
    uuid::Uuid::new_v4().to_string()
}

/// Calls `uuid::Uuid::new_v4` and writes the random identifier in its
/// simple form, without hyphens. Nothing is known of the result. The call
/// stops the program where the system has no random bytes to give.
#[verifier::external_body]
fn random_uuid_simple() -> (text: String) {
    uuid::Uuid::new_v4().as_simple().to_string()
}

/// What every transaction id made here begins with.
pub open spec fn transaction_id_prefix() -> Seq<char> {
    "tx-"@
}

/// What every payment id made here begins with.
pub open spec fn payment_id_prefix() -> Seq<char> {
    "pay_"@
}

/// A fresh transaction id: `tx-` and a random identifier.
pub fn new_transaction_id() -> (id: String)
    ensures
        transaction_id_prefix().is_prefix_of(id@),
{
    let id = "tx-".to_string().concat(random_uuid().as_str());
    proof {
        assert(id@.subrange(0, transaction_id_prefix().len() as int) =~= transaction_id_prefix());
    }
    id
}

/// A fresh payment id: `pay_` and a random identifier.
pub fn new_payment_id() -> (id: String)
    ensures
        payment_id_prefix().is_prefix_of(id@),
{
    let id = "pay_".to_string().concat(random_uuid_simple().as_str());
    proof {
        assert(id@.subrange(0, payment_id_prefix().len() as int) =~= payment_id_prefix());
    }
    id
}

} // verus!
