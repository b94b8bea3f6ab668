//! Local submission: how a transaction that a caller hands in becomes a
//! transaction of the mempool.

use crate::account::Account;
use crate::clock::now_iso;
use crate::ids::{new_transaction_id, transaction_id_prefix};
use crate::ledger::validation;
use crate::payments::{memo_fits, memo_within_limit};
use crate::signature::{signature_check, verify_signature, SignatureError};
use crate::state::{State, StateView};
use crate::transaction::{optional_text, Transaction, TransactionView, ValidationError};
use vstd::prelude::*;
use vstd::string::*;

verus! {

/// What a caller hands in to have a transaction made.
#[derive(Debug, PartialEq, Eq)]
pub struct TxInput {
    pub from: String,
    pub to: Option<String>,
    pub amount: u64,
    pub fee: u64,
    pub nonce: Option<u64>,
    pub public_key: Option<String>,
    pub signature: Option<String>,
    pub memo: Option<String>,
    pub action: Option<String>,
}

/// Why a submission is refused.
#[derive(Clone, Copy, Debug, PartialEq, Eq, Structural)]
pub enum SubmitError {
    /// The amount is zero.
    ZeroAmount,
    /// The memo has more than 256 characters.
    MemoTooLong,
    /// The signature check failed.
    Signature(SignatureError),
    /// The ledger refuses the transaction.
    Validation(ValidationError),
}

impl SubmitError {
    /// The text that a caller is shown for the error.
    pub open spec fn message_text(self) -> Seq<char> {
        match self {
            SubmitError::ZeroAmount => "amount must be > 0"@,
            SubmitError::MemoTooLong => "memo too long (max 256 chars)"@,
            SubmitError::Signature(e) => e.message_text(),
            SubmitError::Validation(e) => e.message_text(),
        }
    }

    /// The text that a caller is shown for the error.
    pub fn message(&self) -> (r: String)
        ensures
            r@ == self.message_text(),
    {
        match self {
            SubmitError::ZeroAmount => "amount must be > 0".to_string(),
            SubmitError::MemoTooLong => "memo too long (max 256 chars)".to_string(),
            SubmitError::Signature(e) => e.message(),
            SubmitError::Validation(e) => e.message(),
        }
    }
}

/// The nonce that follows a sender's nonce; the largest nonce has none and
/// follows itself, so that no transaction of that sender is valid.
pub open spec fn next_nonce(current: u64) -> u64 {
    if current < u64::MAX {
        (current + 1) as u64
    } else {
        current
    }
}

/// The text of an optional text, or a default where it is absent.
pub open spec fn text_or(text: Option<String>, default: Seq<char>) -> Seq<char> {
    match text {
        Some(t) => t@,
        None => default,
    }
}

/// The transaction that is made of what a caller hands in: an absent
/// receiver is empty, an absent nonce is the one that follows the sender's,
/// and an absent action is a transfer.
pub open spec fn drafted(
    input: TxInput,
    sender_nonce: u64,
    id: Seq<char>,
    timestamp: Seq<char>,
) -> TransactionView {
    TransactionView {
        id,
        from: input.from@,
        to: text_or(input.to, Seq::empty()),
        amount: input.amount,
        fee: input.fee,
        nonce: match input.nonce {
            Some(n) => n,
            None => next_nonce(sender_nonce),
        },
        timestamp,
        action: text_or(input.action, "transfer"@),
        memo: optional_text(input.memo),
        public_key: optional_text(input.public_key),
        signature: optional_text(input.signature),
    }
}

/// Whether a submission is accepted, and why not: the amount must not be
/// zero, the memo no longer than 256 characters, then the signature is
/// checked where the node asks for signatures, and then the ledger's rules.
pub open spec fn submission(required: bool, sender: Account, input: TxInput, tx: TransactionView) -> Result<
    (),
    SubmitError,
> {
    if input.amount == 0 {
        Err(SubmitError::ZeroAmount)
    } else if !memo_fits(optional_text(input.memo)) {
        Err(SubmitError::MemoTooLong)
    } else {
        match signature_check(required, sender.nonce, tx) {
            Err(e) => Err(SubmitError::Signature(e)),
            Ok(()) => match validation(sender, tx) {
                Err(e) => Err(SubmitError::Validation(e)),
                Ok(()) => Ok(()),
            },
        }
    }
}

/// Whether a submission is accepted depends neither on the id nor on the
/// timestamp that the transaction gets.
pub proof fn lemma_submission_ignores_id(
    required: bool,
    sender: Account,
    input: TxInput,
    id: Seq<char>,
    timestamp: Seq<char>,
    other_id: Seq<char>,
    other_timestamp: Seq<char>,
)
    ensures
        submission(required, sender, input, drafted(input, sender.nonce, id, timestamp))
            == submission(
            required,
            sender,
            input,
            drafted(input, sender.nonce, other_id, other_timestamp),
        ),
{
    let a = drafted(input, sender.nonce, id, timestamp);
    let b = drafted(input, sender.nonce, other_id, other_timestamp);
    assert(crate::signature::payload_json(a) == crate::signature::payload_json(b));
    assert(signature_check(required, sender.nonce, a) == signature_check(required, sender.nonce, b));
    assert(validation(sender, a) == validation(sender, b));
}

impl State {
    /// Checks the signature of a transaction against the sender's account.
    pub fn verify_signature(&self, required: bool, tx: &Transaction) -> (r: Result<
        (),
        SignatureError,
    >)
        requires
            self.well_formed(),
        ensures
            r == signature_check(required, self@.account(tx@.from).nonce, tx@),
    {
        verify_signature(required, self.account(tx.from.as_str()).nonce, tx)
    }

    /// Takes a submission under a given id and timestamp. An accepted
    /// transaction joins the end of the mempool and is handed out for the
    /// peers; the accounts change only when a block applies it. A refused
    /// submission changes nothing.
    pub fn submit_transaction_at(
        &mut self,
        require_signatures: bool,
        input: TxInput,
        id: String,
        timestamp: String,
    ) -> (r: Result<Transaction, SubmitError>)
        requires
            old(self).well_formed(),
        ensures
            final(self).well_formed(),
            match r {
                Ok(tx) => {
                    &&& tx@ == drafted(
                        input,
                        old(self)@.account(input.from@).nonce,
                        id@,
                        timestamp@,
                    )
                    &&& submission(
                        require_signatures,
                        old(self)@.account(input.from@),
                        input,
                        tx@,
                    ) is Ok
                    &&& final(self)@ == (StateView {
                        mempool: old(self)@.mempool.push(tx@),
                        ..old(self)@
                    })
                },
                Err(e) => {
                    &&& submission(
                        require_signatures,
                        old(self)@.account(input.from@),
                        input,
                        drafted(input, old(self)@.account(input.from@).nonce, id@, timestamp@),
                    ) == Err::<(), SubmitError>(e)
                    &&& final(self)@ == old(self)@
                },
            },
    {
        if input.amount == 0 {
            return Err(SubmitError::ZeroAmount);
        }
        if !memo_within_limit(&input.memo) {
            return Err(SubmitError::MemoTooLong);
        }
        let sender: Account = self.account(input.from.as_str());
        let nonce: u64 = match input.nonce {
            Some(n) => n,
            None => if sender.nonce < u64::MAX {
                sender.nonce + 1
            } else {
                sender.nonce
            },
        };
        let to: String = match input.to {
            Some(to) => to,
            None => {
                proof {
                    reveal_strlit("");
                    assert(""@ =~= Seq::<char>::empty());
                }
                "".to_string()
            },
        };
        let action: String = match input.action {
            Some(action) => action,
            None => "transfer".to_string(),
        };
        let tx = Transaction {
            id,
            from: input.from,
            to,
            amount: input.amount,
            fee: input.fee,
            nonce,
            timestamp,
            action,
            memo: input.memo,
            public_key: input.public_key,
            signature: input.signature,
        };
        match verify_signature(require_signatures, sender.nonce, &tx) {
            Ok(()) => {},
            Err(e) => {
                return Err(SubmitError::Signature(e));
            },
        }
        match self.validate_transaction(&tx) {
            Ok(()) => {},
            Err(e) => {
                return Err(SubmitError::Validation(e));
            },
        }
        self.push_pending(tx.clone());
        Ok(tx)
    }

    /// Takes a submission now, under a fresh id.
    pub fn submit_transaction(&mut self, require_signatures: bool, input: TxInput) -> (r: Result<
        Transaction,
        SubmitError,
    >)
        requires
            old(self).well_formed(),
        ensures
            final(self).well_formed(),
            match r {
                Ok(tx) => {
                    &&& transaction_id_prefix().is_prefix_of(tx@.id)
                    &&& tx@ == drafted(
                        input,
                        old(self)@.account(input.from@).nonce,
                        tx@.id,
                        tx@.timestamp,
                    )
                    &&& submission(
                        require_signatures,
                        old(self)@.account(input.from@),
                        input,
                        tx@,
                    ) is Ok
                    &&& final(self)@ == (StateView {
                        mempool: old(self)@.mempool.push(tx@),
                        ..old(self)@
                    })
                },
                Err(e) => {
                    &&& submission(
                        require_signatures,
                        old(self)@.account(input.from@),
                        input,
                        drafted(
                            input,
                            old(self)@.account(input.from@).nonce,
                            Seq::empty(),
                            Seq::empty(),
                        ),
                    ) == Err::<(), SubmitError>(e)
                    &&& final(self)@ == old(self)@
                },
            },
    {
        let id = new_transaction_id();
        let timestamp = now_iso();
        proof {
            lemma_submission_ignores_id(
                require_signatures,
                self@.account(input.from@),
                input,
                id@,
                timestamp@,
                Seq::empty(),
                Seq::empty(),
            );
        }
        self.submit_transaction_at(require_signatures, input, id, timestamp)
    }
}

} // verus!
