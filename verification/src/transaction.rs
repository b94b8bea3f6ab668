//! Transactions, the three actions, and why a transaction is refused.

use crate::text::{decimal, push_decimal, same_text};
use vstd::prelude::*;
use vstd::string::*;

verus! {

/// The model of an optional text.
pub open spec fn optional_text(text: Option<String>) -> Option<Seq<char>> {
    match text {
        Some(s) => Some(s@),
        None => None,
    }
}

/// A signed or unsigned instruction to move, stake or unstake funds.
#[derive(Debug, PartialEq, Eq)]
pub struct Transaction {
    pub id: String,
    pub from: String,
    pub to: String,
    pub amount: u64,
    pub fee: u64,
    pub nonce: u64,
    pub timestamp: String,
    pub action: String,
    pub memo: Option<String>,
    pub public_key: Option<String>,
    pub signature: Option<String>,
}

/// The model of a transaction: its texts as sequences of characters.
pub struct TransactionView {
    pub id: Seq<char>,
    pub from: Seq<char>,
    pub to: Seq<char>,
    pub amount: u64,
    pub fee: u64,
    pub nonce: u64,
    pub timestamp: Seq<char>,
    pub action: Seq<char>,
    pub memo: Option<Seq<char>>,
    pub public_key: Option<Seq<char>>,
    pub signature: Option<Seq<char>>,
}

impl View for Transaction {
    type V = TransactionView;

    open spec fn view(&self) -> TransactionView {
        TransactionView {
            id: self.id@,
            from: self.from@,
            to: self.to@,
            amount: self.amount,
            fee: self.fee,
            nonce: self.nonce,
            timestamp: self.timestamp@,
            action: self.action@,
            memo: optional_text(self.memo),
            public_key: optional_text(self.public_key),
            signature: optional_text(self.signature),
        }
    }
}

impl Clone for Transaction {
    fn clone(&self) -> (r: Self)
        ensures
            r == *self,
    {
        Transaction {
            id: self.id.clone(),
            from: self.from.clone(),
            to: self.to.clone(),
            amount: self.amount,
            fee: self.fee,
            nonce: self.nonce,
            timestamp: self.timestamp.clone(),
            action: self.action.clone(),
            memo: self.memo.clone(),
            public_key: self.public_key.clone(),
            signature: self.signature.clone(),
        }
    }
}

/// The models of a list of transactions.
pub open spec fn transaction_views(list: Seq<Transaction>) -> Seq<TransactionView> {
    list.map_values(|t: Transaction| t@)
}

/// Copies a list of transactions.
pub fn clone_transactions(list: &Vec<Transaction>) -> (r: Vec<Transaction>)
    ensures
        r@ == list@,
{
    let mut out: Vec<Transaction> = Vec::new();
    let mut i: usize = 0;
    while i < list.len()
        invariant
            i <= list@.len(),
            out@ == list@.take(i as int),
        decreases list@.len() - i,
    {
        out.push(list[i].clone());
        proof {
            assert(list@.take(i + 1) =~= list@.take(i as int).push(list@[i as int]));
        }
        i = i + 1;
    }
    proof {
        assert(list@.take(i as int) =~= list@);
    }
    out
}

/// What a transaction does.
#[derive(Clone, Copy, Debug, PartialEq, Eq, Structural)]
pub enum Action {
    Transfer,
    Stake,
    Unstake,
}

/// The action that a name stands for: `transfer`, `stake` or `unstake`.
pub open spec fn action_of(name: Seq<char>) -> Option<Action> {
    if name == "transfer"@ {
        Some(Action::Transfer)
    } else if name == "stake"@ {
        Some(Action::Stake)
    } else if name == "unstake"@ {
        Some(Action::Unstake)
    } else {
        None
    }
}

impl Action {
    /// Reads the name of an action.
    pub fn parse(name: &str) -> (r: Option<Action>)
        ensures
            r == action_of(name@),
    {
        if same_text(name, "transfer") {
            Some(Action::Transfer)
        } else if same_text(name, "stake") {
            Some(Action::Stake)
        } else if same_text(name, "unstake") {
            Some(Action::Unstake)
        } else {
            None
        }
    }

    /// The name of an action.
    pub open spec fn name_text(self) -> Seq<char> {
        match self {
            Action::Transfer => "transfer"@,
            Action::Stake => "stake"@,
            Action::Unstake => "unstake"@,
        }
    }

    /// The name of the action.
    pub fn name(self) -> (r: String)
        ensures
            r@ == self.name_text(),
    {
        match self {
            Action::Transfer => "transfer".to_string(),
            Action::Stake => "stake".to_string(),
            Action::Unstake => "unstake".to_string(),
        }
    }
}

/// The action of a transaction that names none.
pub fn default_action() -> (r: String)
    ensures
        r@ == "transfer"@,
        action_of(r@) == Some(Action::Transfer),
{
    "transfer".to_string()
}

/// Why the ledger refuses a transaction.
#[derive(Clone, Copy, Debug, PartialEq, Eq, Structural)]
pub enum ValidationError {
    /// The action is none of transfer, stake, unstake.
    InvalidAction,
    /// The amount is zero.
    ZeroAmount,
    /// The sender or the receiver is empty.
    MissingAddress,
    /// The nonce is not the sender's nonce plus one.
    InvalidNonce { expected: u128, got: u64 },
    /// Amount and fee together do not fit 64 bits.
    AmountOverflow,
    /// The sender's balance does not cover amount and fee.
    InsufficientBalance,
    /// The sender's stake does not cover the amount to unstake.
    InsufficientStake,
    /// The sender's balance does not cover the fee of an unstake.
    InsufficientBalanceForFee,
}

impl ValidationError {
    /// The text that a caller is shown for the error.
    pub open spec fn message_text(self) -> Seq<char> {
        match self {
            ValidationError::InvalidAction => "Invalid action"@,
            ValidationError::ZeroAmount => "amount must be > 0"@,
            ValidationError::MissingAddress => "missing from/to"@,
            ValidationError::InvalidNonce { expected, got } => "invalid nonce: expected "@
                + decimal(expected as nat) + ", got "@ + decimal(got as nat),
            ValidationError::AmountOverflow => "amount overflow"@,
            ValidationError::InsufficientBalance => "insufficient balance"@,
            ValidationError::InsufficientStake => "insufficient stake"@,
            ValidationError::InsufficientBalanceForFee => "insufficient balance for fee"@,
        }
    }

    /// The text that a caller is shown for the error.
    pub fn message(&self) -> (r: String)
        ensures
            r@ == self.message_text(),
    {
        match self {
            ValidationError::InvalidAction => "Invalid action".to_string(),
            ValidationError::ZeroAmount => "amount must be > 0".to_string(),
            ValidationError::MissingAddress => "missing from/to".to_string(),
            ValidationError::InvalidNonce { expected, got } => {
                let mut out = "invalid nonce: expected ".to_string();
                push_decimal(&mut out, *expected);
                out.append(", got ");
                push_decimal(&mut out, *got as u128);
                out
            },
            ValidationError::AmountOverflow => "amount overflow".to_string(),
            ValidationError::InsufficientBalance => "insufficient balance".to_string(),
            ValidationError::InsufficientStake => "insufficient stake".to_string(),
            ValidationError::InsufficientBalanceForFee => "insufficient balance for fee".to_string(),
        }
    }
}

} // verus!
