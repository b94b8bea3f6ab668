//! The rules of the ledger: when a transaction is valid, and what a valid
//! transaction, a block and a producer's reward do to the accounts.

use crate::account::{
    account_of, funds, knows, lemma_account_of_bound, lemma_stored, lemma_stored_funds,
    lemma_touched, solvent, sound, stored, touched, Account, AccountBook, Holding,
};
use crate::text::same_text;
use crate::transaction::{action_of, Action, Transaction, TransactionView, ValidationError};
use vstd::prelude::*;

verus! {

/// Whether the ledger accepts a transaction of a sender whose account is
/// `sender`, and why not. The checks stand in the order in which they are made.
pub open spec fn validation(sender: Account, tx: TransactionView) -> Result<(), ValidationError> {
    if action_of(tx.action) is None {
        Err(ValidationError::InvalidAction)
    } else if tx.amount == 0 {
        Err(ValidationError::ZeroAmount)
    } else if tx.from.len() == 0 || tx.to.len() == 0 {
        Err(ValidationError::MissingAddress)
    } else if tx.nonce != sender.nonce + 1 {
        Err(ValidationError::InvalidNonce { expected: (sender.nonce + 1) as u128, got: tx.nonce })
    } else if tx.amount + tx.fee > u64::MAX {
        Err(ValidationError::AmountOverflow)
    } else if action_of(tx.action) == Some(Action::Unstake) {
        if sender.stake < tx.amount {
            Err(ValidationError::InsufficientStake)
        } else if sender.balance < tx.fee {
            Err(ValidationError::InsufficientBalanceForFee)
        } else {
            Ok(())
        }
    } else if sender.balance < tx.amount + tx.fee {
        Err(ValidationError::InsufficientBalance)
    } else {
        Ok(())
    }
}

/// Whether a book accepts a transaction.
pub open spec fn valid(book: Seq<Holding>, tx: TransactionView) -> bool {
    validation(account_of(book, tx.from), tx) is Ok
}

/// The sender's account after a valid transaction, but for what the sender
/// receives from itself.
pub open spec fn debited(sender: Account, tx: TransactionView) -> Account {
    match action_of(tx.action) {
        Some(Action::Transfer) => if tx.from == tx.to {
            Account {
                balance: (sender.balance - tx.fee) as i128,
                nonce: (sender.nonce + 1) as u64,
                ..sender
            }
        } else {
            Account {
                balance: (sender.balance - (tx.amount + tx.fee)) as i128,
                nonce: (sender.nonce + 1) as u64,
                ..sender
            }
        },
        Some(Action::Stake) => Account {
            balance: (sender.balance - (tx.amount + tx.fee)) as i128,
            stake: (sender.stake + tx.amount) as i128,
            nonce: (sender.nonce + 1) as u64,
            ..sender
        },
        Some(Action::Unstake) => Account {
            balance: (sender.balance + tx.amount - tx.fee) as i128,
            stake: (sender.stake - tx.amount) as i128,
            nonce: (sender.nonce + 1) as u64,
            ..sender
        },
        None => sender,
    }
}

/// Whether the transaction moves funds to another account.
pub open spec fn credits_receiver(tx: TransactionView) -> bool {
    action_of(tx.action) == Some(Action::Transfer) && tx.from != tx.to
}

/// The receiver's account after a transfer from another account.
pub open spec fn credited(receiver: Account, tx: TransactionView) -> Account {
    Account { balance: (receiver.balance + tx.amount) as i128, ..receiver }
}

/// The book after a valid transaction: sender and receiver are known, the
/// sender is debited, and the receiver of a transfer from another account is
/// credited.
pub open spec fn applied(book: Seq<Holding>, tx: TransactionView) -> Seq<Holding> {
    let ready = touched(touched(book, tx.from), tx.to);
    let paid = stored(ready, tx.from, debited(account_of(book, tx.from), tx));
    if credits_receiver(tx) {
        stored(paid, tx.to, credited(account_of(book, tx.to), tx))
    } else {
        paid
    }
}

/// The book after one transaction of a block: applied where it is valid,
/// passed over where it is not.
pub open spec fn stepped(book: Seq<Holding>, tx: TransactionView) -> Seq<Holding> {
    if valid(book, tx) {
        applied(book, tx)
    } else {
        book
    }
}

/// The book after the transactions of a block, taken in order.
pub open spec fn settled(book: Seq<Holding>, list: Seq<TransactionView>) -> Seq<Holding>
    decreases list.len(),
{
    if list.len() == 0 {
        book
    } else {
        stepped(settled(book, list.drop_last()), list.last())
    }
}

/// The fees of those transactions of a block that were applied.
pub open spec fn fees_burned(book: Seq<Holding>, list: Seq<TransactionView>) -> int
    decreases list.len(),
{
    if list.len() == 0 {
        0
    } else {
        fees_burned(book, list.drop_last()) + (if valid(
            settled(book, list.drop_last()),
            list.last(),
        ) {
            list.last().fee as int
        } else {
            0
        })
    }
}

/// How many transactions of a block were applied with `address` as sender.
pub open spec fn sent_count(book: Seq<Holding>, list: Seq<TransactionView>, address: Seq<char>) -> nat
    decreases list.len(),
{
    if list.len() == 0 {
        0
    } else {
        sent_count(book, list.drop_last(), address) + (if valid(
            settled(book, list.drop_last()),
            list.last(),
        ) && list.last().from == address {
            1nat
        } else {
            0nat
        })
    }
}

/// The book after the producer of a block got its reward: the reward is
/// added to its balance and its reputation grows by one.
pub open spec fn rewarded(book: Seq<Holding>, producer: Seq<char>, reward: u64) -> Seq<Holding> {
    let before = account_of(book, producer);
    stored(
        book,
        producer,
        Account {
            balance: (before.balance + reward) as i128,
            reputation: (before.reputation + 1) as i64,
            ..before
        },
    )
}

/// The book after a faucet credit.
pub open spec fn funded(book: Seq<Holding>, address: Seq<char>, amount: u64) -> Seq<Holding> {
    let before = account_of(book, address);
    stored(book, address, Account { balance: (before.balance + amount) as i128, ..before })
}

/// What a valid transaction does, seen account by account: the book stays
/// sound, the fee leaves the book and nothing else does, the sender's nonce
/// grows by one, and no other account than sender and receiver changes.
pub proof fn lemma_applied(book: Seq<Holding>, tx: TransactionView)
    requires
        sound(book),
        valid(book, tx),
    ensures
        sound(applied(book, tx)),
        funds(applied(book, tx)) == funds(book) - tx.fee,
        account_of(applied(book, tx), tx.from).nonce == account_of(book, tx.from).nonce + 1,
        account_of(applied(book, tx), tx.from) == debited(account_of(book, tx.from), tx),
        credits_receiver(tx) ==> account_of(applied(book, tx), tx.to) == credited(
            account_of(book, tx.to),
            tx,
        ),
        credits_receiver(tx) ==> account_of(applied(book, tx), tx.to).balance == account_of(
            book,
            tx.to,
        ).balance + tx.amount,
        forall|other: Seq<char>|
            other != tx.from && !(credits_receiver(tx) && other == tx.to) ==> #[trigger] account_of(
                applied(book, tx),
                other,
            ) == account_of(book, other),
        forall|other: Seq<char>| #[trigger]
            account_of(applied(book, tx), other).reputation == account_of(book, other).reputation,
        forall|other: Seq<char>|
            other != tx.from ==> #[trigger] account_of(applied(book, tx), other).nonce
                == account_of(book, other).nonce,
        forall|other: Seq<char>|
            knows(applied(book, tx), other) <==> (knows(book, other) || other == tx.from || other
                == tx.to),
{
    let sender = account_of(book, tx.from);
    let receiver = account_of(book, tx.to);
    let one = touched(book, tx.from);
    let ready = touched(one, tx.to);
    let paid = stored(ready, tx.from, debited(sender, tx));
    lemma_touched(book, tx.from);
    lemma_touched(one, tx.to);
    lemma_account_of_bound(book, tx.from);
    lemma_account_of_bound(book, tx.to);
    assert(account_of(ready, tx.from) == sender);
    assert(account_of(ready, tx.to) == receiver);
    lemma_stored(ready, tx.from, debited(sender, tx));
    lemma_stored_funds(ready, tx.from, debited(sender, tx));
    assert(sender.well_formed() && sender.funds() <= funds(book));
    assert(funds(ready) == funds(book));
    assert(debited(sender, tx).well_formed() && debited(sender, tx).funds() == sender.funds() - tx.fee
        - (if credits_receiver(tx) {
        tx.amount as int
    } else {
        0
    })) by {
        match action_of(tx.action) {
            Some(Action::Transfer) => {},
            Some(Action::Stake) => {},
            Some(Action::Unstake) => {},
            None => {},
        }
    }
    assert(solvent(paid));
    if credits_receiver(tx) {
        assert(account_of(paid, tx.to) == receiver);
        assert(receiver.well_formed() && receiver.funds() <= funds(book));
        assert(funds(paid) == funds(book) - tx.amount - tx.fee);
        lemma_account_of_bound(paid, tx.to);
        assert(credited(receiver, tx).well_formed());
        assert(credited(receiver, tx).funds() == receiver.funds() + tx.amount);
        lemma_stored(paid, tx.to, credited(receiver, tx));
        lemma_stored_funds(paid, tx.to, credited(receiver, tx));
    }
}

/// What the transactions of a block do together: the book stays sound, the
/// fees of the applied transactions leave the book and nothing else does, no
/// reputation changes, and the nonce of each address grows by the number of
/// applied transactions that it sent.
pub proof fn lemma_settled(book: Seq<Holding>, list: Seq<TransactionView>)
    requires
        sound(book),
    ensures
        sound(settled(book, list)),
        0 <= fees_burned(book, list),
        funds(settled(book, list)) == funds(book) - fees_burned(book, list),
        forall|address: Seq<char>| #[trigger]
            account_of(settled(book, list), address).reputation == account_of(
                book,
                address,
            ).reputation,
        forall|address: Seq<char>| #[trigger]
            account_of(settled(book, list), address).nonce == account_of(book, address).nonce
                + sent_count(book, list, address),
    decreases list.len(),
{
    if list.len() > 0 {
        let before = settled(book, list.drop_last());
        lemma_settled(book, list.drop_last());
        if valid(before, list.last()) {
            lemma_applied(before, list.last());
        }
        assert forall|address: Seq<char>| #[trigger]
            account_of(settled(book, list), address).nonce == account_of(book, address).nonce
                + sent_count(book, list, address) by {
            assert(account_of(before, address).nonce == account_of(book, address).nonce
                + sent_count(book, list.drop_last(), address));
        }
        assert forall|address: Seq<char>| #[trigger]
            account_of(settled(book, list), address).reputation == account_of(
                book,
                address,
            ).reputation by {
            assert(account_of(before, address).reputation == account_of(book, address).reputation);
        }
    }
}

/// What a reward does: the book stays sound where the reward fits, gains
/// the reward, and only the producer's account changes.
pub proof fn lemma_rewarded(book: Seq<Holding>, producer: Seq<char>, reward: u64)
    requires
        sound(book),
        funds(book) + reward <= i128::MAX,
        account_of(book, producer).reputation < i64::MAX,
    ensures
        sound(rewarded(book, producer, reward)),
        funds(rewarded(book, producer, reward)) == funds(book) + reward,
        account_of(rewarded(book, producer, reward), producer).balance == account_of(
            book,
            producer,
        ).balance + reward,
        account_of(rewarded(book, producer, reward), producer).reputation == account_of(
            book,
            producer,
        ).reputation + 1,
        forall|other: Seq<char>|
            other != producer ==> #[trigger] account_of(rewarded(book, producer, reward), other)
                == account_of(book, other),
{
    let before = account_of(book, producer);
    let after = Account {
        balance: (before.balance + reward) as i128,
        reputation: (before.reputation + 1) as i64,
        ..before
    };
    lemma_account_of_bound(book, producer);
    lemma_stored(book, producer, after);
    lemma_stored_funds(book, producer, after);
}

/// What a faucet credit does: the book stays sound where the amount fits,
/// gains the amount, and only the one account changes.
pub proof fn lemma_funded(book: Seq<Holding>, address: Seq<char>, amount: u64)
    requires
        sound(book),
        funds(book) + amount <= i128::MAX,
    ensures
        sound(funded(book, address, amount)),
        funds(funded(book, address, amount)) == funds(book) + amount,
        account_of(funded(book, address, amount), address).balance == account_of(
            book,
            address,
        ).balance + amount,
        forall|other: Seq<char>|
            other != address ==> #[trigger] account_of(funded(book, address, amount), other)
                == account_of(book, other),
{
    let before = account_of(book, address);
    let after = Account { balance: (before.balance + amount) as i128, ..before };
    lemma_account_of_bound(book, address);
    lemma_stored(book, address, after);
    lemma_stored_funds(book, address, after);
}

/// Checks a transaction against the account of its sender, and reads its action.
pub fn check_transaction(sender: Account, tx: &Transaction) -> (r: Result<Action, ValidationError>)
    ensures
        match r {
            Ok(action) => validation(sender, tx@) is Ok && action_of(tx@.action) == Some(action),
            Err(e) => validation(sender, tx@) == Err::<(), ValidationError>(e),
        },
{
    let action = match Action::parse(tx.action.as_str()) {
        Some(action) => action,
        None => {
            return Err(ValidationError::InvalidAction);
        },
    };
    if tx.amount == 0 {
        return Err(ValidationError::ZeroAmount);
    }
    if tx.from.as_str().is_empty() || tx.to.as_str().is_empty() {
        return Err(ValidationError::MissingAddress);
    }
    let expected: u128 = sender.nonce as u128 + 1;
    if tx.nonce as u128 != expected {
        return Err(ValidationError::InvalidNonce { expected, got: tx.nonce });
    }
    let total: u128 = tx.amount as u128 + tx.fee as u128;
    if total > u64::MAX as u128 {
        return Err(ValidationError::AmountOverflow);
    }
    match action {
        Action::Unstake => {
            if sender.stake < tx.amount as i128 {
                return Err(ValidationError::InsufficientStake);
            }
            if sender.balance < tx.fee as i128 {
                return Err(ValidationError::InsufficientBalanceForFee);
            }
        },
        _ => {
            if sender.balance < total as i128 {
                return Err(ValidationError::InsufficientBalance);
            }
        },
    }
    Ok(action)
}

impl AccountBook {
    /// Whether the book accepts a transaction, and why not.
    pub fn validate(&self, tx: &Transaction) -> (r: Result<(), ValidationError>)
        requires
            self.well_formed(),
        ensures
            r == validation(account_of(self@, tx@.from), tx@),
    {
        match check_transaction(self.get(tx.from.as_str()), tx) {
            Ok(_) => Ok(()),
            Err(e) => Err(e),
        }
    }

    /// Applies a transaction where it is valid, and says why where it is not.
    /// A refused transaction leaves the book as it was.
    pub fn apply(&mut self, tx: &Transaction) -> (r: Result<(), ValidationError>)
        requires
            old(self).well_formed(),
        ensures
            final(self).well_formed(),
            r == validation(account_of(old(self)@, tx@.from), tx@),
            r is Ok ==> final(self)@ == applied(old(self)@, tx@),
            r is Err ==> final(self)@ == old(self)@,
            final(self)@ == stepped(old(self)@, tx@),
    {
        let sender: Account = self.get(tx.from.as_str());
        let action = match check_transaction(sender, tx) {
            Ok(action) => action,
            Err(e) => {
                return Err(e);
            },
        };
        let receiver: Account = self.get(tx.to.as_str());
        proof {
            self.lemma_sound();
            lemma_applied(self@, tx@);
            lemma_touched(self@, tx@.from);
            lemma_touched(touched(self@, tx@.from), tx@.to);
            lemma_account_of_bound(self@, tx@.from);
            lemma_account_of_bound(self@, tx@.to);
        }
        self.touch(tx.from.as_str());
        self.touch(tx.to.as_str());
        let ghost ready = self@;
        let same: bool = same_text(tx.from.as_str(), tx.to.as_str());
        let after: Account = match action {
            Action::Transfer => if same {
                Account { balance: sender.balance - tx.fee as i128, nonce: sender.nonce + 1, ..sender }
            } else {
                Account {
                    balance: sender.balance - (tx.amount as i128 + tx.fee as i128),
                    nonce: sender.nonce + 1,
                    ..sender
                }
            },
            Action::Stake => Account {
                balance: sender.balance - (tx.amount as i128 + tx.fee as i128),
                stake: sender.stake + tx.amount as i128,
                nonce: sender.nonce + 1,
                ..sender
            },
            Action::Unstake => Account {
                balance: sender.balance + tx.amount as i128 - tx.fee as i128,
                stake: sender.stake - tx.amount as i128,
                nonce: sender.nonce + 1,
                ..sender
            },
        };
        assert(after == debited(sender, tx@));
        proof {
            lemma_stored(ready, tx@.from, after);
            lemma_stored_funds(ready, tx@.from, after);
        }
        self.set(tx.from.as_str(), after);
        match action {
            Action::Transfer => {
                if !same {
                    proof {
                        assert(account_of(self@, tx@.to) == receiver);
                        self.lemma_sound();
                        lemma_account_of_bound(self@, tx@.to);
                        assert(funds(self@) == funds(old(self)@) - tx.amount - tx.fee);
                    }
                    let gained = Account { balance: receiver.balance + tx.amount as i128, ..receiver };
                    proof {
                        lemma_stored_funds(self@, tx@.to, gained);
                    }
                    self.set(tx.to.as_str(), gained);
                }
            },
            _ => {},
        }
        Ok(())
    }

    /// Applies the transactions of a block in order; one that is not valid
    /// when its turn comes is passed over.
    pub fn settle(&mut self, list: &Vec<Transaction>)
        requires
            old(self).well_formed(),
        ensures
            final(self).well_formed(),
            final(self)@ == settled(old(self)@, crate::transaction::transaction_views(list@)),
    {
        let ghost views = crate::transaction::transaction_views(list@);
        let mut i: usize = 0;
        while i < list.len()
            invariant
                views == crate::transaction::transaction_views(list@),
                i <= list@.len(),
                self.well_formed(),
                self@ == settled(old(self)@, views.take(i as int)),
            decreases list@.len() - i,
        {
            let _ = self.apply(&list[i]);
            proof {
                let next = views.take(i + 1);
                assert(next.drop_last() =~= views.take(i as int));
                assert(next.last() == list@[i as int]@);
            }
            i = i + 1;
        }
        proof {
            assert(views.take(i as int) =~= views);
        }
    }

    /// Whether the producer of a block can be given `reward`: the book has
    /// room for it, and the producer's reputation can still grow.
    pub open spec fn can_reward(book: Seq<Holding>, producer: Seq<char>, reward: u64) -> bool {
        funds(book) + reward <= i128::MAX && account_of(book, producer).reputation < i64::MAX
    }

    /// Whether the producer of a block can be given `reward`.
    pub fn accepts_reward(&self, producer: &str, reward: u64) -> (r: bool)
        requires
            self.well_formed(),
        ensures
            r == Self::can_reward(self@, producer@, reward),
    {
        self.has_room(reward) && self.get(producer).reputation < i64::MAX
    }

    /// Gives the producer of a block its reward and one more point of reputation.
    pub fn reward(&mut self, producer: &str, reward: u64)
        requires
            old(self).well_formed(),
            Self::can_reward(old(self)@, producer@, reward),
        ensures
            final(self).well_formed(),
            final(self)@ == rewarded(old(self)@, producer@, reward),
    {
        let before: Account = self.get(producer);
        proof {
            self.lemma_sound();
            lemma_account_of_bound(self@, producer@);
        }
        let after = Account {
            balance: before.balance + reward as i128,
            reputation: before.reputation + 1,
            ..before
        };
        self.set(producer, after);
    }

    /// Adds `amount` to the balance of an address.
    pub fn fund(&mut self, address: &str, amount: u64) -> (balance: i128)
        requires
            old(self).well_formed(),
            funds(old(self)@) + amount <= i128::MAX,
        ensures
            final(self).well_formed(),
            final(self)@ == funded(old(self)@, address@, amount),
            balance == account_of(old(self)@, address@).balance + amount,
    {
        let before: Account = self.get(address);
        proof {
            self.lemma_sound();
            lemma_account_of_bound(self@, address@);
        }
        let after = Account { balance: before.balance + amount as i128, ..before };
        self.set(address, after);
        after.balance
    }
}

} // verus!
