//! Laws of the ledger, stated over its models and proved once and for all.

use crate::account::{
    account_of, funds, lemma_account_of_bound, solvent, sound, Account, Holding,
};
use crate::block::{all_sealed, follows, lemma_linked_push, linked, sealed, BlockView};
use crate::gossip::{ingestion, BlockIngest, IngestError};
use crate::ledger::{
    applied, fees_burned, funded, lemma_applied, lemma_funded, lemma_rewarded, lemma_settled,
    sent_count, settled, valid, validation,
};
use crate::payments::{
    expiry_seconds, memo_fits, resolved, PaymentStatus, PaymentView, Sighting,
};
use crate::producer::{draft, lemma_sealing, produced, sealing};
use crate::rewards::{ascending, lemma_loyalty_step, loyalty_step, reached};
use crate::state::{block_effect, linkage, StateView};
use crate::sync::{accepted, has_id};
use crate::transaction::{action_of, Action, TransactionView, ValidationError};
use vstd::prelude::*;
use vstd::string::*;

verus! {

/// No account is ever in debt: after any list of transactions, of which the
/// valid ones are applied in order, the balance and the stake of every
/// address are not negative.
pub proof fn law_no_debt(book: Seq<Holding>, list: Seq<TransactionView>, address: Seq<char>)
    requires
        sound(book),
    ensures
        account_of(settled(book, list), address).balance >= 0,
        account_of(settled(book, list), address).stake >= 0,
        solvent(settled(book, list)),
{
    lemma_settled(book, list);
    lemma_account_of_bound(settled(book, list), address);
}

/// A block leaves no account in debt either: neither its transactions nor
/// the reward of its producer.
pub proof fn law_no_debt_after_block(
    book: Seq<Holding>,
    block: BlockView,
    reward: u64,
    address: Seq<char>,
)
    requires
        sound(book),
        funds(book) + reward <= i128::MAX,
        account_of(book, block.producer).reputation < i64::MAX,
    ensures
        sound(block_effect(book, block, reward)),
        account_of(block_effect(book, block, reward), address).balance >= 0,
        account_of(block_effect(book, block, reward), address).stake >= 0,
{
    lemma_settled(book, block.transactions);
    lemma_rewarded(settled(book, block.transactions), block.producer, reward);
    lemma_account_of_bound(block_effect(book, block, reward), address);
}

/// The chain stays linked when the node seals a block: every block stands at
/// its index and names the hash of the block before it.
pub proof fn law_produced_chain_linked(
    state: StateView,
    node_id: Seq<char>,
    timestamp: Seq<char>,
    reward: u64,
)
    requires
        state.sound(),
        state.blocks.len() < u64::MAX,
        state.can_reward(node_id, reward),
    ensures
        produced(state, node_id, timestamp, reward).sound(),
        linked(produced(state, node_id, timestamp, reward).blocks),
{
    let block = sealing(draft(state, node_id, timestamp));
    assert(follows(state.blocks, block));
    lemma_linked_push(state.blocks, block);
    lemma_settled(state.accounts, state.mempool);
    lemma_rewarded(settled(state.accounts, state.mempool), node_id, reward);
}

/// The chain stays linked when a block from a peer is accepted, and a block
/// is accepted only where it stands at the next index and names the hash of
/// the last block.
pub proof fn law_accepted_chain_linked(state: StateView, block: BlockView, reward: u64)
    requires
        state.sound(),
        state.can_reward(block.producer, reward),
        linkage(state.blocks, block) is Ok,
    ensures
        follows(state.blocks, block),
        accepted(state, block, reward).sound(),
        linked(accepted(state, block, reward).blocks),
        accepted(state, block, reward).blocks.len() == state.blocks.len() + 1,
{
    lemma_linked_push(state.blocks, block);
    lemma_settled(state.accounts, block.transactions);
    lemma_rewarded(settled(state.accounts, block.transactions), block.producer, reward);
}

/// The nonce of an address counts the applied transactions that it sent:
/// after any list of transactions it has grown by their number.
pub proof fn law_nonce_counts_sent(
    book: Seq<Holding>,
    list: Seq<TransactionView>,
    address: Seq<char>,
)
    requires
        sound(book),
    ensures
        account_of(settled(book, list), address).nonce == account_of(book, address).nonce
            + sent_count(book, list, address),
        account_of(book, address).nonce == 0 ==> account_of(settled(book, list), address).nonce
            == sent_count(book, list, address),
{
    lemma_settled(book, list);
}

/// One applied transaction raises the nonce of its sender by exactly one
/// and the nonce of no other address.
pub proof fn law_nonce_steps_by_one(book: Seq<Holding>, tx: TransactionView, other: Seq<char>)
    requires
        sound(book),
        valid(book, tx),
    ensures
        account_of(applied(book, tx), tx.from).nonce == account_of(book, tx.from).nonce + 1,
        other != tx.from ==> account_of(applied(book, tx), other).nonce == account_of(
            book,
            other,
        ).nonce,
{
    lemma_applied(book, tx);
}

/// A block that the node seals carries the hash of its content, and where
/// every earlier block after the first did, every block after the first
/// still does.
pub proof fn law_produced_block_sealed(
    state: StateView,
    node_id: Seq<char>,
    timestamp: Seq<char>,
    reward: u64,
)
    requires
        all_sealed(state.blocks),
    ensures
        sealed(produced(state, node_id, timestamp, reward).blocks.last()),
        all_sealed(produced(state, node_id, timestamp, reward).blocks),
{
    let block = sealing(draft(state, node_id, timestamp));
    lemma_sealing(draft(state, node_id, timestamp));
    let after = state.blocks.push(block);
    assert forall|i: int| 0 < i < after.len() implies sealed(#[trigger] after[i]) by {
        if i < state.blocks.len() {
            assert(after[i] == state.blocks[i]);
        }
    }
}

/// A block that gossip ingress accepts carries the hash of its content, and
/// where every earlier block after the first did, every block after the
/// first still does.
pub proof fn law_ingested_block_sealed(state: StateView, block: BlockView, reward: u64)
    requires
        all_sealed(state.blocks),
        ingestion(state, block) == Ok::<BlockIngest, IngestError>(BlockIngest::Accepted),
    ensures
        sealed(block),
        all_sealed(accepted(state, block, reward).blocks),
{
    let after = state.blocks.push(block);
    assert forall|i: int| 0 < i < after.len() implies sealed(#[trigger] after[i]) by {
        if i < state.blocks.len() {
            assert(after[i] == state.blocks[i]);
        }
    }
}

/// Transactions make no funds and lose none but the fees: after any list of
/// transactions, what all accounts hold has gone down by the fees of the
/// applied transactions, and by nothing else.
pub proof fn law_funds_conserved(book: Seq<Holding>, list: Seq<TransactionView>)
    requires
        sound(book),
    ensures
        funds(settled(book, list)) == funds(book) - fees_burned(book, list),
        0 <= fees_burned(book, list) <= funds(book),
{
    lemma_settled(book, list);
    crate::account::lemma_funds_nonnegative(settled(book, list));
}

/// In a transfer between two accounts the receiver gains the amount, and
/// the sender loses the amount and the fee.
pub proof fn law_transfer_moves_amount(book: Seq<Holding>, tx: TransactionView)
    requires
        sound(book),
        valid(book, tx),
        action_of(tx.action) == Some(Action::Transfer),
        tx.from != tx.to,
    ensures
        account_of(applied(book, tx), tx.to).balance == account_of(book, tx.to).balance + tx.amount,
        account_of(applied(book, tx), tx.from).balance == account_of(book, tx.from).balance
            - tx.amount - tx.fee,
        funds(applied(book, tx)) == funds(book) - tx.fee,
{
    lemma_applied(book, tx);
    lemma_account_of_bound(book, tx.from);
    lemma_account_of_bound(book, tx.to);
}

/// A transaction that was applied is refused when it comes again: its nonce
/// is no longer the one that follows the sender's.
pub proof fn law_replay_refused(book: Seq<Holding>, tx: TransactionView)
    requires
        sound(book),
        valid(book, tx),
    ensures
        !valid(applied(book, tx), tx),
        validation(account_of(applied(book, tx), tx.from), tx) == Err::<(), ValidationError>(
            ValidationError::InvalidNonce { expected: (tx.nonce + 1) as u128, got: tx.nonce },
        ),
{
    lemma_applied(book, tx);
}

/// A transaction that gossip brought into the mempool is ignored when
/// gossip brings it again: the mempool holds its id.
pub proof fn law_second_delivery_ignored(mempool: Seq<TransactionView>, tx: TransactionView)
    ensures
        has_id(mempool.push(tx), tx.id),
{
    let after = mempool.push(tx);
    assert(after[mempool.len() as int].id == tx.id);
}

/// A block that gossip ingress accepted is ignored when it is delivered
/// again, whatever happened to the accounts in between.
pub proof fn law_block_redelivery_ignored(state: StateView, block: BlockView, reward: u64)
    requires
        ingestion(state, block) == Ok::<BlockIngest, IngestError>(BlockIngest::Accepted),
    ensures
        ingestion(accepted(state, block, reward), block) == Ok::<BlockIngest, IngestError>(
            BlockIngest::Ignored,
        ),
{
    let after = state.blocks.push(block);
    assert(after[state.blocks.len() as int].hash == block.hash);
}

/// Only the nonce that follows the sender's is accepted: a valid
/// transaction carries it, and a transaction with any other nonce that is
/// otherwise well made is refused for its nonce.
pub proof fn law_nonce_exact(sender: Account, tx: TransactionView)
    ensures
        validation(sender, tx) is Ok ==> tx.nonce == sender.nonce + 1,
        action_of(tx.action) is Some && tx.amount > 0 && tx.from.len() > 0 && tx.to.len() > 0
            && tx.nonce != sender.nonce + 1 ==> validation(sender, tx) == Err::<
            (),
            ValidationError,
        >(ValidationError::InvalidNonce { expected: (sender.nonce + 1) as u128, got: tx.nonce }),
{
}

/// A transfer from an account to itself costs the fee and nothing else,
/// and raises the nonce by one.
pub proof fn law_self_transfer(book: Seq<Holding>, tx: TransactionView)
    requires
        sound(book),
        valid(book, tx),
        action_of(tx.action) == Some(Action::Transfer),
        tx.from == tx.to,
    ensures
        account_of(applied(book, tx), tx.from).balance == account_of(book, tx.from).balance
            - tx.fee,
        account_of(applied(book, tx), tx.from).stake == account_of(book, tx.from).stake,
        account_of(applied(book, tx), tx.from).nonce == account_of(book, tx.from).nonce + 1,
{
    lemma_applied(book, tx);
    lemma_account_of_bound(book, tx.from);
}

/// An unstake is refused where the stake does not cover the amount, and
/// where the balance does not cover the fee.
pub proof fn law_unstake_needs_stake_and_fee(sender: Account, tx: TransactionView)
    requires
        action_of(tx.action) == Some(Action::Unstake),
    ensures
        sender.stake < tx.amount ==> validation(sender, tx) is Err,
        sender.balance < tx.fee ==> validation(sender, tx) is Err,
        validation(sender, tx) is Ok ==> sender.stake >= tx.amount && sender.balance >= tx.fee,
{
}

/// A memo of 256 characters fits, one of 257 does not.
pub proof fn law_memo_limit(memo: Seq<char>)
    ensures
        memo_fits(Some(memo)) <==> memo.len() <= 256,
        memo_fits(None),
{
}

/// A transaction whose amount and fee together do not fit 64 bits is
/// refused.
pub proof fn law_overflow_refused(sender: Account, tx: TransactionView)
    requires
        tx.amount + tx.fee > u64::MAX,
    ensures
        validation(sender, tx) is Err,
        validation(sender, tx) is Ok ==> tx.amount + tx.fee <= u64::MAX,
        action_of(tx.action) is Some && tx.amount > 0 && tx.from.len() > 0 && tx.to.len() > 0
            && tx.nonce == sender.nonce + 1 ==> validation(sender, tx) == Err::<
            (),
            ValidationError,
        >(ValidationError::AmountOverflow),
{
}

/// A payment waits at least a minute, whatever the caller asks for.
pub proof fn law_expiry_floor(asked: Option<u64>)
    ensures
        expiry_seconds(asked) >= 60,
        asked is Some && asked->0 >= 60 ==> expiry_seconds(asked) == asked->0,
{
}

/// A payment that has run out of time, and that no transaction pays,
/// expires at the first look; a paid or expired payment never changes.
pub proof fn law_payment_lifecycle(payment: PaymentView, found: Option<Sighting>, expired: bool)
    ensures
        !payment.status.is_final() && found is None && expired ==> resolved(
            payment,
            found,
            expired,
        ).status == PaymentStatus::Expired,
        payment.status.is_final() ==> resolved(payment, found, expired) == payment,
        !payment.status.is_final() && found is Some && found->0.block_index is Some ==> resolved(
            payment,
            found,
            expired,
        ).status == PaymentStatus::Paid,
{
}

/// The faucet leaves no account in debt either, and makes exactly the
/// amount that it gives.
pub proof fn law_no_debt_after_faucet(
    book: Seq<Holding>,
    address: Seq<char>,
    amount: u64,
    other: Seq<char>,
)
    requires
        sound(book),
        funds(book) + amount <= i128::MAX,
    ensures
        sound(funded(book, address, amount)),
        funds(funded(book, address, amount)) == funds(book) + amount,
        account_of(funded(book, address, amount), other).balance >= 0,
        account_of(funded(book, address, amount), other).stake >= 0,
{
    lemma_funded(book, address, amount);
    lemma_account_of_bound(funded(book, address, amount), other);
}

/// Where the steps ask for more and more days, the loyalty step is the last
/// step that the uptime has reached.
pub proof fn law_loyalty_step_is_last_reached(steps: Seq<u64>, uptime_seconds: u64)
    requires
        ascending(steps),
    ensures
        match loyalty_step(steps, uptime_seconds) {
            Some(k) => forall|i: int|
                k < i < steps.len() ==> !reached(#[trigger] steps[i], uptime_seconds),
            None => true,
        },
{
    lemma_loyalty_step(steps, uptime_seconds);
    match loyalty_step(steps, uptime_seconds) {
        Some(k) => {
            assert forall|i: int| k < i < steps.len() implies !reached(
                #[trigger] steps[i],
                uptime_seconds,
            ) by {
                assert(steps[k] <= steps[i]);
            }
        },
        None => {},
    }
}


/// Reading back the name of an action gives the action.
pub proof fn law_action_names(action: Action)
    ensures
        action_of(action.name_text()) == Some(action),
{
    reveal_strlit("transfer");
    reveal_strlit("stake");
    reveal_strlit("unstake");
    assert("transfer"@.len() == 8);
    assert("stake"@.len() == 5);
    assert("unstake"@.len() == 7);
}


} // verus!
