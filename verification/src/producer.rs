//! The block producer: seals the waiting transactions into the next block.

use crate::block::{block_digest, compute_block_hash, sealed, tip_hash, Block, BlockView};
use crate::clock::now_iso;
use crate::state::{block_effect, State, StateView};
use crate::transaction::{Transaction, TransactionView};
use vstd::prelude::*;
use vstd::string::*;

verus! {

/// The block that a node builds of its mempool, before it is sealed: it
/// stands at the next index, names the hash of the last block, and holds
/// the waiting transactions in their order.
pub open spec fn draft(state: StateView, node_id: Seq<char>, timestamp: Seq<char>) -> BlockView {
    BlockView {
        index: state.blocks.len() as u64,
        previous_hash: tip_hash(state.blocks),
        hash: Seq::empty(),
        timestamp,
        producer: node_id,
        transactions: state.mempool,
    }
}

/// A block with the hash of its content filled in.
pub open spec fn sealing(block: BlockView) -> BlockView {
    BlockView { hash: block_digest(block), ..block }
}

/// The state after the node sealed a block of its mempool.
pub open spec fn produced(
    state: StateView,
    node_id: Seq<char>,
    timestamp: Seq<char>,
    reward: u64,
) -> StateView {
    StateView {
        blocks: state.blocks.push(sealing(draft(state, node_id, timestamp))),
        accounts: block_effect(state.accounts, draft(state, node_id, timestamp), reward),
        mempool: Seq::empty(),
        produced_blocks: (state.produced_blocks + 1) as u64,
        started_at: state.started_at,
    }
}

/// A block with its hash filled in carries the hash of its content.
pub proof fn lemma_sealing(block: BlockView)
    ensures
        sealed(sealing(block)),
{
}

impl State {
    /// Whether the producer can tick with the given reward: the mempool is
    /// empty, so that nothing happens, or the node can be given the reward.
    pub fn ready_to_produce(&self, node_id: &str, reward: u64) -> (r: bool)
        requires
            self.well_formed(),
        ensures
            r == (self@.mempool.len() > 0 ==> self@.can_reward(node_id@, reward)),
    {
        self.mempool().len() == 0 || self.accepts_reward(node_id, reward)
    }

    /// One tick of the producer. With an empty mempool nothing happens.
    /// Otherwise all waiting transactions go into a block that follows the
    /// chain; the block is applied, sealed with its hash and added, and the
    /// node counts one more block of its own. The sealed block is handed out
    /// for the peers.
    pub fn produce_block_at(&mut self, node_id: &str, timestamp: String, reward: u64) -> (r: Option<
        Block,
    >)
        requires
            old(self).well_formed(),
            old(self)@.mempool.len() > 0 ==> old(self)@.can_reward(node_id@, reward),
        ensures
            final(self).well_formed(),
            old(self)@.mempool.len() == 0 ==> r is None && final(self)@ == old(self)@,
            old(self)@.mempool.len() > 0 ==> (r matches Some(block) && block@ == sealing(
                draft(old(self)@, node_id@, timestamp@),
            ) && final(self)@ == produced(old(self)@, node_id@, timestamp@, reward)),
    {
        if self.mempool().len() == 0 {
            return None;
        }
        let ghost before = self@;
        proof {
            self.lemma_sound();
        }
        let transactions: Vec<Transaction> = self.swap_mempool(Vec::new());
        let previous_hash: String = match self.latest_hash() {
            Some(hash) => hash,
            None => "genesis".to_string(),
        };
        let mut block = Block {
            index: self.blocks().len() as u64,
            previous_hash,
            hash: String::new(),
            timestamp,
            producer: node_id.to_owned(),
            transactions,
        };
        proof {
            assert(block@ == draft(before, node_id@, timestamp@));
            assert(self@.mempool =~= Seq::<TransactionView>::empty());
        }
        match self.apply_block(&block, reward) {
            Ok(()) => {
                block.hash = compute_block_hash(&block);
                let copy = block.clone();
                self.append_block(block);
                self.count_produced();
                Some(copy)
            },
            Err(_) => None,
        }
    }

    /// One tick of the producer, with the current time as the block's
    /// timestamp.
    pub fn produce_block(&mut self, node_id: &str, reward: u64) -> (r: Option<Block>)
        requires
            old(self).well_formed(),
            old(self)@.mempool.len() > 0 ==> old(self)@.can_reward(node_id@, reward),
        ensures
            final(self).well_formed(),
            old(self)@.mempool.len() == 0 ==> r is None && final(self)@ == old(self)@,
            old(self)@.mempool.len() > 0 ==> (r matches Some(block) && block@ == sealing(
                draft(old(self)@, node_id@, block@.timestamp),
            ) && final(self)@ == produced(old(self)@, node_id@, block@.timestamp, reward)),
    {
        let timestamp = now_iso();
        self.produce_block_at(node_id, timestamp, reward)
    }
}

} // verus!
