//! The state of a node: its chain, its accounts and its mempool.

use crate::account::{
    account_of, funds, holdings, sound, stakes, Account, AccountBook, AccountEntry, Holding,
};
use crate::block::{
    block_views, follows, genesis_block, genesis_hash, lemma_linked_push, linked, tip_hash, Block,
    BlockView,
};
use crate::ledger::{applied, funded, rewarded, settled, validation};
use crate::text::same_text;
use crate::transaction::{transaction_views, Transaction, TransactionView, ValidationError};
use vstd::prelude::*;
use vstd::string::*;

verus! {

/// Why a block cannot follow the chain.
#[derive(Clone, Copy, Debug, PartialEq, Eq, Structural)]
pub enum LinkageError {
    /// The block does not stand at the next index.
    InvalidIndex,
    /// The block does not name the hash of the last block.
    PreviousHashMismatch,
}

impl LinkageError {
    /// The text that a caller is shown for the error.
    pub open spec fn message_text(self) -> Seq<char> {
        match self {
            LinkageError::InvalidIndex => "invalid block index"@,
            LinkageError::PreviousHashMismatch => "previous hash mismatch"@,
        }
    }

    /// The text that a caller is shown for the error.
    pub fn message(&self) -> (r: String)
        ensures
            r@ == self.message_text(),
    {
        match self {
            LinkageError::InvalidIndex => "invalid block index".to_string(),
            LinkageError::PreviousHashMismatch => "previous hash mismatch".to_string(),
        }
    }
}

/// Why the faucet gives nothing.
#[derive(Clone, Copy, Debug, PartialEq, Eq, Structural)]
pub enum FaucetError {
    /// The node runs without a faucet.
    Disabled,
    /// The address is empty.
    MissingAddress,
    /// The amount is zero.
    InvalidAmount,
}

impl FaucetError {
    /// The text that a caller is shown for the error.
    pub open spec fn message_text(self) -> Seq<char> {
        match self {
            FaucetError::Disabled => "Faucet disabled"@,
            FaucetError::MissingAddress => "missing address"@,
            FaucetError::InvalidAmount => "invalid amount"@,
        }
    }

    /// The text that a caller is shown for the error.
    pub fn message(&self) -> (r: String)
        ensures
            r@ == self.message_text(),
    {
        match self {
            FaucetError::Disabled => "Faucet disabled".to_string(),
            FaucetError::MissingAddress => "missing address".to_string(),
            FaucetError::InvalidAmount => "invalid amount".to_string(),
        }
    }
}

/// Whether a block can follow the chain, and why not.
pub open spec fn linkage(chain: Seq<BlockView>, block: BlockView) -> Result<(), LinkageError> {
    if block.index != chain.len() {
        Err(LinkageError::InvalidIndex)
    } else if block.previous_hash != tip_hash(chain) {
        Err(LinkageError::PreviousHashMismatch)
    } else {
        Ok(())
    }
}

/// The accounts after a block: its transactions in order, then the
/// producer's reward.
pub open spec fn block_effect(book: Seq<Holding>, block: BlockView, reward: u64) -> Seq<Holding> {
    rewarded(settled(book, block.transactions), block.producer, reward)
}

/// What the faucet gives where the caller names no amount.
pub const DEFAULT_FAUCET_AMOUNT: u64 = 1000;

/// The amount of a faucet request.
pub open spec fn faucet_amount(amount: Option<u64>) -> u64 {
    match amount {
        Some(a) => a,
        None => DEFAULT_FAUCET_AMOUNT,
    }
}

/// Whether the faucet serves a request, and why not.
pub open spec fn faucet_check(address: Seq<char>, amount: Option<u64>, enabled: bool) -> Result<
    (),
    FaucetError,
> {
    if !enabled {
        Err(FaucetError::Disabled)
    } else if address.len() == 0 {
        Err(FaucetError::MissingAddress)
    } else if faucet_amount(amount) == 0 {
        Err(FaucetError::InvalidAmount)
    } else {
        Ok(())
    }
}

/// How many blocks a page holds where the caller names no limit.
pub const DEFAULT_PAGE: usize = 20;

/// The most blocks that a page holds.
pub const MAX_PAGE: usize = 100;

/// The size of a page: what the caller asks for, but no more than a hundred.
pub open spec fn page_limit(limit: Option<usize>) -> nat {
    match limit {
        Some(l) => if l < MAX_PAGE {
            l as nat
        } else {
            MAX_PAGE as nat
        },
        None => DEFAULT_PAGE as nat,
    }
}

/// How many blocks a page passes over.
pub open spec fn page_offset(offset: Option<usize>) -> nat {
    match offset {
        Some(o) => o as nat,
        None => 0,
    }
}

/// One page of a chain, newest block first: `offset` blocks are passed over,
/// and up to `limit` blocks follow.
pub open spec fn page(chain: Seq<BlockView>, limit: nat, offset: nat) -> Seq<BlockView> {
    let start = if offset < chain.len() {
        offset
    } else {
        chain.len()
    };
    let count = if limit < chain.len() - start {
        limit
    } else {
        (chain.len() - start) as nat
    };
    Seq::new(count, |k: int| chain[chain.len() - 1 - start - k])
}

/// The model of a node's state.
pub struct StateView {
    pub blocks: Seq<BlockView>,
    pub accounts: Seq<Holding>,
    pub mempool: Seq<TransactionView>,
    pub produced_blocks: u64,
    pub started_at: u64,
}

impl StateView {
    /// The chain is linked, the accounts are sound, and the node has sealed
    /// no more blocks than the chain holds.
    pub open spec fn sound(self) -> bool {
        &&& linked(self.blocks)
        &&& sound(self.accounts)
        &&& self.produced_blocks <= self.blocks.len()
    }

    /// The index of the last block, or zero for an empty chain.
    pub open spec fn height(self) -> u64 {
        if self.blocks.len() == 0 {
            0
        } else {
            self.blocks.last().index
        }
    }

    /// The account of an address: all zero where the address is unknown.
    pub open spec fn account(self, address: Seq<char>) -> Account {
        account_of(self.accounts, address)
    }

    /// Whether the producer of the next block can be given `reward`.
    pub open spec fn can_reward(self, producer: Seq<char>, reward: u64) -> bool {
        AccountBook::can_reward(self.accounts, producer, reward)
    }
}

/// The state of a node: its chain, its accounts and its mempool.
#[derive(Debug)]
pub struct State {
    blocks: Vec<Block>,
    accounts: AccountBook,
    mempool: Vec<Transaction>,
    produced_blocks: u64,
    started_at: u64,
}

impl View for State {
    type V = StateView;

    closed spec fn view(&self) -> StateView {
        StateView {
            blocks: block_views(self.blocks@),
            accounts: self.accounts@,
            mempool: transaction_views(self.mempool@),
            produced_blocks: self.produced_blocks,
            started_at: self.started_at,
        }
    }
}

impl State {
    /// The state agrees with a sound model.
    pub closed spec fn well_formed(&self) -> bool {
        &&& self.accounts.well_formed()
        &&& self@.sound()
    }

    /// A well-formed state has a sound model.
    pub proof fn lemma_sound(&self)
        requires
            self.well_formed(),
        ensures
            self@.sound(),
    {
    }

    /// The state of a fresh node: a chain of the genesis block alone, no
    /// accounts, an empty mempool.
    pub fn new(node_id: &str, timestamp: String, started_at: u64) -> (state: State)
        ensures
            state.well_formed(),
            state@.blocks.len() == 1,
            state@.blocks[0] == (BlockView {
                index: 0,
                previous_hash: genesis_hash(),
                hash: genesis_hash(),
                timestamp: timestamp@,
                producer: node_id@,
                transactions: Seq::empty(),
            }),
            state@.accounts == Seq::<Holding>::empty(),
            state@.mempool == Seq::<TransactionView>::empty(),
            state@.produced_blocks == 0,
            state@.started_at == started_at,
    {
        let mut blocks: Vec<Block> = Vec::new();
        blocks.push(genesis_block(node_id, timestamp));
        let state = State {
            blocks,
            accounts: AccountBook::new(),
            mempool: Vec::new(),
            produced_blocks: 0,
            started_at,
        };
        proof {
            assert(state@.mempool =~= Seq::<TransactionView>::empty());
            assert(state@.blocks.len() == 1);
        }
        state
    }

    /// Makes a state of its parts, where they form a sound state: the chain
    /// linked, no address twice, no account in debt, and no more blocks
    /// sealed than the chain holds.
    pub fn from_parts(
        blocks: Vec<Block>,
        entries: Vec<AccountEntry>,
        mempool: Vec<Transaction>,
        produced_blocks: u64,
        started_at: u64,
    ) -> (r: Option<State>)
        ensures
            r is Some <==> (StateView {
                blocks: block_views(blocks@),
                accounts: holdings(entries@),
                mempool: transaction_views(mempool@),
                produced_blocks,
                started_at,
            }).sound(),
            r matches Some(state) ==> state.well_formed() && state@ == (StateView {
                blocks: block_views(blocks@),
                accounts: holdings(entries@),
                mempool: transaction_views(mempool@),
                produced_blocks,
                started_at,
            }),
    {
        let ghost chain = block_views(blocks@);
        if produced_blocks as u128 > blocks.len() as u128 {
            return None;
        }
        let mut i: usize = 0;
        while i < blocks.len()
            invariant
                chain == block_views(blocks@),
                i <= blocks@.len(),
                linked(chain.take(i as int)),
            decreases blocks@.len() - i,
        {
            if blocks[i].index as u128 != i as u128 {
                proof {
                    assert(chain[i as int].index != i);
                }
                return None;
            }
            if i > 0 && !same_text(
                blocks[i].previous_hash.as_str(),
                blocks[i - 1].hash.as_str(),
            ) {
                proof {
                    assert(chain[i as int].previous_hash != chain[i - 1].hash);
                }
                return None;
            }
            proof {
                let next = chain.take(i + 1);
                assert forall|k: int| 0 <= k < next.len() implies (#[trigger] next[k]).index == k by {
                    if k < i {
                        assert(chain.take(i as int)[k].index == k);
                    }
                }
                assert forall|k: int| 0 < k < next.len() implies (#[trigger] next[k]).previous_hash
                    == next[k - 1].hash by {
                    if k < i {
                        assert(chain.take(i as int)[k].previous_hash == chain.take(
                            i as int,
                        )[k - 1].hash);
                    }
                }
            }
            i = i + 1;
        }
        proof {
            assert(chain.take(i as int) =~= chain);
        }
        match AccountBook::from_entries(entries) {
            Some(accounts) => Some(State { blocks, accounts, mempool, produced_blocks, started_at }),
            None => None,
        }
    }

    /// The parts of the state, as `from_parts` takes them: the chain, the
    /// accounts in the order in which they first appeared, the mempool, the
    /// number of blocks sealed here, and the time of the first start. The
    /// parts of a well-formed state make the same state again.
    pub fn to_parts(&self) -> (r: (Vec<Block>, Vec<AccountEntry>, Vec<Transaction>, u64, u64))
        ensures
            self@ == (StateView {
                blocks: block_views(r.0@),
                accounts: holdings(r.1@),
                mempool: transaction_views(r.2@),
                produced_blocks: r.3,
                started_at: r.4,
            }),
    {
        let mut blocks: Vec<Block> = Vec::new();
        let mut i: usize = 0;
        while i < self.blocks.len()
            invariant
                i <= self.blocks@.len(),
                blocks@.len() == i,
                forall|j: int| 0 <= j < i ==> (#[trigger] blocks@[j])@ == self.blocks@[j]@,
            decreases self.blocks@.len() - i,
        {
            blocks.push(self.blocks[i].clone());
            i = i + 1;
        }
        proof {
            assert(block_views(blocks@) =~= block_views(self.blocks@));
        }
        (
            blocks,
            self.accounts.entries(),
            crate::transaction::clone_transactions(&self.mempool),
            self.produced_blocks,
            self.started_at,
        )
    }

    /// A copy of the state, made of its parts: a state that is taken apart
    /// and put together again is the same state.
    pub fn duplicate(&self) -> (copy: State)
        requires
            self.well_formed(),
        ensures
            copy.well_formed(),
            copy@ == self@,
    {
        let (blocks, entries, mempool, produced_blocks, started_at) = self.to_parts();
        match State::from_parts(blocks, entries, mempool, produced_blocks, started_at) {
            Some(copy) => copy,
            None => State {
                blocks: Vec::new(),
                accounts: AccountBook::new(),
                mempool: Vec::new(),
                produced_blocks: 0,
                started_at: 0,
            },
        }
    }

    /// The chain.
    pub fn blocks(&self) -> (r: &Vec<Block>)
        ensures
            block_views(r@) == self@.blocks,
    {
        &self.blocks
    }

    /// The accounts.
    pub fn accounts(&self) -> (r: &AccountBook)
        ensures
            r@ == self@.accounts,
            self.well_formed() ==> r.well_formed(),
    {
        &self.accounts
    }

    /// The transactions that wait for a block.
    pub fn mempool(&self) -> (r: &Vec<Transaction>)
        ensures
            transaction_views(r@) == self@.mempool,
    {
        &self.mempool
    }

    /// How many blocks this node has sealed itself.
    pub fn produced_blocks(&self) -> (r: u64)
        ensures
            r == self@.produced_blocks,
    {
        self.produced_blocks
    }

    /// When the node first started, in seconds since the epoch.
    pub fn started_at(&self) -> (r: u64)
        ensures
            r == self@.started_at,
    {
        self.started_at
    }

    /// The index of the last block, or zero for an empty chain.
    pub fn height(&self) -> (r: u64)
        ensures
            r == self@.height(),
    {
        if self.blocks.len() == 0 {
            0
        } else {
            self.blocks[self.blocks.len() - 1].index
        }
    }

    /// The hash of the last block, where there is one.
    pub fn latest_hash(&self) -> (r: Option<String>)
        ensures
            match r {
                Some(h) => self@.blocks.len() > 0 && h@ == self@.blocks.last().hash,
                None => self@.blocks.len() == 0,
            },
    {
        if self.blocks.len() == 0 {
            None
        } else {
            Some(self.blocks[self.blocks.len() - 1].hash.clone())
        }
    }

    /// The account of an address: all zero where the address is unknown.
    pub fn account(&self, address: &str) -> (r: Account)
        requires
            self.well_formed(),
        ensures
            r == self@.account(address@),
    {
        self.accounts.get(address)
    }

    /// All stakes together.
    pub fn total_stake(&self) -> (r: i128)
        requires
            self.well_formed(),
        ensures
            r == stakes(self@.accounts),
    {
        self.accounts.total_stake()
    }

    /// The block at a height, where the chain reaches it.
    pub fn block_at(&self, height: u64) -> (r: Option<&Block>)
        requires
            self.well_formed(),
        ensures
            match r {
                Some(b) => height < self@.blocks.len() && b@ == self@.blocks[height as int]
                    && b@.index == height,
                None => height >= self@.blocks.len(),
            },
    {
        if (height as u128) < self.blocks.len() as u128 {
            proof {
                assert(self@.blocks[height as int].index == height);
            }
            Some(&self.blocks[height as usize])
        } else {
            None
        }
    }

    /// One page of the chain, newest block first.
    pub fn blocks_page(&self, limit: Option<usize>, offset: Option<usize>) -> (r: Vec<Block>)
        ensures
            block_views(r@) == page(self@.blocks, page_limit(limit), page_offset(offset)),
    {
        let size: usize = match limit {
            Some(l) => if l < MAX_PAGE {
                l
            } else {
                MAX_PAGE
            },
            None => DEFAULT_PAGE,
        };
        let skipped: usize = match offset {
            Some(o) => o,
            None => 0,
        };
        let held: usize = self.blocks.len();
        let start: usize = if skipped < held {
            skipped
        } else {
            held
        };
        let count: usize = if size < held - start {
            size
        } else {
            held - start
        };
        let mut out: Vec<Block> = Vec::new();
        let mut k: usize = 0;
        while k < count
            invariant
                held == self.blocks@.len(),
                start <= held,
                count <= held - start,
                k <= count,
                out@.len() == k,
                forall|j: int| 0 <= j < k ==> (#[trigger] out@[j])@ == self.blocks@[held - 1 - start - j]@,
            decreases count - k,
        {
            out.push(self.blocks[held - 1 - start - k].clone());
            k = k + 1;
        }
        proof {
            assert(block_views(out@) =~= page(self@.blocks, page_limit(limit), page_offset(offset)));
        }
        out
    }

    /// Whether the state accepts a transaction, and why not.
    pub fn validate_transaction(&self, tx: &Transaction) -> (r: Result<(), ValidationError>)
        requires
            self.well_formed(),
        ensures
            r == validation(self@.account(tx@.from), tx@),
    {
        self.accounts.validate(tx)
    }

    /// Applies a transaction to the accounts where it is valid, and says why
    /// where it is not. A refused transaction changes nothing.
    pub fn apply_transaction(&mut self, tx: &Transaction) -> (r: Result<(), ValidationError>)
        requires
            old(self).well_formed(),
        ensures
            final(self).well_formed(),
            r == validation(old(self)@.account(tx@.from), tx@),
            r is Ok ==> final(self)@ == (StateView {
                accounts: applied(old(self)@.accounts, tx@),
                ..old(self)@
            }),
            r is Err ==> final(self)@ == old(self)@,
    {
        let r = self.accounts.apply(tx);
        proof {
            self.accounts.lemma_sound();
        }
        r
    }

    /// Whether the producer of the next block can be given `reward`: the
    /// accounts have room for it, and the producer's reputation can still
    /// grow. A block is applied only where this holds of its producer.
    pub fn accepts_reward(&self, producer: &str, reward: u64) -> (r: bool)
        requires
            self.well_formed(),
        ensures
            r == self@.can_reward(producer@, reward),
    {
        self.accounts.accepts_reward(producer, reward)
    }

    /// Whether a block can follow the chain, and why not.
    pub fn check_linkage(&self, block: &Block) -> (r: Result<(), LinkageError>)
        ensures
            r == linkage(self@.blocks, block@),
    {
        if block.index as u128 != self.blocks.len() as u128 {
            return Err(LinkageError::InvalidIndex);
        }
        let follows_tip: bool = if self.blocks.len() == 0 {
            same_text(block.previous_hash.as_str(), "genesis")
        } else {
            same_text(
                block.previous_hash.as_str(),
                self.blocks[self.blocks.len() - 1].hash.as_str(),
            )
        };
        if !follows_tip {
            return Err(LinkageError::PreviousHashMismatch);
        }
        Ok(())
    }

    /// Whether the state can take a block with the given reward: the block
    /// cannot follow the chain anyway, or its producer can be given the
    /// reward.
    pub fn ready_for_block(&self, block: &Block, reward: u64) -> (r: bool)
        requires
            self.well_formed(),
        ensures
            r == (linkage(self@.blocks, block@) is Ok ==> self@.can_reward(
                block@.producer,
                reward,
            )),
    {
        self.check_linkage(block).is_err() || self.accepts_reward(block.producer.as_str(), reward)
    }

    /// Applies a block to the accounts where it can follow the chain: its
    /// transactions in order, an invalid one passed over, then the producer's
    /// reward. The block is not added to the chain. A block that cannot follow
    /// changes nothing.
    pub fn apply_block(&mut self, block: &Block, reward: u64) -> (r: Result<(), LinkageError>)
        requires
            old(self).well_formed(),
            linkage(old(self)@.blocks, block@) is Ok ==> old(self)@.can_reward(
                block@.producer,
                reward,
            ),
        ensures
            final(self).well_formed(),
            r == linkage(old(self)@.blocks, block@),
            r is Ok ==> final(self)@ == (StateView {
                accounts: block_effect(old(self)@.accounts, block@, reward),
                ..old(self)@
            }),
            r is Err ==> final(self)@ == old(self)@,
    {
        match self.check_linkage(block) {
            Ok(()) => {},
            Err(e) => {
                return Err(e);
            },
        }
        proof {
            self.accounts.lemma_sound();
            crate::ledger::lemma_settled(self@.accounts, block@.transactions);
        }
        self.accounts.settle(&block.transactions);
        self.accounts.reward(block.producer.as_str(), reward);
        proof {
            self.accounts.lemma_sound();
        }
        Ok(())
    }

    /// Whether `amount` more fits the accounts. The faucet serves a request
    /// only where this holds of its amount.
    pub fn has_room(&self, amount: u64) -> (r: bool)
        requires
            self.well_formed(),
        ensures
            r == (funds(self@.accounts) + amount <= i128::MAX),
    {
        self.accounts.has_room(amount)
    }

    /// Whether the state can take a faucet request: the request is refused
    /// anyway, or its amount fits the accounts.
    pub fn ready_for_faucet(&self, address: &str, amount: Option<u64>, enabled: bool) -> (r: bool)
        requires
            self.well_formed(),
        ensures
            r == (faucet_check(address@, amount, enabled) is Ok ==> funds(self@.accounts)
                + faucet_amount(amount) <= i128::MAX),
    {
        let credit: u64 = match amount {
            Some(a) => a,
            None => DEFAULT_FAUCET_AMOUNT,
        };
        !enabled || address.is_empty() || credit == 0 || self.has_room(credit)
    }

    /// Credits an address from the faucet, where the faucet is enabled, the
    /// address is not empty and the amount is not zero, and gives the new
    /// balance. A request that names no amount gets the default amount.
    pub fn faucet(&mut self, address: &str, amount: Option<u64>, enabled: bool) -> (r: Result<
        i128,
        FaucetError,
    >)
        requires
            old(self).well_formed(),
            faucet_check(address@, amount, enabled) is Ok ==> funds(old(self)@.accounts)
                + faucet_amount(amount) <= i128::MAX,
        ensures
            final(self).well_formed(),
            match r {
                Ok(balance) => faucet_check(address@, amount, enabled) is Ok && final(self)@ == (
                StateView {
                    accounts: funded(old(self)@.accounts, address@, faucet_amount(amount)),
                    ..old(self)@
                }) && balance == old(self)@.account(address@).balance + faucet_amount(amount),
                Err(e) => faucet_check(address@, amount, enabled) == Err::<(), FaucetError>(e)
                    && final(self)@ == old(self)@,
            },
    {
        if !enabled {
            return Err(FaucetError::Disabled);
        }
        if address.is_empty() {
            return Err(FaucetError::MissingAddress);
        }
        let credit: u64 = match amount {
            Some(a) => a,
            None => DEFAULT_FAUCET_AMOUNT,
        };
        if credit == 0 {
            return Err(FaucetError::InvalidAmount);
        }
        let balance = self.accounts.fund(address, credit);
        proof {
            self.accounts.lemma_sound();
        }
        Ok(balance)
    }

    /// Adds a block that follows the chain.
    pub(crate) fn append_block(&mut self, block: Block)
        requires
            old(self).well_formed(),
            follows(old(self)@.blocks, block@),
        ensures
            final(self).well_formed(),
            final(self)@ == (StateView {
                blocks: old(self)@.blocks.push(block@),
                ..old(self)@
            }),
    {
        proof {
            lemma_linked_push(self@.blocks, block@);
        }
        self.blocks.push(block);
        proof {
            assert(self@.blocks =~= old(self)@.blocks.push(block@));
        }
    }

    /// Counts one more block sealed by this node.
    pub(crate) fn count_produced(&mut self)
        requires
            old(self).well_formed(),
            old(self)@.produced_blocks < old(self)@.blocks.len(),
        ensures
            final(self).well_formed(),
            final(self)@ == (StateView {
                produced_blocks: (old(self)@.produced_blocks + 1) as u64,
                ..old(self)@
            }),
    {
        let held: usize = self.blocks.len();
        assert(self.produced_blocks < held);
        self.produced_blocks = self.produced_blocks + 1;
    }

    /// Replaces the mempool and hands out the old one.
    pub(crate) fn swap_mempool(&mut self, mempool: Vec<Transaction>) -> (taken: Vec<Transaction>)
        requires
            old(self).well_formed(),
        ensures
            final(self).well_formed(),
            transaction_views(taken@) == old(self)@.mempool,
            final(self)@ == (StateView { mempool: transaction_views(mempool@), ..old(self)@ }),
    {
        let mut other = mempool;
        std::mem::swap(&mut self.mempool, &mut other);
        other
    }

    /// Adds a transaction at the end of the mempool.
    pub(crate) fn push_pending(&mut self, tx: Transaction)
        requires
            old(self).well_formed(),
        ensures
            final(self).well_formed(),
            final(self)@ == (StateView { mempool: old(self)@.mempool.push(tx@), ..old(self)@ }),
    {
        self.mempool.push(tx);
        proof {
            assert(self@.mempool =~= old(self)@.mempool.push(tx@));
        }
    }
}

} // verus!
