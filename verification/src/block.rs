//! Blocks, their canonical text and hash, and how blocks link into a chain.

use crate::encoding::{
    digest_hex, digest_text, push_number, push_text, push_transactions, with_number, with_text,
    with_transactions,
};
use crate::transaction::{clone_transactions, transaction_views, Transaction, TransactionView};
use vstd::prelude::*;
use vstd::string::*;

verus! {

/// An ordered batch of transactions, linked to the block before it.
#[derive(Debug, PartialEq, Eq)]
pub struct Block {
    pub index: u64,
    pub previous_hash: String,
    pub hash: String,
    pub timestamp: String,
    pub producer: String,
    pub transactions: Vec<Transaction>,
}

/// The model of a block.
pub struct BlockView {
    pub index: u64,
    pub previous_hash: Seq<char>,
    pub hash: Seq<char>,
    pub timestamp: Seq<char>,
    pub producer: Seq<char>,
    pub transactions: Seq<TransactionView>,
}

impl View for Block {
    type V = BlockView;

    open spec fn view(&self) -> BlockView {
        BlockView {
            index: self.index,
            previous_hash: self.previous_hash@,
            hash: self.hash@,
            timestamp: self.timestamp@,
            producer: self.producer@,
            transactions: transaction_views(self.transactions@),
        }
    }
}

impl Clone for Block {
    fn clone(&self) -> (r: Self)
        ensures
            r@ == self@,
    {
        Block {
            index: self.index,
            previous_hash: self.previous_hash.clone(),
            hash: self.hash.clone(),
            timestamp: self.timestamp.clone(),
            producer: self.producer.clone(),
            transactions: clone_transactions(&self.transactions),
        }
    }
}

/// The models of a list of blocks.
pub open spec fn block_views(list: Seq<Block>) -> Seq<BlockView> {
    list.map_values(|b: Block| b@)
}

/// The hash that stands before the first block of a chain.
pub open spec fn genesis_hash() -> Seq<char> {
    "genesis"@
}

/// The canonical JSON object of a block whose hash is left empty: its members
/// in the order index, previous_hash, hash, timestamp, producer, transactions.
pub open spec fn block_json(block: BlockView) -> Seq<char> {
    let a = with_number(Seq::empty(), "{\"index\":"@, block.index);
    let b = with_text(a, ",\"previous_hash\":"@, block.previous_hash);
    let c = with_text(b, ",\"hash\":"@, Seq::empty());
    let d = with_text(c, ",\"timestamp\":"@, block.timestamp);
    let e = with_text(d, ",\"producer\":"@, block.producer);
    with_transactions(e + ",\"transactions\":["@, block.transactions) + "]}"@
}

/// The hash of a block: the lower-case hexadecimal SHA-256 digest of its
/// canonical text, in which the hash itself is empty.
pub open spec fn block_digest(block: BlockView) -> Seq<char> {
    digest_hex(block_json(block))
}

/// Whether the stored hash of a block is the hash of its content.
pub open spec fn sealed(block: BlockView) -> bool {
    block.hash == block_digest(block)
}

/// The hash that the next block of the chain has to name.
pub open spec fn tip_hash(chain: Seq<BlockView>) -> Seq<char> {
    if chain.len() == 0 {
        genesis_hash()
    } else {
        chain.last().hash
    }
}

/// Every block stands at its index and names the hash of the block before it.
pub open spec fn linked(chain: Seq<BlockView>) -> bool {
    &&& forall|i: int| 0 <= i < chain.len() ==> (#[trigger] chain[i]).index == i
    &&& forall|i: int|
        0 < i < chain.len() ==> (#[trigger] chain[i]).previous_hash == chain[i - 1].hash
}

/// Every block after the first carries the hash of its content.
pub open spec fn all_sealed(chain: Seq<BlockView>) -> bool {
    forall|i: int| 0 < i < chain.len() ==> sealed(#[trigger] chain[i])
}

/// Whether a block can follow the chain: it stands at the next index and
/// names the hash of the last block.
pub open spec fn follows(chain: Seq<BlockView>, block: BlockView) -> bool {
    block.index == chain.len() && block.previous_hash == tip_hash(chain)
}

/// A linked chain stays linked when a block that follows it is added.
pub proof fn lemma_linked_push(chain: Seq<BlockView>, block: BlockView)
    requires
        linked(chain),
        follows(chain, block),
    ensures
        linked(chain.push(block)),
        tip_hash(chain.push(block)) == block.hash,
{
    let after = chain.push(block);
    assert forall|i: int| 0 <= i < after.len() implies (#[trigger] after[i]).index == i by {
        if i < chain.len() {
            assert(after[i] == chain[i]);
        }
    }
    assert forall|i: int| 0 < i < after.len() implies (#[trigger] after[i]).previous_hash
        == after[i - 1].hash by {
        if i < chain.len() {
            assert(after[i] == chain[i]);
            assert(after[i - 1] == chain[i - 1]);
        }
    }
}

/// Computes the hash of a block from its content; the stored hash is not read.
pub fn compute_block_hash(block: &Block) -> (r: String)
    ensures
        r@ == block_digest(block@),
{
    let mut out = String::new();
    push_number(&mut out, "{\"index\":", block.index);
    push_text(&mut out, ",\"previous_hash\":", block.previous_hash.as_str());
    push_text(&mut out, ",\"hash\":", "");
    push_text(&mut out, ",\"timestamp\":", block.timestamp.as_str());
    push_text(&mut out, ",\"producer\":", block.producer.as_str());
    out.append(",\"transactions\":[");
    push_transactions(&mut out, &block.transactions);
    out.append("]}");
    proof {
        reveal_strlit("");
        assert(""@ =~= Seq::<char>::empty());
    }
    digest_text(out.as_str())
}

/// The first block of a fresh chain.
pub fn genesis_block(producer: &str, timestamp: String) -> (block: Block)
    ensures
        block@ == (BlockView {
            index: 0,
            previous_hash: genesis_hash(),
            hash: genesis_hash(),
            timestamp: timestamp@,
            producer: producer@,
            transactions: Seq::empty(),
        }),
{
    let block = Block {
        index: 0,
        previous_hash: "genesis".to_string(),
        hash: "genesis".to_string(),
        timestamp,
        producer: producer.to_owned(),
        transactions: Vec::new(),
    };
    proof {
        assert(block@.transactions =~= Seq::<TransactionView>::empty());
    }
    block
}

} // verus!
