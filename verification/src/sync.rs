//! Catching up with a peer: what is known of each peer, which blocks to
//! ask for, and how a block received from a peer joins the chain.

use crate::block::{Block, BlockView};
use crate::clock::now_unix;
use crate::search::{first_index, lemma_first_index_is};
use crate::state::{block_effect, linkage, LinkageError, State, StateView};
use crate::text::same_text;
use crate::transaction::{optional_text, transaction_views, Transaction, TransactionView};
use vstd::prelude::*;
use vstd::string::*;

verus! {

/// Whether a list holds a transaction with the given id.
pub open spec fn has_id(list: Seq<TransactionView>, id: Seq<char>) -> bool {
    exists|i: int| 0 <= i < list.len() && (#[trigger] list[i]).id == id
}

/// The mempool without the transactions whose id occurs in a block; the
/// others keep their order.
pub open spec fn pruned(mempool: Seq<TransactionView>, included: Seq<TransactionView>) -> Seq<
    TransactionView,
>
    decreases mempool.len(),
{
    if mempool.len() == 0 {
        Seq::empty()
    } else if has_id(included, mempool.last().id) {
        pruned(mempool.drop_last(), included)
    } else {
        pruned(mempool.drop_last(), included).push(mempool.last())
    }
}

/// The state after a block from a peer joined the chain: the block is
/// applied and added, and the mempool loses the transactions that the block
/// holds.
pub open spec fn accepted(state: StateView, block: BlockView, reward: u64) -> StateView {
    StateView {
        blocks: state.blocks.push(block),
        accounts: block_effect(state.accounts, block, reward),
        mempool: pruned(state.mempool, block.transactions),
        produced_blocks: state.produced_blocks,
        started_at: state.started_at,
    }
}

/// Whether a list holds a transaction with the given id.
pub fn contains_id(list: &Vec<Transaction>, id: &str) -> (r: bool)
    ensures
        r == has_id(transaction_views(list@), id@),
{
    let ghost views = transaction_views(list@);
    let mut i: usize = 0;
    while i < list.len()
        invariant
            views == transaction_views(list@),
            i <= list@.len(),
            forall|j: int| 0 <= j < i ==> (#[trigger] views[j]).id != id@,
        decreases list@.len() - i,
    {
        if same_text(list[i].id.as_str(), id) {
            proof {
                assert(views[i as int].id == id@);
            }
            return true;
        }
        i = i + 1;
    }
    false
}

/// Drops from a mempool the transactions whose id occurs in a block.
pub fn prune(mempool: Vec<Transaction>, included: &Vec<Transaction>) -> (r: Vec<Transaction>)
    ensures
        transaction_views(r@) == pruned(transaction_views(mempool@), transaction_views(included@)),
{
    let ghost views = transaction_views(mempool@);
    let ghost block = transaction_views(included@);
    let mut out: Vec<Transaction> = Vec::new();
    let mut i: usize = 0;
    proof {
        assert(transaction_views(out@) =~= pruned(views.take(0), block));
    }
    while i < mempool.len()
        invariant
            views == transaction_views(mempool@),
            block == transaction_views(included@),
            i <= mempool@.len(),
            transaction_views(out@) == pruned(views.take(i as int), block),
        decreases mempool@.len() - i,
    {
        let ghost kept = transaction_views(out@);
        proof {
            let next = views.take(i + 1);
            assert(next.drop_last() =~= views.take(i as int));
            assert(next.last() == mempool@[i as int]@);
        }
        if !contains_id(included, mempool[i].id.as_str()) {
            out.push(mempool[i].clone());
            proof {
                assert(transaction_views(out@) =~= kept.push(mempool@[i as int]@));
            }
        }
        i = i + 1;
    }
    proof {
        assert(views.take(i as int) =~= views);
    }
    out
}

/// The blocks to ask a peer for: those above the local height up to the
/// peer's height, or none where the peer is not ahead.
pub open spec fn missing_heights(local: u64, peer: u64) -> Option<(u64, u64)> {
    if peer <= local {
        None
    } else {
        Some(((local + 1) as u64, peer))
    }
}

/// The first and the last height to ask a peer for, where it is ahead.
pub fn catch_up_range(local: u64, peer: u64) -> (r: Option<(u64, u64)>)
    ensures
        r == missing_heights(local, peer),
{
    if peer <= local {
        None
    } else {
        Some((local + 1, peer))
    }
}

impl State {
    /// Takes a block from a peer into the chain where it can follow: the
    /// block is applied, the mempool loses the transactions that the block
    /// holds, and the block is added. A block that cannot follow changes
    /// nothing; catching up with that peer then stops.
    pub fn accept_block(&mut self, block: Block, reward: u64) -> (r: Result<(), LinkageError>)
        requires
            old(self).well_formed(),
            linkage(old(self)@.blocks, block@) is Ok ==> old(self)@.can_reward(
                block@.producer,
                reward,
            ),
        ensures
            final(self).well_formed(),
            r == linkage(old(self)@.blocks, block@),
            r is Ok ==> final(self)@ == accepted(old(self)@, block@, reward),
            r is Err ==> final(self)@ == old(self)@,
    {
        match self.apply_block(&block, reward) {
            Ok(()) => {
                let waiting = self.swap_mempool(Vec::new());
                let kept = prune(waiting, &block.transactions);
                let _ = self.swap_mempool(kept);
                self.append_block(block);
                Ok(())
            },
            Err(e) => Err(e),
        }
    }
}

/// What a node knows of a peer from its last probe.
#[derive(Debug, PartialEq, Eq)]
pub struct PeerStat {
    pub height: u64,
    pub last_seen: u64,
    pub ok: bool,
    pub latest_hash: Option<String>,
    pub failures: u64,
    pub node_id: Option<String>,
}

/// The model of what a node knows of a peer.
pub struct PeerStatView {
    pub height: u64,
    pub last_seen: u64,
    pub ok: bool,
    pub latest_hash: Option<Seq<char>>,
    pub failures: u64,
    pub node_id: Option<Seq<char>>,
}

impl View for PeerStat {
    type V = PeerStatView;

    open spec fn view(&self) -> PeerStatView {
        PeerStatView {
            height: self.height,
            last_seen: self.last_seen,
            ok: self.ok,
            latest_hash: optional_text(self.latest_hash),
            failures: self.failures,
            node_id: optional_text(self.node_id),
        }
    }
}

/// A peer with what is known of it.
#[derive(Debug, PartialEq, Eq)]
pub struct PeerEntry {
    pub peer: String,
    pub stat: PeerStat,
}

/// The model of a peer with what is known of it.
pub struct PeerNote {
    pub peer: Seq<char>,
    pub stat: PeerStatView,
}

impl View for PeerEntry {
    type V = PeerNote;

    open spec fn view(&self) -> PeerNote {
        PeerNote { peer: self.peer@, stat: self.stat@ }
    }
}

/// What a node knows of its peers, each under its URL, in the order in
/// which they were first probed.
#[derive(Debug, PartialEq, Eq)]
pub struct PeerBook {
    pub entries: Vec<PeerEntry>,
}

impl View for PeerBook {
    type V = Seq<PeerNote>;

    open spec fn view(&self) -> Seq<PeerNote> {
        self.entries@.map_values(|e: PeerEntry| e@)
    }
}

/// The notes on a given peer.
pub open spec fn noted(peer: Seq<char>) -> spec_fn(PeerNote) -> bool {
    |note: PeerNote| note.peer == peer
}

/// What is known of a peer, where it was ever probed.
pub open spec fn stat_of(book: Seq<PeerNote>, peer: Seq<char>) -> Option<PeerStatView> {
    let i = first_index(book, noted(peer));
    if i < book.len() {
        Some(book[i].stat)
    } else {
        None
    }
}

/// How often probes of a peer have failed so far.
pub open spec fn failures_of(book: Seq<PeerNote>, peer: Seq<char>) -> u64 {
    match stat_of(book, peer) {
        Some(stat) => stat.failures,
        None => 0,
    }
}

/// One more failure, as far as the count goes: it stops at the largest
/// 64-bit number.
pub open spec fn one_more(failures: u64) -> u64 {
    if failures < u64::MAX {
        (failures + 1) as u64
    } else {
        failures
    }
}

/// What is known of a peer after a probe: the probe's findings and its
/// time, and one more failure where the probe failed.
pub open spec fn observed(
    failures: u64,
    height: u64,
    now: u64,
    ok: bool,
    hash: Option<Seq<char>>,
    node_id: Option<Seq<char>>,
) -> PeerStatView {
    PeerStatView {
        height,
        last_seen: now,
        ok,
        latest_hash: hash,
        failures: if ok {
            failures
        } else {
            one_more(failures)
        },
        node_id,
    }
}

/// The book after a probe of a peer: the note on the peer is replaced, or
/// added at the end where the peer was never probed.
pub open spec fn recorded(
    book: Seq<PeerNote>,
    peer: Seq<char>,
    height: u64,
    now: u64,
    ok: bool,
    hash: Option<Seq<char>>,
    node_id: Option<Seq<char>>,
) -> Seq<PeerNote> {
    let i = first_index(book, noted(peer));
    let note = PeerNote {
        peer,
        stat: observed(failures_of(book, peer), height, now, ok, hash, node_id),
    };
    if i < book.len() {
        book.update(i, note)
    } else {
        book.push(note)
    }
}

impl PeerBook {
    /// A book without notes.
    pub fn new() -> (book: PeerBook)
        ensures
            book@ == Seq::<PeerNote>::empty(),
    {
        let book = PeerBook { entries: Vec::new() };
        proof {
            assert(book@ =~= Seq::<PeerNote>::empty());
        }
        book
    }

    /// Where the note on a peer stands.
    pub fn position(&self, peer: &str) -> (r: Option<usize>)
        ensures
            match r {
                Some(i) => i < self@.len() && i == first_index(self@, noted(peer@)),
                None => first_index(self@, noted(peer@)) == self@.len(),
            },
    {
        let ghost wanted = noted(peer@);
        let mut i: usize = 0;
        while i < self.entries.len()
            invariant
                wanted == noted(peer@),
                i <= self.entries@.len(),
                forall|j: int| 0 <= j < i ==> !wanted(#[trigger] self@[j]),
            decreases self.entries@.len() - i,
        {
            if same_text(self.entries[i].peer.as_str(), peer) {
                proof {
                    assert(wanted(self@[i as int]));
                    lemma_first_index_is(self@, wanted, i as int);
                }
                return Some(i);
            }
            i = i + 1;
        }
        proof {
            lemma_first_index_is(self@, wanted, i as int);
        }
        None
    }

    /// What is known of a peer, where it was ever probed.
    pub fn get(&self, peer: &str) -> (r: Option<&PeerStat>)
        ensures
            match r {
                Some(stat) => stat_of(self@, peer@) == Some(stat@),
                None => stat_of(self@, peer@) is None,
            },
    {
        match self.position(peer) {
            Some(i) => Some(&self.entries[i].stat),
            None => None,
        }
    }
}

/// Notes the outcome of a probe of a peer that was made at the time `now`.
pub fn record_peer_stat_at(
    stats: &mut PeerBook,
    peer: &str,
    height: u64,
    now: u64,
    ok: bool,
    hash: Option<String>,
    node_id: Option<String>,
)
    ensures
        final(stats)@ == recorded(
            old(stats)@,
            peer@,
            height,
            now,
            ok,
            optional_text(hash),
            optional_text(node_id),
        ),
{
    let found = stats.position(peer);
    let before: u64 = match found {
        Some(i) => stats.entries[i].stat.failures,
        None => 0,
    };
    let failures: u64 = if ok {
        before
    } else if before < u64::MAX {
        before + 1
    } else {
        before
    };
    let entry = PeerEntry {
        peer: peer.to_owned(),
        stat: PeerStat { height, last_seen: now, ok, latest_hash: hash, failures, node_id },
    };
    match found {
        Some(i) => {
            stats.entries.set(i, entry);
        },
        None => {
            stats.entries.push(entry);
        },
    }
    proof {
        assert(stats@ =~= recorded(
            old(stats)@,
            peer@,
            height,
            now,
            ok,
            optional_text(hash),
            optional_text(node_id),
        ));
    }
}

/// Notes the outcome of a probe of a peer that was made just now.
pub fn record_peer_stat(
    stats: &mut PeerBook,
    peer: &str,
    height: u64,
    ok: bool,
    hash: Option<String>,
    node_id: Option<String>,
)
    ensures
        exists|now: u64|
            final(stats)@ == #[trigger] recorded(
                old(stats)@,
                peer@,
                height,
                now,
                ok,
                optional_text(hash),
                optional_text(node_id),
            ),
{
    let now = now_unix();
    record_peer_stat_at(stats, peer, height, now, ok, hash, node_id);
}

/// What a peer answered to a probe of its status.
#[derive(Debug, PartialEq, Eq)]
pub struct PeerStatus {
    pub height: u64,
    pub latest_hash: Option<String>,
    pub node_id: Option<String>,
}

/// The first step of catching up with a peer: the outcome of the probe is
/// noted, a failed probe as height zero, and the heights to ask the peer
/// for are handed out where the probe succeeded and the peer is ahead.
pub fn begin_sync(
    stats: &mut PeerBook,
    peer: &str,
    probe: Option<PeerStatus>,
    local_height: u64,
    now: u64,
) -> (r: Option<(u64, u64)>)
    ensures
        match probe {
            Some(status) => final(stats)@ == recorded(
                old(stats)@,
                peer@,
                status.height,
                now,
                true,
                optional_text(status.latest_hash),
                optional_text(status.node_id),
            ) && r == missing_heights(local_height, status.height),
            None => final(stats)@ == recorded(old(stats)@, peer@, 0, now, false, None, None)
                && r is None,
        },
{
    match probe {
        Some(status) => {
            let height: u64 = status.height;
            record_peer_stat_at(stats, peer, height, now, true, status.latest_hash, status.node_id);
            catch_up_range(local_height, height)
        },
        None => {
            record_peer_stat_at(stats, peer, 0, now, false, None, None);
            None
        },
    }
}

} // verus!
