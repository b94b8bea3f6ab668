use bulennode::account::{Account, AccountEntry};
use bulennode::block::{compute_block_hash, genesis_block, Block};
use bulennode::encoding::{digest_text, transaction_text};
use bulennode::gossip::{
    contains_hash, protocol_major, verify_p2p_headers, BlockIngest, HeaderError, IngestError,
    PeerHeaders,
};
use bulennode::state::{LinkageError, State};
use bulennode::submit::TxInput;
use bulennode::sync::{
    begin_sync, catch_up_range, contains_id, prune, record_peer_stat, record_peer_stat_at,
    PeerBook, PeerStatus,
};
use bulennode::transaction::Transaction;

fn tx(id: &str, from: &str, to: &str, amount: u64, fee: u64, nonce: u64) -> Transaction {
    Transaction {
        id: id.to_string(),
        from: from.to_string(),
        to: to.to_string(),
        amount,
        fee,
        nonce,
        timestamp: format!("2024-01-01T00:00:0{}Z", nonce),
        action: "transfer".to_string(),
        memo: None,
        public_key: None,
        signature: None,
    }
}

fn block(index: u64, previous_hash: &str, transactions: Vec<Transaction>) -> Block {
    let mut block = Block {
        index,
        previous_hash: previous_hash.to_string(),
        hash: String::new(),
        timestamp: "2024-01-01T00:00:08Z".to_string(),
        producer: "node-1".to_string(),
        transactions,
    };
    block.hash = compute_block_hash(&block);
    block
}

fn fresh(node: &str) -> State {
    State::new(node, "2024-01-01T00:00:00Z".to_string(), 0)
}

fn transfer(from: &str, to: &str, amount: u64, fee: u64) -> TxInput {
    TxInput {
        from: from.to_string(),
        to: Some(to.to_string()),
        amount,
        fee,
        nonce: None,
        public_key: None,
        signature: None,
        memo: None,
        action: None,
    }
}

#[test]
fn digest_of_known_texts() {
    assert_eq!(
        digest_text(""),
        "e3b0c44298fc1c149afbf4c8996fb92427ae41e4649b934ca495991b7852b855"
    );
    assert_eq!(
        digest_text("héllo"),
        "3c48591d8d098a4538f5e013dfcf406e948eac4d3277b10bf614e295d6068179"
    );
}

#[test]
fn canonical_text_of_a_transaction() {
    let mut t = tx("tx-2", "alice", "carol", 5, 0, 2);
    t.memo = Some("say \"hi\"\n\\ ü \u{1}".to_string());
    assert_eq!(
        transaction_text(&t),
        "{\"id\":\"tx-2\",\"from\":\"alice\",\"to\":\"carol\",\"amount\":5,\"fee\":0,\"nonce\":2,\"timestamp\":\"2024-01-01T00:00:02Z\",\"action\":\"transfer\",\"memo\":\"say \\\"hi\\\"\\n\\\\ ü \\u0001\"}"
    );
    t.memo = None;
    t.public_key = Some("k".to_string());
    t.signature = Some("s".to_string());
    assert_eq!(
        transaction_text(&t),
        "{\"id\":\"tx-2\",\"from\":\"alice\",\"to\":\"carol\",\"amount\":5,\"fee\":0,\"nonce\":2,\"timestamp\":\"2024-01-01T00:00:02Z\",\"action\":\"transfer\",\"public_key\":\"k\",\"signature\":\"s\"}"
    );
}

#[test]
fn hash_of_known_blocks() {
    let empty = block(1, "genesis", vec![]);
    assert_eq!(empty.hash, "68cbefc738366d994918930e82480bb9f946127929c86cc4451c7ce9572a0db3");
    let one = block(1, "genesis", vec![tx("tx-1", "alice", "bob", 10, 1, 1)]);
    assert_eq!(one.hash, "2b382414e116f01ddff3d2fa3f569f98f4c1d5e1cc036a32f0e5934fd10fa893");
    let mut second = tx("tx-2", "alice", "carol", 5, 0, 2);
    second.memo = Some("say \"hi\"\n\\ ü \u{1}".to_string());
    let two = block(1, "genesis", vec![tx("tx-1", "alice", "bob", 10, 1, 1), second]);
    assert_eq!(two.hash, "67681e39b6f27e5642394bd678ff73491c88811bb38266ccb796596e7438ee65");
}

#[test]
fn the_stored_hash_is_not_part_of_the_hash() {
    let mut b = block(1, "genesis", vec![tx("tx-1", "alice", "bob", 10, 1, 1)]);
    let sealed = b.hash.clone();
    b.hash = "anything".to_string();
    assert_eq!(compute_block_hash(&b), sealed);
    b.index = 2;
    assert_ne!(compute_block_hash(&b), sealed);
}

#[test]
fn genesis_block_shape() {
    let g = genesis_block("node-9", "2024-05-05T00:00:00Z".to_string());
    assert_eq!(g.index, 0);
    assert_eq!(g.previous_hash, "genesis");
    assert_eq!(g.hash, "genesis");
    assert_eq!(g.producer, "node-9");
    assert_eq!(g.timestamp, "2024-05-05T00:00:00Z");
    assert!(g.transactions.is_empty());
    let state = fresh("node-9");
    assert_eq!(state.blocks().len(), 1);
    assert_eq!(state.height(), 0);
    assert_eq!(state.latest_hash(), Some("genesis".to_string()));
    assert_eq!(state.produced_blocks(), 0);
    assert_eq!(state.accounts().len(), 0);
}

#[test]
fn producer_tick_with_an_empty_mempool_does_nothing() {
    let mut state = fresh("node-1");
    assert!(state.produce_block_at("node-1", "t".to_string(), 5).is_none());
    assert_eq!(state.blocks().len(), 1);
    assert_eq!(state.produced_blocks(), 0);
    assert_eq!(state.account("node-1").balance, 0);
}

#[test]
fn producer_seals_links_and_rewards() {
    let mut state = fresh("node-1");
    state.faucet("alice", Some(100), true).unwrap();
    state.submit_transaction(false, transfer("alice", "bob", 10, 1)).unwrap();
    state.submit_transaction(false, transfer("alice", "bob", 500, 1)).unwrap_err();
    let mut skipped = transfer("alice", "bob", 5, 0);
    skipped.nonce = Some(1);
    state.submit_transaction(false, skipped).unwrap();
    let sealed = state
        .produce_block_at("node-1", "2024-01-01T00:00:08Z".to_string(), 3)
        .unwrap();
    assert_eq!(sealed.index, 1);
    assert_eq!(sealed.previous_hash, "genesis");
    assert_eq!(sealed.producer, "node-1");
    assert_eq!(sealed.timestamp, "2024-01-01T00:00:08Z");
    assert_eq!(sealed.transactions.len(), 2);
    assert_eq!(sealed.hash, compute_block_hash(&sealed));
    assert_eq!(sealed.hash.len(), 64);
    assert_eq!(state.blocks()[1], sealed);
    assert_eq!(state.produced_blocks(), 1);
    assert_eq!(state.mempool().len(), 0);
    assert_eq!(state.account("alice"), Account { balance: 89, stake: 0, nonce: 1, reputation: 0 });
    assert_eq!(state.account("bob").balance, 10);
    assert_eq!(state.account("node-1"), Account { balance: 3, stake: 0, nonce: 0, reputation: 1 });

    state.submit_transaction(false, transfer("alice", "bob", 1, 0)).unwrap();
    let next = state.produce_block_at("node-1", "2024-01-01T00:00:16Z".to_string(), 0).unwrap();
    assert_eq!(next.index, 2);
    assert_eq!(next.previous_hash, sealed.hash);
    assert_eq!(state.account("node-1").reputation, 2);
    assert_eq!(state.produced_blocks(), 2);
    for (i, b) in state.blocks().iter().enumerate() {
        assert_eq!(b.index, i as u64);
        if i > 0 {
            assert_eq!(b.previous_hash, state.blocks()[i - 1].hash);
            assert_eq!(b.hash, compute_block_hash(b));
        }
    }
}

#[test]
fn apply_block_checks_index_then_previous_hash() {
    let mut state = fresh("node-1");
    state.faucet("alice", Some(100), true).unwrap();
    assert_eq!(
        state.apply_block(&block(2, "genesis", vec![]), 0),
        Err(LinkageError::InvalidIndex)
    );
    assert_eq!(
        state.apply_block(&block(0, "genesis", vec![]), 0),
        Err(LinkageError::InvalidIndex)
    );
    assert_eq!(
        state.apply_block(&block(1, "other", vec![]), 0),
        Err(LinkageError::PreviousHashMismatch)
    );
    assert_eq!(
        state.apply_block(&block(7, "other", vec![]), 0),
        Err(LinkageError::InvalidIndex)
    );
    assert_eq!(state.account("node-1").reputation, 0);
    let good = block(
        1,
        "genesis",
        vec![tx("a", "alice", "bob", 10, 1, 1), tx("b", "alice", "bob", 10, 1, 1), tx("c", "alice", "bob", 10, 1, 2)],
    );
    assert_eq!(state.apply_block(&good, 4), Ok(()));
    assert_eq!(state.account("alice"), Account { balance: 78, stake: 0, nonce: 2, reputation: 0 });
    assert_eq!(state.account("bob").balance, 20);
    assert_eq!(state.account("node-1"), Account { balance: 4, stake: 0, nonce: 0, reputation: 1 });
    assert_eq!(state.blocks().len(), 1);
    assert_eq!(LinkageError::InvalidIndex.message(), "invalid block index");
    assert_eq!(LinkageError::PreviousHashMismatch.message(), "previous hash mismatch");
}

#[test]
fn rewards_have_to_fit() {
    let rich = AccountEntry {
        address: "rich".to_string(),
        account: Account { balance: i128::MAX - 5, stake: 0, nonce: 0, reputation: i64::MAX },
    };
    let state = State::from_parts(vec![], vec![rich], vec![tx("m", "a", "b", 1, 0, 1)], 0, 0).unwrap();
    assert!(state.has_room(5));
    assert!(!state.has_room(6));
    assert!(state.accepts_reward("poor", 5));
    assert!(!state.accepts_reward("poor", 6));
    assert!(!state.accepts_reward("rich", 0));
    assert!(state.ready_for_block(&block(0, "genesis", vec![]), 5));
    assert!(!state.ready_for_block(&block(0, "genesis", vec![]), 6));
    assert!(state.ready_for_block(&block(1, "genesis", vec![]), 6));
    assert!(state.ready_to_produce("poor", 5));
    assert!(!state.ready_to_produce("poor", 6));
    assert!(!state.ready_to_produce("rich", 0));
    assert!(state.ready_for_faucet("poor", Some(5), true));
    assert!(!state.ready_for_faucet("poor", Some(6), true));
    assert!(!state.ready_for_faucet("poor", None, true));
    assert!(state.ready_for_faucet("poor", Some(6), false));
    assert!(state.ready_for_faucet("", Some(6), true));
    assert_eq!(state.check_linkage(&block(0, "genesis", vec![])), Ok(()));
    assert_eq!(state.check_linkage(&block(1, "genesis", vec![])), Err(LinkageError::InvalidIndex));
}

#[test]
fn an_empty_chain_expects_the_genesis_hash() {
    let mut state = State::from_parts(vec![], vec![], vec![], 0, 0).unwrap();
    assert_eq!(state.height(), 0);
    assert_eq!(state.latest_hash(), None);
    assert_eq!(
        state.accept_block(block(0, "nothing", vec![]), 0),
        Err(LinkageError::PreviousHashMismatch)
    );
    assert_eq!(state.accept_block(block(0, "genesis", vec![]), 0), Ok(()));
    assert_eq!(state.blocks().len(), 1);
}

#[test]
fn states_are_made_of_sound_parts_only() {
    let g = genesis_block("n", "t".to_string());
    let b1 = block(1, "genesis", vec![]);
    assert!(State::from_parts(vec![g.clone(), b1.clone()], vec![], vec![], 1, 7).is_some());
    assert!(State::from_parts(vec![g.clone(), b1.clone()], vec![], vec![], 3, 7).is_none());
    assert!(State::from_parts(vec![b1.clone()], vec![], vec![], 0, 7).is_none());
    assert!(State::from_parts(vec![g.clone(), block(1, "x", vec![])], vec![], vec![], 0, 7).is_none());
    let state = State::from_parts(vec![g, b1], vec![], vec![tx("m", "a", "b", 1, 0, 1)], 1, 7).unwrap();
    assert_eq!(state.started_at(), 7);
    assert_eq!(state.produced_blocks(), 1);
    assert_eq!(state.mempool().len(), 1);
    assert_eq!(state.height(), 1);
}

#[test]
fn a_state_is_made_again_of_its_parts() {
    let mut state = fresh("node-1");
    state.faucet("alice", Some(100), true).unwrap();
    state.submit_transaction(false, transfer("alice", "bob", 10, 1)).unwrap();
    state.produce_block_at("node-1", "t1".to_string(), 2).unwrap();
    state.submit_transaction(false, transfer("alice", "carol", 5, 0)).unwrap();
    let (blocks, entries, mempool, produced, started) = state.to_parts();
    assert_eq!(blocks.len(), 2);
    assert_eq!(entries.len(), 3);
    assert_eq!(mempool.len(), 1);
    let again = State::from_parts(blocks, entries, mempool, produced, started).unwrap();
    assert_eq!(again.blocks(), state.blocks());
    assert_eq!(again.mempool(), state.mempool());
    assert_eq!(again.accounts().entries(), state.accounts().entries());
    assert_eq!(again.produced_blocks(), 1);
    assert_eq!(again.started_at(), 0);
    assert_eq!(again.accounts().total(), 101);
    let copy = state.duplicate();
    assert_eq!(copy.blocks(), state.blocks());
    assert_eq!(copy.mempool(), state.mempool());
    assert_eq!(copy.accounts().entries(), state.accounts().entries());
    assert_eq!(copy.account("alice"), state.account("alice"));
}

#[test]
fn gossip_dedup() {
    let mut producer = fresh("node-p");
    producer.faucet("alice", Some(100), true).unwrap();
    producer.submit_transaction(false, transfer("alice", "bob", 10, 1)).unwrap();
    let sealed = producer.produce_block_at("node-p", "t1".to_string(), 0).unwrap();

    let mut receiver = fresh("node-q");
    receiver.faucet("alice", Some(100), true).unwrap();
    let before = receiver.height();
    assert_eq!(receiver.ingest_block(sealed.clone(), 0), Ok(BlockIngest::Accepted));
    assert_eq!(receiver.height(), before + 1);
    assert_eq!(receiver.account("bob").balance, 10);
    assert_eq!(receiver.ingest_block(sealed.clone(), 0), Ok(BlockIngest::Ignored));
    assert_eq!(receiver.height(), before + 1);
    assert_eq!(receiver.account("bob").balance, 10);
    assert_eq!(receiver.produced_blocks(), 0);
    assert!(contains_hash(receiver.blocks(), &sealed.hash));
}

#[test]
fn gossip_block_errors() {
    let mut state = fresh("node-q");
    let mut forged = block(1, "genesis", vec![]);
    forged.hash = "00".repeat(32);
    assert_eq!(state.ingest_block(forged, 0), Err(IngestError::HashMismatch));
    let mut altered = block(1, "genesis", vec![]);
    altered.timestamp = "later".to_string();
    assert_eq!(state.ingest_block(altered, 0), Err(IngestError::HashMismatch));
    assert_eq!(
        state.ingest_block(block(5, "genesis", vec![]), 0),
        Err(IngestError::Linkage(LinkageError::InvalidIndex))
    );
    assert_eq!(
        state.ingest_block(block(1, "elsewhere", vec![]), 0),
        Err(IngestError::Linkage(LinkageError::PreviousHashMismatch))
    );
    assert_eq!(state.blocks().len(), 1);
    assert!(!IngestError::HashMismatch.calls_for_sync());
    assert!(IngestError::Linkage(LinkageError::InvalidIndex).calls_for_sync());
    assert_eq!(IngestError::HashMismatch.message(), "invalid block hash");
    assert_eq!(
        IngestError::Linkage(LinkageError::InvalidIndex).message(),
        "invalid block index"
    );
}

#[test]
fn accepting_a_block_prunes_the_mempool() {
    let mut state = fresh("node-q");
    state.faucet("alice", Some(100), true).unwrap();
    assert!(!state.ingest_transaction(tx("keep-1", "alice", "bob", 1, 0, 1)));
    assert!(!state.ingest_transaction(tx("drop", "alice", "bob", 2, 0, 1)));
    assert!(!state.ingest_transaction(tx("keep-2", "alice", "bob", 3, 0, 2)));
    let incoming = block(1, "genesis", vec![tx("drop", "alice", "bob", 2, 0, 1), tx("else", "alice", "bob", 2, 0, 2)]);
    assert_eq!(state.ingest_block(incoming, 0), Ok(BlockIngest::Accepted));
    let ids: Vec<&str> = state.mempool().iter().map(|t| t.id.as_str()).collect();
    assert_eq!(ids, vec!["keep-1", "keep-2"]);
    assert_eq!(state.account("bob").balance, 4);
}

#[test]
fn gossip_transactions_are_deduplicated_by_id() {
    let mut state = fresh("node-q");
    let first = tx("tx-1", "alice", "bob", 10, 1, 1);
    let mut same_id = tx("tx-1", "carol", "dave", 99, 0, 7);
    same_id.action = "stake".to_string();
    assert!(!state.ingest_transaction(first.clone()));
    assert!(state.ingest_transaction(first.clone()));
    assert!(state.ingest_transaction(same_id));
    assert!(!state.ingest_transaction(tx("tx-2", "", "", 0, 0, 0)));
    assert_eq!(state.mempool().len(), 2);
    assert_eq!(state.mempool()[0], first);
    assert!(contains_id(state.mempool(), "tx-2"));
    assert!(!contains_id(state.mempool(), "tx-3"));
}

#[test]
fn prune_keeps_order() {
    let mempool = vec![tx("a", "x", "y", 1, 0, 1), tx("b", "x", "y", 1, 0, 2), tx("a", "x", "y", 1, 0, 3), tx("c", "x", "y", 1, 0, 4)];
    let kept = prune(mempool.clone(), &vec![tx("a", "q", "r", 9, 9, 9)]);
    let ids: Vec<&str> = kept.iter().map(|t| t.id.as_str()).collect();
    assert_eq!(ids, vec!["b", "c"]);
    assert_eq!(prune(mempool.clone(), &vec![]), mempool);
}

#[test]
fn peer_catch_up() {
    let mut p = fresh("node-p");
    p.faucet("alice", Some(1000), true).unwrap();
    for i in 0..5u64 {
        p.submit_transaction(false, transfer("alice", "bob", 10 + i, 1)).unwrap();
        assert!(p.produce_block_at("node-p", format!("t{}", i), 2).is_some());
    }
    assert_eq!(p.height(), 5);

    let mut q = fresh("node-q");
    q.faucet("alice", Some(1000), true).unwrap();
    let mut stats = PeerBook::new();
    let probe = PeerStatus {
        height: p.height(),
        latest_hash: p.latest_hash(),
        node_id: Some("node-p".to_string()),
    };
    let range = begin_sync(&mut stats, "http://p", Some(probe), q.height(), 1_700_000_000);
    assert_eq!(range, Some((1, 5)));
    let (first, last) = range.unwrap();
    for h in first..=last {
        let fetched = p.block_at(h).unwrap().clone();
        assert!(q.accepts_reward(&fetched.producer, 2));
        assert!(q.ready_for_block(&fetched, 2));
        assert_eq!(q.accept_block(fetched, 2), Ok(()));
    }
    assert_eq!(q.height(), 5);
    assert_eq!(q.latest_hash(), p.latest_hash());
    assert_eq!(q.account("alice"), p.account("alice"));
    assert_eq!(q.account("bob"), p.account("bob"));
    assert_eq!(q.account("node-p"), p.account("node-p"));
    assert_eq!(q.account("node-p"), Account { balance: 10, stake: 0, nonce: 0, reputation: 5 });
    assert_eq!(q.produced_blocks(), 0);
    let stat = stats.get("http://p").unwrap();
    assert_eq!(stat.height, 5);
    assert!(stat.ok);
    assert_eq!(stat.last_seen, 1_700_000_000);
    assert_eq!(stat.failures, 0);
    assert_eq!(stat.node_id, Some("node-p".to_string()));
    assert_eq!(stat.latest_hash, p.latest_hash());

    let mut diverged = fresh("node-r");
    diverged.faucet("zed", Some(10), true).unwrap();
    diverged.submit_transaction(false, transfer("zed", "bob", 1, 0)).unwrap();
    diverged.produce_block_at("node-r", "elsewhere".to_string(), 0).unwrap();
    let second = p.block_at(2).unwrap().clone();
    assert_eq!(diverged.accept_block(second, 0), Err(LinkageError::PreviousHashMismatch));
    assert_eq!(diverged.height(), 1);
}

#[test]
fn catch_up_heights() {
    assert_eq!(catch_up_range(0, 0), None);
    assert_eq!(catch_up_range(5, 5), None);
    assert_eq!(catch_up_range(5, 4), None);
    assert_eq!(catch_up_range(5, 6), Some((6, 6)));
    assert_eq!(catch_up_range(0, 5), Some((1, 5)));
    assert_eq!(catch_up_range(u64::MAX - 1, u64::MAX), Some((u64::MAX, u64::MAX)));
}

#[test]
fn peer_stats_count_failures() {
    let mut stats = PeerBook::new();
    assert!(stats.get("http://a").is_none());
    record_peer_stat_at(&mut stats, "http://a", 0, 10, false, None, None);
    record_peer_stat_at(&mut stats, "http://b", 3, 11, true, Some("h3".to_string()), Some("b".to_string()));
    record_peer_stat_at(&mut stats, "http://a", 0, 12, false, None, None);
    record_peer_stat_at(&mut stats, "http://a", 9, 13, true, Some("h9".to_string()), None);
    assert_eq!(stats.entries.len(), 2);
    assert_eq!(stats.position("http://a"), Some(0));
    assert_eq!(stats.position("http://b"), Some(1));
    let a = stats.get("http://a").unwrap();
    assert_eq!((a.height, a.last_seen, a.ok, a.failures), (9, 13, true, 2));
    assert_eq!(a.latest_hash, Some("h9".to_string()));
    assert_eq!(a.node_id, None);
    assert_eq!(begin_sync(&mut stats, "http://b", None, 4, 20), None);
    let b = stats.get("http://b").unwrap();
    assert_eq!((b.height, b.last_seen, b.ok, b.failures), (0, 20, false, 1));
    assert_eq!(b.latest_hash, None);
    record_peer_stat(&mut stats, "http://c", 1, true, None, None);
    assert!(stats.get("http://c").unwrap().last_seen > 1_600_000_000);
}

#[test]
fn protocol_majors() {
    assert_eq!(protocol_major("0.1.0-rs"), 0);
    assert_eq!(protocol_major("1.2.3"), 1);
    assert_eq!(protocol_major("12"), 12);
    assert_eq!(protocol_major("+7.0"), 7);
    assert_eq!(protocol_major("007.1"), 7);
    assert_eq!(protocol_major(""), 0);
    assert_eq!(protocol_major(".5"), 0);
    assert_eq!(protocol_major("v2.0"), 0);
    assert_eq!(protocol_major("-1.0"), 0);
    assert_eq!(protocol_major("+.1"), 0);
    assert_eq!(protocol_major(" 3.0"), 0);
    assert_eq!(protocol_major("3 .0"), 0);
    assert_eq!(protocol_major("4294967295.0"), 4294967295);
    assert_eq!(protocol_major("4294967296.0"), 0);
    assert_eq!(protocol_major("99999999999999999999999999.0"), 0);
    assert_eq!(protocol_major("١.0"), 0);
}

#[test]
fn peer_headers() {
    let headers = |token: Option<&str>, has_node_id: bool, version: Option<&str>| PeerHeaders {
        token: token.map(|t| t.to_string()),
        has_node_id,
        protocol_version: version.map(|v| v.to_string()),
    };
    let secret = Some("s3cret".to_string());
    assert_eq!(verify_p2p_headers(&secret, "1.4.0", &headers(Some("s3cret"), true, Some("1.0.9"))), Ok(()));
    assert_eq!(verify_p2p_headers(&secret, "1.4.0", &headers(Some("s3cret"), true, None)), Ok(()));
    assert_eq!(verify_p2p_headers(&None, "1.4.0", &headers(None, true, None)), Ok(()));
    assert_eq!(verify_p2p_headers(&None, "1.4.0", &headers(Some("any"), true, None)), Ok(()));
    assert_eq!(
        verify_p2p_headers(&secret, "1.4.0", &headers(Some("wrong"), false, Some("2.0"))),
        Err(HeaderError::Forbidden)
    );
    assert_eq!(
        verify_p2p_headers(&secret, "1.4.0", &headers(None, true, None)),
        Err(HeaderError::Forbidden)
    );
    assert_eq!(verify_p2p_headers(&Some(String::new()), "1.4.0", &headers(None, true, None)), Ok(()));
    assert_eq!(
        verify_p2p_headers(&secret, "1.4.0", &headers(Some("s3cret"), false, Some("2.0"))),
        Err(HeaderError::MissingNodeId)
    );
    assert_eq!(
        verify_p2p_headers(&secret, "1.4.0", &headers(Some("s3cret"), true, Some("2.0"))),
        Err(HeaderError::IncompatibleProtocol)
    );
    assert_eq!(
        verify_p2p_headers(&None, "0.1.0-rs", &headers(None, true, Some("garbage"))),
        Ok(())
    );
    assert_eq!(HeaderError::Forbidden.status(), 403);
    assert_eq!(HeaderError::MissingNodeId.status(), 400);
    assert_eq!(HeaderError::IncompatibleProtocol.status(), 400);
    assert_eq!(HeaderError::Forbidden.message(), "Forbidden");
    assert_eq!(HeaderError::MissingNodeId.message(), "Missing node id");
    assert_eq!(HeaderError::IncompatibleProtocol.message(), "Incompatible protocol version");
}

#[test]
fn pages_of_the_chain() {
    let mut state = fresh("node-1");
    state.faucet("alice", Some(1000), true).unwrap();
    for i in 0..4u64 {
        state.submit_transaction(false, transfer("alice", "bob", 1, 0)).unwrap();
        state.produce_block_at("node-1", format!("t{}", i), 0).unwrap();
    }
    let indexes = |page: Vec<Block>| page.iter().map(|b| b.index).collect::<Vec<u64>>();
    assert_eq!(indexes(state.blocks_page(None, None)), vec![4, 3, 2, 1, 0]);
    assert_eq!(indexes(state.blocks_page(Some(2), None)), vec![4, 3]);
    assert_eq!(indexes(state.blocks_page(Some(2), Some(1))), vec![3, 2]);
    assert_eq!(indexes(state.blocks_page(Some(10), Some(4))), vec![0]);
    assert_eq!(indexes(state.blocks_page(Some(10), Some(5))), Vec::<u64>::new());
    assert_eq!(indexes(state.blocks_page(Some(0), None)), Vec::<u64>::new());
    assert_eq!(indexes(state.blocks_page(Some(usize::MAX), Some(usize::MAX))), Vec::<u64>::new());
    assert_eq!(state.block_at(3).unwrap().index, 3);
    assert!(state.block_at(5).is_none());
}
