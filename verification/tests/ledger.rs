use bulennode::account::{Account, AccountBook, AccountEntry};
use bulennode::state::{FaucetError, State};
use bulennode::submit::{SubmitError, TxInput};
use bulennode::transaction::{default_action, Action, Transaction, ValidationError};

fn input(from: &str, to: &str, amount: u64, fee: u64, action: Option<&str>) -> TxInput {
    TxInput {
        from: from.to_string(),
        to: Some(to.to_string()),
        amount,
        fee,
        nonce: None,
        public_key: None,
        signature: None,
        memo: None,
        action: action.map(|a| a.to_string()),
    }
}

fn tx(from: &str, to: &str, amount: u64, fee: u64, nonce: u64, action: &str) -> Transaction {
    Transaction {
        id: format!("tx-{}-{}", from, nonce),
        from: from.to_string(),
        to: to.to_string(),
        amount,
        fee,
        nonce,
        timestamp: "2024-01-01T00:00:00Z".to_string(),
        action: action.to_string(),
        memo: None,
        public_key: None,
        signature: None,
    }
}

fn fresh() -> State {
    State::new("node-1", "2024-01-01T00:00:00Z".to_string(), 0)
}

fn funded(address: &str, amount: u64) -> State {
    let mut state = fresh();
    assert_eq!(state.faucet(address, Some(amount), true), Ok(amount as i128));
    state
}

#[test]
fn health_and_block_flow() {
    let mut state = fresh();
    assert_eq!(state.faucet("alice", Some(1000), true), Ok(1000));
    let accepted = state.submit_transaction(false, input("alice", "bob", 10, 1, None));
    assert!(accepted.is_ok());
    let block = state.produce_block("node-1", 0);
    assert!(block.is_some());
    let page = state.blocks_page(None, None);
    assert!(page.len() >= 1);
    assert_eq!(page.len(), 2);
    assert_eq!(page[0].index, 1);
    assert_eq!(page[1].index, 0);
}

#[test]
fn transfer_happy_path() {
    let mut state = funded("alice", 1000);
    let tx = state.submit_transaction(false, input("alice", "bob", 10, 1, None)).unwrap();
    assert_eq!(tx.nonce, 1);
    assert_eq!(tx.action, "transfer");
    assert!(tx.id.starts_with("tx-"));
    assert_eq!(state.mempool().len(), 1);
    assert_eq!(state.account("alice").balance, 1000);
    let block = state.produce_block_at("node-1", "2024-01-01T00:00:08Z".to_string(), 0);
    assert!(block.is_some());
    assert!(state.height() >= 1);
    assert_eq!(state.account("alice").balance, 989);
    assert_eq!(state.account("bob").balance, 10);
    assert_eq!(state.account("alice").nonce, 1);
    assert_eq!(state.mempool().len(), 0);
}

#[test]
fn stake_then_unstake() {
    let mut state = funded("alice", 5000);
    assert_eq!(state.apply_transaction(&tx("alice", "alice", 1000, 1, 1, "stake")), Ok(()));
    assert_eq!(state.account("alice").balance, 3999);
    assert_eq!(state.account("alice").stake, 1000);
    assert_eq!(state.apply_transaction(&tx("alice", "alice", 500, 1, 2, "unstake")), Ok(()));
    assert_eq!(state.account("alice").balance, 4498);
    assert_eq!(state.account("alice").stake, 500);
    assert_eq!(state.account("alice").nonce, 2);
    assert_eq!(state.total_stake(), 500);
}

#[test]
fn self_transfer_burns_only_the_fee() {
    let mut state = funded("alice", 100);
    assert_eq!(state.apply_transaction(&tx("alice", "alice", 10, 1, 1, "transfer")), Ok(()));
    assert_eq!(state.account("alice").balance, 99);
    assert_eq!(state.account("alice").nonce, 1);
    assert_eq!(state.accounts().total(), 99);
}

#[test]
fn nonce_must_be_the_next_one() {
    let mut state = funded("alice", 100);
    assert_eq!(state.apply_transaction(&tx("alice", "bob", 1, 0, 1, "transfer")), Ok(()));
    assert_eq!(
        state.validate_transaction(&tx("alice", "bob", 1, 0, 1, "transfer")),
        Err(ValidationError::InvalidNonce { expected: 2, got: 1 })
    );
    assert_eq!(
        state.validate_transaction(&tx("alice", "bob", 1, 0, 3, "transfer")),
        Err(ValidationError::InvalidNonce { expected: 2, got: 3 })
    );
    assert_eq!(state.validate_transaction(&tx("alice", "bob", 1, 0, 2, "transfer")), Ok(()));
    assert_eq!(
        state.validate_transaction(&tx("carol", "bob", 1, 0, 0, "transfer")),
        Err(ValidationError::InvalidNonce { expected: 1, got: 0 })
    );
}

#[test]
fn largest_nonce_has_no_successor() {
    let entries = vec![AccountEntry {
        address: "alice".to_string(),
        account: Account { balance: 10, stake: 0, nonce: u64::MAX, reputation: 0 },
    }];
    let state = State::from_parts(vec![], entries, vec![], 0, 0).unwrap();
    assert_eq!(
        state.validate_transaction(&tx("alice", "bob", 1, 0, u64::MAX, "transfer")),
        Err(ValidationError::InvalidNonce { expected: 18446744073709551616, got: u64::MAX })
    );
    assert_eq!(
        ValidationError::InvalidNonce { expected: 18446744073709551616, got: u64::MAX }.message(),
        "invalid nonce: expected 18446744073709551616, got 18446744073709551615"
    );
}

#[test]
fn every_validation_error_has_its_input() {
    let state = funded("alice", 100);
    assert_eq!(
        state.validate_transaction(&tx("alice", "bob", 1, 0, 1, "burn")),
        Err(ValidationError::InvalidAction)
    );
    assert_eq!(
        state.validate_transaction(&tx("alice", "bob", 0, 0, 1, "transfer")),
        Err(ValidationError::ZeroAmount)
    );
    assert_eq!(
        state.validate_transaction(&tx("", "bob", 1, 0, 1, "transfer")),
        Err(ValidationError::MissingAddress)
    );
    assert_eq!(
        state.validate_transaction(&tx("alice", "", 1, 0, 1, "transfer")),
        Err(ValidationError::MissingAddress)
    );
    assert_eq!(
        state.validate_transaction(&tx("alice", "bob", 1, 0, 2, "transfer")),
        Err(ValidationError::InvalidNonce { expected: 1, got: 2 })
    );
    assert_eq!(
        state.validate_transaction(&tx("alice", "bob", u64::MAX, 1, 1, "transfer")),
        Err(ValidationError::AmountOverflow)
    );
    assert_eq!(
        state.validate_transaction(&tx("alice", "bob", 100, 1, 1, "transfer")),
        Err(ValidationError::InsufficientBalance)
    );
    assert_eq!(
        state.validate_transaction(&tx("alice", "bob", 100, 1, 1, "stake")),
        Err(ValidationError::InsufficientBalance)
    );
    assert_eq!(
        state.validate_transaction(&tx("alice", "alice", 1, 0, 1, "unstake")),
        Err(ValidationError::InsufficientStake)
    );
    assert_eq!(state.validate_transaction(&tx("alice", "bob", 99, 1, 1, "transfer")), Ok(()));
    assert_eq!(state.validate_transaction(&tx("alice", "bob", 100, 0, 1, "stake")), Ok(()));
}

#[test]
fn zero_amount_is_checked_before_the_addresses() {
    let state = fresh();
    assert_eq!(
        state.validate_transaction(&tx("", "", 0, 0, 9, "transfer")),
        Err(ValidationError::ZeroAmount)
    );
    assert_eq!(
        state.validate_transaction(&tx("", "", 0, 0, 9, "nothing")),
        Err(ValidationError::InvalidAction)
    );
}

#[test]
fn unstake_needs_stake_and_a_balance_for_the_fee() {
    let entries = vec![AccountEntry {
        address: "alice".to_string(),
        account: Account { balance: 2, stake: 50, nonce: 0, reputation: 0 },
    }];
    let mut state = State::from_parts(vec![], entries, vec![], 0, 0).unwrap();
    assert_eq!(
        state.validate_transaction(&tx("alice", "alice", 51, 0, 1, "unstake")),
        Err(ValidationError::InsufficientStake)
    );
    assert_eq!(
        state.validate_transaction(&tx("alice", "alice", 50, 3, 1, "unstake")),
        Err(ValidationError::InsufficientBalanceForFee)
    );
    assert_eq!(state.apply_transaction(&tx("alice", "alice", 50, 2, 1, "unstake")), Ok(()));
    assert_eq!(state.account("alice"), Account { balance: 50, stake: 0, nonce: 1, reputation: 0 });
}

#[test]
fn amount_and_fee_at_the_64_bit_boundary() {
    let entries = vec![AccountEntry {
        address: "alice".to_string(),
        account: Account { balance: u64::MAX as i128, stake: u64::MAX as i128, nonce: 0, reputation: 0 },
    }];
    let mut state = State::from_parts(vec![], entries, vec![], 0, 0).unwrap();
    assert_eq!(
        state.validate_transaction(&tx("alice", "bob", u64::MAX, 1, 1, "transfer")),
        Err(ValidationError::AmountOverflow)
    );
    assert_eq!(
        state.validate_transaction(&tx("alice", "bob", 1, u64::MAX, 1, "stake")),
        Err(ValidationError::AmountOverflow)
    );
    assert_eq!(
        state.validate_transaction(&tx("alice", "alice", u64::MAX, 1, 1, "unstake")),
        Err(ValidationError::AmountOverflow)
    );
    assert_eq!(state.apply_transaction(&tx("alice", "bob", u64::MAX - 1, 1, 1, "transfer")), Ok(()));
    assert_eq!(state.account("alice").balance, 0);
    assert_eq!(state.account("bob").balance, (u64::MAX - 1) as i128);
}

#[test]
fn a_refused_transaction_changes_nothing() {
    let mut state = funded("alice", 5);
    assert_eq!(
        state.apply_transaction(&tx("alice", "bob", 5, 1, 1, "transfer")),
        Err(ValidationError::InsufficientBalance)
    );
    assert_eq!(state.account("alice"), Account { balance: 5, stake: 0, nonce: 0, reputation: 0 });
    assert_eq!(state.accounts().len(), 1);
    assert!(!state.accounts().contains("bob"));
}

#[test]
fn applying_makes_sender_and_receiver_known() {
    let mut state = funded("alice", 50);
    assert_eq!(state.apply_transaction(&tx("alice", "vault", 10, 0, 1, "stake")), Ok(()));
    assert!(state.accounts().contains("vault"));
    assert_eq!(state.account("vault"), Account { balance: 0, stake: 0, nonce: 0, reputation: 0 });
    assert_eq!(state.account("alice"), Account { balance: 40, stake: 10, nonce: 1, reputation: 0 });
    assert_eq!(state.accounts().len(), 2);
    assert_eq!(state.accounts().entry(0).address, "alice");
    assert_eq!(state.accounts().entry(1).address, "vault");
}

#[test]
fn funds_shrink_by_the_fees_only() {
    let mut state = funded("alice", 1000);
    assert_eq!(state.accounts().total(), 1000);
    assert_eq!(state.apply_transaction(&tx("alice", "bob", 100, 7, 1, "transfer")), Ok(()));
    assert_eq!(state.accounts().total(), 993);
    assert_eq!(state.apply_transaction(&tx("alice", "alice", 200, 3, 2, "stake")), Ok(()));
    assert_eq!(state.accounts().total(), 990);
    assert_eq!(state.apply_transaction(&tx("bob", "alice", 50, 0, 1, "transfer")), Ok(()));
    assert_eq!(state.accounts().total(), 990);
    let held: i128 = state
        .accounts()
        .entries()
        .iter()
        .map(|e| e.account.balance + e.account.stake)
        .sum();
    assert_eq!(held, 990);
}

#[test]
fn unknown_address_reads_as_zero() {
    let state = fresh();
    assert_eq!(state.account("nobody"), Account { balance: 0, stake: 0, nonce: 0, reputation: 0 });
    assert_eq!(Account::new(), Account { balance: 0, stake: 0, nonce: 0, reputation: 0 });
}

#[test]
fn faucet_rules() {
    let mut state = fresh();
    assert_eq!(state.faucet("alice", Some(5), false), Err(FaucetError::Disabled));
    assert_eq!(state.faucet("", Some(5), true), Err(FaucetError::MissingAddress));
    assert_eq!(state.faucet("alice", Some(0), true), Err(FaucetError::InvalidAmount));
    assert_eq!(state.faucet("", Some(0), false), Err(FaucetError::Disabled));
    assert_eq!(state.faucet("alice", None, true), Ok(1000));
    assert_eq!(state.faucet("alice", Some(5), true), Ok(1005));
    assert_eq!(state.account("alice").balance, 1005);
    assert_eq!(FaucetError::Disabled.message(), "Faucet disabled");
    assert_eq!(FaucetError::MissingAddress.message(), "missing address");
    assert_eq!(FaucetError::InvalidAmount.message(), "invalid amount");
    assert!(state.has_room(u64::MAX));
}

#[test]
fn submission_rules() {
    let mut state = funded("alice", 100);
    assert_eq!(
        state.submit_transaction(false, input("alice", "bob", 0, 0, None)),
        Err(SubmitError::ZeroAmount)
    );
    let mut long_memo = input("alice", "bob", 1, 0, None);
    long_memo.memo = Some("m".repeat(257));
    assert_eq!(state.submit_transaction(false, long_memo), Err(SubmitError::MemoTooLong));
    let mut exact_memo = input("alice", "bob", 1, 0, None);
    exact_memo.memo = Some("é".repeat(256));
    let accepted = state.submit_transaction(false, exact_memo).unwrap();
    assert_eq!(accepted.memo, Some("é".repeat(256)));
    assert_eq!(
        state.submit_transaction(false, input("alice", "bob", 1, 0, Some("mint"))),
        Err(SubmitError::Validation(ValidationError::InvalidAction))
    );
    let mut no_receiver = input("alice", "bob", 1, 0, None);
    no_receiver.to = None;
    assert_eq!(
        state.submit_transaction(false, no_receiver),
        Err(SubmitError::Validation(ValidationError::MissingAddress))
    );
    let mut stale = input("alice", "bob", 1, 0, None);
    stale.nonce = Some(5);
    assert_eq!(
        state.submit_transaction(false, stale),
        Err(SubmitError::Validation(ValidationError::InvalidNonce { expected: 1, got: 5 }))
    );
    assert_eq!(state.mempool().len(), 1);
    assert_eq!(SubmitError::ZeroAmount.message(), "amount must be > 0");
    assert_eq!(SubmitError::MemoTooLong.message(), "memo too long (max 256 chars)");
}

#[test]
fn submitting_twice_before_a_block_then_once_after() {
    let mut state = funded("alice", 100);
    let mut first = input("alice", "bob", 10, 1, None);
    first.nonce = Some(1);
    let mut second = input("alice", "bob", 10, 1, None);
    second.nonce = Some(1);
    assert!(state.submit_transaction(false, first).is_ok());
    assert!(state.submit_transaction(false, second).is_ok());
    assert!(state.produce_block_at("node-1", "t".to_string(), 0).is_some());
    assert_eq!(state.account("alice").balance, 89);
    assert_eq!(state.account("bob").balance, 10);
    assert_eq!(state.account("alice").nonce, 1);
    let mut third = input("alice", "bob", 10, 1, None);
    third.nonce = Some(1);
    assert_eq!(
        state.submit_transaction(false, third),
        Err(SubmitError::Validation(ValidationError::InvalidNonce { expected: 2, got: 1 }))
    );
}

#[test]
fn validation_messages() {
    assert_eq!(ValidationError::InvalidAction.message(), "Invalid action");
    assert_eq!(ValidationError::ZeroAmount.message(), "amount must be > 0");
    assert_eq!(ValidationError::MissingAddress.message(), "missing from/to");
    assert_eq!(
        ValidationError::InvalidNonce { expected: 2, got: 10 }.message(),
        "invalid nonce: expected 2, got 10"
    );
    assert_eq!(ValidationError::AmountOverflow.message(), "amount overflow");
    assert_eq!(ValidationError::InsufficientBalance.message(), "insufficient balance");
    assert_eq!(ValidationError::InsufficientStake.message(), "insufficient stake");
    assert_eq!(
        ValidationError::InsufficientBalanceForFee.message(),
        "insufficient balance for fee"
    );
}

#[test]
fn actions_and_their_names() {
    assert_eq!(default_action(), "transfer");
    assert_eq!(Action::parse("transfer"), Some(Action::Transfer));
    assert_eq!(Action::parse("stake"), Some(Action::Stake));
    assert_eq!(Action::parse("unstake"), Some(Action::Unstake));
    assert_eq!(Action::parse("Transfer"), None);
    assert_eq!(Action::parse(""), None);
    assert_eq!(Action::Unstake.name(), "unstake");
    assert_eq!(Action::Stake.name(), "stake");
    assert_eq!(Action::Transfer.name(), "transfer");
}

#[test]
fn a_book_is_made_of_sound_entries_only() {
    let entry = |address: &str, balance: i128, stake: i128| AccountEntry {
        address: address.to_string(),
        account: Account { balance, stake, nonce: 0, reputation: 0 },
    };
    assert!(AccountBook::from_entries(vec![entry("a", 1, 2), entry("b", 0, 0)]).is_some());
    assert!(AccountBook::from_entries(vec![entry("a", 1, 2), entry("a", 0, 0)]).is_none());
    assert!(AccountBook::from_entries(vec![entry("a", -1, 2)]).is_none());
    assert!(AccountBook::from_entries(vec![entry("a", 1, -2)]).is_none());
    assert!(AccountBook::from_entries(vec![entry("a", i128::MAX, 0), entry("b", 1, 0)]).is_none());
    assert!(AccountBook::from_entries(vec![entry("a", i128::MAX - 1, 1)]).is_some());
    let book = AccountBook::from_entries(vec![entry("a", 1, 2), entry("b", 3, 4)]).unwrap();
    assert_eq!(book.total(), 10);
    assert_eq!(book.total_stake(), 6);
    assert_eq!(book.get("b").balance, 3);
    assert!(!book.has_room(u64::MAX) || book.total() + (u64::MAX as i128) <= i128::MAX);
}
