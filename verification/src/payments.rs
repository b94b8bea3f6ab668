//! Payment intents: how one is made, which transaction pays it, and how its
//! status follows the ledger.

use crate::block::BlockView;
use crate::clock::{format_rfc3339, now_iso, now_unix, parse_rfc3339, rfc3339_instant, rfc3339_text};
use crate::ids::{new_payment_id, payment_id_prefix};
use crate::search::{any, first_index, lemma_first_index_is};
use crate::state::{State, StateView};
use crate::text::{chars_of, same_text, text_of};
use crate::transaction::{optional_text, transaction_views, Transaction, TransactionView};
use vstd::prelude::*;
use vstd::string::*;

verus! {

/// The most characters that a memo may have.
pub const MAX_MEMO_CHARS: usize = 256;

/// How long a payment waits where the caller names no time, in seconds.
pub const DEFAULT_EXPIRY_SECONDS: u64 = 900;

/// The shortest time that a payment waits, in seconds.
pub const MIN_EXPIRY_SECONDS: u64 = 60;

/// A memo cut to its first 256 characters.
pub open spec fn cut_memo(memo: Option<Seq<char>>) -> Option<Seq<char>> {
    match memo {
        Some(m) => Some(if m.len() <= MAX_MEMO_CHARS {
            m
        } else {
            m.take(MAX_MEMO_CHARS as int)
        }),
        None => None,
    }
}

/// Whether a memo is absent or has at most 256 characters.
pub open spec fn memo_fits(memo: Option<Seq<char>>) -> bool {
    match memo {
        Some(m) => m.len() <= MAX_MEMO_CHARS,
        None => true,
    }
}

/// Cuts a memo to its first 256 characters.
pub fn normalize_memo(memo: &Option<String>) -> (r: Option<String>)
    ensures
        optional_text(r) == cut_memo(optional_text(*memo)),
        memo_fits(optional_text(*memo)) <==> optional_text(r) == optional_text(*memo),
{
    match memo {
        Some(m) => {
            let chars = chars_of(m.as_str());
            if chars.len() <= MAX_MEMO_CHARS {
                proof {
                    assert(chars@.subrange(0, chars@.len() as int) =~= chars@);
                }
                Some(text_of(&chars, 0, chars.len()))
            } else {
                Some(text_of(&chars, 0, MAX_MEMO_CHARS))
            }
        },
        None => None,
    }
}

/// Whether a memo is absent or has at most 256 characters.
pub fn memo_within_limit(memo: &Option<String>) -> (r: bool)
    ensures
        r == memo_fits(optional_text(*memo)),
{
    match memo {
        Some(m) => m.as_str().unicode_len() <= MAX_MEMO_CHARS,
        None => true,
    }
}

/// Where a payment stands.
#[derive(Clone, Copy, Debug, PartialEq, Eq, Structural)]
pub enum PaymentStatus {
    /// No transaction that pays it has been seen.
    Pending,
    /// A transaction that pays it waits in the mempool.
    PendingBlock,
    /// A transaction that pays it stands in a block.
    Paid,
    /// It ran out of time unpaid.
    Expired,
}

impl PaymentStatus {
    /// The name of the status.
    pub open spec fn name_text(self) -> Seq<char> {
        match self {
            PaymentStatus::Pending => "pending"@,
            PaymentStatus::PendingBlock => "pending_block"@,
            PaymentStatus::Paid => "paid"@,
            PaymentStatus::Expired => "expired"@,
        }
    }

    /// The status that a name stands for.
    pub open spec fn of_name(name: Seq<char>) -> Option<PaymentStatus> {
        if name == "pending"@ {
            Some(PaymentStatus::Pending)
        } else if name == "pending_block"@ {
            Some(PaymentStatus::PendingBlock)
        } else if name == "paid"@ {
            Some(PaymentStatus::Paid)
        } else if name == "expired"@ {
            Some(PaymentStatus::Expired)
        } else {
            None
        }
    }

    /// The name of the status.
    pub fn name(self) -> (r: String)
        ensures
            r@ == self.name_text(),
    {
        match self {
            PaymentStatus::Pending => "pending".to_string(),
            PaymentStatus::PendingBlock => "pending_block".to_string(),
            PaymentStatus::Paid => "paid".to_string(),
            PaymentStatus::Expired => "expired".to_string(),
        }
    }

    /// Reads the name of a status.
    pub fn parse(name: &str) -> (r: Option<PaymentStatus>)
        ensures
            r == Self::of_name(name@),
    {
        if same_text(name, "pending") {
            Some(PaymentStatus::Pending)
        } else if same_text(name, "pending_block") {
            Some(PaymentStatus::PendingBlock)
        } else if same_text(name, "paid") {
            Some(PaymentStatus::Paid)
        } else if same_text(name, "expired") {
            Some(PaymentStatus::Expired)
        } else {
            None
        }
    }

    /// Whether the status never changes again.
    pub open spec fn is_final(self) -> bool {
        self == PaymentStatus::Paid || self == PaymentStatus::Expired
    }
}

/// An expected payment: who is to receive how much, until when, and what has
/// been seen of it on the ledger.
#[derive(Debug, PartialEq, Eq)]
pub struct Payment {
    pub id: String,
    pub to: String,
    pub amount: u64,
    pub memo: Option<String>,
    pub created_at: String,
    pub expires_at: String,
    pub status: PaymentStatus,
    pub transaction_id: Option<String>,
    pub block_index: Option<u64>,
}

/// The model of a payment.
pub struct PaymentView {
    pub id: Seq<char>,
    pub to: Seq<char>,
    pub amount: u64,
    pub memo: Option<Seq<char>>,
    pub created_at: Seq<char>,
    pub expires_at: Seq<char>,
    pub status: PaymentStatus,
    pub transaction_id: Option<Seq<char>>,
    pub block_index: Option<u64>,
}

impl View for Payment {
    type V = PaymentView;

    open spec fn view(&self) -> PaymentView {
        PaymentView {
            id: self.id@,
            to: self.to@,
            amount: self.amount,
            memo: optional_text(self.memo),
            created_at: self.created_at@,
            expires_at: self.expires_at@,
            status: self.status,
            transaction_id: optional_text(self.transaction_id),
            block_index: self.block_index,
        }
    }
}

impl Clone for Payment {
    fn clone(&self) -> (r: Self)
        ensures
            r == *self,
    {
        Payment {
            id: self.id.clone(),
            to: self.to.clone(),
            amount: self.amount,
            memo: self.memo.clone(),
            created_at: self.created_at.clone(),
            expires_at: self.expires_at.clone(),
            status: self.status,
            transaction_id: self.transaction_id.clone(),
            block_index: self.block_index,
        }
    }
}

/// The models of a list of payments.
pub open spec fn payment_views(list: Seq<Payment>) -> Seq<PaymentView> {
    list.map_values(|p: Payment| p@)
}

/// Whether a transaction pays a payment: it goes to the payment's receiver,
/// moves at least the payment's amount, and carries the payment's memo where
/// the payment has one.
pub open spec fn pays(tx: TransactionView, payment: PaymentView) -> bool {
    &&& tx.to == payment.to
    &&& tx.amount >= payment.amount
    &&& (payment.memo is None || tx.memo == payment.memo)
}

/// The transactions that pay a payment.
pub open spec fn paying(payment: PaymentView) -> spec_fn(TransactionView) -> bool {
    |tx: TransactionView| pays(tx, payment)
}

/// The blocks that hold a transaction that pays a payment.
pub open spec fn holding_payment(payment: PaymentView) -> spec_fn(BlockView) -> bool {
    |block: BlockView| any(block.transactions, paying(payment))
}

/// What was found of a payment on the ledger: the id of the paying
/// transaction, and the index of its block where it stands in one.
pub struct Sighting {
    pub transaction_id: Seq<char>,
    pub block_index: Option<u64>,
}

/// The first transaction that pays a payment: the chain is searched block
/// by block in its order, each block in the order of its transactions, and
/// then the mempool.
pub open spec fn sighting(payment: PaymentView, state: StateView) -> Option<Sighting> {
    let b = first_index(state.blocks, holding_payment(payment));
    if b < state.blocks.len() {
        let list = state.blocks[b].transactions;
        Some(
            Sighting {
                transaction_id: list[first_index(list, paying(payment))].id,
                block_index: Some(state.blocks[b].index),
            },
        )
    } else if any(state.mempool, paying(payment)) {
        Some(
            Sighting {
                transaction_id: state.mempool[first_index(state.mempool, paying(payment))].id,
                block_index: None,
            },
        )
    } else {
        None
    }
}

/// The model of what a search hands out.
pub open spec fn sighting_view(found: Option<(String, Option<u64>)>) -> Option<Sighting> {
    match found {
        Some((id, index)) => Some(Sighting { transaction_id: id@, block_index: index }),
        None => None,
    }
}

/// Whether a payment has run out of time at `now`: its end can be read, and
/// lies before `now`. Both are in nanoseconds since the epoch.
pub open spec fn expired_at(end: Option<i128>, now: i128) -> bool {
    match end {
        Some(t) => t < now,
        None => false,
    }
}

/// A payment after a look at the ledger. A paid or expired payment stays as
/// it is. Otherwise a paying transaction in a block makes it paid, one in
/// the mempool makes it wait for its block, and without either it expires
/// once it has run out of time.
pub open spec fn resolved(payment: PaymentView, found: Option<Sighting>, expired: bool) -> PaymentView {
    if payment.status.is_final() {
        payment
    } else {
        match found {
            Some(Sighting { transaction_id, block_index: Some(index) }) => PaymentView {
                status: PaymentStatus::Paid,
                transaction_id: Some(transaction_id),
                block_index: Some(index),
                ..payment
            },
            Some(Sighting { transaction_id, block_index: None }) => PaymentView {
                status: PaymentStatus::PendingBlock,
                transaction_id: Some(transaction_id),
                ..payment
            },
            None => if expired {
                PaymentView { status: PaymentStatus::Expired, transaction_id: None, ..payment }
            } else {
                payment
            },
        }
    }
}

/// Whether a transaction pays a payment.
pub fn transaction_pays(tx: &Transaction, payment: &Payment) -> (r: bool)
    ensures
        r == pays(tx@, payment@),
{
    if !same_text(tx.to.as_str(), payment.to.as_str()) {
        return false;
    }
    if tx.amount < payment.amount {
        return false;
    }
    match (&payment.memo, &tx.memo) {
        (None, _) => true,
        (Some(wanted), Some(given)) => same_text(given.as_str(), wanted.as_str()),
        (Some(_), None) => false,
    }
}

/// The position of the first transaction of a list that pays a payment.
pub fn first_paying(list: &Vec<Transaction>, payment: &Payment) -> (r: Option<usize>)
    ensures
        match r {
            Some(i) => i < list@.len() && i == first_index(
                transaction_views(list@),
                paying(payment@),
            ),
            None => !any(transaction_views(list@), paying(payment@)),
        },
{
    let ghost views = transaction_views(list@);
    let ghost wanted = paying(payment@);
    let mut i: usize = 0;
    while i < list.len()
        invariant
            views == transaction_views(list@),
            wanted == paying(payment@),
            i <= list@.len(),
            forall|j: int| 0 <= j < i ==> !wanted(#[trigger] views[j]),
        decreases list@.len() - i,
    {
        if transaction_pays(&list[i], payment) {
            proof {
                assert(wanted(views[i as int]));
                lemma_first_index_is(views, wanted, i as int);
            }
            return Some(i);
        }
        i = i + 1;
    }
    proof {
        lemma_first_index_is(views, wanted, i as int);
    }
    None
}

/// Finds the first transaction that pays a payment: in the chain, block by
/// block, then in the mempool.
pub fn find_matching_transaction(payment: &Payment, state: &State) -> (r: Option<
    (String, Option<u64>),
>)
    ensures
        sighting_view(r) == sighting(payment@, state@),
{
    let blocks = state.blocks();
    let ghost chain = state@.blocks;
    let ghost wanted = holding_payment(payment@);
    let mut i: usize = 0;
    while i < blocks.len()
        invariant
            chain == crate::block::block_views(blocks@),
            chain == state@.blocks,
            wanted == holding_payment(payment@),
            i <= blocks@.len(),
            forall|j: int| 0 <= j < i ==> !wanted(#[trigger] chain[j]),
        decreases blocks@.len() - i,
    {
        match first_paying(&blocks[i].transactions, payment) {
            Some(k) => {
                proof {
                    assert(chain[i as int] == blocks@[i as int]@);
                    assert(wanted(chain[i as int]));
                    lemma_first_index_is(chain, wanted, i as int);
                    assert(chain[i as int].transactions[k as int]
                        == blocks@[i as int].transactions@[k as int]@);
                }
                return Some((blocks[i].transactions[k].id.clone(), Some(blocks[i].index)));
            },
            None => {
                proof {
                    assert(chain[i as int] == blocks@[i as int]@);
                }
            },
        }
        i = i + 1;
    }
    proof {
        lemma_first_index_is(chain, wanted, i as int);
    }
    let mempool = state.mempool();
    match first_paying(mempool, payment) {
        Some(k) => Some((mempool[k].id.clone(), None)),
        None => None,
    }
}

/// Brings a payment up to date with what was found of it on the ledger.
pub fn settle_payment(payment: &mut Payment, found: Option<(String, Option<u64>)>, expired: bool)
    ensures
        final(payment)@ == resolved(old(payment)@, sighting_view(found), expired),
{
    match payment.status {
        PaymentStatus::Paid => {
            return ;
        },
        PaymentStatus::Expired => {
            return ;
        },
        _ => {},
    }
    match found {
        Some((id, Some(index))) => {
            payment.status = PaymentStatus::Paid;
            payment.transaction_id = Some(id);
            payment.block_index = Some(index);
        },
        Some((id, None)) => {
            payment.status = PaymentStatus::PendingBlock;
            payment.transaction_id = Some(id);
        },
        None => {
            if expired {
                payment.status = PaymentStatus::Expired;
                payment.transaction_id = None;
            }
        },
    }
}

/// A payment after a look at the state at the time `now`, in nanoseconds
/// since the epoch.
pub open spec fn updated(payment: PaymentView, state: StateView, now: i128) -> PaymentView {
    resolved(
        payment,
        sighting(payment, state),
        expired_at(rfc3339_instant(payment.expires_at), now),
    )
}

/// Brings a payment up to date with the state at the time `now`, in
/// nanoseconds since the epoch.
pub fn update_payment_status(payment: &mut Payment, state: &State, now: i128)
    ensures
        final(payment)@ == updated(old(payment)@, state@, now),
{
    let expired: bool = match parse_rfc3339(payment.expires_at.as_str()) {
        Some(end) => end < now,
        None => false,
    };
    let found = find_matching_transaction(payment, state);
    settle_payment(payment, found, expired);
}

/// Brings all payments up to date with the state, and says whether the
/// status of any changed.
pub fn update_payments(payments: &mut Vec<Payment>, state: &State, now: i128) -> (changed: bool)
    ensures
        final(payments)@.len() == old(payments)@.len(),
        forall|i: int|
            0 <= i < old(payments)@.len() ==> (#[trigger] final(payments)@[i])@ == updated(
                old(payments)@[i]@,
                state@,
                now,
            ),
        changed <==> exists|i: int|
            0 <= i < old(payments)@.len() && updated(
                (#[trigger] old(payments)@[i])@,
                state@,
                now,
            ).status != old(payments)@[i]@.status,
{
    let mut changed: bool = false;
    let mut i: usize = 0;
    while i < payments.len()
        invariant
            i <= payments@.len(),
            payments@.len() == old(payments)@.len(),
            forall|j: int|
                0 <= j < i ==> (#[trigger] payments@[j])@ == updated(old(payments)@[j]@, state@, now),
            forall|j: int| i <= j < payments@.len() ==> payments@[j] == old(payments)@[j],
            changed <==> exists|j: int|
                0 <= j < i && updated((#[trigger] old(payments)@[j])@, state@, now).status != old(
                    payments,
                )@[j]@.status,
        decreases payments@.len() - i,
    {
        let mut payment = payments[i].clone();
        let before = payment.status;
        update_payment_status(&mut payment, state, now);
        let differs: bool = match (before, payment.status) {
            (PaymentStatus::Pending, PaymentStatus::Pending) => false,
            (PaymentStatus::PendingBlock, PaymentStatus::PendingBlock) => false,
            (PaymentStatus::Paid, PaymentStatus::Paid) => false,
            (PaymentStatus::Expired, PaymentStatus::Expired) => false,
            _ => true,
        };
        if differs {
            changed = true;
        }
        payments.set(i, payment);
        i = i + 1;
    }
    changed
}

/// The payments with a given id.
pub open spec fn identified(id: Seq<char>) -> spec_fn(PaymentView) -> bool {
    |payment: PaymentView| payment.id == id
}

/// Where the first payment with a given id stands.
pub fn find_payment(payments: &Vec<Payment>, id: &str) -> (r: Option<usize>)
    ensures
        match r {
            Some(i) => i < payments@.len() && i == first_index(
                payment_views(payments@),
                identified(id@),
            ) && payments@[i as int].id@ == id@,
            None => !any(payment_views(payments@), identified(id@)),
        },
{
    let ghost views = payment_views(payments@);
    let ghost wanted = identified(id@);
    let mut i: usize = 0;
    while i < payments.len()
        invariant
            views == payment_views(payments@),
            wanted == identified(id@),
            i <= payments@.len(),
            forall|j: int| 0 <= j < i ==> !wanted(#[trigger] views[j]),
        decreases payments@.len() - i,
    {
        if same_text(payments[i].id.as_str(), id) {
            proof {
                assert(wanted(views[i as int]));
                lemma_first_index_is(views, wanted, i as int);
            }
            return Some(i);
        }
        i = i + 1;
    }
    proof {
        lemma_first_index_is(views, wanted, i as int);
    }
    None
}

/// How many payments are still pending.
pub open spec fn pending_count(payments: Seq<PaymentView>) -> nat
    decreases payments.len(),
{
    if payments.len() == 0 {
        0
    } else {
        pending_count(payments.drop_last()) + (if payments.last().status == PaymentStatus::Pending {
            1nat
        } else {
            0nat
        })
    }
}

/// Counts the payments that are still pending.
pub fn count_pending(payments: &Vec<Payment>) -> (r: usize)
    ensures
        r == pending_count(payment_views(payments@)),
{
    let ghost views = payment_views(payments@);
    let mut count: usize = 0;
    let mut i: usize = 0;
    while i < payments.len()
        invariant
            views == payment_views(payments@),
            i <= payments@.len(),
            count == pending_count(views.take(i as int)),
            count <= i,
        decreases payments@.len() - i,
    {
        proof {
            assert(views.take(i + 1).drop_last() =~= views.take(i as int));
            assert(views.take(i + 1).last() == payments@[i as int]@);
        }
        match payments[i].status {
            PaymentStatus::Pending => {
                count = count + 1;
            },
            _ => {},
        }
        i = i + 1;
    }
    proof {
        assert(views.take(i as int) =~= views);
    }
    count
}

/// What a caller asks for when it creates a payment.
#[derive(Debug, PartialEq, Eq)]
pub struct PaymentInput {
    pub to: String,
    pub amount: u64,
    pub memo: Option<String>,
    pub expires_in_seconds: Option<u64>,
}

/// Why a payment is not created.
#[derive(Clone, Copy, Debug, PartialEq, Eq, Structural)]
pub enum PaymentError {
    /// The receiver is empty.
    MissingDestination,
    /// The amount is zero.
    InvalidAmount,
    /// The memo has more than 256 characters.
    MemoTooLong,
}

impl PaymentError {
    /// The text that a caller is shown for the error.
    pub open spec fn message_text(self) -> Seq<char> {
        match self {
            PaymentError::MissingDestination => "Missing destination address"@,
            PaymentError::InvalidAmount => "Invalid amount"@,
            PaymentError::MemoTooLong => "Memo too long (max 256 chars)"@,
        }
    }

    /// The text that a caller is shown for the error.
    pub fn message(&self) -> (r: String)
        ensures
            r@ == self.message_text(),
    {
        match self {
            PaymentError::MissingDestination => "Missing destination address".to_string(),
            PaymentError::InvalidAmount => "Invalid amount".to_string(),
            PaymentError::MemoTooLong => "Memo too long (max 256 chars)".to_string(),
        }
    }
}

/// Whether a payment can be created of what the caller asks, and why not.
pub open spec fn payment_check(to: Seq<char>, amount: u64, memo: Option<Seq<char>>) -> Result<
    (),
    PaymentError,
> {
    if to.len() == 0 {
        Err(PaymentError::MissingDestination)
    } else if amount == 0 {
        Err(PaymentError::InvalidAmount)
    } else if !memo_fits(memo) {
        Err(PaymentError::MemoTooLong)
    } else {
        Ok(())
    }
}

/// How long a payment waits: what the caller asks for, fifteen minutes where
/// it asks for nothing, and never less than a minute.
pub open spec fn expiry_seconds(asked: Option<u64>) -> u64 {
    let wanted = match asked {
        Some(s) => s,
        None => DEFAULT_EXPIRY_SECONDS,
    };
    if wanted < MIN_EXPIRY_SECONDS {
        MIN_EXPIRY_SECONDS
    } else {
        wanted
    }
}

/// When a payment made at `now` ends, as text: the RFC 3339 text of the end
/// where it can be written, and the text of `now` where it cannot.
pub open spec fn expiry_text(now: u64, asked: Option<u64>, now_text: Seq<char>) -> Seq<char> {
    let end = now + expiry_seconds(asked);
    if end <= i64::MAX {
        match rfc3339_text(end as i64) {
            Some(text) => text,
            None => now_text,
        }
    } else {
        now_text
    }
}

/// Creates a payment at a given time and under a given id. The receiver
/// must not be empty, the amount not zero, and the memo no longer than 256
/// characters. The payment starts as pending, with nothing seen of it.
pub fn create_payment_at(input: PaymentInput, id: String, now: u64, now_text: String) -> (r: Result<
    Payment,
    PaymentError,
>)
    ensures
        match r {
            Ok(payment) => payment_check(input.to@, input.amount, optional_text(input.memo)) is Ok
                && payment@ == (PaymentView {
                id: id@,
                to: input.to@,
                amount: input.amount,
                memo: optional_text(input.memo),
                created_at: now_text@,
                expires_at: expiry_text(now, input.expires_in_seconds, now_text@),
                status: PaymentStatus::Pending,
                transaction_id: None,
                block_index: None,
            }),
            Err(e) => payment_check(input.to@, input.amount, optional_text(input.memo)) == Err::<
                (),
                PaymentError,
            >(e),
        },
{
    if input.to.as_str().is_empty() {
        return Err(PaymentError::MissingDestination);
    }
    if input.amount == 0 {
        return Err(PaymentError::InvalidAmount);
    }
    if !memo_within_limit(&input.memo) {
        return Err(PaymentError::MemoTooLong);
    }
    let asked: u64 = match input.expires_in_seconds {
        Some(s) => s,
        None => DEFAULT_EXPIRY_SECONDS,
    };
    let wait: u64 = if asked < MIN_EXPIRY_SECONDS {
        MIN_EXPIRY_SECONDS
    } else {
        asked
    };
    let end: u128 = now as u128 + wait as u128;
    let written: Option<String> = if end <= i64::MAX as u128 {
        format_rfc3339(end as i64)
    } else {
        None
    };
    let expires_at: String = match written {
        Some(text) => text,
        None => now_text.clone(),
    };
    Ok(
        Payment {
            id,
            to: input.to,
            amount: input.amount,
            memo: input.memo,
            created_at: now_text,
            expires_at,
            status: PaymentStatus::Pending,
            transaction_id: None,
            block_index: None,
        },
    )
}

/// Creates a payment now, under a fresh id.
pub fn create_payment(input: PaymentInput) -> (r: Result<Payment, PaymentError>)
    ensures
        match r {
            Ok(payment) => payment_check(input.to@, input.amount, optional_text(input.memo)) is Ok
                && payment@.to == input.to@ && payment@.amount == input.amount && payment@.memo
                == optional_text(input.memo) && payment@.status == PaymentStatus::Pending
                && payment@.transaction_id is None && payment@.block_index is None
                && payment_id_prefix().is_prefix_of(payment@.id) && exists|now: u64|
                payment@.expires_at == #[trigger] expiry_text(
                    now,
                    input.expires_in_seconds,
                    payment@.created_at,
                ),
            Err(e) => payment_check(input.to@, input.amount, optional_text(input.memo)) == Err::<
                (),
                PaymentError,
            >(e),
        },
{
    let id = new_payment_id();
    let now = now_unix();
    let now_text = now_iso();
    let ghost asked = input.expires_in_seconds;
    let r = create_payment_at(input, id, now, now_text);
    proof {
        if r is Ok {
            assert(r->Ok_0@.expires_at == expiry_text(now, asked, r->Ok_0@.created_at));
        }
    }
    r
}

} // verus!
