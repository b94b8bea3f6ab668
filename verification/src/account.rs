//! Accounts and the book that maps each known address to its account.

use crate::text::same_text;
use vstd::prelude::*;

verus! {

/// One account of the ledger.
#[derive(Clone, Copy, Debug, PartialEq, Eq, Structural)]
pub struct Account {
    pub balance: i128,
    pub stake: i128,
    pub nonce: u64,
    pub reputation: i64,
}

impl Account {
    /// An account holds no debt: neither its balance nor its stake is negative.
    pub open spec fn well_formed(self) -> bool {
        self.balance >= 0 && self.stake >= 0
    }

    /// The account of an address that the ledger has not seen yet.
    pub open spec fn zero() -> Account {
        Account { balance: 0, stake: 0, nonce: 0, reputation: 0 }
    }

    /// What the account holds: balance and stake together.
    pub open spec fn funds(self) -> int {
        self.balance + self.stake
    }

    /// Makes the account of an address that the ledger has not seen yet.
    pub fn new() -> (a: Account)
        ensures
            a == Account::zero(),
    {
        Account { balance: 0, stake: 0, nonce: 0, reputation: 0 }
    }
}

/// An address with its account, as the book's model holds it.
pub struct Holding {
    pub address: Seq<char>,
    pub account: Account,
}

/// Whether the book has an account for the address.
pub open spec fn knows(book: Seq<Holding>, address: Seq<char>) -> bool {
    exists|i: int| 0 <= i < book.len() && (#[trigger] book[i]).address == address
}

/// Where the book keeps the address; meaningful where `knows` holds.
pub open spec fn slot(book: Seq<Holding>, address: Seq<char>) -> int {
    choose|i: int| 0 <= i < book.len() && (#[trigger] book[i]).address == address
}

/// The account of an address: all zero where the book does not know it.
pub open spec fn account_of(book: Seq<Holding>, address: Seq<char>) -> Account {
    if knows(book, address) {
        book[slot(book, address)].account
    } else {
        Account::zero()
    }
}

/// No address occurs twice.
pub open spec fn distinct(book: Seq<Holding>) -> bool {
    forall|i: int, j: int|
        0 <= i < j < book.len() ==> (#[trigger] book[i]).address != (#[trigger] book[j]).address
}

/// Everything that the accounts of the book hold.
pub open spec fn funds(book: Seq<Holding>) -> int
    decreases book.len(),
{
    if book.len() == 0 {
        0
    } else {
        funds(book.drop_last()) + book.last().account.funds()
    }
}

/// All stakes of the book together.
pub open spec fn stakes(book: Seq<Holding>) -> int
    decreases book.len(),
{
    if book.len() == 0 {
        0
    } else {
        stakes(book.drop_last()) + book.last().account.stake
    }
}

/// No account of the book is in debt.
pub open spec fn solvent(book: Seq<Holding>) -> bool {
    forall|i: int| 0 <= i < book.len() ==> (#[trigger] book[i]).account.well_formed()
}

/// A book is sound when no address occurs twice, no account is in debt, and
/// all that the accounts hold fits a signed 128-bit number.
pub open spec fn sound(book: Seq<Holding>) -> bool {
    &&& distinct(book)
    &&& solvent(book)
    &&& funds(book) <= i128::MAX
}

/// The book with the account of `address` replaced, or added at the end where
/// the address was unknown.
pub open spec fn stored(book: Seq<Holding>, address: Seq<char>, account: Account) -> Seq<Holding> {
    if knows(book, address) {
        book.update(slot(book, address), Holding { address, account })
    } else {
        book.push(Holding { address, account })
    }
}

/// The book with a zero account added for `address` where it was unknown.
pub open spec fn touched(book: Seq<Holding>, address: Seq<char>) -> Seq<Holding> {
    if knows(book, address) {
        book
    } else {
        book.push(Holding { address, account: Account::zero() })
    }
}

/// In a book without repeated addresses, an address is found only in its slot.
pub proof fn lemma_slot(book: Seq<Holding>, i: int)
    requires
        distinct(book),
        0 <= i < book.len(),
    ensures
        knows(book, book[i].address),
        slot(book, book[i].address) == i,
        account_of(book, book[i].address) == book[i].account,
{
    let address = book[i].address;
    let j = slot(book, address);
    assert(0 <= j < book.len() && book[j].address == address);
    if j < i {
        assert(book[j].address != book[i].address);
    } else if i < j {
        assert(book[i].address != book[j].address);
    }
}

/// What `stored` does to lookups, and that it keeps addresses distinct.
pub proof fn lemma_stored(book: Seq<Holding>, address: Seq<char>, account: Account)
    requires
        distinct(book),
    ensures
        distinct(stored(book, address, account)),
        forall|other: Seq<char>|
            knows(stored(book, address, account), other) <==> (other == address || knows(
                book,
                other,
            )),
        forall|other: Seq<char>|
            #[trigger] account_of(stored(book, address, account), other) == (if other == address {
                account
            } else {
                account_of(book, other)
            }),
        stored(book, address, account).len() == (if knows(book, address) {
            book.len()
        } else {
            book.len() + 1
        }),
{
    let after = stored(book, address, account);
    let k = if knows(book, address) {
        slot(book, address)
    } else {
        book.len() as int
    };
    assert(0 <= k < after.len());
    assert(after[k] == Holding { address, account });
    assert forall|i: int| 0 <= i < after.len() && i != k implies #[trigger] after[i] == book[i]
        && book[i].address != address by {
        if knows(book, address) {
            lemma_slot(book, i);
        }
    }
    assert(distinct(after)) by {
        assert forall|i: int, j: int| 0 <= i < j < after.len() implies (#[trigger] after[i]).address
            != (#[trigger] after[j]).address by {
            if i != k && j != k {
                assert(book[i].address != book[j].address);
            }
        }
    }
    assert forall|other: Seq<char>|
        knows(after, other) <==> (other == address || knows(book, other)) by {
        if knows(after, other) {
            let i = slot(after, other);
            if i != k {
                assert(book[i].address == other);
            }
        }
        if other == address {
            assert(after[k].address == other);
        }
        if knows(book, other) && other != address {
            let i = slot(book, other);
            assert(after[i].address == other);
        }
    }
    assert forall|other: Seq<char>| #[trigger]
        account_of(after, other) == (if other == address {
            account
        } else {
            account_of(book, other)
        }) by {
        if other == address {
            lemma_slot(after, k);
        } else if knows(book, other) {
            let i = slot(book, other);
            assert(after[i] == book[i]);
            lemma_slot(after, i);
        }
    }
}

/// What `touched` does to lookups: nothing, but the address is then known.
pub proof fn lemma_touched(book: Seq<Holding>, address: Seq<char>)
    requires
        distinct(book),
    ensures
        touched(book, address) == stored(book, address, account_of(book, address)),
        knows(touched(book, address), address),
        distinct(touched(book, address)),
        forall|other: Seq<char>|
            knows(touched(book, address), other) <==> (other == address || knows(book, other)),
        forall|other: Seq<char>| #[trigger]
            account_of(touched(book, address), other) == account_of(book, other),
        funds(touched(book, address)) == funds(book),
        solvent(book) ==> solvent(touched(book, address)),
{
    lemma_stored(book, address, account_of(book, address));
    if knows(book, address) {
        let i = slot(book, address);
        assert(book.update(i, Holding { address, account: book[i].account }) =~= book);
    } else {
        let after = book.push(Holding { address, account: Account::zero() });
        assert(after.drop_last() =~= book);
    }
}

/// What the accounts hold changes by what the stored account gains.
pub proof fn lemma_stored_funds(book: Seq<Holding>, address: Seq<char>, account: Account)
    requires
        distinct(book),
    ensures
        funds(stored(book, address, account)) == funds(book) - account_of(book, address).funds()
            + account.funds(),
        stakes(stored(book, address, account)) == stakes(book) - account_of(book, address).stake
            + account.stake,
        solvent(book) && account.well_formed() ==> solvent(stored(book, address, account)),
{
    let after = stored(book, address, account);
    if knows(book, address) {
        let i = slot(book, address);
        lemma_slot(book, i);
        lemma_funds_update(book, i, Holding { address, account });
    } else {
        assert(after.drop_last() =~= book);
    }
}

/// Replacing one holding changes the totals by the difference.
pub proof fn lemma_funds_update(book: Seq<Holding>, i: int, holding: Holding)
    requires
        0 <= i < book.len(),
    ensures
        funds(book.update(i, holding)) == funds(book) - book[i].account.funds()
            + holding.account.funds(),
        stakes(book.update(i, holding)) == stakes(book) - book[i].account.stake
            + holding.account.stake,
    decreases book.len(),
{
    let after = book.update(i, holding);
    if i == book.len() - 1 {
        assert(after.drop_last() =~= book.drop_last());
    } else {
        lemma_funds_update(book.drop_last(), i, holding);
        assert(after.drop_last() =~= book.drop_last().update(i, holding));
    }
}

/// In a book without debt no account holds more than all accounts together.
pub proof fn lemma_funds_bound(book: Seq<Holding>, i: int)
    requires
        solvent(book),
        0 <= i < book.len(),
    ensures
        0 <= book[i].account.funds() <= funds(book),
        0 <= book[i].account.stake <= stakes(book) <= funds(book),
    decreases book.len(),
{
    lemma_funds_nonnegative(book.drop_last());
    assert(book.last().account.well_formed());
    if i < book.len() - 1 {
        assert forall|j: int| 0 <= j < book.drop_last().len() implies (
        #[trigger] book.drop_last()[j]).account.well_formed() by {
            assert(book.drop_last()[j] == book[j]);
        }
        lemma_funds_bound(book.drop_last(), i);
    }
}

/// A book without debt holds nothing negative.
pub proof fn lemma_funds_nonnegative(book: Seq<Holding>)
    requires
        solvent(book),
    ensures
        0 <= stakes(book) <= funds(book),
    decreases book.len(),
{
    if book.len() > 0 {
        assert forall|j: int| 0 <= j < book.drop_last().len() implies (
        #[trigger] book.drop_last()[j]).account.well_formed() by {
            assert(book.drop_last()[j] == book[j]);
        }
        lemma_funds_nonnegative(book.drop_last());
        assert(book.last().account.well_formed());
    }
}

/// The account of any address in a book without debt is without debt, and
/// holds no more than the whole book.
pub proof fn lemma_account_of_bound(book: Seq<Holding>, address: Seq<char>)
    requires
        solvent(book),
    ensures
        account_of(book, address).well_formed(),
        account_of(book, address).funds() <= funds(book),
        account_of(book, address).stake <= stakes(book),
{
    lemma_funds_nonnegative(book);
    if knows(book, address) {
        lemma_funds_bound(book, slot(book, address));
    }
}

/// The totals of a part of a book without debt are no more than those of the whole.
pub proof fn lemma_funds_prefix(book: Seq<Holding>, n: int)
    requires
        solvent(book),
        0 <= n <= book.len(),
    ensures
        0 <= funds(book.take(n)) <= funds(book),
        0 <= stakes(book.take(n)) <= stakes(book),
        solvent(book.take(n)),
    decreases book.len() - n,
{
    assert forall|j: int| 0 <= j < n implies (#[trigger] book.take(n)[j]).account.well_formed() by {
        assert(book.take(n)[j] == book[j]);
    }
    lemma_funds_nonnegative(book.take(n));
    if n == book.len() {
        assert(book.take(n) =~= book);
    } else {
        lemma_funds_prefix(book, n + 1);
        assert(book.take(n + 1).drop_last() =~= book.take(n));
        assert(book.take(n + 1).last() == book[n]);
        assert(book[n].account.well_formed());
    }
}

/// An address with its account.
#[derive(Debug, PartialEq, Eq)]
pub struct AccountEntry {
    pub address: String,
    pub account: Account,
}

impl View for AccountEntry {
    type V = Holding;

    open spec fn view(&self) -> Holding {
        Holding { address: self.address@, account: self.account }
    }
}

impl Clone for AccountEntry {
    fn clone(&self) -> (r: Self)
        ensures
            r == *self,
    {
        AccountEntry { address: self.address.clone(), account: self.account }
    }
}

/// The model of a list of entries.
pub open spec fn holdings(entries: Seq<AccountEntry>) -> Seq<Holding> {
    entries.map_values(|e: AccountEntry| e@)
}

/// The accounts that the ledger knows, each under its address. An address
/// that the book does not know reads as the zero account.
#[derive(Debug)]
pub struct AccountBook {
    entries: Vec<AccountEntry>,
    supply: i128,
}

impl View for AccountBook {
    type V = Seq<Holding>;

    closed spec fn view(&self) -> Seq<Holding> {
        holdings(self.entries@)
    }
}

impl AccountBook {
    /// The book's model is sound, and the book agrees with it.
    pub closed spec fn well_formed(&self) -> bool {
        &&& sound(self@)
        &&& self.supply == funds(self@)
    }

    /// A well-formed book has a sound model.
    pub proof fn lemma_sound(&self)
        requires
            self.well_formed(),
        ensures
            sound(self@),
    {
    }

    /// The empty book.
    pub fn new() -> (book: AccountBook)
        ensures
            book@ == Seq::<Holding>::empty(),
            book.well_formed(),
    {
        let book = AccountBook { entries: Vec::new(), supply: 0 };
        proof {
            assert(book@ =~= Seq::<Holding>::empty());
        }
        book
    }

    /// The number of known addresses.
    pub fn len(&self) -> (n: usize)
        ensures
            n == self@.len(),
    {
        self.entries.len()
    }

    /// The entry at a position, in order of first appearance.
    pub fn entry(&self, i: usize) -> (e: &AccountEntry)
        requires
            i < self@.len(),
        ensures
            e@ == self@[i as int],
    {
        &self.entries[i]
    }

    /// All entries, in order of first appearance.
    pub fn entries(&self) -> (r: Vec<AccountEntry>)
        ensures
            holdings(r@) == self@,
    {
        let mut out: Vec<AccountEntry> = Vec::new();
        let mut i: usize = 0;
        while i < self.entries.len()
            invariant
                i <= self.entries@.len(),
                out@.len() == i,
                forall|j: int| 0 <= j < i ==> (#[trigger] out@[j])@ == self.entries@[j]@,
            decreases self.entries@.len() - i,
        {
            out.push(self.entries[i].clone());
            i = i + 1;
        }
        proof {
            assert(holdings(out@) =~= self@);
        }
        out
    }

    fn find(&self, address: &str) -> (r: Option<usize>)
        ensures
            match r {
                Some(i) => i < self@.len() && self@[i as int].address == address@,
                None => !knows(self@, address@),
            },
    {
        let mut i: usize = 0;
        while i < self.entries.len()
            invariant
                i <= self.entries@.len(),
                forall|j: int| 0 <= j < i ==> (#[trigger] self@[j]).address != address@,
            decreases self.entries@.len() - i,
        {
            if same_text(self.entries[i].address.as_str(), address) {
                return Some(i);
            }
            i = i + 1;
        }
        None
    }

    /// Whether the book has an account for the address.
    pub fn contains(&self, address: &str) -> (r: bool)
        ensures
            r == knows(self@, address@),
    {
        self.find(address).is_some()
    }

    /// The account of an address: all zero where the book does not know it.
    pub fn get(&self, address: &str) -> (account: Account)
        requires
            self.well_formed(),
        ensures
            account == account_of(self@, address@),
    {
        match self.find(address) {
            Some(i) => {
                proof {
                    lemma_slot(self@, i as int);
                }
                self.entries[i].account
            },
            None => Account::new(),
        }
    }

    /// All that the accounts hold.
    pub fn total(&self) -> (r: i128)
        requires
            self.well_formed(),
        ensures
            r == funds(self@),
    {
        self.supply
    }

    /// Whether `amount` more would still fit the book.
    pub fn has_room(&self, amount: u64) -> (r: bool)
        requires
            self.well_formed(),
        ensures
            r == (funds(self@) + amount <= i128::MAX),
    {
        proof {
            lemma_funds_nonnegative(self@);
        }
        self.supply <= i128::MAX - (amount as i128)
    }

    /// All stakes together.
    pub fn total_stake(&self) -> (r: i128)
        requires
            self.well_formed(),
        ensures
            r == stakes(self@),
    {
        let mut sum: i128 = 0;
        let mut i: usize = 0;
        while i < self.entries.len()
            invariant
                self.well_formed(),
                i <= self.entries@.len(),
                sum == stakes(self@.take(i as int)),
            decreases self.entries@.len() - i,
        {
            proof {
                lemma_funds_prefix(self@, i + 1);
                lemma_funds_nonnegative(self@);
                assert(self@.take(i + 1).drop_last() =~= self@.take(i as int));
                assert(self@.take(i + 1).last() == self@[i as int]);
            }
            sum = sum + self.entries[i].account.stake;
            i = i + 1;
        }
        proof {
            assert(self@.take(i as int) =~= self@);
        }
        sum
    }

    /// Replaces the account of an address, or adds the address at the end.
    pub fn set(&mut self, address: &str, account: Account)
        requires
            old(self).well_formed(),
            account.well_formed(),
            funds(old(self)@) - account_of(old(self)@, address@).funds() + account.funds()
                <= i128::MAX,
        ensures
            final(self)@ == stored(old(self)@, address@, account),
            final(self).well_formed(),
    {
        proof {
            lemma_stored(self@, address@, account);
            lemma_stored_funds(self@, address@, account);
            lemma_account_of_bound(self@, address@);
        }
        match self.find(address) {
            Some(i) => {
                proof {
                    lemma_slot(self@, i as int);
                }
                let before: Account = self.entries[i].account;
                let entry = AccountEntry { address: address.to_owned(), account };
                self.entries.set(i, entry);
                self.supply = self.supply - before.balance - before.stake + account.balance
                    + account.stake;
                proof {
                    assert(self@ =~= stored(old(self)@, address@, account));
                }
            },
            None => {
                self.entries.push(AccountEntry { address: address.to_owned(), account });
                self.supply = self.supply + account.balance + account.stake;
                proof {
                    assert(self@ =~= stored(old(self)@, address@, account));
                }
            },
        }
    }

    /// Adds a zero account for the address where the book does not know it.
    pub fn touch(&mut self, address: &str)
        requires
            old(self).well_formed(),
        ensures
            final(self)@ == touched(old(self)@, address@),
            final(self).well_formed(),
    {
        proof {
            lemma_touched(self@, address@);
        }
        if self.find(address).is_none() {
            self.entries.push(AccountEntry { address: address.to_owned(), account: Account::new() });
            proof {
                assert(self@ =~= touched(old(self)@, address@));
            }
        }
    }

    /// Makes a book of the given entries, where they form a sound book.
    pub fn from_entries(entries: Vec<AccountEntry>) -> (r: Option<AccountBook>)
        ensures
            r is Some <==> sound(holdings(entries@)),
            r matches Some(book) ==> book@ == holdings(entries@) && book.well_formed(),
    {
        let ghost model = holdings(entries@);
        let mut i: usize = 0;
        while i < entries.len()
            invariant
                model == holdings(entries@),
                i <= entries@.len(),
                distinct(model.take(i as int)),
                solvent(model.take(i as int)),
            decreases entries@.len() - i,
        {
            let account: Account = entries[i].account;
            if account.balance < 0 || account.stake < 0 {
                proof {
                    assert(!model[i as int].account.well_formed());
                }
                return None;
            }
            let mut j: usize = 0;
            while j < i
                invariant
                    model == holdings(entries@),
                    j <= i < entries@.len(),
                    forall|k: int| 0 <= k < j ==> (#[trigger] model[k]).address != model[i as int].address,
                decreases i - j,
            {
                if same_text(entries[j].address.as_str(), entries[i].address.as_str()) {
                    proof {
                        assert(model[j as int].address == model[i as int].address);
                    }
                    return None;
                }
                j = j + 1;
            }
            proof {
                let next = model.take(i + 1);
                assert forall|a: int, b: int| 0 <= a < b < next.len() implies (#[trigger] next[a]).address
                    != (#[trigger] next[b]).address by {
                    if b < i {
                        assert(model.take(i as int)[a].address != model.take(i as int)[b].address);
                    } else {
                        assert(model[a].address != model[i as int].address);
                    }
                }
                assert forall|a: int| 0 <= a < next.len() implies (#[trigger] next[a]).account.well_formed() by {
                    if a < i {
                        assert(model.take(i as int)[a].account.well_formed());
                    }
                }
            }
            i = i + 1;
        }
        proof {
            assert(model.take(i as int) =~= model);
        }
        let mut sum: i128 = 0;
        let mut k: usize = 0;
        while k < entries.len()
            invariant
                model == holdings(entries@),
                k <= entries@.len(),
                solvent(model),
                distinct(model),
                sum == funds(model.take(k as int)),
            decreases entries@.len() - k,
        {
            let account: Account = entries[k].account;
            proof {
                lemma_funds_prefix(model, k as int);
                lemma_funds_prefix(model, k + 1);
                assert(model.take(k + 1).drop_last() =~= model.take(k as int));
                assert(model.take(k + 1).last() == model[k as int]);
                assert(model[k as int].account.well_formed());
            }
            if account.balance > i128::MAX - sum {
                return None;
            }
            sum = sum + account.balance;
            if account.stake > i128::MAX - sum {
                return None;
            }
            sum = sum + account.stake;
            k = k + 1;
        }
        proof {
            assert(model.take(k as int) =~= model);
        }
        Some(AccountBook { entries, supply: sum })
    }
}

} // verus!
