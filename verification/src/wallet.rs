//! Wallet challenges: a wallet proves that it owns a key by signing a
//! message that the node made for it, and gets a session for it.

use crate::clock::{format_rfc3339, parse_rfc3339, rfc3339_instant, rfc3339_text};
use crate::search::{first_index, lemma_first_index_is};
use crate::signature::{check_proof, proof_check};
use crate::text::same_text;
use vstd::prelude::*;
use vstd::string::*;

verus! {

/// How long a challenge can be answered, in seconds.
pub const CHALLENGE_SECONDS: u64 = 600;

/// How long a session lasts, in seconds.
pub const SESSION_SECONDS: u64 = 86_400;

/// A message that a wallet is asked to sign.
#[derive(Debug, PartialEq, Eq)]
pub struct WalletChallenge {
    pub id: String,
    pub address: String,
    pub public_key: String,
    pub wallet_type: String,
    pub nonce: String,
    pub message: String,
    pub created_at: String,
    pub expires_at: String,
    pub verified: bool,
}

impl Clone for WalletChallenge {
    fn clone(&self) -> (r: Self)
        ensures
            r == *self,
    {
        WalletChallenge {
            id: self.id.clone(),
            address: self.address.clone(),
            public_key: self.public_key.clone(),
            wallet_type: self.wallet_type.clone(),
            nonce: self.nonce.clone(),
            message: self.message.clone(),
            created_at: self.created_at.clone(),
            expires_at: self.expires_at.clone(),
            verified: self.verified,
        }
    }
}

/// What a wallet gets for an answered challenge.
#[derive(Debug, PartialEq, Eq)]
pub struct WalletSession {
    pub id: String,
    pub address: String,
    pub public_key: String,
    pub wallet_type: String,
    pub created_at: String,
    pub expires_at: String,
}

impl Clone for WalletSession {
    fn clone(&self) -> (r: Self)
        ensures
            r == *self,
    {
        WalletSession {
            id: self.id.clone(),
            address: self.address.clone(),
            public_key: self.public_key.clone(),
            wallet_type: self.wallet_type.clone(),
            created_at: self.created_at.clone(),
            expires_at: self.expires_at.clone(),
        }
    }
}

/// The open challenges and the running sessions of a node.
#[derive(Debug, PartialEq, Eq)]
pub struct WalletStore {
    pub challenges: Vec<WalletChallenge>,
    pub sessions: Vec<WalletSession>,
}

/// Why a wallet request is refused.
#[derive(Clone, Copy, Debug, PartialEq, Eq, Structural)]
pub enum WalletError {
    /// The address or the public key is empty.
    MissingFields,
    /// No open challenge has the id.
    NotFound,
    /// The challenge was answered before.
    AlreadyUsed,
    /// The signature is not one of the challenge's message under its key.
    InvalidSignature,
}

impl WalletError {
    /// The text that a caller is shown for the error.
    pub open spec fn message_text(self) -> Seq<char> {
        match self {
            WalletError::MissingFields => "Missing address or publicKey"@,
            WalletError::NotFound => "Challenge not found or expired"@,
            WalletError::AlreadyUsed => "Challenge already used"@,
            WalletError::InvalidSignature => "Invalid signature"@,
        }
    }

    /// The text that a caller is shown for the error.
    pub fn message(&self) -> (r: String)
        ensures
            r@ == self.message_text(),
    {
        match self {
            WalletError::MissingFields => "Missing address or publicKey".to_string(),
            WalletError::NotFound => "Challenge not found or expired".to_string(),
            WalletError::AlreadyUsed => "Challenge already used".to_string(),
            WalletError::InvalidSignature => "Invalid signature".to_string(),
        }
    }
}

/// Whether something that ends at the time written in `expires_at` is still
/// running at `now`: the end can be read, and lies after `now`.
pub open spec fn live(expires_at: Seq<char>, now: i128) -> bool {
    match rfc3339_instant(expires_at) {
        Some(end) => end > now,
        None => false,
    }
}

/// Whether something that ends at the time written in `expires_at` is still
/// running at `now`, in nanoseconds since the epoch.
pub fn is_live(expires_at: &str, now: i128) -> (r: bool)
    ensures
        r == live(expires_at@, now),
{
    match parse_rfc3339(expires_at) {
        Some(end) => end > now,
        None => false,
    }
}

/// The challenges that are still open at `now`, in their order.
pub open spec fn open_challenges(list: Seq<WalletChallenge>, now: i128) -> Seq<WalletChallenge>
    decreases list.len(),
{
    if list.len() == 0 {
        Seq::empty()
    } else if live(list.last().expires_at@, now) {
        open_challenges(list.drop_last(), now).push(list.last())
    } else {
        open_challenges(list.drop_last(), now)
    }
}

/// The sessions that still run at `now`, in their order.
pub open spec fn running_sessions(list: Seq<WalletSession>, now: i128) -> Seq<WalletSession>
    decreases list.len(),
{
    if list.len() == 0 {
        Seq::empty()
    } else if live(list.last().expires_at@, now) {
        running_sessions(list.drop_last(), now).push(list.last())
    } else {
        running_sessions(list.drop_last(), now)
    }
}

/// Drops the challenges and the sessions that have ended at `now`.
pub fn prune_wallet_store(store: &mut WalletStore, now: i128)
    ensures
        final(store).challenges@ == open_challenges(old(store).challenges@, now),
        final(store).sessions@ == running_sessions(old(store).sessions@, now),
{
    let mut challenges: Vec<WalletChallenge> = Vec::new();
    let mut i: usize = 0;
    while i < store.challenges.len()
        invariant
            *store == *old(store),
            i <= store.challenges@.len(),
            challenges@ == open_challenges(store.challenges@.take(i as int), now),
        decreases store.challenges@.len() - i,
    {
        proof {
            let next = store.challenges@.take(i + 1);
            assert(next.drop_last() =~= store.challenges@.take(i as int));
            assert(next.last() == store.challenges@[i as int]);
        }
        if is_live(store.challenges[i].expires_at.as_str(), now) {
            challenges.push(store.challenges[i].clone());
        }
        i = i + 1;
    }
    let mut sessions: Vec<WalletSession> = Vec::new();
    let mut k: usize = 0;
    while k < store.sessions.len()
        invariant
            *store == *old(store),
            k <= store.sessions@.len(),
            sessions@ == running_sessions(store.sessions@.take(k as int), now),
        decreases store.sessions@.len() - k,
    {
        proof {
            let next = store.sessions@.take(k + 1);
            assert(next.drop_last() =~= store.sessions@.take(k as int));
            assert(next.last() == store.sessions@[k as int]);
        }
        if is_live(store.sessions[k].expires_at.as_str(), now) {
            sessions.push(store.sessions[k].clone());
        }
        k = k + 1;
    }
    proof {
        assert(store.challenges@.take(i as int) =~= store.challenges@);
        assert(store.sessions@.take(k as int) =~= store.sessions@);
    }
    store.challenges = challenges;
    store.sessions = sessions;
}

/// Whether a signature in base64 is one of the challenge's message under
/// the challenge's key.
pub fn verify_wallet_signature(challenge: &WalletChallenge, signature: &str) -> (r: bool)
    ensures
        r == (proof_check(challenge.public_key@, challenge.message@, signature@) is Ok),
{
    check_proof(challenge.public_key.as_str(), challenge.message.as_str(), signature).is_ok()
}

/// The name of a wallet's kind where the wallet names none.
pub open spec fn unknown_wallet() -> Seq<char> {
    "unknown"@
}

/// The message that a wallet is asked to sign.
pub open spec fn challenge_text(
    address: Seq<char>,
    wallet_type: Seq<char>,
    nonce: Seq<char>,
    issued_at: Seq<char>,
) -> Seq<char> {
    "Sign this message to prove wallet ownership for BulenCoin.\nAddress: "@ + address
        + "\nWallet: "@ + wallet_type + "\nNonce: "@ + nonce + "\nIssued At: "@ + issued_at
}

/// The time, as text, that lies `seconds` after `now`; the text of `now`
/// where that time cannot be written.
pub open spec fn later_text(now: u64, seconds: u64, now_text: Seq<char>) -> Seq<char> {
    if now + seconds <= i64::MAX {
        match rfc3339_text((now + seconds) as i64) {
            Some(text) => text,
            None => now_text,
        }
    } else {
        now_text
    }
}

/// Writes the time that lies `seconds` after `now`.
pub fn time_after(now: u64, seconds: u64, now_text: &String) -> (r: String)
    ensures
        r@ == later_text(now, seconds, now_text@),
{
    let end: u128 = now as u128 + seconds as u128;
    let written: Option<String> = if end <= i64::MAX as u128 {
        format_rfc3339(end as i64)
    } else {
        None
    };
    match written {
        Some(text) => text,
        None => now_text.clone(),
    }
}

/// Opens a challenge for a wallet, under a given id and nonce, at a given
/// time. Address and public key must not be empty. The challenge can be
/// answered for ten minutes.
pub fn issue_challenge(
    store: &mut WalletStore,
    address: String,
    public_key: String,
    wallet_type: Option<String>,
    id: String,
    nonce: String,
    now: u64,
    now_text: String,
) -> (r: Result<WalletChallenge, WalletError>)
    ensures
        final(store).sessions@ == old(store).sessions@,
        match r {
            Ok(challenge) => {
                &&& address@.len() > 0 && public_key@.len() > 0
                &&& final(store).challenges@ == old(store).challenges@.push(challenge)
                &&& challenge.id@ == id@
                &&& challenge.address@ == address@
                &&& challenge.public_key@ == public_key@
                &&& challenge.wallet_type@ == (match wallet_type {
                    Some(kind) => kind@,
                    None => unknown_wallet(),
                })
                &&& challenge.nonce@ == nonce@
                &&& challenge.message@ == challenge_text(
                    address@,
                    challenge.wallet_type@,
                    nonce@,
                    now_text@,
                )
                &&& challenge.created_at@ == now_text@
                &&& challenge.expires_at@ == later_text(now, CHALLENGE_SECONDS, now_text@)
                &&& !challenge.verified
            },
            Err(e) => e == WalletError::MissingFields && (address@.len() == 0 || public_key@.len()
                == 0) && final(store).challenges@ == old(store).challenges@,
        },
{
    if address.as_str().is_empty() || public_key.as_str().is_empty() {
        return Err(WalletError::MissingFields);
    }
    let kind: String = match wallet_type {
        Some(kind) => kind,
        None => "unknown".to_string(),
    };
    let mut message =
        "Sign this message to prove wallet ownership for BulenCoin.\nAddress: ".to_string();
    message.append(address.as_str());
    message.append("\nWallet: ");
    message.append(kind.as_str());
    message.append("\nNonce: ");
    message.append(nonce.as_str());
    message.append("\nIssued At: ");
    message.append(now_text.as_str());
    let expires_at = time_after(now, CHALLENGE_SECONDS, &now_text);
    let challenge = WalletChallenge {
        id,
        address,
        public_key,
        wallet_type: kind,
        nonce,
        message,
        created_at: now_text,
        expires_at,
        verified: false,
    };
    store.challenges.push(challenge.clone());
    Ok(challenge)
}

/// The challenges with a given id.
pub open spec fn challenged(id: Seq<char>) -> spec_fn(WalletChallenge) -> bool {
    |challenge: WalletChallenge| challenge.id@ == id
}

/// The sessions with a given id.
pub open spec fn sessioned(id: Seq<char>) -> spec_fn(WalletSession) -> bool {
    |session: WalletSession| session.id@ == id
}

/// Where the first challenge with a given id stands.
pub fn find_challenge(list: &Vec<WalletChallenge>, id: &str) -> (r: Option<usize>)
    ensures
        match r {
            Some(i) => i < list@.len() && i == first_index(list@, challenged(id@))
                && list@[i as int].id@ == id@,
            None => first_index(list@, challenged(id@)) == list@.len(),
        },
{
    let ghost wanted = challenged(id@);
    let mut i: usize = 0;
    while i < list.len()
        invariant
            wanted == challenged(id@),
            i <= list@.len(),
            forall|j: int| 0 <= j < i ==> !wanted(#[trigger] list@[j]),
        decreases list@.len() - i,
    {
        if same_text(list[i].id.as_str(), id) {
            proof {
                assert(wanted(list@[i as int]));
                lemma_first_index_is(list@, wanted, i as int);
            }
            return Some(i);
        }
        i = i + 1;
    }
    proof {
        lemma_first_index_is(list@, wanted, i as int);
    }
    None
}

/// Where the first session with a given id stands.
pub fn find_session(list: &Vec<WalletSession>, id: &str) -> (r: Option<usize>)
    ensures
        match r {
            Some(i) => i < list@.len() && i == first_index(list@, sessioned(id@))
                && list@[i as int].id@ == id@,
            None => first_index(list@, sessioned(id@)) == list@.len(),
        },
{
    let ghost wanted = sessioned(id@);
    let mut i: usize = 0;
    while i < list.len()
        invariant
            wanted == sessioned(id@),
            i <= list@.len(),
            forall|j: int| 0 <= j < i ==> !wanted(#[trigger] list@[j]),
        decreases list@.len() - i,
    {
        if same_text(list[i].id.as_str(), id) {
            proof {
                assert(wanted(list@[i as int]));
                lemma_first_index_is(list@, wanted, i as int);
            }
            return Some(i);
        }
        i = i + 1;
    }
    proof {
        lemma_first_index_is(list@, wanted, i as int);
    }
    None
}

/// Whether an answer to a challenge is accepted among the open challenges,
/// and why not: the challenge has to be open, not answered before, and the
/// signature has to be one of its message under its key.
pub open spec fn answer_check(open: Seq<WalletChallenge>, id: Seq<char>, signature: Seq<char>) -> Result<
    (),
    WalletError,
> {
    let i = first_index(open, challenged(id));
    if i >= open.len() {
        Err(WalletError::NotFound)
    } else if open[i].verified {
        Err(WalletError::AlreadyUsed)
    } else if proof_check(open[i].public_key@, open[i].message@, signature) is Err {
        Err(WalletError::InvalidSignature)
    } else {
        Ok(())
    }
}

/// Takes the answer to a challenge at a given time. Ended challenges and
/// sessions are dropped first. An accepted answer marks the challenge as
/// answered and opens a session of a day for the wallet, under the given id.
pub fn answer_challenge(
    store: &mut WalletStore,
    challenge_id: &str,
    signature: &str,
    session_id: String,
    now: u64,
    now_nanos: i128,
    now_text: String,
) -> (r: Result<WalletSession, WalletError>)
    ensures
        match r {
            Ok(session) => {
                let open = open_challenges(old(store).challenges@, now_nanos);
                let i = first_index(open, challenged(challenge_id@));
                &&& answer_check(open, challenge_id@, signature@) is Ok
                &&& final(store).challenges@.len() == open.len()
                &&& forall|k: int|
                    0 <= k < open.len() && k != i ==> final(store).challenges@[k] == open[k]
                &&& open[i].id@ == challenge_id@
                &&& final(store).challenges@[i] == (WalletChallenge { verified: true, ..open[i] })
                &&& final(store).sessions@ == running_sessions(
                    old(store).sessions@,
                    now_nanos,
                ).push(session)
                &&& session.id@ == session_id@
                &&& session.address@ == open[i].address@
                &&& session.public_key@ == open[i].public_key@
                &&& session.wallet_type@ == open[i].wallet_type@
                &&& session.created_at@ == now_text@
                &&& session.expires_at@ == later_text(now, SESSION_SECONDS, now_text@)
            },
            Err(e) => {
                &&& answer_check(
                    open_challenges(old(store).challenges@, now_nanos),
                    challenge_id@,
                    signature@,
                ) == Err::<(), WalletError>(e)
                &&& final(store).challenges@ == open_challenges(old(store).challenges@, now_nanos)
                &&& final(store).sessions@ == running_sessions(old(store).sessions@, now_nanos)
            },
        },
{
    prune_wallet_store(store, now_nanos);
    let ghost open = store.challenges@;
    let i: usize = match find_challenge(&store.challenges, challenge_id) {
        Some(i) => i,
        None => {
            return Err(WalletError::NotFound);
        },
    };
    if store.challenges[i].verified {
        return Err(WalletError::AlreadyUsed);
    }
    if !verify_wallet_signature(&store.challenges[i], signature) {
        return Err(WalletError::InvalidSignature);
    }
    let mut answered = store.challenges[i].clone();
    answered.verified = true;
    let session = WalletSession {
        id: session_id,
        address: answered.address.clone(),
        public_key: answered.public_key.clone(),
        wallet_type: answered.wallet_type.clone(),
        created_at: now_text.clone(),
        expires_at: time_after(now, SESSION_SECONDS, &now_text),
    };
    store.challenges.set(i, answered);
    store.sessions.push(session.clone());
    Ok(session)
}

} // verus!
