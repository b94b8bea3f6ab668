//! Gossip ingress: what a node does with a transaction or a block that a
//! peer pushes to it, and which peers it listens to.

use crate::block::{compute_block_hash, sealed, Block, BlockView};
use crate::state::{linkage, LinkageError, State, StateView};
use crate::sync::{accepted, contains_id, has_id};
use crate::text::{chars_of, find_stop_in, first_segment, parse_u32, parsed_u32, same_text};
use crate::transaction::{optional_text, Transaction};
use vstd::prelude::*;
use vstd::string::*;

verus! {

/// Whether a chain holds a block with the given hash.
pub open spec fn has_hash(chain: Seq<BlockView>, hash: Seq<char>) -> bool {
    exists|i: int| 0 <= i < chain.len() && (#[trigger] chain[i]).hash == hash
}

/// What became of a block that a peer pushed.
#[derive(Clone, Copy, Debug, PartialEq, Eq, Structural)]
pub enum BlockIngest {
    /// The block joined the chain.
    Accepted,
    /// The chain already holds a block with that hash; nothing changed.
    Ignored,
}

/// Why a pushed block is refused.
#[derive(Clone, Copy, Debug, PartialEq, Eq, Structural)]
pub enum IngestError {
    /// The hash that the block carries is not the hash of its content.
    HashMismatch,
    /// The block cannot follow the chain.
    Linkage(LinkageError),
}

impl IngestError {
    /// The text that a caller is shown for the error.
    pub open spec fn message_text(self) -> Seq<char> {
        match self {
            IngestError::HashMismatch => "invalid block hash"@,
            IngestError::Linkage(e) => e.message_text(),
        }
    }

    /// The text that a caller is shown for the error.
    pub fn message(&self) -> (r: String)
        ensures
            r@ == self.message_text(),
    {
        match self {
            IngestError::HashMismatch => "invalid block hash".to_string(),
            IngestError::Linkage(e) => e.message(),
        }
    }

    /// Whether the node should catch up with the sender: so after a block
    /// that could not follow the chain, not after one with a wrong hash.
    pub fn calls_for_sync(&self) -> (r: bool)
        ensures
            r == (*self is Linkage),
    {
        match self {
            IngestError::HashMismatch => false,
            IngestError::Linkage(_) => true,
        }
    }
}

/// What a node answers to a pushed block: a wrong hash is refused first, a
/// known hash is ignored next, and then the block has to follow the chain.
pub open spec fn ingestion(state: StateView, block: BlockView) -> Result<BlockIngest, IngestError> {
    if !sealed(block) {
        Err(IngestError::HashMismatch)
    } else if has_hash(state.blocks, block.hash) {
        Ok(BlockIngest::Ignored)
    } else {
        match linkage(state.blocks, block) {
            Ok(()) => Ok(BlockIngest::Accepted),
            Err(e) => Err(IngestError::Linkage(e)),
        }
    }
}

/// Why a peer's request is refused before its payload is read.
#[derive(Clone, Copy, Debug, PartialEq, Eq, Structural)]
pub enum HeaderError {
    /// The shared secret is missing or wrong.
    Forbidden,
    /// The peer did not name itself.
    MissingNodeId,
    /// The peer speaks another major version of the protocol.
    IncompatibleProtocol,
}

impl HeaderError {
    /// The HTTP status that answers the request.
    pub fn status(&self) -> (r: u16)
        ensures
            r == (if *self is Forbidden {
                403u16
            } else {
                400u16
            }),
    {
        match self {
            HeaderError::Forbidden => 403,
            _ => 400,
        }
    }

    /// The text that a caller is shown for the error.
    pub open spec fn message_text(self) -> Seq<char> {
        match self {
            HeaderError::Forbidden => "Forbidden"@,
            HeaderError::MissingNodeId => "Missing node id"@,
            HeaderError::IncompatibleProtocol => "Incompatible protocol version"@,
        }
    }

    /// The text that a caller is shown for the error.
    pub fn message(&self) -> (r: String)
        ensures
            r@ == self.message_text(),
    {
        match self {
            HeaderError::Forbidden => "Forbidden".to_string(),
            HeaderError::MissingNodeId => "Missing node id".to_string(),
            HeaderError::IncompatibleProtocol => "Incompatible protocol version".to_string(),
        }
    }
}

/// What a peer's request says of the peer: the shared secret it sent, whether
/// it named itself, and the protocol version it speaks. A header that is
/// missing or not readable as text is `None`.
#[derive(Debug, PartialEq, Eq)]
pub struct PeerHeaders {
    pub token: Option<String>,
    pub has_node_id: bool,
    pub protocol_version: Option<String>,
}

/// The major version of a protocol version: the number before the first
/// dot, or zero where no number stands there.
pub open spec fn major_of(version: Seq<char>) -> u32 {
    match parsed_u32(first_segment(version, '.')) {
        Some(major) => major,
        None => 0,
    }
}

/// The major version of a protocol version.
pub fn protocol_major(version: &str) -> (r: u32)
    ensures
        r == major_of(version@),
{
    let chars = chars_of(version);
    let end = find_stop_in(&chars, 0, chars.len(), '.');
    proof {
        assert(chars@.subrange(0, chars@.len() as int) =~= chars@);
        assert(chars@.subrange(0, end as int) =~= first_segment(version@, '.'));
    }
    match parse_u32(&chars, 0, end) {
        Some(major) => major,
        None => 0,
    }
}

/// The shared secret that a request carries: empty where it carries none.
pub open spec fn sent_token(token: Option<Seq<char>>) -> Seq<char> {
    match token {
        Some(t) => t,
        None => Seq::empty(),
    }
}

/// Whether a node listens to a peer's request, and why not: the shared
/// secret has to match where the node has one, the peer has to name itself,
/// and a protocol version that the peer names has to have the node's major
/// version.
pub open spec fn header_check(
    expected_token: Option<Seq<char>>,
    local_version: Seq<char>,
    token: Option<Seq<char>>,
    has_node_id: bool,
    protocol_version: Option<Seq<char>>,
) -> Result<(), HeaderError> {
    if expected_token is Some && sent_token(token) != expected_token->0 {
        Err(HeaderError::Forbidden)
    } else if !has_node_id {
        Err(HeaderError::MissingNodeId)
    } else if protocol_version is Some && major_of(protocol_version->0) != major_of(local_version) {
        Err(HeaderError::IncompatibleProtocol)
    } else {
        Ok(())
    }
}

/// Checks a peer's request before its payload is read.
pub fn verify_p2p_headers(
    expected_token: &Option<String>,
    local_version: &str,
    headers: &PeerHeaders,
) -> (r: Result<(), HeaderError>)
    ensures
        r == header_check(
            optional_text(*expected_token),
            local_version@,
            optional_text(headers.token),
            headers.has_node_id,
            optional_text(headers.protocol_version),
        ),
{
    match expected_token {
        Some(expected) => {
            let matches_token: bool = match &headers.token {
                Some(token) => same_text(token.as_str(), expected.as_str()),
                None => expected.as_str().is_empty(),
            };
            proof {
                if expected@.len() == 0 {
                    assert(expected@ =~= Seq::<char>::empty());
                }
            }
            if !matches_token {
                return Err(HeaderError::Forbidden);
            }
        },
        None => {},
    }
    if !headers.has_node_id {
        return Err(HeaderError::MissingNodeId);
    }
    match &headers.protocol_version {
        Some(remote) => {
            if protocol_major(local_version) != protocol_major(remote.as_str()) {
                return Err(HeaderError::IncompatibleProtocol);
            }
        },
        None => {},
    }
    Ok(())
}

/// Whether a chain holds a block with the given hash.
pub fn contains_hash(chain: &Vec<Block>, hash: &str) -> (r: bool)
    ensures
        r == has_hash(crate::block::block_views(chain@), hash@),
{
    let ghost views = crate::block::block_views(chain@);
    let mut i: usize = 0;
    while i < chain.len()
        invariant
            views == crate::block::block_views(chain@),
            i <= chain@.len(),
            forall|j: int| 0 <= j < i ==> (#[trigger] views[j]).hash != hash@,
        decreases chain@.len() - i,
    {
        if same_text(chain[i].hash.as_str(), hash) {
            proof {
                assert(views[i as int].hash == hash@);
            }
            return true;
        }
        i = i + 1;
    }
    false
}

impl State {
    /// Takes a transaction that a peer pushed into the mempool, unless the
    /// mempool holds one with the same id; says whether it was ignored. The
    /// transaction is not checked against the accounts: that happens when a
    /// block applies it.
    pub fn ingest_transaction(&mut self, tx: Transaction) -> (ignored: bool)
        requires
            old(self).well_formed(),
        ensures
            final(self).well_formed(),
            ignored == has_id(old(self)@.mempool, tx@.id),
            ignored ==> final(self)@ == old(self)@,
            !ignored ==> final(self)@ == (StateView {
                mempool: old(self)@.mempool.push(tx@),
                ..old(self)@
            }),
    {
        if contains_id(self.mempool(), tx.id.as_str()) {
            return true;
        }
        self.push_pending(tx);
        false
    }

    /// Takes a block that a peer pushed. A block whose hash is not the hash
    /// of its content is refused. A block whose hash the chain already holds
    /// is ignored. Any other block has to follow the chain: it is then
    /// applied and added, and the mempool loses its transactions. Nothing
    /// changes unless the block is accepted.
    pub fn ingest_block(&mut self, block: Block, reward: u64) -> (r: Result<BlockIngest, IngestError>)
        requires
            old(self).well_formed(),
            linkage(old(self)@.blocks, block@) is Ok ==> old(self)@.can_reward(
                block@.producer,
                reward,
            ),
        ensures
            final(self).well_formed(),
            r == ingestion(old(self)@, block@),
            r == Ok::<BlockIngest, IngestError>(BlockIngest::Accepted) ==> final(self)@ == accepted(
                old(self)@,
                block@,
                reward,
            ),
            r != Ok::<BlockIngest, IngestError>(BlockIngest::Accepted) ==> final(self)@ == old(
                self,
            )@,
    {
        let expected = compute_block_hash(&block);
        if !same_text(block.hash.as_str(), expected.as_str()) {
            return Err(IngestError::HashMismatch);
        }
        if contains_hash(self.blocks(), block.hash.as_str()) {
            return Ok(BlockIngest::Ignored);
        }
        match self.accept_block(block, reward) {
            Ok(()) => Ok(BlockIngest::Accepted),
            Err(e) => Err(IngestError::Linkage(e)),
        }
    }
}

} // verus!
