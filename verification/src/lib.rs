//! PrellBlock: a lightweight logging blockchain whose replicas (RPUs) agree on
//! blocks of transactions with a byzantine fault tolerant consensus.
//!
//! This crate holds the verified core of an RPU: the bounded buffers and queues
//! of the consensus, the quorum arithmetic, the state machine of a follower and
//! of the view change, the permission checks of transactions, the world state
//! and the encodings used on disk and on the wire.

pub mod types;
pub mod time;
pub mod quorum;
pub mod account;
pub mod signature_list;
pub mod block;
pub mod world_state;
pub mod block_storage;
pub mod transaction_checker;
pub mod consensus;
pub mod ring_buffer;
pub mod queue;
pub mod flatten_vec;
pub mod peer;
pub mod thingsboard;
pub mod reader;
pub mod batcher;
pub mod subscriptions;
