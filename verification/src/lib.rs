//! The core of a full node: the pipeline of the leader, which turns the
//! transactions of clients into a chain of entries, and the pipeline of a
//! validator, which puts the blobs of the leader in order and replays them.
//! Both run against the bank, the state machine of the accounts.
//!
//! The pipelines are state machines without threads, sockets or clocks of
//! their own: the program around them reads and sends, keeps the time, and
//! hands in what arrived.

pub mod bank;
pub mod bank_laws;
pub mod banking_stage;
pub mod chain_laws;
pub mod channel;
pub mod counter;
pub mod crypto;
pub mod entry;
pub mod fetch_stage;
pub mod keys;
pub mod ledger;
pub mod ledger_model;
pub mod packet;
pub mod pipeline_laws;
pub mod recorder;
pub mod recycler;
pub mod replicate_stage;
pub mod replication_laws;
pub mod retransmit_stage;
pub mod rpc;
pub mod sigverify_stage;
pub mod tpu;
pub mod transaction;
pub mod tvu;
pub mod window;
pub mod window_laws;
pub mod wire;
pub mod write_stage;
