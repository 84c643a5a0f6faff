//! Claim submission for a rollup node.
//!
//! Claims arrive on an ordered stream that delivers at least once; each new
//! claim is to reach the chain once. The library holds the decisions of that
//! pipeline as state transitions with contracts. Whoever uses it reads the
//! stream, asks the duplicate checker and submits transactions, and hands the
//! answers in.
//!
//! - `claim`: claims, stream events and the initial cursor.
//! - `claimer`: what follows a duplicate check and a submission.
//! - `listener`: what follows a read of the stream and a call of the claimer;
//!   where a listener stands after a stretch of the stream.
//! - `pipeline`: listener and claimer over a whole stream, and what holds of
//!   every run.
//! - `mock`: a scripted claimer to run a listener with.
//! - `eth_input_reader`, `setup`: the decisions of the producer that reads
//!   confirmed blocks.

pub mod claim;
pub mod claimer;
pub mod eth_input_reader;
pub mod listener;
pub mod mock;
pub mod pipeline;
pub mod setup;
