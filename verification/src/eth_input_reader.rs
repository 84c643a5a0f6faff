//! The input reader's loop over confirmed blocks: what it does with each item
//! of the block subscription.
//!
//! Waiting for the subscription and reacting to a block are done by the
//! caller; the decisions are made here.

use vstd::prelude::*;

verus! {

/// What a block subscription delivers.
#[derive(Debug)]
pub enum BlockStreamItem<B> {
    /// The next confirmed block.
    NewBlock(B),
    /// The chain was rewritten deeper than the confirmation depth; these are
    /// the blocks of the new branch.
    Reorg(Vec<B>),
}

/// Why the input reader stopped.
#[derive(Debug)]
pub enum EthInputReaderError<E> {
    /// The broker failed while the reader reacted to a block.
    BrokerError { source: E },
    /// The reader gave up, for the reason in `message`.
    Whatever { message: String },
}

/// What the reader does with one item of the subscription.
#[derive(Debug)]
pub enum ReaderStep<B, E> {
    /// React to this block, then wait for the next item.
    ProcessBlock(B),
    /// Nothing to do: wait for the next item.
    Wait,
    /// Stop with this error.
    Stop(EthInputReaderError<E>),
}

/// The message of a reader that met a reorganization.
pub open spec fn deep_reorg_message() -> Seq<char> {
    "deep blockchain reorg"@
}

/// The message of a reader whose subscription ended.
pub open spec fn subscription_closed_message() -> Seq<char> {
    "subscription closed"@
}

/// Decides what follows one answer of the block subscription.
///
/// A new block is processed. A reorganization cannot be repaired and stops
/// the reader, as does the end of the subscription. An error of the
/// subscription is passed over, and the reader waits for the next block.
pub fn on_subscription_item<B, S, E>(item: Option<Result<BlockStreamItem<B>, S>>) -> (step:
    ReaderStep<B, E>)
    ensures
        match item {
            Some(Ok(BlockStreamItem::NewBlock(block))) => step == ReaderStep::<
                B,
                E,
            >::ProcessBlock(block),
            Some(Ok(BlockStreamItem::Reorg(_))) => step matches ReaderStep::Stop(
                EthInputReaderError::Whatever { message },
            ) && message@ == deep_reorg_message(),
            Some(Err(_)) => step == ReaderStep::<B, E>::Wait,
            None => step matches ReaderStep::Stop(EthInputReaderError::Whatever { message })
                && message@ == subscription_closed_message(),
        },
{
    match item {
        Some(Ok(BlockStreamItem::NewBlock(block))) => ReaderStep::ProcessBlock(block),
        Some(Ok(BlockStreamItem::Reorg(_))) => ReaderStep::Stop(
            EthInputReaderError::Whatever { message: "deep blockchain reorg".to_string() },
        ),
        Some(Err(_)) => ReaderStep::Wait,
        None => ReaderStep::Stop(
            EthInputReaderError::Whatever { message: "subscription closed".to_string() },
        ),
    }
}

/// Decides what follows the reaction to a block: the reader goes on, or
/// stops with a broker error that holds the cause.
pub fn on_block_processed<E>(reacted: Result<(), E>) -> (result: Result<
    (),
    EthInputReaderError<E>,
>)
    ensures
        match reacted {
            Ok(()) => result == Ok::<(), EthInputReaderError<E>>(()),
            Err(cause) => result == Err::<(), EthInputReaderError<E>>(
                EthInputReaderError::BrokerError { source: cause },
            ),
        },
{
    match reacted {
        Ok(()) => Ok(()),
        Err(source) => Err(EthInputReaderError::BrokerError { source }),
    }
}

} // verus!
