//! The events of the pipeline, the tracked current-block context, and
//! the dispatch decision taken for each event.

use vstd::prelude::*;
use crate::words::Word;
use crate::fees::{gas_target, next_base_fee_of, fee_cap_or_zero, is_admitted};

verus! {

/// The header data of one observed block.
#[derive(Clone, Copy, Debug, PartialEq, Eq, Structural)]
pub struct NewBlock {
    pub number: u64,
    pub gas_used: u64,
    pub gas_limit: u64,
    pub base_fee_per_gas: u64,
    pub timestamp: u64,
}

impl NewBlock {
    /// The state before any block has been observed: all fields zero.
    pub open spec fn is_empty_spec(&self) -> bool {
        self.number == 0 && self.gas_used == 0 && self.gas_limit == 0 && self.base_fee_per_gas == 0
            && self.timestamp == 0
    }
}

impl Default for NewBlock {
    /// The empty block: no block observed yet.
    fn default() -> (r: NewBlock)
        ensures
            r.is_empty_spec(),
    {
        NewBlock { number: 0, gas_used: 0, gas_limit: 0, base_fee_per_gas: 0, timestamp: 0 }
    }
}

/// What the pipeline reads of a pending transaction: its hash and its
/// fee cap. A transaction without a cap is a legacy transaction.
#[derive(Clone, Debug)]
pub struct Transaction {
    pub hash: Word,
    pub max_fee_per_gas: Option<u128>,
}

/// One event on the bus: a new block header or a pending transaction.
#[derive(Clone, Debug)]
pub enum Event {
    NewBlock(NewBlock),
    Transaction(Transaction),
}

/// The single piece of state the dispatch consumer carries: the most
/// recently observed block, replaced whole on every new block.
pub struct BlockContext {
    pub block: NewBlock,
}

impl BlockContext {
    /// True once a block has been observed: the empty context carries
    /// block number zero, and no real block does.
    pub open spec fn observed(&self) -> bool {
        self.block.number != 0
    }

    /// The prediction is defined unless the tracked block is off target
    /// while its gas target is zero.
    pub open spec fn prediction_defined(&self) -> bool {
        self.block.gas_used as int != gas_target(self.block.gas_limit) ==> gas_target(
            self.block.gas_limit,
        ) > 0
    }

    /// A context in which no block has been observed.
    pub fn new() -> (r: BlockContext)
        ensures
            r.block.is_empty_spec(),
            !r.observed(),
    {
        BlockContext {
            block: NewBlock { number: 0, gas_used: 0, gas_limit: 0, base_fee_per_gas: 0, timestamp: 0 },
        }
    }

    /// Replaces the tracked block, unconditionally: no merging and no
    /// ordering check against the previous block.
    pub fn update(&mut self, block: NewBlock)
        ensures
            final(self).block == block,
    {
        self.block = block;
    }

    /// True once a block has been observed.
    pub fn is_observed(&self) -> (r: bool)
        ensures
            r == self.observed(),
    {
        self.block.number != 0
    }

    /// The predicted base fee of the block after the tracked one.
    pub fn predict_next_base_fee(&self) -> (r: u128)
        requires
            self.prediction_defined(),
        ensures
            r as int == next_base_fee_of(
                self.block.gas_used,
                self.block.gas_limit,
                self.block.base_fee_per_gas,
            ),
    {
        crate::fees::calculate_next_block_base_fee(
            self.block.gas_used,
            self.block.gas_limit,
            self.block.base_fee_per_gas,
        )
    }
}

/// What the consumer decides for one event.
#[derive(Clone, Copy, Debug, PartialEq, Eq, Structural)]
pub enum DispatchAction {
    /// Nothing further to do for this event.
    NoAction,
    /// The transaction was admitted: analyze its state diff against the
    /// tracked block.
    Analyze { block_number: u64, next_base_fee: u128 },
}

/// The decision for one event against a context: a new block only
/// replaces the context; a transaction is analyzed exactly when a block
/// has been observed and the transaction's fee cap strictly exceeds the
/// predicted next base fee.
pub open spec fn dispatch_action_of(ctx: BlockContext, ev: Event) -> DispatchAction {
    match ev {
        Event::NewBlock(_) => DispatchAction::NoAction,
        Event::Transaction(t) => {
            if !ctx.observed() {
                DispatchAction::NoAction
            } else {
                let nbf = next_base_fee_of(
                    ctx.block.gas_used,
                    ctx.block.gas_limit,
                    ctx.block.base_fee_per_gas,
                );
                if fee_cap_or_zero(t.max_fee_per_gas) > nbf {
                    DispatchAction::Analyze {
                        block_number: ctx.block.number,
                        next_base_fee: nbf as u128,
                    }
                } else {
                    DispatchAction::NoAction
                }
            }
        },
    }
}

/// One turn of the dispatch consumer: a new block replaces the context;
/// a transaction leaves it unchanged and yields the admission decision.
pub fn dispatch_step(ctx: &mut BlockContext, ev: &Event) -> (act: DispatchAction)
    requires
        (*ev matches Event::Transaction(_) && old(ctx).observed()) ==> old(
            ctx,
        ).prediction_defined(),
    ensures
        act == dispatch_action_of(*old(ctx), *ev),
        *ev matches Event::NewBlock(b) ==> final(ctx).block == b,
        (*ev matches Event::Transaction(_)) ==> *final(ctx) == *old(ctx),
{
    match ev {
        Event::NewBlock(b) => {
            ctx.update(*b);
            DispatchAction::NoAction
        },
        Event::Transaction(t) => {
            if !ctx.is_observed() {
                DispatchAction::NoAction
            } else {
                let nbf = ctx.predict_next_base_fee();
                if is_admitted(t.max_fee_per_gas, nbf) {
                    DispatchAction::Analyze { block_number: ctx.block.number, next_base_fee: nbf }
                } else {
                    DispatchAction::NoAction
                }
            }
        },
    }
}

/// The block event for one observed header: a header without a
/// finalized block number is skipped, and a missing base fee reads as
/// zero.
pub fn block_event_of(
    number: Option<u64>,
    gas_used: u64,
    gas_limit: u64,
    base_fee_per_gas: Option<u64>,
    timestamp: u64,
) -> (r: Option<NewBlock>)
    ensures
        match r {
            Option::Some(b) => number == Option::Some(b.number) && b.gas_used == gas_used
                && b.gas_limit == gas_limit && b.base_fee_per_gas == (match base_fee_per_gas {
                Option::Some(f) => f,
                Option::None => 0,
            }) && b.timestamp == timestamp,
            Option::None => number is None,
        },
{
    match number {
        Some(n) => Some(
            NewBlock {
                number: n,
                gas_used,
                gas_limit,
                base_fee_per_gas: match base_fee_per_gas {
                    Some(f) => f,
                    None => 0,
                },
                timestamp,
            },
        ),
        None => None,
    }
}

/// Before any block has been observed, a transaction event yields no
/// admission decision and no analysis.
pub proof fn lemma_no_block_no_action(ctx: BlockContext, ev: Event)
    requires
        !ctx.observed(),
        ev matches Event::Transaction(_),
    ensures
        dispatch_action_of(ctx, ev) == DispatchAction::NoAction,
{
}

} // verus!
