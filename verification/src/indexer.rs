//! The orchestrator: one window per chain, the anchored chain's context, and
//! the handling of each standardized block.

use vstd::prelude::*;
use crate::classifier::{
    Classification, ingest, ingest_branch, rewinds, spec_apply, spec_apply_branch, spec_classify,
    spec_classify_branch, spec_replacement, spec_replacement_len, spec_rewinds,
};
pub use crate::context::{AssetClassCache, StacksChainContext};
use crate::stacks::PoxInfo;
use crate::types::{BitcoinBlockData, BlockIdentifier, StacksBlockData, StacksBlockMetadata};
use crate::window::{ChainWindow, well_formed};

verus! {

/// A change of the base chain's canonical state.
#[derive(Debug, PartialEq, Eq)]
pub enum BitcoinChainEvent {
    /// One block was applied on top of the canonical chain.
    ChainUpdatedWithBlock(BitcoinBlockData),
    /// The canonical chain was rewound and these blocks applied, oldest first.
    ChainUpdatedWithReorg(Vec<BitcoinBlockData>),
}

/// A change of the anchored chain's canonical state.
#[derive(Debug, PartialEq, Eq)]
pub enum StacksChainEvent {
    /// One block was applied on top of the canonical chain.
    ChainUpdatedWithBlock(StacksBlockData),
    /// The canonical chain was rewound and these blocks applied, oldest first.
    ChainUpdatedWithReorg(Vec<StacksBlockData>),
}

/// Why a raw payload could not be turned into a canonical block.
#[derive(Debug, PartialEq, Eq)]
pub struct StandardizationError {
    pub message: String,
}

/// Why a block was not applied. The window is untouched in each case.
#[derive(Debug, PartialEq, Eq)]
pub enum IndexerError {
    /// The payload could not be standardized.
    Standardization(StandardizationError),
    /// The block stands one above the tip but its parent is not the tip.
    UnresolvedParent,
    /// Blocks are missing between the tip and the block, from this height on.
    MissingAncestors(u64),
    /// The fork point is not within the window: a resync is needed.
    ReorgBeyondWindow,
}

/// Where the nodes of the two chains are reached.
#[derive(Debug, PartialEq, Eq)]
pub struct IndexerConfig {
    pub stacks_node_rpc_url: String,
    pub bitcoin_node_rpc_url: String,
    pub bitcoin_node_rpc_username: String,
    pub bitcoin_node_rpc_password: String,
}

/// The error that a classification stands for, if it stands for one.
pub open spec fn spec_rejection(class: Classification) -> Option<IndexerError> {
    match class {
        Classification::UnresolvedParent => Some(IndexerError::UnresolvedParent),
        Classification::MissingAncestors { expected_height } => Some(
            IndexerError::MissingAncestors(expected_height),
        ),
        Classification::Unresolvable => Some(IndexerError::ReorgBeyondWindow),
        _ => None,
    }
}

/// What the handling of a base-chain block returns, given its classification.
pub open spec fn spec_bitcoin_outcome(
    class: Classification,
    block: BitcoinBlockData,
    outcome: Result<BitcoinChainEvent, IndexerError>,
) -> bool {
    match spec_rejection(class) {
        Some(error) => outcome == Err::<BitcoinChainEvent, IndexerError>(error),
        None => if spec_rewinds(class) {
            outcome matches Ok(BitcoinChainEvent::ChainUpdatedWithReorg(blocks)) && blocks@
                == seq![block]
        } else {
            outcome == Ok::<BitcoinChainEvent, IndexerError>(
                BitcoinChainEvent::ChainUpdatedWithBlock(block),
            )
        },
    }
}

/// What the handling of an anchored-chain block returns, given its
/// classification.
pub open spec fn spec_stacks_outcome(
    class: Classification,
    block: StacksBlockData,
    outcome: Result<StacksChainEvent, IndexerError>,
) -> bool {
    match spec_rejection(class) {
        Some(error) => outcome == Err::<StacksChainEvent, IndexerError>(error),
        None => if spec_rewinds(class) {
            outcome matches Ok(StacksChainEvent::ChainUpdatedWithReorg(blocks)) && blocks@
                == seq![block]
        } else {
            outcome == Ok::<StacksChainEvent, IndexerError>(
                StacksChainEvent::ChainUpdatedWithBlock(block),
            )
        },
    }
}

/// The error that a classification stands for, if it stands for one.
pub fn rejection(class: Classification) -> (error: Option<IndexerError>)
    ensures
        error == spec_rejection(class),
{
    match class {
        Classification::UnresolvedParent => Some(IndexerError::UnresolvedParent),
        Classification::MissingAncestors { expected_height } => Some(
            IndexerError::MissingAncestors(expected_height),
        ),
        Classification::Unresolvable => Some(IndexerError::ReorgBeyondWindow),
        _ => None,
    }
}

/// What the classification reads of a base-chain block: its identifier and
/// its parent's hash. The base chain keeps no metadata in its window.
pub open spec fn spec_bitcoin_header(block: BitcoinBlockData) -> (BlockIdentifier, [u8; 32], ()) {
    (block.block_identifier, block.parent_block_identifier.hash, ())
}

/// What the classification reads of an anchored-chain block: its identifier,
/// its parent's hash and its metadata.
pub open spec fn spec_stacks_header(block: StacksBlockData) -> (
    BlockIdentifier,
    [u8; 32],
    StacksBlockMetadata,
) {
    (block.block_identifier, block.parent_block_identifier.hash, block.metadata)
}

/// What the classification reads of each block of a base-chain branch.
pub open spec fn spec_bitcoin_headers(blocks: Seq<BitcoinBlockData>) -> Seq<
    (BlockIdentifier, [u8; 32], ()),
> {
    Seq::new(blocks.len(), |i: int| spec_bitcoin_header(blocks[i]))
}

/// What the classification reads of each block of an anchored-chain branch.
pub open spec fn spec_stacks_headers(blocks: Seq<StacksBlockData>) -> Seq<
    (BlockIdentifier, [u8; 32], StacksBlockMetadata),
> {
    Seq::new(blocks.len(), |i: int| spec_stacks_header(blocks[i]))
}

/// What the handling of a base-chain branch returns, given its
/// classification: the named error, or the announced block alone, or the
/// blocks applied in place of what was rewound, oldest first.
pub open spec fn spec_bitcoin_branch_outcome(
    class: Classification,
    branch: Seq<BitcoinBlockData>,
    outcome: Result<BitcoinChainEvent, IndexerError>,
) -> bool {
    match spec_rejection(class) {
        Some(error) => outcome == Err::<BitcoinChainEvent, IndexerError>(error),
        None => if spec_rewinds(class) {
            outcome matches Ok(BitcoinChainEvent::ChainUpdatedWithReorg(blocks)) && blocks@
                == spec_replacement(branch, class, branch.last().block_identifier.index)
        } else {
            outcome == Ok::<BitcoinChainEvent, IndexerError>(
                BitcoinChainEvent::ChainUpdatedWithBlock(branch.last()),
            )
        },
    }
}

/// What the handling of an anchored-chain branch returns, given its
/// classification: the named error, or the announced block alone, or the
/// blocks applied in place of what was rewound, oldest first.
pub open spec fn spec_stacks_branch_outcome(
    class: Classification,
    branch: Seq<StacksBlockData>,
    outcome: Result<StacksChainEvent, IndexerError>,
) -> bool {
    match spec_rejection(class) {
        Some(error) => outcome == Err::<StacksChainEvent, IndexerError>(error),
        None => if spec_rewinds(class) {
            outcome matches Ok(StacksChainEvent::ChainUpdatedWithReorg(blocks)) && blocks@
                == spec_replacement(branch, class, branch.last().block_identifier.index)
        } else {
            outcome == Ok::<StacksChainEvent, IndexerError>(
                StacksChainEvent::ChainUpdatedWithBlock(branch.last()),
            )
        },
    }
}

/// The last `count` blocks of a branch, oldest first: the announced block
/// and the ancestors right before it.
pub fn take_segment<B>(ancestors: Vec<B>, block: B, count: usize) -> (segment: Vec<B>)
    requires
        1 <= count <= ancestors@.len() + 1,
    ensures
        segment@ == ancestors@.push(block).subrange(
            ancestors@.len() + 1 - count,
            ancestors@.len() as int + 1,
        ),
{
    let mut ancestors = ancestors;
    let at: usize = ancestors.len() - (count - 1);
    let mut segment = ancestors.split_off(at);
    segment.push(block);
    segment
}

/// How many blocks of a branch a classification applies in place of what it
/// rewinds.
pub fn replacement_len(class: Classification, height: u64) -> (count: u64)
    requires
        0 <= spec_replacement_len(class, height),
    ensures
        count == spec_replacement_len(class, height),
{
    match class {
        Classification::ShallowReorg => 1,
        Classification::DeepReorg { fork_height } => height - fork_height,
        _ => 0,
    }
}

fn bitcoin_headers(ancestors: &Vec<BitcoinBlockData>, block: &BitcoinBlockData) -> (headers: Vec<
    (BlockIdentifier, [u8; 32], ()),
>)
    ensures
        headers@ == spec_bitcoin_headers(ancestors@.push(*block)),
{
    let mut headers: Vec<(BlockIdentifier, [u8; 32], ())> = Vec::new();
    let mut i: usize = 0;
    while i < ancestors.len()
        invariant
            i <= ancestors@.len(),
            headers@.len() == i,
            forall|k: int| 0 <= k < i ==> headers@[k] == spec_bitcoin_header(ancestors@[k]),
        decreases ancestors@.len() - i,
    {
        let ancestor = &ancestors[i];
        headers.push((ancestor.block_identifier, ancestor.parent_block_identifier.hash, ()));
        i += 1;
    }
    headers.push((block.block_identifier, block.parent_block_identifier.hash, ()));
    assert(headers@ =~= spec_bitcoin_headers(ancestors@.push(*block)));
    headers
}

fn stacks_headers(ancestors: &Vec<StacksBlockData>, block: &StacksBlockData) -> (headers: Vec<
    (BlockIdentifier, [u8; 32], StacksBlockMetadata),
>)
    ensures
        headers@ == spec_stacks_headers(ancestors@.push(*block)),
{
    let mut headers: Vec<(BlockIdentifier, [u8; 32], StacksBlockMetadata)> = Vec::new();
    let mut i: usize = 0;
    while i < ancestors.len()
        invariant
            i <= ancestors@.len(),
            headers@.len() == i,
            forall|k: int| 0 <= k < i ==> headers@[k] == spec_stacks_header(ancestors@[k]),
        decreases ancestors@.len() - i,
    {
        let ancestor = &ancestors[i];
        headers.push(
            (ancestor.block_identifier, ancestor.parent_block_identifier.hash, ancestor.metadata),
        );
        i += 1;
    }
    headers.push((block.block_identifier, block.parent_block_identifier.hash, block.metadata));
    assert(headers@ =~= spec_stacks_headers(ancestors@.push(*block)));
    headers
}

/// Receives the blocks of both chains and keeps, for each, the window of the
/// last confirmed blocks.
pub struct Indexer {
    config: IndexerConfig,
    stacks_last_7_blocks: ChainWindow<StacksBlockMetadata>,
    bitcoin_last_7_blocks: ChainWindow<()>,
    pub stacks_context: StacksChainContext,
}

impl Indexer {
    /// The configuration that the indexer was made with.
    pub closed spec fn spec_config(&self) -> IndexerConfig {
        self.config
    }

    /// The anchored chain's auxiliary state.
    pub closed spec fn context(&self) -> StacksChainContext {
        self.stacks_context
    }

    /// The anchored chain's window, oldest first.
    pub closed spec fn stacks_entries(&self) -> Seq<(BlockIdentifier, StacksBlockMetadata)> {
        self.stacks_last_7_blocks@
    }

    /// The base chain's window, oldest first.
    pub closed spec fn bitcoin_entries(&self) -> Seq<(BlockIdentifier, ())> {
        self.bitcoin_last_7_blocks@
    }

    pub fn new(config: IndexerConfig) -> (indexer: Indexer)
        ensures
            indexer.spec_config() == config,
            indexer.stacks_entries() == Seq::<(BlockIdentifier, StacksBlockMetadata)>::empty(),
            indexer.bitcoin_entries() == Seq::<(BlockIdentifier, ())>::empty(),
            indexer.context().assets() == Map::<Seq<char>, AssetClassCache>::empty(),
            indexer.context().spec_pox_info().is_default(),
    {
        let stacks_last_7_blocks = ChainWindow::new();
        let bitcoin_last_7_blocks = ChainWindow::new();
        let stacks_context = StacksChainContext::new();
        Indexer { config, stacks_last_7_blocks, bitcoin_last_7_blocks, stacks_context }
    }

    /// The configuration that the indexer was made with.
    pub fn config(&self) -> (config: &IndexerConfig)
        ensures
            *config == self.spec_config(),
    {
        &self.config
    }

    /// The base chain's window.
    pub fn bitcoin_window(&self) -> (window: &ChainWindow<()>)
        ensures
            window@ == self.bitcoin_entries(),
    {
        &self.bitcoin_last_7_blocks
    }

    /// The anchored chain's window.
    pub fn stacks_window(&self) -> (window: &ChainWindow<StacksBlockMetadata>)
        ensures
            window@ == self.stacks_entries(),
    {
        &self.stacks_last_7_blocks
    }

    /// Handles what the standardizer made of a base-chain payload. A
    /// standardization error is handed on unchanged. A block is classified
    /// against the base chain's window, the window is mutated as the
    /// classification prescribes, and the event or the named error returned.
    /// The anchored chain's state is never touched.
    pub fn handle_bitcoin_block(
        &mut self,
        standardized: Result<BitcoinBlockData, StandardizationError>,
    ) -> (outcome: Result<BitcoinChainEvent, IndexerError>)
        ensures
            final(self).spec_config() == old(self).spec_config(),
            final(self).stacks_entries() == old(self).stacks_entries(),
            well_formed(final(self).bitcoin_entries()),
            final(self).context() == old(self).context(),
            match standardized {
                Err(error) => {
                    &&& outcome == Err::<BitcoinChainEvent, IndexerError>(
                        IndexerError::Standardization(error),
                    )
                    &&& final(self).bitcoin_entries() == old(self).bitcoin_entries()
                },
                Ok(block) => {
                    let class = spec_classify(
                        old(self).bitcoin_entries(),
                        block.block_identifier,
                        block.parent_block_identifier.hash,
                    );
                    &&& final(self).bitcoin_entries() == spec_apply(
                        old(self).bitcoin_entries(),
                        block.block_identifier,
                        (),
                        class,
                    )
                    &&& spec_bitcoin_outcome(class, block, outcome)
                },
            },
    {
        proof {
            use_type_invariant(&self.bitcoin_last_7_blocks);
            use_type_invariant(&self.stacks_last_7_blocks);
        }
        let block = match standardized {
            Err(error) => {
                return Err(IndexerError::Standardization(error));
            },
            Ok(block) => block,
        };
        let class = ingest(
            &mut self.bitcoin_last_7_blocks,
            block.block_identifier,
            &block.parent_block_identifier.hash,
            (),
        );
        match rejection(class) {
            Some(error) => Err(error),
            None => {
                if rewinds(class) {
                    let mut blocks: Vec<BitcoinBlockData> = Vec::new();
                    blocks.push(block);
                    assert(blocks@ =~= seq![block]);
                    Ok(BitcoinChainEvent::ChainUpdatedWithReorg(blocks))
                } else {
                    Ok(BitcoinChainEvent::ChainUpdatedWithBlock(block))
                }
            },
        }
    }

    /// Handles what the standardizer made of an anchored-chain payload, after
    /// the standardizer has updated the context. A standardization error is
    /// handed on unchanged. A block is classified against the anchored
    /// chain's window, the window is mutated as the classification
    /// prescribes, with the block's metadata kept beside its identifier, and
    /// the event or the named error returned. The base chain's state is never
    /// touched.
    pub fn handle_stacks_block(
        &mut self,
        standardized: Result<StacksBlockData, StandardizationError>,
    ) -> (outcome: Result<StacksChainEvent, IndexerError>)
        ensures
            final(self).spec_config() == old(self).spec_config(),
            final(self).bitcoin_entries() == old(self).bitcoin_entries(),
            well_formed(final(self).stacks_entries()),
            final(self).context() == old(self).context(),
            match standardized {
                Err(error) => {
                    &&& outcome == Err::<StacksChainEvent, IndexerError>(
                        IndexerError::Standardization(error),
                    )
                    &&& final(self).stacks_entries() == old(self).stacks_entries()
                },
                Ok(block) => {
                    let class = spec_classify(
                        old(self).stacks_entries(),
                        block.block_identifier,
                        block.parent_block_identifier.hash,
                    );
                    &&& final(self).stacks_entries() == spec_apply(
                        old(self).stacks_entries(),
                        block.block_identifier,
                        block.metadata,
                        class,
                    )
                    &&& spec_stacks_outcome(class, block, outcome)
                },
            },
    {
        proof {
            use_type_invariant(&self.bitcoin_last_7_blocks);
            use_type_invariant(&self.stacks_last_7_blocks);
        }
        let block = match standardized {
            Err(error) => {
                return Err(IndexerError::Standardization(error));
            },
            Ok(block) => block,
        };
        let class = ingest(
            &mut self.stacks_last_7_blocks,
            block.block_identifier,
            &block.parent_block_identifier.hash,
            block.metadata,
        );
        match rejection(class) {
            Some(error) => Err(error),
            None => {
                if rewinds(class) {
                    let mut blocks: Vec<StacksBlockData> = Vec::new();
                    blocks.push(block);
                    assert(blocks@ =~= seq![block]);
                    Ok(StacksChainEvent::ChainUpdatedWithReorg(blocks))
                } else {
                    Ok(StacksChainEvent::ChainUpdatedWithBlock(block))
                }
            },
        }
    }

    /// Handles a base-chain block that arrives together with ancestors of
    /// it: `ancestors` oldest first, the last of them the parent that `block`
    /// names. The block is classified as it would be alone; where that
    /// leaves it unresolvable, the fork point is searched down the
    /// ancestors. If the window retains it, the window is rewound to it,
    /// every block above it is applied, and the event holds those blocks,
    /// oldest first. The anchored chain's state is never touched.
    pub fn handle_bitcoin_branch(
        &mut self,
        ancestors: Vec<BitcoinBlockData>,
        block: BitcoinBlockData,
    ) -> (outcome: Result<BitcoinChainEvent, IndexerError>)
        ensures
            final(self).spec_config() == old(self).spec_config(),
            final(self).stacks_entries() == old(self).stacks_entries(),
            final(self).context() == old(self).context(),
            well_formed(final(self).bitcoin_entries()),
            ({
                let branch = ancestors@.push(block);
                let class = spec_classify_branch(
                    old(self).bitcoin_entries(),
                    spec_bitcoin_headers(branch),
                );
                &&& final(self).bitcoin_entries() == spec_apply_branch(
                    old(self).bitcoin_entries(),
                    spec_bitcoin_headers(branch),
                    class,
                )
                &&& spec_bitcoin_branch_outcome(class, branch, outcome)
            }),
    {
        let headers = bitcoin_headers(&ancestors, &block);
        let class = ingest_branch(&mut self.bitcoin_last_7_blocks, &headers);
        match rejection(class) {
            Some(error) => Err(error),
            None => {
                if rewinds(class) {
                    let count: u64 = replacement_len(class, block.block_identifier.index);
                    let blocks = take_segment(ancestors, block, count as usize);
                    Ok(BitcoinChainEvent::ChainUpdatedWithReorg(blocks))
                } else {
                    Ok(BitcoinChainEvent::ChainUpdatedWithBlock(block))
                }
            },
        }
    }

    /// Handles an anchored-chain block that arrives together with ancestors
    /// of it: `ancestors` oldest first, the last of them the parent that
    /// `block` names. The block is classified as it would be alone; where
    /// that leaves it unresolvable, the fork point is searched down the
    /// ancestors. If the window retains it, the window is rewound to it,
    /// every block above it is applied, and the event holds those blocks,
    /// oldest first. The base chain's state is never touched.
    pub fn handle_stacks_branch(
        &mut self,
        ancestors: Vec<StacksBlockData>,
        block: StacksBlockData,
    ) -> (outcome: Result<StacksChainEvent, IndexerError>)
        ensures
            final(self).spec_config() == old(self).spec_config(),
            final(self).bitcoin_entries() == old(self).bitcoin_entries(),
            final(self).context() == old(self).context(),
            well_formed(final(self).stacks_entries()),
            ({
                let branch = ancestors@.push(block);
                let class = spec_classify_branch(
                    old(self).stacks_entries(),
                    spec_stacks_headers(branch),
                );
                &&& final(self).stacks_entries() == spec_apply_branch(
                    old(self).stacks_entries(),
                    spec_stacks_headers(branch),
                    class,
                )
                &&& spec_stacks_branch_outcome(class, branch, outcome)
            }),
    {
        let headers = stacks_headers(&ancestors, &block);
        let class = ingest_branch(&mut self.stacks_last_7_blocks, &headers);
        match rejection(class) {
            Some(error) => Err(error),
            None => {
                if rewinds(class) {
                    let count: u64 = replacement_len(class, block.block_identifier.index);
                    let blocks = take_segment(ancestors, block, count as usize);
                    Ok(StacksChainEvent::ChainUpdatedWithReorg(blocks))
                } else {
                    Ok(StacksChainEvent::ChainUpdatedWithBlock(block))
                }
            },
        }
    }

    /// A copy of the reward-cycle parameters currently in the context.
    pub fn get_pox_info(&mut self) -> (info: PoxInfo)
        ensures
            info == old(self).context().spec_pox_info(),
            *final(self) == *old(self),
    {
        self.stacks_context.pox_info()
    }
}

} // verus!
