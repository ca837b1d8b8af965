//! Classification of an announced block against a chain's window, and the
//! window mutation that each classification prescribes.

use vstd::prelude::*;
use crate::types::{BlockIdentifier, hash_matches};
use crate::window::{
    ChainWindow, retained, spec_entry_at, spec_push, spec_tip, spec_truncate, well_formed,
    WINDOW_CAPACITY,
};

verus! {

/// What an announced block is, relative to the window's tip.
#[derive(Clone, Copy, Debug, PartialEq, Eq, Structural)]
pub enum Classification {
    /// The window is empty: the block seeds it.
    GenesisSeed,
    /// The block is the tip's child.
    Extension,
    /// The block is the tip itself, delivered again.
    Replay,
    /// The block stands one above the tip but names another parent.
    UnresolvedParent,
    /// The block stands more than one above the tip.
    MissingAncestors { expected_height: u64 },
    /// The block competes with the tip and shares its parent.
    ShallowReorg,
    /// The block, or the branch that it came with, forks off right above the
    /// entry retained at `fork_height`, which stands below the tip's parent.
    DeepReorg { fork_height: u64 },
    /// No fork point is found among the entries that the window retains.
    Unresolvable,
}

/// The classification of a block with identifier `id` and parent hash
/// `parent_hash` against the entries `s`.
pub open spec fn spec_classify<M>(
    s: Seq<(BlockIdentifier, M)>,
    id: BlockIdentifier,
    parent_hash: [u8; 32],
) -> Classification {
    if s.len() == 0 {
        Classification::GenesisSeed
    } else {
        let tip = s.last().0;
        if id.index == tip.index + 1 {
            if parent_hash == tip.hash {
                Classification::Extension
            } else {
                Classification::UnresolvedParent
            }
        } else if id.index > tip.index + 1 {
            Classification::MissingAncestors { expected_height: (tip.index + 1) as u64 }
        } else if id == tip {
            Classification::Replay
        } else if id.index == 0 {
            Classification::Unresolvable
        } else {
            match spec_entry_at(s, (id.index - 1) as u64) {
                Some(parent) => if parent.hash != parent_hash {
                    Classification::Unresolvable
                } else if id.index == tip.index {
                    Classification::ShallowReorg
                } else {
                    Classification::DeepReorg { fork_height: (id.index - 1) as u64 }
                },
                None => Classification::Unresolvable,
            }
        }
    }
}

/// The entries after the mutation that `class` prescribes for the block.
pub open spec fn spec_apply<M>(
    s: Seq<(BlockIdentifier, M)>,
    id: BlockIdentifier,
    meta: M,
    class: Classification,
) -> Seq<(BlockIdentifier, M)> {
    match class {
        Classification::GenesisSeed | Classification::Extension => spec_push(s, id, meta),
        Classification::ShallowReorg => spec_push(s.drop_last(), id, meta),
        Classification::DeepReorg { fork_height } => spec_push(
            spec_truncate(s, fork_height),
            id,
            meta,
        ),
        _ => s,
    }
}

/// Whether a classification rewinds the window before it applies the block.
pub open spec fn spec_rewinds(class: Classification) -> bool {
    class is ShallowReorg || class is DeepReorg
}

/// Whether a classification rewinds the window before it applies the block.
pub fn rewinds(class: Classification) -> (rewinds: bool)
    ensures
        rewinds == spec_rewinds(class),
{
    match class {
        Classification::ShallowReorg => true,
        Classification::DeepReorg { .. } => true,
        _ => false,
    }
}

/// Classifies an announced block against the window. Nothing is mutated.
pub fn classify<M>(id: &BlockIdentifier, parent_hash: &[u8; 32], window: &ChainWindow<M>) -> (class:
    Classification)
    ensures
        class == spec_classify(window@, *id, *parent_hash),
        well_formed(window@),
{
    let tip = match window.tip() {
        None => {
            return Classification::GenesisSeed;
        },
        Some(tip) => tip,
    };
    if id.index > tip.index {
        if id.index - 1 == tip.index {
            if hash_matches(parent_hash, &tip.hash) {
                Classification::Extension
            } else {
                Classification::UnresolvedParent
            }
        } else {
            Classification::MissingAncestors { expected_height: tip.index + 1 }
        }
    } else if id.index == tip.index && hash_matches(&id.hash, &tip.hash) {
        Classification::Replay
    } else if id.index == 0 {
        Classification::Unresolvable
    } else {
        match window.entry_at(id.index - 1) {
            Some(parent) => {
                if !hash_matches(&parent.hash, parent_hash) {
                    Classification::Unresolvable
                } else if id.index == tip.index {
                    Classification::ShallowReorg
                } else {
                    Classification::DeepReorg { fork_height: id.index - 1 }
                }
            },
            None => Classification::Unresolvable,
        }
    }
}

/// Classifies an announced block and applies the mutation that its
/// classification prescribes: a push for a seed or an extension, a rewind to
/// the fork point and a push for a reorganization, nothing otherwise.
pub fn ingest<M>(window: &mut ChainWindow<M>, id: BlockIdentifier, parent_hash: &[u8; 32], meta: M) -> (class:
    Classification)
    ensures
        class == spec_classify(old(window)@, id, *parent_hash),
        final(window)@ == spec_apply(old(window)@, id, meta, class),
        well_formed(final(window)@),
{
    let class = classify(&id, parent_hash, window);
    match class {
        Classification::GenesisSeed | Classification::Extension => {
            window.push(id, meta);
        },
        Classification::ShallowReorg => {
            proof {
                assert(spec_truncate(window@, (id.index - 1) as u64) =~= window@.drop_last());
            }
            window.truncate_to_height(id.index - 1);
            window.push(id, meta);
        },
        Classification::DeepReorg { fork_height } => {
            window.truncate_to_height(fork_height);
            window.push(id, meta);
        },
        _ => {},
    }
    class
}

/// Whether `branch[i]` is the parent that `branch[i + 1]` names, and stands
/// one height below it.
pub open spec fn spec_links<M>(branch: Seq<(BlockIdentifier, [u8; 32], M)>, i: int) -> bool {
    branch[i].0.hash == branch[i + 1].1 && branch[i].0.index + 1 == branch[i + 1].0.index
}

/// The fork-point search over a branch: the announced block last, before it
/// the ancestors that came with it, oldest first. Starting `depth` blocks
/// before the announced one, the search looks at the entry stored one height
/// below the block at hand. If that entry is the parent that the block names,
/// the fork point is found at this depth. Otherwise the search goes one block
/// down the branch, as long as that block is the parent that the block at
/// hand names, and ends unresolved where the branch or the window ends.
pub open spec fn spec_fork_depth<M>(
    s: Seq<(BlockIdentifier, M)>,
    branch: Seq<(BlockIdentifier, [u8; 32], M)>,
    depth: int,
) -> Option<int>
    decreases branch.len() - depth,
{
    let at = branch.len() - 1 - depth;
    if depth < 0 || at < 0 || branch[at].0.index == 0 {
        None
    } else {
        match spec_entry_at(s, (branch[at].0.index - 1) as u64) {
            None => None,
            Some(stored) => if stored.hash == branch[at].1 {
                Some(depth)
            } else if at > 0 && spec_links(branch, at - 1) {
                spec_fork_depth(s, branch, depth + 1)
            } else {
                None
            },
        }
    }
}

/// The classification of a branch's announced block. It is that of the block
/// alone, unless the block alone is unresolvable and the fork-point search
/// over the ancestors that came with it finds a retained entry: then the
/// branch is a deep reorganization that forks off above that entry.
pub open spec fn spec_classify_branch<M>(
    s: Seq<(BlockIdentifier, M)>,
    branch: Seq<(BlockIdentifier, [u8; 32], M)>,
) -> Classification {
    let block = branch.last();
    let alone = spec_classify(s, block.0, block.1);
    if alone is Unresolvable {
        match spec_fork_depth(s, branch, 0) {
            Some(depth) => Classification::DeepReorg {
                fork_height: (block.0.index - 1 - depth) as u64,
            },
            None => Classification::Unresolvable,
        }
    } else {
        alone
    }
}

/// The entries after each block of `blocks` has been pushed in turn.
pub open spec fn spec_push_all<M>(
    s: Seq<(BlockIdentifier, M)>,
    blocks: Seq<(BlockIdentifier, [u8; 32], M)>,
) -> Seq<(BlockIdentifier, M)>
    decreases blocks.len(),
{
    if blocks.len() == 0 {
        s
    } else {
        spec_push(spec_push_all(s, blocks.drop_last()), blocks.last().0, blocks.last().2)
    }
}

/// How many blocks of a branch a classification applies in place of what
/// it rewinds: those above the fork point, up to the announced block at
/// `height`.
pub open spec fn spec_replacement_len(class: Classification, height: u64) -> int {
    match class {
        Classification::ShallowReorg => 1,
        Classification::DeepReorg { fork_height } => height - fork_height,
        _ => 0,
    }
}

/// The blocks of a branch that a classification applies in place of what it
/// rewinds, oldest first.
pub open spec fn spec_replacement<B>(branch: Seq<B>, class: Classification, height: u64) -> Seq<B> {
    branch.subrange(branch.len() - spec_replacement_len(class, height), branch.len() as int)
}

/// The entries after the mutation that `class` prescribes for a branch: for a
/// deep reorganization, the window rewound to the fork point and every block
/// of the branch above it pushed, in increasing height.
pub open spec fn spec_apply_branch<M>(
    s: Seq<(BlockIdentifier, M)>,
    branch: Seq<(BlockIdentifier, [u8; 32], M)>,
    class: Classification,
) -> Seq<(BlockIdentifier, M)> {
    let block = branch.last();
    match class {
        Classification::DeepReorg { fork_height } => spec_push_all(
            spec_truncate(s, fork_height),
            spec_replacement(branch, class, block.0.index),
        ),
        _ => spec_apply(s, block.0, block.2, class),
    }
}

/// Searches the fork point of a branch: how many blocks before the announced
/// one stands the first whose named parent the window retains.
pub fn find_fork_depth<M>(
    window: &ChainWindow<M>,
    branch: &Vec<(BlockIdentifier, [u8; 32], M)>,
) -> (found: Option<usize>)
    requires
        branch@.len() > 0,
    ensures
        match found {
            Some(depth) => {
                &&& spec_fork_depth(window@, branch@, 0) == Some(depth as int)
                &&& depth < branch@.len()
                &&& forall|i: int| branch@.len() - 1 - depth <= i < branch@.len() - 1 ==> spec_links(branch@, i)
                &&& branch@[branch@.len() - 1 - depth].0.index >= 1
                &&& spec_entry_at(
                    window@,
                    (branch@[branch@.len() - 1 - depth].0.index - 1) as u64,
                ) is Some
            },
            None => spec_fork_depth(window@, branch@, 0) is None,
        },
{
    let last: usize = branch.len() - 1;
    let mut depth: usize = 0;
    loop
        invariant
            last == branch@.len() - 1,
            depth <= last,
            spec_fork_depth(window@, branch@, 0) == spec_fork_depth(window@, branch@, depth as int),
            forall|i: int| last - depth <= i < last ==> spec_links(branch@, i),
        decreases last - depth,
    {
        let at: usize = last - depth;
        let height: u64 = branch[at].0.index;
        if height == 0 {
            return None;
        }
        match window.entry_at(height - 1) {
            None => {
                return None;
            },
            Some(stored) => {
                if hash_matches(&stored.hash, &branch[at].1) {
                    return Some(depth);
                }
                if at == 0 {
                    return None;
                }
                if !hash_matches(&branch[at - 1].0.hash, &branch[at].1) || branch[at - 1].0.index
                    != height - 1 {
                    return None;
                }
                depth += 1;
            },
        }
    }
}

/// Classifies a branch's announced block and applies the mutation that its
/// classification prescribes. `branch` holds the announced block last and
/// before it the ancestors that came with it, oldest first. Where the block
/// alone cannot be resolved, the ancestors are searched for the fork point;
/// if one is found, the window is rewound to it and every block of the branch
/// above it is pushed, oldest first.
pub fn ingest_branch<M: Copy>(
    window: &mut ChainWindow<M>,
    branch: &Vec<(BlockIdentifier, [u8; 32], M)>,
) -> (class: Classification)
    requires
        branch@.len() > 0,
    ensures
        class == spec_classify_branch(old(window)@, branch@),
        final(window)@ == spec_apply_branch(old(window)@, branch@, class),
        well_formed(final(window)@),
        spec_rewinds(class) ==> 1 <= spec_replacement_len(class, branch@.last().0.index)
            <= branch@.len(),
{
    let last: usize = branch.len() - 1;
    let block = branch[last];
    let alone = ingest(window, block.0, &block.1, block.2);
    match alone {
        Classification::Unresolvable => {},
        _ => {
            proof {
                if alone is DeepReorg {
                    assert(spec_replacement(branch@, alone, block.0.index) =~= seq![block]);
                    assert(seq![block].drop_last() =~= Seq::<(BlockIdentifier, [u8; 32], M)>::empty());
                    reveal_with_fuel(spec_push_all, 2);
                }
            }
            return alone;
        },
    }
    let depth = match find_fork_depth(window, branch) {
        None => {
            return Classification::Unresolvable;
        },
        Some(depth) => depth,
    };
    let first: usize = last - depth;
    proof {
        lemma_linked_heights(branch@, first as int, last as int);
    }
    let fork_height: u64 = branch[first].0.index - 1;
    let class = Classification::DeepReorg { fork_height };
    window.truncate_to_height(fork_height);
    let ghost rewound = window@;
    let total: usize = branch.len();
    let mut i: usize = first;
    while i < total
        invariant
            first <= i <= total,
            total == last + 1,
            last == branch@.len() - 1,
            forall|k: int| first <= k < last ==> spec_links(branch@, k),
            window@ == spec_push_all(rewound, branch@.subrange(first as int, i as int)),
            well_formed(window@),
            window@.len() > 0,
            window@.last().0.index + 1 == branch@[first as int].0.index + (i - first),
        decreases total - i,
    {
        proof {
            lemma_linked_heights(branch@, first as int, i as int);
            assert(branch@.subrange(first as int, i + 1).drop_last() =~= branch@.subrange(
                first as int,
                i as int,
            ));
        }
        window.push(branch[i].0, branch[i].2);
        i += 1;
    }
    class
}

/// Along a linked stretch of a branch, heights grow by exactly one per block.
pub proof fn lemma_linked_heights<M>(branch: Seq<(BlockIdentifier, [u8; 32], M)>, from: int, to: int)
    requires
        0 <= from <= to < branch.len(),
        forall|k: int| from <= k < to ==> spec_links(branch, k),
    ensures
        branch[to].0.index == branch[from].0.index + (to - from),
    decreases to - from,
{
    if from < to {
        lemma_linked_heights(branch, from, to - 1);
        assert(spec_links(branch, to - 1));
    }
}

/// The entries after a block with identifier `id`, parent hash `parent_hash`
/// and metadata `meta` has been classified and the mutation applied.
pub open spec fn spec_ingest<M>(
    s: Seq<(BlockIdentifier, M)>,
    id: BlockIdentifier,
    parent_hash: [u8; 32],
    meta: M,
) -> Seq<(BlockIdentifier, M)> {
    spec_apply(s, id, meta, spec_classify(s, id, parent_hash))
}

/// The entries after each block of `blocks` has been ingested in turn. A
/// block is its identifier, its parent's hash and its metadata.
pub open spec fn spec_ingest_all<M>(
    s: Seq<(BlockIdentifier, M)>,
    blocks: Seq<(BlockIdentifier, [u8; 32], M)>,
) -> Seq<(BlockIdentifier, M)>
    decreases blocks.len(),
{
    if blocks.len() == 0 {
        s
    } else {
        let block = blocks.last();
        spec_ingest(spec_ingest_all(s, blocks.drop_last()), block.0, block.1, block.2)
    }
}

/// Each block stands one above the block before it and names it as parent.
pub open spec fn spec_linked<M>(blocks: Seq<(BlockIdentifier, [u8; 32], M)>) -> bool {
    forall|i: int|
        0 < i < blocks.len() ==> (#[trigger] blocks[i]).0.index == blocks[i - 1].0.index + 1
            && blocks[i].1 == blocks[i - 1].0.hash
}

/// The window entries that a run of blocks stands for.
pub open spec fn spec_entries<M>(blocks: Seq<(BlockIdentifier, [u8; 32], M)>) -> Seq<
    (BlockIdentifier, M),
> {
    Seq::new(blocks.len(), |i: int| (blocks[i].0, blocks[i].2))
}

/// Evicting early changes nothing: the newest entries after a push are the
/// same whether or not older ones had been evicted before it.
pub proof fn lemma_retained_push<T>(s: Seq<T>, entry: T)
    ensures
        retained(retained(s).push(entry)) == retained(s.push(entry)),
{
    assert(retained(retained(s).push(entry)) =~= retained(s.push(entry)));
}

/// In a well-formed window each entry stands exactly one height above the
/// entry before it, so heights strictly increase and no height is skipped or
/// held twice.
pub proof fn lemma_no_gap<M>(s: Seq<(BlockIdentifier, M)>, i: int, j: int)
    requires
        well_formed(s),
        0 <= i < j < s.len(),
    ensures
        s[j].0.index == s[i].0.index + (j - i),
        s[i].0.index < s[j].0.index,
        j == i + 1 ==> s[j].0.index == s[i].0.index + 1,
{
}

/// Starting from an empty window, a run of blocks in which each extends the
/// one before it is applied block by block, and the window then holds the
/// newest `WINDOW_CAPACITY` of them, oldest first: as many entries as blocks
/// were applied, up to the capacity, with the last block as tip.
pub proof fn lemma_extensions_retained<M>(blocks: Seq<(BlockIdentifier, [u8; 32], M)>)
    requires
        spec_linked(blocks),
    ensures
        spec_ingest_all(Seq::<(BlockIdentifier, M)>::empty(), blocks) == retained(
            spec_entries(blocks),
        ),
        spec_ingest_all(Seq::<(BlockIdentifier, M)>::empty(), blocks).len() == if blocks.len()
            <= WINDOW_CAPACITY {
            blocks.len()
        } else {
            WINDOW_CAPACITY as nat
        },
        blocks.len() > 0 ==> spec_tip(
            spec_ingest_all(Seq::<(BlockIdentifier, M)>::empty(), blocks),
        ) == Some(blocks.last().0),
        blocks.len() > WINDOW_CAPACITY ==> spec_ingest_all(
            Seq::<(BlockIdentifier, M)>::empty(),
            blocks,
        ) == spec_entries(blocks).subrange(
            blocks.len() - WINDOW_CAPACITY,
            blocks.len() as int,
        ),
    decreases blocks.len(),
{
    let empty = Seq::<(BlockIdentifier, M)>::empty();
    if blocks.len() > 0 {
        let earlier = blocks.drop_last();
        let block = blocks.last();
        lemma_extensions_retained(earlier);
        let held = spec_ingest_all(empty, earlier);
        assert(spec_entries(earlier).push((block.0, block.2)) =~= spec_entries(blocks));
        if earlier.len() > 0 {
            assert(earlier.last() == blocks[blocks.len() - 2]);
            assert(spec_classify(held, block.0, block.1) == Classification::Extension);
        }
        lemma_retained_push(spec_entries(earlier), (block.0, block.2));
    } else {
        assert(spec_entries(blocks) =~= empty);
    }
}

/// A block that competes with the tip and names the tip's predecessor as its
/// parent is a shallow reorganization: it takes the tip's place, and every
/// other entry stays where it was.
pub proof fn lemma_shallow_reorg_replaces_tip<M>(
    s: Seq<(BlockIdentifier, M)>,
    id: BlockIdentifier,
    parent_hash: [u8; 32],
    meta: M,
)
    requires
        well_formed(s),
        s.len() >= 2,
        id.index == s.last().0.index,
        id.hash != s.last().0.hash,
        parent_hash == s[s.len() - 2].0.hash,
    ensures
        spec_classify(s, id, parent_hash) == Classification::ShallowReorg,
        spec_ingest(s, id, parent_hash, meta) == s.update(s.len() - 1, (id, meta)),
        well_formed(spec_ingest(s, id, parent_hash, meta)),
{
    assert(spec_ingest(s, id, parent_hash, meta) =~= s.update(s.len() - 1, (id, meta)));
}

/// A block whose parent is the entry retained `depth` heights below the tip,
/// with `depth` above one, is a deep reorganization: the window is rewound to
/// that entry and the block applied on top of it, and stays contiguous.
pub proof fn lemma_deep_reorg_rewinds<M>(
    s: Seq<(BlockIdentifier, M)>,
    id: BlockIdentifier,
    parent_hash: [u8; 32],
    meta: M,
    depth: int,
)
    requires
        well_formed(s),
        2 <= depth < s.len(),
        id.index == s.last().0.index - depth + 1,
        parent_hash == s[s.len() - 1 - depth].0.hash,
    ensures
        spec_classify(s, id, parent_hash) == (Classification::DeepReorg {
            fork_height: s[s.len() - 1 - depth].0.index,
        }),
        spec_ingest(s, id, parent_hash, meta) == s.subrange(0, s.len() - depth).push((id, meta)),
        well_formed(spec_ingest(s, id, parent_hash, meta)),
{
    let fork = s[s.len() - 1 - depth].0;
    assert(fork.index == id.index - 1);
    assert(spec_entry_at(s, fork.index) == Some(fork));
    assert(spec_ingest(s, id, parent_hash, meta) =~= s.subrange(0, s.len() - depth).push(
        (id, meta),
    ));
}

/// A block that stands `WINDOW_CAPACITY` heights or more below the height
/// after the tip forks off below everything that a window can retain: it is
/// unresolvable, and the window stays exactly as it was.
pub proof fn lemma_reorg_beyond_window<M>(
    s: Seq<(BlockIdentifier, M)>,
    id: BlockIdentifier,
    parent_hash: [u8; 32],
    meta: M,
)
    requires
        well_formed(s),
        s.len() > 0,
        id.index + WINDOW_CAPACITY <= s.last().0.index + 1,
    ensures
        spec_classify(s, id, parent_hash) == Classification::Unresolvable,
        spec_ingest(s, id, parent_hash, meta) == s,
{
}

/// Pushing a run of blocks onto a window that has room for all of them
/// appends their entries, in order.
pub proof fn lemma_push_all_appends<M>(
    s: Seq<(BlockIdentifier, M)>,
    blocks: Seq<(BlockIdentifier, [u8; 32], M)>,
)
    requires
        s.len() + blocks.len() <= WINDOW_CAPACITY,
    ensures
        spec_push_all(s, blocks) == s + spec_entries(blocks),
    decreases blocks.len(),
{
    if blocks.len() > 0 {
        lemma_push_all_appends(s, blocks.drop_last());
        assert((s + spec_entries(blocks.drop_last())).push((blocks.last().0, blocks.last().2)) =~= s
            + spec_entries(blocks));
    } else {
        assert(s + spec_entries(blocks) =~= s);
    }
}

/// Where a linked branch departs from the window right above the entry at
/// position `fork`, the fork-point search, wherever it starts, ends at the
/// branch's oldest block.
proof fn lemma_search_reaches_fork<M>(
    s: Seq<(BlockIdentifier, M)>,
    branch: Seq<(BlockIdentifier, [u8; 32], M)>,
    fork: int,
    depth: int,
)
    requires
        well_formed(s),
        0 <= fork,
        fork + branch.len() < s.len() + 1,
        0 <= depth < branch.len(),
        forall|i: int| 0 <= i < branch.len() - 1 ==> spec_links(branch, i),
        branch[0].0.index == s[fork].0.index + 1,
        branch[0].1 == s[fork].0.hash,
        forall|i: int| 0 < i < branch.len() ==> (#[trigger] branch[i]).1 != s[fork + i].0.hash,
    ensures
        spec_fork_depth(s, branch, depth) == Some(branch.len() - 1),
    decreases branch.len() - depth,
{
    let at = branch.len() - 1 - depth;
    lemma_linked_heights(branch, 0, at);
    assert(spec_entry_at(s, (branch[at].0.index - 1) as u64) == Some(s[fork + at].0));
    if at > 0 {
        assert(spec_links(branch, at - 1));
        lemma_search_reaches_fork(s, branch, fork, depth + 1);
    }
}

/// A linked branch that forks off right above an entry retained `depth`
/// heights below the tip, and whose blocks are none of those that the window
/// holds above that entry, is a reorganization: the window is rewound to the
/// fork point and holds, above it, exactly the blocks of the branch, oldest
/// first. It stays contiguous.
pub proof fn lemma_branch_reorg_replaces_segment<M>(
    s: Seq<(BlockIdentifier, M)>,
    branch: Seq<(BlockIdentifier, [u8; 32], M)>,
    depth: int,
)
    requires
        well_formed(s),
        1 <= branch.len() <= depth < s.len(),
        forall|i: int| 0 <= i < branch.len() - 1 ==> spec_links(branch, i),
        branch[0].0.index == s[s.len() - 1 - depth].0.index + 1,
        branch[0].1 == s[s.len() - 1 - depth].0.hash,
        forall|i: int|
            0 < i < branch.len() ==> (#[trigger] branch[i]).1 != s[s.len() - 1 - depth + i].0.hash,
        branch.last().0 != s.last().0,
    ensures
        spec_classify_branch(s, branch) == (if depth == 1 {
            Classification::ShallowReorg
        } else {
            Classification::DeepReorg { fork_height: s[s.len() - 1 - depth].0.index }
        }),
        spec_apply_branch(s, branch, spec_classify_branch(s, branch)) == s.subrange(
            0,
            s.len() - depth,
        ) + spec_entries(branch),
        well_formed(spec_apply_branch(s, branch, spec_classify_branch(s, branch))),
{
    let fork = s.len() - 1 - depth;
    let top = branch.len() - 1;
    let block = branch.last();
    let kept = s.subrange(0, fork + 1);
    lemma_linked_heights(branch, 0, top);
    assert(spec_entry_at(s, (block.0.index - 1) as u64) == Some(s[fork + top].0));
    lemma_search_reaches_fork(s, branch, fork, 0);
    let class = spec_classify_branch(s, branch);
    if depth == 1 {
        assert(class == Classification::ShallowReorg);
        assert(spec_apply_branch(s, branch, class) =~= kept + spec_entries(branch));
    } else {
        assert(class == Classification::DeepReorg { fork_height: s[fork].0.index });
        assert(spec_replacement(branch, class, block.0.index) =~= branch);
        assert(spec_truncate(s, s[fork].0.index) =~= kept);
        lemma_push_all_appends(kept, branch);
    }
    let after = kept + spec_entries(branch);
    assert forall|i: int| 0 <= i < after.len() implies (#[trigger] after[i]).0.index
        == after[0].0.index + i by {
        if i > fork {
            lemma_linked_heights(branch, 0, i - fork - 1);
        }
    }
}

/// No block of the branch names as its parent the entry that the window
/// holds one height below it.
pub open spec fn spec_departs<M>(
    s: Seq<(BlockIdentifier, M)>,
    branch: Seq<(BlockIdentifier, [u8; 32], M)>,
) -> bool {
    forall|i: int, k: int|
        0 <= i < branch.len() && 0 <= k < s.len() && (#[trigger] s[k]).0.index + 1 == (
        #[trigger] branch[i]).0.index ==> s[k].0.hash != branch[i].1
}

/// Where no block of the branch names a retained entry as its parent, the
/// fork-point search finds nothing, wherever it starts.
proof fn lemma_search_finds_nothing<M>(
    s: Seq<(BlockIdentifier, M)>,
    branch: Seq<(BlockIdentifier, [u8; 32], M)>,
    depth: int,
)
    requires
        well_formed(s),
        0 <= depth < branch.len(),
        spec_departs(s, branch),
    ensures
        spec_fork_depth(s, branch, depth) is None,
    decreases branch.len() - depth,
{
    let at = branch.len() - 1 - depth;
    if branch[at].0.index != 0 {
        let below = (branch[at].0.index - 1) as u64;
        if spec_entry_at(s, below) is Some {
            let k = below - s[0].0.index;
            assert(s[k].0.index + 1 == branch[at].0.index);
            if at > 0 {
                lemma_search_finds_nothing(s, branch, depth + 1);
            }
        }
    }
}

/// A linked branch that forks off more than six heights below the tip, and
/// whose blocks are none of those that the window holds, cannot be resolved:
/// the fork point is below everything that the window retains, and the window
/// stays exactly as it was.
pub proof fn lemma_branch_beyond_window<M>(
    s: Seq<(BlockIdentifier, M)>,
    branch: Seq<(BlockIdentifier, [u8; 32], M)>,
)
    requires
        well_formed(s),
        s.len() > 0,
        branch.len() > 0,
        forall|i: int| 0 <= i < branch.len() - 1 ==> spec_links(branch, i),
        branch[0].0.index + WINDOW_CAPACITY <= s.last().0.index + 1,
        branch.last().0.index <= s.last().0.index,
        branch.last().0 != s.last().0,
        forall|i: int, k: int|
            0 < i < branch.len() && 0 <= k < s.len() && (#[trigger] s[k]).0.index + 1 == (
            #[trigger] branch[i]).0.index ==> s[k].0.hash != branch[i].1,
    ensures
        spec_classify_branch(s, branch) == Classification::Unresolvable,
        spec_apply_branch(s, branch, spec_classify_branch(s, branch)) == s,
{
    assert(spec_departs(s, branch));
    lemma_search_finds_nothing(s, branch, 0);
    let block = branch.last();
    if block.0.index != 0 {
        let below = (block.0.index - 1) as u64;
        if spec_entry_at(s, below) is Some {
            let k = below - s[0].0.index;
            assert(s[k].0.index + 1 == block.0.index);
        }
    }
}

/// A block that arrives without ancestors is handled as a branch of one: the
/// classification and the window after it are the same either way.
pub proof fn lemma_branch_of_one<M>(
    s: Seq<(BlockIdentifier, M)>,
    id: BlockIdentifier,
    parent_hash: [u8; 32],
    meta: M,
)
    requires
        well_formed(s),
    ensures
        spec_classify_branch(s, seq![(id, parent_hash, meta)]) == spec_classify(s, id, parent_hash),
        spec_apply_branch(
            s,
            seq![(id, parent_hash, meta)],
            spec_classify(s, id, parent_hash),
        ) == spec_ingest(s, id, parent_hash, meta),
{
    let branch = seq![(id, parent_hash, meta)];
    let class = spec_classify(s, id, parent_hash);
    if class is DeepReorg {
        assert(spec_replacement(branch, class, id.index) =~= branch);
        assert(branch.drop_last() =~= Seq::<(BlockIdentifier, [u8; 32], M)>::empty());
        reveal_with_fuel(spec_push_all, 2);
    }
}

} // verus!
