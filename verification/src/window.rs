//! The bounded window of recently confirmed blocks of one chain.

use std::collections::VecDeque;
use vstd::prelude::*;
use crate::types::BlockIdentifier;

verus! {

/// How many confirmed blocks a window retains.
pub const WINDOW_CAPACITY: usize = 7;

/// Heights grow by exactly one from each entry to the next.
pub open spec fn contiguous<M>(s: Seq<(BlockIdentifier, M)>) -> bool {
    forall|i: int| 0 <= i < s.len() ==> (#[trigger] s[i]).0.index == s[0].0.index + i
}

/// What holds of every window: at most `WINDOW_CAPACITY` entries, contiguous
/// by height.
pub open spec fn well_formed<M>(s: Seq<(BlockIdentifier, M)>) -> bool {
    &&& s.len() <= WINDOW_CAPACITY
    &&& contiguous(s)
}

/// The newest entries of `s`, at most `WINDOW_CAPACITY` of them, oldest first.
pub open spec fn retained<T>(s: Seq<T>) -> Seq<T> {
    if s.len() <= WINDOW_CAPACITY {
        s
    } else {
        s.subrange(s.len() - WINDOW_CAPACITY, s.len() as int)
    }
}

/// The identifier of the newest entry.
pub open spec fn spec_tip<M>(s: Seq<(BlockIdentifier, M)>) -> Option<BlockIdentifier> {
    if s.len() == 0 {
        None
    } else {
        Some(s.last().0)
    }
}

/// The window after one more entry: appended, the oldest evicted when full.
pub open spec fn spec_push<M>(s: Seq<(BlockIdentifier, M)>, id: BlockIdentifier, meta: M) -> Seq<
    (BlockIdentifier, M),
> {
    retained(s.push((id, meta)))
}

/// How many entries of a contiguous `s` have a height of at most `height`.
pub open spec fn spec_kept_len<M>(s: Seq<(BlockIdentifier, M)>, height: u64) -> int {
    if s.len() == 0 || height < s[0].0.index {
        0
    } else if height >= s.last().0.index {
        s.len() as int
    } else {
        height - s[0].0.index + 1
    }
}

/// The window rewound to `height`: the entries above it dropped.
pub open spec fn spec_truncate<M>(s: Seq<(BlockIdentifier, M)>, height: u64) -> Seq<
    (BlockIdentifier, M),
> {
    s.subrange(0, spec_kept_len(s, height))
}

/// The identifier stored at `height`, if the window retains that height.
pub open spec fn spec_entry_at<M>(s: Seq<(BlockIdentifier, M)>, height: u64) -> Option<
    BlockIdentifier,
> {
    if s.len() > 0 && s[0].0.index <= height <= s.last().0.index {
        Some(s[height - s[0].0.index].0)
    } else {
        None
    }
}

/// The last confirmed blocks of one chain, oldest first, with the metadata
/// kept beside each identifier.
pub struct ChainWindow<M> {
    entries: VecDeque<(BlockIdentifier, M)>,
}

impl<M> View for ChainWindow<M> {
    type V = Seq<(BlockIdentifier, M)>;

    closed spec fn view(&self) -> Seq<(BlockIdentifier, M)> {
        self.entries@
    }
}

impl<M> ChainWindow<M> {
    /// At most `WINDOW_CAPACITY` entries, contiguous by height.
    #[verifier::type_invariant]
    pub open spec fn inv(self) -> bool {
        well_formed(self@)
    }

    pub fn new() -> (window: ChainWindow<M>)
        ensures
            window@ == Seq::<(BlockIdentifier, M)>::empty(),
    {
        ChainWindow { entries: VecDeque::new() }
    }

    pub fn len(&self) -> (n: usize)
        ensures
            n == self@.len(),
            well_formed(self@),
    {
        proof {
            use_type_invariant(self);
        }
        self.entries.len()
    }

    pub fn is_empty(&self) -> (empty: bool)
        ensures
            empty == (self@.len() == 0),
    {
        self.entries.len() == 0
    }

    /// The newest entry's identifier, or none before the first block.
    pub fn tip(&self) -> (tip: Option<BlockIdentifier>)
        ensures
            tip == spec_tip(self@),
            well_formed(self@),
    {
        proof {
            use_type_invariant(self);
        }
        let n: usize = self.entries.len();
        if n == 0 {
            None
        } else {
            Some(self.entries[n - 1].0)
        }
    }

    /// The identifier and metadata at position `i`, counted from the oldest.
    pub fn get(&self, i: usize) -> (entry: Option<&(BlockIdentifier, M)>)
        ensures
            i < self@.len() ==> entry == Some(&self@[i as int]),
            i >= self@.len() ==> entry is None,
    {
        if i < self.entries.len() {
            Some(&self.entries[i])
        } else {
            None
        }
    }

    /// Appends an entry and evicts the oldest once more than
    /// `WINDOW_CAPACITY` are held. The window does not look at the entry's
    /// hash: the caller vouches that the entry continues the chain, and its
    /// height must be the one above the tip.
    pub fn push(&mut self, id: BlockIdentifier, meta: M)
        requires
            old(self)@.len() == 0 || id.index == old(self)@.last().0.index + 1,
        ensures
            final(self)@ == spec_push(old(self)@, id, meta),
            well_formed(final(self)@),
    {
        proof {
            use_type_invariant(&*self);
        }
        let mut entries: VecDeque<(BlockIdentifier, M)> = VecDeque::new();
        std::mem::swap(&mut entries, &mut self.entries);
        entries.push_back((id, meta));
        if entries.len() > WINDOW_CAPACITY {
            entries.pop_front();
        }
        self.entries = entries;
    }

    /// Drops every entry above `height`; nothing changes when `height` is at
    /// or above the tip.
    pub fn truncate_to_height(&mut self, height: u64)
        ensures
            final(self)@ == spec_truncate(old(self)@, height),
            well_formed(final(self)@),
    {
        proof {
            use_type_invariant(&*self);
        }
        let n: usize = self.entries.len();
        if n == 0 {
            assert(self@ =~= spec_truncate(self@, height));
            return ;
        }
        let first: u64 = self.entries[0].0.index;
        let keep: usize = if height < first {
            0
        } else if height - first < (n - 1) as u64 {
            (height - first) as usize + 1
        } else {
            n
        };
        let mut entries: VecDeque<(BlockIdentifier, M)> = VecDeque::new();
        std::mem::swap(&mut entries, &mut self.entries);
        entries.truncate(keep);
        self.entries = entries;
    }

    /// The identifier stored at `height`, or none when the window does not
    /// retain that height.
    pub fn entry_at(&self, height: u64) -> (entry: Option<BlockIdentifier>)
        ensures
            entry == spec_entry_at(self@, height),
            well_formed(self@),
    {
        proof {
            use_type_invariant(self);
        }
        let n: usize = self.entries.len();
        if n == 0 {
            return None;
        }
        let first: u64 = self.entries[0].0.index;
        if height < first {
            None
        } else if height - first < n as u64 {
            let offset: usize = (height - first) as usize;
            Some(self.entries[offset].0)
        } else {
            None
        }
    }
}

} // verus!
