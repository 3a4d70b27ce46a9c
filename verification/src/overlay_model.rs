//! The mathematical model of the overlay: its cache, its stack of
//! checkpoints, and the laws of checkpoint, revert and discard.

use crate::entry::AVMAccountEntry;
use vstd::prelude::*;

verus! {

/// The cache: the slot of each address that has one.
pub type CacheView = Map<Seq<u8>, AVMAccountEntry>;

/// What one checkpoint recorded: for each address that was changed while it
/// was the innermost one, the slot that the cache held before, `None` where
/// it held none.
pub type DeltaView = Map<Seq<u8>, Option<AVMAccountEntry>>;

/// What the overlay holds, as mathematics.
#[verifier::ext_equal]
pub struct OverlayView {
    pub cache: CacheView,
    /// The open checkpoints, the innermost last.
    pub checkpoints: Seq<DeltaView>,
}

/// One operation on the overlay.
pub enum Step {
    /// Install a slot for an address, over what the cache held for it.
    Install { address: Seq<u8>, entry: AVMAccountEntry },
    /// Open a checkpoint.
    Checkpoint,
    /// Close the innermost checkpoint and undo what was done since it was
    /// opened.
    Revert,
    /// Close the innermost checkpoint and keep what was done since it was
    /// opened.
    Discard,
}

/// The slot that the cache holds for `address`, `None` where it holds none.
pub open spec fn prior_of(cache: CacheView, address: Seq<u8>) -> Option<AVMAccountEntry> {
    if cache.contains_key(address) {
        Some(cache[address])
    } else {
        None
    }
}

/// The cache with every recorded address put back to what was recorded for
/// it.
pub open spec fn rolled_back(cache: CacheView, delta: DeltaView) -> CacheView {
    Map::new(
        |a: Seq<u8>|
            if delta.contains_key(a) {
                delta[a] is Some
            } else {
                cache.contains_key(a)
            },
        |a: Seq<u8>|
            if delta.contains_key(a) {
                delta[a].unwrap()
            } else {
                cache[a]
            },
    )
}

/// The records of a checkpoint and of the one that was opened inside it, as
/// one: what the outer one recorded stands, and what only the inner one
/// recorded is added.
pub open spec fn merged(outer: DeltaView, inner: DeltaView) -> DeltaView {
    inner.union_prefer_right(outer)
}

impl OverlayView {
    /// The overlay that holds nothing.
    pub open spec fn empty() -> OverlayView {
        OverlayView { cache: Map::empty(), checkpoints: Seq::empty() }
    }

    /// The overlay after a checkpoint was opened.
    pub open spec fn opened(self) -> OverlayView {
        OverlayView { checkpoints: self.checkpoints.push(Map::empty()), ..self }
    }

    /// The overlay after the innermost checkpoint took note of `address`:
    /// where it has no record for the address yet, it records what the
    /// cache holds for it. A later note of the same address changes
    /// nothing.
    pub open spec fn noted(self, address: Seq<u8>) -> OverlayView {
        if self.checkpoints.len() > 0 && !self.checkpoints.last().contains_key(address) {
            OverlayView {
                checkpoints: self.checkpoints.update(
                    self.checkpoints.len() - 1,
                    self.checkpoints.last().insert(address, prior_of(self.cache, address)),
                ),
                ..self
            }
        } else {
            self
        }
    }

    /// The overlay after `entry` was installed for `address`: the innermost
    /// checkpoint takes note of the address first.
    pub open spec fn installed(self, address: Seq<u8>, entry: AVMAccountEntry) -> OverlayView {
        OverlayView { cache: self.cache.insert(address, entry), ..self.noted(address) }
    }

    /// The overlay after the innermost checkpoint was reverted; unchanged
    /// where none is open.
    pub open spec fn reverted(self) -> OverlayView {
        if self.checkpoints.len() == 0 {
            self
        } else {
            OverlayView {
                cache: rolled_back(self.cache, self.checkpoints.last()),
                checkpoints: self.checkpoints.drop_last(),
            }
        }
    }

    /// The overlay after the innermost checkpoint was discarded: the cache
    /// stays, and the records of the checkpoint pass to the one around it,
    /// where there is one; unchanged where none is open.
    pub open spec fn discarded(self) -> OverlayView {
        if self.checkpoints.len() == 0 {
            self
        } else if self.checkpoints.len() == 1 {
            OverlayView { checkpoints: self.checkpoints.drop_last(), ..self }
        } else {
            let outer = self.checkpoints[self.checkpoints.len() - 2];
            OverlayView {
                checkpoints: self.checkpoints.drop_last().drop_last().push(
                    merged(outer, self.checkpoints.last()),
                ),
                ..self
            }
        }
    }

    /// The overlay after one operation.
    pub open spec fn step(self, step: Step) -> OverlayView {
        match step {
            Step::Install { address, entry } => self.installed(address, entry),
            Step::Checkpoint => self.opened(),
            Step::Revert => self.reverted(),
            Step::Discard => self.discarded(),
        }
    }

    /// The overlay after the operations, made in their order.
    pub open spec fn run(self, steps: Seq<Step>) -> OverlayView
        decreases steps.len(),
    {
        if steps.len() == 0 {
            self
        } else {
            self.run(steps.drop_last()).step(steps.last())
        }
    }

    /// The overlay after its `n` innermost checkpoints were reverted.
    pub open spec fn unwound(self, n: nat) -> OverlayView
        decreases n,
    {
        if n == 0 {
            self
        } else {
            self.reverted().unwound((n - 1) as nat)
        }
    }
}

/// The number of checkpoints that the operations open and leave open, less
/// the number that they close without having opened them.
pub open spec fn depth(steps: Seq<Step>) -> int
    decreases steps.len(),
{
    if steps.len() == 0 {
        0
    } else {
        depth(steps.drop_last()) + match steps.last() {
            Step::Install { .. } => 0int,
            Step::Checkpoint => 1int,
            Step::Revert => -1int,
            Step::Discard => -1int,
        }
    }
}

/// The operations close no checkpoint but those that they opened.
pub open spec fn nested(steps: Seq<Step>) -> bool
    decreases steps.len(),
{
    if steps.len() == 0 {
        true
    } else {
        nested(steps.drop_last()) && depth(steps) >= 0
    }
}

/// The operations close every checkpoint that they open, and no other.
pub open spec fn balanced(steps: Seq<Step>) -> bool {
    nested(steps) && depth(steps) == 0
}

/// A checkpoint that is reverted at once leaves the overlay as it was.
pub proof fn lemma_open_revert(s: OverlayView)
    ensures
        s.opened().reverted() == s,
{
    let t = s.opened().reverted();
    assert(t.cache =~= s.cache);
    assert(t.checkpoints =~= s.checkpoints);
}

/// An installation inside a checkpoint does not change what a revert of
/// that checkpoint yields.
pub proof fn lemma_install_revert(s: OverlayView, address: Seq<u8>, entry: AVMAccountEntry)
    requires
        s.checkpoints.len() > 0,
    ensures
        s.installed(address, entry).checkpoints.len() == s.checkpoints.len(),
        s.installed(address, entry).reverted() == s.reverted(),
{
    let t = s.installed(address, entry).reverted();
    assert(t.cache =~= s.reverted().cache);
    assert(t.checkpoints =~= s.reverted().checkpoints);
}

/// To revert after a discard is to revert twice.
pub proof fn lemma_discard_revert(s: OverlayView)
    requires
        s.checkpoints.len() >= 2,
    ensures
        s.discarded().reverted() == s.reverted().reverted(),
{
    let t = s.discarded().reverted();
    let u = s.reverted().reverted();
    assert(t.cache =~= u.cache);
    assert(t.checkpoints =~= u.checkpoints);
}

/// Operations that close no checkpoint but their own leave the checkpoints
/// around them as they were, and once their own are reverted, what a revert
/// of the innermost checkpoint around them yields is what it would have
/// yielded before them.
pub proof fn lemma_run_unwinds(s: OverlayView, steps: Seq<Step>)
    requires
        s.checkpoints.len() > 0,
        nested(steps),
    ensures
        depth(steps) >= 0,
        s.run(steps).checkpoints.len() == s.checkpoints.len() + depth(steps),
        s.run(steps).unwound((depth(steps) + 1) as nat) == s.reverted(),
    decreases steps.len(),
{
    if steps.len() > 0 {
        let before = steps.drop_last();
        lemma_run_unwinds(s, before);
        let w = s.run(before);
        let t = s.run(steps);
        let d = depth(before);
        assert(w.unwound((d + 1) as nat) == w.reverted().unwound(d as nat));
        match steps.last() {
            Step::Install { address, entry } => {
                lemma_install_revert(w, address, entry);
                assert(t.unwound((d + 1) as nat) == t.reverted().unwound(d as nat));
            },
            Step::Checkpoint => {
                lemma_open_revert(w);
                assert(t.unwound((d + 2) as nat) == t.reverted().unwound((d + 1) as nat));
            },
            Step::Revert => {
                assert(t == w.reverted());
            },
            Step::Discard => {
                lemma_discard_revert(w);
                assert(t.unwound(d as nat) == t.reverted().unwound((d - 1) as nat));
                assert(w.reverted().unwound(d as nat) == w.reverted().reverted().unwound(
                    (d - 1) as nat,
                ));
            },
        }
    } else {
        assert(s.unwound(1) == s.reverted().unwound(0));
    }
}

/// The checkpoint inverse law: open a checkpoint, make any operations that
/// close every checkpoint that they open and no other, revert; the overlay
/// is what it was before the checkpoint, cache and checkpoints alike.
pub proof fn lemma_checkpoint_revert_inverse(s: OverlayView, steps: Seq<Step>)
    requires
        balanced(steps),
    ensures
        s.opened().run(steps).reverted() == s,
{
    lemma_run_unwinds(s.opened(), steps);
    lemma_open_revert(s);
    let t = s.opened().run(steps);
    assert(t.unwound(1) == t.reverted().unwound(0));
}

/// Installations alone open and close no checkpoint.
pub proof fn lemma_installs_balanced(steps: Seq<Step>)
    requires
        forall|i: int| 0 <= i < steps.len() ==> steps[i] is Install,
    ensures
        balanced(steps),
    decreases steps.len(),
{
    if steps.len() > 0 {
        lemma_installs_balanced(steps.drop_last());
    }
}

/// The checkpoint inverse law for installations: open a checkpoint,
/// install any slots for any addresses, revert; the overlay is what it was
/// before the checkpoint, for every address that was touched and every
/// other.
pub proof fn lemma_installs_then_revert(s: OverlayView, steps: Seq<Step>)
    requires
        forall|i: int| 0 <= i < steps.len() ==> steps[i] is Install,
    ensures
        s.opened().run(steps).reverted() == s,
{
    lemma_installs_balanced(steps);
    lemma_checkpoint_revert_inverse(s, steps);
}

/// The nested checkpoint law: open a checkpoint, open a second one inside
/// it, install a slot, discard the second, install another slot, revert the
/// first; the overlay is what it was before the first checkpoint, for both
/// addresses and every other.
pub proof fn lemma_nested_checkpoints(
    s: OverlayView,
    first: Seq<u8>,
    first_entry: AVMAccountEntry,
    second: Seq<u8>,
    second_entry: AVMAccountEntry,
)
    ensures
        s.opened().opened().installed(first, first_entry).discarded().installed(
            second,
            second_entry,
        ).reverted() == s,
{
    let a = s.opened();
    let b = a.opened();
    let c = b.installed(first, first_entry);
    lemma_install_revert(b, first, first_entry);
    lemma_open_revert(a);
    lemma_discard_revert(c);
    let d = c.discarded();
    lemma_install_revert(d, second, second_entry);
    lemma_open_revert(s);
}

} // verus!
