//! Hot-swap runtime: the per-process version state of a running application.
//!
//! The state holds an applied-version counter, a pending-version counter and
//! three library slots (`current`, `next`, `previous`). Delivery of a new
//! library only raises `pending_version` and fills `next`; adoption is the
//! single operation that raises `applied_version` and rotates the slots, so
//! the host keeps full control over when executing code is swapped.

use vstd::prelude::*;

verus! {

/// Version state of one running application instance. Libraries are referred
/// to by the opaque identifiers handed out by the library registry.
#[derive(Clone, Debug)]
pub struct HotSwapState {
    pub applied_version: u32,
    pub pending_version: u32,
    pub current: Option<u64>,
    pub next: Option<u64>,
    pub previous: Option<u64>,
}

/// Whether a delivered library version has not yet been adopted.
pub open spec fn spec_update_ready(s: HotSwapState) -> bool {
    s.pending_version > s.applied_version
}

/// The state after one adoption step, and whether the step performed a swap.
pub open spec fn spec_adopt(s: HotSwapState) -> (HotSwapState, bool) {
    if s.applied_version < s.pending_version {
        (
            HotSwapState {
                applied_version: s.pending_version,
                pending_version: s.pending_version,
                previous: s.current,
                current: s.next,
                next: None,
            },
            true,
        )
    } else {
        (s, false)
    }
}

impl HotSwapState {
    /// A fresh runtime: nothing delivered, nothing adopted, all slots empty.
    pub fn new() -> (r: HotSwapState)
        ensures
            r.applied_version == 0,
            r.pending_version == 0,
            r.current is None,
            r.next is None,
            r.previous is None,
    {
        HotSwapState {
            applied_version: 0,
            pending_version: 0,
            current: None,
            next: None,
            previous: None,
        }
    }

    /// A runtime that starts out already executing an initial library, as a
    /// subscriber does after loading the first delivered build.
    pub fn with_initial(version: u32, library: u64) -> (r: HotSwapState)
        ensures
            r.applied_version == version,
            r.pending_version == 0,
            r.current == Some(library),
            r.next is None,
            r.previous is None,
    {
        HotSwapState {
            applied_version: version,
            pending_version: 0,
            current: Some(library),
            next: None,
            previous: None,
        }
    }

    /// The last adopted version.
    pub fn last_update_version(&self) -> (r: u32)
        ensures
            r == self.applied_version,
    {
        self.applied_version
    }

    /// True exactly when a delivered version is newer than the adopted one.
    pub fn update_ready(&self) -> (r: bool)
        ensures
            r == spec_update_ready(*self),
    {
        self.pending_version > self.applied_version
    }

    /// A new library arrived over the update protocol: store it into `next`
    /// and advance `pending_version`. The pending counter never decreases,
    /// and the applied version and the executing slots are untouched, so
    /// delivery can race ahead of adoption. Returns whether the delivery
    /// advanced the pending version (the signal handed to the host's
    /// update callback).
    pub fn deliver_update(&mut self, version: u32, library: u64) -> (advanced: bool)
        ensures
            advanced == (version > old(self).pending_version),
            final(self).pending_version == if version > old(self).pending_version {
                version
            } else {
                old(self).pending_version
            },
            final(self).pending_version >= old(self).pending_version,
            final(self).next == Some(library),
            final(self).applied_version == old(self).applied_version,
            final(self).current == old(self).current,
            final(self).previous == old(self).previous,
    {
        let advanced = version > self.pending_version;
        if advanced {
            self.pending_version = version;
        }
        self.next = Some(library);
        advanced
    }

    /// Adoption: atomically raise `applied_version` to `pending_version` if
    /// and only if it is currently behind; on a raise, rotate the slots
    /// (`previous` takes `current`, `current` takes `next`, `next` is left
    /// empty) and return `true`; otherwise change nothing and return
    /// `false`. The applied version never decreases.
    pub fn update(&mut self) -> (swapped: bool)
        ensures
            (*final(self), swapped) == spec_adopt(*old(self)),
            swapped == spec_update_ready(*old(self)),
            final(self).applied_version >= old(self).applied_version,
    {
        if self.applied_version < self.pending_version {
            self.applied_version = self.pending_version;
            self.previous = self.current.take();
            self.current = self.next.take();
            true
        } else {
            false
        }
    }
}

/// Adoption is idempotent per version: from a state with an update ready,
/// the first adoption returns `true`; a second adoption with no new pending
/// version in between returns `false` and leaves the state, in particular
/// the `current` slot, unchanged.
pub proof fn lemma_adoption_idempotent(s: HotSwapState)
    requires
        spec_update_ready(s),
    ensures
        spec_adopt(s).1,
        !spec_adopt(spec_adopt(s).0).1,
        spec_adopt(spec_adopt(s).0).0 == spec_adopt(s).0,
        spec_adopt(spec_adopt(s).0).0.current == spec_adopt(s).0.current,
{
}

/// The applied version only ever moves forward under adoption, whatever the
/// state.
pub proof fn lemma_applied_version_monotonic(s: HotSwapState)
    ensures
        spec_adopt(s).0.applied_version >= s.applied_version,
{
}

} // verus!
