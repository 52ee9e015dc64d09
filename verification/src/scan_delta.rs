//! Batching of scan events into running totals: a scan worker folds each event
//! into a pending delta and hands it over every `EVENT_BATCH_SIZE` counted
//! events; the window adds each delta to what it shows.
use vstd::prelude::*;

use crate::scanner::ScanEvent;

verus! {

/// How many counted events (items found, paths denied) make a batch.
pub const EVENT_BATCH_SIZE: usize = 256;

/// What a batch of scan events adds to the totals.
#[derive(Debug, Clone, Copy, PartialEq, Eq, Default, Structural)]
pub struct ScanDelta {
    pub items: usize,
    pub bytes: u64,
    pub permission_denied: usize,
}

impl ScanDelta {
    /// Whether the delta adds nothing.
    pub fn is_empty(&self) -> (r: bool)
        ensures
            r == (self.items == 0 && self.bytes == 0 && self.permission_denied == 0),
    {
        self.items == 0 && self.bytes == 0 && self.permission_denied == 0
    }
}

/// `a + b`, or `u64::MAX` where the sum does not fit.
pub open spec fn saturating_sum(a: u64, b: u64) -> u64 {
    if a + b > u64::MAX {
        u64::MAX
    } else {
        (a + b) as u64
    }
}

/// `a + b`, or `usize::MAX` where the sum does not fit.
pub open spec fn saturating_count(a: usize, b: usize) -> usize {
    if a + b > usize::MAX {
        usize::MAX
    } else {
        (a + b) as usize
    }
}

/// What one event adds to a pending delta: a found item counts once with its
/// size (saturating), a denied path counts once, other events add nothing.
pub open spec fn add_event(delta: ScanDelta, event: ScanEvent) -> ScanDelta {
    match event {
        ScanEvent::ItemFound { item } => ScanDelta {
            items: (delta.items + 1) as usize,
            bytes: saturating_sum(delta.bytes, item.bytes),
            permission_denied: delta.permission_denied,
        },
        ScanEvent::PermissionDenied { .. } => ScanDelta {
            permission_denied: (delta.permission_denied + 1) as usize,
            ..delta
        },
        _ => delta,
    }
}

/// Whether the event is one that a batch counts.
pub open spec fn is_counted(event: ScanEvent) -> bool {
    event is ItemFound || event is PermissionDenied
}

/// The pending delta of a scan worker and how many counted events it holds.
pub struct ScanBatcher {
    pending: ScanDelta,
    pending_events: usize,
}

impl ScanBatcher {
    /// The delta not yet handed over.
    pub closed spec fn pending(&self) -> ScanDelta {
        self.pending
    }

    /// How many counted events the pending delta holds.
    pub closed spec fn pending_events(&self) -> nat {
        self.pending_events as nat
    }

    /// A batch never holds a full batch, and each counted event added one count.
    #[verifier::type_invariant]
    spec fn batcher_invariant(self) -> bool {
        &&& self.pending_events < EVENT_BATCH_SIZE
        &&& self.pending.items + self.pending.permission_denied == self.pending_events
    }

    /// An empty batch.
    pub fn new() -> (b: Self)
        ensures
            b.pending() == ScanDelta::default_value(),
            b.pending_events() == 0,
    {
        ScanBatcher { pending: ScanDelta { items: 0, bytes: 0, permission_denied: 0 }, pending_events: 0 }
    }

    /// Folds one event into the pending delta. When the event completes a batch,
    /// the full delta is handed back and the batch starts again empty.
    pub fn fold(&mut self, event: &ScanEvent) -> (r: Option<ScanDelta>)
        ensures
            ({
                let added = add_event(old(self).pending(), *event);
                let count = if is_counted(*event) {
                    old(self).pending_events() + 1
                } else {
                    old(self).pending_events()
                };
                if count >= EVENT_BATCH_SIZE {
                    &&& r == Some(added)
                    &&& final(self).pending() == ScanDelta::default_value()
                    &&& final(self).pending_events() == 0
                } else {
                    &&& r is None
                    &&& final(self).pending() == added
                    &&& final(self).pending_events() == count
                }
            }),
    {
        proof {
            use_type_invariant(&*self);
        }
        let mut pending = self.pending;
        let mut events = self.pending_events;
        match event {
            ScanEvent::ItemFound { item } => {
                pending.items = pending.items + 1;
                pending.bytes = pending.bytes.saturating_add(item.bytes);
                events = events + 1;
            },
            ScanEvent::PermissionDenied { .. } => {
                pending.permission_denied = pending.permission_denied + 1;
                events = events + 1;
            },
            _ => {},
        }
        if events >= EVENT_BATCH_SIZE {
            *self = ScanBatcher {
                pending: ScanDelta { items: 0, bytes: 0, permission_denied: 0 },
                pending_events: 0,
            };
            Some(pending)
        } else {
            *self = ScanBatcher { pending, pending_events: events };
            None
        }
    }

    /// What is left when the scan ends: the pending delta, unless it adds nothing.
    pub fn finish(self) -> (r: Option<ScanDelta>)
        ensures
            r == (if self.pending() == ScanDelta::default_value() {
                None
            } else {
                Some(self.pending())
            }),
    {
        if self.pending.is_empty() {
            None
        } else {
            Some(self.pending)
        }
    }
}

impl ScanDelta {
    /// The delta that adds nothing.
    pub open spec fn default_value() -> ScanDelta {
        ScanDelta { items: 0, bytes: 0, permission_denied: 0 }
    }
}

/// The totals a scan window shows.
#[derive(Debug, Clone, Copy, PartialEq, Eq, Default, Structural)]
pub struct ScanTotals {
    pub items: usize,
    pub bytes: u64,
    pub permission_denied: usize,
}

impl ScanTotals {
    /// Adds a delta to the totals, each sum saturating.
    pub fn apply(&mut self, delta: &ScanDelta)
        ensures
            final(self).items == saturating_count(old(self).items, delta.items),
            final(self).bytes == saturating_sum(old(self).bytes, delta.bytes),
            final(self).permission_denied == saturating_count(
                old(self).permission_denied,
                delta.permission_denied,
            ),
    {
        self.items = self.items.saturating_add(delta.items);
        self.bytes = self.bytes.saturating_add(delta.bytes);
        self.permission_denied = self.permission_denied.saturating_add(delta.permission_denied);
    }
}

} // verus!
