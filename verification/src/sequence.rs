//! The filter for notifications that the manager's own requests provoke.
//!
//! Sequence numbers are 16 bits wide and wrap around, so "older" is decided
//! on the circle: of two numbers, the one less than half a turn behind the
//! other is the older one.

use vstd::prelude::*;

verus! {

/// How far `entry` is ahead of `sequence` on the circle of 16-bit numbers.
pub open spec fn ahead_by(entry: u16, sequence: u16) -> int {
    if entry >= sequence {
        entry - sequence
    } else {
        entry - sequence + 0x1_0000
    }
}

/// Whether `entry` was issued before `sequence`: it is more than half a turn
/// ahead, which on the circle means less than half a turn behind.
pub open spec fn is_older(entry: u16, sequence: u16) -> bool {
    ahead_by(entry, sequence) > u16::MAX / 2
}

/// Whether the numbers of `pending` never decrease.
pub open spec fn ascending(pending: Seq<u16>) -> bool {
    forall|i: int, j: int| 0 <= i <= j < pending.len() ==> pending[i] <= pending[j]
}

/// `pending` without the entries that are older than `sequence`.
pub open spec fn drop_older(pending: Seq<u16>, sequence: u16) -> Seq<u16> {
    pending.filter(|entry: u16| !is_older(entry, sequence))
}

/// Whether `position` is the place of the first `sequence` in `pending`.
pub open spec fn is_first_position(pending: Seq<u16>, sequence: u16, position: int) -> bool {
    &&& 0 <= position < pending.len()
    &&& pending[position] == sequence
    &&& forall|j: int| 0 <= j < position ==> pending[j] != sequence
}

/// `pending` without the first entry equal to `sequence`, if there is one.
pub open spec fn without_first(pending: Seq<u16>, sequence: u16) -> Seq<u16> {
    if pending.contains(sequence) {
        pending.remove(choose|position: int| is_first_position(pending, sequence, position))
    } else {
        pending
    }
}

/// `pending` with `sequence` put in its place in the ascending order, after
/// the entries equal to it.
pub open spec fn with_remembered(pending: Seq<u16>, sequence: u16) -> Seq<u16>
    decreases pending.len(),
{
    if pending.len() == 0 || pending.last() <= sequence {
        pending.push(sequence)
    } else {
        with_remembered(pending.drop_last(), sequence).push(pending.last())
    }
}

/// In an ascending list the place of a new number is behind the last entry
/// that is not larger.
proof fn lemma_with_remembered(pending: Seq<u16>, sequence: u16, position: int)
    requires
        ascending(pending),
        0 <= position <= pending.len(),
        forall|j: int| 0 <= j < position ==> pending[j] <= sequence,
        position < pending.len() ==> pending[position] > sequence,
    ensures
        with_remembered(pending, sequence) == pending.insert(position, sequence),
    decreases pending.len(),
{
    if position < pending.len() {
        lemma_with_remembered(pending.drop_last(), sequence, position);
    }
}

/// What stays remembered after an event with the given sequence number was
/// seen: an event without a number changes nothing; one with a number drops
/// the older entries and uses up one entry equal to it.
pub open spec fn pending_after(pending: Seq<u16>, sequence: Option<u16>) -> Seq<u16> {
    match sequence {
        None => pending,
        Some(number) => without_first(drop_older(pending, number), number),
    }
}

/// Whether an event with the given sequence number is to be processed: it is
/// unless its number is remembered.
pub open spec fn passes(pending: Seq<u16>, sequence: Option<u16>) -> bool {
    match sequence {
        None => true,
        Some(number) => !drop_older(pending, number).contains(number),
    }
}

/// Tests whether `entry` was issued before `sequence`.
pub fn older_than(entry: u16, sequence: u16) -> (older: bool)
    ensures
        older == is_older(entry, sequence),
{
    entry.wrapping_sub(sequence) > u16::MAX / 2
}

/// An entry is dropped as older only if it is present, and a number is never
/// older than itself: so a number is among the entries kept for it exactly
/// when it is remembered at all.
pub proof fn lemma_drop_older_keeps_match(pending: Seq<u16>, sequence: u16)
    ensures
        drop_older(pending, sequence).contains(sequence) == pending.contains(sequence),
{
    let keep = |entry: u16| !is_older(entry, sequence);
    if pending.contains(sequence) {
        let i = choose|i: int| 0 <= i < pending.len() && pending[i] == sequence;
        pending.lemma_filter_contains(keep, i);
    }
    if drop_older(pending, sequence).contains(sequence) {
        pending.lemma_filter_contains_rev(keep, sequence);
    }
}

/// The sequence numbers of requests whose notifications are to be skipped,
/// kept in ascending order.
pub struct SequenceFilter {
    sequence_ignore: Vec<u16>,
}

impl View for SequenceFilter {
    type V = Seq<u16>;

    closed spec fn view(&self) -> Seq<u16> {
        self.sequence_ignore@
    }
}

impl SequenceFilter {
    /// The filter's invariant: the remembered numbers are in ascending order.
    pub open spec fn wf(&self) -> bool {
        ascending(self@)
    }

    /// A filter that remembers nothing.
    pub fn new() -> (filter: SequenceFilter)
        ensures
            filter.wf(),
            filter@ == Seq::<u16>::empty(),
    {
        SequenceFilter { sequence_ignore: Vec::new() }
    }

    /// The number of remembered sequence numbers.
    pub fn len(&self) -> (count: usize)
        ensures
            count == self@.len(),
    {
        self.sequence_ignore.len()
    }

    /// Whether `sequence` is remembered.
    pub fn is_remembered(&self, sequence: u16) -> (found: bool)
        ensures
            found == self@.contains(sequence),
    {
        let mut i: usize = 0;
        while i < self.sequence_ignore.len()
            invariant
                i <= self.sequence_ignore.len(),
                forall|j: int| 0 <= j < i ==> self.sequence_ignore@[j] != sequence,
            decreases self.sequence_ignore.len() - i,
        {
            if self.sequence_ignore[i] == sequence {
                return true;
            }
            i += 1;
        }
        false
    }

    /// Remembers `sequence`: the next event that carries it will be skipped.
    pub fn remember(&mut self, sequence: u16)
        requires
            old(self).wf(),
        ensures
            final(self).wf(),
            final(self)@ == with_remembered(old(self)@, sequence),
            final(self)@.to_multiset() == old(self)@.to_multiset().insert(sequence),
    {
        let mut position: usize = 0;
        while position < self.sequence_ignore.len() && self.sequence_ignore[position] <= sequence
            invariant
                position <= self.sequence_ignore.len(),
                forall|j: int| 0 <= j < position ==> self.sequence_ignore@[j] <= sequence,
            decreases self.sequence_ignore.len() - position,
        {
            position += 1;
        }
        proof {
            vstd::seq_lib::to_multiset_insert(self.sequence_ignore@, position as int, sequence);
            lemma_with_remembered(self.sequence_ignore@, sequence, position as int);
        }
        self.sequence_ignore.insert(position, sequence);
    }

    /// Decides whether an event with the given sequence number is to be
    /// processed. Entries older than the number are forgotten; if the number
    /// itself is remembered, one such entry is used up and the event is to
    /// be skipped. An event without a sequence number is always processed.
    pub fn should_process(&mut self, sequence: Option<u16>) -> (process: bool)
        requires
            old(self).wf(),
        ensures
            final(self).wf(),
            final(self)@ == pending_after(old(self)@, sequence),
            process == passes(old(self)@, sequence),
            process == match sequence {
                None => true,
                Some(number) => !old(self)@.contains(number),
            },
    {
        let number = match sequence {
            Some(number) => number,
            None => {
                return true;
            },
        };
        let ghost keep = |entry: u16| !is_older(entry, number);
        let mut kept: Vec<u16> = Vec::new();
        let mut i: usize = 0;
        let n: usize = self.sequence_ignore.len();
        assert(self.sequence_ignore@.take(0).filter(keep) =~= Seq::<u16>::empty()) by {
            reveal(Seq::filter);
        }
        while i < n
            invariant
                i <= n,
                n == self.sequence_ignore.len(),
                self.sequence_ignore@ == old(self)@,
                ascending(old(self)@),
                keep == (|entry: u16| !is_older(entry, number)),
                kept@ == old(self)@.take(i as int).filter(keep),
                ascending(kept@),
                forall|k: int, j: int|
                    0 <= k < kept.len() && i <= j < n ==> kept@[k] <= old(self)@[j],
            decreases n - i,
        {
            let entry = self.sequence_ignore[i];
            proof {
                let upto = old(self)@.take(i + 1);
                assert(upto.drop_last() =~= old(self)@.take(i as int));
                reveal_with_fuel(Seq::filter, 2);
            }
            if !older_than(entry, number) {
                kept.push(entry);
            }
            i += 1;
        }
        assert(old(self)@.take(n as int) =~= old(self)@);
        let ghost survivors = kept@;
        let mut position: usize = 0;
        let mut found = false;
        while position < kept.len()
            invariant_except_break
                !found,
                forall|j: int| 0 <= j < position ==> kept@[j] != number,
            invariant
                position <= kept.len(),
                kept@ == survivors,
            ensures
                kept@ == survivors,
                found ==> is_first_position(survivors, number, position as int),
                !found ==> !survivors.contains(number),
            decreases kept.len() - position,
        {
            if kept[position] == number {
                found = true;
                break ;
            }
            position += 1;
        }
        if found {
            kept.remove(position);
        }
        self.sequence_ignore = kept;
        proof {
            lemma_drop_older_keeps_match(old(self)@, number);
        }
        !found
    }
}

} // verus!
