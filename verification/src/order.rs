//! The two orders of the managed windows: the floating windows, which no
//! layout has placed yet, and the tiling order, which the layouts go by.

use vstd::prelude::*;
use crate::config::Window;

verus! {

/// Whether `position` is the place of the first `window` in `windows`.
pub open spec fn is_first_position(windows: Seq<Window>, window: Window, position: int) -> bool {
    &&& 0 <= position < windows.len()
    &&& windows[position] == window
    &&& forall|j: int| 0 <= j < position ==> windows[j] != window
}

/// The place of the first `window` in `windows`, if it is there.
pub open spec fn first_position(windows: Seq<Window>, window: Window) -> Option<int> {
    if windows.contains(window) {
        Some(choose|position: int| is_first_position(windows, window, position))
    } else {
        None
    }
}

/// `windows` without the first `window` in it, if there is one.
pub open spec fn without(windows: Seq<Window>, window: Window) -> Seq<Window> {
    match first_position(windows, window) {
        Some(position) => windows.remove(position),
        None => windows,
    }
}

/// `windows` with the entries at `i` and `j` exchanged.
pub open spec fn swapped(windows: Seq<Window>, i: int, j: int) -> Seq<Window> {
    windows.update(i, windows[j]).update(j, windows[i])
}

/// A window that is present has exactly one first place.
pub proof fn lemma_first_position(windows: Seq<Window>, window: Window, position: int)
    requires
        is_first_position(windows, window, position),
    ensures
        first_position(windows, window) == Some(position),
{
    let chosen = choose|p: int| is_first_position(windows, window, p);
    assert(is_first_position(windows, window, chosen));
    assert(chosen == position);
}

/// A window that is in a list has a first place in it, and `first_position`
/// gives that place.
pub proof fn lemma_first_position_found(windows: Seq<Window>, window: Window)
    requires
        windows.contains(window),
    ensures
        first_position(windows, window) matches Some(position) && is_first_position(
            windows,
            window,
            position,
        ),
    decreases windows.len(),
{
    let shorter = windows.drop_last();
    if shorter.contains(window) {
        lemma_first_position_found(shorter, window);
        let position = first_position(shorter, window).unwrap();
        assert(windows[position] == shorter[position]);
        assert forall|j: int| 0 <= j < position implies windows[j] != window by {
            assert(shorter[j] == windows[j]);
        }
        assert(is_first_position(windows, window, position));
        lemma_first_position(windows, window, position);
    } else {
        let last = windows.len() - 1;
        assert forall|j: int| 0 <= j < last implies windows[j] != window by {
            assert(shorter[j] == windows[j]);
        }
        assert(is_first_position(windows, window, last));
        lemma_first_position(windows, window, last);
    }
}

/// A window appended to a list that did not hold it is what `without` takes
/// away again.
pub proof fn lemma_push_without(windows: Seq<Window>, window: Window)
    requires
        !windows.contains(window),
    ensures
        without(windows.push(window), window) == windows,
        without(windows, window) == windows,
{
    let longer = windows.push(window);
    assert(is_first_position(longer, window, windows.len() as int));
    lemma_first_position(longer, window, windows.len() as int);
}

/// Whether no window is in both lists.
pub open spec fn disjoint(first: Seq<Window>, second: Seq<Window>) -> bool {
    forall|window: Window| !(first.contains(window) && second.contains(window))
}

/// A list with one more window holds what it held and that window; it is
/// free of repetitions if it was and did not hold the window.
pub proof fn lemma_pushed(windows: Seq<Window>, window: Window)
    ensures
        forall|other: Window|
            windows.push(window).contains(other) <==> (windows.contains(other) || other == window),
        windows.no_duplicates() && !windows.contains(window) ==> windows.push(
            window,
        ).no_duplicates(),
{
    let longer = windows.push(window);
    assert forall|other: Window| longer.contains(other) <==> (windows.contains(other) || other
        == window) by {
        if windows.contains(other) {
            let k = choose|k: int| 0 <= k < windows.len() && windows[k] == other;
            assert(longer[k] == other);
        }
        if other == window {
            assert(longer[windows.len() as int] == other);
        }
    }
}

/// A list free of repetitions, without the entry at `position`, is free of
/// repetitions and holds what it held but that entry.
pub proof fn lemma_removed(windows: Seq<Window>, position: int)
    requires
        windows.no_duplicates(),
        0 <= position < windows.len(),
    ensures
        windows.remove(position).no_duplicates(),
        forall|other: Window|
            windows.remove(position).contains(other) <==> (windows.contains(other) && other
                != windows[position]),
{
    let shorter = windows.remove(position);
    let place = |k: int|
        if k < position {
            k
        } else {
            k + 1
        };
    assert forall|k: int| 0 <= k < shorter.len() implies shorter[k] == windows[place(k)] by {}
    assert forall|other: Window| shorter.contains(other) <==> (windows.contains(other) && other
        != windows[position]) by {
        if shorter.contains(other) {
            let k = choose|k: int| 0 <= k < shorter.len() && shorter[k] == other;
            assert(windows[place(k)] == other);
        }
        if windows.contains(other) && other != windows[position] {
            let k = choose|k: int| 0 <= k < windows.len() && windows[k] == other;
            assert(shorter[if k < position { k } else { k - 1 }] == other);
        }
    }
}

/// Two lists free of repetitions that share no window make one such list.
pub proof fn lemma_joined(first: Seq<Window>, second: Seq<Window>)
    requires
        first.no_duplicates(),
        second.no_duplicates(),
        disjoint(first, second),
    ensures
        (first + second).no_duplicates(),
        forall|other: Window|
            (first + second).contains(other) <==> (first.contains(other) || second.contains(other)),
{
    let both = first + second;
    let n = first.len() as int;
    assert forall|i: int, j: int| 0 <= i < j < both.len() implies both[i] != both[j] by {
        if i < n && j >= n {
            assert(first.contains(first[i]));
            assert(second.contains(second[j - n]));
        }
    }
    assert forall|other: Window| both.contains(other) <==> (first.contains(other)
        || second.contains(other)) by {
        if first.contains(other) {
            let k = choose|k: int| 0 <= k < first.len() && first[k] == other;
            assert(both[k] == other);
        }
        if second.contains(other) {
            let k = choose|k: int| 0 <= k < second.len() && second[k] == other;
            assert(both[n + k] == other);
        }
        if both.contains(other) {
            let k = choose|k: int| 0 <= k < both.len() && both[k] == other;
            if k < n {
                assert(first[k] == other);
            } else {
                assert(second[k - n] == other);
            }
        }
    }
}

/// A list free of repetitions stays so, and holds the same windows, when
/// two of its entries change places.
pub proof fn lemma_swapped(windows: Seq<Window>, i: int, j: int)
    requires
        windows.no_duplicates(),
        0 <= i < windows.len(),
        0 <= j < windows.len(),
    ensures
        swapped(windows, i, j).no_duplicates(),
        forall|other: Window| swapped(windows, i, j).contains(other) <==> windows.contains(other),
{
    let after = swapped(windows, i, j);
    let place = |k: int|
        if k == i {
            j
        } else if k == j {
            i
        } else {
            k
        };
    assert forall|k: int| 0 <= k < after.len() implies after[k] == windows[place(k)] by {}
    assert forall|other: Window| after.contains(other) <==> windows.contains(other) by {
        if after.contains(other) {
            let k = choose|k: int| 0 <= k < after.len() && after[k] == other;
            assert(windows[place(k)] == other);
        }
        if windows.contains(other) {
            let k = choose|k: int| 0 <= k < windows.len() && windows[k] == other;
            assert(after[place(k)] == other);
        }
    }
}

/// Finds the first place of `window` in `windows`.
pub fn find_window(windows: &Vec<Window>, window: Window) -> (position: Option<usize>)
    ensures
        match position {
            Some(position) => first_position(windows@, window) == Some(position as int)
                && is_first_position(windows@, window, position as int),
            None => first_position(windows@, window).is_none() && !windows@.contains(window),
        },
{
    let mut i: usize = 0;
    while i < windows.len()
        invariant
            i <= windows.len(),
            forall|j: int| 0 <= j < i ==> windows@[j] != window,
        decreases windows.len() - i,
    {
        if windows[i] == window {
            proof {
                lemma_first_position(windows@, window, i as int);
            }
            return Some(i);
        }
        i += 1;
    }
    None
}

/// The floating windows and the tiling order.
pub struct WindowOrdering {
    tiling_win_stack: Vec<Window>,
    floating_win_stack: Vec<Window>,
}

impl WindowOrdering {
    /// The tiling order.
    pub closed spec fn tiling(&self) -> Seq<Window> {
        self.tiling_win_stack@
    }

    /// The floating windows, in the order in which they came.
    pub closed spec fn floating(&self) -> Seq<Window> {
        self.floating_win_stack@
    }

    /// Whether `window` is in one of the two orders.
    pub open spec fn contains(&self, window: Window) -> bool {
        self.floating().contains(window) || self.tiling().contains(window)
    }

    /// The invariant: no window occurs twice, in one order or across both.
    pub open spec fn wf(&self) -> bool {
        &&& self.floating().no_duplicates()
        &&& self.tiling().no_duplicates()
        &&& disjoint(self.floating(), self.tiling())
    }

    /// Two empty orders.
    pub fn new() -> (order: WindowOrdering)
        ensures
            order.wf(),
            order.tiling() == Seq::<Window>::empty(),
            order.floating() == Seq::<Window>::empty(),
    {
        WindowOrdering { tiling_win_stack: Vec::new(), floating_win_stack: Vec::new() }
    }

    /// The tiling order.
    pub fn tiling_windows(&self) -> (windows: &Vec<Window>)
        ensures
            windows@ == self.tiling(),
    {
        &self.tiling_win_stack
    }

    /// The floating windows.
    pub fn floating_windows(&self) -> (windows: &Vec<Window>)
        ensures
            windows@ == self.floating(),
    {
        &self.floating_win_stack
    }

    /// Adds a new window to the floating windows.
    pub fn push_floating(&mut self, window: Window)
        requires
            old(self).wf(),
            !old(self).contains(window),
        ensures
            final(self).wf(),
            final(self).floating() == old(self).floating().push(window),
            final(self).tiling() == old(self).tiling(),
    {
        proof {
            lemma_pushed(self.floating(), window);
        }
        self.floating_win_stack.push(window);
    }

    /// Takes `window` out of whichever order holds it. Returns whether it
    /// was in one.
    pub fn remove(&mut self, window: Window) -> (found: bool)
        requires
            old(self).wf(),
        ensures
            final(self).wf(),
            final(self).floating() == without(old(self).floating(), window),
            final(self).tiling() == without(old(self).tiling(), window),
            found == old(self).contains(window),
            !final(self).contains(window),
            forall|other: Window|
                other != window ==> final(self).contains(other) == old(self).contains(other),
    {
        let in_floating = find_window(&self.floating_win_stack, window);
        let in_tiling = find_window(&self.tiling_win_stack, window);
        match in_floating {
            Some(position) => {
                proof {
                    lemma_removed(self.floating(), position as int);
                }
                self.floating_win_stack.remove(position);
            },
            None => {},
        }
        match in_tiling {
            Some(position) => {
                proof {
                    lemma_removed(self.tiling(), position as int);
                }
                self.tiling_win_stack.remove(position);
            },
            None => {},
        }
        in_floating.is_some() || in_tiling.is_some()
    }

    /// Hands all floating windows to the tiling order: they follow the
    /// windows already in it, in the order in which they came.
    pub fn tile_all(&mut self)
        requires
            old(self).wf(),
        ensures
            final(self).wf(),
            final(self).tiling() == old(self).tiling() + old(self).floating(),
            final(self).floating() == Seq::<Window>::empty(),
            forall|window: Window| final(self).contains(window) == old(self).contains(window),
    {
        proof {
            lemma_joined(self.tiling(), self.floating());
        }
        self.tiling_win_stack.append(&mut self.floating_win_stack);
    }

    /// Exchanges two places of the tiling order.
    pub fn swap_tiling(&mut self, i: usize, j: usize)
        requires
            old(self).wf(),
            i < old(self).tiling().len(),
            j < old(self).tiling().len(),
        ensures
            final(self).wf(),
            final(self).tiling() == swapped(old(self).tiling(), i as int, j as int),
            final(self).floating() == old(self).floating(),
            forall|window: Window| final(self).contains(window) == old(self).contains(window),
    {
        proof {
            lemma_swapped(self.tiling(), i as int, j as int);
        }
        let first = self.tiling_win_stack[i];
        let second = self.tiling_win_stack[j];
        self.tiling_win_stack[i] = second;
        self.tiling_win_stack[j] = first;
    }
}

} // verus!
