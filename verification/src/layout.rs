//! The tiling layouts: each assigns a rectangle of the screen, below the
//! status bar, to every window of an ordered list.

use vstd::prelude::*;
use crate::config::{Window, TOP_BAR_HEIGHT};
use crate::geometry::Rectangle;
use crate::tiling::{lemma_fibonacci_keeps_windows, lemma_tree_keeps_windows};

verus! {

/// Whether a screen rectangle can be laid out: it is at least as high as the
/// status bar and all its pixels have 16-bit signed coordinates.
pub open spec fn can_lay_out(screen: Rectangle) -> bool {
    &&& screen.height >= TOP_BAR_HEIGHT
    &&& screen.y + TOP_BAR_HEIGHT <= i16::MAX
    &&& screen.addressable()
}

/// The part of the screen that the windows share: the screen without the
/// strip of the status bar at its top.
pub open spec fn usable_area(screen: Rectangle) -> Rectangle {
    Rectangle {
        x: screen.x,
        y: (screen.y + TOP_BAR_HEIGHT) as i16,
        width: screen.width,
        height: (screen.height - TOP_BAR_HEIGHT) as u16,
    }
}

/// The windows of an arrangement, in its order.
pub open spec fn placed_windows(placed: Seq<(Window, Rectangle)>) -> Seq<Window> {
    Seq::new(placed.len(), |j: int| placed[j].0)
}

/// The rectangles of an arrangement, in its order.
pub open spec fn placed_rectangles(placed: Seq<(Window, Rectangle)>) -> Seq<Rectangle> {
    Seq::new(placed.len(), |j: int| placed[j].1)
}

/// Computes the usable area of a screen.
pub fn reserve_top_bar(screen: Rectangle) -> (area: Rectangle)
    requires
        can_lay_out(screen),
    ensures
        area == usable_area(screen),
        area.addressable(),
{
    let bar: i16 = TOP_BAR_HEIGHT as i16;
    Rectangle {
        x: screen.x,
        y: screen.y + bar,
        width: screen.width,
        height: screen.height - TOP_BAR_HEIGHT,
    }
}

/// Tests whether a screen rectangle can be laid out.
pub fn fits_layout(screen: Rectangle) -> (fits: bool)
    ensures
        fits == can_lay_out(screen),
{
    let limit: i32 = i16::MAX as i32;
    let bar: i32 = TOP_BAR_HEIGHT as i32;
    screen.height >= TOP_BAR_HEIGHT && screen.y as i32 + bar <= limit && screen.x as i32
        + screen.width as i32 <= limit + 1 && screen.y as i32 + screen.height as i32 <= limit + 1
}

/// A way to arrange windows on a screen.
pub trait WindowLayout: Sized {
    /// The geometry that the layout gives to each window of `windows`.
    spec fn arrangement(&self, screen: Rectangle, windows: Seq<Window>) -> Seq<(Window, Rectangle)>;

    /// Computes the geometry of every window of `windows` on `screen`.
    fn layout(self, screen: Rectangle, windows: &Vec<Window>) -> (placed: Vec<(Window, Rectangle)>)
        requires
            can_lay_out(screen),
        ensures
            placed@ == self.arrangement(screen, windows@),
            placed@.len() == windows@.len(),
            placed_windows(placed@).to_multiset() == windows@.to_multiset(),
    ;
}

/// What is left of `area` for the windows still to be placed after `splits`
/// splits of the spiral. The first split is along the width, and the axis
/// alternates from then on.
pub open spec fn spiral_rest(area: Rectangle, splits: nat) -> Rectangle
    decreases splits,
{
    if splits == 0 {
        area
    } else {
        spiral_rest(area, (splits - 1) as nat).second_half(splits % 2 == 1)
    }
}

/// The rectangle that split number `split` of the spiral hands out, counting
/// from one.
pub open spec fn spiral_piece(area: Rectangle, split: nat) -> Rectangle {
    spiral_rest(area, (split - 1) as nat).first_half(split % 2 == 1)
}

/// The spiral arrangement: the last window takes the left half of the usable
/// area, the one before it the upper half of what is left, and so on with
/// alternating axes; the first window takes what remains after the last split.
pub open spec fn fibonacci_arrangement(screen: Rectangle, windows: Seq<Window>) -> Seq<
    (Window, Rectangle),
> {
    let n = windows.len() as int;
    Seq::new(
        windows.len(),
        |j: int|
            if j < n - 1 {
                (windows[n - 1 - j], spiral_piece(usable_area(screen), (j + 1) as nat))
            } else {
                (windows[0], spiral_rest(usable_area(screen), (n - 1) as nat))
            },
    )
}

/// The spiral layout.
pub struct FibonacciLayout;

impl WindowLayout for FibonacciLayout {
    open spec fn arrangement(&self, screen: Rectangle, windows: Seq<Window>) -> Seq<
        (Window, Rectangle),
    > {
        fibonacci_arrangement(screen, windows)
    }

    fn layout(self, screen: Rectangle, windows: &Vec<Window>) -> (placed: Vec<(Window, Rectangle)>)
    {
        let n: usize = windows.len();
        let mut result: Vec<(Window, Rectangle)> = Vec::with_capacity(n);
        if n > 0 {
            let ghost area = usable_area(screen);
            let mut rest = reserve_top_bar(screen);
            let mut i: usize = 1;
            while i < n
                invariant
                    1 <= i <= n,
                    n == windows.len(),
                    area == usable_area(screen),
                    result.len() == i - 1,
                    rest == spiral_rest(area, (i - 1) as nat),
                    rest.addressable(),
                    forall|j: int|
                        0 <= j < i - 1 ==> #[trigger] result[j] == (
                            windows[n - 1 - j],
                            spiral_piece(area, (j + 1) as nat),
                        ),
                decreases n - i,
            {
                let (piece, kept) = rest.split(i % 2 == 1);
                result.push((windows[n - i], piece));
                rest = kept;
                i += 1;
            }
            result.push((windows[0], rest));
        }
        proof {
            lemma_fibonacci_keeps_windows(screen, windows@);
        }
        result
    }
}

/// The rectangle of node `node` of the tree of splits, and whether its next
/// split is along the width. Node 0 is the usable area; the halves of node
/// `k` are the nodes `2k + 1` and `2k + 2`, and each split turns the axis.
pub open spec fn tree_node(area: Rectangle, node: nat) -> (Rectangle, bool)
    decreases node,
{
    if node == 0 {
        (area, true)
    } else {
        let parent = tree_node(area, ((node - 1) / 2) as nat);
        if node % 2 == 1 {
            (parent.0.first_half(parent.1), !parent.1)
        } else {
            (parent.0.second_half(parent.1), !parent.1)
        }
    }
}

/// The position, in the list of windows, of the window that holds node
/// `node`: a first half stays with the window of the split node, the second
/// half of node `k` goes to window `k + 1`.
pub open spec fn tree_owner(node: nat) -> nat
    decreases node,
{
    if node == 0 {
        0
    } else if node % 2 == 1 {
        tree_owner(((node - 1) / 2) as nat)
    } else {
        node / 2
    }
}

/// The tree arrangement of `n` windows: the nodes `0` to `n - 2` are split in
/// turn, and the `n` nodes from `n - 1` on are the rectangles of the windows.
pub open spec fn tree_arrangement(screen: Rectangle, windows: Seq<Window>) -> Seq<
    (Window, Rectangle),
> {
    let n = windows.len() as int;
    Seq::new(
        windows.len(),
        |j: int|
            (
                windows[tree_owner((n - 1 + j) as nat) as int],
                tree_node(usable_area(screen), (n - 1 + j) as nat).0,
            ),
    )
}

/// The balanced layout.
pub struct TreeLayout;

impl WindowLayout for TreeLayout {
    open spec fn arrangement(&self, screen: Rectangle, windows: Seq<Window>) -> Seq<
        (Window, Rectangle),
    > {
        tree_arrangement(screen, windows)
    }

    fn layout(self, screen: Rectangle, windows: &Vec<Window>) -> (placed: Vec<(Window, Rectangle)>)
    {
        let n: usize = windows.len();
        let mut result: Vec<(Window, Rectangle)> = Vec::with_capacity(n);
        if n > 0 {
            let ghost area = usable_area(screen);
            let mut nr_leafs: usize = 0;
            let mut leafs: Vec<(Window, Rectangle, bool)> = Vec::new();
            leafs.push((windows[0], reserve_top_bar(screen), true));
            while nr_leafs < n - 1
                invariant
                    n == windows.len(),
                    n > 0,
                    nr_leafs <= n - 1,
                    area == usable_area(screen),
                    leafs.len() == 2 * nr_leafs + 1,
                    forall|m: int|
                        0 <= m < leafs.len() ==> {
                            &&& (#[trigger] leafs[m]).0 == windows[tree_owner(m as nat) as int]
                            &&& leafs[m].1 == tree_node(area, m as nat).0
                            &&& leafs[m].2 == tree_node(area, m as nat).1
                            &&& leafs[m].1.addressable()
                        },
                decreases n - 1 - nr_leafs,
            {
                let root = leafs[nr_leafs];
                let (first, second) = root.1.split(root.2);
                leafs.push((root.0, first, !root.2));
                leafs.push((windows[nr_leafs + 1], second, !root.2));
                nr_leafs += 1;
            }
            let mut i: usize = nr_leafs;
            while i < leafs.len()
                invariant
                    n == windows.len(),
                    n > 0,
                    nr_leafs == n - 1,
                    leafs.len() == 2 * nr_leafs + 1,
                    nr_leafs <= i <= leafs.len(),
                    result.len() == i - nr_leafs,
                    forall|j: int|
                        0 <= j < result.len() ==> #[trigger] result[j] == (
                            leafs[nr_leafs + j].0,
                            leafs[nr_leafs + j].1,
                        ),
                decreases leafs.len() - i,
            {
                result.push((leafs[i].0, leafs[i].1));
                i += 1;
            }
        }
        proof {
            lemma_tree_keeps_windows(screen, windows@);
        }
        result
    }
}

/// The layouts, as a value that can be stored and chosen at run time.
#[derive(Clone, Copy, Debug, PartialEq, Eq, Structural)]
pub enum LayoutKind {
    Fibonacci,
    Tree,
}

/// The arrangement that the layout of the given kind gives.
pub open spec fn arrangement_of(kind: LayoutKind, screen: Rectangle, windows: Seq<Window>) -> Seq<
    (Window, Rectangle),
> {
    match kind {
        LayoutKind::Fibonacci => fibonacci_arrangement(screen, windows),
        LayoutKind::Tree => tree_arrangement(screen, windows),
    }
}

impl WindowLayout for LayoutKind {
    open spec fn arrangement(&self, screen: Rectangle, windows: Seq<Window>) -> Seq<
        (Window, Rectangle),
    > {
        arrangement_of(*self, screen, windows)
    }

    fn layout(self, screen: Rectangle, windows: &Vec<Window>) -> (placed: Vec<(Window, Rectangle)>)
    {
        match self {
            LayoutKind::Fibonacci => FibonacciLayout.layout(screen, windows),
            LayoutKind::Tree => TreeLayout.layout(screen, windows),
        }
    }
}

} // verus!
