//! What the layouts guarantee: every window is placed exactly once, and the
//! rectangles handed out never overlap, stay inside the usable area and,
//! where no split loses a pixel, cover it.

use vstd::prelude::*;
use vstd::seq_lib::*;
use crate::config::{Window, TOP_BAR_HEIGHT};
use crate::geometry::{lemma_split_partitions, Rectangle};
use crate::layout::{
    can_lay_out, fibonacci_arrangement, placed_rectangles, placed_windows, spiral_piece,
    spiral_rest, tree_arrangement, tree_node, tree_owner, usable_area, WindowLayout,
};

verus! {

/// Every rectangle of `parts` lies inside `whole`, and no pixel lies in two of
/// them.
pub open spec fn packed(parts: Seq<Rectangle>, whole: Rectangle) -> bool {
    &&& forall|k: int, px: int, py: int|
        0 <= k < parts.len() && #[trigger] parts[k].contains(px, py) ==> whole.contains(px, py)
    &&& forall|k1: int, k2: int, px: int, py: int|
        0 <= k1 < k2 < parts.len() ==> !(#[trigger] parts[k1].contains(px, py)
            && #[trigger] parts[k2].contains(px, py))
}

/// Every pixel of `whole` lies in a rectangle of `parts`.
pub open spec fn covers(parts: Seq<Rectangle>, whole: Rectangle) -> bool {
    forall|px: int, py: int| #[trigger]
        whole.contains(px, py) ==> exists|k: int|
            0 <= k < parts.len() && #[trigger] parts[k].contains(px, py)
}

/// `parts` cuts `whole` up without gap or overlap: every pixel of `whole`
/// lies in exactly one rectangle of `parts`, and no rectangle reaches beyond
/// `whole`.
pub open spec fn tiles(parts: Seq<Rectangle>, whole: Rectangle) -> bool {
    packed(parts, whole) && covers(parts, whole)
}

/// Whether none of the first `splits` splits of the spiral loses a pixel.
pub open spec fn spiral_without_loss(area: Rectangle, splits: nat) -> bool {
    forall|i: nat|
        1 <= i <= splits ==> (#[trigger] spiral_rest(area, (i - 1) as nat)).splits_without_loss(
            i % 2 == 1,
        )
}

/// Whether none of the first `splits` splits of the tree loses a pixel.
pub open spec fn tree_without_loss(area: Rectangle, splits: nat) -> bool {
    forall|k: nat|
        k < splits ==> (#[trigger] tree_node(area, k)).0.splits_without_loss(tree_node(area, k).1)
}

/// Whether the spiral layout of `count` windows can fill `area`: no split
/// loses a pixel, and where there is no window the area has no pixel.
pub open spec fn spiral_fills(area: Rectangle, count: nat) -> bool {
    if count == 0 {
        area.width == 0 || area.height == 0
    } else {
        spiral_without_loss(area, (count - 1) as nat)
    }
}

/// Whether the balanced layout of `count` windows can fill `area`: no split
/// loses a pixel, and where there is no window the area has no pixel.
pub open spec fn tree_fills(area: Rectangle, count: nat) -> bool {
    if count == 0 {
        area.width == 0 || area.height == 0
    } else {
        tree_without_loss(area, (count - 1) as nat)
    }
}

/// The rectangles of the tree's nodes `splits` to `2 * splits`: those that
/// have not been split after `splits` splits.
pub open spec fn tree_frontier(area: Rectangle, splits: nat) -> Seq<Rectangle> {
    Seq::new(splits + 1, |j: int| tree_node(area, (splits + j) as nat).0)
}

/// The windows that hold the tree's nodes `splits` to `2 * splits`.
pub open spec fn tree_holders(windows: Seq<Window>, splits: nat) -> Seq<Window> {
    Seq::new(splits + 1, |j: int| windows[tree_owner((splits + j) as nat) as int])
}

/// What remains of the spiral shrinks with every split.
pub proof fn lemma_spiral_rest_nested(area: Rectangle, early: nat, late: nat, px: int, py: int)
    requires
        area.addressable(),
        early <= late,
    ensures
        spiral_rest(area, late).addressable(),
        spiral_rest(area, late).contains(px, py) ==> spiral_rest(area, early).contains(px, py),
    decreases late,
{
    if late > 0 {
        let before = (late - 1) as nat;
        lemma_spiral_rest_nested(area, if early < late { early } else { before }, before, px, py);
        lemma_split_partitions(spiral_rest(area, before), late % 2 == 1, px, py);
    }
}

/// A pixel of the area lies in what remains after `splits` lossless splits
/// or in one of the pieces handed out by them.
pub proof fn lemma_spiral_covers(area: Rectangle, splits: nat, px: int, py: int)
    requires
        area.addressable(),
        spiral_without_loss(area, splits),
        area.contains(px, py),
    ensures
        spiral_rest(area, splits).contains(px, py) || exists|i: nat|
            1 <= i <= splits && #[trigger] spiral_piece(area, i).contains(px, py),
    decreases splits,
{
    if splits > 0 {
        let before = (splits - 1) as nat;
        lemma_spiral_covers(area, before, px, py);
        lemma_spiral_rest_nested(area, before, before, px, py);
        lemma_split_partitions(spiral_rest(area, before), splits % 2 == 1, px, py);
        if spiral_rest(area, before).contains(px, py) {
            assert(spiral_rest(area, before).splits_without_loss(splits % 2 == 1));
            if !spiral_rest(area, splits).contains(px, py) {
                assert(spiral_piece(area, splits).contains(px, py));
            }
        } else {
            let i = choose|i: nat|
                1 <= i <= before && #[trigger] spiral_piece(area, i).contains(px, py);
            assert(spiral_piece(area, i).contains(px, py));
        }
    }
}

/// The spiral layout places the windows in reverse order, each exactly once.
pub proof fn lemma_fibonacci_keeps_windows(screen: Rectangle, windows: Seq<Window>)
    ensures
        fibonacci_arrangement(screen, windows).len() == windows.len(),
        placed_windows(fibonacci_arrangement(screen, windows)) == windows.reverse(),
        placed_windows(fibonacci_arrangement(screen, windows)).to_multiset()
            == windows.to_multiset(),
{
    assert(placed_windows(fibonacci_arrangement(screen, windows)) =~= windows.reverse());
    windows.lemma_reverse_to_multiset();
}

/// The rectangles of the spiral after `splits` splits: the pieces handed
/// out, then what remains.
pub open spec fn spiral_parts(area: Rectangle, splits: nat) -> Seq<Rectangle> {
    Seq::new(
        splits + 1,
        |j: int|
            if j < splits {
                spiral_piece(area, (j + 1) as nat)
            } else {
                spiral_rest(area, splits)
            },
    )
}

/// After any number of splits, the rectangles of the spiral never overlap
/// and stay inside the area.
pub proof fn lemma_spiral_packed(area: Rectangle, splits: nat)
    requires
        area.addressable(),
    ensures
        packed(spiral_parts(area, splits), area),
{
    let parts = spiral_parts(area, splits);
    assert forall|k: int, px: int, py: int|
        0 <= k < parts.len() && #[trigger] parts[k].contains(px, py) implies area.contains(
        px,
        py,
    ) by {
        lemma_spiral_rest_nested(area, 0, k as nat, px, py);
        lemma_split_partitions(spiral_rest(area, k as nat), (k + 1) % 2 == 1, px, py);
    }
    assert forall|k1: int, k2: int, px: int, py: int| 0 <= k1 < k2 < parts.len() implies !(
    #[trigger] parts[k1].contains(px, py) && #[trigger] parts[k2].contains(px, py)) by {
        // The later rectangle lies in what remained after split k1 + 1.
        lemma_spiral_rest_nested(area, k1 as nat, k1 as nat, px, py);
        lemma_split_partitions(spiral_rest(area, k1 as nat), (k1 + 1) % 2 == 1, px, py);
        lemma_spiral_rest_nested(area, (k1 + 1) as nat, k2 as nat, px, py);
        if k2 < splits {
            lemma_split_partitions(spiral_rest(area, k2 as nat), (k2 + 1) % 2 == 1, px, py);
        }
    }
}

/// The rectangles of the spiral layout never overlap and stay inside the
/// usable area.
pub proof fn lemma_fibonacci_packed(screen: Rectangle, windows: Seq<Window>)
    requires
        can_lay_out(screen),
    ensures
        packed(placed_rectangles(fibonacci_arrangement(screen, windows)), usable_area(screen)),
{
    if windows.len() > 0 {
        let splits = (windows.len() - 1) as nat;
        lemma_spiral_packed(usable_area(screen), splits);
        assert(placed_rectangles(fibonacci_arrangement(screen, windows)) =~= spiral_parts(
            usable_area(screen),
            splits,
        ));
    }
}

/// Where no split loses a pixel, the rectangles of the spiral layout cut the
/// usable area up without gap or overlap.
pub proof fn lemma_fibonacci_tiles(screen: Rectangle, windows: Seq<Window>)
    requires
        can_lay_out(screen),
        spiral_fills(usable_area(screen), windows.len()),
    ensures
        tiles(placed_rectangles(fibonacci_arrangement(screen, windows)), usable_area(screen)),
{
    let area = usable_area(screen);
    let n = windows.len() as int;
    let parts = placed_rectangles(fibonacci_arrangement(screen, windows));
    lemma_fibonacci_packed(screen, windows);
    assert forall|px: int, py: int| #[trigger] area.contains(px, py) implies exists|k: int|
        0 <= k < parts.len() && #[trigger] parts[k].contains(px, py) by {
        lemma_spiral_covers(area, (n - 1) as nat, px, py);
        if spiral_rest(area, (n - 1) as nat).contains(px, py) {
            assert(parts[n - 1].contains(px, py));
        } else {
            let i = choose|i: nat|
                1 <= i <= n - 1 && #[trigger] spiral_piece(area, i).contains(px, py);
            assert(parts[i - 1].contains(px, py));
        }
    }
}

/// The windows that hold the unsplit nodes after `splits` splits are the
/// first `splits + 1` windows of the list, each exactly once.
pub proof fn lemma_tree_holders(windows: Seq<Window>, splits: nat)
    requires
        splits < windows.len(),
    ensures
        tree_holders(windows, splits).to_multiset() == windows.take(splits + 1 as int).to_multiset(),
    decreases splits,
{
    broadcast use group_to_multiset_ensures;

    if splits == 0 {
        assert(tree_holders(windows, 0) =~= windows.take(1));
    } else {
        let before = (splits - 1) as nat;
        lemma_tree_holders(windows, before);
        let old_holders = tree_holders(windows, before);
        let kept = old_holders.remove(0);
        assert(old_holders.contains(old_holders[0]));
        assert(tree_holders(windows, splits) =~= kept.push(old_holders[0]).push(
            windows[splits as int],
        ));
        assert(windows.take(splits + 1 as int) =~= windows.take(before + 1 as int).push(windows[splits as int]));
        assert(kept.push(old_holders[0]).to_multiset() =~= old_holders.to_multiset());
    }
}

/// The balanced layout places every window exactly once.
pub proof fn lemma_tree_keeps_windows(screen: Rectangle, windows: Seq<Window>)
    ensures
        tree_arrangement(screen, windows).len() == windows.len(),
        placed_windows(tree_arrangement(screen, windows)).to_multiset() == windows.to_multiset(),
{
    let placed = placed_windows(tree_arrangement(screen, windows));
    if windows.len() == 0 {
        assert(placed =~= windows);
    } else {
        let splits = (windows.len() - 1) as nat;
        lemma_tree_holders(windows, splits);
        assert(placed =~= tree_holders(windows, splits));
        assert(windows.take(splits + 1 as int) =~= windows);
    }
}

/// After any number of splits, the unsplit nodes of the tree never overlap
/// and stay inside the area; where no split lost a pixel, they cover it.
pub proof fn lemma_tree_frontier(area: Rectangle, splits: nat)
    requires
        area.addressable(),
    ensures
        packed(tree_frontier(area, splits), area),
        forall|j: int|
            0 <= j <= splits ==> (#[trigger] tree_frontier(area, splits)[j]).addressable(),
        tree_without_loss(area, splits) ==> covers(tree_frontier(area, splits), area),
    decreases splits,
{
    let now = tree_frontier(area, splits);
    if splits > 0 {
        let before = (splits - 1) as nat;
        let earlier = tree_frontier(area, before);
        lemma_tree_frontier(area, before);
        let split_node = tree_node(area, before);
        assert(split_node.0 == earlier[0]);
        assert(earlier[0].addressable());
        // The nodes of the new frontier: the old ones but the first, then the
        // two halves of the first.
        assert forall|j: int| 0 <= j < splits - 1 implies #[trigger] now[j] == earlier[j + 1] by {}
        assert(now[splits - 1] == split_node.0.first_half(split_node.1));
        assert(now[splits as int] == split_node.0.second_half(split_node.1));
        assert forall|j: int| 0 <= j <= splits implies (#[trigger] now[j]).addressable() by {
            lemma_split_partitions(split_node.0, split_node.1, 0, 0);
            if j < splits - 1 {
                assert(now[j] == earlier[j + 1]);
            }
        }
        assert forall|k: int, px: int, py: int|
            0 <= k < now.len() && #[trigger] now[k].contains(px, py) implies area.contains(
            px,
            py,
        ) by {
            lemma_split_partitions(split_node.0, split_node.1, px, py);
            if k < splits - 1 {
                assert(earlier[k + 1].contains(px, py));
            } else {
                assert(earlier[0].contains(px, py));
            }
        }
        assert forall|k1: int, k2: int, px: int, py: int| 0 <= k1 < k2 < now.len() implies !(
        #[trigger] now[k1].contains(px, py) && #[trigger] now[k2].contains(px, py)) by {
            lemma_split_partitions(split_node.0, split_node.1, px, py);
            if now[k1].contains(px, py) && now[k2].contains(px, py) {
                if k2 < splits - 1 {
                    assert(earlier[k1 + 1].contains(px, py) && earlier[k2 + 1].contains(px, py));
                } else if k1 < splits - 1 {
                    assert(earlier[k1 + 1].contains(px, py) && earlier[0].contains(px, py));
                }
            }
        }
        if tree_without_loss(area, splits) {
            assert(tree_without_loss(area, before));
            assert(tree_node(area, before).0.splits_without_loss(tree_node(area, before).1));
            assert forall|px: int, py: int| #[trigger] area.contains(px, py) implies exists|k: int|
                0 <= k < now.len() && #[trigger] now[k].contains(px, py) by {
                lemma_split_partitions(split_node.0, split_node.1, px, py);
                let k = choose|k: int| 0 <= k < earlier.len() && #[trigger] earlier[k].contains(px, py);
                if k == 0 {
                    if now[splits - 1].contains(px, py) {
                    } else {
                        assert(now[splits as int].contains(px, py));
                    }
                } else {
                    assert(now[k - 1].contains(px, py));
                }
            }
        }
    } else {
        assert(now[0] == area);
        if tree_without_loss(area, splits) {
            assert forall|px: int, py: int| #[trigger] area.contains(px, py) implies exists|k: int|
                0 <= k < now.len() && #[trigger] now[k].contains(px, py) by {
                assert(now[0].contains(px, py));
            }
        }
    }
}

/// The rectangles of the balanced layout never overlap and stay inside the
/// usable area.
pub proof fn lemma_tree_packed(screen: Rectangle, windows: Seq<Window>)
    requires
        can_lay_out(screen),
    ensures
        packed(placed_rectangles(tree_arrangement(screen, windows)), usable_area(screen)),
{
    if windows.len() > 0 {
        let splits = (windows.len() - 1) as nat;
        lemma_tree_frontier(usable_area(screen), splits);
        assert(placed_rectangles(tree_arrangement(screen, windows)) =~= tree_frontier(
            usable_area(screen),
            splits,
        ));
    }
}

/// Where no split loses a pixel, the rectangles of the balanced layout cut
/// the usable area up without gap or overlap.
pub proof fn lemma_tree_tiles(screen: Rectangle, windows: Seq<Window>)
    requires
        can_lay_out(screen),
        tree_fills(usable_area(screen), windows.len()),
    ensures
        tiles(placed_rectangles(tree_arrangement(screen, windows)), usable_area(screen)),
{
    if windows.len() > 0 {
        let splits = (windows.len() - 1) as nat;
        lemma_tree_frontier(usable_area(screen), splits);
        assert(placed_rectangles(tree_arrangement(screen, windows)) =~= tree_frontier(
            usable_area(screen),
            splits,
        ));
    }
}

/// A pixel that a split with loss leaves out: one of the last column when
/// the split is along the width, of the last row otherwise.
pub open spec fn lost_pixel(whole: Rectangle, along_width: bool) -> (int, int) {
    if along_width {
        (whole.x + whole.width - 1, whole.y as int)
    } else {
        (whole.x as int, whole.y + whole.height - 1)
    }
}

/// A split with loss leaves a pixel of the rectangle out of both halves.
pub proof fn lemma_split_gap(whole: Rectangle, along_width: bool)
    requires
        whole.addressable(),
        !whole.splits_without_loss(along_width),
    ensures
        whole.contains(lost_pixel(whole, along_width).0, lost_pixel(whole, along_width).1),
        !whole.first_half(along_width).contains(
            lost_pixel(whole, along_width).0,
            lost_pixel(whole, along_width).1,
        ),
        !whole.second_half(along_width).contains(
            lost_pixel(whole, along_width).0,
            lost_pixel(whole, along_width).1,
        ),
{
}

/// A pixel that split number `lossy` of the spiral left out lies in the
/// area and in none of the spiral's rectangles, however many splits follow.
pub proof fn lemma_spiral_gap_stays(area: Rectangle, lossy: nat, splits: nat)
    requires
        area.addressable(),
        1 <= lossy <= splits,
        !spiral_rest(area, (lossy - 1) as nat).splits_without_loss(lossy % 2 == 1),
    ensures
        !covers(spiral_parts(area, splits), area),
{
    let source = spiral_rest(area, (lossy - 1) as nat);
    let (px, py) = lost_pixel(source, lossy % 2 == 1);
    let parts = spiral_parts(area, splits);
    lemma_spiral_rest_nested(area, 0, (lossy - 1) as nat, px, py);
    lemma_split_gap(source, lossy % 2 == 1);
    assert(area.contains(px, py));
    assert forall|k: int| 0 <= k < parts.len() implies !(#[trigger] parts[k]).contains(px, py) by {
        if k < lossy - 1 {
            // An earlier piece: what was left after it holds the pixel.
            lemma_spiral_rest_nested(area, (k + 1) as nat, (lossy - 1) as nat, px, py);
            lemma_spiral_rest_nested(area, k as nat, k as nat, px, py);
            lemma_split_partitions(spiral_rest(area, k as nat), (k + 1) % 2 == 1, px, py);
        } else if k == lossy - 1 {
        } else {
            // A later rectangle: it lies in what was left after the split.
            lemma_spiral_rest_nested(area, lossy, k as nat, px, py);
            if k < splits {
                lemma_split_partitions(spiral_rest(area, k as nat), (k + 1) % 2 == 1, px, py);
            }
        }
    }
}

/// Where a split loses a pixel, or where there is a pixel and no window,
/// the rectangles of the spiral layout leave a gap in the usable area: the
/// layout tiles it exactly when it can fill it.
pub proof fn lemma_fibonacci_tiles_exactly(screen: Rectangle, windows: Seq<Window>)
    requires
        can_lay_out(screen),
    ensures
        tiles(placed_rectangles(fibonacci_arrangement(screen, windows)), usable_area(screen))
            <==> spiral_fills(usable_area(screen), windows.len()),
{
    let area = usable_area(screen);
    if spiral_fills(area, windows.len()) {
        lemma_fibonacci_tiles(screen, windows);
    } else if windows.len() == 0 {
        assert(area.contains(area.x as int, area.y as int));
    } else {
        let splits = (windows.len() - 1) as nat;
        assert(placed_rectangles(fibonacci_arrangement(screen, windows)) =~= spiral_parts(
            area,
            splits,
        ));
        let lossy = choose|i: nat|
            1 <= i <= splits && !(#[trigger] spiral_rest(area, (i - 1) as nat)).splits_without_loss(
                i % 2 == 1,
            );
        lemma_spiral_gap_stays(area, lossy, splits);
    }
}

/// A pixel that the split of node `lossy` of the tree left out lies in
/// none of the unsplit nodes, however many splits follow.
pub proof fn lemma_tree_gap_stays(area: Rectangle, lossy: nat, splits: nat)
    requires
        area.addressable(),
        lossy < splits,
        !tree_node(area, lossy).0.splits_without_loss(tree_node(area, lossy).1),
    ensures
        area.contains(
            lost_pixel(tree_node(area, lossy).0, tree_node(area, lossy).1).0,
            lost_pixel(tree_node(area, lossy).0, tree_node(area, lossy).1).1,
        ),
        forall|j: int|
            0 <= j <= splits ==> !(#[trigger] tree_frontier(area, splits)[j]).contains(
                lost_pixel(tree_node(area, lossy).0, tree_node(area, lossy).1).0,
                lost_pixel(tree_node(area, lossy).0, tree_node(area, lossy).1).1,
            ),
    decreases splits,
{
    let source = tree_node(area, lossy);
    let (px, py) = lost_pixel(source.0, source.1);
    let before = (splits - 1) as nat;
    let earlier = tree_frontier(area, before);
    let now = tree_frontier(area, splits);
    let node = tree_node(area, before);
    lemma_tree_frontier(area, before);
    lemma_tree_frontier(area, lossy);
    assert(tree_frontier(area, lossy)[0] == source.0);
    assert(source.0.addressable());
    lemma_split_gap(source.0, source.1);
    assert(tree_frontier(area, lossy)[0].contains(px, py));
    assert(earlier[0] == node.0);
    assert(earlier[0].addressable());
    lemma_split_partitions(node.0, node.1, px, py);
    if before > lossy {
        lemma_tree_gap_stays(area, lossy, before);
    }
    assert forall|j: int| 0 <= j <= splits implies !(#[trigger] now[j]).contains(px, py) by {
        if j < splits - 1 {
            assert(now[j] == earlier[j + 1]);
            if before == lossy {
                // The other unsplit nodes share no pixel with the split one.
                assert(earlier[0].contains(px, py));
            }
        } else {
            assert(now[splits - 1] == node.0.first_half(node.1));
            assert(now[splits as int] == node.0.second_half(node.1));
            if before > lossy {
                assert(!earlier[0].contains(px, py));
            }
        }
    }
}

/// Where a split loses a pixel, or where there is a pixel and no window,
/// the rectangles of the balanced layout leave a gap in the usable area:
/// the layout tiles it exactly when it can fill it.
pub proof fn lemma_tree_tiles_exactly(screen: Rectangle, windows: Seq<Window>)
    requires
        can_lay_out(screen),
    ensures
        tiles(placed_rectangles(tree_arrangement(screen, windows)), usable_area(screen))
            <==> tree_fills(usable_area(screen), windows.len()),
{
    let area = usable_area(screen);
    if tree_fills(area, windows.len()) {
        lemma_tree_tiles(screen, windows);
    } else if windows.len() == 0 {
        assert(area.contains(area.x as int, area.y as int));
    } else {
        let splits = (windows.len() - 1) as nat;
        let parts = tree_frontier(area, splits);
        assert(placed_rectangles(tree_arrangement(screen, windows)) =~= parts);
        let lossy = choose|k: nat|
            k < splits && !(#[trigger] tree_node(area, k)).0.splits_without_loss(
                tree_node(area, k).1,
            );
        lemma_tree_gap_stays(area, lossy, splits);
        let source = tree_node(area, lossy);
        let (px, py) = lost_pixel(source.0, source.1);
        assert(area.contains(px, py));
        assert forall|k: int| 0 <= k < parts.len() implies !(#[trigger] parts[k]).contains(
            px,
            py,
        ) by {}
    }
}

/// The sum of the areas of the rectangles of `parts`.
pub open spec fn total_area(parts: Seq<Rectangle>) -> int
    decreases parts.len(),
{
    if parts.len() == 0 {
        0
    } else {
        total_area(parts.drop_last()) + parts.last().area()
    }
}

/// The halves of a split that loses nothing have the area of the whole.
pub proof fn lemma_split_area(whole: Rectangle, along_width: bool)
    requires
        whole.splits_without_loss(along_width),
    ensures
        whole.first_half(along_width).area() + whole.second_half(along_width).area()
            == whole.area(),
{
    let w = whole.width as int;
    let h = whole.height as int;
    if along_width {
        assert((w / 2) * h + (w / 2) * h == w * h) by (nonlinear_arith)
            requires
                w % 2 == 0 || h == 0,
                w >= 0,
        ;
    } else {
        assert(w * (h / 2) + w * (h / 2) == w * h) by (nonlinear_arith)
            requires
                h % 2 == 0 || w == 0,
                h >= 0,
        ;
    }
}

/// The area of a list without its first rectangle.
proof fn lemma_area_without_first(parts: Seq<Rectangle>)
    requires
        parts.len() > 0,
    ensures
        total_area(parts.drop_first()) == total_area(parts) - parts[0].area(),
    decreases parts.len(),
{
    if parts.len() == 1 {
        assert(total_area(parts.drop_last()) == 0);
        assert(total_area(parts.drop_first()) == 0);
        assert(parts.last() == parts[0]);
    } else {
        let tail = parts.drop_first();
        lemma_area_without_first(parts.drop_last());
        assert(tail.drop_last() =~= parts.drop_last().drop_first());
        assert(tail.last() == parts.last());
        assert(parts.drop_last()[0] == parts[0]);
        assert(total_area(tail) == total_area(tail.drop_last()) + tail.last().area());
        assert(total_area(parts) == total_area(parts.drop_last()) + parts.last().area());
    }
}

/// The area of a list with two more rectangles.
proof fn lemma_area_with_two(parts: Seq<Rectangle>, first: Rectangle, second: Rectangle)
    ensures
        total_area(parts.push(first).push(second)) == total_area(parts) + first.area()
            + second.area(),
{
    let one = parts.push(first);
    let two = one.push(second);
    assert(two.drop_last() =~= one);
    assert(one.drop_last() =~= parts);
    assert(total_area(one) == total_area(one.drop_last()) + one.last().area());
    assert(total_area(two) == total_area(two.drop_last()) + two.last().area());
}

/// Splits that lose nothing keep the total area of the spiral's rectangles.
pub proof fn lemma_spiral_area(area: Rectangle, splits: nat)
    requires
        spiral_without_loss(area, splits),
    ensures
        total_area(spiral_parts(area, splits)) == area.area(),
    decreases splits,
{
    let now = spiral_parts(area, splits);
    if splits == 0 {
        assert(total_area(now.drop_last()) == 0);
        assert(now.last() == area);
    } else {
        let before = (splits - 1) as nat;
        let earlier = spiral_parts(area, before);
        lemma_spiral_area(area, before);
        let rest = spiral_rest(area, before);
        assert(rest.splits_without_loss(splits % 2 == 1));
        lemma_split_area(rest, splits % 2 == 1);
        assert(now =~= earlier.drop_last().push(spiral_piece(area, splits)).push(
            spiral_rest(area, splits),
        ));
        lemma_area_with_two(
            earlier.drop_last(),
            spiral_piece(area, splits),
            spiral_rest(area, splits),
        );
        assert(earlier.last() == rest);
        assert(total_area(earlier) == total_area(earlier.drop_last()) + earlier.last().area());
    }
}

/// Where no split loses a pixel, the areas of the rectangles of the spiral
/// layout add up to the area of the screen without the status bar.
pub proof fn lemma_fibonacci_area(screen: Rectangle, windows: Seq<Window>)
    requires
        can_lay_out(screen),
        spiral_fills(usable_area(screen), windows.len()),
    ensures
        total_area(placed_rectangles(fibonacci_arrangement(screen, windows))) == usable_area(
            screen,
        ).area(),
        usable_area(screen).area() == screen.area() - screen.width * TOP_BAR_HEIGHT,
{
    if windows.len() > 0 {
        let splits = (windows.len() - 1) as nat;
        lemma_spiral_area(usable_area(screen), splits);
        assert(placed_rectangles(fibonacci_arrangement(screen, windows)) =~= spiral_parts(
            usable_area(screen),
            splits,
        ));
    } else {
        lemma_empty_area(usable_area(screen));
    }
    lemma_usable_area(screen);
}

/// A rectangle without width or without height has no area.
pub proof fn lemma_empty_area(area: Rectangle)
    requires
        area.width == 0 || area.height == 0,
    ensures
        area.area() == 0,
{
    let w = area.width as int;
    let h = area.height as int;
    assert(w * h == 0) by (nonlinear_arith)
        requires
            w == 0 || h == 0,
    ;
}

/// The usable area is the screen's area less the strip of the status bar.
pub proof fn lemma_usable_area(screen: Rectangle)
    requires
        can_lay_out(screen),
    ensures
        usable_area(screen).area() == screen.area() - screen.width * TOP_BAR_HEIGHT,
{
    let w = screen.width as int;
    let h = screen.height as int;
    let bar = TOP_BAR_HEIGHT as int;
    assert(w * (h - bar) == w * h - w * bar) by (nonlinear_arith);
}

/// Splits that lose nothing keep the total area of the unsplit nodes of the
/// tree.
pub proof fn lemma_tree_frontier_area(area: Rectangle, splits: nat)
    requires
        tree_without_loss(area, splits),
    ensures
        total_area(tree_frontier(area, splits)) == area.area(),
    decreases splits,
{
    let now = tree_frontier(area, splits);
    if splits == 0 {
        assert(total_area(now.drop_last()) == 0);
        assert(now.last() == area);
    } else {
        let before = (splits - 1) as nat;
        let earlier = tree_frontier(area, before);
        assert(tree_without_loss(area, before));
        lemma_tree_frontier_area(area, before);
        let node = tree_node(area, before);
        assert(node.0.splits_without_loss(node.1));
        lemma_split_area(node.0, node.1);
        assert(earlier[0] == node.0);
        assert(now =~= earlier.drop_first().push(node.0.first_half(node.1)).push(
            node.0.second_half(node.1),
        ));
        lemma_area_without_first(earlier);
        lemma_area_with_two(
            earlier.drop_first(),
            node.0.first_half(node.1),
            node.0.second_half(node.1),
        );
    }
}

/// Where no split loses a pixel, the areas of the rectangles of the
/// balanced layout add up to the area of the screen without the status bar.
pub proof fn lemma_tree_area(screen: Rectangle, windows: Seq<Window>)
    requires
        can_lay_out(screen),
        tree_fills(usable_area(screen), windows.len()),
    ensures
        total_area(placed_rectangles(tree_arrangement(screen, windows))) == usable_area(
            screen,
        ).area(),
        usable_area(screen).area() == screen.area() - screen.width * TOP_BAR_HEIGHT,
{
    if windows.len() > 0 {
        let splits = (windows.len() - 1) as nat;
        lemma_tree_frontier_area(usable_area(screen), splits);
        assert(placed_rectangles(tree_arrangement(screen, windows)) =~= tree_frontier(
            usable_area(screen),
            splits,
        ));
    } else {
        lemma_empty_area(usable_area(screen));
    }
    lemma_usable_area(screen);
}

/// A layout is a function of the screen and the order of the windows: two
/// runs on the same input place every window alike.
pub proof fn lemma_layout_deterministic<L: WindowLayout>(
    algorithm: L,
    screen: Rectangle,
    windows: Seq<Window>,
    first: Seq<(Window, Rectangle)>,
    second: Seq<(Window, Rectangle)>,
)
    requires
        first == algorithm.arrangement(screen, windows),
        second == algorithm.arrangement(screen, windows),
    ensures
        first == second,
{
}

} // verus!
