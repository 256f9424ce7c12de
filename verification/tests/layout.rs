use mswm::geometry::Rectangle;
use mswm::layout::{
    fits_layout, reserve_top_bar, FibonacciLayout, LayoutKind, TreeLayout, WindowLayout,
};

fn rect(x: i16, y: i16, width: u16, height: u16) -> Rectangle {
    Rectangle { x, y, width, height }
}

fn screen() -> Rectangle {
    rect(0, 0, 320, 240)
}

/// Counts, for every pixel of `area`, the rectangles that hold it, and
/// checks that it is exactly one; no rectangle may reach beyond `area`.
fn assert_tiles(placed: &[(u32, Rectangle)], area: Rectangle) {
    let width = area.width as usize;
    let height = area.height as usize;
    let mut grid = vec![0u32; width * height];
    for (_, r) in placed {
        for py in (r.y as i32)..(r.y as i32 + r.height as i32) {
            for px in (r.x as i32)..(r.x as i32 + r.width as i32) {
                let gx = px - area.x as i32;
                let gy = py - area.y as i32;
                assert!(gx >= 0 && gy >= 0 && (gx as usize) < width && (gy as usize) < height);
                grid[gy as usize * width + gx as usize] += 1;
            }
        }
    }
    assert!(grid.iter().all(|count| *count == 1));
}

fn sorted_windows(placed: &[(u32, Rectangle)]) -> Vec<u32> {
    let mut windows: Vec<u32> = placed.iter().map(|(w, _)| *w).collect();
    windows.sort();
    windows
}

#[test]
fn split_halves_side_by_side() {
    let (first, second) = rect(10, 20, 101, 50).split(true);
    assert_eq!(first, rect(10, 20, 50, 50));
    assert_eq!(second, rect(60, 20, 50, 50));
}

#[test]
fn split_halves_one_above_the_other() {
    let (first, second) = rect(-10, -20, 40, 30).split(false);
    assert_eq!(first, rect(-10, -20, 40, 15));
    assert_eq!(second, rect(-10, -5, 40, 15));
}

#[test]
fn top_bar_is_reserved() {
    assert_eq!(reserve_top_bar(screen()), rect(0, 20, 320, 220));
    assert_eq!(reserve_top_bar(rect(5, 7, 100, 20)), rect(5, 27, 100, 0));
}

#[test]
fn screens_that_cannot_be_laid_out() {
    assert!(fits_layout(screen()));
    assert!(fits_layout(rect(0, 0, 32768, 32768)));
    assert!(!fits_layout(rect(0, 0, 320, 19)));
    assert!(!fits_layout(rect(1, 0, 32768, 240)));
    assert!(!fits_layout(rect(0, 1, 320, 32768)));
    assert!(!fits_layout(rect(0, 32760, 320, 8)));
}

#[test]
fn fibonacci_no_windows() {
    assert_eq!(FibonacciLayout.layout(screen(), &vec![]), vec![]);
}

#[test]
fn fibonacci_single_window_takes_the_usable_area() {
    let placed = FibonacciLayout.layout(screen(), &vec![7]);
    assert_eq!(placed, vec![(7, rect(0, 20, 320, 220))]);
}

#[test]
fn fibonacci_four_windows_spiral() {
    let placed = FibonacciLayout.layout(screen(), &vec![1, 2, 3, 4]);
    assert_eq!(
        placed,
        vec![
            (4, rect(0, 20, 160, 220)),
            (3, rect(160, 20, 160, 110)),
            (2, rect(160, 130, 80, 110)),
            (1, rect(240, 130, 80, 110)),
        ]
    );
}

#[test]
fn fibonacci_honours_the_screen_origin() {
    let placed = FibonacciLayout.layout(rect(100, 50, 200, 120), &vec![1, 2]);
    assert_eq!(placed, vec![(2, rect(100, 70, 100, 100)), (1, rect(200, 70, 100, 100))]);
}

#[test]
fn fibonacci_tiles_the_usable_area() {
    let placed = FibonacciLayout.layout(screen(), &vec![1, 2, 3, 4]);
    assert_tiles(&placed, rect(0, 20, 320, 220));
}

#[test]
fn fibonacci_odd_extent_loses_a_column() {
    let placed = FibonacciLayout.layout(rect(0, 0, 321, 240), &vec![1, 2]);
    assert_eq!(placed, vec![(2, rect(0, 20, 160, 220)), (1, rect(160, 20, 160, 220))]);
}

#[test]
fn fibonacci_keeps_every_window() {
    let windows: Vec<u32> = vec![9, 3, 3, 11, 5, 8, 2];
    let placed = FibonacciLayout.layout(screen(), &windows);
    assert_eq!(placed.len(), windows.len());
    let mut expected = windows.clone();
    expected.sort();
    assert_eq!(sorted_windows(&placed), expected);
    let reversed: Vec<u32> = windows.iter().rev().cloned().collect();
    let order: Vec<u32> = placed.iter().map(|(w, _)| *w).collect();
    assert_eq!(order, reversed);
}

#[test]
fn fibonacci_is_deterministic() {
    let windows: Vec<u32> = vec![4, 8, 15, 16, 23, 42];
    assert_eq!(
        FibonacciLayout.layout(screen(), &windows),
        FibonacciLayout.layout(screen(), &windows)
    );
}

#[test]
fn tree_no_windows() {
    assert_eq!(TreeLayout.layout(screen(), &vec![]), vec![]);
}

#[test]
fn tree_single_window_takes_the_usable_area() {
    assert_eq!(TreeLayout.layout(screen(), &vec![7]), vec![(7, rect(0, 20, 320, 220))]);
}

#[test]
fn tree_two_windows_side_by_side() {
    let placed = TreeLayout.layout(screen(), &vec![1, 2]);
    assert_eq!(placed, vec![(1, rect(0, 20, 160, 220)), (2, rect(160, 20, 160, 220))]);
}

#[test]
fn tree_three_windows() {
    let placed = TreeLayout.layout(screen(), &vec![1, 2, 3]);
    assert_eq!(
        placed,
        vec![
            (2, rect(160, 20, 160, 220)),
            (1, rect(0, 20, 160, 110)),
            (3, rect(0, 130, 160, 110)),
        ]
    );
}

#[test]
fn tree_four_windows_quarters() {
    let placed = TreeLayout.layout(screen(), &vec![1, 2, 3, 4]);
    assert_eq!(
        placed,
        vec![
            (1, rect(0, 20, 160, 110)),
            (3, rect(0, 130, 160, 110)),
            (2, rect(160, 20, 160, 110)),
            (4, rect(160, 130, 160, 110)),
        ]
    );
}

#[test]
fn tree_tiles_the_usable_area() {
    for n in 1..=8u32 {
        let windows: Vec<u32> = (1..=n).collect();
        let placed = TreeLayout.layout(rect(0, 0, 320, 260), &windows);
        assert_tiles(&placed, rect(0, 20, 320, 240));
    }
}

#[test]
fn tree_keeps_every_window() {
    let windows: Vec<u32> = vec![9, 3, 3, 11, 5, 8, 2];
    let placed = TreeLayout.layout(screen(), &windows);
    assert_eq!(placed.len(), windows.len());
    let mut expected = windows.clone();
    expected.sort();
    assert_eq!(sorted_windows(&placed), expected);
}

#[test]
fn tree_is_deterministic() {
    let windows: Vec<u32> = vec![4, 8, 15, 16, 23, 42];
    assert_eq!(TreeLayout.layout(screen(), &windows), TreeLayout.layout(screen(), &windows));
}

#[test]
fn layout_kind_selects_the_layout() {
    let windows: Vec<u32> = vec![1, 2, 3, 4, 5];
    assert_eq!(
        LayoutKind::Fibonacci.layout(screen(), &windows),
        FibonacciLayout.layout(screen(), &windows)
    );
    assert_eq!(LayoutKind::Tree.layout(screen(), &windows), TreeLayout.layout(screen(), &windows));
    assert!(LayoutKind::Tree.layout(screen(), &windows) != LayoutKind::Fibonacci.layout(screen(), &windows));
}
