use mswm::order::{find_window, WindowOrdering};
use mswm::registry::{RegistryError, WindowRegistry};

#[test]
fn register_and_look_up_both_ways() {
    let mut registry = WindowRegistry::new();
    assert_eq!(registry.register(10, 100), Ok(()));
    assert_eq!(registry.frame_of(10), Some(100));
    assert_eq!(registry.client_of(100), Some(10));
    assert_eq!(registry.frame_of(100), None);
    assert_eq!(registry.client_of(10), None);
    assert_eq!(registry.len(), 1);
}

#[test]
fn registering_a_client_twice_fails() {
    let mut registry = WindowRegistry::new();
    assert_eq!(registry.register(10, 100), Ok(()));
    assert_eq!(registry.register(10, 101), Err(RegistryError::ClientRegistered));
    assert_eq!(registry.frame_of(10), Some(100));
    assert_eq!(registry.client_of(101), None);
    assert_eq!(registry.len(), 1);
}

#[test]
fn registering_a_frame_twice_fails() {
    let mut registry = WindowRegistry::new();
    assert_eq!(registry.register(10, 100), Ok(()));
    assert_eq!(registry.register(11, 100), Err(RegistryError::FrameRegistered));
    assert_eq!(registry.frame_of(11), None);
    assert_eq!(registry.client_of(100), Some(10));
}

#[test]
fn unregister_returns_the_frame() {
    let mut registry = WindowRegistry::new();
    registry.register(10, 100).unwrap();
    registry.register(11, 101).unwrap();
    assert_eq!(registry.unregister(10), Some(100));
    assert_eq!(registry.frame_of(10), None);
    assert_eq!(registry.client_of(100), None);
    assert_eq!(registry.frame_of(11), Some(101));
    assert_eq!(registry.len(), 1);
}

#[test]
fn unregistering_an_unknown_window_changes_nothing() {
    let mut registry = WindowRegistry::new();
    registry.register(10, 100).unwrap();
    assert_eq!(registry.unregister(99), None);
    assert_eq!(registry.unregister(100), None);
    assert_eq!(registry.frame_of(10), Some(100));
    assert_eq!(registry.len(), 1);
}

#[test]
fn register_then_unregister_leaves_the_registry_empty() {
    let mut registry = WindowRegistry::new();
    registry.register(10, 100).unwrap();
    assert_eq!(registry.unregister(10), Some(100));
    assert_eq!(registry.len(), 0);
    assert_eq!(registry.register(10, 100), Ok(()));
}

#[test]
fn ordering_moves_floating_windows_behind_the_tiled_ones() {
    let mut order = WindowOrdering::new();
    order.push_floating(1);
    order.push_floating(2);
    order.tile_all();
    order.push_floating(3);
    order.push_floating(4);
    assert_eq!(order.tiling_windows(), &vec![1, 2]);
    assert_eq!(order.floating_windows(), &vec![3, 4]);
    order.tile_all();
    assert_eq!(order.tiling_windows(), &vec![1, 2, 3, 4]);
    assert_eq!(order.floating_windows(), &Vec::<u32>::new());
}

#[test]
fn ordering_removes_from_whichever_order_holds_the_window() {
    let mut order = WindowOrdering::new();
    order.push_floating(1);
    order.push_floating(2);
    order.tile_all();
    order.push_floating(3);
    assert!(order.remove(1));
    assert!(order.remove(3));
    assert!(!order.remove(7));
    assert_eq!(order.tiling_windows(), &vec![2]);
    assert_eq!(order.floating_windows(), &Vec::<u32>::new());
}

#[test]
fn ordering_swaps_places() {
    let mut order = WindowOrdering::new();
    order.push_floating(1);
    order.push_floating(2);
    order.push_floating(3);
    order.tile_all();
    order.swap_tiling(0, 2);
    assert_eq!(order.tiling_windows(), &vec![3, 2, 1]);
    order.swap_tiling(1, 1);
    assert_eq!(order.tiling_windows(), &vec![3, 2, 1]);
}

#[test]
fn find_window_gives_the_first_place() {
    assert_eq!(find_window(&vec![5, 6, 7, 6], 6), Some(1));
    assert_eq!(find_window(&vec![5, 6, 7], 8), None);
    assert_eq!(find_window(&vec![], 8), None);
}
