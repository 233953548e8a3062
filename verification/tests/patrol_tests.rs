use endless_ui::patrols::{patrol_listing, reorder_swap};

#[test]
fn posts_are_listed_by_patrol_order() {
    assert_eq!(patrol_listing(&vec![3, 1, 2]), vec![1, 2, 0]);
    // Equal orders keep their given order.
    assert_eq!(patrol_listing(&vec![2, 1, 2, 1]), vec![1, 3, 0, 2]);
    assert_eq!(patrol_listing(&vec![]), Vec::<usize>::new());
}

#[test]
fn reorder_buttons_swap_with_neighbours() {
    let slots = vec![40, 41, 42];
    assert_eq!(reorder_swap(&slots, 0, true), Some((40, 41)));
    assert_eq!(reorder_swap(&slots, 2, true), None);
    assert_eq!(reorder_swap(&slots, 2, false), Some((42, 41)));
    assert_eq!(reorder_swap(&slots, 0, false), None);
}
