//! The per-object layout tables.

use perry::layout_tables::{
    empty_layout_tables, immortal_layout_scope_active, js_gc_forget_object_layout,
    layout_addr_filter_may_hold, layout_forget_object, layout_mask_min_slots,
    layout_payload_slot_count, layout_prefers_scan_over_mask, per_object_layout_table_sizes,
    per_object_layouts_maybe_nonempty, per_object_slot_mask, slot_masks_insert,
    slot_masks_remove, thread_exit, transfer_per_object_descriptor,
    transfer_per_object_slot_mask, typed_layouts_insert, typed_layouts_remove,
    with_per_object_descriptor, ArmedThreads, ImmortalLayoutScope, Payload,
};

#[test]
fn records_are_found_until_they_are_removed() {
    let mut t = empty_layout_tables();
    let mut g = ArmedThreads { count: 0 };
    assert!(!per_object_layouts_maybe_nonempty(&t));
    typed_layouts_insert(&mut t, &mut g, 0x1000, 5);
    slot_masks_insert(&mut t, &mut g, 0x2000, 0b101);
    assert!(per_object_layouts_maybe_nonempty(&t));
    assert_eq!(g.count, 1);
    assert_eq!(per_object_layout_table_sizes(&t), (1, 1));
    assert_eq!(with_per_object_descriptor(&t, 0x1000), Some(5));
    assert_eq!(per_object_slot_mask(&t, 0x2000), Some(0b101));
    assert_eq!(per_object_slot_mask(&t, 0x1000), None);
    assert!(layout_addr_filter_may_hold(&t, 0x1000));
    typed_layouts_remove(&mut t, &mut g, 0x1000);
    assert_eq!(with_per_object_descriptor(&t, 0x1000), None);
    assert_eq!(g.count, 1, "a mask is left");
    slot_masks_remove(&mut t, &mut g, 0x2000);
    assert_eq!(g.count, 0);
    assert!(!per_object_layouts_maybe_nonempty(&t));
}

#[test]
fn moved_objects_keep_their_records() {
    let mut t = empty_layout_tables();
    let mut g = ArmedThreads { count: 0 };
    typed_layouts_insert(&mut t, &mut g, 0x1000, 5);
    slot_masks_insert(&mut t, &mut g, 0x1000, 3);
    assert!(transfer_per_object_descriptor(&mut t, 0x1000, 0x9000));
    transfer_per_object_slot_mask(&mut t, 0x1000, 0x9000);
    assert_eq!(with_per_object_descriptor(&t, 0x9000), Some(5));
    assert_eq!(per_object_slot_mask(&t, 0x9000), Some(3));
    assert_eq!(with_per_object_descriptor(&t, 0x1000), None);
    assert!(layout_addr_filter_may_hold(&t, 0x9000));
    assert!(!transfer_per_object_descriptor(&mut t, 0x1000, 0x7000));
    layout_forget_object(&mut t, &mut g, 0x9000);
    assert_eq!(per_object_layout_table_sizes(&t), (0, 0));
}

#[test]
fn many_records_are_all_found() {
    let mut t = empty_layout_tables();
    let mut g = ArmedThreads { count: 0 };
    for i in 0..5000u64 {
        slot_masks_insert(&mut t, &mut g, i * 64, i);
    }
    for i in 0..5000u64 {
        assert_eq!(per_object_slot_mask(&t, i * 64), Some(i));
    }
    js_gc_forget_object_layout(&mut t, &mut g, 64);
    assert_eq!(per_object_slot_mask(&t, 64), None);
    assert_eq!(g.count, 1);
    thread_exit(t, &mut g);
    assert_eq!(g.count, 0);
}

#[test]
fn immortal_scopes_nest() {
    let mut t = empty_layout_tables();
    assert!(!immortal_layout_scope_active(&t));
    let outer = ImmortalLayoutScope::new(&mut t);
    let inner = ImmortalLayoutScope::new(&mut t);
    inner.close(&mut t);
    assert!(immortal_layout_scope_active(&t));
    outer.close(&mut t);
    assert!(!immortal_layout_scope_active(&t));
}

#[test]
fn small_objects_are_scanned() {
    assert_eq!(layout_mask_min_slots(None), 4);
    assert_eq!(layout_mask_min_slots(Some("9")), 9);
    assert_eq!(layout_mask_min_slots(Some("nine")), 4);
    let small = Payload::Array { length: 3, capacity: 8 };
    assert_eq!(layout_payload_slot_count(small, 0), 3);
    assert!(layout_prefers_scan_over_mask(small, 0, 4));
    assert!(!layout_prefers_scan_over_mask(small, 3, 4), "a slot past the length");
    assert_eq!(layout_payload_slot_count(Payload::Object { size: 8 + 16 }, 0), 2);
    assert_eq!(layout_payload_slot_count(Payload::Object { size: 7 }, 0), usize::MAX);
    assert_eq!(layout_payload_slot_count(Payload::Other, 0), usize::MAX);
}

#[test]
fn a_reused_address_starts_without_records() {
    let mut t = empty_layout_tables();
    let mut g = ArmedThreads { count: 0 };
    typed_layouts_insert(&mut t, &mut g, 0x1000, 5);
    slot_masks_insert(&mut t, &mut g, 0x1000, 7);
    layout_forget_object(&mut t, &mut g, 0x1000);
    assert_eq!(with_per_object_descriptor(&t, 0x1000), None);
    assert_eq!(per_object_slot_mask(&t, 0x1000), None);
    assert!(!per_object_layouts_maybe_nonempty(&t));
}

#[test]
fn a_full_filter_is_rebuilt_from_the_live_records() {
    let mut t = empty_layout_tables();
    let mut g = ArmedThreads { count: 0 };
    slot_masks_insert(&mut t, &mut g, 0x7000, 1);
    for i in 0..2047u64 {
        typed_layouts_insert(&mut t, &mut g, 0x1_0000 + i * 64, i);
        typed_layouts_remove(&mut t, &mut g, 0x1_0000 + i * 64);
    }
    assert_eq!(t.sets, 2048);
    let stale: u32 = t.filter.iter().map(|w| w.count_ones()).sum();
    assert!(stale > 1000, "bits of removed records stay: {stale}");
    typed_layouts_insert(&mut t, &mut g, 0x9000, 7);
    assert_eq!(t.sets, 1);
    let live: u32 = t.filter.iter().map(|w| w.count_ones()).sum();
    assert!(live == 1 || live == 2);
    assert_eq!(per_object_slot_mask(&t, 0x7000), Some(1));
    assert_eq!(with_per_object_descriptor(&t, 0x9000), Some(7));
    typed_layouts_remove(&mut t, &mut g, 0x9000);
    slot_masks_remove(&mut t, &mut g, 0x7000);
    assert_eq!(t.sets, 0);
    assert!(t.filter.iter().all(|w| *w == 0));
}
