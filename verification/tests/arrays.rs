//! Arrays: boxed values, numeric layouts, receivers, named properties,
//! template objects and copying methods.

use std::collections::{HashMap, HashSet};

use perry::array_copy::{
    cannot_delete_message, copy_route, copy_within_end, deletion_result, object_step, splice_route, spliced_copy,
    copy_within_relative_index, copy_within_route,
    copy_within_to_length, fill_fresh_array, js_array_copy_within, js_array_copy_within_value,
    js_array_to_reversed,
    js_array_to_sorted_default, js_array_to_sorted_with_comparator, js_array_to_spliced,
    js_array_with, not_an_object_message, plan_copies, read_only_message, step_action, CopyPlan,
    CopyRoute, CopyWithinRoute, CopyWithinStep, IntegerArg, ObjectStep, SortPath, StepAction, ValueCopy,
    ValueReceiver, MAX_LENGTH,
};
use perry::array_layout::{
    array_byte_size, array_has_arguments_object_flag, array_has_raw_f64_holes_flag,
    array_has_raw_f64_layout_flag, array_is_frozen, array_is_sealed_or_no_extend,
    array_numeric_layout, array_numeric_raw_f64_get, array_numeric_raw_f64_push_inbounds,
    array_numeric_raw_f64_set_inbounds, array_slots_are_numeric,
    canonicalize_array_numeric_store_bits, demote_array_raw_f64_dense_to_holes,
    gc_element_slot_range, js_array_clear_numeric_layout, js_array_is_numeric_f64_layout,
    js_array_mark_arguments_object, js_array_mark_numeric_f64_layout, mark_array_layout_unknown,
    mark_template_array_frozen, note_array_hole_fill_slot, note_array_slot,
    rebuild_array_layout, rebuild_array_numeric_raw_f64,
    rebuild_array_numeric_raw_f64_allow_holes, rebuild_array_numeric_raw_f64_dense_window,
    replay_array_growth_write_barriers, store_array_slot, transfer_array_numeric_layout,
    ArrayFlags, ArrayHeader, ArrayObject, HeapNote, NumericArrayLayout,
};
use perry::array_props::{
    array_named_property_delete, array_named_property_get, array_named_property_get_by_name,
    array_named_property_has, array_named_property_names, array_named_property_set,
    array_named_props_install_fresh, js_tagged_template_get_or_init,
    js_tagged_template_register_raw, js_template_raw, prune_dead_array_named_property_owners,
    scan_array_named_property_roots_mut, scan_template_raw_roots_mut, ArrayNamedProperty,
    ArrayNamedProps, TemplateObject, TemplateTables,
};
use perry::array_receiver::{
    array_object_flags_from_tag, array_ptr_as_proxy, array_receiver_addr, array_receiver_gc_tag,
    clean_arr_ptr, js_array_refresh_local_head, normalize_array_receiver, refreshed_head_of,
    typed_array_receiver, CleanPtr, Heap, HeapEntry, HeapKind, Normalized, OwnedHeader,
    RefreshedHead,
};
use perry::nanbox::{
    double_is_int32, int32_to_double_bits, js_array_numeric_value_to_raw_f64,
    value_bits_are_numeric, value_bits_to_number, ValueTags, CANONICAL_NAN,
};
use perry::roots::{RuntimeRootVisitor, Visit};

const HOLE: u64 = 0x7FFC_0000_0000_0005;
const UNDEFINED: u64 = 0x7FFC_0000_0000_0001;

fn tags() -> ValueTags {
    ValueTags { hole: HOLE, class_ids: HashSet::from([77]) }
}

fn boxed_int(n: i32) -> u64 {
    0x7FFE_0000_0000_0000 | u64::from(n as u32)
}

fn pointer(addr: u64) -> u64 {
    0x7FFD_0000_0000_0000 | addr
}

fn num(x: f64) -> u64 {
    x.to_bits()
}

const PLAIN: ArrayFlags = ArrayFlags {
    raw_f64: false,
    raw_f64_holes: false,
    arguments_object: false,
    frozen: false,
    sealed: false,
    no_extend: false,
    descriptors: false,
};

fn array(elements: &[u64], capacity: u32) -> ArrayObject {
    let mut slots = elements.to_vec();
    slots.resize(capacity as usize, HOLE);
    ArrayObject {
        header: ArrayHeader { length: elements.len() as u32, capacity },
        is_array: true,
        flags: PLAIN,
        slots,
        old_gen: false,
        notes: Vec::new(),
    }
}

#[test]
fn integers_become_their_doubles() {
    for n in [0, 1, -1, 2, 3, 7, 1000, -65536, i32::MAX, i32::MIN, i32::MIN + 1, 1 << 30] {
        assert_eq!(int32_to_double_bits(n), f64::from(n).to_bits());
        assert!(double_is_int32(f64::from(n).to_bits()));
        assert_eq!(value_bits_to_number(&tags(), boxed_int(n)), Some(num(f64::from(n))));
    }
    assert!(double_is_int32(num(-0.0)));
    for x in [0.5, 2147483648.0, -2147483649.0, f64::NAN, f64::INFINITY, 1e300, 5e-324] {
        assert!(!double_is_int32(num(x)));
    }
}

#[test]
fn boxed_values_are_no_numbers() {
    let t = tags();
    assert_eq!(value_bits_to_number(&t, HOLE), None);
    assert_eq!(value_bits_to_number(&t, pointer(0x1000)), None);
    assert_eq!(value_bits_to_number(&t, 0x7FFF_0000_0000_1000), None);
    assert_eq!(value_bits_to_number(&t, boxed_int(77)), None, "a class reference is no number");
    assert_eq!(value_bits_to_number(&t, num(2.5)), Some(num(2.5)));
    assert_eq!(value_bits_to_number(&t, num(f64::INFINITY)), Some(num(f64::INFINITY)));
    assert_eq!(value_bits_to_number(&t, 0xFFF8_0000_0000_0001), Some(CANONICAL_NAN));
    assert!(value_bits_are_numeric(&t, boxed_int(5)));
    assert!(!value_bits_are_numeric(&t, UNDEFINED));
    assert_eq!(js_array_numeric_value_to_raw_f64(&t, boxed_int(5)), num(5.0));
    assert_eq!(js_array_numeric_value_to_raw_f64(&t, UNDEFINED), CANONICAL_NAN);
}

#[test]
fn numeric_arrays_take_the_dense_layout() {
    let t = tags();
    let mut a = array(&[num(1.5), boxed_int(2), num(-3.0)], 4);
    assert!(array_slots_are_numeric(&t, &a));
    assert!(rebuild_array_numeric_raw_f64(&t, &mut a));
    assert_eq!(a.slots[..3], [num(1.5), num(2.0), num(-3.0)]);
    assert!(array_has_raw_f64_layout_flag(&a));
    assert!(!array_has_raw_f64_holes_flag(&a));
    assert_eq!(array_numeric_layout(&a), Some(NumericArrayLayout::RawF64));
    assert_eq!(array_numeric_raw_f64_get(&t, &mut a, 1), Some(num(2.0)));
    assert_eq!(array_numeric_raw_f64_get(&t, &mut a, 3), None);
    assert!(array_numeric_raw_f64_set_inbounds(&t, &mut a, 0, boxed_int(9)));
    assert_eq!(a.slots[0], num(9.0));
    assert!(array_numeric_raw_f64_push_inbounds(&t, &mut a, boxed_int(8)));
    assert_eq!((a.header.length, a.slots[3]), (4, num(8.0)));
    assert!(!array_numeric_raw_f64_push_inbounds(&t, &mut a, boxed_int(8)), "it is full");
    assert_eq!(js_array_is_numeric_f64_layout(&t, &mut a), 1);
}

#[test]
fn a_foreign_store_takes_the_layout_back() {
    let t = tags();
    let mut a = array(&[num(1.0), num(2.0)], 2);
    assert_eq!(js_array_mark_numeric_f64_layout(&t, &mut a), 1);
    assert_eq!(canonicalize_array_numeric_store_bits(&t, &a, boxed_int(3)), num(3.0));
    note_array_slot(&t, &mut a, 1, pointer(0x40));
    assert!(!array_has_raw_f64_layout_flag(&a));
    assert_eq!(a.slots[1], pointer(0x40));
    assert_eq!(canonicalize_array_numeric_store_bits(&t, &a, boxed_int(3)), boxed_int(3));
    assert!(a.notes.contains(&HeapNote::Barrier { index: 1, bits: pointer(0x40) }));
    assert_eq!(js_array_mark_numeric_f64_layout(&t, &mut a), 0);
}

#[test]
fn holes_have_a_layout_of_their_own() {
    let t = tags();
    let mut a = array(&[num(1.0), HOLE, boxed_int(3)], 3);
    assert!(!rebuild_array_numeric_raw_f64(&t, &mut a));
    assert!(rebuild_array_numeric_raw_f64_allow_holes(&t, &mut a));
    assert!(array_has_raw_f64_holes_flag(&a));
    assert_eq!(a.slots, vec![num(1.0), HOLE, num(3.0)]);
    assert!(!rebuild_array_numeric_raw_f64_dense_window(&t, &mut a, 0, 3));
    assert!(rebuild_array_numeric_raw_f64_dense_window(&t, &mut a, 2, 3));
    let mut b = array(&[num(1.0), num(2.0)], 2);
    rebuild_array_numeric_raw_f64(&t, &mut b);
    demote_array_raw_f64_dense_to_holes(&mut b);
    note_array_hole_fill_slot(&t, &mut b, 0);
    assert!(array_has_raw_f64_holes_flag(&b) && !array_has_raw_f64_layout_flag(&b));
    assert_eq!(b.slots, vec![HOLE, num(2.0)]);
    js_array_clear_numeric_layout(&mut b);
    assert_eq!(array_numeric_layout(&b), None);
}

#[test]
fn layouts_follow_a_grown_array() {
    let t = tags();
    let mut from = array(&[num(1.0), num(2.0)], 2);
    rebuild_array_numeric_raw_f64(&t, &mut from);
    let mut to = array(&[num(1.0), num(2.0)], 4);
    transfer_array_numeric_layout(&from, &mut to);
    assert!(array_has_raw_f64_layout_flag(&to));
    store_array_slot(&t, &mut to, 1, boxed_int(6));
    assert_eq!(to.slots[1], num(6.0));
    assert_eq!(array_byte_size(4), 40);
    assert_eq!(gc_element_slot_range(&to), Some(2));
    to.header.length = 9;
    assert_eq!(gc_element_slot_range(&to), None);
}

#[test]
fn growing_replays_the_barriers_of_old_arrays() {
    let mut young = array(&[pointer(1), num(2.0)], 2);
    replay_array_growth_write_barriers(&mut young, &None);
    assert!(young.notes.is_empty());
    let mut old = array(&[pointer(1), num(2.0)], 2);
    old.old_gen = true;
    replay_array_growth_write_barriers(&mut old, &Some(vec![0]));
    assert_eq!(old.notes, vec![HeapNote::Barrier { index: 0, bits: pointer(1) }]);
    let mut unknown = array(&[pointer(1), num(2.0)], 2);
    unknown.old_gen = true;
    replay_array_growth_write_barriers(&mut unknown, &None);
    assert_eq!(unknown.notes, vec![HeapNote::BarrierRange { length: 2 }]);
}

#[test]
fn array_marks_are_kept_apart() {
    let mut a = array(&[], 0);
    js_array_mark_arguments_object(&mut a);
    assert!(array_has_arguments_object_flag(&a));
    assert!(!array_is_frozen(&a) && !array_is_sealed_or_no_extend(&a));
    mark_template_array_frozen(&mut a);
    assert!(array_is_frozen(&a) && array_is_sealed_or_no_extend(&a));
    let mut no_array = ArrayObject { is_array: false, ..array(&[], 0) };
    js_array_mark_arguments_object(&mut no_array);
    assert!(!array_has_arguments_object_flag(&no_array));
    let mut b = array(&[num(1.0)], 1);
    rebuild_array_layout(&tags(), &mut b);
    assert!(b.notes.contains(&HeapNote::LayoutFromSlots { length: 1, exact: false }));
    mark_array_layout_unknown(&mut b);
    assert!(b.notes.contains(&HeapNote::LayoutUnknown));
}

const NOWHERE: HeapEntry = HeapEntry {
    plausible: true,
    owned: None,
    raw_kind: None,
    raw_flags: 0,
    lazy_magic: false,
    buffer: false,
    typed_array: false,
    proxy: false,
    header: ArrayHeader { length: 2, capacity: 4 },
};

fn owned(kind: HeapKind, forward_to: Option<u64>) -> HeapEntry {
    HeapEntry {
        owned: Some(OwnedHeader {
            kind,
            forwarded: forward_to.is_some(),
            forward_to: forward_to.unwrap_or(0),
        }),
        raw_kind: Some(kind),
        ..NOWHERE
    }
}

fn heap(entries: &[(u64, HeapEntry)]) -> Heap {
    Heap { entries: entries.iter().copied().collect() }
}

#[test]
fn clean_arr_ptr_still_rejects_a_typed_array_receiver() {
    let ta = 0x5000;
    let h = heap(&[(ta, HeapEntry { typed_array: true, ..owned(HeapKind::OtherKind, None) })]);
    assert!(
        h.registered_typed_array(ta),
        "a freshly allocated typed array must be registered, or the probe \
         below proves nothing about ordering"
    );
    assert_eq!(
        clean_arr_ptr(&h, ta),
        CleanPtr::Null,
        "clean_arr_ptr must keep rejecting a typed array that the collector owns"
    );
    assert_eq!(typed_array_receiver(&h, ta), Some(ta));
    assert_eq!(typed_array_receiver(&h, pointer(ta)), Some(ta));
    assert_eq!(copy_within_route(&h, pointer(ta)), CopyWithinRoute::TypedArray(ta));
    assert_eq!(copy_route(&h, ta), CopyRoute::TypedArray(ta));
}

#[test]
fn receivers_are_stripped_and_followed() {
    let h = heap(&[
        (0x1000, owned(HeapKind::Array, Some(0x2000))),
        (0x2000, owned(HeapKind::Array, Some(0x3000))),
        (0x3000, owned(HeapKind::Array, None)),
        (0x4000, owned(HeapKind::Object, None)),
        (0x5000, HeapEntry { lazy_magic: true, ..owned(HeapKind::LazyArray, None) }),
        (0x6000, HeapEntry { buffer: true, ..NOWHERE }),
        (0x7000, owned(HeapKind::Array, Some(0x4000))),
        (0x8000, HeapEntry { plausible: false, ..owned(HeapKind::Array, None) }),
        (0x9000, NOWHERE),
        (0xA000, owned(HeapKind::Array, Some(0xA000))),
    ]);
    assert_eq!(clean_arr_ptr(&h, 0x1000), CleanPtr::At(0x3000));
    assert_eq!(clean_arr_ptr(&h, pointer(0x1000)), CleanPtr::At(0x3000));
    assert_eq!(clean_arr_ptr(&h, 0x4000), CleanPtr::Null);
    assert_eq!(clean_arr_ptr(&h, pointer(0x5000)), CleanPtr::Materialize(0x5000));
    assert_eq!(clean_arr_ptr(&h, 0x6000), CleanPtr::At(0x6000));
    assert_eq!(clean_arr_ptr(&h, 0x7000), CleanPtr::Null);
    assert_eq!(clean_arr_ptr(&h, 0x8000), CleanPtr::Null);
    assert_eq!(clean_arr_ptr(&h, 0x9000), CleanPtr::Null);
    assert_eq!(clean_arr_ptr(&h, 0xA000), CleanPtr::Null, "a cycle of moves leads nowhere");
    assert_eq!(clean_arr_ptr(&h, UNDEFINED), CleanPtr::Null);
    assert_eq!(clean_arr_ptr(&h, pointer(0)), CleanPtr::Null);
    assert_eq!(normalize_array_receiver(&h, pointer(0x4000)), Normalized::ArrayLike(0x4000));
    assert_eq!(
        normalize_array_receiver(&h, 0x1000),
        Normalized::Resolved(CleanPtr::At(0x3000))
    );
    assert_eq!(array_receiver_addr(pointer(0x1000)), 0x1000);
    assert_eq!(copy_route(&h, 0x1000), CopyRoute::Array(0x3000));
    assert_eq!(copy_route(&h, 0x9000), CopyRoute::Empty);
    assert_eq!(copy_route(&h, 0x5000), CopyRoute::Materialize(0x5000));
    assert_eq!(copy_within_route(&h, 0x6000), CopyWithinRoute::Buffer(0x6000));
    assert_eq!(copy_within_route(&h, 0x1000), CopyWithinRoute::Array(0x3000));
    assert_eq!(copy_within_route(&h, 0x4000), CopyWithinRoute::Nothing);
}

#[test]
fn headers_that_make_no_sense_are_rejected() {
    let with = |header| HeapEntry { header, ..owned(HeapKind::Array, None) };
    let h = heap(&[
        (0x10, with(ArrayHeader { length: 100_000_001, capacity: 100_000_001 })),
        (0x20, with(ArrayHeader { length: 50, capacity: 4 })),
        (0x30, with(ArrayHeader { length: u32::MAX, capacity: 1_000_001 })),
    ]);
    assert_eq!(clean_arr_ptr(&h, 0x10), CleanPtr::Null);
    assert_eq!(clean_arr_ptr(&h, 0x20), CleanPtr::At(0x20), "a sparse array");
    assert_eq!(clean_arr_ptr(&h, 0x30), CleanPtr::Null);
}

#[test]
fn stale_heads_are_refreshed() {
    let h = heap(&[
        (0x1000, owned(HeapKind::Array, Some(0x3000))),
        (0x3000, owned(HeapKind::Array, None)),
    ]);
    assert_eq!(
        js_array_refresh_local_head(&h, pointer(0x1000)),
        RefreshedHead::Value(pointer(0x3000))
    );
    assert_eq!(
        js_array_refresh_local_head(&h, pointer(0x3000)),
        RefreshedHead::Value(pointer(0x3000))
    );
    assert_eq!(js_array_refresh_local_head(&h, num(1.5)), RefreshedHead::Value(num(1.5)));
    assert_eq!(refreshed_head_of(0x3000), pointer(0x3000));
}

#[test]
fn proxies_and_header_words_are_found() {
    let h = heap(&[
        (0x100, HeapEntry { proxy: true, ..NOWHERE }),
        (0x20000, HeapEntry { raw_flags: 0x30, ..owned(HeapKind::Array, None) }),
    ]);
    assert_eq!(array_ptr_as_proxy(&h, 0x100), Some(pointer(0x100)));
    assert_eq!(array_ptr_as_proxy(&h, pointer(0x100)), Some(pointer(0x100)));
    assert_eq!(array_ptr_as_proxy(&h, 0x20000), None);
    let tag = array_receiver_gc_tag(&h, 0x20000);
    assert_eq!(tag, Some((HeapKind::Array, 0x30)));
    assert_eq!(array_object_flags_from_tag(tag), 0x30);
    assert_eq!(array_object_flags_from_tag(Some((HeapKind::Object, 0x30))), 0);
    assert_eq!(array_object_flags_from_tag(None), 0);
}

fn no_props() -> ArrayNamedProps {
    ArrayNamedProps { table: HashMap::new(), barriers: Vec::new() }
}

fn visitor(moves: &[(u64, u64)]) -> RuntimeRootVisitor {
    RuntimeRootVisitor {
        moves: moves.iter().copied().collect(),
        word_moves: moves.iter().map(|(a, b)| (pointer(*a), pointer(*b))).collect(),
        visits: Vec::new(),
    }
}

#[test]
fn named_properties_are_set_read_and_deleted() {
    let mut t = no_props();
    array_named_property_set(&mut t, 0x10, Some("index"), num(1.0));
    array_named_property_set(&mut t, 0x10, Some("input"), num(2.0));
    array_named_property_set(&mut t, 0x10, Some("index"), num(3.0));
    array_named_property_set(&mut t, 0, Some("index"), num(9.0));
    array_named_property_set(&mut t, 0x10, None, num(9.0));
    assert_eq!(array_named_property_get(&t, 0x10, Some("index")), Some(num(3.0)));
    assert_eq!(array_named_property_get_by_name(&t, 0x10, "input"), Some(num(2.0)));
    assert_eq!(array_named_property_get(&t, 0x20, Some("index")), None);
    assert!(array_named_property_has(&t, 0x10, Some("input")));
    assert!(!array_named_property_has(&t, 0x10, Some("inpu")));
    assert_eq!(array_named_property_names(&t, 0x10, false, &vec![]), vec!["index", "input"]);
    let hidden = vec!["index".to_string()];
    assert_eq!(array_named_property_names(&t, 0x10, true, &hidden), vec!["input"]);
    assert_eq!(array_named_property_names(&t, 0x10, false, &hidden).len(), 2);
    assert!(array_named_property_delete(&mut t, 0x10, Some("index")));
    assert!(!array_named_property_has(&t, 0x10, Some("index")));
    assert!(!array_named_property_delete(&mut t, 0x10, Some("index")));
    assert_eq!(array_named_property_get(&t, 0x10, Some("input")), Some(num(2.0)));
}

#[test]
fn fresh_properties_are_installed_at_once() {
    let mut t = no_props();
    array_named_property_set(&mut t, 0x10, Some("b"), num(9.0));
    let entries = vec![
        ArrayNamedProperty { name: "a".to_string(), value: num(1.0) },
        ArrayNamedProperty { name: "b".to_string(), value: num(2.0) },
    ];
    array_named_props_install_fresh(&mut t, 0x10, &entries);
    assert_eq!(array_named_property_names(&t, 0x10, false, &vec![]), vec!["b", "a"]);
    assert_eq!(array_named_property_get(&t, 0x10, Some("b")), Some(num(2.0)));
}

#[test]
fn moved_arrays_take_their_properties_along() {
    let mut t = no_props();
    array_named_property_set(&mut t, 0x10, Some("x"), pointer(0x30));
    array_named_property_set(&mut t, 0x20, Some("y"), num(2.0));
    let mut v = visitor(&[(0x10, 0x11), (0x30, 0x31)]);
    scan_array_named_property_roots_mut(&mut t, &mut v);
    assert_eq!(array_named_property_get(&t, 0x11, Some("x")), Some(pointer(0x31)));
    assert_eq!(array_named_property_get(&t, 0x10, Some("x")), None);
    assert_eq!(array_named_property_get(&t, 0x20, Some("y")), Some(num(2.0)));
    assert!(v.visits.contains(&Visit::Metadata(0x10)));
    assert!(v.visits.contains(&Visit::Word(pointer(0x30))));
    prune_dead_array_named_property_owners(&mut t, &HashSet::from([0x20]));
    assert_eq!(array_named_property_get(&t, 0x20, Some("y")), None);
    assert_eq!(array_named_property_get(&t, 0x11, Some("x")), Some(pointer(0x31)));
}

#[test]
fn a_template_object_is_made_once() {
    let mut t = TemplateTables { raw_map: HashMap::new(), cache: HashMap::new() };
    let mut p = no_props();
    let first = js_tagged_template_get_or_init(&mut t, &mut p, 7, 0x10, 0x20, pointer(0x20));
    assert_eq!(first, TemplateObject { cooked: 0x10, fresh: true });
    let again = js_tagged_template_get_or_init(&mut t, &mut p, 7, 0x50, 0x60, pointer(0x60));
    assert_eq!(again, TemplateObject { cooked: 0x10, fresh: false });
    assert_eq!(js_template_raw(&t, 0x10), 0x20);
    assert_eq!(js_template_raw(&t, 0x50), 0);
    assert_eq!(array_named_property_get(&p, 0x10, Some("raw")), Some(pointer(0x20)));
    assert_eq!(js_tagged_template_register_raw(&mut t, 0x70, 0), 0x70);
    assert_eq!(js_template_raw(&t, 0x70), 0);
    let mut v = visitor(&[(0x10, 0x11), (0x20, 0x21)]);
    scan_template_raw_roots_mut(&mut t, &mut p, &mut v);
    assert_eq!(js_template_raw(&t, 0x11), 0x21);
    assert_eq!(js_template_raw(&t, 0x10), 0);
    let moved = js_tagged_template_get_or_init(&mut t, &mut p, 7, 0x50, 0x60, pointer(0x60));
    assert_eq!(moved, TemplateObject { cooked: 0x11, fresh: false });
}

const TWO: IntegerArg = IntegerArg::Finite(2);

#[test]
fn relative_indexes_are_clamped() {
    let at = |arg| copy_within_relative_index(arg, 5);
    assert_eq!(at(IntegerArg::Finite(3)), 3);
    assert_eq!(at(IntegerArg::Finite(9)), 5);
    assert_eq!(at(IntegerArg::Finite(-2)), 3);
    assert_eq!(at(IntegerArg::Finite(-9)), 0);
    assert_eq!(at(IntegerArg::NegInfinity), 0);
    assert_eq!(at(IntegerArg::PosInfinity), 5);
    assert_eq!(at(IntegerArg::Finite(i64::MIN)), 0);
    assert_eq!(copy_within_to_length(IntegerArg::Finite(-4)), 0);
    assert_eq!(copy_within_to_length(TWO), 2);
    assert_eq!(copy_within_to_length(IntegerArg::PosInfinity), MAX_LENGTH);
    assert_eq!(copy_within_to_length(IntegerArg::NegInfinity), 0);
}

#[test]
fn copies_read_the_elements_as_they_were() {
    let run = |target, start, end| {
        let mut a = array(&[num(1.0), num(2.0), num(3.0), num(4.0), num(5.0)], 5);
        assert_eq!(copy_within(&mut a, 5, target, start, end), CopyWithinStep::Done);
        a.slots.iter().map(|b| f64::from_bits(*b)).collect::<Vec<_>>()
    };
    let zero = IntegerArg::Finite(0);
    assert_eq!(run(zero, TWO, None), vec![3.0, 4.0, 5.0, 4.0, 5.0]);
    assert_eq!(run(zero, TWO, Some(IntegerArg::Finite(3))), vec![3.0, 2.0, 3.0, 4.0, 5.0]);
    assert_eq!(run(TWO, zero, None), vec![1.0, 2.0, 1.0, 2.0, 3.0]);
    assert_eq!(run(IntegerArg::Finite(-1), zero, None), vec![1.0, 2.0, 3.0, 4.0, 1.0]);
    assert_eq!(run(IntegerArg::PosInfinity, zero, None), vec![1.0, 2.0, 3.0, 4.0, 5.0]);
    let mut four = array(&[num(1.0), num(2.0), num(3.0), num(4.0)], 4);
    copy_within(&mut four, 4, zero, TWO, None);
    assert_eq!(four.slots, vec![num(3.0), num(4.0), num(3.0), num(4.0)]);
}

#[test]
fn an_array_changed_meanwhile_is_copied_step_by_step() {
    let mut a = array(&[num(1.0), num(2.0), num(3.0)], 3);
    let step = copy_within(&mut a, 5, IntegerArg::Finite(1), IntegerArg::Finite(0), None);
    let plan = CopyPlan { from: 3, to: 4, backwards: true, count: 4 };
    assert_eq!(step, CopyWithinStep::Steps(plan));
    assert_eq!(a.slots, vec![num(1.0), num(2.0), num(3.0)]);
    assert_eq!(plan.step(0), (3, 4));
    assert_eq!(plan.step(3), (0, 1));
    assert_eq!(plan_copies(0, 2, 3), CopyPlan { from: 2, to: 0, backwards: false, count: 3 });
    assert_eq!(step_action(3, 4, true), StepAction::Write { from: 3, to: 4 });
    assert_eq!(step_action(3, 4, false), StepAction::Delete { at: 4 });
}

#[test]
fn objects_are_copied_within_by_their_length() {
    let run = |receiver, len| {
        js_array_copy_within_value(receiver, len, IntegerArg::Finite(0), TWO, None)
    };
    assert_eq!(run(ValueReceiver::Nullish, 5), ValueCopy::NotAnObject);
    assert_eq!(run(ValueReceiver::StringObject, 5), ValueCopy::ReadOnly);
    assert_eq!(run(ValueReceiver::StringObject, 2), ValueCopy::Unchanged);
    assert_eq!(
        run(ValueReceiver::Object, 5),
        ValueCopy::Steps(CopyPlan { from: 2, to: 0, backwards: false, count: 3 })
    );
    assert_eq!(not_an_object_message(), "Cannot convert undefined or null to object");
    assert_eq!(read_only_message(), "Cannot assign to read only property");
    assert_eq!(cannot_delete_message(), "Cannot delete property");
}

#[test]
fn copies_with_changes_leave_the_array_alone() {
    let a = array(&[num(1.0), num(2.0), num(3.0)], 4);
    assert_eq!(js_array_to_reversed(&a), vec![num(3.0), num(2.0), num(1.0)]);
    assert_eq!(
        js_array_to_spliced(&a, IntegerArg::Finite(1), IntegerArg::Finite(1), &vec![7, 8]),
        vec![num(1.0), 7, 8, num(3.0)]
    );
    assert_eq!(
        js_array_to_spliced(&a, IntegerArg::Finite(-1), IntegerArg::PosInfinity, &vec![]),
        vec![num(1.0), num(2.0)]
    );
    assert_eq!(
        js_array_to_spliced(&a, IntegerArg::PosInfinity, TWO, &vec![9]),
        vec![num(1.0), num(2.0), num(3.0), 9]
    );
    assert_eq!(
        js_array_with(&a, IntegerArg::Finite(-1), 9),
        Some(vec![num(1.0), num(2.0), 9])
    );
    assert_eq!(js_array_with(&a, IntegerArg::Finite(3), 9), None);
    assert_eq!(js_array_with(&a, IntegerArg::Finite(-4), 9), None);
    assert_eq!(js_array_with(&a, IntegerArg::PosInfinity, 9), None);
    assert_eq!(a.slots[..3], [num(1.0), num(2.0), num(3.0)]);
    let mut fresh = array(&[], 4);
    fill_fresh_array(&tags(), &mut fresh, &vec![boxed_int(7), num(1.0)]);
    assert_eq!((fresh.header.length, &fresh.slots[..2]), (2, &[num(7.0), num(1.0)][..]));
    assert!(array_has_raw_f64_layout_flag(&fresh));
}

#[test]
fn sorted_copies_read_holes_as_undefined() {
    let t = tags();
    let a = array(&[num(1.0), HOLE, num(3.0)], 3);
    assert_eq!(js_array_to_sorted_default(&t, &a, UNDEFINED), vec![num(1.0), UNDEFINED, num(3.0)]);
    let (copy, path) = js_array_to_sorted_with_comparator(&t, &a, UNDEFINED, true);
    assert_eq!((copy.len(), path), (3, SortPath::Comparator));
    let (_, path) = js_array_to_sorted_with_comparator(&t, &a, UNDEFINED, false);
    assert_eq!(path, SortPath::DefaultOrder);
}

#[test]
fn reversing_and_splicing_can_be_undone() {
    let a = array(&[num(1.0), num(2.0), num(3.0), num(4.0)], 4);
    let reversed = js_array_to_reversed(&a);
    assert_eq!(js_array_to_reversed(&array(&reversed, 4)), a.slots);
    let one = IntegerArg::Finite(1);
    let out = js_array_to_spliced(&a, one, TWO, &vec![7, 8, 9]);
    assert_eq!(out, vec![num(1.0), 7, 8, 9, num(4.0)]);
    let removed = vec![num(2.0), num(3.0)];
    let back = js_array_to_spliced(&array(&out, 5), one, IntegerArg::Finite(3), &removed);
    assert_eq!(back, a.slots);
}

#[test]
fn the_order_of_steps_gives_the_elements_as_they_were() {
    for (t, s) in [(0, 2), (2, 0), (1, 1), (3, 1)] {
        let before: Vec<i64> = (0..8).collect();
        let count = 8 - t.max(s);
        let plan = plan_copies(t, s, count);
        let mut steps = before.clone();
        for k in 0..plan.count {
            let (from, to) = plan.step(k);
            assert!((0..8).contains(&from) && (0..8).contains(&to));
            steps[to as usize] = steps[from as usize];
        }
        let mut moved = before.clone();
        moved.copy_within(s as usize..(s + count) as usize, t as usize);
        assert_eq!(steps, moved);
    }
}

#[test]
fn resolving_twice_changes_nothing() {
    let h = heap(&[
        (0x1000, owned(HeapKind::Array, Some(0x3000))),
        (0x3000, owned(HeapKind::Array, None)),
    ]);
    for bits in [0x1000, pointer(0x1000), 0x3000] {
        match clean_arr_ptr(&h, bits) {
            CleanPtr::At(addr) => assert_eq!(clean_arr_ptr(&h, addr), CleanPtr::At(addr)),
            _ => panic!("it is an array"),
        }
    }
}

#[test]
fn template_arrays_are_shown_to_the_collector() {
    let mut t = TemplateTables { raw_map: HashMap::new(), cache: HashMap::new() };
    let mut p = no_props();
    js_tagged_template_get_or_init(&mut t, &mut p, 1, 0x10, 0x20, pointer(0x20));
    let mut v = visitor(&[]);
    scan_template_raw_roots_mut(&mut t, &mut p, &mut v);
    assert!(v.visits.contains(&Visit::Pointer(0x10)));
    assert!(v.visits.contains(&Visit::Pointer(0x20)));
}

/// Copy within an array, up to an end that is a number, or without one.
fn copy_within(
    a: &mut ArrayObject,
    len: u32,
    target: IntegerArg,
    start: IntegerArg,
    end: Option<IntegerArg>,
) -> CopyWithinStep {
    let word = end.map(|_| num(1.0));
    let integer = end.unwrap_or(IntegerArg::Finite(0));
    js_array_copy_within(&tags(), a, len, target, start, word, UNDEFINED, integer)
}

/// Copy within an array of numbers.
fn numbers_copied_within(
    elements: [f64; 4],
    target: i64,
    start: i64,
    end: Option<i64>,
) -> [f64; 4] {
    let mut a = array(&elements.map(num), 4);
    let (target, start) = (IntegerArg::Finite(target), IntegerArg::Finite(start));
    let step = copy_within(&mut a, 4, target, start, end.map(IntegerArg::Finite));
    assert_eq!(step, CopyWithinStep::Done);
    [0, 1, 2, 3].map(|i: usize| f64::from_bits(a.slots[i]))
}

/// Carry a plan out on elements of another width than an array's slots.
fn copied_within<T: Copy>(
    elements: &[T],
    target: i64,
    start: i64,
    end: Option<i64>,
) -> Vec<T> {
    let mut out = elements.to_vec();
    let copy = js_array_copy_within_value(
        ValueReceiver::Object,
        elements.len() as i64,
        IntegerArg::Finite(target),
        IntegerArg::Finite(start),
        end.map(IntegerArg::Finite),
    );
    if let ValueCopy::Steps(plan) = copy {
        for k in 0..plan.count {
            let (from, to) = plan.step(k);
            out[to as usize] = out[from as usize];
        }
    }
    out
}

#[test]
fn js_array_copy_within_copies_typed_elements() {
    let ta = 0x5000;
    let h = heap(&[(ta, HeapEntry { typed_array: true, ..owned(HeapKind::OtherKind, None) })]);
    for bits in [ta, pointer(ta)] {
        assert_eq!(copy_within_route(&h, bits), CopyWithinRoute::TypedArray(ta));
    }
    let elements: [u16; 4] = [1, 2, 3, 4];
    assert_eq!(copied_within(&elements, 0, 2, None), vec![3, 4, 3, 4]);
    assert_eq!(copied_within(&elements, -2, -4, Some(99)), vec![1, 2, 1, 2]);
    assert_eq!(numbers_copied_within([1.0, 2.0, 3.0, 4.0], 0, 2, None), [3.0, 4.0, 3.0, 4.0]);
    assert_eq!(
        numbers_copied_within([1.0, 2.0, 3.0, 4.0], -2, -4, Some(99)),
        [1.0, 2.0, 1.0, 2.0]
    );
    assert_eq!(copy_within_relative_index(IntegerArg::Finite(-2), 4), 2);
    assert_eq!(copy_within_relative_index(IntegerArg::Finite(-4), 4), 0);
    assert_eq!(copy_within_relative_index(IntegerArg::Finite(99), 4), 4);
}

#[test]
fn js_array_copy_within_handles_a_registered_buffer_in_both_arg_forms() {
    let buffer = 0x6000;
    let h = heap(&[(buffer, HeapEntry { buffer: true, ..NOWHERE })]);
    assert!(h.registered_buffer(buffer), "the receiver must be a registered buffer");
    for bits in [buffer, pointer(buffer)] {
        assert_eq!(
            copy_within_route(&h, bits),
            CopyWithinRoute::Buffer(buffer),
            "copyWithin must work on the receiver itself"
        );
    }
    let bytes: [i32; 4] = [1, 2, 3, 4];
    assert_eq!(copied_within(&bytes, 0, 2, None), vec![3, 4, 3, 4]);
    assert_eq!(copied_within(&bytes, 0, 2, Some(3)), vec![3, 2, 3, 4]);
    assert_eq!(numbers_copied_within([1.0, 2.0, 3.0, 4.0], 0, 2, None), [3.0, 4.0, 3.0, 4.0]);
    assert_eq!(numbers_copied_within([1.0, 2.0, 3.0, 4.0], 0, 2, Some(3)), [3.0, 2.0, 3.0, 4.0]);
}

#[test]
fn plain_array_mutators_are_unchanged_by_the_typed_pre_check() {
    let at = 0x7000;
    let h = heap(&[(at, owned(HeapKind::Array, None))]);
    for bits in [at, pointer(at)] {
        assert_eq!(typed_array_receiver(&h, bits), None);
        assert_eq!(copy_within_route(&h, bits), CopyWithinRoute::Array(at));
    }
    let mut a = array(&[num(1.0), num(2.0), num(3.0), num(4.0)], 4);
    let step = copy_within(&mut a, 4, IntegerArg::Finite(0), IntegerArg::Finite(2), None);
    assert_eq!(step, CopyWithinStep::Done);
    assert_eq!(a.slots, [num(3.0), num(4.0), num(3.0), num(4.0)]);
}

#[test]
fn splicing_no_array_gives_an_empty_one() {
    let h = heap(&[
        (0x5000, HeapEntry { typed_array: true, ..owned(HeapKind::OtherKind, None) }),
        (0x7000, owned(HeapKind::Array, None)),
        (0x8000, HeapEntry { lazy_magic: true, ..owned(HeapKind::LazyArray, None) }),
    ]);
    assert_eq!(splice_route(&h, UNDEFINED), CopyRoute::Empty);
    assert_eq!(splice_route(&h, pointer(0x5000)), CopyRoute::Empty, "typed arrays lack it");
    assert_eq!(splice_route(&h, pointer(0x7000)), CopyRoute::Array(0x7000));
    assert_eq!(splice_route(&h, pointer(0x8000)), CopyRoute::Materialize(0x8000));
    let items = vec![num(8.0), num(9.0)];
    let (start, count) = (IntegerArg::Finite(1), IntegerArg::Finite(1));
    assert!(spliced_copy(None, start, count, &items).is_empty(), "the items are left out too");
    let a = array(&[num(1.0), num(2.0), num(3.0)], 4);
    assert_eq!(
        spliced_copy(Some(&a), start, count, &items),
        vec![num(1.0), num(8.0), num(9.0), num(3.0)]
    );
}

#[test]
fn missing_properties_are_deleted_at_the_target() {
    assert_eq!(object_step(3, 1, true), ObjectStep::Write(3, 1));
    assert_eq!(object_step(3, 1, false), ObjectStep::Delete(1));
    assert_eq!(object_step(1 << 40, 0, true), ObjectStep::Write(1 << 40, 0));
    assert_eq!(deletion_result(true), Ok(()));
    assert_eq!(deletion_result(false), Err("Cannot delete property"));
}

#[test]
fn an_undefined_end_is_no_end() {
    assert_eq!(copy_within_end(None, UNDEFINED), None);
    assert_eq!(copy_within_end(Some(UNDEFINED), UNDEFINED), None);
    assert_eq!(copy_within_end(Some(num(3.0)), UNDEFINED), Some(num(3.0)));
    let run = |end: Option<u64>, integer: i64| {
        let mut a = array(&[num(1.0), num(2.0), num(3.0), num(4.0)], 4);
        let (target, start) = (IntegerArg::Finite(0), IntegerArg::Finite(2));
        let integer = IntegerArg::Finite(integer);
        let step =
            js_array_copy_within(&tags(), &mut a, 4, target, start, end, UNDEFINED, integer);
        assert_eq!(step, CopyWithinStep::Done);
        a.slots.iter().map(|b| f64::from_bits(*b)).collect::<Vec<_>>()
    };
    assert_eq!(run(None, 0), vec![3.0, 4.0, 3.0, 4.0]);
    assert_eq!(run(Some(UNDEFINED), 0), vec![3.0, 4.0, 3.0, 4.0], "it is not taken for 0");
    assert_eq!(run(Some(num(0.0)), 0), vec![1.0, 2.0, 3.0, 4.0]);
    assert_eq!(run(Some(num(3.0)), 3), vec![3.0, 2.0, 3.0, 4.0]);
    let mut shrunk = array(&[num(1.0)], 4);
    assert_eq!(
        js_array_copy_within(
            &tags(),
            &mut shrunk,
            4,
            IntegerArg::Finite(0),
            IntegerArg::Finite(2),
            Some(UNDEFINED),
            UNDEFINED,
            IntegerArg::Finite(0),
        ),
        CopyWithinStep::Steps(CopyPlan { from: 2, to: 0, backwards: false, count: 2 })
    );
}
