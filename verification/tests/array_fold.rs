//! Rewriting method calls on locals.

use perry::array_fold::{
    callback_fold, decode_fold, method_of, receiver_is_class_instance,
    receiver_is_non_array_builtin_wrapper, receiver_type_is_capitalized, search_params_fold,
    try_local_array_methods, CallObject, CallSite, CallbackNode, FoldStep, Method, Receiver,
    TypeNameFacts,
};
use perry::hir::{Expr, Type, NUMBER_INFINITY, NUMBER_ZERO};

fn named(n: &str) -> Option<Type> {
    Some(Type::Named(n.to_string()))
}

fn array() -> Option<Type> {
    Some(Type::Array(Box::new(Type::Number)))
}

fn generic(base: &str) -> Option<Type> {
    Some(Type::Generic { base: base.to_string(), type_args: vec![Type::Any] })
}

const NO_NAMES: TypeNameFacts =
    TypeNameFacts { class: false, interface: false, imported: false, function: false };

fn receiver(ty: Option<Type>) -> Receiver {
    Receiver { ty, names: NO_NAMES, is_proxy: false, local: Some(9) }
}

fn site(ty: Option<Type>, method: &str, spreads: &[bool]) -> CallSite {
    CallSite {
        method: Some(method.to_string()),
        object: CallObject::Local(receiver(ty)),
        spreads: spreads.to_vec(),
    }
}

/// Arguments 100, 101, ..
fn args(n: usize) -> Vec<Expr> {
    (0..n).map(|i| Expr::Other(100 + i as u64)).collect()
}

fn fold(ty: Option<Type>, method: &str, n: usize) -> FoldStep {
    try_local_array_methods(&site(ty, method, &vec![false; n]), args(n))
}

fn folded(ty: Option<Type>, method: &str, n: usize) -> Expr {
    match fold(ty, method, n) {
        FoldStep::Folded(e) => e,
        _ => panic!("{method} must fold"),
    }
}

fn declines(ty: Option<Type>, method: &str, n: usize) -> bool {
    match fold(ty, method, n) {
        FoldStep::Declined(back) => back.len() == n,
        _ => false,
    }
}

fn is_arg(e: &Expr, i: u64) -> bool {
    matches!(e, Expr::Other(n) if *n == 100 + i)
}

fn is_local(e: &Expr) -> bool {
    matches!(e, Expr::LocalGet(9))
}

#[test]
fn boxed_primitive_wrappers_decline_the_array_fold() {
    for n in ["Object", "Number", "Boolean", "Symbol", "BigInt"] {
        assert!(
            receiver_is_non_array_builtin_wrapper(named(n).as_ref()),
            "{n} wrapper must decline the array fast path"
        );
    }
}

#[test]
fn string_wrapper_is_not_claimed_here() {
    assert!(!receiver_is_non_array_builtin_wrapper(named("String").as_ref()));
}

#[test]
fn real_array_receivers_keep_the_fold() {
    assert!(!receiver_is_non_array_builtin_wrapper(Some(&Type::Array(
        Box::new(Type::Number)
    ))));
    assert!(!receiver_is_non_array_builtin_wrapper(Some(
        &Type::Generic {
            base: "Array".to_string(),
            type_args: vec![Type::Number],
        }
    )));
    assert!(!receiver_is_non_array_builtin_wrapper(Some(&Type::Any)));
    assert!(!receiver_is_non_array_builtin_wrapper(None));
    assert!(!receiver_is_non_array_builtin_wrapper(
        named("NumberLike").as_ref()
    ));
}

#[test]
fn class_instances_are_told_from_arrays() {
    assert!(receiver_is_class_instance(named("Semver").as_ref()));
    assert!(receiver_is_class_instance(generic("Stack").as_ref()));
    assert!(!receiver_is_class_instance(generic("Array").as_ref()));
    for n in ["Int8Array", "Uint8ClampedArray", "BigUint64Array", "Float16Array"] {
        assert!(!receiver_is_class_instance(named(n).as_ref()));
    }
    assert!(!receiver_is_class_instance(array().as_ref()));
    assert!(!receiver_is_class_instance(None));
}

#[test]
fn pushes_keep_their_order_and_their_spreads() {
    match folded(array(), "push", 1) {
        Expr::ArrayPush { array_id: 9, value } => assert!(is_arg(&value, 0)),
        _ => panic!("one push"),
    }
    match folded(array(), "push", 3) {
        Expr::Sequence(pushes) => {
            assert_eq!(pushes.len(), 3);
            for (i, p) in pushes.iter().enumerate() {
                match p {
                    Expr::ArrayPush { array_id: 9, value } => assert!(is_arg(value, i as u64)),
                    _ => panic!("a push"),
                }
            }
        }
        _ => panic!("a sequence"),
    }
    match try_local_array_methods(&site(array(), "push", &[false, true]), args(2)) {
        FoldStep::Folded(Expr::Sequence(pushes)) => {
            assert!(matches!(pushes[0], Expr::ArrayPush { .. }));
            assert!(matches!(pushes[1], Expr::ArrayPushSpread { .. }));
        }
        _ => panic!("a sequence"),
    }
    match try_local_array_methods(&site(array(), "push", &[true]), args(1)) {
        FoldStep::Folded(Expr::ArrayPushSpread { array_id: 9, source }) => {
            assert!(is_arg(&source, 0))
        }
        _ => panic!("a spread push"),
    }
    match folded(array(), "push", 0) {
        Expr::NativeMethodCall { module, class_name: None, object: Some(o), method, args } => {
            assert_eq!((module.as_str(), method.as_str(), args.len()), ("array", "push", 0));
            assert!(is_local(&o));
        }
        _ => panic!("the native call"),
    }
}

#[test]
fn spread_calls_other_than_push_are_declined() {
    for m in ["map", "slice", "splice", "unshift", "join", "concat"] {
        match try_local_array_methods(&site(array(), m, &[true, false]), args(2)) {
            FoldStep::Declined(back) => {
                assert!(is_arg(&back[0], 0) && is_arg(&back[1], 1));
            }
            _ => panic!("{m} must decline"),
        }
    }
}

#[test]
fn callbacks_are_handed_out_to_be_wrapped() {
    let nodes = [
        ("forEach", CallbackNode::ForEach),
        ("map", CallbackNode::MapEach),
        ("filter", CallbackNode::Filter),
        ("find", CallbackNode::Find),
        ("findIndex", CallbackNode::FindIndex),
        ("findLast", CallbackNode::FindLast),
        ("findLastIndex", CallbackNode::FindLastIndex),
        ("some", CallbackNode::AnyMatch),
        ("every", CallbackNode::EveryMatch),
        ("flatMap", CallbackNode::FlatMap),
    ];
    for (name, expected) in nodes {
        match fold(array(), name, 1) {
            FoldStep::WrapCallback { node, array_id: 9, callback } => {
                assert_eq!(node, expected);
                assert!(is_arg(&callback, 0));
            }
            _ => panic!("{name} takes a callback"),
        }
        assert!(declines(array(), name, 0));
    }
    assert!(matches!(
        callback_fold(CallbackNode::EveryMatch, 9, Expr::Undefined),
        Expr::ArrayEvery { .. }
    ));
    assert!(matches!(
        callback_fold(CallbackNode::FlatMap, 9, Expr::Undefined),
        Expr::ArrayFlatMap { .. }
    ));
}

#[test]
fn a_this_argument_goes_through_the_general_method() {
    match folded(array(), "every", 2) {
        Expr::ArrayLikeMethod { method, receiver, args } => {
            assert_eq!(method, "every");
            assert!(is_local(&receiver) && args.len() == 2);
        }
        _ => panic!("the general method"),
    }
    assert!(declines(generic("Set"), "forEach", 2));
    assert!(declines(generic("Map"), "forEach", 1));
    let optional_map =
        Some(Type::Union(vec![generic("Map").unwrap(), Type::Void]));
    assert!(declines(optional_map, "forEach", 1));
}

#[test]
fn strings_and_their_like_are_declined() {
    for m in ["indexOf", "includes", "push", "slice", "toReversed"] {
        assert!(declines(Some(Type::String), m, 1));
        assert!(declines(named("String"), m, 1));
        assert!(declines(Some(Type::Union(vec![Type::String, Type::Void])), m, 1));
    }
}

#[test]
fn untyped_receivers_keep_shared_names() {
    for ty in [None, Some(Type::Any), Some(Type::Unknown)] {
        let ty = || match &ty {
            None => None,
            Some(Type::Any) => Some(Type::Any),
            _ => Some(Type::Unknown),
        };
        for m in ["indexOf", "slice", "find", "push", "sort", "splice", "join", "reverse"] {
            assert!(declines(ty(), m, 1), "{m} may belong to anything");
        }
        assert!(matches!(folded(ty(), "toReversed", 0), Expr::ArrayToReversed { .. }));
        assert!(matches!(folded(ty(), "flat", 0), Expr::ArrayFlat { .. }));
    }
}

#[test]
fn own_classes_keep_their_methods() {
    let facts = [
        TypeNameFacts { class: true, ..NO_NAMES },
        TypeNameFacts { interface: true, ..NO_NAMES },
        TypeNameFacts { function: true, ..NO_NAMES },
    ];
    for names in facts {
        let s = CallSite {
            method: Some("push".to_string()),
            object: CallObject::Local(Receiver { names, ..receiver(named("Stack")) }),
            spreads: vec![false],
        };
        assert!(matches!(try_local_array_methods(&s, args(1)), FoldStep::Declined(_)));
    }
    let imported = |name: &str| CallSite {
        method: Some("join".to_string()),
        object: CallObject::Local(Receiver {
            names: TypeNameFacts { imported: true, ..NO_NAMES },
            ..receiver(named(name))
        }),
        spreads: vec![],
    };
    assert!(matches!(
        try_local_array_methods(&imported("Collection"), args(0)),
        FoldStep::Declined(_)
    ));
    assert!(matches!(
        try_local_array_methods(&imported("collection"), args(0)),
        FoldStep::Folded(Expr::ArrayJoin { .. })
    ));
    assert!(receiver_type_is_capitalized(&named("Collection")));
    assert!(receiver_type_is_capitalized(&named("\u{c9}tat")));
    assert!(!receiver_type_is_capitalized(&named("collection")));
    assert!(!receiver_type_is_capitalized(&named("")));
    assert!(!receiver_type_is_capitalized(&None));
    for n in ["Buffer", "Uint8Array", "Readable", "PassThrough", "Object", "Number"] {
        assert!(declines(named(n), "indexOf", 1));
    }
    assert!(declines(Some(Type::Object(vec![])), "push", 1));
}

#[test]
fn proxies_and_unknown_names_are_declined() {
    let proxy = CallSite {
        method: Some("pop".to_string()),
        object: CallObject::Local(Receiver { is_proxy: true, ..receiver(array()) }),
        spreads: vec![],
    };
    assert!(matches!(try_local_array_methods(&proxy, args(0)), FoldStep::Declined(_)));
    let nowhere = CallSite {
        method: Some("pop".to_string()),
        object: CallObject::Local(Receiver { local: None, ..receiver(array()) }),
        spreads: vec![],
    };
    assert!(matches!(try_local_array_methods(&nowhere, args(0)), FoldStep::Declined(_)));
    let computed =
        CallSite { method: Some("pop".to_string()), object: CallObject::Computed, spreads: vec![] };
    assert!(matches!(try_local_array_methods(&computed, args(0)), FoldStep::Declined(_)));
    let property =
        CallSite { method: Some("push".to_string()), object: CallObject::Property, spreads: vec![false] };
    assert!(matches!(
        try_local_array_methods(&property, args(1)),
        FoldStep::LowerObjectThenDecline(back) if back.len() == 1
    ));
    let no_name = CallSite { method: None, object: CallObject::Property, spreads: vec![] };
    assert!(matches!(try_local_array_methods(&no_name, args(0)), FoldStep::Declined(_)));
}

#[test]
fn splices_fill_in_what_is_missing() {
    match folded(array(), "splice", 0) {
        Expr::ArraySplice { start, delete_count: Some(d), items, .. } => {
            assert!(matches!(*start, Expr::Number(NUMBER_ZERO)));
            assert!(matches!(*d, Expr::Number(NUMBER_ZERO)));
            assert!(items.is_empty());
        }
        _ => panic!("a splice"),
    }
    assert!(matches!(
        folded(array(), "splice", 1),
        Expr::ArraySplice { delete_count: None, .. }
    ));
    match folded(array(), "splice", 4) {
        Expr::ArraySplice { start, delete_count: Some(d), items, array_id: 9 } => {
            assert!(is_arg(&start, 0) && is_arg(&d, 1));
            assert!(items.len() == 2 && is_arg(&items[0], 2) && is_arg(&items[1], 3));
        }
        _ => panic!("a splice"),
    }
    match folded(array(), "toSpliced", 1) {
        Expr::ArrayToSpliced { delete_count, .. } => {
            assert!(matches!(*delete_count, Expr::Number(NUMBER_INFINITY)));
        }
        _ => panic!("a splice"),
    }
    match folded(array(), "toSpliced", 0) {
        Expr::ArrayToSpliced { start, delete_count, .. } => {
            assert!(matches!(*start, Expr::Number(NUMBER_ZERO)));
            assert!(matches!(*delete_count, Expr::Number(NUMBER_ZERO)));
        }
        _ => panic!("a splice"),
    }
}

#[test]
fn array_methods_get_their_nodes() {
    assert!(matches!(folded(array(), "pop", 0), Expr::ArrayPop(9)));
    assert!(matches!(folded(array(), "shift", 0), Expr::ArrayShift(9)));
    assert!(matches!(folded(array(), "unshift", 1), Expr::ArrayUnshift { .. }));
    assert!(declines(array(), "unshift", 2));
    match folded(array(), "indexOf", 2) {
        Expr::ArrayIndexOf { array, value, from_index: Some(f) } => {
            assert!(is_local(&array) && is_arg(&value, 0) && is_arg(&f, 1));
        }
        _ => panic!("indexOf"),
    }
    assert!(matches!(folded(array(), "includes", 1), Expr::ArrayIncludes { from_index: None, .. }));
    assert!(matches!(
        folded(named("Int32Array"), "lastIndexOf", 1),
        Expr::ArrayLastIndexOf { .. }
    ));
    assert!(matches!(folded(array(), "slice", 1), Expr::ArraySlice { end: None, .. }));
    assert!(matches!(folded(named("Float64Array"), "slice", 2), Expr::ArraySlice { .. }));
    assert!(declines(Some(Type::Tuple(vec![])), "slice", 1));
    assert!(matches!(folded(named("Int8Array"), "at", 1), Expr::ArrayAt { .. }));
    assert!(declines(Some(Type::Tuple(vec![])), "at", 1));
    assert!(matches!(folded(array(), "sort", 1), Expr::ArraySort { .. }));
    assert!(declines(named("Semver"), "sort", 1));
    assert!(matches!(folded(array(), "reduce", 2), Expr::ArrayReduce { initial: Some(_), .. }));
    assert!(matches!(
        folded(array(), "reduceRight", 1),
        Expr::ArrayReduceRight { initial: None, .. }
    ));
    assert!(matches!(folded(array(), "join", 0), Expr::ArrayJoin { separator: None, .. }));
    assert!(matches!(folded(array(), "flat", 0), Expr::ArrayFlat { .. }));
    assert!(declines(array(), "flat", 1));
    assert!(matches!(folded(array(), "toSorted", 1), Expr::ArrayToSorted { .. }));
    assert!(matches!(folded(array(), "with", 2), Expr::ArrayWith { .. }));
    assert!(matches!(folded(Some(Type::Tuple(vec![])), "with", 2), Expr::ArrayWith { .. }));
    assert!(declines(named("Builder"), "with", 2));
    assert!(matches!(folded(array(), "copyWithin", 2), Expr::ArrayCopyWithin { end: None, .. }));
    assert!(declines(named("Int32Array"), "copyWithin", 2));
    assert!(matches!(folded(array(), "entries", 0), Expr::ArrayEntries(_)));
    assert!(matches!(folded(array(), "keys", 0), Expr::ArrayKeys(_)));
    assert!(matches!(folded(Some(Type::Tuple(vec![])), "values", 0), Expr::ArrayValues(_)));
    assert!(declines(generic("Map"), "keys", 0));
    assert!(declines(array(), "nonsense", 1));
    assert_eq!(method_of("toSpliced"), Method::ToSpliced);
    assert_eq!(method_of("push "), Method::Unlisted);
}

#[test]
fn maps_and_sets_get_their_nodes() {
    assert!(matches!(folded(generic("Map"), "set", 2), Expr::MapSet { .. }));
    assert!(declines(generic("Map"), "set", 1));
    assert!(matches!(folded(generic("Map"), "get", 1), Expr::MapGet { .. }));
    assert!(matches!(folded(generic("Map"), "has", 1), Expr::MapHas { .. }));
    assert!(matches!(folded(generic("Set"), "has", 1), Expr::SetHas { .. }));
    assert!(matches!(folded(generic("Map"), "delete", 1), Expr::MapDelete { .. }));
    assert!(matches!(folded(generic("Set"), "delete", 1), Expr::SetDelete { .. }));
    assert!(matches!(folded(generic("Set"), "clear", 0), Expr::SetClear(_)));
    assert!(matches!(folded(generic("Map"), "clear", 0), Expr::MapClear(_)));
    assert!(matches!(folded(generic("Set"), "add", 1), Expr::SetAdd { set_id: 9, .. }));
    assert!(declines(generic("Map"), "add", 1));
    assert!(declines(generic("WeakMap"), "get", 1));
}

#[test]
fn named_builtins_get_their_nodes() {
    match fold(named("URLSearchParams"), "append", 2) {
        FoldStep::BuildSearchParams { receiver, args } => {
            assert!(is_local(&receiver) && args.len() == 2);
        }
        _ => panic!("search parameters"),
    }
    assert!(matches!(search_params_fold(Ok(Expr::Undefined)), FoldStep::Folded(_)));
    assert!(matches!(search_params_fold(Err(args(2))), FoldStep::Declined(v) if v.len() == 2));
    match folded(named("TextEncoder"), "encode", 0) {
        Expr::TextEncoderEncode(t) => assert!(matches!(*t, Expr::String(s) if s.is_empty())),
        _ => panic!("an encoder"),
    }
    match folded(named("TextEncoder"), "encodeInto", 1) {
        Expr::TextEncoderEncodeInto { source, dest } => {
            assert!(is_arg(&source, 0) && matches!(*dest, Expr::Undefined));
        }
        _ => panic!("an encoder"),
    }
    assert!(matches!(
        fold(named("TextDecoder"), "decode", 0),
        FoldStep::LowerDecoder { input: Expr::Undefined }
    ));
    match fold(named("TextDecoder"), "decode", 1) {
        FoldStep::LowerDecoder { input } => assert!(is_arg(&input, 0)),
        _ => panic!("a decoder"),
    }
    assert!(matches!(
        decode_fold(Expr::LocalGet(1), Expr::Undefined),
        Expr::TextDecoderDecode { .. }
    ));
    assert!(declines(named("TextDecoder"), "encode", 1));
}
