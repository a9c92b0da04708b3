//! What the nodes of the array-method lowering stand for.
//!
//! A node is read back as the method call that it replaces: the local that the
//! method is called on, the method's name, and the arguments in the order of
//! the method's parameters. The laws hold the lowering to that reading.

use vstd::prelude::*;
use crate::array_fold::{
    any_spread, args_needed, call_becomes, callback_expr, is_node_for, is_user_class_instance,
    local_rewrite, method_named, passes, passes_somewhere, rewrite_for, CallObject, CallSite,
    CallbackNode, FoldStep, Method, Receiver, Rewrite, TypeNameFacts, TypeTest,
};
use crate::hir::{Expr, Type, NUMBER_INFINITY, NUMBER_ZERO};

verus! {

/// A method call, as a node carries it out.
pub ghost struct Call {
    /// The local that the method is called on, where the node reads it.
    pub receiver: Option<u32>,
    pub name: Seq<char>,
    /// The arguments, in the order of the method's parameters.
    pub args: Seq<Expr>,
    /// The one argument is spread.
    pub spread: bool,
    /// How many parameters the node has a place for; none where it takes any
    /// number of arguments.
    pub places: Option<int>,
}

/// The local that an expression reads.
pub open spec fn local_read(e: Expr) -> Option<u32> {
    match e {
        Expr::LocalGet(id) => Some(id),
        _ => None,
    }
}

/// An argument that may be missing.
pub open spec fn given(e: Option<Box<Expr>>) -> Seq<Expr> {
    match e {
        Some(e) => seq![*e],
        None => Seq::empty(),
    }
}

/// A call on a local, with as many arguments at most as there are places.
pub open spec fn call_on(receiver: Option<u32>, name: Seq<char>, args: Seq<Expr>, places: int) -> Call {
    Call { receiver, name, args, spread: false, places: Some(places) }
}

/// A call that takes any number of arguments.
pub open spec fn open_call(receiver: Option<u32>, name: Seq<char>, args: Seq<Expr>) -> Call {
    Call { receiver, name, args, spread: false, places: None }
}

/// The method call that a node stands for.
pub open spec fn stands_for(e: Expr) -> Option<Call> {
    match e {
        Expr::ArrayLikeMethod { method, receiver, args } => Some(
            open_call(local_read(*receiver), method@, args@),
        ),
        Expr::NativeMethodCall { object: Some(object), method, args, .. } => Some(
            open_call(local_read(*object), method@, args@),
        ),
        Expr::ArrayPush { array_id, value } => Some(
            open_call(Some(array_id), "push"@, seq![*value]),
        ),
        Expr::ArrayPushSpread { array_id, source } => Some(
            (Call { spread: true, ..open_call(Some(array_id), "push"@, seq![*source]) }),
        ),
        Expr::ArrayPop(id) => Some(call_on(Some(id), "pop"@, Seq::empty(), 0)),
        Expr::ArrayShift(id) => Some(call_on(Some(id), "shift"@, Seq::empty(), 0)),
        Expr::ArrayUnshift { array_id, value } => Some(
            open_call(Some(array_id), "unshift"@, seq![*value]),
        ),
        Expr::ArrayIndexOf { array, value, from_index } => Some(
            call_on(local_read(*array), "indexOf"@, seq![*value] + given(from_index), 2),
        ),
        Expr::ArrayIncludes { array, value, from_index } => Some(
            call_on(local_read(*array), "includes"@, seq![*value] + given(from_index), 2),
        ),
        Expr::ArrayLastIndexOf { array, value, from_index } => Some(
            call_on(local_read(*array), "lastIndexOf"@, seq![*value] + given(from_index), 2),
        ),
        Expr::ArraySlice { array, start, end } => Some(
            call_on(local_read(*array), "slice"@, seq![*start] + given(end), 2),
        ),
        Expr::ArraySplice { array_id, start, delete_count, items } => Some(
            open_call(Some(array_id), "splice"@, seq![*start] + given(delete_count) + items@),
        ),
        Expr::ArrayForEach { array, callback } => Some(
            call_on(local_read(*array), "forEach"@, seq![*callback], 1),
        ),
        Expr::ArrayMap { array, callback } => Some(
            call_on(local_read(*array), "map"@, seq![*callback], 1),
        ),
        Expr::ArrayFilter { array, callback } => Some(
            call_on(local_read(*array), "filter"@, seq![*callback], 1),
        ),
        Expr::ArrayFind { array, callback } => Some(
            call_on(local_read(*array), "find"@, seq![*callback], 1),
        ),
        Expr::ArrayFindIndex { array, callback } => Some(
            call_on(local_read(*array), "findIndex"@, seq![*callback], 1),
        ),
        Expr::ArrayFindLast { array, callback } => Some(
            call_on(local_read(*array), "findLast"@, seq![*callback], 1),
        ),
        Expr::ArrayFindLastIndex { array, callback } => Some(
            call_on(local_read(*array), "findLastIndex"@, seq![*callback], 1),
        ),
        Expr::ArraySome { array, callback } => Some(
            call_on(local_read(*array), "some"@, seq![*callback], 1),
        ),
        Expr::ArrayEvery { array, callback } => Some(
            call_on(local_read(*array), "every"@, seq![*callback], 1),
        ),
        Expr::ArrayFlatMap { array, callback } => Some(
            call_on(local_read(*array), "flatMap"@, seq![*callback], 1),
        ),
        Expr::ArrayAt { array, index } => Some(
            call_on(local_read(*array), "at"@, seq![*index], 1),
        ),
        Expr::ArraySort { array, comparator } => Some(
            call_on(local_read(*array), "sort"@, seq![*comparator], 1),
        ),
        Expr::ArrayReduce { array, callback, initial } => Some(
            call_on(local_read(*array), "reduce"@, seq![*callback] + given(initial), 2),
        ),
        Expr::ArrayReduceRight { array, callback, initial } => Some(
            call_on(local_read(*array), "reduceRight"@, seq![*callback] + given(initial), 2),
        ),
        Expr::ArrayJoin { array, separator } => Some(
            call_on(local_read(*array), "join"@, given(separator), 1),
        ),
        Expr::ArrayFlat { array } => Some(
            call_on(local_read(*array), "flat"@, Seq::empty(), 0),
        ),
        Expr::ArrayToReversed { array } => Some(
            call_on(local_read(*array), "toReversed"@, Seq::empty(), 0),
        ),
        Expr::ArrayToSorted { array, comparator } => Some(
            call_on(local_read(*array), "toSorted"@, given(comparator), 1),
        ),
        Expr::ArrayToSpliced { array, start, delete_count, items } => Some(
            open_call(local_read(*array), "toSpliced"@, seq![*start, *delete_count] + items@),
        ),
        Expr::ArrayWith { array, index, value } => Some(
            call_on(local_read(*array), "with"@, seq![*index, *value], 2),
        ),
        Expr::ArrayCopyWithin { array_id, target, start, end } => Some(
            call_on(Some(array_id), "copyWithin"@, seq![*target, *start] + given(end), 3),
        ),
        Expr::ArrayEntries(array) => Some(
            call_on(local_read(*array), "entries"@, Seq::empty(), 0),
        ),
        Expr::ArrayKeys(array) => Some(call_on(local_read(*array), "keys"@, Seq::empty(), 0)),
        Expr::ArrayValues(array) => Some(
            call_on(local_read(*array), "values"@, Seq::empty(), 0),
        ),
        Expr::MapSet { map, key, value } => Some(
            call_on(local_read(*map), "set"@, seq![*key, *value], 2),
        ),
        Expr::MapGet { map, key } => Some(call_on(local_read(*map), "get"@, seq![*key], 1)),
        Expr::MapHas { map, key } => Some(call_on(local_read(*map), "has"@, seq![*key], 1)),
        Expr::MapDelete { map, key } => Some(
            call_on(local_read(*map), "delete"@, seq![*key], 1),
        ),
        Expr::MapClear(map) => Some(call_on(local_read(*map), "clear"@, Seq::empty(), 0)),
        Expr::SetAdd { set_id, value } => Some(call_on(Some(set_id), "add"@, seq![*value], 1)),
        Expr::SetHas { set, value } => Some(call_on(local_read(*set), "has"@, seq![*value], 1)),
        Expr::SetDelete { set, value } => Some(
            call_on(local_read(*set), "delete"@, seq![*value], 1),
        ),
        Expr::SetClear(set) => Some(call_on(local_read(*set), "clear"@, Seq::empty(), 0)),
        // an encoder has no state: the nodes leave it out
        Expr::TextEncoderEncode(text) => Some(call_on(None, "encode"@, seq![*text], 1)),
        Expr::TextEncoderEncodeInto { source, dest } => Some(
            call_on(None, "encodeInto"@, seq![*source, *dest], 2),
        ),
        _ => None,
    }
}

/// What a method takes for an argument that is missing, where the node spells
/// it out.
pub open spec fn is_default(name: Seq<char>, argc: int, i: int, e: Expr) -> bool {
    if name == "encode"@ || (name == "encodeInto"@ && i == 0) {
        e matches Expr::String(t) && t@ == Seq::<char>::empty()
    } else if name == "encodeInto"@ {
        e == Expr::Undefined
    } else if i == 1 && argc == 1 {
        // deleting from a start on deletes all that follows
        e == Expr::Number(NUMBER_INFINITY)
    } else {
        e == Expr::Number(NUMBER_ZERO)
    }
}

/// The arguments of a call are these, in order: none is left out for which
/// the node has a place, and what was not given is the default.
pub open spec fn takes(c: Call, args: Seq<Expr>) -> bool {
    &&& forall|i: int|
        0 <= i < c.args.len() ==> if i < args.len() {
            #[trigger] c.args[i] == args[i]
        } else {
            is_default(c.name, args.len() as int, i, c.args[i])
        }
    &&& c.args.len() >= match c.places {
        Some(n) => if n < args.len() {
            n
        } else {
            args.len() as int
        },
        None => args.len() as int,
    }
}

/// A node stands for the call that it replaces: it is the same method, called
/// on the same local, with the same arguments in the order of the method's
/// parameters.
pub proof fn law_nodes_stand_for_their_call(
    site: CallSite,
    capitalized: bool,
    args: Seq<Expr>,
    e: Expr,
    name: Seq<char>,
    id: u32,
)
    requires
        call_becomes(site, capitalized, args, FoldStep::Folded(e)),
        site.spreads@.len() == args.len(),
        site.method matches Some(n) && n@ == name,
        site.object matches CallObject::Local(r) && r.local == Some(id),
        !(e is Sequence),
    ensures
        stands_for(e) matches Some(c) && {
            &&& c.name == name
            &&& c.receiver is None || c.receiver == Some(id)
            &&& c.receiver is None ==> e is TextEncoderEncode || e is TextEncoderEncodeInto
            &&& takes(c, args)
            &&& c.spread == (args.len() == 1 && site.spreads@[0])
        },
{
    reveal_strlit("encode");
    reveal_strlit("encodeInto");
    reveal_strlit("splice");
    reveal_strlit("toSpliced");
    assert("splice"@[0] != "encode"@[0]);
    assert("toSpliced"@[0] != "encode"@[0]);
    assert("splice"@[0] != "encodeInto"@[0]);
    assert("toSpliced"@[0] != "encodeInto"@[0]);
    assert("encode"@.len() != "encodeInto"@.len());
    if args.len() == 1 && site.spreads@[0] {
        assert(any_spread(site.spreads@));
    }
    let r = match site.object {
        CallObject::Local(r) => r,
        _ => arbitrary(),
    };
    let m = method_named(name);
    let w = local_rewrite(r, capitalized, m, site.spreads@);
    assert(is_node_for(w, id, name, site.spreads@, args, e));
    lemma_rewrite_names(r.ty, m, args.len() as int, args.len() > 0 && site.spreads@[0], name);
    lemma_node_stands(w, id, name, site.spreads@, args, e);
}

/// The name of the method that a rewrite carries out; none for the general
/// method.
pub open spec fn rewrite_name(w: Rewrite) -> Option<Seq<char>> {
    match w {
        Rewrite::PushNothing | Rewrite::PushOne | Rewrite::PushSpread | Rewrite::PushEach => Some(
            "push"@,
        ),
        Rewrite::Pop => Some("pop"@),
        Rewrite::Shift => Some("shift"@),
        Rewrite::Unshift => Some("unshift"@),
        Rewrite::IndexOf => Some("indexOf"@),
        Rewrite::Includes => Some("includes"@),
        Rewrite::LastIndexOf => Some("lastIndexOf"@),
        Rewrite::Slice => Some("slice"@),
        Rewrite::Splice => Some("splice"@),
        Rewrite::Callback(CallbackNode::ForEach) => Some("forEach"@),
        Rewrite::Callback(CallbackNode::MapEach) => Some("map"@),
        Rewrite::Callback(CallbackNode::Filter) => Some("filter"@),
        Rewrite::Callback(CallbackNode::Find) => Some("find"@),
        Rewrite::Callback(CallbackNode::FindIndex) => Some("findIndex"@),
        Rewrite::Callback(CallbackNode::FindLast) => Some("findLast"@),
        Rewrite::Callback(CallbackNode::FindLastIndex) => Some("findLastIndex"@),
        Rewrite::Callback(CallbackNode::AnyMatch) => Some("some"@),
        Rewrite::Callback(CallbackNode::EveryMatch) => Some("every"@),
        Rewrite::Callback(CallbackNode::FlatMap) => Some("flatMap"@),
        Rewrite::At => Some("at"@),
        Rewrite::Sort => Some("sort"@),
        Rewrite::Reduce => Some("reduce"@),
        Rewrite::ReduceRight => Some("reduceRight"@),
        Rewrite::Join => Some("join"@),
        Rewrite::Flat => Some("flat"@),
        Rewrite::ToReversed => Some("toReversed"@),
        Rewrite::ToSorted => Some("toSorted"@),
        Rewrite::ToSpliced => Some("toSpliced"@),
        Rewrite::With => Some("with"@),
        Rewrite::CopyWithin => Some("copyWithin"@),
        Rewrite::Entries => Some("entries"@),
        Rewrite::Keys => Some("keys"@),
        Rewrite::Values => Some("values"@),
        Rewrite::MapSet => Some("set"@),
        Rewrite::MapGet => Some("get"@),
        Rewrite::MapHas | Rewrite::SetHas => Some("has"@),
        Rewrite::MapDelete | Rewrite::SetDelete => Some("delete"@),
        Rewrite::MapClear | Rewrite::SetClear => Some("clear"@),
        Rewrite::SetAdd => Some("add"@),
        Rewrite::Encode => Some("encode"@),
        Rewrite::EncodeInto => Some("encodeInto"@),
        Rewrite::Decode => Some("decode"@),
        _ => None,
    }
}

/// A rewrite carries out the method that was called, has the arguments that
/// it needs, and pushes a spread argument as one.
proof fn lemma_rewrite_names(
    ty: Option<Type>,
    m: Method,
    argc: int,
    first_spread: bool,
    name: Seq<char>,
)
    requires
        m == method_named(name),
        0 <= argc,
    ensures
        ({
            let w = rewrite_for(ty, m, argc, first_spread);
            &&& rewrite_name(w) matches Some(n) ==> n == name
            &&& args_needed(w) <= argc
            &&& w == Rewrite::PushNothing ==> argc == 0
            &&& w == Rewrite::PushSpread ==> argc == 1 && first_spread
            &&& w == Rewrite::PushOne ==> argc == 1 && !first_spread
            &&& w == Rewrite::PushEach ==> argc > 1
            &&& w == Rewrite::Unshift ==> argc == 1
            &&& w == Rewrite::Flat ==> argc == 0
        }),
{
}

proof fn lemma_node_stands(
    w: Rewrite,
    id: u32,
    name: Seq<char>,
    spreads: Seq<bool>,
    args: Seq<Expr>,
    e: Expr,
)
    requires
        is_node_for(w, id, name, spreads, args, e),
        rewrite_name(w) matches Some(n) ==> n == name,
        args_needed(w) <= args.len(),
        w == Rewrite::PushNothing ==> args.len() == 0,
        w == Rewrite::PushSpread || w == Rewrite::PushOne || w == Rewrite::Unshift ==> args.len()
            == 1,
        w == Rewrite::Flat ==> args.len() == 0,
        w != Rewrite::PushEach,
        "encode"@ != "encodeInto"@,
        "splice"@ != "encode"@,
        "splice"@ != "encodeInto"@,
        "toSpliced"@ != "encode"@,
        "toSpliced"@ != "encodeInto"@,
    ensures
        stands_for(e) matches Some(c) && {
            &&& c.name == name
            &&& c.receiver is None || c.receiver == Some(id)
            &&& c.receiver is None ==> e is TextEncoderEncode || e is TextEncoderEncodeInto
            &&& takes(c, args)
            &&& c.spread == (w == Rewrite::PushSpread)
        },
{
}

/// `push` of several arguments pushes each of them, in order, and each once;
/// a spread one element by element.
pub proof fn law_pushes_keep_the_order(
    site: CallSite,
    capitalized: bool,
    args: Seq<Expr>,
    pushes: Vec<Expr>,
    name: Seq<char>,
    id: u32,
)
    requires
        call_becomes(site, capitalized, args, FoldStep::Folded(Expr::Sequence(pushes))),
        site.spreads@.len() == args.len(),
        site.method matches Some(n) && n@ == name,
        site.object matches CallObject::Local(r) && r.local == Some(id),
    ensures
        name == "push"@,
        pushes@.len() == args.len(),
        forall|i: int|
            0 <= i < args.len() ==> stands_for(#[trigger] pushes@[i]) == Some(
                (Call {
                    receiver: Some(id),
                    name: "push"@,
                    args: seq![args[i]],
                    spread: site.spreads@[i],
                    places: None,
                }),
            ),
{
    let r = match site.object {
        CallObject::Local(r) => r,
        _ => arbitrary(),
    };
    let m = method_named(name);
    let w = local_rewrite(r, capitalized, m, site.spreads@);
    assert(is_node_for(w, id, name, site.spreads@, args, Expr::Sequence(pushes)));
    lemma_rewrite_names(r.ty, m, args.len() as int, args.len() > 0 && site.spreads@[0], name);
    assert(w == Rewrite::PushEach);
}

/// A callback is handed on as it was given, and whatever closure then stands
/// in its place, the node is the call of the same method on the same local.
pub proof fn law_callbacks_stand_for_their_call(
    site: CallSite,
    capitalized: bool,
    args: Seq<Expr>,
    step: FoldStep,
    name: Seq<char>,
    id: u32,
    wrapped: Expr,
)
    requires
        call_becomes(site, capitalized, args, step),
        site.spreads@.len() == args.len(),
        site.method matches Some(n) && n@ == name,
        site.object matches CallObject::Local(r) && r.local == Some(id),
        step is WrapCallback,
    ensures
        step matches FoldStep::WrapCallback { node, array_id, callback } && {
            &&& array_id == id
            &&& args.len() > 0 && callback == args[0]
            &&& stands_for(callback_expr(node, array_id, wrapped)) == Some(
                call_on(Some(id), name, seq![wrapped], 1),
            )
        },
{
    let r = match site.object {
        CallObject::Local(r) => r,
        _ => arbitrary(),
    };
    let m = method_named(name);
    lemma_rewrite_names(r.ty, m, args.len() as int, args.len() > 0 && site.spreads@[0], name);
}

/// What is left to others gets the receiver and the arguments as they are.
pub proof fn law_unfinished_steps_keep_the_call(
    site: CallSite,
    capitalized: bool,
    args: Seq<Expr>,
    step: FoldStep,
    name: Seq<char>,
    id: u32,
)
    requires
        call_becomes(site, capitalized, args, step),
        site.spreads@.len() == args.len(),
        site.method matches Some(n) && n@ == name,
        site.object matches CallObject::Local(r) && r.local == Some(id),
    ensures
        step matches FoldStep::BuildSearchParams { receiver, args: back } ==> local_read(receiver)
            == Some(id) && back@ == args,
        step matches FoldStep::LowerDecoder { input } ==> name == "decode"@ && if args.len() > 0 {
            input == args[0]
        } else {
            input == Expr::Undefined
        },
        !(step is LowerObjectThenDecline),
{
    let r = match site.object {
        CallObject::Local(r) => r,
        _ => arbitrary(),
    };
    let m = method_named(name);
    lemma_rewrite_names(r.ty, m, args.len() as int, args.len() > 0 && site.spreads@[0], name);
}

/// The node that takes the callback alone is chosen only where there is nothing
/// else to pass: a `thisArg` is not dropped, but goes to the general method
/// with all the arguments. (`flatMap` has no such form.)
pub proof fn law_this_arguments_are_not_dropped(
    site: CallSite,
    capitalized: bool,
    args: Seq<Expr>,
    step: FoldStep,
    r: Receiver,
)
    requires
        call_becomes(site, capitalized, args, step),
        site.spreads@.len() == args.len(),
        site.object == CallObject::Local(r),
        r.ty matches Some(t) && !(t is Union) && !(t is Generic) && !(t is Named),
    ensures
        step matches FoldStep::WrapCallback { node, .. } ==> node == CallbackNode::FlatMap
            || args.len() == 1,
{
}

/// The type is generic, with this base.
pub open spec fn based_on(ty: Option<Type>, base: Seq<char>) -> bool {
    ty matches Some(Type::Generic { base: b, .. }) && b@ == base
}

/// The type has this name.
pub open spec fn goes_by(ty: Option<Type>, name: Seq<char>) -> bool {
    ty matches Some(Type::Named(n)) && n@ == name
}

/// The typed arrays that are no byte buffers.
pub open spec fn is_number_array(ty: Option<Type>) -> bool {
    ||| goes_by(ty, "Int8Array"@) || goes_by(ty, "Int16Array"@) || goes_by(ty, "Int32Array"@)
    ||| goes_by(ty, "Uint16Array"@) || goes_by(ty, "Uint32Array"@)
    ||| goes_by(ty, "Float16Array"@) || goes_by(ty, "Float32Array"@) || goes_by(ty, "Float64Array"@)
    ||| goes_by(ty, "BigInt64Array"@) || goes_by(ty, "BigUint64Array"@)
}

/// The type is this one, or a union with it among its members.
pub open spec fn may_be(ty: Option<Type>, one: spec_fn(Type) -> bool) -> bool {
    match ty {
        Some(Type::Union(members)) => exists|i: int|
            0 <= i < members@.len() && one(#[trigger] members@[i]),
        Some(t) => one(t),
        None => false,
    }
}

/// A map's node is used on a map alone, and a set's on a set; those of an
/// array on nothing that is known to be something else.
pub proof fn law_nodes_fit_their_receiver(
    site: CallSite,
    capitalized: bool,
    args: Seq<Expr>,
    step: FoldStep,
    r: Receiver,
)
    requires
        call_becomes(site, capitalized, args, step),
        site.spreads@.len() == args.len(),
        site.object == CallObject::Local(r),
    ensures
        step matches FoldStep::Folded(e) ==> {
            &&& e is MapGet || e is MapHas || e is MapDelete || e is MapClear ==> based_on(
                r.ty,
                "Map"@,
            )
            &&& e is MapSet ==> based_on(r.ty, "Map"@) || based_on(r.ty, "Set"@)
            &&& e is SetAdd || e is SetHas || e is SetDelete || e is SetClear ==> based_on(
                r.ty,
                "Set"@,
            )
            &&& e is TextEncoderEncode || e is TextEncoderEncodeInto ==> goes_by(
                r.ty,
                "TextEncoder"@,
            )
            &&& e is ArrayAt ==> r.ty matches Some(Type::Array(_)) || is_number_array(r.ty)
            &&& e is ArrayWith ==> r.ty matches Some(Type::Array(_)) || r.ty matches Some(
                Type::Tuple(_),
            ) || is_number_array(r.ty)
            &&& e is ArraySlice ==> r.ty matches Some(Type::Array(_)) || is_number_array(r.ty)
            &&& e is ArrayCopyWithin ==> !is_number_array(r.ty)
            &&& e is ArrayEntries || e is ArrayKeys || e is ArrayValues ==> {
                &&& may_be(r.ty, |t: Type| t is Array || t is Tuple)
                &&& !may_be(
                    r.ty,
                    |t: Type|
                        based_on(Some(t), "Map"@) || based_on(Some(t), "WeakMap"@) || based_on(
                            Some(t),
                            "Set"@,
                        ) || based_on(Some(t), "WeakSet"@),
                )
            }
            &&& e is ArraySort ==> (r.ty is Some && r.ty->0 is Named ==> is_number_array(r.ty)) && (
            r.ty is Some && r.ty->0 is Generic ==> based_on(r.ty, "Array"@))
        },
        step matches FoldStep::WrapCallback { node, .. } ==> {
            &&& node != CallbackNode::ForEach && node != CallbackNode::FlatMap ==> (r.ty is Some
                && r.ty->0 is Named ==> is_number_array(r.ty)) && !(r.ty is Some
                && r.ty->0 is Generic)
            &&& node == CallbackNode::ForEach ==> !may_be(
                r.ty,
                |t: Type|
                    based_on(Some(t), "Map"@) || based_on(Some(t), "Set"@) || goes_by(
                        Some(t),
                        "URLSearchParams"@,
                    ),
            )
        },
        step is BuildSearchParams ==> goes_by(r.ty, "URLSearchParams"@),
        step is LowerDecoder ==> goes_by(r.ty, "TextDecoder"@),
{
    lemma_member_tests(r.ty);
}

/// The tests of a receiver's type, member by member.
proof fn lemma_member_tests(ty: Option<Type>)
    ensures
        passes_somewhere(TypeTest::ArrayLike, ty) == may_be(ty, |t: Type| t is Array || t is Tuple),
        (passes_somewhere(TypeTest::MapLike, ty) || passes_somewhere(TypeTest::SetLike, ty))
            == may_be(
            ty,
            |t: Type|
                based_on(Some(t), "Map"@) || based_on(Some(t), "WeakMap"@) || based_on(
                    Some(t),
                    "Set"@,
                ) || based_on(Some(t), "WeakSet"@),
        ),
        passes_somewhere(TypeTest::Collection, ty) == may_be(
            ty,
            |t: Type|
                based_on(Some(t), "Map"@) || based_on(Some(t), "Set"@) || goes_by(
                    Some(t),
                    "URLSearchParams"@,
                ),
        ),
        passes_somewhere(TypeTest::Text, ty) == may_be(ty, |t: Type| t is String),
{
    if let Some(Type::Union(members)) = ty {
        let arrays = |t: Type| t is Array || t is Tuple;
        let keyed = |t: Type|
            based_on(Some(t), "Map"@) || based_on(Some(t), "WeakMap"@) || based_on(
                Some(t),
                "Set"@,
            ) || based_on(Some(t), "WeakSet"@);
        let walked = |t: Type|
            based_on(Some(t), "Map"@) || based_on(Some(t), "Set"@) || goes_by(
                Some(t),
                "URLSearchParams"@,
            );
        let texts = |t: Type| t is String;
        assert forall|i: int| 0 <= i < members@.len() implies passes(
            TypeTest::ArrayLike,
            #[trigger] members@[i],
        ) == arrays(members@[i]) && (passes(TypeTest::MapLike, members@[i]) || passes(
            TypeTest::SetLike,
            members@[i],
        )) == keyed(members@[i]) && passes(TypeTest::Collection, members@[i]) == walked(members@[i])
            && passes(TypeTest::Text, members@[i]) == texts(members@[i]) by {}
    }
}

/// A receiver that has methods of its own keeps them: what may be a string,
/// an instance of one of the program's classes, interfaces or constructor
/// functions, an object literal, a boxed primitive, a byte buffer or a
/// readable stream. So does a proxy, and what is no local.
pub proof fn law_own_methods_are_kept(
    site: CallSite,
    capitalized: bool,
    args: Seq<Expr>,
    step: FoldStep,
    r: Receiver,
)
    requires
        call_becomes(site, capitalized, args, step),
        site.object == CallObject::Local(r),
        ({
            ||| r.is_proxy
            ||| r.local is None
            ||| may_be(r.ty, |t: Type| t is String)
            ||| r.ty is Some && r.ty->0 is Object
            ||| r.ty is Some && r.ty->0 is Named && (r.names.class || r.names.interface
                || r.names.function || (capitalized && r.names.imported))
            ||| goes_by(r.ty, "String"@) || goes_by(r.ty, "Object"@) || goes_by(r.ty, "Number"@)
            ||| goes_by(r.ty, "Boolean"@) || goes_by(r.ty, "Symbol"@) || goes_by(r.ty, "BigInt"@)
            ||| goes_by(r.ty, "Uint8Array"@) || goes_by(r.ty, "Buffer"@)
            ||| goes_by(r.ty, "Uint8ClampedArray"@)
            ||| goes_by(r.ty, "Readable"@) || goes_by(r.ty, "Duplex"@)
            ||| goes_by(r.ty, "Transform"@) || goes_by(r.ty, "PassThrough"@)
            ||| r.ty is Some && r.ty->0 is Generic && (r.names.class || (capitalized
                && r.names.imported)) && !(based_on(r.ty, "Map"@) || based_on(r.ty, "Set"@)
                || based_on(r.ty, "WeakMap"@) || based_on(r.ty, "WeakSet"@) || based_on(
                r.ty,
                "Promise"@,
            ))
        }),
    ensures
        step matches FoldStep::Declined(back) && back@ == args,
{
    lemma_member_tests(r.ty);
}

/// The collections and the promises of the language are no classes of the
/// program, whatever else goes by their name.
pub proof fn law_builtin_generics_are_no_classes(
    ty: Option<Type>,
    names: TypeNameFacts,
    capitalized: bool,
)
    requires
        based_on(ty, "Map"@) || based_on(ty, "Set"@) || based_on(ty, "WeakMap"@) || based_on(
            ty,
            "WeakSet"@,
        ) || based_on(ty, "Promise"@),
    ensures
        !is_user_class_instance(ty, names, capitalized),
{
}

/// On a receiver of unknown type, the methods that strings, classes or plain
/// objects may have under the same name are left to dynamic dispatch.
pub proof fn law_shared_names_need_a_type(
    site: CallSite,
    capitalized: bool,
    args: Seq<Expr>,
    step: FoldStep,
    r: Receiver,
    m: Method,
)
    requires
        call_becomes(site, capitalized, args, step),
        site.object == CallObject::Local(r),
        r.ty is None || r.ty->0 is Any || r.ty->0 is Unknown,
        site.method matches Some(n) && method_named(n@) == m,
        ({
            ||| m is IndexOf || m is Includes || m is Slice || m is LastIndexOf
            ||| m is MapEach || m is Filter || m is ForEach || m is Find || m is FindIndex
            ||| m is FindLast || m is FindLastIndex || m is AnyMatch || m is EveryMatch
            ||| m is Reduce || m is ReduceRight || m is Join
            ||| m is Push || m is Pop || m is Shift || m is Unshift
            ||| m is Reverse || m is Splice || m is Sort || m is Concat
        }),
    ensures
        step matches FoldStep::Declined(back) && back@ == args,
{
}

/// The methods that an array has a node for, with the arguments that each
/// needs.
pub open spec fn has_array_node(m: Method, argc: int) -> bool {
    ||| m is Push || m is Pop || m is Shift || m is Splice || m is Join
    ||| m is ToReversed || m is ToSorted || m is ToSpliced
    ||| m is Entries || m is Keys || m is Values
    ||| m is Unshift && argc == 1
    ||| m is Flat && argc == 0
    ||| argc >= 2 && (m is With || m is CopyWithin)
    ||| argc >= 1 && (m is IndexOf || m is Includes || m is LastIndexOf || m is Slice || m is At
        || m is Sort || m is Reduce || m is ReduceRight || m is FlatMap || m is ForEach
        || m is MapEach || m is Filter || m is Find || m is FindIndex || m is FindLast
        || m is FindLastIndex || m is AnyMatch || m is EveryMatch)
}

/// Calls on arrays, maps and sets get their nodes: where the receiver is a
/// local that is known to be one, and the method has a node, the call is not
/// left to dynamic dispatch.
pub proof fn law_known_collections_are_rewritten(
    site: CallSite,
    capitalized: bool,
    args: Seq<Expr>,
    step: FoldStep,
    r: Receiver,
    m: Method,
)
    requires
        call_becomes(site, capitalized, args, step),
        site.spreads@.len() == args.len(),
        site.object == CallObject::Local(r),
        !r.is_proxy,
        r.local is Some,
        site.method matches Some(n) && method_named(n@) == m,
        m is Push || forall|i: int| 0 <= i < args.len() ==> !#[trigger] site.spreads@[i],
        ({
            ||| r.ty is Some && r.ty->0 is Array && has_array_node(m, args.len() as int)
            ||| based_on(r.ty, "Map"@) && (m is ClearAll || args.len() >= 1 && (m is GetKey
                || m is HasKey || m is DeleteKey) || args.len() >= 2 && m is SetKey)
            ||| based_on(r.ty, "Set"@) && (m is ClearAll || args.len() >= 1 && (m is AddItem
                || m is HasKey || m is DeleteKey))
        }),
    ensures
        step is Folded || step is WrapCallback,
{
}

/// The methods that only arrays have are rewritten whatever is known of the
/// receiver's type.
pub proof fn law_array_names_need_no_type(
    site: CallSite,
    capitalized: bool,
    args: Seq<Expr>,
    step: FoldStep,
    r: Receiver,
    m: Method,
)
    requires
        call_becomes(site, capitalized, args, step),
        site.spreads@.len() == args.len(),
        site.object == CallObject::Local(r),
        !r.is_proxy,
        r.local is Some,
        r.ty is None || r.ty->0 is Any || r.ty->0 is Unknown,
        site.method matches Some(n) && method_named(n@) == m,
        forall|i: int| 0 <= i < args.len() ==> !#[trigger] site.spreads@[i],
        ({
            ||| m is ToReversed || m is ToSorted || m is ToSpliced
            ||| m is Flat && args.len() == 0
            ||| m is FlatMap && args.len() >= 1
            ||| m is CopyWithin && args.len() >= 2
        }),
    ensures
        step is Folded || step is WrapCallback,
{
    lemma_member_tests(r.ty);
}

/// None of these names is that of something with array-like methods of its own.
proof fn lemma_names_of_their_own(n: Seq<char>)
    requires
        n == "Int8Array"@ || n == "Int16Array"@ || n == "Int32Array"@ || n == "Uint16Array"@ || n == "Uint32Array"@ || n == "Float16Array"@ || n == "Float32Array"@ || n == "Float64Array"@ || n == "BigInt64Array"@ || n == "BigUint64Array"@ || n == "TextEncoder"@ || n == "TextDecoder"@ || n == "URLSearchParams"@,
    ensures
        n != "String"@,
        n != "Number"@,
        n != "Boolean"@,
        n != "Symbol"@,
        n != "BigInt"@,
        n != "Object"@,
        n != "Uint8Array"@,
        n != "Uint8ClampedArray"@,
        n != "Buffer"@,
        n != "Readable"@,
        n != "Duplex"@,
        n != "Transform"@,
        n != "PassThrough"@,
{
    reveal_strlit("String");
    reveal_strlit("Number");
    reveal_strlit("Boolean");
    reveal_strlit("Symbol");
    reveal_strlit("BigInt");
    reveal_strlit("Object");
    reveal_strlit("Uint8Array");
    reveal_strlit("Uint8ClampedArray");
    reveal_strlit("Buffer");
    reveal_strlit("Readable");
    reveal_strlit("Duplex");
    reveal_strlit("Transform");
    reveal_strlit("PassThrough");
    reveal_strlit("Int8Array");
    reveal_strlit("Int16Array");
    reveal_strlit("Int32Array");
    reveal_strlit("Uint16Array");
    reveal_strlit("Uint32Array");
    reveal_strlit("Float16Array");
    reveal_strlit("Float32Array");
    reveal_strlit("Float64Array");
    reveal_strlit("BigInt64Array");
    reveal_strlit("BigUint64Array");
    reveal_strlit("TextEncoder");
    reveal_strlit("TextDecoder");
    reveal_strlit("URLSearchParams");
    assert("String"@.len() == 6);
    assert("Number"@.len() == 6);
    assert("Boolean"@.len() == 7);
    assert("Symbol"@.len() == 6);
    assert("BigInt"@.len() == 6);
    assert("Object"@.len() == 6);
    assert("Uint8Array"@.len() == 10);
    assert("Uint8ClampedArray"@.len() == 17);
    assert("Buffer"@.len() == 6);
    assert("Readable"@.len() == 8);
    assert("Duplex"@.len() == 6);
    assert("Transform"@.len() == 9);
    assert("PassThrough"@.len() == 11);
    assert("Int8Array"@.len() == 9);
    assert("Int16Array"@.len() == 10);
    assert("Int32Array"@.len() == 10);
    assert("Uint16Array"@.len() == 11);
    assert("Uint32Array"@.len() == 11);
    assert("Float16Array"@.len() == 12);
    assert("Float32Array"@.len() == 12);
    assert("Float64Array"@.len() == 12);
    assert("BigInt64Array"@.len() == 13);
    assert("BigUint64Array"@.len() == 14);
    assert("TextEncoder"@.len() == 11);
    assert("TextDecoder"@.len() == 11);
    assert("URLSearchParams"@.len() == 15);
    assert("Transform"@[0] == 'T' && "Int8Array"@[0] == 'I');
    assert("Uint8Array"@[0] == 'U' && "Int16Array"@[0] == 'I' && "Int32Array"@[0] == 'I');
    assert("PassThrough"@[0] == 'P' && "Uint16Array"@[0] == 'U' && "Uint32Array"@[0] == 'U');
    assert("TextEncoder"@[0] == 'T' && "TextDecoder"@[0] == 'T');
}

/// Typed arrays get their nodes too.
pub proof fn law_typed_arrays_are_rewritten(
    site: CallSite,
    capitalized: bool,
    args: Seq<Expr>,
    step: FoldStep,
    r: Receiver,
    m: Method,
)
    requires
        call_becomes(site, capitalized, args, step),
        site.spreads@.len() == args.len(),
        site.object == CallObject::Local(r),
        !r.is_proxy,
        r.local is Some,
        is_number_array(r.ty),
        !r.names.class && !r.names.interface && !r.names.function && !r.names.imported,
        site.method matches Some(n) && method_named(n@) == m,
        forall|i: int| 0 <= i < args.len() ==> !#[trigger] site.spreads@[i],
        args.len() >= 1 && (m is At || m is Slice || m is IndexOf || m is Includes || m is Sort
            || m is MapEach || m is Filter || m is Reduce) || args.len() >= 2
            && m is With,
    ensures
        step is Folded || step is WrapCallback,
{
    lemma_names_of_their_own(r.ty->0->Named_0@);
    lemma_member_tests(r.ty);
}

/// Encoders, decoders and search parameters get the nodes of their own methods.
pub proof fn law_codecs_are_rewritten(
    site: CallSite,
    capitalized: bool,
    args: Seq<Expr>,
    step: FoldStep,
    r: Receiver,
    m: Method,
)
    requires
        call_becomes(site, capitalized, args, step),
        site.spreads@.len() == args.len(),
        site.object == CallObject::Local(r),
        !r.is_proxy,
        r.local is Some,
        !r.names.class && !r.names.interface && !r.names.function && !r.names.imported,
        site.method matches Some(n) && method_named(n@) == m,
        forall|i: int| 0 <= i < args.len() ==> !#[trigger] site.spreads@[i],
    ensures
        goes_by(r.ty, "TextEncoder"@) && (m is Encode || m is EncodeInto) ==> !(step is Declined),
        goes_by(r.ty, "TextDecoder"@) && m is Decode ==> !(step is Declined),
        goes_by(r.ty, "URLSearchParams"@) && (m is GetKey || m is HasKey || m is DeleteKey
            || m is SetKey) ==> step is BuildSearchParams,
{
    if goes_by(r.ty, "TextEncoder"@) || goes_by(r.ty, "TextDecoder"@) || goes_by(
        r.ty,
        "URLSearchParams"@,
    ) {
        lemma_names_of_their_own(r.ty->0->Named_0@);
    }
    reveal_strlit("TextEncoder");
    reveal_strlit("TextDecoder");
    reveal_strlit("URLSearchParams");
    assert("TextEncoder"@.len() == 11 && "TextDecoder"@.len() == 11);
    assert("URLSearchParams"@.len() == 15);
    lemma_member_tests(r.ty);
}

/// The name that each method goes by.
pub open spec fn name_of(m: Method) -> Seq<char> {
    match m {
        Method::Push => "push"@,
        Method::Pop => "pop"@,
        Method::Shift => "shift"@,
        Method::Unshift => "unshift"@,
        Method::Reverse => "reverse"@,
        Method::Concat => "concat"@,
        Method::IndexOf => "indexOf"@,
        Method::Includes => "includes"@,
        Method::LastIndexOf => "lastIndexOf"@,
        Method::Slice => "slice"@,
        Method::Splice => "splice"@,
        Method::ForEach => "forEach"@,
        Method::MapEach => "map"@,
        Method::Filter => "filter"@,
        Method::Find => "find"@,
        Method::FindIndex => "findIndex"@,
        Method::FindLast => "findLast"@,
        Method::FindLastIndex => "findLastIndex"@,
        Method::AnyMatch => "some"@,
        Method::EveryMatch => "every"@,
        Method::At => "at"@,
        Method::FlatMap => "flatMap"@,
        Method::Sort => "sort"@,
        Method::Reduce => "reduce"@,
        Method::ReduceRight => "reduceRight"@,
        Method::Join => "join"@,
        Method::Flat => "flat"@,
        Method::ToReversed => "toReversed"@,
        Method::ToSorted => "toSorted"@,
        Method::ToSpliced => "toSpliced"@,
        Method::With => "with"@,
        Method::CopyWithin => "copyWithin"@,
        Method::Entries => "entries"@,
        Method::Keys => "keys"@,
        Method::Values => "values"@,
        Method::SetKey => "set"@,
        Method::GetKey => "get"@,
        Method::HasKey => "has"@,
        Method::DeleteKey => "delete"@,
        Method::ClearAll => "clear"@,
        Method::AddItem => "add"@,
        Method::Encode => "encode"@,
        Method::EncodeInto => "encodeInto"@,
        Method::Decode => "decode"@,
        Method::Unlisted => Seq::empty(),
    }
}

proof fn lemma_names_apart(m: Method, k: Method)
    requires
        m != k,
        !(m is Unlisted),
    ensures
        name_of(m) != name_of(k),
{
    reveal_strlit("push");
    reveal_strlit("pop");
    reveal_strlit("shift");
    reveal_strlit("unshift");
    reveal_strlit("reverse");
    reveal_strlit("concat");
    reveal_strlit("indexOf");
    reveal_strlit("includes");
    reveal_strlit("lastIndexOf");
    reveal_strlit("slice");
    reveal_strlit("splice");
    reveal_strlit("forEach");
    reveal_strlit("map");
    reveal_strlit("filter");
    reveal_strlit("find");
    reveal_strlit("findIndex");
    reveal_strlit("findLast");
    reveal_strlit("findLastIndex");
    reveal_strlit("some");
    reveal_strlit("every");
    reveal_strlit("at");
    reveal_strlit("flatMap");
    reveal_strlit("sort");
    reveal_strlit("reduce");
    reveal_strlit("reduceRight");
    reveal_strlit("join");
    reveal_strlit("flat");
    reveal_strlit("toReversed");
    reveal_strlit("toSorted");
    reveal_strlit("toSpliced");
    reveal_strlit("with");
    reveal_strlit("copyWithin");
    reveal_strlit("entries");
    reveal_strlit("keys");
    reveal_strlit("values");
    reveal_strlit("set");
    reveal_strlit("get");
    reveal_strlit("has");
    reveal_strlit("delete");
    reveal_strlit("clear");
    reveal_strlit("add");
    reveal_strlit("encode");
    reveal_strlit("encodeInto");
    reveal_strlit("decode");
    if name_of(m).len() == name_of(k).len() {
        let (a, b) = (name_of(m), name_of(k));
        assert(a[0] != b[0] || a[1] != b[1] || a[2] != b[2] || a[3] != b[3] || a[4] != b[4]);
    }
}

/// Every method is known by its name.
pub proof fn law_methods_are_known_by_name(m: Method)
    requires
        !(m is Unlisted),
    ensures
        method_named(name_of(m)) == m,
{
    let k = method_named(name_of(m));
    if k != m {
        if k is Unlisted {
            assert(false);
        } else {
            lemma_names_apart(m, k);
        }
    }
}

} // verus!
