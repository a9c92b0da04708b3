//! The part of the high-level intermediate representation that the
//! array-method lowering reads and builds.

use vstd::prelude::*;

verus! {

/// A static type, as far as the type analysis could establish it.
pub enum Type {
    Void,
    Null,
    Never,
    Any,
    Unknown,
    Boolean,
    Number,
    Int32,
    BigInt,
    String,
    Symbol,
    /// `T[]`.
    Array(Box<Type>),
    /// `[A, B, ..]`.
    Tuple(Vec<Type>),
    /// An object type literal: its property names with their types.
    Object(Vec<(String, Type)>),
    /// `A | B | ..`.
    Union(Vec<Type>),
    /// A class, interface or builtin known by its name.
    Named(String),
    /// A generic type applied to arguments, such as `Map<K, V>`.
    Generic { base: String, type_args: Vec<Type> },
    /// A function type.
    Function,
}

/// The IEEE-754 bit pattern of the number `0`.
pub const NUMBER_ZERO: u64 = 0;

/// The IEEE-754 bit pattern of positive infinity.
pub const NUMBER_INFINITY: u64 = 0x7FF0_0000_0000_0000;

/// An expression of the intermediate representation.
///
/// Numbers are held by their IEEE-754 bit pattern. `Other` stands for every
/// node that the array-method lowering carries along without looking inside;
/// its number identifies the node to whoever built it.
#[allow(inconsistent_fields)]
pub enum Expr {
    Undefined,
    Number(u64),
    String(String),
    LocalGet(u32),
    Sequence(Vec<Expr>),
    NativeMethodCall {
        module: String,
        class_name: Option<String>,
        object: Option<Box<Expr>>,
        method: String,
        args: Vec<Expr>,
    },
    ArrayLikeMethod { method: String, receiver: Box<Expr>, args: Vec<Expr> },
    ArrayPush { array_id: u32, value: Box<Expr> },
    ArrayPushSpread { array_id: u32, source: Box<Expr> },
    ArrayPop(u32),
    ArrayShift(u32),
    ArrayUnshift { array_id: u32, value: Box<Expr> },
    ArrayIndexOf { array: Box<Expr>, value: Box<Expr>, from_index: Option<Box<Expr>> },
    ArrayIncludes { array: Box<Expr>, value: Box<Expr>, from_index: Option<Box<Expr>> },
    ArrayLastIndexOf { array: Box<Expr>, value: Box<Expr>, from_index: Option<Box<Expr>> },
    ArraySlice { array: Box<Expr>, start: Box<Expr>, end: Option<Box<Expr>> },
    ArraySplice {
        array_id: u32,
        start: Box<Expr>,
        delete_count: Option<Box<Expr>>,
        items: Vec<Expr>,
    },
    ArrayForEach { array: Box<Expr>, callback: Box<Expr> },
    ArrayMap { array: Box<Expr>, callback: Box<Expr> },
    ArrayFilter { array: Box<Expr>, callback: Box<Expr> },
    ArrayFind { array: Box<Expr>, callback: Box<Expr> },
    ArrayFindIndex { array: Box<Expr>, callback: Box<Expr> },
    ArrayFindLast { array: Box<Expr>, callback: Box<Expr> },
    ArrayFindLastIndex { array: Box<Expr>, callback: Box<Expr> },
    ArraySome { array: Box<Expr>, callback: Box<Expr> },
    ArrayEvery { array: Box<Expr>, callback: Box<Expr> },
    ArrayFlatMap { array: Box<Expr>, callback: Box<Expr> },
    ArrayAt { array: Box<Expr>, index: Box<Expr> },
    ArraySort { array: Box<Expr>, comparator: Box<Expr> },
    ArrayReduce { array: Box<Expr>, callback: Box<Expr>, initial: Option<Box<Expr>> },
    ArrayReduceRight { array: Box<Expr>, callback: Box<Expr>, initial: Option<Box<Expr>> },
    ArrayJoin { array: Box<Expr>, separator: Option<Box<Expr>> },
    ArrayFlat { array: Box<Expr> },
    ArrayToReversed { array: Box<Expr> },
    ArrayToSorted { array: Box<Expr>, comparator: Option<Box<Expr>> },
    ArrayToSpliced {
        array: Box<Expr>,
        start: Box<Expr>,
        delete_count: Box<Expr>,
        items: Vec<Expr>,
    },
    ArrayWith { array: Box<Expr>, index: Box<Expr>, value: Box<Expr> },
    ArrayCopyWithin {
        array_id: u32,
        target: Box<Expr>,
        start: Box<Expr>,
        end: Option<Box<Expr>>,
    },
    ArrayEntries(Box<Expr>),
    ArrayKeys(Box<Expr>),
    ArrayValues(Box<Expr>),
    MapSet { map: Box<Expr>, key: Box<Expr>, value: Box<Expr> },
    MapGet { map: Box<Expr>, key: Box<Expr> },
    MapHas { map: Box<Expr>, key: Box<Expr> },
    MapDelete { map: Box<Expr>, key: Box<Expr> },
    MapClear(Box<Expr>),
    SetAdd { set_id: u32, value: Box<Expr> },
    SetHas { set: Box<Expr>, value: Box<Expr> },
    SetDelete { set: Box<Expr>, value: Box<Expr> },
    SetClear(Box<Expr>),
    TextEncoderEncode(Box<Expr>),
    TextEncoderEncodeInto { source: Box<Expr>, dest: Box<Expr> },
    TextDecoderDecode { decoder: Box<Expr>, input: Box<Expr> },
    Other(u64),
}

} // verus!
