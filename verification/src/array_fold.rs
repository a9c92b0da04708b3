//! Lowering of method calls on local variables to dedicated array, map and
//! set nodes.
//!
//! `arr.push(x)`, `arr.map(f)`, `m.get(k)` and their like have fast nodes in
//! the intermediate representation. A call is rewritten to one only where the
//! receiver's static type makes that safe; everything else is handed back
//! untouched, for dynamic dispatch.

use vstd::prelude::*;
use crate::hir::{Expr, Type, NUMBER_INFINITY, NUMBER_ZERO};
use crate::text::text_eq;

verus! {

// ---------------------------------------------------------------------------
// Type names
// ---------------------------------------------------------------------------

/// The names of the typed-array classes.
pub open spec fn is_typed_array_name(n: Seq<char>) -> bool {
    ||| n == "Uint8Array"@
    ||| n == "Uint8ClampedArray"@
    ||| is_wide_typed_array_name(n)
}

/// The typed-array classes that are not also byte buffers.
pub open spec fn is_wide_typed_array_name(n: Seq<char>) -> bool {
    ||| n == "Int8Array"@
    ||| n == "Int16Array"@
    ||| n == "Int32Array"@
    ||| n == "Uint16Array"@
    ||| n == "Uint32Array"@
    ||| n == "Float16Array"@
    ||| n == "Float32Array"@
    ||| n == "Float64Array"@
    ||| n == "BigInt64Array"@
    ||| n == "BigUint64Array"@
}

fn names_wide_typed_array(n: &str) -> (r: bool)
    ensures
        r == is_wide_typed_array_name(n@),
{
    text_eq(n, "Int8Array") || text_eq(n, "Int16Array") || text_eq(n, "Int32Array")
        || text_eq(n, "Uint16Array") || text_eq(n, "Uint32Array") || text_eq(n, "Float16Array")
        || text_eq(n, "Float32Array") || text_eq(n, "Float64Array")
        || text_eq(n, "BigInt64Array") || text_eq(n, "BigUint64Array")
}

fn names_typed_array(n: &str) -> (r: bool)
    ensures
        r == is_typed_array_name(n@),
{
    text_eq(n, "Uint8Array") || text_eq(n, "Uint8ClampedArray") || names_wide_typed_array(n)
}

/// Is the type the named type `n`?
pub open spec fn is_named(ty: Option<Type>, n: Seq<char>) -> bool {
    ty matches Some(Type::Named(m)) && m@ == n
}

/// Is the type a generic type with base `n`?
pub open spec fn is_generic_of(ty: Option<Type>, n: Seq<char>) -> bool {
    ty matches Some(Type::Generic { base, .. }) && base@ == n
}

fn named(ty: &Option<Type>, n: &str) -> (r: bool)
    ensures
        r == is_named(*ty, n@),
{
    match ty {
        Some(Type::Named(m)) => text_eq(m.as_str(), n),
        _ => false,
    }
}

fn generic_of(ty: &Option<Type>, n: &str) -> (r: bool)
    ensures
        r == is_generic_of(*ty, n@),
{
    match ty {
        Some(Type::Generic { base, .. }) => text_eq(base.as_str(), n),
        _ => false,
    }
}

/// Is the type a typed-array class?
pub open spec fn is_typed_array(ty: Option<Type>) -> bool {
    ty matches Some(Type::Named(n)) && is_typed_array_name(n@)
}

fn typed_array(ty: &Option<Type>) -> (r: bool)
    ensures
        r == is_typed_array(*ty),
{
    match ty {
        Some(Type::Named(n)) => names_typed_array(n.as_str()),
        _ => false,
    }
}

/// A statically known class or namespace instance: a named type that is no
/// typed array, or a generic type other than `Array`.
pub open spec fn is_class_instance(ty: Option<Type>) -> bool {
    match ty {
        Some(Type::Named(n)) => !is_typed_array_name(n@),
        Some(Type::Generic { base, .. }) => base@ != "Array"@,
        _ => false,
    }
}

/// Is the receiver a statically known class or namespace instance? A method
/// of such a receiver that merely shares an array method's name is its own.
pub fn receiver_is_class_instance(recv_ty: Option<&Type>) -> (r: bool)
    ensures
        r == is_class_instance(
            match recv_ty {
                Some(t) => Some(*t),
                None => None,
            },
        ),
{
    match recv_ty {
        Some(Type::Named(n)) => !names_typed_array(n.as_str()),
        Some(Type::Generic { base, .. }) => !text_eq(base.as_str(), "Array"),
        _ => false,
    }
}

/// The builtin wrapper classes that are neither strings nor arrays.
pub open spec fn is_wrapper_name(n: Seq<char>) -> bool {
    ||| n == "Object"@
    ||| n == "Number"@
    ||| n == "Boolean"@
    ||| n == "Symbol"@
    ||| n == "BigInt"@
}

/// Is the receiver a boxed primitive wrapper (`new Number(1)`) or a plain
/// `Object` wrapper? Those are never arrays. The `String` wrapper is not
/// among them: it goes to the string dispatch.
pub fn receiver_is_non_array_builtin_wrapper(recv_ty: Option<&Type>) -> (r: bool)
    ensures
        r == (recv_ty matches Some(Type::Named(n)) && is_wrapper_name(n@)),
{
    match recv_ty {
        Some(Type::Named(n)) => {
            let n: &str = n.as_str();
            text_eq(n, "Object") || text_eq(n, "Number") || text_eq(n, "Boolean") || text_eq(
                n,
                "Symbol",
            ) || text_eq(n, "BigInt")
        },
        _ => false,
    }
}

// ---------------------------------------------------------------------------
// Method names
// ---------------------------------------------------------------------------

/// The method names that the lowering tells apart.
#[derive(Clone, Copy, PartialEq, Eq, Structural, Debug)]
pub enum Method {
    /// `push`
    Push,
    /// `pop`
    Pop,
    /// `shift`
    Shift,
    /// `unshift`
    Unshift,
    /// `reverse`
    Reverse,
    /// `concat`
    Concat,
    /// `indexOf`
    IndexOf,
    /// `includes`
    Includes,
    /// `lastIndexOf`
    LastIndexOf,
    /// `slice`
    Slice,
    /// `splice`
    Splice,
    /// `forEach`
    ForEach,
    /// `map`
    MapEach,
    /// `filter`
    Filter,
    /// `find`
    Find,
    /// `findIndex`
    FindIndex,
    /// `findLast`
    FindLast,
    /// `findLastIndex`
    FindLastIndex,
    /// `some`
    AnyMatch,
    /// `every`
    EveryMatch,
    /// `at`
    At,
    /// `flatMap`
    FlatMap,
    /// `sort`
    Sort,
    /// `reduce`
    Reduce,
    /// `reduceRight`
    ReduceRight,
    /// `join`
    Join,
    /// `flat`
    Flat,
    /// `toReversed`
    ToReversed,
    /// `toSorted`
    ToSorted,
    /// `toSpliced`
    ToSpliced,
    /// `with`
    With,
    /// `copyWithin`
    CopyWithin,
    /// `entries`
    Entries,
    /// `keys`
    Keys,
    /// `values`
    Values,
    /// `set`
    SetKey,
    /// `get`
    GetKey,
    /// `has`
    HasKey,
    /// `delete`
    DeleteKey,
    /// `clear`
    ClearAll,
    /// `add`
    AddItem,
    /// `encode`
    Encode,
    /// `encodeInto`
    EncodeInto,
    /// `decode`
    Decode,
    /// Any other name.
    Unlisted,
}

/// The method that a property name stands for.
pub open spec fn method_named(n: Seq<char>) -> Method {
    if n == "push"@ {
        Method::Push
    } else if n == "pop"@ {
        Method::Pop
    } else if n == "shift"@ {
        Method::Shift
    } else if n == "unshift"@ {
        Method::Unshift
    } else if n == "reverse"@ {
        Method::Reverse
    } else if n == "concat"@ {
        Method::Concat
    } else if n == "indexOf"@ {
        Method::IndexOf
    } else if n == "includes"@ {
        Method::Includes
    } else if n == "lastIndexOf"@ {
        Method::LastIndexOf
    } else if n == "slice"@ {
        Method::Slice
    } else if n == "splice"@ {
        Method::Splice
    } else if n == "forEach"@ {
        Method::ForEach
    } else if n == "map"@ {
        Method::MapEach
    } else if n == "filter"@ {
        Method::Filter
    } else if n == "find"@ {
        Method::Find
    } else if n == "findIndex"@ {
        Method::FindIndex
    } else if n == "findLast"@ {
        Method::FindLast
    } else if n == "findLastIndex"@ {
        Method::FindLastIndex
    } else if n == "some"@ {
        Method::AnyMatch
    } else if n == "every"@ {
        Method::EveryMatch
    } else if n == "at"@ {
        Method::At
    } else if n == "flatMap"@ {
        Method::FlatMap
    } else if n == "sort"@ {
        Method::Sort
    } else if n == "reduce"@ {
        Method::Reduce
    } else if n == "reduceRight"@ {
        Method::ReduceRight
    } else if n == "join"@ {
        Method::Join
    } else if n == "flat"@ {
        Method::Flat
    } else if n == "toReversed"@ {
        Method::ToReversed
    } else if n == "toSorted"@ {
        Method::ToSorted
    } else if n == "toSpliced"@ {
        Method::ToSpliced
    } else if n == "with"@ {
        Method::With
    } else if n == "copyWithin"@ {
        Method::CopyWithin
    } else if n == "entries"@ {
        Method::Entries
    } else if n == "keys"@ {
        Method::Keys
    } else if n == "values"@ {
        Method::Values
    } else if n == "set"@ {
        Method::SetKey
    } else if n == "get"@ {
        Method::GetKey
    } else if n == "has"@ {
        Method::HasKey
    } else if n == "delete"@ {
        Method::DeleteKey
    } else if n == "clear"@ {
        Method::ClearAll
    } else if n == "add"@ {
        Method::AddItem
    } else if n == "encode"@ {
        Method::Encode
    } else if n == "encodeInto"@ {
        Method::EncodeInto
    } else if n == "decode"@ {
        Method::Decode
    } else {
        Method::Unlisted
    }
}

/// Look a property name up among the known methods.
pub fn method_of(n: &str) -> (m: Method)
    ensures
        m == method_named(n@),
{
    if text_eq(n, "push") {
        Method::Push
    } else if text_eq(n, "pop") {
        Method::Pop
    } else if text_eq(n, "shift") {
        Method::Shift
    } else if text_eq(n, "unshift") {
        Method::Unshift
    } else if text_eq(n, "reverse") {
        Method::Reverse
    } else if text_eq(n, "concat") {
        Method::Concat
    } else if text_eq(n, "indexOf") {
        Method::IndexOf
    } else if text_eq(n, "includes") {
        Method::Includes
    } else if text_eq(n, "lastIndexOf") {
        Method::LastIndexOf
    } else if text_eq(n, "slice") {
        Method::Slice
    } else if text_eq(n, "splice") {
        Method::Splice
    } else if text_eq(n, "forEach") {
        Method::ForEach
    } else if text_eq(n, "map") {
        Method::MapEach
    } else if text_eq(n, "filter") {
        Method::Filter
    } else if text_eq(n, "find") {
        Method::Find
    } else if text_eq(n, "findIndex") {
        Method::FindIndex
    } else if text_eq(n, "findLast") {
        Method::FindLast
    } else if text_eq(n, "findLastIndex") {
        Method::FindLastIndex
    } else if text_eq(n, "some") {
        Method::AnyMatch
    } else if text_eq(n, "every") {
        Method::EveryMatch
    } else if text_eq(n, "at") {
        Method::At
    } else if text_eq(n, "flatMap") {
        Method::FlatMap
    } else if text_eq(n, "sort") {
        Method::Sort
    } else if text_eq(n, "reduce") {
        Method::Reduce
    } else if text_eq(n, "reduceRight") {
        Method::ReduceRight
    } else if text_eq(n, "join") {
        Method::Join
    } else if text_eq(n, "flat") {
        Method::Flat
    } else if text_eq(n, "toReversed") {
        Method::ToReversed
    } else if text_eq(n, "toSorted") {
        Method::ToSorted
    } else if text_eq(n, "toSpliced") {
        Method::ToSpliced
    } else if text_eq(n, "with") {
        Method::With
    } else if text_eq(n, "copyWithin") {
        Method::CopyWithin
    } else if text_eq(n, "entries") {
        Method::Entries
    } else if text_eq(n, "keys") {
        Method::Keys
    } else if text_eq(n, "values") {
        Method::Values
    } else if text_eq(n, "set") {
        Method::SetKey
    } else if text_eq(n, "get") {
        Method::GetKey
    } else if text_eq(n, "has") {
        Method::HasKey
    } else if text_eq(n, "delete") {
        Method::DeleteKey
    } else if text_eq(n, "clear") {
        Method::ClearAll
    } else if text_eq(n, "add") {
        Method::AddItem
    } else if text_eq(n, "encode") {
        Method::Encode
    } else if text_eq(n, "encodeInto") {
        Method::EncodeInto
    } else if text_eq(n, "decode") {
        Method::Decode
    } else {
        Method::Unlisted
    }
}

/// Methods that strings have too.
pub open spec fn shared_with_strings(m: Method) -> bool {
    m == Method::IndexOf || m == Method::Includes || m == Method::Slice || m == Method::LastIndexOf
}

/// Methods that user classes commonly define as well.
pub open spec fn shared_with_classes(m: Method) -> bool {
    ||| takes_callback(m)
    ||| m == Method::Reduce || m == Method::ReduceRight || m == Method::Join
    ||| m == Method::Push || m == Method::Pop || m == Method::Shift || m == Method::Unshift
}

/// Mutators that a plain object can own under the same name.
pub open spec fn shared_with_objects(m: Method) -> bool {
    ||| m == Method::Push || m == Method::Pop || m == Method::Shift || m == Method::Unshift
    ||| m == Method::Reverse || m == Method::Splice || m == Method::Sort || m == Method::Concat
}

/// Methods that call back once per element and take an optional `thisArg`.
pub open spec fn takes_callback(m: Method) -> bool {
    ||| m == Method::MapEach || m == Method::Filter || m == Method::ForEach
    ||| m == Method::Find || m == Method::FindIndex
    ||| m == Method::FindLast || m == Method::FindLastIndex
    ||| m == Method::AnyMatch || m == Method::EveryMatch
}

fn calls_back(m: Method) -> (r: bool)
    ensures
        r == takes_callback(m),
{
    matches!(
        m,
        Method::MapEach | Method::Filter | Method::ForEach | Method::Find | Method::FindIndex
            | Method::FindLast | Method::FindLastIndex | Method::AnyMatch | Method::EveryMatch
    )
}

/// May only be rewritten where the receiver's type is known: on an unknown
/// receiver the name may belong to a string, a class instance or an object.
pub open spec fn needs_known_receiver(m: Method) -> bool {
    shared_with_strings(m) || shared_with_classes(m) || shared_with_objects(m)
}

fn wants_known_receiver(m: Method) -> (r: bool)
    ensures
        r == needs_known_receiver(m),
{
    calls_back(m) || matches!(
        m,
        Method::IndexOf | Method::Includes | Method::Slice | Method::LastIndexOf | Method::Reduce
            | Method::ReduceRight | Method::Join | Method::Push | Method::Pop | Method::Shift
            | Method::Unshift | Method::Reverse | Method::Splice | Method::Sort | Method::Concat
    )
}

// ---------------------------------------------------------------------------
// Receivers
// ---------------------------------------------------------------------------

/// A question about one type, asked of a receiver's type or of the members
/// of a union.
#[derive(Clone, Copy, PartialEq, Eq, Structural, Debug)]
pub enum TypeTest {
    /// The primitive string type.
    Text,
    /// `Map`, `Set` or `URLSearchParams`, whose `forEach` is their own.
    Collection,
    /// `Map` or `WeakMap`.
    MapLike,
    /// `Set` or `WeakSet`.
    SetLike,
    /// An array or a tuple.
    ArrayLike,
}

/// What each test asks of a type.
pub open spec fn passes(test: TypeTest, ty: Type) -> bool {
    match test {
        TypeTest::Text => ty is String,
        TypeTest::Collection => match ty {
            Type::Generic { base, .. } => base@ == "Map"@ || base@ == "Set"@,
            Type::Named(n) => n@ == "URLSearchParams"@,
            _ => false,
        },
        TypeTest::MapLike => ty matches Type::Generic { base, .. } && (base@ == "Map"@ || base@
            == "WeakMap"@),
        TypeTest::SetLike => ty matches Type::Generic { base, .. } && (base@ == "Set"@ || base@
            == "WeakSet"@),
        TypeTest::ArrayLike => ty is Array || ty is Tuple,
    }
}

fn type_passes(test: TypeTest, ty: &Type) -> (r: bool)
    ensures
        r == passes(test, *ty),
{
    match test {
        TypeTest::Text => matches!(ty, Type::String),
        TypeTest::Collection => match ty {
            Type::Generic { base, .. } => text_eq(base.as_str(), "Map") || text_eq(
                base.as_str(),
                "Set",
            ),
            Type::Named(n) => text_eq(n.as_str(), "URLSearchParams"),
            _ => false,
        },
        TypeTest::MapLike => match ty {
            Type::Generic { base, .. } => text_eq(base.as_str(), "Map") || text_eq(
                base.as_str(),
                "WeakMap",
            ),
            _ => false,
        },
        TypeTest::SetLike => match ty {
            Type::Generic { base, .. } => text_eq(base.as_str(), "Set") || text_eq(
                base.as_str(),
                "WeakSet",
            ),
            _ => false,
        },
        TypeTest::ArrayLike => matches!(ty, Type::Array(_) | Type::Tuple(_)),
    }
}

/// Does one of the types pass the test?
pub open spec fn some_member_passes(test: TypeTest, members: Seq<Type>) -> bool {
    exists|i: int| 0 <= i < members.len() && passes(test, #[trigger] members[i])
}

/// Does the type pass the test, or, where it is a union, one of its members?
pub open spec fn passes_somewhere(test: TypeTest, ty: Option<Type>) -> bool {
    match ty {
        Some(Type::Union(members)) => some_member_passes(test, members@),
        Some(t) => passes(test, t),
        None => false,
    }
}

fn receiver_passes(test: TypeTest, ty: &Option<Type>) -> (r: bool)
    ensures
        r == passes_somewhere(test, *ty),
{
    match ty {
        Some(Type::Union(members)) => {
            let mut i: usize = 0;
            while i < members.len()
                invariant
                    i <= members@.len(),
                    *ty == Some(Type::Union(*members)),
                    forall|k: int| 0 <= k < i ==> !passes(test, #[trigger] members@[k]),
                decreases members@.len() - i,
            {
                if type_passes(test, &members[i]) {
                    assert(passes(test, members@[i as int]));
                    return true;
                }
                i = i + 1;
            }
            false
        },
        Some(t) => type_passes(test, t),
        None => false,
    }
}

/// What the symbol tables know of the name of the receiver's type: the name
/// of a named type, or the base of a generic one.
#[derive(Clone, Copy, PartialEq, Eq, Structural, Debug)]
pub struct TypeNameFacts {
    /// A class of this name is declared.
    pub class: bool,
    /// An interface of this name is declared.
    pub interface: bool,
    /// The name is imported.
    pub imported: bool,
    /// A function of this name is declared.
    pub function: bool,
}

/// A local variable that a method is called on.
pub struct Receiver {
    /// The local's static type, where one is recorded.
    pub ty: Option<Type>,
    /// What is known of that type's name.
    pub names: TypeNameFacts,
    /// The local is bound to a proxy.
    pub is_proxy: bool,
    /// The local's number, where the name resolves to one.
    pub local: Option<u32>,
}

/// What the method is called on.
pub enum CallObject {
    /// A plain identifier.
    Local(Receiver),
    /// A property of another object, `o.p`.
    Property,
    /// Anything else.
    Computed,
}

/// A call expression, as far as the lowering looks at it.
pub struct CallSite {
    /// The method's name, where the callee is `object.name`.
    pub method: Option<String>,
    /// What the method is called on.
    pub object: CallObject,
    /// For each argument, whether it is spread (`...arg`).
    pub spreads: Vec<bool>,
}

/// Whether a character has the Unicode property `Uppercase`.
pub uninterp spec fn has_uppercase_property(c: char) -> bool;

/// Calls `char::is_uppercase`, which answers for the Unicode derived property
/// `Uppercase`. Nothing but that name is claimed of the answer.
#[verifier::external_body]
fn char_is_uppercase(c: char) -> (r: bool)
    ensures
        r == has_uppercase_property(c),
{
    c.is_uppercase()
}

/// Does the name of the receiver's type start with an uppercase letter?
pub open spec fn type_name_is_capitalized(ty: Option<Type>) -> bool {
    match ty {
        Some(Type::Named(n)) => n@.len() > 0 && has_uppercase_property(n@[0]),
        Some(Type::Generic { base, .. }) => base@.len() > 0 && has_uppercase_property(base@[0]),
        _ => false,
    }
}

fn capitalized(n: &str) -> (r: bool)
    ensures
        r == (n@.len() > 0 && has_uppercase_property(n@[0])),
{
    if n.unicode_len() == 0 {
        false
    } else {
        char_is_uppercase(n.get_char(0))
    }
}

/// Does the name of the receiver's type start with an uppercase letter? An
/// imported name that does is taken for a class.
pub fn receiver_type_is_capitalized(ty: &Option<Type>) -> (r: bool)
    ensures
        r == type_name_is_capitalized(*ty),
{
    match ty {
        Some(Type::Named(n)) => capitalized(n.as_str()),
        Some(Type::Generic { base, .. }) => capitalized(base.as_str()),
        _ => false,
    }
}

/// Generic builtins that are handled by type further on.
pub open spec fn is_builtin_generic(n: Seq<char>) -> bool {
    n == "Map"@ || n == "Set"@ || n == "WeakMap"@ || n == "WeakSet"@ || n == "Promise"@
}

/// The receiver is an instance of a class, interface or constructor function
/// of the program, whose own method must run.
pub open spec fn is_user_class_instance(
    ty: Option<Type>,
    names: TypeNameFacts,
    capitalized: bool,
) -> bool {
    match ty {
        Some(Type::Named(_)) => names.class || names.interface || (capitalized && names.imported)
            || names.function,
        Some(Type::Generic { base, .. }) => !is_builtin_generic(base@) && (names.class || (
        capitalized && names.imported)),
        _ => false,
    }
}

/// The receiver is, or may be, a string: the primitive, a union with it, or
/// its wrapper object.
pub open spec fn is_stringish(ty: Option<Type>) -> bool {
    passes_somewhere(TypeTest::Text, ty) || is_named(ty, "String"@)
}

/// Byte buffers, which have their own method family.
pub open spec fn is_buffer(ty: Option<Type>) -> bool {
    is_named(ty, "Uint8Array"@) || is_named(ty, "Buffer"@) || is_named(ty, "Uint8ClampedArray"@)
}

/// Readable streams, which have iterator helpers with array-like names.
pub open spec fn is_readable_stream(ty: Option<Type>) -> bool {
    is_named(ty, "Readable"@) || is_named(ty, "Duplex"@) || is_named(ty, "Transform"@) || is_named(
        ty,
        "PassThrough"@,
    )
}

/// Nothing is known of the receiver's type.
pub open spec fn is_untyped(ty: Option<Type>) -> bool {
    ty is None || ty == Some(Type::Any) || ty == Some(Type::Unknown)
}

/// May a call of `m` on a receiver of this type be rewritten at all?
pub open spec fn admits_rewrite(
    ty: Option<Type>,
    names: TypeNameFacts,
    capitalized: bool,
    m: Method,
) -> bool {
    &&& !is_stringish(ty)
    &&& !is_user_class_instance(ty, names, capitalized)
    &&& !(ty matches Some(Type::Object(_)))
    &&& !(ty matches Some(Type::Named(n)) && is_wrapper_name(n@))
    &&& !is_buffer(ty)
    &&& !is_readable_stream(ty)
    &&& is_untyped(ty) ==> !needs_known_receiver(m)
}

/// May a call of `m` on a receiver of this type be rewritten at all?
pub fn receiver_admits_rewrite(
    ty: &Option<Type>,
    names: TypeNameFacts,
    capitalized: bool,
    m: Method,
) -> (r: bool)
    ensures
        r == admits_rewrite(*ty, names, capitalized, m),
{
    if receiver_passes(TypeTest::Text, ty) || named(ty, "String") {
        return false;
    }
    let user_class: bool = match ty {
        Some(Type::Named(_)) => names.class || names.interface || (capitalized && names.imported)
            || names.function,
        Some(Type::Generic { base, .. }) => {
            let b: &str = base.as_str();
            !(text_eq(b, "Map") || text_eq(b, "Set") || text_eq(b, "WeakMap") || text_eq(
                b,
                "WeakSet",
            ) || text_eq(b, "Promise")) && (names.class || (capitalized && names.imported))
        },
        _ => false,
    };
    if user_class || matches!(ty, Some(Type::Object(_))) || receiver_is_non_array_builtin_wrapper(
        ty.as_ref(),
    ) {
        return false;
    }
    if named(ty, "Uint8Array") || named(ty, "Buffer") || named(ty, "Uint8ClampedArray") {
        return false;
    }
    if named(ty, "Readable") || named(ty, "Duplex") || named(ty, "Transform") || named(
        ty,
        "PassThrough",
    ) {
        return false;
    }
    match ty {
        None | Some(Type::Any) | Some(Type::Unknown) => !wants_known_receiver(m),
        _ => true,
    }
}

// ---------------------------------------------------------------------------
// Choosing a node
// ---------------------------------------------------------------------------

/// The nodes that take an array and a callback.
#[derive(Clone, Copy, PartialEq, Eq, Structural, Debug)]
pub enum CallbackNode {
    ForEach,
    MapEach,
    Filter,
    Find,
    FindIndex,
    FindLast,
    FindLastIndex,
    AnyMatch,
    EveryMatch,
    FlatMap,
}

/// The rewrite that a call gets.
#[derive(Clone, Copy, PartialEq, Eq, Structural, Debug)]
pub enum Rewrite {
    /// The general array-like method, which binds `thisArg`.
    ArrayLike,
    /// `push()`: the native call, which still checks that the array may grow.
    PushNothing,
    /// `push(x)`.
    PushOne,
    /// `push(...xs)`.
    PushSpread,
    /// `push` of several arguments: one push per argument, in order.
    PushEach,
    Pop,
    Shift,
    Unshift,
    IndexOf,
    Includes,
    LastIndexOf,
    Slice,
    Splice,
    Callback(CallbackNode),
    At,
    Sort,
    Reduce,
    ReduceRight,
    Join,
    Flat,
    ToReversed,
    ToSorted,
    ToSpliced,
    With,
    CopyWithin,
    Entries,
    Keys,
    Values,
    MapSet,
    MapGet,
    MapHas,
    MapDelete,
    MapClear,
    SetAdd,
    SetHas,
    SetDelete,
    SetClear,
    /// A `URLSearchParams` method, built elsewhere.
    SearchParams,
    Encode,
    EncodeInto,
    Decode,
    /// No rewrite: dynamic dispatch.
    Decline,
}

/// The receiver has a class or generic type other than a typed array.
pub open spec fn is_named_or_generic(ty: Option<Type>) -> bool {
    match ty {
        Some(Type::Named(n)) => !is_typed_array_name(n@),
        Some(Type::Generic { .. }) => true,
        _ => false,
    }
}

/// The receiver is an array, a tuple or a typed array.
pub open spec fn is_indexable(ty: Option<Type>) -> bool {
    is_typed_array(ty) || ty matches Some(Type::Array(_)) || ty matches Some(Type::Tuple(_))
}

/// The receiver is an array or a typed array that is no byte buffer, so that
/// `slice` cannot mean the string method.
pub open spec fn is_sliceable(ty: Option<Type>) -> bool {
    match ty {
        Some(Type::Array(_)) => true,
        Some(Type::Named(n)) => is_wide_typed_array_name(n@),
        _ => false,
    }
}

/// The receiver is an array and cannot be a map or a set.
pub open spec fn is_only_arraylike(ty: Option<Type>) -> bool {
    &&& !passes_somewhere(TypeTest::MapLike, ty)
    &&& !passes_somewhere(TypeTest::SetLike, ty)
    &&& passes_somewhere(TypeTest::ArrayLike, ty)
}

pub open spec fn rewrite_if(ok: bool, r: Rewrite) -> Rewrite {
    if ok {
        r
    } else {
        Rewrite::Decline
    }
}

/// The array, map or set node for a call of `m` with `argc` arguments on a
/// receiver that admits rewriting.
pub open spec fn collection_rewrite(
    ty: Option<Type>,
    m: Method,
    argc: int,
    first_spread: bool,
) -> Rewrite {
    let callback_ok = argc > 0 && !is_named_or_generic(ty);
    if takes_callback(m) && argc >= 2 && !passes_somewhere(TypeTest::Collection, ty) {
        Rewrite::ArrayLike
    } else {
        match m {
            Method::Push => if argc == 0 {
                Rewrite::PushNothing
            } else if argc > 1 {
                Rewrite::PushEach
            } else if first_spread {
                Rewrite::PushSpread
            } else {
                Rewrite::PushOne
            },
            Method::Pop => Rewrite::Pop,
            Method::Shift => Rewrite::Shift,
            Method::Unshift => rewrite_if(argc == 1, Rewrite::Unshift),
            Method::IndexOf => rewrite_if(argc > 0, Rewrite::IndexOf),
            Method::Includes => rewrite_if(argc > 0, Rewrite::Includes),
            Method::LastIndexOf => rewrite_if(argc > 0, Rewrite::LastIndexOf),
            Method::Slice => rewrite_if(argc > 0 && is_sliceable(ty), Rewrite::Slice),
            Method::Splice => Rewrite::Splice,
            Method::ForEach => rewrite_if(
                argc > 0 && !passes_somewhere(TypeTest::Collection, ty),
                Rewrite::Callback(CallbackNode::ForEach),
            ),
            Method::MapEach => rewrite_if(callback_ok, Rewrite::Callback(CallbackNode::MapEach)),
            Method::Filter => rewrite_if(callback_ok, Rewrite::Callback(CallbackNode::Filter)),
            Method::Find => rewrite_if(callback_ok, Rewrite::Callback(CallbackNode::Find)),
            Method::FindIndex => rewrite_if(
                callback_ok,
                Rewrite::Callback(CallbackNode::FindIndex),
            ),
            Method::FindLast => rewrite_if(callback_ok, Rewrite::Callback(CallbackNode::FindLast)),
            Method::FindLastIndex => rewrite_if(
                callback_ok,
                Rewrite::Callback(CallbackNode::FindLastIndex),
            ),
            Method::AnyMatch => rewrite_if(callback_ok, Rewrite::Callback(CallbackNode::AnyMatch)),
            Method::EveryMatch => rewrite_if(
                callback_ok,
                Rewrite::Callback(CallbackNode::EveryMatch),
            ),
            Method::At => rewrite_if(
                argc > 0 && (is_typed_array(ty) || ty matches Some(Type::Array(_))),
                Rewrite::At,
            ),
            Method::FlatMap => rewrite_if(argc > 0, Rewrite::Callback(CallbackNode::FlatMap)),
            Method::Sort => rewrite_if(argc > 0 && !is_class_instance(ty), Rewrite::Sort),
            Method::Reduce => rewrite_if(argc > 0, Rewrite::Reduce),
            Method::ReduceRight => rewrite_if(argc > 0, Rewrite::ReduceRight),
            Method::Join => Rewrite::Join,
            Method::Flat => rewrite_if(argc == 0, Rewrite::Flat),
            Method::ToReversed => Rewrite::ToReversed,
            Method::ToSorted => Rewrite::ToSorted,
            Method::ToSpliced => Rewrite::ToSpliced,
            Method::With => rewrite_if(argc >= 2 && is_indexable(ty), Rewrite::With),
            Method::CopyWithin => rewrite_if(
                argc >= 2 && !is_typed_array(ty),
                Rewrite::CopyWithin,
            ),
            Method::Entries => rewrite_if(is_only_arraylike(ty), Rewrite::Entries),
            Method::Keys => rewrite_if(is_only_arraylike(ty), Rewrite::Keys),
            Method::Values => rewrite_if(is_only_arraylike(ty), Rewrite::Values),
            Method::SetKey => rewrite_if(
                argc >= 2 && (is_generic_of(ty, "Map"@) || is_generic_of(ty, "Set"@)),
                Rewrite::MapSet,
            ),
            Method::GetKey => rewrite_if(argc > 0 && is_generic_of(ty, "Map"@), Rewrite::MapGet),
            Method::HasKey => if argc > 0 && is_generic_of(ty, "Set"@) {
                Rewrite::SetHas
            } else {
                rewrite_if(argc > 0 && is_generic_of(ty, "Map"@), Rewrite::MapHas)
            },
            Method::DeleteKey => if argc > 0 && is_generic_of(ty, "Set"@) {
                Rewrite::SetDelete
            } else {
                rewrite_if(argc > 0 && is_generic_of(ty, "Map"@), Rewrite::MapDelete)
            },
            Method::ClearAll => if is_generic_of(ty, "Set"@) {
                Rewrite::SetClear
            } else {
                rewrite_if(is_generic_of(ty, "Map"@), Rewrite::MapClear)
            },
            Method::AddItem => rewrite_if(argc > 0 && is_generic_of(ty, "Set"@), Rewrite::SetAdd),
            _ => Rewrite::Decline,
        }
    }
}

/// The node for a method of one of the named builtins that have their own
/// nodes, where no collection node applied.
pub open spec fn builtin_rewrite(ty: Option<Type>, m: Method) -> Rewrite {
    if is_named(ty, "URLSearchParams"@) {
        Rewrite::SearchParams
    } else if is_named(ty, "TextEncoder"@) && m == Method::Encode {
        Rewrite::Encode
    } else if is_named(ty, "TextEncoder"@) && m == Method::EncodeInto {
        Rewrite::EncodeInto
    } else if is_named(ty, "TextDecoder"@) && m == Method::Decode {
        Rewrite::Decode
    } else {
        Rewrite::Decline
    }
}

/// The rewrite for a call of `m` on a receiver that admits rewriting.
pub open spec fn rewrite_for(ty: Option<Type>, m: Method, argc: int, first_spread: bool) -> Rewrite {
    let r = collection_rewrite(ty, m, argc, first_spread);
    if r == Rewrite::Decline {
        builtin_rewrite(ty, m)
    } else {
        r
    }
}

fn choose_if(ok: bool, r: Rewrite) -> (out: Rewrite)
    ensures
        out == rewrite_if(ok, r),
{
    if ok {
        r
    } else {
        Rewrite::Decline
    }
}

fn is_array_type(ty: &Option<Type>) -> (r: bool)
    ensures
        r == (ty matches Some(Type::Array(_))),
{
    matches!(ty, Some(Type::Array(_)))
}

fn only_arraylike(ty: &Option<Type>) -> (r: bool)
    ensures
        r == is_only_arraylike(*ty),
{
    !receiver_passes(TypeTest::MapLike, ty) && !receiver_passes(TypeTest::SetLike, ty)
        && receiver_passes(TypeTest::ArrayLike, ty)
}

fn sliceable(ty: &Option<Type>) -> (r: bool)
    ensures
        r == is_sliceable(*ty),
{
    match ty {
        Some(Type::Array(_)) => true,
        Some(Type::Named(n)) => names_wide_typed_array(n.as_str()),
        _ => false,
    }
}

fn named_or_generic(ty: &Option<Type>) -> (r: bool)
    ensures
        r == is_named_or_generic(*ty),
{
    match ty {
        Some(Type::Named(n)) => !names_typed_array(n.as_str()),
        Some(Type::Generic { .. }) => true,
        _ => false,
    }
}

fn choose_collection_rewrite(
    ty: &Option<Type>,
    m: Method,
    argc: usize,
    first_spread: bool,
) -> (r: Rewrite)
    ensures
        r == collection_rewrite(*ty, m, argc as int, first_spread),
{
    if calls_back(m) && argc >= 2 && !receiver_passes(TypeTest::Collection, ty) {
        return Rewrite::ArrayLike;
    }
    let callback_ok: bool = argc > 0 && !named_or_generic(ty);
    match m {
        Method::Push => if argc == 0 {
            Rewrite::PushNothing
        } else if argc > 1 {
            Rewrite::PushEach
        } else if first_spread {
            Rewrite::PushSpread
        } else {
            Rewrite::PushOne
        },
        Method::Pop => Rewrite::Pop,
        Method::Shift => Rewrite::Shift,
        Method::Unshift => choose_if(argc == 1, Rewrite::Unshift),
        Method::IndexOf => choose_if(argc > 0, Rewrite::IndexOf),
        Method::Includes => choose_if(argc > 0, Rewrite::Includes),
        Method::LastIndexOf => choose_if(argc > 0, Rewrite::LastIndexOf),
        Method::Slice => choose_if(argc > 0 && sliceable(ty), Rewrite::Slice),
        Method::Splice => Rewrite::Splice,
        Method::ForEach => choose_if(
            argc > 0 && !receiver_passes(TypeTest::Collection, ty),
            Rewrite::Callback(CallbackNode::ForEach),
        ),
        Method::MapEach => choose_if(callback_ok, Rewrite::Callback(CallbackNode::MapEach)),
        Method::Filter => choose_if(callback_ok, Rewrite::Callback(CallbackNode::Filter)),
        Method::Find => choose_if(callback_ok, Rewrite::Callback(CallbackNode::Find)),
        Method::FindIndex => choose_if(callback_ok, Rewrite::Callback(CallbackNode::FindIndex)),
        Method::FindLast => choose_if(callback_ok, Rewrite::Callback(CallbackNode::FindLast)),
        Method::FindLastIndex => choose_if(
            callback_ok,
            Rewrite::Callback(CallbackNode::FindLastIndex),
        ),
        Method::AnyMatch => choose_if(callback_ok, Rewrite::Callback(CallbackNode::AnyMatch)),
        Method::EveryMatch => choose_if(callback_ok, Rewrite::Callback(CallbackNode::EveryMatch)),
        Method::At => choose_if(argc > 0 && (typed_array(ty) || is_array_type(ty)), Rewrite::At),
        Method::FlatMap => choose_if(argc > 0, Rewrite::Callback(CallbackNode::FlatMap)),
        Method::Sort => choose_if(
            argc > 0 && !receiver_is_class_instance(ty.as_ref()),
            Rewrite::Sort,
        ),
        Method::Reduce => choose_if(argc > 0, Rewrite::Reduce),
        Method::ReduceRight => choose_if(argc > 0, Rewrite::ReduceRight),
        Method::Join => Rewrite::Join,
        Method::Flat => choose_if(argc == 0, Rewrite::Flat),
        Method::ToReversed => Rewrite::ToReversed,
        Method::ToSorted => Rewrite::ToSorted,
        Method::ToSpliced => Rewrite::ToSpliced,
        Method::With => choose_if(
            argc >= 2 && (typed_array(ty) || matches!(ty, Some(Type::Array(_)) | Some(Type::Tuple(_)))),
            Rewrite::With,
        ),
        Method::CopyWithin => choose_if(argc >= 2 && !typed_array(ty), Rewrite::CopyWithin),
        Method::Entries => choose_if(only_arraylike(ty), Rewrite::Entries),
        Method::Keys => choose_if(only_arraylike(ty), Rewrite::Keys),
        Method::Values => choose_if(only_arraylike(ty), Rewrite::Values),
        Method::SetKey => choose_if(
            argc >= 2 && (generic_of(ty, "Map") || generic_of(ty, "Set")),
            Rewrite::MapSet,
        ),
        Method::GetKey => choose_if(argc > 0 && generic_of(ty, "Map"), Rewrite::MapGet),
        Method::HasKey => if argc > 0 && generic_of(ty, "Set") {
            Rewrite::SetHas
        } else {
            choose_if(argc > 0 && generic_of(ty, "Map"), Rewrite::MapHas)
        },
        Method::DeleteKey => if argc > 0 && generic_of(ty, "Set") {
            Rewrite::SetDelete
        } else {
            choose_if(argc > 0 && generic_of(ty, "Map"), Rewrite::MapDelete)
        },
        Method::ClearAll => if generic_of(ty, "Set") {
            Rewrite::SetClear
        } else {
            choose_if(generic_of(ty, "Map"), Rewrite::MapClear)
        },
        Method::AddItem => choose_if(argc > 0 && generic_of(ty, "Set"), Rewrite::SetAdd),
        _ => Rewrite::Decline,
    }
}

/// Choose the rewrite for a call of `m` with `argc` arguments on a receiver
/// that admits rewriting.
pub fn choose_rewrite(ty: &Option<Type>, m: Method, argc: usize, first_spread: bool) -> (r: Rewrite)
    ensures
        r == rewrite_for(*ty, m, argc as int, first_spread),
{
    let r: Rewrite = choose_collection_rewrite(ty, m, argc, first_spread);
    if r != Rewrite::Decline {
        r
    } else if named(ty, "URLSearchParams") {
        Rewrite::SearchParams
    } else if named(ty, "TextEncoder") && m == Method::Encode {
        Rewrite::Encode
    } else if named(ty, "TextEncoder") && m == Method::EncodeInto {
        Rewrite::EncodeInto
    } else if named(ty, "TextDecoder") && m == Method::Decode {
        Rewrite::Decode
    } else {
        Rewrite::Decline
    }
}

// ---------------------------------------------------------------------------
// Building the node
// ---------------------------------------------------------------------------

/// What becomes of a call.
pub enum FoldStep {
    /// The call is this node.
    Folded(Expr),
    /// The call is not rewritten; these are its arguments.
    Declined(Vec<Expr>),
    /// The callback has first to be replaced by a closure where it is a bare
    /// builtin constructor (`filter(Boolean)`); `callback_fold` then gives
    /// the node.
    WrapCallback { node: CallbackNode, array_id: u32, callback: Expr },
    /// A `URLSearchParams` method: its node is built from the receiver and
    /// the arguments, or the arguments come back; `search_params_fold` goes
    /// on from there.
    BuildSearchParams { receiver: Expr, args: Vec<Expr> },
    /// The decoder has first to be lowered; `decode_fold` then gives the node.
    LowerDecoder { input: Expr },
    /// The object that the property belongs to is lowered for its effects;
    /// the call itself is not rewritten.
    LowerObjectThenDecline(Vec<Expr>),
}

/// A read of local `id`, boxed.
pub open spec fn local(id: u32) -> Box<Expr> {
    Box::new(Expr::LocalGet(id))
}

/// Argument `i`, boxed.
pub open spec fn arg(args: Seq<Expr>, i: int) -> Box<Expr> {
    Box::new(args[i])
}

/// Argument `i`, where there is one.
pub open spec fn opt_arg(args: Seq<Expr>, i: int) -> Option<Box<Expr>> {
    if i < args.len() {
        Some(Box::new(args[i]))
    } else {
        None
    }
}

/// Argument `i`, or `default`.
pub open spec fn arg_or(args: Seq<Expr>, i: int, default: Expr) -> Expr {
    if i < args.len() {
        args[i]
    } else {
        default
    }
}

/// The arguments from `i` on.
pub open spec fn args_from(args: Seq<Expr>, i: int) -> Seq<Expr> {
    if i <= args.len() {
        args.subrange(i, args.len() as int)
    } else {
        Seq::empty()
    }
}

/// Argument `i` if there is one, else the empty string.
pub open spec fn is_arg_or_empty_string(e: Expr, args: Seq<Expr>, i: int) -> bool {
    if i < args.len() {
        e == args[i]
    } else {
        e matches Expr::String(t) && t@ == Seq::<char>::empty()
    }
}

/// One push per argument, in order, spread arguments element by element.
pub open spec fn is_push_of(e: Expr, id: u32, spread: bool, value: Expr) -> bool {
    if spread {
        e == (Expr::ArrayPushSpread { array_id: id, source: Box::new(value) })
    } else {
        e == (Expr::ArrayPush { array_id: id, value: Box::new(value) })
    }
}

/// The node that takes an array and a callback.
pub open spec fn callback_expr(node: CallbackNode, id: u32, cb: Expr) -> Expr {
    let array = local(id);
    let callback = Box::new(cb);
    match node {
        CallbackNode::ForEach => Expr::ArrayForEach { array, callback },
        CallbackNode::MapEach => Expr::ArrayMap { array, callback },
        CallbackNode::Filter => Expr::ArrayFilter { array, callback },
        CallbackNode::Find => Expr::ArrayFind { array, callback },
        CallbackNode::FindIndex => Expr::ArrayFindIndex { array, callback },
        CallbackNode::FindLast => Expr::ArrayFindLast { array, callback },
        CallbackNode::FindLastIndex => Expr::ArrayFindLastIndex { array, callback },
        CallbackNode::AnyMatch => Expr::ArraySome { array, callback },
        CallbackNode::EveryMatch => Expr::ArrayEvery { array, callback },
        CallbackNode::FlatMap => Expr::ArrayFlatMap { array, callback },
    }
}

/// The step that carries out rewrite `r` of `method` on local `id`.
pub open spec fn carries_out(
    r: Rewrite,
    id: u32,
    method: Seq<char>,
    spreads: Seq<bool>,
    args: Seq<Expr>,
    step: FoldStep,
) -> bool {
    match r {
        Rewrite::Decline => step matches FoldStep::Declined(back) && back@ == args,
        Rewrite::Callback(node) => step == (FoldStep::WrapCallback {
            node,
            array_id: id,
            callback: args[0],
        }),
        Rewrite::SearchParams => step matches FoldStep::BuildSearchParams { receiver, args: given }
            && receiver == Expr::LocalGet(id) && given@ == args,
        Rewrite::Decode => step == (FoldStep::LowerDecoder {
            input: arg_or(args, 0, Expr::Undefined),
        }),
        _ => step matches FoldStep::Folded(e) && is_node_for(r, id, method, spreads, args, e),
    }
}

/// The node for each rewrite that has one at once.
pub open spec fn is_node_for(
    r: Rewrite,
    id: u32,
    method: Seq<char>,
    spreads: Seq<bool>,
    args: Seq<Expr>,
    e: Expr,
) -> bool {
    match r {
        Rewrite::ArrayLike => e matches Expr::ArrayLikeMethod { method: name, receiver, args: given }
            && name@ == method && receiver == local(id) && given@ == args,
        Rewrite::PushNothing => {
            &&& e matches Expr::NativeMethodCall { module, class_name, object, method: name, args: given }
            &&& module@ == "array"@
            &&& class_name is None
            &&& object == Some(local(id))
            &&& name@ == "push"@
            &&& given@ == Seq::<Expr>::empty()
        },
        Rewrite::PushOne => is_push_of(e, id, false, args[0]),
        Rewrite::PushSpread => is_push_of(e, id, true, args[0]),
        Rewrite::PushEach => {
            &&& e matches Expr::Sequence(pushes)
            &&& pushes@.len() == args.len()
            &&& forall|i: int|
                0 <= i < args.len() ==> is_push_of(#[trigger] pushes@[i], id, spreads[i], args[i])
        },
        Rewrite::Pop => e == Expr::ArrayPop(id),
        Rewrite::Shift => e == Expr::ArrayShift(id),
        Rewrite::Unshift => e == (Expr::ArrayUnshift { array_id: id, value: arg(args, 0) }),
        Rewrite::IndexOf => e == (Expr::ArrayIndexOf {
            array: local(id),
            value: arg(args, 0),
            from_index: opt_arg(args, 1),
        }),
        Rewrite::Includes => e == (Expr::ArrayIncludes {
            array: local(id),
            value: arg(args, 0),
            from_index: opt_arg(args, 1),
        }),
        Rewrite::LastIndexOf => e == (Expr::ArrayLastIndexOf {
            array: local(id),
            value: arg(args, 0),
            from_index: opt_arg(args, 1),
        }),
        Rewrite::Slice => e == (Expr::ArraySlice {
            array: local(id),
            start: arg(args, 0),
            end: opt_arg(args, 1),
        }),
        Rewrite::Splice => {
            &&& e matches Expr::ArraySplice { array_id, start, delete_count, items }
            &&& array_id == id
            &&& *start == arg_or(args, 0, Expr::Number(NUMBER_ZERO))
            &&& delete_count == if args.len() == 0 {
                Some(Box::new(Expr::Number(NUMBER_ZERO)))
            } else {
                opt_arg(args, 1)
            }
            &&& items@ == args_from(args, 2)
        },
        Rewrite::At => e == (Expr::ArrayAt { array: local(id), index: arg(args, 0) }),
        Rewrite::Sort => e == (Expr::ArraySort { array: local(id), comparator: arg(args, 0) }),
        Rewrite::Reduce => e == (Expr::ArrayReduce {
            array: local(id),
            callback: arg(args, 0),
            initial: opt_arg(args, 1),
        }),
        Rewrite::ReduceRight => e == (Expr::ArrayReduceRight {
            array: local(id),
            callback: arg(args, 0),
            initial: opt_arg(args, 1),
        }),
        Rewrite::Join => e == (Expr::ArrayJoin { array: local(id), separator: opt_arg(args, 0) }),
        Rewrite::Flat => e == (Expr::ArrayFlat { array: local(id) }),
        Rewrite::ToReversed => e == (Expr::ArrayToReversed { array: local(id) }),
        Rewrite::ToSorted => e == (Expr::ArrayToSorted {
            array: local(id),
            comparator: opt_arg(args, 0),
        }),
        Rewrite::ToSpliced => {
            &&& e matches Expr::ArrayToSpliced { array, start, delete_count, items }
            &&& array == local(id)
            &&& *start == arg_or(args, 0, Expr::Number(NUMBER_ZERO))
            &&& *delete_count == arg_or(
                args,
                1,
                Expr::Number(
                    if args.len() == 1 {
                        NUMBER_INFINITY
                    } else {
                        NUMBER_ZERO
                    },
                ),
            )
            &&& items@ == args_from(args, 2)
        },
        Rewrite::With => e == (Expr::ArrayWith {
            array: local(id),
            index: arg(args, 0),
            value: arg(args, 1),
        }),
        Rewrite::CopyWithin => e == (Expr::ArrayCopyWithin {
            array_id: id,
            target: arg(args, 0),
            start: arg(args, 1),
            end: opt_arg(args, 2),
        }),
        Rewrite::Entries => e == Expr::ArrayEntries(local(id)),
        Rewrite::Keys => e == Expr::ArrayKeys(local(id)),
        Rewrite::Values => e == Expr::ArrayValues(local(id)),
        Rewrite::MapSet => e == (Expr::MapSet {
            map: local(id),
            key: arg(args, 0),
            value: arg(args, 1),
        }),
        Rewrite::MapGet => e == (Expr::MapGet { map: local(id), key: arg(args, 0) }),
        Rewrite::MapHas => e == (Expr::MapHas { map: local(id), key: arg(args, 0) }),
        Rewrite::MapDelete => e == (Expr::MapDelete { map: local(id), key: arg(args, 0) }),
        Rewrite::MapClear => e == Expr::MapClear(local(id)),
        Rewrite::SetAdd => e == (Expr::SetAdd { set_id: id, value: arg(args, 0) }),
        Rewrite::SetHas => e == (Expr::SetHas { set: local(id), value: arg(args, 0) }),
        Rewrite::SetDelete => e == (Expr::SetDelete { set: local(id), value: arg(args, 0) }),
        Rewrite::SetClear => e == Expr::SetClear(local(id)),
        Rewrite::Encode => e matches Expr::TextEncoderEncode(text) && is_arg_or_empty_string(
            *text,
            args,
            0,
        ),
        Rewrite::EncodeInto => e matches Expr::TextEncoderEncodeInto { source, dest }
            && is_arg_or_empty_string(*source, args, 0) && *dest == arg_or(
            args,
            1,
            Expr::Undefined,
        ),
        _ => false,
    }
}

/// The rewrites that need a first argument, or a first and a second.
pub open spec fn args_needed(r: Rewrite) -> int {
    match r {
        Rewrite::With | Rewrite::CopyWithin | Rewrite::MapSet => 2,
        Rewrite::PushOne | Rewrite::PushSpread | Rewrite::Unshift | Rewrite::IndexOf
        | Rewrite::Includes | Rewrite::LastIndexOf | Rewrite::Slice | Rewrite::Callback(_)
        | Rewrite::At | Rewrite::Sort | Rewrite::Reduce | Rewrite::ReduceRight | Rewrite::MapGet
        | Rewrite::MapHas | Rewrite::MapDelete | Rewrite::SetAdd | Rewrite::SetHas
        | Rewrite::SetDelete => 1,
        _ => 0,
    }
}

fn local_get(id: u32) -> (b: Box<Expr>)
    ensures
        b == local(id),
{
    Box::new(Expr::LocalGet(id))
}

/// Take the first remaining argument off the list, where there is one.
fn next_arg(args: &mut Vec<Expr>) -> (e: Option<Expr>)
    ensures
        e == if old(args)@.len() > 0 {
            Some(old(args)@[0])
        } else {
            None
        },
        final(args)@ == args_from(old(args)@, 1),
        args_from(final(args)@, 1) == args_from(old(args)@, 2),
{
    let ghost before = args@;
    if args.len() == 0 {
        assert(args_from(before, 1) =~= before);
        assert(args_from(before, 2) =~= before);
        None
    } else {
        let e: Expr = args.remove(0);
        assert(args@ =~= args_from(before, 1));
        assert(args_from(args@, 1) =~= args_from(before, 2));
        Some(e)
    }
}

fn next_boxed(args: &mut Vec<Expr>) -> (e: Option<Box<Expr>>)
    ensures
        e == opt_arg(old(args)@, 0),
        final(args)@ == args_from(old(args)@, 1),
        args_from(final(args)@, 1) == args_from(old(args)@, 2),
{
    match next_arg(args) {
        Some(e) => Some(Box::new(e)),
        None => None,
    }
}

/// Take the next argument, which the caller knows to be there.
fn take_arg(args: &mut Vec<Expr>) -> (e: Box<Expr>)
    requires
        old(args)@.len() > 0,
    ensures
        e == arg(old(args)@, 0),
        final(args)@ == args_from(old(args)@, 1),
        args_from(final(args)@, 1) == args_from(old(args)@, 2),
{
    let ghost before = args@;
    let e: Expr = args.remove(0);
    assert(args@ =~= args_from(before, 1));
    assert(args_from(args@, 1) =~= args_from(before, 2));
    Box::new(e)
}

fn next_or(args: &mut Vec<Expr>, default: Expr) -> (e: Box<Expr>)
    ensures
        *e == arg_or(old(args)@, 0, default),
        final(args)@ == args_from(old(args)@, 1),
        args_from(final(args)@, 1) == args_from(old(args)@, 2),
{
    match next_arg(args) {
        Some(e) => Box::new(e),
        None => Box::new(default),
    }
}

fn next_or_empty_string(args: &mut Vec<Expr>) -> (e: Box<Expr>)
    ensures
        is_arg_or_empty_string(*e, old(args)@, 0),
        final(args)@ == args_from(old(args)@, 1),
{
    match next_arg(args) {
        Some(e) => Box::new(e),
        None => {
            let t: String = String::new();
            assert(t@ =~= Seq::<char>::empty());
            Box::new(Expr::String(t))
        },
    }
}

/// One push per argument, in order.
fn push_each(id: u32, spreads: &Vec<bool>, args: Vec<Expr>) -> (e: Expr)
    requires
        spreads@.len() == args@.len(),
    ensures
        is_node_for(Rewrite::PushEach, id, Seq::empty(), spreads@, args@, e),
{
    let ghost all = args@;
    let mut args = args;
    let mut pushes: Vec<Expr> = Vec::new();
    let mut i: usize = 0;
    while i < spreads.len()
        invariant
            i <= spreads@.len(),
            spreads@.len() == all.len(),
            args@ == args_from(all, i as int),
            pushes@.len() == i,
            forall|k: int|
                0 <= k < i ==> is_push_of(#[trigger] pushes@[k], id, spreads@[k], all[k]),
        decreases spreads@.len() - i,
    {
        let value: Box<Expr> = take_arg(&mut args);
        assert(args@ =~= args_from(all, i + 1));
        if spreads[i] {
            pushes.push(Expr::ArrayPushSpread { array_id: id, source: value });
        } else {
            pushes.push(Expr::ArrayPush { array_id: id, value });
        }
        i = i + 1;
    }
    Expr::Sequence(pushes)
}

/// The node that takes an array and a callback.
pub fn callback_fold(node: CallbackNode, array_id: u32, callback: Expr) -> (e: Expr)
    ensures
        e == callback_expr(node, array_id, callback),
{
    let array: Box<Expr> = local_get(array_id);
    let callback: Box<Expr> = Box::new(callback);
    match node {
        CallbackNode::ForEach => Expr::ArrayForEach { array, callback },
        CallbackNode::MapEach => Expr::ArrayMap { array, callback },
        CallbackNode::Filter => Expr::ArrayFilter { array, callback },
        CallbackNode::Find => Expr::ArrayFind { array, callback },
        CallbackNode::FindIndex => Expr::ArrayFindIndex { array, callback },
        CallbackNode::FindLast => Expr::ArrayFindLast { array, callback },
        CallbackNode::FindLastIndex => Expr::ArrayFindLastIndex { array, callback },
        CallbackNode::AnyMatch => Expr::ArraySome { array, callback },
        CallbackNode::EveryMatch => Expr::ArrayEvery { array, callback },
        CallbackNode::FlatMap => Expr::ArrayFlatMap { array, callback },
    }
}

/// What becomes of a `URLSearchParams` call once its node has been built, or
/// its arguments have come back.
pub fn search_params_fold(built: Result<Expr, Vec<Expr>>) -> (step: FoldStep)
    ensures
        step == match built {
            Ok(e) => FoldStep::Folded(e),
            Err(args) => FoldStep::Declined(args),
        },
{
    match built {
        Ok(e) => FoldStep::Folded(e),
        Err(args) => FoldStep::Declined(args),
    }
}

/// The node for `decoder.decode(input)` once the decoder has been lowered.
pub fn decode_fold(decoder: Expr, input: Expr) -> (e: Expr)
    ensures
        e == (Expr::TextDecoderDecode { decoder: Box::new(decoder), input: Box::new(input) }),
{
    Expr::TextDecoderDecode { decoder: Box::new(decoder), input: Box::new(input) }
}

/// Carry a rewrite out.
pub fn carry_out(
    r: Rewrite,
    id: u32,
    method: &String,
    spreads: &Vec<bool>,
    args: Vec<Expr>,
) -> (step: FoldStep)
    requires
        args_needed(r) <= args@.len(),
        spreads@.len() == args@.len(),
    ensures
        carries_out(r, id, method@, spreads@, args@, step),
{
    let mut args = args;
    let e: Expr = match r {
        Rewrite::Decline => return FoldStep::Declined(args),
        Rewrite::Callback(node) => {
            let callback: Expr = *take_arg(&mut args);
            return FoldStep::WrapCallback { node, array_id: id, callback };
        },
        Rewrite::SearchParams => return FoldStep::BuildSearchParams {
            receiver: Expr::LocalGet(id),
            args,
        },
        Rewrite::Decode => {
            let input: Expr = *next_or(&mut args, Expr::Undefined);
            return FoldStep::LowerDecoder { input };
        },
        Rewrite::ArrayLike => Expr::ArrayLikeMethod {
            method: method.clone(),
            receiver: local_get(id),
            args,
        },
        Rewrite::PushNothing => {
            let none: Vec<Expr> = Vec::new();
            assert(none@ =~= Seq::<Expr>::empty());
            Expr::NativeMethodCall {
                module: "array".to_owned(),
                class_name: None,
                object: Some(local_get(id)),
                method: "push".to_owned(),
                args: none,
            }
        },
        Rewrite::PushOne => Expr::ArrayPush { array_id: id, value: take_arg(&mut args) },
        Rewrite::PushSpread => Expr::ArrayPushSpread { array_id: id, source: take_arg(&mut args) },
        Rewrite::PushEach => push_each(id, spreads, args),
        Rewrite::Pop => Expr::ArrayPop(id),
        Rewrite::Shift => Expr::ArrayShift(id),
        Rewrite::Unshift => Expr::ArrayUnshift { array_id: id, value: take_arg(&mut args) },
        Rewrite::IndexOf => {
            let value: Box<Expr> = take_arg(&mut args);
            Expr::ArrayIndexOf { array: local_get(id), value, from_index: next_boxed(&mut args) }
        },
        Rewrite::Includes => {
            let value: Box<Expr> = take_arg(&mut args);
            Expr::ArrayIncludes { array: local_get(id), value, from_index: next_boxed(&mut args) }
        },
        Rewrite::LastIndexOf => {
            let value: Box<Expr> = take_arg(&mut args);
            Expr::ArrayLastIndexOf { array: local_get(id), value, from_index: next_boxed(&mut args) }
        },
        Rewrite::Slice => {
            let start: Box<Expr> = take_arg(&mut args);
            Expr::ArraySlice { array: local_get(id), start, end: next_boxed(&mut args) }
        },
        Rewrite::Splice => {
            let has_start: bool = args.len() > 0;
            let start: Box<Expr> = next_or(&mut args, Expr::Number(NUMBER_ZERO));
            let next: Option<Box<Expr>> = next_boxed(&mut args);
            let delete_count: Option<Box<Expr>> = if has_start {
                next
            } else {
                Some(Box::new(Expr::Number(NUMBER_ZERO)))
            };
            Expr::ArraySplice { array_id: id, start, delete_count, items: args }
        },
        Rewrite::At => Expr::ArrayAt { array: local_get(id), index: take_arg(&mut args) },
        Rewrite::Sort => Expr::ArraySort { array: local_get(id), comparator: take_arg(&mut args) },
        Rewrite::Reduce => {
            let callback: Box<Expr> = take_arg(&mut args);
            Expr::ArrayReduce { array: local_get(id), callback, initial: next_boxed(&mut args) }
        },
        Rewrite::ReduceRight => {
            let callback: Box<Expr> = take_arg(&mut args);
            Expr::ArrayReduceRight { array: local_get(id), callback, initial: next_boxed(&mut args) }
        },
        Rewrite::Join => Expr::ArrayJoin { array: local_get(id), separator: next_boxed(&mut args) },
        Rewrite::Flat => Expr::ArrayFlat { array: local_get(id) },
        Rewrite::ToReversed => Expr::ArrayToReversed { array: local_get(id) },
        Rewrite::ToSorted => Expr::ArrayToSorted {
            array: local_get(id),
            comparator: next_boxed(&mut args),
        },
        Rewrite::ToSpliced => {
            let missing: u64 = if args.len() == 1 {
                NUMBER_INFINITY
            } else {
                NUMBER_ZERO
            };
            let start: Box<Expr> = next_or(&mut args, Expr::Number(NUMBER_ZERO));
            let delete_count: Box<Expr> = next_or(&mut args, Expr::Number(missing));
            Expr::ArrayToSpliced { array: local_get(id), start, delete_count, items: args }
        },
        Rewrite::With => {
            let index: Box<Expr> = take_arg(&mut args);
            Expr::ArrayWith { array: local_get(id), index, value: take_arg(&mut args) }
        },
        Rewrite::CopyWithin => {
            let target: Box<Expr> = take_arg(&mut args);
            let start: Box<Expr> = take_arg(&mut args);
            Expr::ArrayCopyWithin { array_id: id, target, start, end: next_boxed(&mut args) }
        },
        Rewrite::Entries => Expr::ArrayEntries(local_get(id)),
        Rewrite::Keys => Expr::ArrayKeys(local_get(id)),
        Rewrite::Values => Expr::ArrayValues(local_get(id)),
        Rewrite::MapSet => {
            let key: Box<Expr> = take_arg(&mut args);
            Expr::MapSet { map: local_get(id), key, value: take_arg(&mut args) }
        },
        Rewrite::MapGet => Expr::MapGet { map: local_get(id), key: take_arg(&mut args) },
        Rewrite::MapHas => Expr::MapHas { map: local_get(id), key: take_arg(&mut args) },
        Rewrite::MapDelete => Expr::MapDelete { map: local_get(id), key: take_arg(&mut args) },
        Rewrite::MapClear => Expr::MapClear(local_get(id)),
        Rewrite::SetAdd => Expr::SetAdd { set_id: id, value: take_arg(&mut args) },
        Rewrite::SetHas => Expr::SetHas { set: local_get(id), value: take_arg(&mut args) },
        Rewrite::SetDelete => Expr::SetDelete { set: local_get(id), value: take_arg(&mut args) },
        Rewrite::SetClear => Expr::SetClear(local_get(id)),
        Rewrite::Encode => Expr::TextEncoderEncode(next_or_empty_string(&mut args)),
        Rewrite::EncodeInto => {
            let source: Box<Expr> = next_or_empty_string(&mut args);
            Expr::TextEncoderEncodeInto { source, dest: next_or(&mut args, Expr::Undefined) }
        },
    };
    FoldStep::Folded(e)
}

// ---------------------------------------------------------------------------
// The whole decision
// ---------------------------------------------------------------------------

/// Does any argument spread?
pub open spec fn any_spread(spreads: Seq<bool>) -> bool {
    exists|i: int| 0 <= i < spreads.len() && #[trigger] spreads[i]
}

fn has_spread(spreads: &Vec<bool>) -> (r: bool)
    ensures
        r == any_spread(spreads@),
{
    let mut i: usize = 0;
    while i < spreads.len()
        invariant
            i <= spreads@.len(),
            forall|k: int| 0 <= k < i ==> !#[trigger] spreads@[k],
        decreases spreads@.len() - i,
    {
        if spreads[i] {
            assert(spreads@[i as int]);
            return true;
        }
        i = i + 1;
    }
    false
}

/// The rewrite of a call on a local variable, and the local's number: none
/// for a proxy, for a name that is no local, and for a receiver whose type
/// does not admit it.
pub open spec fn local_rewrite(
    r: Receiver,
    capitalized: bool,
    m: Method,
    spreads: Seq<bool>,
) -> Rewrite {
    if r.is_proxy || r.local is None || !admits_rewrite(r.ty, r.names, capitalized, m) {
        Rewrite::Decline
    } else {
        rewrite_for(r.ty, m, spreads.len() as int, spreads.len() > 0 && spreads[0])
    }
}

/// What becomes of a call, given whether the name of the receiver's type is
/// capitalized.
pub open spec fn call_becomes(
    site: CallSite,
    capitalized: bool,
    args: Seq<Expr>,
    step: FoldStep,
) -> bool {
    let declined = step matches FoldStep::Declined(back) && back@ == args;
    match site.method {
        None => declined,
        Some(name) => {
            let m = method_named(name@);
            // a spread argument stands for any number of values, so no
            // positional argument may be read; only `push` copes with it
            if m != Method::Push && any_spread(site.spreads@) {
                declined
            } else {
                match site.object {
                    CallObject::Local(r) => carries_out(
                        local_rewrite(r, capitalized, m, site.spreads@),
                        match r.local {
                            Some(id) => id,
                            None => 0,
                        },
                        name@,
                        site.spreads@,
                        args,
                        step,
                    ),
                    CallObject::Property => step matches FoldStep::LowerObjectThenDecline(back)
                        && back@ == args,
                    CallObject::Computed => declined,
                }
            }
        },
    }
}

/// Decide what becomes of a call, given whether the name of the receiver's
/// type is capitalized.
pub fn fold_call(site: &CallSite, capitalized: bool, args: Vec<Expr>) -> (step: FoldStep)
    requires
        site.spreads@.len() == args@.len(),
    ensures
        call_becomes(*site, capitalized, args@, step),
{
    let name: &String = match &site.method {
        None => return FoldStep::Declined(args),
        Some(name) => name,
    };
    let m: Method = method_of(name.as_str());
    if m != Method::Push && has_spread(&site.spreads) {
        return FoldStep::Declined(args);
    }
    match &site.object {
        CallObject::Local(r) => {
            if r.is_proxy || !receiver_admits_rewrite(&r.ty, r.names, capitalized, m) {
                return FoldStep::Declined(args);
            }
            match r.local {
                None => FoldStep::Declined(args),
                Some(id) => {
                    let first_spread: bool = site.spreads.len() > 0 && site.spreads[0];
                    let rewrite: Rewrite = choose_rewrite(&r.ty, m, args.len(), first_spread);
                    carry_out(rewrite, id, name, &site.spreads, args)
                },
            }
        },
        CallObject::Property => FoldStep::LowerObjectThenDecline(args),
        CallObject::Computed => FoldStep::Declined(args),
    }
}

/// Decide what becomes of a method call. `args` are the lowered arguments,
/// one for each argument of the call, spread arguments without their token.
pub fn try_local_array_methods(site: &CallSite, args: Vec<Expr>) -> (step: FoldStep)
    requires
        site.spreads@.len() == args@.len(),
    ensures
        call_becomes(
            *site,
            site.object matches CallObject::Local(r) && type_name_is_capitalized(r.ty),
            args@,
            step,
        ),
{
    let capitalized: bool = match &site.object {
        CallObject::Local(r) => receiver_type_is_capitalized(&r.ty),
        _ => false,
    };
    fold_call(site, capitalized, args)
}

// ---------------------------------------------------------------------------
// Laws
// ---------------------------------------------------------------------------

/// A call that is not rewritten gets its arguments back as they were.
pub proof fn law_declined_calls_keep_their_arguments(
    site: CallSite,
    capitalized: bool,
    args: Seq<Expr>,
    step: FoldStep,
)
    requires
        call_becomes(site, capitalized, args, step),
    ensures
        match step {
            FoldStep::Declined(back) => back@ == args,
            FoldStep::LowerObjectThenDecline(back) => back@ == args,
            _ => true,
        },
{
}

/// No argument position is read off a call that spreads: unless the method is
/// `push`, such a call is not rewritten.
pub proof fn law_spread_calls_are_declined(
    site: CallSite,
    capitalized: bool,
    args: Seq<Expr>,
    step: FoldStep,
)
    requires
        call_becomes(site, capitalized, args, step),
        any_spread(site.spreads@),
        !(site.method matches Some(name) && name@ == "push"@),
    ensures
        step is Declined,
{
    assert(site.method matches Some(name) ==> method_named(name@) != Method::Push);
}

/// A proxy receives all its method calls itself.
pub proof fn law_proxies_are_declined(
    site: CallSite,
    capitalized: bool,
    args: Seq<Expr>,
    step: FoldStep,
)
    requires
        call_becomes(site, capitalized, args, step),
        site.object matches CallObject::Local(r) && r.is_proxy,
    ensures
        step is Declined,
{
}

/// A receiver that may be a string, that is an instance of one of the
/// program's own classes, an object literal, a boxed primitive, a byte buffer
/// or a readable stream keeps its own methods.
pub proof fn law_foreign_receivers_are_declined(
    site: CallSite,
    capitalized: bool,
    args: Seq<Expr>,
    step: FoldStep,
)
    requires
        call_becomes(site, capitalized, args, step),
        site.object matches CallObject::Local(r) && {
            ||| is_stringish(r.ty)
            ||| is_user_class_instance(r.ty, r.names, capitalized)
            ||| r.ty matches Some(Type::Object(_))
            ||| r.ty matches Some(Type::Named(n)) && is_wrapper_name(n@)
            ||| is_buffer(r.ty)
            ||| is_readable_stream(r.ty)
        },
    ensures
        step is Declined,
{
}

/// On a receiver of unknown type, a method name that strings, classes or
/// objects share is left to dynamic dispatch.
pub proof fn law_untyped_receivers_are_declined(
    site: CallSite,
    capitalized: bool,
    args: Seq<Expr>,
    step: FoldStep,
)
    requires
        call_becomes(site, capitalized, args, step),
        site.object matches CallObject::Local(r) && is_untyped(r.ty),
        site.method matches Some(name) && needs_known_receiver(method_named(name@)),
    ensures
        step is Declined,
{
}

/// `forEach` of a map, a set or search parameters is never taken for the
/// array method, nor is any other callback iterator with a `thisArg`.
pub proof fn law_collections_keep_their_iteration(ty: Option<Type>, argc: int, first_spread: bool)
    requires
        passes_somewhere(TypeTest::Collection, ty),
    ensures
        !(collection_rewrite(ty, Method::ForEach, argc, first_spread) is Callback),
        forall|m: Method| #[trigger]
            collection_rewrite(ty, m, argc, first_spread) != Rewrite::ArrayLike,
{
}

} // verus!
