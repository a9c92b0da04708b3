//! Named properties of arrays, and the arrays behind tagged templates.
//!
//! An array's header has no room for properties that are not elements, so
//! they live in a table by the array's address. The same goes for the raw
//! strings of a tagged template's array and for the template object of each
//! call site. All of these follow their arrays when the collector moves them.

use std::collections::{HashMap, HashSet};
use vstd::prelude::*;
use crate::roots::{
    is_walk_of, lemma_prefix_members, table_keys, Moves, RuntimeRootVisitor, Visit,
};
use crate::text::text_eq;

verus! {

broadcast use vstd::std_specs::hash::group_hash_axioms;

/// A property of an array that is not an element, with its boxed value.
pub struct ArrayNamedProperty {
    pub name: String,
    pub value: u64,
}

/// A write barrier for the value of a named property.
#[derive(Clone, Copy, PartialEq, Eq, Structural, Debug)]
pub struct PropBarrier {
    pub owner: u64,
    /// The property's place among the owner's.
    pub index: usize,
    pub bits: u64,
}

/// The named properties of all arrays, by address. Within one array they
/// stand in the order in which they were first set.
pub struct ArrayNamedProps {
    pub table: HashMap<u64, Vec<ArrayNamedProperty>>,
    /// The write barriers run so far.
    pub barriers: Vec<PropBarrier>,
}

/// A named property: name and value.
pub type Prop = (Seq<char>, u64);

/// The contents of the table.
pub ghost struct PropTable {
    pub props: Map<u64, Seq<Prop>>,
    pub barriers: Seq<PropBarrier>,
}

/// The properties in a list.
pub open spec fn props_in(v: Seq<ArrayNamedProperty>) -> Seq<Prop> {
    Seq::new(v.len(), |i: int| (v[i].name@, v[i].value))
}

impl View for ArrayNamedProps {
    type V = PropTable;

    open spec fn view(&self) -> PropTable {
        PropTable {
            props: self.table@.map_values(|v: Vec<ArrayNamedProperty>| props_in(v@)),
            barriers: self.barriers@,
        }
    }
}

/// The place of the first property of that name from `i` on, or the length.
pub open spec fn place_of(ps: Seq<Prop>, name: Seq<char>, i: int) -> int
    decreases ps.len() - i,
{
    if i >= ps.len() {
        ps.len() as int
    } else if ps[i].0 == name {
        i
    } else {
        place_of(ps, name, i + 1)
    }
}

/// A property set: its value replaced, or the property added at the end.
pub open spec fn with_prop(ps: Seq<Prop>, name: Seq<char>, value: u64) -> Seq<Prop> {
    let i = place_of(ps, name, 0);
    if i < ps.len() {
        ps.update(i, (name, value))
    } else {
        ps.push((name, value))
    }
}

/// The first `n` of the new properties set, one after the other.
pub open spec fn with_props(ps: Seq<Prop>, new: Seq<Prop>, n: int) -> Seq<Prop>
    decreases n,
{
    if n <= 0 {
        ps
    } else {
        with_prop(with_props(ps, new, n - 1), new[n - 1].0, new[n - 1].1)
    }
}

/// The barriers for all properties of an array.
pub open spec fn barriers_for(owner: u64, ps: Seq<Prop>) -> Seq<PropBarrier> {
    Seq::new(ps.len(), |i: int| PropBarrier { owner, index: i as usize, bits: ps[i].1 })
}

impl PropTable {
    /// The properties of an array.
    pub open spec fn of(self, owner: u64) -> Seq<Prop> {
        if self.props.dom().contains(owner) {
            self.props[owner]
        } else {
            Seq::empty()
        }
    }

    /// The properties of an array replaced, and the barriers run for them.
    pub open spec fn replaced(self, owner: u64, ps: Seq<Prop>) -> PropTable {
        PropTable {
            props: self.props.insert(owner, ps),
            barriers: self.barriers + barriers_for(owner, ps),
        }
    }

    /// No array has two properties of one name.
    pub open spec fn names_unique(self) -> bool {
        forall|owner: u64| self.props.dom().contains(owner) ==> unique_names(
            #[trigger] self.props[owner],
        )
    }

    /// The value of a property, if the array has it.
    pub open spec fn value(self, owner: u64, name: Seq<char>) -> Option<u64> {
        let ps = self.of(owner);
        let i = place_of(ps, name, 0);
        if i < ps.len() {
            Some(ps[i].1)
        } else {
            None
        }
    }
}

/// No two properties have one name.
pub open spec fn unique_names(ps: Seq<Prop>) -> bool {
    forall|i: int, j: int|
        0 <= i < j < ps.len() ==> (#[trigger] ps[i]).0 != (#[trigger] ps[j]).0
}

proof fn lemma_place_of(ps: Seq<Prop>, name: Seq<char>, i: int)
    requires
        0 <= i <= ps.len(),
    ensures
        ({
            let k = place_of(ps, name, i);
            &&& i <= k <= ps.len()
            &&& k < ps.len() ==> ps[k].0 == name
            &&& forall|j: int| i <= j < k ==> (#[trigger] ps[j]).0 != name
        }),
    decreases ps.len() - i,
{
    if i < ps.len() && ps[i].0 != name {
        lemma_place_of(ps, name, i + 1);
    }
}

/// The place of the first property of that name, or the length.
fn find(v: &Vec<ArrayNamedProperty>, name: &str) -> (k: usize)
    ensures
        k == place_of(props_in(v@), name@, 0),
        k <= v@.len(),
{
    let mut i: usize = 0;
    while i < v.len()
        invariant
            i <= v@.len(),
            place_of(props_in(v@), name@, 0) == place_of(props_in(v@), name@, i as int),
        decreases v@.len() - i,
    {
        if text_eq(v[i].name.as_str(), name) {
            return i;
        }
        i = i + 1;
    }
    i
}

fn set_in(v: &mut Vec<ArrayNamedProperty>, name: &str, value: u64)
    ensures
        props_in(final(v)@) == with_prop(props_in(old(v)@), name@, value),
{
    let ghost before = v@;
    let k: usize = find(v, name);
    proof {
        lemma_place_of(props_in(before), name@, 0);
    }
    if k < v.len() {
        v.set(k, ArrayNamedProperty { name: name.to_owned(), value });
        assert(props_in(v@) =~= props_in(before).update(k as int, (name@, value)));
    } else {
        v.push(ArrayNamedProperty { name: name.to_owned(), value });
        assert(props_in(v@) =~= props_in(before).push((name@, value)));
    }
}

impl ArrayNamedProps {
    /// Take an array's properties out of the table.
    fn take(&mut self, owner: u64) -> (v: Vec<ArrayNamedProperty>)
        ensures
            props_in(v@) == old(self)@.of(owner),
            final(self)@ == (PropTable { props: old(self)@.props.remove(owner), ..old(self)@ }),
    {
        let ghost before = self@;
        let r: Option<Vec<ArrayNamedProperty>> = self.table.remove(&owner);
        assert(self@.props =~= before.props.remove(owner));
        match r {
            Some(v) => v,
            None => {
                let v: Vec<ArrayNamedProperty> = Vec::new();
                assert(props_in(v@) =~= Seq::empty());
                assert(before.props.remove(owner) =~= before.props);
                v
            },
        }
    }

    /// Put an array's properties into the table, running the barriers.
    fn put(&mut self, owner: u64, v: Vec<ArrayNamedProperty>)
        ensures
            final(self)@ == old(self)@.replaced(owner, props_in(v@)),
    {
        let ghost before = self@;
        let ghost ps = props_in(v@);
        let mut i: usize = 0;
        assert(before.barriers =~= before.barriers + barriers_for(owner, ps).take(0));
        while i < v.len()
            invariant
                i <= v@.len(),
                ps == props_in(v@),
                self@ == (PropTable { barriers: self@.barriers, ..before }),
                self@.barriers == before.barriers + barriers_for(owner, ps).take(i as int),
            decreases v@.len() - i,
        {
            self.barriers.push(PropBarrier { owner, index: i, bits: v[i].value });
            assert(self@.barriers =~= before.barriers + barriers_for(owner, ps).take(i + 1));
            i = i + 1;
        }
        assert(barriers_for(owner, ps).take(i as int) =~= barriers_for(owner, ps));
        self.table.insert(owner, v);
        assert(self@.props =~= before.props.insert(owner, ps));
    }
}

/// Set a named property. Nothing happens where there is no array, or where
/// the key is no text.
pub fn array_named_property_set(t: &mut ArrayNamedProps, arr: u64, key: Option<&str>, value: u64)
    ensures
        final(t)@ == match key {
            Some(name) => if arr == 0 {
                old(t)@
            } else {
                old(t)@.replaced(arr, with_prop(old(t)@.of(arr), name@, value))
            },
            None => old(t)@,
        },
{
    let ghost before = t@;
    if arr == 0 {
        return;
    }
    if let Some(name) = key {
        let mut v: Vec<ArrayNamedProperty> = t.take(arr);
        set_in(&mut v, name, value);
        t.put(arr, v);
        assert(t@.props =~= before.props.insert(arr, props_in(v@)));
    }
}

/// Set several properties of an array that was just built.
pub fn array_named_props_install_fresh(
    t: &mut ArrayNamedProps,
    arr: u64,
    entries: &Vec<ArrayNamedProperty>,
)
    ensures
        final(t)@ == if arr == 0 {
            old(t)@
        } else {
            old(t)@.replaced(
                arr,
                with_props(old(t)@.of(arr), props_in(entries@), entries@.len() as int),
            )
        },
{
    let ghost before = t@;
    if arr == 0 {
        return;
    }
    let mut v: Vec<ArrayNamedProperty> = t.take(arr);
    let mut i: usize = 0;
    while i < entries.len()
        invariant
            i <= entries@.len(),
            props_in(v@) == with_props(before.of(arr), props_in(entries@), i as int),
        decreases entries@.len() - i,
    {
        set_in(&mut v, entries[i].name.as_str(), entries[i].value);
        i = i + 1;
    }
    t.put(arr, v);
    assert(t@.props =~= before.props.insert(arr, props_in(v@)));
}

/// The value of a named property.
pub fn array_named_property_get_by_name(t: &ArrayNamedProps, arr: u64, name: &str) -> (v: Option<
    u64,
>)
    ensures
        v == if arr == 0 {
            None
        } else {
            t@.value(arr, name@)
        },
{
    if arr == 0 {
        return None;
    }
    match t.table.get(&arr) {
        Some(v) => {
            let k: usize = find(v, name);
            if k < v.len() {
                Some(v[k].value)
            } else {
                None
            }
        },
        None => None,
    }
}

/// The value of a named property; nothing where the key is no text.
pub fn array_named_property_get(t: &ArrayNamedProps, arr: u64, key: Option<&str>) -> (v: Option<u64>)
    ensures
        v == match key {
            Some(name) => if arr == 0 {
                None
            } else {
                t@.value(arr, name@)
            },
            None => None,
        },
{
    match key {
        Some(name) => array_named_property_get_by_name(t, arr, name),
        None => None,
    }
}

/// Does the array have a property of that name?
pub fn array_named_property_has(t: &ArrayNamedProps, arr: u64, key: Option<&str>) -> (r: bool)
    ensures
        r == (key matches Some(name) && arr != 0 && t@.value(arr, name@) is Some),
{
    array_named_property_get(t, arr, key).is_some()
}

/// The names of the first `n` properties, without the hidden ones.
pub open spec fn names_upto(ps: Seq<Prop>, hidden: Seq<Seq<char>>, n: int) -> Seq<Seq<char>>
    decreases n,
{
    if n <= 0 {
        Seq::empty()
    } else if hidden.contains(ps[n - 1].0) {
        names_upto(ps, hidden, n - 1)
    } else {
        names_upto(ps, hidden, n - 1).push(ps[n - 1].0)
    }
}

/// The texts in a list.
pub open spec fn texts(v: Seq<String>) -> Seq<Seq<char>> {
    Seq::new(v.len(), |i: int| v[i]@)
}

fn is_among(name: &str, v: &Vec<String>) -> (r: bool)
    ensures
        r == texts(v@).contains(name@),
{
    let mut i: usize = 0;
    while i < v.len()
        invariant
            i <= v@.len(),
            forall|k: int| 0 <= k < i ==> #[trigger] texts(v@)[k] != name@,
        decreases v@.len() - i,
    {
        if text_eq(v[i].as_str(), name) {
            assert(texts(v@)[i as int] == name@);
            return true;
        }
        i = i + 1;
    }
    false
}

/// The names of an array's properties, in the order in which they were first
/// set. `hidden` are those that its property attributes make non-enumerable;
/// they are left out where only enumerable names are asked for.
pub fn array_named_property_names(
    t: &ArrayNamedProps,
    arr: u64,
    enumerable_only: bool,
    hidden: &Vec<String>,
) -> (names: Vec<String>)
    ensures
        texts(names@) == if arr == 0 {
            Seq::empty()
        } else {
            names_upto(
                t@.of(arr),
                if enumerable_only {
                    texts(hidden@)
                } else {
                    Seq::empty()
                },
                t@.of(arr).len() as int,
            )
        },
{
    let mut names: Vec<String> = Vec::new();
    assert(texts(names@) =~= Seq::empty());
    if arr == 0 {
        return names;
    }
    let ghost skipped = if enumerable_only {
        texts(hidden@)
    } else {
        Seq::empty()
    };
    match t.table.get(&arr) {
        Some(v) => {
            let ghost ps = props_in(v@);
            assert(ps == t@.of(arr));
            let mut i: usize = 0;
            while i < v.len()
                invariant
                    i <= v@.len(),
                    ps == props_in(v@),
                    skipped == if enumerable_only {
                        texts(hidden@)
                    } else {
                        Seq::empty()
                    },
                    texts(names@) == names_upto(ps, skipped, i as int),
                decreases v@.len() - i,
            {
                let name: &String = &v[i].name;
                if !enumerable_only || !is_among(name.as_str(), hidden) {
                    let ghost before = texts(names@);
                    names.push(name.clone());
                    assert(texts(names@) =~= before.push(name@));
                }
                i = i + 1;
            }
        },
        None => {},
    }
    names
}

/// Remove a named property. False where there is none.
pub fn array_named_property_delete(t: &mut ArrayNamedProps, arr: u64, key: Option<&str>) -> (r:
    bool)
    ensures
        r == (key matches Some(name) && arr != 0 && old(t)@.value(arr, name@) is Some),
        r ==> final(t)@ == (PropTable {
            props: old(t)@.props.insert(
                arr,
                old(t)@.of(arr).remove(place_of(old(t)@.of(arr), key->0@, 0)),
            ),
            ..old(t)@
        }),
        !r ==> final(t)@ == old(t)@,
{
    let name: &str = match key {
        Some(name) => name,
        None => return false,
    };
    if arr == 0 {
        return false;
    }
    let ghost before = t@;
    let k: usize = match t.table.get(&arr) {
        Some(v) => {
            let k: usize = find(v, name);
            if k >= v.len() {
                return false;
            }
            k
        },
        None => return false,
    };
    let mut v: Vec<ArrayNamedProperty> = t.take(arr);
    let ghost ps = props_in(v@);
    v.remove(k);
    assert(props_in(v@) =~= ps.remove(k as int));
    let ghost taken = t@.props;
    t.table.insert(arr, v);
    assert(t@.props =~= taken.insert(arr, ps.remove(k as int)));
    assert(taken.insert(arr, ps.remove(k as int)) =~= before.props.insert(
        arr,
        ps.remove(k as int),
    ));
    true
}

/// Forget the arrays that are dead.
pub fn prune_dead_array_named_property_owners(t: &mut ArrayNamedProps, dead: &HashSet<u64>)
    ensures
        final(t)@.barriers == old(t)@.barriers,
        final(t)@.props == old(t)@.props.remove_keys(dead@),
{
    let ghost before = t@;
    let keys: Vec<u64> = table_keys(&t.table);
    assert(t.table@.dom() =~= before.props.dom());
    let mut i: usize = 0;
    while i < keys.len()
        invariant
            i <= keys@.len(),
            is_walk_of(keys@, before.props.dom()),
            t@.barriers == before.barriers,
            forall|k: u64| #[trigger]
                t@.props.dom().contains(k) <==> before.props.dom().contains(k) && !(
                dead@.contains(k) && keys@.take(i as int).contains(k)),
            forall|k: u64| #[trigger]
                t@.props.dom().contains(k) ==> t@.props[k] == before.props[k],
        decreases keys@.len() - i,
    {
        let k: u64 = keys[i];
        let ghost was = t@;
        proof {
            lemma_prefix_members(keys@, i as int);
        }
        if dead.contains(&k) {
            t.table.remove(&k);
            assert(t@.props =~= was.props.remove(k));
        }
        i = i + 1;
    }
    assert(keys@.take(i as int) =~= keys@);
    assert forall|k: u64| before.props.dom().contains(k) implies keys@.contains(k) by {
        assert(keys@.to_set().contains(k));
    }
    assert(t@.props =~= before.props.remove_keys(dead@));
}

// ---------------------------------------------------------------------------
// Following moved arrays
// ---------------------------------------------------------------------------

/// Properties with their values brought up to date.
pub open spec fn updated_props(mv: Moves, ps: Seq<Prop>) -> Seq<Prop> {
    Seq::new(ps.len(), |i: int| (ps[i].0, mv.new_word(ps[i].1)))
}

/// The table with all values brought up to date.
pub open spec fn updated_table(mv: Moves, t: PropTable) -> PropTable {
    PropTable { props: t.props.map_values(|ps: Seq<Prop>| updated_props(mv, ps)), ..t }
}

/// The visits for one array: its address, then its values.
pub open spec fn owner_visits(owner: u64, ps: Seq<Prop>) -> Seq<Visit> {
    seq![Visit::Metadata(owner)] + Seq::new(ps.len(), |i: int| Visit::Word(ps[i].1))
}

/// The visits for the first `n` arrays of a walk.
pub open spec fn table_visits(t: PropTable, order: Seq<u64>, n: int) -> Seq<Visit>
    decreases n,
{
    if n <= 0 {
        Seq::empty()
    } else {
        table_visits(t, order, n - 1) + owner_visits(order[n - 1], t.props[order[n - 1]])
    }
}

/// The table after the first `n` arrays of a walk, where they have moved, are
/// found under their new address. Should there be an entry already, the
/// moved array's properties are set on it.
pub open spec fn rekeyed_table(
    mv: Moves,
    t: PropTable,
    order: Seq<u64>,
    n: int,
) -> PropTable
    decreases n,
{
    if n <= 0 {
        t
    } else {
        let prev = rekeyed_table(mv, t, order, n - 1);
        let owner = order[n - 1];
        let new_owner = mv.new_addr(owner);
        if new_owner == owner || !prev.props.dom().contains(owner) {
            prev
        } else {
            let ps = prev.props[owner];
            let rest = PropTable { props: prev.props.remove(owner), ..prev };
            rest.replaced(new_owner, with_props(rest.of(new_owner), ps, ps.len() as int))
        }
    }
}

/// A scan of the named properties, walking the arrays in some order: every
/// address and value is visited once, values are brought up to date, and
/// moved arrays are found under their new address.
pub open spec fn props_scanned(
    mv: Moves,
    before: PropTable,
    after: PropTable,
    visits: Seq<Visit>,
    order: Seq<u64>,
) -> bool {
    &&& is_walk_of(order, before.props.dom())
    &&& visits == table_visits(before, order, order.len() as int)
    &&& after == rekeyed_table(mv, updated_table(mv, before), order, order.len() as int)
}

/// Set the properties in `v` on an array, running the barriers.
fn merge_array_named_props(t: &mut ArrayNamedProps, owner: u64, v: Vec<ArrayNamedProperty>)
    ensures
        final(t)@ == old(t)@.replaced(
            owner,
            with_props(old(t)@.of(owner), props_in(v@), v@.len() as int),
        ),
{
    let ghost before = t@;
    let mut w: Vec<ArrayNamedProperty> = t.take(owner);
    let mut i: usize = 0;
    while i < v.len()
        invariant
            i <= v@.len(),
            props_in(w@) == with_props(before.of(owner), props_in(v@), i as int),
        decreases v@.len() - i,
    {
        set_in(&mut w, v[i].name.as_str(), v[i].value);
        i = i + 1;
    }
    t.put(owner, w);
    assert(t@.props =~= before.props.insert(owner, props_in(w@)));
}

fn visit_values(v: &mut Vec<ArrayNamedProperty>, visitor: &mut RuntimeRootVisitor)
    ensures
        final(visitor).known() == old(visitor).known(),
        final(visitor).visits@ == old(visitor).visits@ + Seq::new(
            old(v)@.len(),
            |i: int| Visit::Word(props_in(old(v)@)[i].1),
        ),
        props_in(final(v)@) == updated_props(old(visitor).known(), props_in(old(v)@)),
{
    let ghost before = props_in(v@);
    let ghost visits = visitor.visits@;
    let ghost words = Seq::new(before.len(), |i: int| Visit::Word(before[i].1));
    let mut i: usize = 0;
    assert(visits =~= visits + words.take(0));
    while i < v.len()
        invariant
            i <= v@.len(),
            v@.len() == before.len(),
            words == Seq::new(before.len(), |i: int| Visit::Word(before[i].1)),
            visitor.known() == old(visitor).known(),
            visitor.visits@ == visits + words.take(i as int),
            forall|k: int|
                0 <= k < before.len() ==> #[trigger] props_in(v@)[k] == if k < i {
                    (before[k].0, old(visitor).known().new_word(before[k].1))
                } else {
                    before[k]
                },
        decreases v@.len() - i,
    {
        assert(props_in(v@)[i as int] == before[i as int]);
        let ghost was = props_in(v@);
        let w: u64 = visitor.visit_nanbox_slot(v[i].value);
        assert(words.take(i + 1) =~= words.take(i as int).push(words[i as int]));
        assert(visitor.visits@ =~= visits + words.take(i + 1));
        let name: String = v[i].name.clone();
        v.set(i, ArrayNamedProperty { name, value: w });
        assert forall|k: int| 0 <= k < before.len() implies #[trigger] props_in(v@)[k] == if k < i
            + 1 {
            (before[k].0, old(visitor).known().new_word(before[k].1))
        } else {
            before[k]
        } by {
            if k != i {
                assert(props_in(v@)[k] == was[k]);
            }
        }
        i = i + 1;
    }
    assert(words.take(i as int) =~= words);
    assert(props_in(v@) =~= updated_props(old(visitor).known(), before));
}

/// Show the collector the named properties of all arrays, and follow the
/// arrays that have moved.
pub fn scan_array_named_property_roots_mut(
    t: &mut ArrayNamedProps,
    visitor: &mut RuntimeRootVisitor,
)
    ensures
        final(visitor).known() == old(visitor).known(),
        exists|order: Seq<u64>, visits: Seq<Visit>|
            #![trigger props_scanned(old(visitor).known(), old(t)@, final(t)@, visits, order)]
            props_scanned(old(visitor).known(), old(t)@, final(t)@, visits, order)
                && final(visitor).visits@ == old(visitor).visits@ + visits,
{
    let ghost before = t@;
    let ghost visits = visitor.visits@;
    let keys: Vec<u64> = table_keys(&t.table);
    let ghost order = keys@;
    assert(t.table@.dom() =~= before.props.dom());
    let ghost target = updated_table(visitor.known(), before);
    let mut i: usize = 0;
    assert(visits =~= visits + table_visits(before, order, 0));
    while i < keys.len()
        invariant
            i <= keys@.len(),
            order == keys@,
            is_walk_of(order, before.props.dom()),
            target == updated_table(old(visitor).known(), before),
            visitor.known() == old(visitor).known(),
            visitor.visits@ == visits + table_visits(before, order, i as int),
            t@.barriers == before.barriers,
            t@.props.dom() == before.props.dom(),
            forall|k: u64|
                before.props.dom().contains(k) ==> #[trigger] t@.props[k] == if order.take(
                    i as int,
                ).contains(k) {
                    target.props[k]
                } else {
                    before.props[k]
                },
        decreases keys@.len() - i,
    {
        let owner: u64 = keys[i];
        assert(order.to_set().contains(owner));
        proof {
            lemma_prefix_members(order, i as int);
            lemma_not_before(order, i as int);
        }
        let ghost was = t@;
        let mut v: Vec<ArrayNamedProperty> = t.take(owner);
        visitor.visit_metadata_usize_slot(owner);
        visit_values(&mut v, visitor);
        let ghost now = props_in(v@);
        let ghost taken = t@.props;
        t.table.insert(owner, v);
        proof {
            assert(t@.props =~= taken.insert(owner, now));
            assert(now == target.props[owner]);
            assert(t@.props.dom() =~= before.props.dom());
            assert(visitor.visits@ =~= visits + table_visits(before, order, i + 1));
            assert forall|k: u64| before.props.dom().contains(k) implies #[trigger] t@.props[k]
                == if order.take(i + 1).contains(k) {
                target.props[k]
            } else {
                before.props[k]
            } by {
                if k != owner {
                    assert(t@.props[k] == was.props[k]);
                }
            }
        }
        i = i + 1;
    }
    proof {
        assert(order.take(i as int) =~= order);
        assert forall|k: u64| before.props.dom().contains(k) implies t@.props[k]
            == target.props[k] by {
            assert(order.to_set().contains(k));
        }
        assert(t@.props =~= target.props);
        assert(t@ == target);
    }
    let mut j: usize = 0;
    while j < keys.len()
        invariant
            j <= keys@.len(),
            order == keys@,
            visitor.known() == old(visitor).known(),
            visitor.visits@ == visits + table_visits(before, order, order.len() as int),
            t@ == rekeyed_table(old(visitor).known(), target, order, j as int),
        decreases keys@.len() - j,
    {
        let owner: u64 = keys[j];
        let new_owner: u64 = visitor.moved(owner);
        if new_owner != owner && t.table.contains_key(&owner) {
            let v: Vec<ArrayNamedProperty> = t.take(owner);
            merge_array_named_props(t, new_owner, v);
        }
        j = j + 1;
    }
    assert(props_scanned(
        old(visitor).known(),
        before,
        t@,
        table_visits(before, order, order.len() as int),
        order,
    ));
}

/// A walk comes to each member once.
proof fn lemma_not_before(order: Seq<u64>, i: int)
    requires
        order.no_duplicates(),
        0 <= i < order.len(),
    ensures
        !order.take(i).contains(order[i]),
{
    if order.take(i).contains(order[i]) {
        let j = choose|j: int| 0 <= j < i && #[trigger] order.take(i)[j] == order[i];
        assert(order[j] == order[i]);
    }
}

// ---------------------------------------------------------------------------
// Tagged templates
// ---------------------------------------------------------------------------

/// The arrays behind tagged templates.
pub struct TemplateTables {
    /// The raw-strings array of each cooked-strings array.
    pub raw_map: HashMap<u64, u64>,
    /// The cooked and raw arrays of each call site.
    pub cache: HashMap<u64, (u64, u64)>,
}

/// Register a cooked array with its raw one. Nothing happens where one of the
/// two is missing.
fn register_template_raw_pair(t: &mut TemplateTables, cooked: u64, raw: u64)
    ensures
        final(t).raw_map@ == if cooked == 0 || raw == 0 {
            old(t).raw_map@
        } else {
            old(t).raw_map@.insert(cooked, raw)
        },
        final(t).cache@ == old(t).cache@,
{
    if cooked == 0 || raw == 0 {
        return;
    }
    t.raw_map.insert(cooked, raw);
}

/// Register the arrays of a tagged-template call; the result is the cooked
/// one.
pub fn js_tagged_template_register_raw(t: &mut TemplateTables, cooked: u64, raw: u64) -> (r: u64)
    ensures
        r == cooked,
        final(t).raw_map@ == if cooked == 0 || raw == 0 {
            old(t).raw_map@
        } else {
            old(t).raw_map@.insert(cooked, raw)
        },
        final(t).cache@ == old(t).cache@,
{
    register_template_raw_pair(t, cooked, raw);
    cooked
}

/// The template object of a call site.
#[derive(Clone, Copy, PartialEq, Eq, Structural, Debug)]
pub struct TemplateObject {
    /// The cooked array.
    pub cooked: u64,
    /// The object is new: both its arrays are to be frozen, and its `raw`
    /// property to be made read-only and hidden.
    pub fresh: bool,
}

/// The template object of a call site, set up at its first evaluation: the
/// raw array becomes the cooked one's `raw` property (`boxed_raw` is the raw
/// array as a value), and both are remembered. Later evaluations get the same
/// object, whatever arrays they bring.
pub fn js_tagged_template_get_or_init(
    t: &mut TemplateTables,
    props: &mut ArrayNamedProps,
    site_id: u64,
    cooked: u64,
    raw: u64,
    boxed_raw: u64,
) -> (r: TemplateObject)
    ensures
        old(t).cache@.dom().contains(site_id) ==> {
            &&& r == (TemplateObject { cooked: old(t).cache@[site_id].0, fresh: false })
            &&& final(t).cache@ == old(t).cache@
            &&& final(t).raw_map@ == old(t).raw_map@
            &&& final(props)@ == old(props)@
        },
        !old(t).cache@.dom().contains(site_id) && (cooked == 0 || raw == 0) ==> {
            &&& r == (TemplateObject { cooked, fresh: false })
            &&& final(t).cache@ == old(t).cache@
            &&& final(t).raw_map@ == old(t).raw_map@
            &&& final(props)@ == old(props)@
        },
        !old(t).cache@.dom().contains(site_id) && cooked != 0 && raw != 0 ==> {
            &&& r == (TemplateObject { cooked, fresh: true })
            &&& final(t).cache@ == old(t).cache@.insert(site_id, (cooked, raw))
            &&& final(t).raw_map@ == old(t).raw_map@.insert(cooked, raw)
            &&& final(props)@ == old(props)@.replaced(
                cooked,
                with_prop(old(props)@.of(cooked), "raw"@, boxed_raw),
            )
        },
{
    match t.cache.get(&site_id) {
        Some(pair) => return TemplateObject { cooked: pair.0, fresh: false },
        None => {},
    }
    if cooked == 0 || raw == 0 {
        return TemplateObject { cooked, fresh: false };
    }
    array_named_property_set(props, cooked, Some("raw"), boxed_raw);
    register_template_raw_pair(t, cooked, raw);
    t.cache.insert(site_id, (cooked, raw));
    TemplateObject { cooked, fresh: true }
}

/// The raw array of a cooked one, or 0.
pub fn js_template_raw(t: &TemplateTables, cooked: u64) -> (raw: u64)
    ensures
        raw == if cooked != 0 && t.raw_map@.dom().contains(cooked) {
            t.raw_map@[cooked]
        } else {
            0
        },
{
    if cooked == 0 {
        return 0;
    }
    match t.raw_map.get(&cooked) {
        Some(p) => *p,
        None => 0,
    }
}

/// The visits for the first `n` call sites of a walk.
pub open spec fn cache_visits(cache: Map<u64, (u64, u64)>, order: Seq<u64>, n: int) -> Seq<Visit>
    decreases n,
{
    if n <= 0 {
        Seq::empty()
    } else {
        cache_visits(cache, order, n - 1) + seq![
            Visit::Pointer(cache[order[n - 1]].0),
            Visit::Pointer(cache[order[n - 1]].1),
        ]
    }
}

/// The call sites' arrays brought up to date.
pub open spec fn updated_cache(
    mv: Moves,
    cache: Map<u64, (u64, u64)>,
) -> Map<u64, (u64, u64)> {
    cache.map_values(|p: (u64, u64)| (mv.new_addr(p.0), mv.new_addr(p.1)))
}

/// The visits for the first `n` cooked arrays of a walk.
pub open spec fn raw_visits(m: Map<u64, u64>, order: Seq<u64>, n: int) -> Seq<Visit>
    decreases n,
{
    if n <= 0 {
        Seq::empty()
    } else {
        raw_visits(m, order, n - 1) + seq![
            Visit::Pointer(order[n - 1]),
            Visit::Pointer(m[order[n - 1]]),
        ]
    }
}

/// The raw arrays brought up to date.
pub open spec fn updated_raws(mv: Moves, m: Map<u64, u64>) -> Map<u64, u64> {
    m.map_values(|p: u64| mv.new_addr(p))
}

/// The map after the first `n` cooked arrays of a walk, where they have
/// moved, are found under their new address.
pub open spec fn rekeyed_raws(
    mv: Moves,
    m: Map<u64, u64>,
    order: Seq<u64>,
    n: int,
) -> Map<u64, u64>
    decreases n,
{
    if n <= 0 {
        m
    } else {
        let prev = rekeyed_raws(mv, m, order, n - 1);
        let cooked = order[n - 1];
        let new_cooked = mv.new_addr(cooked);
        if new_cooked == cooked || !prev.dom().contains(cooked) {
            prev
        } else {
            prev.remove(cooked).insert(new_cooked, prev[cooked])
        }
    }
}

/// A scan of the raw map, walking it in some order.
pub open spec fn raws_scanned(
    mv: Moves,
    before: Map<u64, u64>,
    after: Map<u64, u64>,
    visits: Seq<Visit>,
    order: Seq<u64>,
) -> bool {
    &&& is_walk_of(order, before.dom())
    &&& visits == raw_visits(before, order, order.len() as int)
    &&& after == rekeyed_raws(mv, updated_raws(mv, before), order, order.len() as int)
}

/// A scan of the call sites, walking them in some order.
pub open spec fn cache_scanned(
    mv: Moves,
    before: Map<u64, (u64, u64)>,
    after: Map<u64, (u64, u64)>,
    visits: Seq<Visit>,
    order: Seq<u64>,
) -> bool {
    &&& is_walk_of(order, before.dom())
    &&& visits == cache_visits(before, order, order.len() as int)
    &&& after == updated_cache(mv, before)
}

fn scan_cache(t: &mut TemplateTables, visitor: &mut RuntimeRootVisitor)
    ensures
        final(visitor).known() == old(visitor).known(),
        final(t).raw_map == old(t).raw_map,
        exists|order: Seq<u64>, visits: Seq<Visit>|
            #![trigger cache_scanned(old(visitor).known(), old(t).cache@, final(t).cache@, visits, order)]
            cache_scanned(old(visitor).known(), old(t).cache@, final(t).cache@, visits, order)
                && final(visitor).visits@ == old(visitor).visits@ + visits,
{
    let ghost before = t.cache@;
    let ghost visits = visitor.visits@;
    let ghost target = updated_cache(visitor.known(), before);
    let keys: Vec<u64> = table_keys(&t.cache);
    let ghost order = keys@;
    let mut i: usize = 0;
    assert(visits =~= visits + cache_visits(before, order, 0));
    while i < keys.len()
        invariant
            i <= keys@.len(),
            order == keys@,
            is_walk_of(order, before.dom()),
            target == updated_cache(old(visitor).known(), before),
            visitor.known() == old(visitor).known(),
            visitor.visits@ == visits + cache_visits(before, order, i as int),
            t.raw_map == old(t).raw_map,
            t.cache@.dom() == before.dom(),
            forall|k: u64|
                before.dom().contains(k) ==> #[trigger] t.cache@[k] == if order.take(
                    i as int,
                ).contains(k) {
                    target[k]
                } else {
                    before[k]
                },
        decreases keys@.len() - i,
    {
        let site: u64 = keys[i];
        assert(order.to_set().contains(site));
        proof {
            lemma_prefix_members(order, i as int);
            lemma_not_before(order, i as int);
        }
        let pair: (u64, u64) = match t.cache.get(&site) {
            Some(p) => *p,
            None => (0, 0),
        };
        let cooked: u64 = visitor.visit_raw_mut_ptr_slot(pair.0);
        let raw: u64 = visitor.visit_raw_mut_ptr_slot(pair.1);
        t.cache.insert(site, (cooked, raw));
        assert(t.cache@.dom() =~= before.dom());
        assert(visitor.visits@ =~= visits + cache_visits(before, order, i + 1));
        i = i + 1;
    }
    proof {
        assert(order.take(i as int) =~= order);
        assert forall|k: u64| before.dom().contains(k) implies t.cache@[k] == target[k] by {
            assert(order.to_set().contains(k));
        }
        assert(t.cache@ =~= target);
        assert(cache_scanned(
            old(visitor).known(),
            before,
            t.cache@,
            cache_visits(before, order, order.len() as int),
            order,
        ));
    }
}

fn scan_raws(t: &mut TemplateTables, visitor: &mut RuntimeRootVisitor)
    ensures
        final(visitor).known() == old(visitor).known(),
        final(t).cache == old(t).cache,
        exists|order: Seq<u64>, visits: Seq<Visit>|
            #![trigger raws_scanned(old(visitor).known(), old(t).raw_map@, final(t).raw_map@, visits, order)]
            raws_scanned(old(visitor).known(), old(t).raw_map@, final(t).raw_map@, visits, order)
                && final(visitor).visits@ == old(visitor).visits@ + visits,
{
    let ghost before = t.raw_map@;
    let ghost visits = visitor.visits@;
    let ghost target = updated_raws(visitor.known(), before);
    let keys: Vec<u64> = table_keys(&t.raw_map);
    let ghost order = keys@;
    let mut i: usize = 0;
    assert(visits =~= visits + raw_visits(before, order, 0));
    while i < keys.len()
        invariant
            i <= keys@.len(),
            order == keys@,
            is_walk_of(order, before.dom()),
            target == updated_raws(old(visitor).known(), before),
            visitor.known() == old(visitor).known(),
            visitor.visits@ == visits + raw_visits(before, order, i as int),
            t.cache == old(t).cache,
            t.raw_map@.dom() == before.dom(),
            forall|k: u64|
                before.dom().contains(k) ==> #[trigger] t.raw_map@[k] == if order.take(
                    i as int,
                ).contains(k) {
                    target[k]
                } else {
                    before[k]
                },
        decreases keys@.len() - i,
    {
        let cooked: u64 = keys[i];
        assert(order.to_set().contains(cooked));
        proof {
            lemma_prefix_members(order, i as int);
            lemma_not_before(order, i as int);
        }
        let raw: u64 = match t.raw_map.get(&cooked) {
            Some(p) => *p,
            None => 0,
        };
        visitor.visit_raw_mut_ptr_slot(cooked);
        let new_raw: u64 = visitor.visit_raw_mut_ptr_slot(raw);
        t.raw_map.insert(cooked, new_raw);
        assert(t.raw_map@.dom() =~= before.dom());
        assert(visitor.visits@ =~= visits + raw_visits(before, order, i + 1));
        i = i + 1;
    }
    proof {
        assert(order.take(i as int) =~= order);
        assert forall|k: u64| before.dom().contains(k) implies t.raw_map@[k] == target[k] by {
            assert(order.to_set().contains(k));
        }
        assert(t.raw_map@ =~= target);
    }
    let mut j: usize = 0;
    while j < keys.len()
        invariant
            j <= keys@.len(),
            order == keys@,
            t.cache == old(t).cache,
            visitor.known() == old(visitor).known(),
            visitor.visits@ == visits + raw_visits(before, order, order.len() as int),
            t.raw_map@ == rekeyed_raws(old(visitor).known(), target, order, j as int),
        decreases keys@.len() - j,
    {
        let cooked: u64 = keys[j];
        let new_cooked: u64 = visitor.moved(cooked);
        if new_cooked != cooked {
            let ghost was = t.raw_map@;
            let removed: Option<u64> = t.raw_map.remove(&cooked);
            match removed {
                Some(raw) => {
                    t.raw_map.insert(new_cooked, raw);
                },
                None => {
                    assert(was.remove(cooked) =~= was);
                },
            }
        }
        j = j + 1;
    }
    assert(raws_scanned(
        old(visitor).known(),
        before,
        t.raw_map@,
        raw_visits(before, order, order.len() as int),
        order,
    ));
}

/// Show the collector the arrays behind tagged templates and the named
/// properties of all arrays, and follow what has moved.
pub fn scan_template_raw_roots_mut(
    t: &mut TemplateTables,
    props: &mut ArrayNamedProps,
    visitor: &mut RuntimeRootVisitor,
)
    ensures
        final(visitor).known() == old(visitor).known(),
        exists|o1: Seq<u64>, v1: Seq<Visit>, o2: Seq<u64>, v2: Seq<Visit>, o3: Seq<u64>, v3: Seq<Visit>|
            #![trigger cache_scanned(old(visitor).known(), old(t).cache@, final(t).cache@, v1, o1), raws_scanned(old(visitor).known(), old(t).raw_map@, final(t).raw_map@, v2, o2), props_scanned(old(visitor).known(), old(props)@, final(props)@, v3, o3)]
            {
                &&& cache_scanned(old(visitor).known(), old(t).cache@, final(t).cache@, v1, o1)
                &&& raws_scanned(old(visitor).known(), old(t).raw_map@, final(t).raw_map@, v2, o2)
                &&& props_scanned(old(visitor).known(), old(props)@, final(props)@, v3, o3)
                &&& final(visitor).visits@ == old(visitor).visits@ + v1 + v2 + v3
            },
{
    scan_cache(t, visitor);
    scan_raws(t, visitor);
    scan_array_named_property_roots_mut(props, visitor);
}

// ---------------------------------------------------------------------------
// Laws
// ---------------------------------------------------------------------------

proof fn lemma_place_unique(ps: Seq<Prop>, name: Seq<char>, k: int)
    requires
        0 <= k < ps.len(),
        ps[k].0 == name,
        forall|j: int| 0 <= j < k ==> (#[trigger] ps[j]).0 != name,
    ensures
        place_of(ps, name, 0) == k,
{
    lemma_place_of(ps, name, 0);
    let p = place_of(ps, name, 0);
    if p < k {
        assert(ps[p].0 != name);
    }
    if p > k {
        assert(ps[k].0 != name);
    }
}

proof fn lemma_place_absent(ps: Seq<Prop>, name: Seq<char>)
    requires
        forall|j: int| 0 <= j < ps.len() ==> (#[trigger] ps[j]).0 != name,
    ensures
        place_of(ps, name, 0) == ps.len(),
{
    lemma_place_of(ps, name, 0);
}

/// A property that was set reads back the value it was set to; every other
/// property of the array reads as before.
pub proof fn law_set_then_get(ps: Seq<Prop>, name: Seq<char>, value: u64, other: Seq<char>)
    ensures
        ({
            let after = with_prop(ps, name, value);
            let i = place_of(after, name, 0);
            &&& i < after.len()
            &&& after[i].1 == value
            &&& other != name ==> {
                let j = place_of(ps, other, 0);
                let k = place_of(after, other, 0);
                &&& (j < ps.len()) == (k < after.len())
                &&& j < ps.len() ==> after[k].1 == ps[j].1
            }
        }),
{
    let after = with_prop(ps, name, value);
    lemma_place_of(ps, name, 0);
    lemma_place_of(ps, other, 0);
    let p = place_of(ps, name, 0);
    assert forall|j: int| 0 <= j < p implies (#[trigger] after[j]).0 != name by {
        assert(after[j] == ps[j]);
    }
    lemma_place_unique(after, name, p);
    if other != name {
        let j = place_of(ps, other, 0);
        if j < ps.len() {
            assert(after[j] == ps[j]);
            assert forall|k: int| 0 <= k < j implies (#[trigger] after[k]).0 != other by {
                assert(ps[k].0 != other);
            }
            lemma_place_unique(after, other, j);
        } else {
            assert forall|k: int| 0 <= k < after.len() implies (#[trigger] after[k]).0 != other by {
                if k < ps.len() {
                    assert(ps[k].0 != other);
                }
            }
            lemma_place_absent(after, other);
        }
    }
}

/// Setting a property never makes a second one of the same name.
pub proof fn law_set_keeps_names_unique(ps: Seq<Prop>, name: Seq<char>, value: u64)
    requires
        unique_names(ps),
    ensures
        unique_names(with_prop(ps, name, value)),
{
    let after = with_prop(ps, name, value);
    lemma_place_of(ps, name, 0);
    assert forall|i: int, j: int| 0 <= i < j < after.len() implies (#[trigger] after[i]).0 != (
    #[trigger] after[j]).0 by {
        if j < ps.len() {
            assert(ps[i].0 != ps[j].0);
        }
    }
}

/// A property that was deleted is gone, and the others stay as they were.
pub proof fn law_delete_then_get(ps: Seq<Prop>, name: Seq<char>, other: Seq<char>)
    requires
        unique_names(ps),
        place_of(ps, name, 0) < ps.len(),
    ensures
        ({
            let after = ps.remove(place_of(ps, name, 0));
            &&& unique_names(after)
            &&& place_of(after, name, 0) == after.len()
            &&& other != name ==> {
                let j = place_of(ps, other, 0);
                let k = place_of(after, other, 0);
                &&& (j < ps.len()) == (k < after.len())
                &&& j < ps.len() ==> after[k].1 == ps[j].1
            }
        }),
{
    let p = place_of(ps, name, 0);
    let after = ps.remove(p);
    lemma_place_of(ps, name, 0);
    lemma_place_of(ps, other, 0);
    assert forall|i: int| 0 <= i < after.len() implies #[trigger] after[i] == ps[if i < p {
        i
    } else {
        i + 1
    }] by {}
    assert forall|i: int, j: int| 0 <= i < j < after.len() implies (#[trigger] after[i]).0 != (
    #[trigger] after[j]).0 by {
        let a = if i < p {
            i
        } else {
            i + 1
        };
        let b = if j < p {
            j
        } else {
            j + 1
        };
        assert(ps[a].0 != ps[b].0);
    }
    assert forall|i: int| 0 <= i < after.len() implies (#[trigger] after[i]).0 != name by {
        if i < p {
            assert(ps[i].0 != ps[p].0);
        } else {
            assert(ps[p].0 != ps[i + 1].0);
        }
    }
    lemma_place_absent(after, name);
    if other != name {
        let j = place_of(ps, other, 0);
        if j < ps.len() {
            let k = if j < p {
                j
            } else {
                j - 1
            };
            assert(after[k] == ps[j]);
            assert forall|i: int| 0 <= i < k implies (#[trigger] after[i]).0 != other by {
                if i < p {
                    assert(ps[i].0 != other);
                } else {
                    assert(ps[i + 1].0 != other);
                }
            }
            lemma_place_unique(after, other, k);
        } else {
            assert forall|i: int| 0 <= i < after.len() implies (#[trigger] after[i]).0 != other by {
                if i < p {
                    assert(ps[i].0 != other);
                } else {
                    assert(ps[i + 1].0 != other);
                }
            }
            lemma_place_absent(after, other);
        }
    }
}

/// No two members of the set move to one place, and none moves to where
/// another member is.
pub open spec fn moves_apart(mv: Moves, keys: Set<u64>) -> bool {
    &&& forall|a: u64, b: u64|
        keys.contains(a) && keys.contains(b) && a != b ==> #[trigger] mv.new_addr(a)
            != #[trigger] mv.new_addr(b)
    &&& forall|a: u64|
        keys.contains(a) && #[trigger] mv.new_addr(a) != a ==> !keys.contains(mv.new_addr(a))
}

/// Where an entry is found after the first `n` moves of a walk.
spec fn found_at(mv: Moves, order: Seq<u64>, n: int, k: u64) -> u64 {
    if order.take(n).contains(k) {
        mv.new_addr(k)
    } else {
        k
    }
}

proof fn lemma_rekeyed_raws(mv: Moves, m: Map<u64, u64>, order: Seq<u64>, n: int)
    requires
        is_walk_of(order, m.dom()),
        moves_apart(mv, m.dom()),
        0 <= n <= order.len(),
    ensures
        ({
            let r = rekeyed_raws(mv, m, order, n);
            &&& forall|k: u64|
                m.dom().contains(k) ==> r.dom().contains(#[trigger] found_at(mv, order, n, k))
                    && r[found_at(mv, order, n, k)] == m[k]
            &&& forall|x: u64| #[trigger]
                r.dom().contains(x) ==> exists|k: u64|
                    m.dom().contains(k) && x == #[trigger] found_at(mv, order, n, k)
        }),
    decreases n,
{
    let r = rekeyed_raws(mv, m, order, n);
    if n == 0 {
        assert(order.take(0) =~= Seq::empty());
        assert forall|x: u64| #[trigger] r.dom().contains(x) implies exists|k: u64|
            m.dom().contains(k) && x == #[trigger] found_at(mv, order, n, k) by {
            assert(x == found_at(mv, order, n, x));
        }
    } else {
        lemma_rekeyed_raws(mv, m, order, n - 1);
        lemma_prefix_members(order, n - 1);
        lemma_not_before(order, n - 1);
        let prev = rekeyed_raws(mv, m, order, n - 1);
        let c = order[n - 1];
        assert(order.take(n - 1 + 1) =~= order.take(n));
        assert(order.contains(c));
        assert(order.to_set().contains(c));
        assert(found_at(mv, order, n - 1, c) == c);
        assert forall|k: u64| m.dom().contains(k) implies r.dom().contains(
            #[trigger] found_at(mv, order, n, k),
        ) && r[found_at(mv, order, n, k)] == m[k] by {
            let was = found_at(mv, order, n - 1, k);
            assert(prev.dom().contains(was) && prev[was] == m[k]);
            if k != c {
                assert(found_at(mv, order, n, k) == was);
                assert(was != c) by {
                    if was == c {
                        assert(was == mv.new_addr(k));
                    }
                }
                assert(mv.new_addr(c) == c || was != mv.new_addr(c)) by {
                    if was == k {
                        assert(mv.new_addr(c) != c ==> !m.dom().contains(mv.new_addr(c)));
                    }
                }
            }
        }
        assert forall|x: u64| #[trigger] r.dom().contains(x) implies exists|k: u64|
            m.dom().contains(k) && x == #[trigger] found_at(mv, order, n, k) by {
            if x == mv.new_addr(c) {
                assert(x == found_at(mv, order, n, c));
            } else {
                assert(prev.dom().contains(x));
                let k = choose|k: u64|
                    m.dom().contains(k) && x == #[trigger] found_at(mv, order, n - 1, k);
                assert(x == found_at(mv, order, n, k));
            }
        }
    }
}

/// A template's raw array is still found after its arrays have moved, under
/// the cooked array's new address, and no stale address is left, in whatever
/// order the map is walked.
pub proof fn law_moved_templates_keep_their_raw_array(
    mv: Moves,
    before: Map<u64, u64>,
    after: Map<u64, u64>,
    visits: Seq<Visit>,
    order: Seq<u64>,
)
    requires
        raws_scanned(mv, before, after, visits, order),
        moves_apart(mv, before.dom()),
    ensures
        forall|cooked: u64|
            before.dom().contains(cooked) ==> {
                &&& after.dom().contains(#[trigger] mv.new_addr(cooked))
                &&& after[mv.new_addr(cooked)] == mv.new_addr(before[cooked])
            },
        forall|x: u64| #[trigger]
            after.dom().contains(x) ==> exists|cooked: u64|
                before.dom().contains(cooked) && x == #[trigger] mv.new_addr(cooked),
{
    let m = updated_raws(mv, before);
    let n = order.len() as int;
    assert(m.dom() =~= before.dom());
    lemma_rekeyed_raws(mv, m, order, n);
    assert(order.take(n) =~= order);
    assert forall|cooked: u64| before.dom().contains(cooked) implies found_at(
        mv,
        order,
        n,
        cooked,
    ) == #[trigger] mv.new_addr(cooked) by {
        assert(order.to_set().contains(cooked));
    }
    assert forall|x: u64| #[trigger] after.dom().contains(x) implies exists|cooked: u64|
        before.dom().contains(cooked) && x == #[trigger] mv.new_addr(cooked) by {
        let k = choose|k: u64| m.dom().contains(k) && x == #[trigger] found_at(mv, order, n, k);
        assert(x == mv.new_addr(k));
    }
}

proof fn lemma_rebuild_props(ps: Seq<Prop>, n: int)
    requires
        unique_names(ps),
        0 <= n <= ps.len(),
    ensures
        with_props(Seq::empty(), ps, n) == ps.take(n),
    decreases n,
{
    if n == 0 {
        assert(ps.take(0) =~= Seq::empty());
    } else {
        lemma_rebuild_props(ps, n - 1);
        let prev = ps.take(n - 1);
        assert forall|j: int| 0 <= j < prev.len() implies (#[trigger] prev[j]).0 != ps[n - 1].0 by {
            assert(ps[j].0 != ps[n - 1].0);
        }
        lemma_place_absent(prev, ps[n - 1].0);
        assert(prev.push((ps[n - 1].0, ps[n - 1].1)) =~= ps.take(n));
    }
}

proof fn lemma_rekeyed_table(mv: Moves, t: PropTable, order: Seq<u64>, n: int)
    requires
        is_walk_of(order, t.props.dom()),
        moves_apart(mv, t.props.dom()),
        t.names_unique(),
        0 <= n <= order.len(),
    ensures
        ({
            let r = rekeyed_table(mv, t, order, n).props;
            &&& forall|k: u64|
                t.props.dom().contains(k) ==> r.dom().contains(
                    #[trigger] found_at(mv, order, n, k),
                ) && r[found_at(mv, order, n, k)] == t.props[k]
            &&& forall|x: u64| #[trigger]
                r.dom().contains(x) ==> exists|k: u64|
                    t.props.dom().contains(k) && x == #[trigger] found_at(mv, order, n, k)
        }),
    decreases n,
{
    let m = t.props;
    let r = rekeyed_table(mv, t, order, n).props;
    if n == 0 {
        assert(order.take(0) =~= Seq::empty());
        assert forall|x: u64| #[trigger] r.dom().contains(x) implies exists|k: u64|
            m.dom().contains(k) && x == #[trigger] found_at(mv, order, n, k) by {
            assert(x == found_at(mv, order, n, x));
        }
    } else {
        lemma_rekeyed_table(mv, t, order, n - 1);
        lemma_prefix_members(order, n - 1);
        lemma_not_before(order, n - 1);
        let prev = rekeyed_table(mv, t, order, n - 1).props;
        let c = order[n - 1];
        assert(order.take(n - 1 + 1) =~= order.take(n));
        assert(order.contains(c));
        assert(order.to_set().contains(c));
        assert(found_at(mv, order, n - 1, c) == c);
        let d = mv.new_addr(c);
        if d != c {
            // nothing is found at the new address yet
            if prev.dom().contains(d) {
                let k = choose|k: u64|
                    m.dom().contains(k) && d == #[trigger] found_at(mv, order, n - 1, k);
                assert(k != c);
                assert(d == k || d == mv.new_addr(k));
                assert(false);
            }
            let ps = prev[c];
            assert(ps == t.props[c]);
            lemma_rebuild_props(ps, ps.len() as int);
            assert(ps.take(ps.len() as int) =~= ps);
            assert(r =~= prev.remove(c).insert(d, ps));
        }
        assert forall|k: u64| m.dom().contains(k) implies r.dom().contains(
            #[trigger] found_at(mv, order, n, k),
        ) && r[found_at(mv, order, n, k)] == m[k] by {
            let was = found_at(mv, order, n - 1, k);
            assert(prev.dom().contains(was) && prev[was] == m[k]);
            if k != c {
                assert(found_at(mv, order, n, k) == was);
                assert(was != c) by {
                    if was == c {
                        assert(was == mv.new_addr(k));
                    }
                }
                assert(d == c || was != d) by {
                    if was == k {
                        assert(d != c ==> !m.dom().contains(d));
                    }
                }
            }
        }
        assert forall|x: u64| #[trigger] r.dom().contains(x) implies exists|k: u64|
            m.dom().contains(k) && x == #[trigger] found_at(mv, order, n, k) by {
            if x == d {
                assert(x == found_at(mv, order, n, c));
            } else {
                assert(prev.dom().contains(x));
                let k = choose|k: u64|
                    m.dom().contains(k) && x == #[trigger] found_at(mv, order, n - 1, k);
                assert(x == found_at(mv, order, n, k));
            }
        }
    }
}

/// An array that has moved keeps its named properties, with their values
/// brought up to date, under its new address, and no stale address is left,
/// in whatever order the table is walked.
pub proof fn law_moved_arrays_keep_their_properties(
    mv: Moves,
    before: PropTable,
    after: PropTable,
    visits: Seq<Visit>,
    order: Seq<u64>,
)
    requires
        props_scanned(mv, before, after, visits, order),
        moves_apart(mv, before.props.dom()),
        before.names_unique(),
    ensures
        forall|owner: u64|
            before.props.dom().contains(owner) ==> {
                &&& after.props.dom().contains(#[trigger] mv.new_addr(owner))
                &&& after.props[mv.new_addr(owner)] == updated_props(mv, before.props[owner])
            },
        forall|x: u64| #[trigger]
            after.props.dom().contains(x) ==> exists|owner: u64|
                before.props.dom().contains(owner) && x == #[trigger] mv.new_addr(owner),
{
    let t = updated_table(mv, before);
    let n = order.len() as int;
    assert(t.props.dom() =~= before.props.dom());
    assert forall|owner: u64| t.props.dom().contains(owner) implies unique_names(
        #[trigger] t.props[owner],
    ) by {
        let ps = before.props[owner];
        assert(unique_names(ps));
        assert forall|i: int, j: int| 0 <= i < j < ps.len() implies (
        #[trigger] t.props[owner][i]).0 != (#[trigger] t.props[owner][j]).0 by {
            assert(ps[i].0 != ps[j].0);
        }
    }
    lemma_rekeyed_table(mv, t, order, n);
    assert(order.take(n) =~= order);
    assert forall|owner: u64| before.props.dom().contains(owner) implies found_at(
        mv,
        order,
        n,
        owner,
    ) == #[trigger] mv.new_addr(owner) by {
        assert(order.to_set().contains(owner));
    }
    assert forall|x: u64| #[trigger] after.props.dom().contains(x) implies exists|owner: u64|
        before.props.dom().contains(owner) && x == #[trigger] mv.new_addr(owner) by {
        let k = choose|k: u64|
            t.props.dom().contains(k) && x == #[trigger] found_at(mv, order, n, k);
        assert(x == mv.new_addr(k));
    }
}

/// Every template array is shown to the collector, so none of them dies.
pub proof fn law_template_arrays_stay_alive(m: Map<u64, u64>, order: Seq<u64>, n: int, i: int)
    requires
        0 <= i < n <= order.len(),
    ensures
        raw_visits(m, order, n).contains(Visit::Pointer(order[i])),
        raw_visits(m, order, n).contains(Visit::Pointer(m[order[i]])),
    decreases n,
{
    let prev = raw_visits(m, order, n - 1);
    let now = raw_visits(m, order, n);
    if i == n - 1 {
        assert(now[prev.len() as int] == Visit::Pointer(order[i]));
        assert(now[prev.len() as int + 1] == Visit::Pointer(m[order[i]]));
    } else {
        law_template_arrays_stay_alive(m, order, n - 1, i);
        let a = choose|a: int| 0 <= a < prev.len() && prev[a] == Visit::Pointer(order[i]);
        let b = choose|b: int| 0 <= b < prev.len() && prev[b] == Visit::Pointer(m[order[i]]);
        assert(now[a] == prev[a]);
        assert(now[b] == prev[b]);
    }
}

/// The place of a name is where it first occurs; a name that does not occur
/// has none.
pub proof fn law_names_are_found_where_they_are(ps: Seq<Prop>, name: Seq<char>, i: int)
    requires
        unique_names(ps),
    ensures
        0 <= i < ps.len() && ps[i].0 == name <==> 0 <= i < ps.len() && place_of(ps, name, 0) == i,
        place_of(ps, name, 0) <= ps.len(),
        0 <= place_of(ps, name, 0),
{
    lemma_place_of(ps, name, 0);
}

/// Setting a property puts the value where the name already is, or behind all
/// others; everything else stays where it was.
pub proof fn law_set_keeps_the_order(ps: Seq<Prop>, name: Seq<char>, value: u64, i: int)
    requires
        unique_names(ps),
        0 <= i < ps.len(),
    ensures
        ({
            let after = with_prop(ps, name, value);
            &&& after[i].0 == ps[i].0
            &&& ps[i].0 == name ==> after[i].1 == value && after.len() == ps.len()
            &&& ps[i].0 != name ==> after[i].1 == ps[i].1
            &&& after.len() == ps.len() || after.len() == ps.len() + 1 && after.last() == (
                name,
                value,
            )
        }),
{
    lemma_place_of(ps, name, 0);
}

/// A new name comes last.
pub proof fn law_new_names_come_last(ps: Seq<Prop>, name: Seq<char>, value: u64)
    requires
        forall|j: int| 0 <= j < ps.len() ==> (#[trigger] ps[j]).0 != name,
    ensures
        with_prop(ps, name, value) == ps.push((name, value)),
{
    lemma_place_of(ps, name, 0);
}

/// A table gives the value that is held under the name, and nothing where none
/// is.
pub proof fn law_values_are_those_held(t: PropTable, owner: u64, name: Seq<char>, value: u64)
    requires
        t.names_unique(),
    ensures
        t.value(owner, name) == Some(value) <==> t.props.dom().contains(owner)
            && t.props[owner].contains((name, value)),
{
    let ps = t.of(owner);
    lemma_place_of(ps, name, 0);
    if t.props.dom().contains(owner) {
        assert(unique_names(t.props[owner]));
        if ps.contains((name, value)) {
            let k = choose|k: int| 0 <= k < ps.len() && ps[k] == (name, value);
            let i = place_of(ps, name, 0);
            assert(ps[k].0 == name && ps[i].0 == name);
        }
    }
}

/// Replacing an array's properties leaves those of all others, and runs one
/// barrier for each, in their order, with the array and the value.
pub proof fn law_replacing_touches_one_array(
    t: PropTable,
    owner: u64,
    ps: Seq<Prop>,
    other: u64,
    i: int,
)
    requires
        0 <= i < ps.len() <= usize::MAX,
        other != owner,
    ensures
        ({
            let after = t.replaced(owner, ps);
            let n = t.barriers.len() as int;
            &&& after.of(owner) == ps
            &&& after.of(other) == t.of(other)
            &&& after.props.dom().contains(other) == t.props.dom().contains(other)
            &&& after.barriers.len() == n + ps.len()
            &&& after.barriers.take(n) == t.barriers
            &&& after.barriers[n + i].owner == owner
            &&& after.barriers[n + i].index == i
            &&& after.barriers[n + i].bits == ps[i].1
        }),
{
    let after = t.replaced(owner, ps);
    assert(after.barriers.take(t.barriers.len() as int) =~= t.barriers);
}

/// Setting several properties gives each name its last value, and keeps the
/// values of names that are not among them.
pub proof fn law_later_values_win(ps: Seq<Prop>, new: Seq<Prop>, n: int, k: int, other: Seq<char>)
    requires
        unique_names(ps),
        unique_names(new),
        0 <= k < n <= new.len(),
        forall|j: int| 0 <= j < n ==> (#[trigger] new[j]).0 != other,
    ensures
        ({
            let after = with_props(ps, new, n);
            let i = place_of(after, new[k].0, 0);
            let a = place_of(ps, other, 0);
            let b = place_of(after, other, 0);
            &&& unique_names(after)
            &&& i < after.len() && after[i] == new[k]
            &&& (a < ps.len()) == (b < after.len())
            &&& a < ps.len() ==> after[b] == ps[a]
        }),
    decreases n,
{
    let prev = with_props(ps, new, n - 1);
    lemma_with_props_unique(ps, new, n - 1);
    law_set_keeps_names_unique(prev, new[n - 1].0, new[n - 1].1);
    law_set_then_get(prev, new[n - 1].0, new[n - 1].1, new[k].0);
    law_set_then_get(prev, new[n - 1].0, new[n - 1].1, other);
    lemma_place_of(prev, other, 0);
    lemma_place_of(ps, other, 0);
    lemma_place_of(prev, new[k].0, 0);
    lemma_place_of(with_props(ps, new, n), other, 0);
    lemma_place_of(with_props(ps, new, n), new[k].0, 0);
    if n > 1 {
        let m = if k < n - 1 {
            k
        } else {
            0
        };
        law_later_values_win(ps, new, n - 1, m, other);
    }
    if k < n - 1 {
        assert(new[k].0 != new[n - 1].0);
    }
}

proof fn lemma_with_props_unique(ps: Seq<Prop>, new: Seq<Prop>, n: int)
    requires
        unique_names(ps),
        0 <= n <= new.len(),
    ensures
        unique_names(with_props(ps, new, n)),
    decreases n,
{
    if n > 0 {
        lemma_with_props_unique(ps, new, n - 1);
        law_set_keeps_names_unique(with_props(ps, new, n - 1), new[n - 1].0, new[n - 1].1);
    }
}

/// The names that are listed are those that are not hidden.
pub proof fn law_hidden_names_are_left_out(
    ps: Seq<Prop>,
    hidden: Seq<Seq<char>>,
    n: int,
    name: Seq<char>,
)
    requires
        0 <= n <= ps.len(),
    ensures
        names_upto(ps, hidden, n).contains(name) <==> !hidden.contains(name) && exists|i: int|
            0 <= i < n && (#[trigger] ps[i]).0 == name,
    decreases n,
{
    let now = names_upto(ps, hidden, n);
    if n > 0 {
        law_hidden_names_are_left_out(ps, hidden, n - 1, name);
        let prev = names_upto(ps, hidden, n - 1);
        if prev.contains(name) {
            let k = choose|k: int| 0 <= k < prev.len() && prev[k] == name;
            assert(now[k] == name);
            let i = choose|i: int| 0 <= i < n - 1 && (#[trigger] ps[i]).0 == name;
            assert(ps[i].0 == name);
        }
        if ps[n - 1].0 == name && !hidden.contains(name) {
            assert(now.last() == name);
        }
        if now.contains(name) && !prev.contains(name) {
            let k = choose|k: int| 0 <= k < now.len() && now[k] == name;
            assert(k >= prev.len() || prev[k] == name);
            assert(ps[n - 1].0 == name);
        }
    }
}

/// Where nothing is hidden, the names are all listed, in the order in which
/// they were set. Hidden ones only leave gaps: a list goes on as if they had
/// never been there.
pub proof fn law_names_keep_their_order(
    ps: Seq<Prop>,
    hidden: Seq<Seq<char>>,
    n: int,
    shown: Seq<Prop>,
)
    requires
        0 <= n <= ps.len(),
        shown == ps.take(n).filter(|p: Prop| !hidden.contains(p.0)),
    ensures
        names_upto(ps, hidden, n) == Seq::new(shown.len(), |i: int| shown[i].0),
        hidden.len() == 0 ==> names_upto(ps, hidden, n) == Seq::new(n as nat, |i: int| ps[i].0),
    decreases n,
{
    let open = |p: Prop| !hidden.contains(p.0);
    reveal(Seq::filter);
    if n > 0 {
        let s = ps.take(n);
        assert(s.drop_last() =~= ps.take(n - 1));
        assert(s.last() == ps[n - 1]);
        law_names_keep_their_order(ps, hidden, n - 1, ps.take(n - 1).filter(open));
        assert(names_upto(ps, hidden, n) =~= Seq::new(shown.len(), |i: int| shown[i].0));
    } else {
        assert(ps.take(0).filter(open) =~= Seq::<Prop>::empty());
    }
    assert(names_upto(ps, hidden, n) =~= Seq::new(shown.len(), |i: int| shown[i].0));
    if hidden.len() == 0 {
        assert(names_upto(ps, hidden, n) =~= Seq::new(n as nat, |i: int| ps[i].0));
    }
}

/// Objects that moved are found at their new place; all others stay.
pub proof fn law_moves_are_followed(mv: Moves, ps: Seq<Prop>, i: int)
    requires
        0 <= i < ps.len(),
    ensures
        ({
            let after = updated_props(mv, ps);
            &&& after.len() == ps.len()
            &&& after[i].0 == ps[i].0
            &&& mv.words.dom().contains(ps[i].1) ==> after[i].1 == mv.words[ps[i].1]
            &&& !mv.words.dom().contains(ps[i].1) ==> after[i].1 == ps[i].1
        }),
{
}

/// Every property's value is shown to the collector, so none of them dies,
/// and its array is only followed.
pub proof fn law_property_values_stay_alive(
    t: PropTable,
    order: Seq<u64>,
    n: int,
    k: int,
    i: int,
)
    requires
        0 <= k < n <= order.len(),
        0 <= i < t.props[order[k]].len(),
    ensures
        table_visits(t, order, n).contains(Visit::Word(t.props[order[k]][i].1)),
        table_visits(t, order, n).contains(Visit::Metadata(order[k])),
        !table_visits(t, order, n).contains(Visit::Pointer(order[k])),
    decreases n,
{
    let prev = table_visits(t, order, n - 1);
    let now = table_visits(t, order, n);
    let ps = t.props[order[n - 1]];
    let one = owner_visits(order[n - 1], ps);
    lemma_no_pointers(t, order, n, order[k]);
    if k == n - 1 {
        assert(one[0] == Visit::Metadata(order[k]));
        assert(one[i + 1] == Visit::Word(ps[i].1));
        assert(now[prev.len() as int] == one[0]);
        assert(now[prev.len() + i + 1] == one[i + 1]);
    } else {
        law_property_values_stay_alive(t, order, n - 1, k, i);
        let a = choose|a: int|
            0 <= a < prev.len() && prev[a] == Visit::Word(t.props[order[k]][i].1);
        let b = choose|b: int| 0 <= b < prev.len() && prev[b] == Visit::Metadata(order[k]);
        assert(now[a] == prev[a]);
        assert(now[b] == prev[b]);
    }
}

proof fn lemma_no_pointers(t: PropTable, order: Seq<u64>, n: int, x: u64)
    requires
        0 <= n <= order.len(),
    ensures
        !table_visits(t, order, n).contains(Visit::Pointer(x)),
    decreases n,
{
    if n > 0 {
        lemma_no_pointers(t, order, n - 1, x);
        let prev = table_visits(t, order, n - 1);
        let now = table_visits(t, order, n);
        if now.contains(Visit::Pointer(x)) {
            let a = choose|a: int| 0 <= a < now.len() && now[a] == Visit::Pointer(x);
            assert(a < prev.len() ==> prev[a] == now[a]);
        }
    }
}

/// Both arrays of every call site are shown to the collector, and are found
/// where they moved to.
pub proof fn law_cached_templates_stay_alive(
    mv: Moves,
    cache: Map<u64, (u64, u64)>,
    order: Seq<u64>,
    n: int,
    i: int,
)
    requires
        0 <= i < n <= order.len(),
        cache.dom().contains(order[i]),
    ensures
        cache_visits(cache, order, n).contains(Visit::Pointer(cache[order[i]].0)),
        cache_visits(cache, order, n).contains(Visit::Pointer(cache[order[i]].1)),
        updated_cache(mv, cache).dom() == cache.dom(),
        updated_cache(mv, cache)[order[i]].0 == mv.new_addr(cache[order[i]].0),
        updated_cache(mv, cache)[order[i]].1 == mv.new_addr(cache[order[i]].1),
    decreases n,
{
    let prev = cache_visits(cache, order, n - 1);
    let now = cache_visits(cache, order, n);
    assert(updated_cache(mv, cache).dom() =~= cache.dom());
    if i == n - 1 {
        assert(now[prev.len() as int] == Visit::Pointer(cache[order[i]].0));
        assert(now[prev.len() as int + 1] == Visit::Pointer(cache[order[i]].1));
    } else {
        law_cached_templates_stay_alive(mv, cache, order, n - 1, i);
        let a = choose|a: int|
            0 <= a < prev.len() && prev[a] == Visit::Pointer(cache[order[i]].0);
        let b = choose|b: int|
            0 <= b < prev.len() && prev[b] == Visit::Pointer(cache[order[i]].1);
        assert(now[a] == prev[a]);
        assert(now[b] == prev[b]);
    }
}

/// A scan of the call sites shows both arrays of each to the collector, and
/// leaves each site with its arrays where they now are.
pub proof fn law_cache_scans_miss_no_site(
    mv: Moves,
    before: Map<u64, (u64, u64)>,
    after: Map<u64, (u64, u64)>,
    visits: Seq<Visit>,
    order: Seq<u64>,
    site: u64,
)
    requires
        cache_scanned(mv, before, after, visits, order),
        before.dom().contains(site),
    ensures
        visits.contains(Visit::Pointer(before[site].0)),
        visits.contains(Visit::Pointer(before[site].1)),
        after.dom() == before.dom(),
        after[site] == (mv.new_addr(before[site].0), mv.new_addr(before[site].1)),
{
    assert(order.to_set().contains(site));
    let i = choose|i: int| 0 <= i < order.len() && order[i] == site;
    law_cached_templates_stay_alive(mv, before, order, order.len() as int, i);
}

/// A scan of the template arrays shows every pair of them to the collector.
pub proof fn law_template_scans_miss_no_pair(
    mv: Moves,
    before: Map<u64, u64>,
    after: Map<u64, u64>,
    visits: Seq<Visit>,
    order: Seq<u64>,
    cooked: u64,
)
    requires
        raws_scanned(mv, before, after, visits, order),
        before.dom().contains(cooked),
    ensures
        visits.contains(Visit::Pointer(cooked)),
        visits.contains(Visit::Pointer(before[cooked])),
{
    assert(order.to_set().contains(cooked));
    let i = choose|i: int| 0 <= i < order.len() && order[i] == cooked;
    law_template_arrays_stay_alive(before, order, order.len() as int, i);
}

/// A scan of the named properties shows every value to the collector, and only
/// follows the arrays that they belong to.
pub proof fn law_property_scans_miss_no_value(
    mv: Moves,
    before: PropTable,
    after: PropTable,
    visits: Seq<Visit>,
    order: Seq<u64>,
    owner: u64,
    i: int,
)
    requires
        props_scanned(mv, before, after, visits, order),
        before.props.dom().contains(owner),
        0 <= i < before.props[owner].len(),
    ensures
        visits.contains(Visit::Word(before.props[owner][i].1)),
        visits.contains(Visit::Metadata(owner)),
        !visits.contains(Visit::Pointer(owner)),
{
    assert(order.to_set().contains(owner));
    let k = choose|k: int| 0 <= k < order.len() && order[k] == owner;
    law_property_values_stay_alive(before, order, order.len() as int, k, i);
}

} // verus!
