//! The handle-based heap.
//!
//! All heap data lives in four arenas — property maps, arrays, function
//! records and call objects — and a handle is an index into one of them.
//! Handles stay stable for the life of the machine: collection clears
//! unreachable slots but never moves a record. Well-formedness
//! ([`heap_ok`]) says that every handle held by any record is in range and
//! that a call object's parent was allocated before it, so walks along the
//! scope chain end.

use vstd::prelude::*;

use crate::callobj::CallObject;
use crate::function::FunctionObjectInfo;
use crate::value::{prop_read, Property, Value};

verus! {

/// A property map: string keys to property descriptors, looked up by the
/// first matching key.
#[derive(Debug)]
pub struct PropMap {
    pub entries: Vec<(String, Property)>,
}

/// The first property bound to `key` in `entries`, if any.
pub open spec fn pm_lookup(entries: Seq<(String, Property)>, key: Seq<char>) -> Option<Property>
    decreases entries.len(),
{
    if entries.len() == 0 {
        None
    } else if entries[0].0@ == key {
        Some(entries[0].1)
    } else {
        pm_lookup(entries.skip(1), key)
    }
}

/// The value a plain read of `key` yields: the bound data value, or
/// `Undefined` when the key is absent or bound to an accessor.
pub open spec fn pm_read(entries: Seq<(String, Property)>, key: Seq<char>) -> Value {
    match pm_lookup(entries, key) {
        Some(p) => prop_read(p),
        None => Value::Undefined,
    }
}

proof fn lemma_pm_lookup_skip(entries: Seq<(String, Property)>, i: int, key: Seq<char>)
    requires
        0 <= i <= entries.len(),
        forall|j: int| 0 <= j < i ==> (#[trigger] entries[j]).0@ != key,
    ensures
        pm_lookup(entries, key) == pm_lookup(entries.skip(i), key),
    decreases i,
{
    if i == 0 {
        assert(entries.skip(0) =~= entries);
    } else {
        assert(entries[0].0@ != key);
        assert(forall|j: int|
            0 <= j < i - 1 ==> (#[trigger] entries.skip(1)[j]).0@ != key) by {
            assert(forall|j: int| 0 <= j < i - 1 ==> entries.skip(1)[j] == entries[j + 1]);
        }
        lemma_pm_lookup_skip(entries.skip(1), i - 1, key);
        assert(entries.skip(1).skip(i - 1) =~= entries.skip(i));
    }
}

proof fn lemma_pm_lookup_update(
    entries: Seq<(String, Property)>,
    i: int,
    e: (String, Property),
    k2: Seq<char>,
)
    requires
        0 <= i < entries.len(),
        entries[i].0@ == e.0@,
        forall|j: int| 0 <= j < i ==> (#[trigger] entries[j]).0@ != e.0@,
    ensures
        pm_lookup(entries.update(i, e), k2) == if k2 == e.0@ {
            Some(e.1)
        } else {
            pm_lookup(entries, k2)
        },
    decreases i,
{
    let u = entries.update(i, e);
    if i == 0 {
        assert(u[0] == e);
        if k2 == e.0@ {
        } else {
            assert(u.skip(1) =~= entries.skip(1));
            assert(entries[0].0@ == e.0@);
        }
    } else {
        assert(u[0] == entries[0]);
        assert(entries[0].0@ != e.0@);
        if k2 == entries[0].0@ {
        } else {
            assert(u.skip(1) =~= entries.skip(1).update(i - 1, e));
            assert(entries.skip(1)[i - 1] == entries[i]);
            assert(forall|j: int|
                0 <= j < i - 1 ==> (#[trigger] entries.skip(1)[j]).0@ != e.0@) by {
                assert(forall|j: int| 0 <= j < i - 1 ==> entries.skip(1)[j] == entries[j + 1]);
            }
            lemma_pm_lookup_update(entries.skip(1), i - 1, e, k2);
        }
    }
}

proof fn lemma_pm_lookup_push(entries: Seq<(String, Property)>, e: (String, Property), k2: Seq<char>)
    requires
        forall|j: int| 0 <= j < entries.len() ==> (#[trigger] entries[j]).0@ != e.0@,
    ensures
        pm_lookup(entries.push(e), k2) == if k2 == e.0@ {
            Some(e.1)
        } else {
            pm_lookup(entries, k2)
        },
    decreases entries.len(),
{
    let u = entries.push(e);
    if entries.len() == 0 {
        assert(u[0] == e);
        if k2 != e.0@ {
            assert(u.skip(1) =~= Seq::<(String, Property)>::empty());
        }
    } else {
        assert(u[0] == entries[0]);
        assert(entries[0].0@ != e.0@);
        if k2 == entries[0].0@ {
        } else {
            assert(u.skip(1) =~= entries.skip(1).push(e));
            assert(forall|j: int|
                0 <= j < entries.len() - 1 ==> (#[trigger] entries.skip(1)[j]).0@ != e.0@) by {
                assert(forall|j: int|
                    0 <= j < entries.len() - 1 ==> entries.skip(1)[j] == entries[j + 1]);
            }
            lemma_pm_lookup_push(entries.skip(1), e, k2);
        }
    }
}

impl PropMap {
    /// An empty property map.
    pub fn new() -> (r: PropMap)
        ensures
            r.entries@ == Seq::<(String, Property)>::empty(),
    {
        PropMap { entries: Vec::new() }
    }

    /// The first property bound to `key`, if any.
    pub fn get(&self, key: &String) -> (r: Option<Property>)
        ensures
            r == pm_lookup(self.entries@, key@),
    {
        let n = self.entries.len();
        let mut i: usize = 0;
        while i < n
            invariant
                i <= n,
                n == self.entries@.len(),
                forall|j: int| 0 <= j < i ==> (#[trigger] self.entries@[j]).0@ != key@,
            decreases n - i,
        {
            if self.entries[i].0.eq(key) {
                proof {
                    lemma_pm_lookup_skip(self.entries@, i as int, key@);
                    assert(self.entries@.skip(i as int)[0] == self.entries@[i as int]);
                }
                return Some(self.entries[i].1.clone());
            }
            i = i + 1;
        }
        proof {
            lemma_pm_lookup_skip(self.entries@, n as int, key@);
            assert(self.entries@.skip(n as int) =~= Seq::<(String, Property)>::empty());
        }
        None
    }

    /// Whether `key` is bound.
    pub fn contains_key(&self, key: &String) -> (r: bool)
        ensures
            r == (pm_lookup(self.entries@, key@) is Some),
    {
        match self.get(key) {
            Some(_) => true,
            None => false,
        }
    }

    /// Binds `key` to `p`, overwriting the first earlier binding if one
    /// exists, else appending.
    pub fn insert(&mut self, key: String, p: Property)
        ensures
            forall|k2: Seq<char>|
                #[trigger] pm_lookup(final(self).entries@, k2) == if k2 == key@ {
                    Some(p)
                } else {
                    pm_lookup(old(self).entries@, k2)
                },
            forall|j: int|
                0 <= j < final(self).entries@.len() ==> ((j < old(self).entries@.len() && (
                #[trigger] final(self).entries@[j]) == old(self).entries@[j]) || final(self).entries@[j].1 == p),
            final(self).entries@.len() >= old(self).entries@.len(),
            final(self).entries@.len() <= old(self).entries@.len() + 1,
    {
        let entry = (key, p);
        let ghost e = entry;
        let n = self.entries.len();
        let mut i: usize = 0;
        while i < n
            invariant
                i <= n,
                n == self.entries@.len(),
                self.entries@ == old(self).entries@,
                e == entry,
                e.0@ == key@,
                e.1 == p,
                forall|j: int| 0 <= j < i ==> (#[trigger] self.entries@[j]).0@ != e.0@,
            decreases n - i,
        {
            if self.entries[i].0.eq(&entry.0) {
                let ghost entries0 = self.entries@;
                self.entries.set(i, entry);
                proof {
                    assert(self.entries@ == entries0.update(i as int, e));
                    assert(entries0[i as int].0@ == e.0@);
                    assert forall|k2: Seq<char>|
                        #[trigger] pm_lookup(self.entries@, k2) == if k2 == e.0@ {
                            Some(p)
                        } else {
                            pm_lookup(entries0, k2)
                        } by {
                        lemma_pm_lookup_update(entries0, i as int, e, k2);
                    }
                }
                return ;
            }
            i = i + 1;
        }
        let ghost entries0 = self.entries@;
        self.entries.push(entry);
        proof {
            assert(self.entries@ =~= entries0.push(e));
            assert forall|k2: Seq<char>|
                #[trigger] pm_lookup(self.entries@, k2) == if k2 == e.0@ {
                    Some(p)
                } else {
                    pm_lookup(entries0, k2)
                } by {
                lemma_pm_lookup_push(entries0, e, k2);
            }
        }
    }
}

/// An array payload: the dense element sequence, the array-level length, and
/// the string-keyed property map the dense part falls back to.
#[derive(Debug)]
pub struct ArrayValue {
    pub elems: Vec<Property>,
    pub length: usize,
    pub obj: PropMap,
}

/// The data property that an array write stores.
pub open spec fn data_prop(v: Value) -> Property {
    Property::Data { value: v, writable: true, enumerable: true, configurable: true }
}

impl ArrayValue {
    /// An array holding `arr` as its dense elements, with length
    /// `arr.len()` and no string-keyed properties.
    pub fn new(arr: Vec<Value>) -> (r: ArrayValue)
        ensures
            r.length == arr@.len(),
            r.elems@.len() == arr@.len(),
            forall|i: int|
                0 <= i < arr@.len() ==> #[trigger] r.elems@[i] == data_prop(arr@[i]),
            r.obj.entries@ == Seq::<(String, Property)>::empty(),
    {
        let n = arr.len();
        let mut elems: Vec<Property> = Vec::new();
        let mut i: usize = 0;
        while i < n
            invariant
                i <= n,
                n == arr@.len(),
                elems@.len() == i,
                forall|j: int| 0 <= j < i ==> #[trigger] elems@[j] == data_prop(arr@[j]),
            decreases n - i,
        {
            elems.push(Property::new(arr[i].clone()));
            i = i + 1;
        }
        ArrayValue { elems, length: n, obj: PropMap::new() }
    }

    /// Writes `v` at index `n`, growing the dense part with `Empty` padding
    /// as needed; the length becomes at least `n + 1`.
    pub fn set_index(&mut self, n: usize, v: Value)
        requires
            n < usize::MAX,
            old(self).length == old(self).elems@.len(),
        ensures
            final(self).length == if n < old(self).length {
                old(self).length
            } else {
                (n + 1) as usize
            },
            final(self).elems@.len() == final(self).length,
            final(self).length >= n + 1,
            final(self).elems@[n as int] == data_prop(v),
            forall|j: int|
                0 <= j < old(self).length && j != n ==> #[trigger] final(self).elems@[j] == old(
                    self,
                ).elems@[j],
            forall|j: int|
                old(self).length <= j < final(self).length && j != n
                    ==> #[trigger] final(self).elems@[j] == data_prop(Value::Empty),
            final(self).obj == old(self).obj,
    {
        if n < self.elems.len() {
            self.elems.set(n, Property::new(v));
        } else {
            while self.elems.len() < n
                invariant
                    old(self).length <= self.elems@.len() <= n,
                    n < usize::MAX,
                    self.length == old(self).length,
                    self.obj == old(self).obj,
                    forall|j: int|
                        0 <= j < old(self).length ==> #[trigger] self.elems@[j] == old(
                            self,
                        ).elems@[j],
                    forall|j: int|
                        old(self).length <= j < self.elems@.len() ==> #[trigger] self.elems@[j]
                            == data_prop(Value::Empty),
                decreases n - self.elems@.len(),
            {
                self.elems.push(Property::new(Value::Empty));
            }
            self.elems.push(Property::new(v));
            self.length = n + 1;
        }
    }

    /// Resizes the array to length `n`: the dense part is truncated or
    /// extended with `Empty`, and the length becomes exactly `n`.
    pub fn set_length(&mut self, n: usize)
        requires
            old(self).length == old(self).elems@.len(),
        ensures
            final(self).length == n,
            final(self).elems@.len() == n,
            forall|j: int|
                0 <= j < n && j < old(self).length ==> #[trigger] final(self).elems@[j] == old(
                    self,
                ).elems@[j],
            forall|j: int|
                old(self).length <= j < n ==> #[trigger] final(self).elems@[j] == data_prop(
                    Value::Empty,
                ),
            final(self).obj == old(self).obj,
    {
        if n <= self.elems.len() {
            self.elems.truncate(n);
        } else {
            while self.elems.len() < n
                invariant
                    old(self).length <= self.elems@.len() <= n,
                    self.length == old(self).length,
                    self.obj == old(self).obj,
                    forall|j: int|
                        0 <= j < old(self).length ==> #[trigger] self.elems@[j] == old(
                            self,
                        ).elems@[j],
                    forall|j: int|
                        old(self).length <= j < self.elems@.len() ==> #[trigger] self.elems@[j]
                            == data_prop(Value::Empty),
                decreases n - self.elems@.len(),
            {
                self.elems.push(Property::new(Value::Empty));
            }
        }
        self.length = n;
    }

    /// The value a read of dense index `n` yields, or `None` when `n` is at
    /// or past the length, in which case the read falls back to the
    /// string-keyed map.
    pub fn get_index(&self, n: usize) -> (r: Option<Value>)
        requires
            self.length == self.elems@.len(),
        ensures
            r == if n < self.length {
                Some(prop_read(self.elems@[n as int]))
            } else {
                None::<Value>
            },
    {
        if n < self.length {
            Some(self.elems[n].read())
        } else {
            None
        }
    }
}

/// Whether every handle held by `v` is in range.
pub open spec fn value_ok(h: Heap, v: Value) -> bool {
    match v {
        Value::Object(i) => i < h.props@.len(),
        Value::Array(i) => i < h.arrays@.len(),
        Value::Function(i) => i < h.funcs@.len(),
        _ => true,
    }
}

/// Whether every handle held by `p` is in range.
pub open spec fn prop_ok(h: Heap, p: Property) -> bool {
    match p {
        Property::Data { value, .. } => value_ok(h, value),
        Property::Accessor { get, set, .. } => value_ok(h, get) && value_ok(h, set),
    }
}

/// Whether every handle held by `pm` is in range.
pub open spec fn pm_ok(h: Heap, pm: PropMap) -> bool {
    forall|i: int| 0 <= i < pm.entries@.len() ==> prop_ok(h, (#[trigger] pm.entries@[i]).1)
}

/// Whether `a` is well-formed: dense length and the length field agree, and
/// every handle is in range.
pub open spec fn array_ok(h: Heap, a: ArrayValue) -> bool {
    &&& a.length == a.elems@.len()
    &&& forall|i: int| 0 <= i < a.elems@.len() ==> prop_ok(h, #[trigger] a.elems@[i])
    &&& pm_ok(h, a.obj)
}

/// Whether every handle held by function record `f` is in range.
pub open spec fn func_ok(h: Heap, f: FunctionObjectInfo) -> bool {
    &&& f.obj < h.props@.len()
    &&& value_ok(h, f.this)
    &&& match f.outer {
        Some(p) => p < h.callobjs@.len(),
        None => true,
    }
    &&& match f.kind {
        crate::function::FunctionObjectKind::User(u) => forall|i: int|
            0 <= i < u.func_decls@.len() ==> value_ok(h, #[trigger] u.func_decls@[i]),
        crate::function::FunctionObjectKind::Builtin(_) => true,
    }
}

/// Whether every handle held by call object `co` is in range.
pub open spec fn callobj_ok(h: Heap, co: CallObject) -> bool {
    &&& co.vals < h.props@.len()
    &&& value_ok(h, co.this)
    &&& match co.parent {
        Some(p) => p < h.callobjs@.len(),
        None => true,
    }
    &&& forall|i: int|
        0 <= i < co.arguments@.len() ==> value_ok(h, (#[trigger] co.arguments@[i]).1)
}

/// The heap: four arenas of records reached by handle.
#[derive(Debug)]
pub struct Heap {
    pub props: Vec<PropMap>,
    pub arrays: Vec<ArrayValue>,
    pub funcs: Vec<FunctionObjectInfo>,
    pub callobjs: Vec<CallObject>,
}

/// Heap well-formedness: every record's handles are in range, and every
/// call object's parent was allocated before it.
pub open spec fn heap_ok(h: Heap) -> bool {
    &&& forall|i: int| 0 <= i < h.props@.len() ==> pm_ok(h, #[trigger] h.props@[i])
    &&& forall|i: int| 0 <= i < h.arrays@.len() ==> array_ok(h, #[trigger] h.arrays@[i])
    &&& forall|i: int| 0 <= i < h.funcs@.len() ==> func_ok(h, #[trigger] h.funcs@[i])
    &&& forall|i: int| 0 <= i < h.callobjs@.len() ==> callobj_ok(h, #[trigger] h.callobjs@[i])
    &&& forall|i: int|
        0 <= i < h.callobjs@.len() ==> match (#[trigger] h.callobjs@[i]).parent {
            Some(p) => p < i,
            None => true,
        }
}

/// Whether `b`'s arenas extend `a`'s: no arena shrank.
pub open spec fn heap_le(a: Heap, b: Heap) -> bool {
    &&& a.props@.len() <= b.props@.len()
    &&& a.arrays@.len() <= b.arrays@.len()
    &&& a.funcs@.len() <= b.funcs@.len()
    &&& a.callobjs@.len() <= b.callobjs@.len()
}

/// A value well-formed for a heap stays well-formed when the heap grows.
pub proof fn lemma_value_ok_le(a: Heap, b: Heap, v: Value)
    requires
        value_ok(a, v),
        heap_le(a, b),
    ensures
        value_ok(b, v),
{
}

/// A property map well-formed for a heap stays well-formed when the heap
/// grows.
pub proof fn lemma_pm_ok_le(a: Heap, b: Heap, pm: PropMap)
    requires
        pm_ok(a, pm),
        heap_le(a, b),
    ensures
        pm_ok(b, pm),
{
    assert forall|i: int| 0 <= i < pm.entries@.len() implies prop_ok(
        b,
        (#[trigger] pm.entries@[i]).1,
    ) by {
        assert(prop_ok(a, pm.entries@[i].1));
    }
}

/// An array well-formed for a heap stays well-formed when the heap grows.
pub proof fn lemma_array_ok_le(a: Heap, b: Heap, arr: ArrayValue)
    requires
        array_ok(a, arr),
        heap_le(a, b),
    ensures
        array_ok(b, arr),
{
    assert forall|i: int| 0 <= i < arr.elems@.len() implies prop_ok(
        b,
        #[trigger] arr.elems@[i],
    ) by {
        assert(prop_ok(a, arr.elems@[i]));
    }
    lemma_pm_ok_le(a, b, arr.obj);
}

/// A function record well-formed for a heap stays well-formed when the heap
/// grows.
pub proof fn lemma_func_ok_le(a: Heap, b: Heap, f: FunctionObjectInfo)
    requires
        func_ok(a, f),
        heap_le(a, b),
    ensures
        func_ok(b, f),
{
    match f.kind {
        crate::function::FunctionObjectKind::User(u) => {
            assert forall|i: int| 0 <= i < u.func_decls@.len() implies value_ok(
                b,
                #[trigger] u.func_decls@[i],
            ) by {
                assert(value_ok(a, u.func_decls@[i]));
            }
        },
        crate::function::FunctionObjectKind::Builtin(_) => {},
    }
}

/// A call object well-formed for a heap stays well-formed when the heap
/// grows.
pub proof fn lemma_callobj_ok_le(a: Heap, b: Heap, co: CallObject)
    requires
        callobj_ok(a, co),
        heap_le(a, b),
    ensures
        callobj_ok(b, co),
{
    assert forall|i: int| 0 <= i < co.arguments@.len() implies value_ok(
        b,
        (#[trigger] co.arguments@[i]).1,
    ) by {
        assert(value_ok(a, co.arguments@[i].1));
    }
}

/// Every record of a well-formed heap stays well-formed when only new
/// records are appended to its arenas.
pub proof fn lemma_heap_ok_append(a: Heap, b: Heap)
    requires
        heap_ok(a),
        heap_le(a, b),
        forall|i: int| 0 <= i < a.props@.len() ==> b.props@[i] == a.props@[i],
        forall|i: int| 0 <= i < a.arrays@.len() ==> b.arrays@[i] == a.arrays@[i],
        forall|i: int| 0 <= i < a.funcs@.len() ==> b.funcs@[i] == a.funcs@[i],
        forall|i: int| 0 <= i < a.callobjs@.len() ==> b.callobjs@[i] == a.callobjs@[i],
        forall|i: int|
            a.props@.len() <= i < b.props@.len() ==> pm_ok(b, #[trigger] b.props@[i]),
        forall|i: int|
            a.arrays@.len() <= i < b.arrays@.len() ==> array_ok(b, #[trigger] b.arrays@[i]),
        forall|i: int|
            a.funcs@.len() <= i < b.funcs@.len() ==> func_ok(b, #[trigger] b.funcs@[i]),
        forall|i: int|
            a.callobjs@.len() <= i < b.callobjs@.len() ==> callobj_ok(b, #[trigger] b.callobjs@[i])
                && match b.callobjs@[i].parent {
                Some(p) => p < i,
                None => true,
            },
    ensures
        heap_ok(b),
{
    assert forall|i: int| 0 <= i < b.props@.len() implies pm_ok(b, #[trigger] b.props@[i]) by {
        if i < a.props@.len() {
            lemma_pm_ok_le(a, b, a.props@[i]);
        }
    }
    assert forall|i: int| 0 <= i < b.arrays@.len() implies array_ok(
        b,
        #[trigger] b.arrays@[i],
    ) by {
        if i < a.arrays@.len() {
            lemma_array_ok_le(a, b, a.arrays@[i]);
        }
    }
    assert forall|i: int| 0 <= i < b.funcs@.len() implies func_ok(b, #[trigger] b.funcs@[i]) by {
        if i < a.funcs@.len() {
            lemma_func_ok_le(a, b, a.funcs@[i]);
        }
    }
    assert forall|i: int| 0 <= i < b.callobjs@.len() implies callobj_ok(
        b,
        #[trigger] b.callobjs@[i],
    ) && match b.callobjs@[i].parent {
        Some(p) => p < i,
        None => true,
    } by {
        if i < a.callobjs@.len() {
            lemma_callobj_ok_le(a, b, a.callobjs@[i]);
        }
    }
}

/// A heap whose arenas hold the same records, except one array slot that is
/// well-formed for it, is well-formed.
proof fn lemma_heap_ok_replace_array(a: Heap, b: Heap, ah: int)
    requires
        heap_ok(a),
        b.props@ == a.props@,
        b.funcs@ == a.funcs@,
        b.callobjs@ == a.callobjs@,
        b.arrays@.len() == a.arrays@.len(),
        forall|i: int| 0 <= i < a.arrays@.len() && i != ah ==> #[trigger] b.arrays@[i] == a.arrays@[i],
        0 <= ah < b.arrays@.len(),
        array_ok(b, b.arrays@[ah]),
    ensures
        heap_ok(b),
{
    assert forall|i: int| 0 <= i < b.props@.len() implies pm_ok(b, #[trigger] b.props@[i]) by {
        lemma_pm_ok_le(a, b, a.props@[i]);
    }
    assert forall|i: int| 0 <= i < b.arrays@.len() implies array_ok(b, #[trigger] b.arrays@[i]) by {
        if i != ah {
            lemma_array_ok_le(a, b, a.arrays@[i]);
        }
    }
    assert forall|i: int| 0 <= i < b.funcs@.len() implies func_ok(b, #[trigger] b.funcs@[i]) by {
        lemma_func_ok_le(a, b, a.funcs@[i]);
    }
    assert forall|i: int| 0 <= i < b.callobjs@.len() implies callobj_ok(b, #[trigger] b.callobjs@[i]) by {
        lemma_callobj_ok_le(a, b, a.callobjs@[i]);
    }
}

/// A heap whose arenas hold the same records, except one call-object slot
/// that is well-formed for it and keeps its parent, is well-formed.
proof fn lemma_heap_ok_replace_callobj(a: Heap, b: Heap, ch: int)
    requires
        heap_ok(a),
        b.props@ == a.props@,
        b.funcs@ == a.funcs@,
        b.arrays@ == a.arrays@,
        b.callobjs@.len() == a.callobjs@.len(),
        forall|i: int|
            0 <= i < a.callobjs@.len() && i != ch ==> #[trigger] b.callobjs@[i] == a.callobjs@[i],
        0 <= ch < b.callobjs@.len(),
        callobj_ok(b, b.callobjs@[ch]),
        b.callobjs@[ch].parent == a.callobjs@[ch].parent,
    ensures
        heap_ok(b),
{
    assert forall|i: int| 0 <= i < b.props@.len() implies pm_ok(b, #[trigger] b.props@[i]) by {
        lemma_pm_ok_le(a, b, a.props@[i]);
    }
    assert forall|i: int| 0 <= i < b.arrays@.len() implies array_ok(b, #[trigger] b.arrays@[i]) by {
        lemma_array_ok_le(a, b, a.arrays@[i]);
    }
    assert forall|i: int| 0 <= i < b.funcs@.len() implies func_ok(b, #[trigger] b.funcs@[i]) by {
        lemma_func_ok_le(a, b, a.funcs@[i]);
    }
    assert forall|i: int| 0 <= i < b.callobjs@.len() implies callobj_ok(b, #[trigger] b.callobjs@[i]) by {
        if i != ch {
            lemma_callobj_ok_le(a, b, a.callobjs@[i]);
        }
    }
}

/// Whether `b` is a copy of function record `a` carrying receiver `this`.
pub open spec fn func_like_with_this(
    a: crate::function::FunctionObjectInfo,
    b: crate::function::FunctionObjectInfo,
    this: Value,
) -> bool {
    &&& b.id == a.id
    &&& b.name == a.name
    &&& crate::function::kind_like(a.kind, b.kind)
    &&& b.obj == a.obj
    &&& b.this == this
    &&& b.outer == a.outer
}

/// Whether `b` is a copy of function record `a` capturing environment
/// `outer`.
pub open spec fn func_like_with_outer(
    a: crate::function::FunctionObjectInfo,
    b: crate::function::FunctionObjectInfo,
    outer: int,
) -> bool {
    &&& b.id == a.id
    &&& b.name == a.name
    &&& crate::function::kind_like(a.kind, b.kind)
    &&& b.obj == a.obj
    &&& b.this == a.this
    &&& b.outer == Some(outer as usize)
}

/// The property a lookup finds in a map whose entries are all well-formed
/// is well-formed.
pub proof fn lemma_pm_lookup_prop_ok(h: Heap, entries: Seq<(String, Property)>, key: Seq<char>)
    requires
        forall|i: int| 0 <= i < entries.len() ==> prop_ok(h, (#[trigger] entries[i]).1),
    ensures
        match pm_lookup(entries, key) {
            Some(p) => prop_ok(h, p),
            None => true,
        },
    decreases entries.len(),
{
    if entries.len() > 0 && entries[0].0@ != key {
        assert(forall|i: int|
            0 <= i < entries.skip(1).len() ==> prop_ok(h, (#[trigger] entries.skip(1)[i]).1)) by {
            assert(forall|i: int|
                0 <= i < entries.len() - 1 ==> entries.skip(1)[i] == entries[i + 1]);
        }
        lemma_pm_lookup_prop_ok(h, entries.skip(1), key);
    }
}

impl Heap {
    /// An empty heap.
    pub fn new() -> (r: Heap)
        ensures
            heap_ok(r),
            r.props@.len() == 0,
            r.arrays@.len() == 0,
            r.funcs@.len() == 0,
            r.callobjs@.len() == 0,
    {
        Heap { props: Vec::new(), arrays: Vec::new(), funcs: Vec::new(), callobjs: Vec::new() }
    }

    /// Allocates a property map and returns its handle.
    pub fn alloc_props(&mut self, pm: PropMap) -> (h: usize)
        requires
            heap_ok(*old(self)),
            pm_ok(*old(self), pm),
        ensures
            heap_ok(*final(self)),
            heap_le(*old(self), *final(self)),
            h == old(self).props@.len(),
            final(self).props@ == old(self).props@.push(pm),
            final(self).arrays@ == old(self).arrays@,
            final(self).funcs@ == old(self).funcs@,
            final(self).callobjs@ == old(self).callobjs@,
    {
        let h = self.props.len();
        let ghost a = *self;
        self.props.push(pm);
        proof {
            lemma_pm_ok_le(a, *self, pm);
            lemma_heap_ok_append(a, *self);
        }
        h
    }

    /// Allocates an array record and returns its handle.
    pub fn alloc_array(&mut self, arr: ArrayValue) -> (h: usize)
        requires
            heap_ok(*old(self)),
            array_ok(*old(self), arr),
        ensures
            heap_ok(*final(self)),
            heap_le(*old(self), *final(self)),
            h == old(self).arrays@.len(),
            final(self).arrays@ == old(self).arrays@.push(arr),
            final(self).props@ == old(self).props@,
            final(self).funcs@ == old(self).funcs@,
            final(self).callobjs@ == old(self).callobjs@,
    {
        let h = self.arrays.len();
        let ghost a = *self;
        self.arrays.push(arr);
        proof {
            lemma_array_ok_le(a, *self, arr);
            lemma_heap_ok_append(a, *self);
        }
        h
    }

    /// Allocates a function record and returns its handle.
    pub fn alloc_func(&mut self, f: FunctionObjectInfo) -> (h: usize)
        requires
            heap_ok(*old(self)),
            func_ok(*old(self), f),
        ensures
            heap_ok(*final(self)),
            heap_le(*old(self), *final(self)),
            h == old(self).funcs@.len(),
            final(self).funcs@ == old(self).funcs@.push(f),
            final(self).props@ == old(self).props@,
            final(self).arrays@ == old(self).arrays@,
            final(self).callobjs@ == old(self).callobjs@,
    {
        let h = self.funcs.len();
        let ghost a = *self;
        self.funcs.push(f);
        proof {
            lemma_func_ok_le(a, *self, f);
            lemma_heap_ok_append(a, *self);
        }
        h
    }

    /// The first property bound to `key` in property map `h`.
    pub fn prop_lookup(&self, h: usize, key: &String) -> (r: Option<Property>)
        requires
            h < self.props@.len(),
        ensures
            r == pm_lookup(self.props@[h as int].entries@, key@),
    {
        self.props[h].get(key)
    }

    /// Binds `key` to `p` in property map `h`.
    pub fn prop_insert(&mut self, h: usize, key: String, p: Property)
        requires
            heap_ok(*old(self)),
            h < old(self).props@.len(),
            prop_ok(*old(self), p),
        ensures
            heap_ok(*final(self)),
            final(self).props@.len() == old(self).props@.len(),
            final(self).arrays@ == old(self).arrays@,
            final(self).funcs@ == old(self).funcs@,
            final(self).callobjs@ == old(self).callobjs@,
            forall|i: int|
                0 <= i < old(self).props@.len() && i != h ==> #[trigger] final(self).props@[i]
                    == old(self).props@[i],
            forall|k2: Seq<char>|
                #[trigger] pm_lookup(final(self).props@[h as int].entries@, k2) == if k2 == key@ {
                    Some(p)
                } else {
                    pm_lookup(old(self).props@[h as int].entries@, k2)
                },
    {
        let ghost a = *self;
        let pm = &mut self.props[h];
        pm.insert(key, p);
        proof {
            assert(self.arrays@ =~= a.arrays@);
            assert(self.funcs@ =~= a.funcs@);
            assert(self.callobjs@ =~= a.callobjs@);
            assert(heap_le(a, *self));
            assert(pm_ok(*self, self.props@[h as int])) by {
                assert forall|i: int|
                    0 <= i < self.props@[h as int].entries@.len() implies prop_ok(
                    *self,
                    (#[trigger] self.props@[h as int].entries@[i]).1,
                ) by {
                    if i < a.props@[h as int].entries@.len() && self.props@[h as int].entries@[i]
                        == a.props@[h as int].entries@[i] {
                        assert(prop_ok(a, a.props@[h as int].entries@[i].1));
                    } else {
                        assert(self.props@[h as int].entries@[i].1 == p);
                    }
                }
            }
            assert forall|i: int| 0 <= i < self.props@.len() implies pm_ok(
                *self,
                #[trigger] self.props@[i],
            ) by {
                if i != h {
                    assert(self.props@[i] == a.props@[i]);
                    lemma_pm_ok_le(a, *self, a.props@[i]);
                }
            }
            assert forall|i: int| 0 <= i < self.arrays@.len() implies array_ok(
                *self,
                #[trigger] self.arrays@[i],
            ) by {
                lemma_array_ok_le(a, *self, a.arrays@[i]);
            }
            assert forall|i: int| 0 <= i < self.funcs@.len() implies func_ok(
                *self,
                #[trigger] self.funcs@[i],
            ) by {
                lemma_func_ok_le(a, *self, a.funcs@[i]);
            }
            assert forall|i: int| 0 <= i < self.callobjs@.len() implies callobj_ok(
                *self,
                #[trigger] self.callobjs@[i],
            ) by {
                lemma_callobj_ok_le(a, *self, a.callobjs@[i]);
            }
        }
    }


    /// Copies function record `fh` with receiver `this` installed on the
    /// copy, and returns the copy's handle. Member access binds a method to
    /// its receiver this way.
    pub fn copy_func_with_this(&mut self, fh: usize, this: Value) -> (h: usize)
        requires
            heap_ok(*old(self)),
            fh < old(self).funcs@.len(),
            value_ok(*old(self), this),
        ensures
            heap_ok(*final(self)),
            heap_le(*old(self), *final(self)),
            h == old(self).funcs@.len(),
            final(self).funcs@.len() == old(self).funcs@.len() + 1,
            forall|i: int|
                0 <= i < old(self).funcs@.len() ==> #[trigger] final(self).funcs@[i] == old(self).funcs@[i],
            func_like_with_this(old(self).funcs@[fh as int], final(self).funcs@[h as int], this),
            final(self).props@ == old(self).props@,
            final(self).arrays@ == old(self).arrays@,
            final(self).callobjs@ == old(self).callobjs@,
    {
        let mut f = self.funcs[fh].clone();
        f.this = this;
        proof {
            assert(func_ok(*self, f)) by {
                assert(func_ok(*self, self.funcs@[fh as int]));
                match f.kind {
                    crate::function::FunctionObjectKind::User(u) => {
                        assert(crate::function::ufi_like(
                            match self.funcs@[fh as int].kind {
                                crate::function::FunctionObjectKind::User(u0) => u0,
                                _ => u,
                            },
                            u,
                        ));
                    },
                    crate::function::FunctionObjectKind::Builtin(_) => {},
                }
            }
        }
        self.alloc_func(f)
    }

    /// Copies function record `fh` with enclosing environment `outer`
    /// installed on the copy, and returns the copy's handle. Evaluating a
    /// function literal captures the current scope this way.
    pub fn copy_func_with_outer(&mut self, fh: usize, outer: usize) -> (h: usize)
        requires
            heap_ok(*old(self)),
            fh < old(self).funcs@.len(),
            outer < old(self).callobjs@.len(),
        ensures
            heap_ok(*final(self)),
            heap_le(*old(self), *final(self)),
            h == old(self).funcs@.len(),
            final(self).funcs@.len() == old(self).funcs@.len() + 1,
            forall|i: int|
                0 <= i < old(self).funcs@.len() ==> #[trigger] final(self).funcs@[i] == old(self).funcs@[i],
            func_like_with_outer(old(self).funcs@[fh as int], final(self).funcs@[h as int], outer as int),
            final(self).props@ == old(self).props@,
            final(self).arrays@ == old(self).arrays@,
            final(self).callobjs@ == old(self).callobjs@,
    {
        let mut f = self.funcs[fh].clone();
        f.outer = Some(outer);
        proof {
            assert(func_ok(*self, f)) by {
                assert(func_ok(*self, self.funcs@[fh as int]));
                match f.kind {
                    crate::function::FunctionObjectKind::User(u) => {
                        assert(crate::function::ufi_like(
                            match self.funcs@[fh as int].kind {
                                crate::function::FunctionObjectKind::User(u0) => u0,
                                _ => u,
                            },
                            u,
                        ));
                    },
                    crate::function::FunctionObjectKind::Builtin(_) => {},
                }
            }
        }
        self.alloc_func(f)
    }

    /// The length of array `ah`.
    pub fn array_length(&self, ah: usize) -> (r: usize)
        requires
            ah < self.arrays@.len(),
        ensures
            r == self.arrays@[ah as int].length,
    {
        self.arrays[ah].length
    }

    /// The value a read of dense index `n` of array `ah` yields, or `None`
    /// when the read falls back to the string-keyed map.
    pub fn array_get(&self, ah: usize, n: usize) -> (r: Option<Value>)
        requires
            heap_ok(*self),
            ah < self.arrays@.len(),
        ensures
            r == if n < self.arrays@[ah as int].length {
                Some(prop_read(self.arrays@[ah as int].elems@[n as int]))
            } else {
                None::<Value>
            },
    {
        self.arrays[ah].get_index(n)
    }

    /// Writes `v` at dense index `n` of array `ah`, padding with `Empty` and
    /// raising the length to at least `n + 1`.
    pub fn array_set_index(&mut self, ah: usize, n: usize, v: Value)
        requires
            heap_ok(*old(self)),
            ah < old(self).arrays@.len(),
            n < usize::MAX,
            value_ok(*old(self), v),
        ensures
            heap_ok(*final(self)),
            final(self).props@ == old(self).props@,
            final(self).funcs@ == old(self).funcs@,
            final(self).callobjs@ == old(self).callobjs@,
            final(self).arrays@.len() == old(self).arrays@.len(),
            forall|i: int|
                0 <= i < old(self).arrays@.len() && i != ah ==> #[trigger] final(self).arrays@[i]
                    == old(self).arrays@[i],
            ({
                let a0 = old(self).arrays@[ah as int];
                let a1 = final(self).arrays@[ah as int];
                &&& a1.length == if n < a0.length {
                    a0.length
                } else {
                    (n + 1) as usize
                }
                &&& a1.elems@.len() == a1.length
                &&& a1.length >= n + 1
                &&& a1.elems@[n as int] == data_prop(v)
                &&& (forall|j: int|
                    0 <= j < a0.length && j != n ==> #[trigger] a1.elems@[j] == a0.elems@[j])
                &&& (forall|j: int|
                    a0.length <= j < a1.length && j != n ==> #[trigger] a1.elems@[j] == data_prop(
                        Value::Empty,
                    ))
                &&& a1.obj == a0.obj
            }),
    {
        let ghost a = *self;
        let arr = &mut self.arrays[ah];
        proof {
            assert(array_ok(a, a.arrays@[ah as int]));
        }
        arr.set_index(n, v);
        proof {
            assert(array_ok(*self, self.arrays@[ah as int])) by {
                let a0 = a.arrays@[ah as int];
                let a1 = self.arrays@[ah as int];
                assert forall|j: int| 0 <= j < a1.elems@.len() implies prop_ok(
                    *self,
                    #[trigger] a1.elems@[j],
                ) by {
                    if j < a0.length && j != n {
                        assert(a1.elems@[j] == a0.elems@[j]);
                        assert(prop_ok(a, a0.elems@[j]));
                    }
                }
            }
            lemma_heap_ok_replace_array(a, *self, ah as int);
        }
    }

    /// Resizes array `ah` to length `n`, truncating or padding with `Empty`.
    pub fn array_set_length(&mut self, ah: usize, n: usize)
        requires
            heap_ok(*old(self)),
            ah < old(self).arrays@.len(),
        ensures
            heap_ok(*final(self)),
            final(self).props@ == old(self).props@,
            final(self).funcs@ == old(self).funcs@,
            final(self).callobjs@ == old(self).callobjs@,
            final(self).arrays@.len() == old(self).arrays@.len(),
            forall|i: int|
                0 <= i < old(self).arrays@.len() && i != ah ==> #[trigger] final(self).arrays@[i]
                    == old(self).arrays@[i],
            ({
                let a0 = old(self).arrays@[ah as int];
                let a1 = final(self).arrays@[ah as int];
                &&& a1.length == n
                &&& a1.elems@.len() == n
                &&& (forall|j: int|
                    0 <= j < n && j < a0.length ==> #[trigger] a1.elems@[j] == a0.elems@[j])
                &&& (forall|j: int|
                    a0.length <= j < n ==> #[trigger] a1.elems@[j] == data_prop(Value::Empty))
                &&& a1.obj == a0.obj
            }),
    {
        let ghost a = *self;
        let arr = &mut self.arrays[ah];
        proof {
            assert(array_ok(a, a.arrays@[ah as int]));
        }
        arr.set_length(n);
        proof {
            assert(array_ok(*self, self.arrays@[ah as int])) by {
                let a0 = a.arrays@[ah as int];
                let a1 = self.arrays@[ah as int];
                assert forall|j: int| 0 <= j < a1.elems@.len() implies prop_ok(
                    *self,
                    #[trigger] a1.elems@[j],
                ) by {
                    if j < a0.length && j < n {
                        assert(a1.elems@[j] == a0.elems@[j]);
                        assert(prop_ok(a, a0.elems@[j]));
                    }
                }
            }
            lemma_heap_ok_replace_array(a, *self, ah as int);
        }
    }

    /// Binds `key` to `p` in the string-keyed map of array `ah`.
    pub fn array_prop_insert(&mut self, ah: usize, key: String, p: Property)
        requires
            heap_ok(*old(self)),
            ah < old(self).arrays@.len(),
            prop_ok(*old(self), p),
        ensures
            heap_ok(*final(self)),
            final(self).props@ == old(self).props@,
            final(self).funcs@ == old(self).funcs@,
            final(self).callobjs@ == old(self).callobjs@,
            final(self).arrays@.len() == old(self).arrays@.len(),
            forall|i: int|
                0 <= i < old(self).arrays@.len() && i != ah ==> #[trigger] final(self).arrays@[i]
                    == old(self).arrays@[i],
            ({
                let a0 = old(self).arrays@[ah as int];
                let a1 = final(self).arrays@[ah as int];
                &&& a1.length == a0.length
                &&& a1.elems@ == a0.elems@
                &&& (forall|k2: Seq<char>|
                    #[trigger] pm_lookup(a1.obj.entries@, k2) == if k2 == key@ {
                        Some(p)
                    } else {
                        pm_lookup(a0.obj.entries@, k2)
                    })
            }),
    {
        let ghost a = *self;
        let arr = &mut self.arrays[ah];
        proof {
            assert(array_ok(a, a.arrays@[ah as int]));
        }
        arr.obj.insert(key, p);
        proof {
            assert(self.arrays@[ah as int].elems@ =~= a.arrays@[ah as int].elems@);
            assert(array_ok(*self, self.arrays@[ah as int])) by {
                let a0 = a.arrays@[ah as int];
                let a1 = self.arrays@[ah as int];
                assert forall|j: int| 0 <= j < a1.elems@.len() implies prop_ok(
                    *self,
                    #[trigger] a1.elems@[j],
                ) by {
                    assert(prop_ok(a, a0.elems@[j]));
                }
                assert forall|j: int| 0 <= j < a1.obj.entries@.len() implies prop_ok(
                    *self,
                    (#[trigger] a1.obj.entries@[j]).1,
                ) by {
                    if j < a0.obj.entries@.len() && a1.obj.entries@[j] == a0.obj.entries@[j] {
                        assert(prop_ok(a, a0.obj.entries@[j].1));
                    } else {
                        assert(a1.obj.entries@[j].1 == p);
                    }
                }
            }
            lemma_heap_ok_replace_array(a, *self, ah as int);
        }
    }


    /// Writes `val` into argument slot `n` of call object `co`; the slot
    /// must not alias a declared parameter.
    pub fn co_arg_slot_set(&mut self, co: usize, n: usize, val: Value)
        requires
            heap_ok(*old(self)),
            co < old(self).callobjs@.len(),
            n < old(self).callobjs@[co as int].arguments@.len(),
            old(self).callobjs@[co as int].arguments@[n as int].0 is None,
            value_ok(*old(self), val),
        ensures
            heap_ok(*final(self)),
            final(self).props@ == old(self).props@,
            final(self).arrays@ == old(self).arrays@,
            final(self).funcs@ == old(self).funcs@,
            final(self).callobjs@.len() == old(self).callobjs@.len(),
            forall|i: int|
                0 <= i < old(self).callobjs@.len() && i != co ==> #[trigger] final(self).callobjs@[i] == old(self).callobjs@[i],
            ({
                let c0 = old(self).callobjs@[co as int];
                let c1 = final(self).callobjs@[co as int];
                &&& c1.vals == c0.vals
                &&& c1.this == c0.this
                &&& c1.parent == c0.parent
                &&& c1.rest_params == c0.rest_params
                &&& c1.arguments@ == c0.arguments@.update(n as int, (None::<String>, val))
            }),
    {
        let ghost a = *self;
        let c = &mut self.callobjs[co];
        c.arguments.set(n, (None, val));
        proof {
            assert(callobj_ok(*self, self.callobjs@[co as int])) by {
                let c0 = a.callobjs@[co as int];
                let c1 = self.callobjs@[co as int];
                assert(callobj_ok(a, c0));
                assert forall|i: int| 0 <= i < c1.arguments@.len() implies value_ok(
                    *self,
                    (#[trigger] c1.arguments@[i]).1,
                ) by {
                    if i != n {
                        assert(c1.arguments@[i] == c0.arguments@[i]);
                        assert(value_ok(a, c0.arguments@[i].1));
                    }
                }
            }
            lemma_heap_ok_replace_callobj(a, *self, co as int);
        }
    }

    /// Allocates a call object and returns its handle.
    pub fn alloc_callobj(&mut self, co: CallObject) -> (h: usize)
        requires
            heap_ok(*old(self)),
            callobj_ok(*old(self), co),
        ensures
            heap_ok(*final(self)),
            heap_le(*old(self), *final(self)),
            h == old(self).callobjs@.len(),
            final(self).callobjs@ == old(self).callobjs@.push(co),
            final(self).props@ == old(self).props@,
            final(self).arrays@ == old(self).arrays@,
            final(self).funcs@ == old(self).funcs@,
    {
        let h = self.callobjs.len();
        let ghost a = *self;
        self.callobjs.push(co);
        proof {
            lemma_callobj_ok_le(a, *self, co);
            lemma_heap_ok_append(a, *self);
        }
        h
    }
}

} // verus!

