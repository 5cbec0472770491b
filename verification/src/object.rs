//! Property access: prototype-chained reads and kind-directed writes.
//!
//! A read resolves against the parent's kind: strings index characters and
//! report their length in 16-bit code units; objects and functions look the
//! key up in their property map and then follow `__proto__` as long as it
//! is an object, with the walk bounded so a cyclic chain ends; arrays read
//! dense indices and fall back to their string-keyed map; the arguments
//! marker resolves against the current activation. A property-map read that
//! resolves to a function binds it to the parent as its receiver, so the
//! next call instruction uses the parent as `this`.

use vstd::prelude::*;

use crate::callobj::CallObject;
use crate::error::RuntimeError;
use crate::heap::{data_prop, heap_ok, pm_lookup, value_ok, ArrayValue, Heap};
use crate::number::{num_str, Number};
use crate::value::{char_to_string, prop_read, str_of_value, utf16_len, Property, Value};

verus! {

/// The key a member value names: its string coercion.
pub open spec fn member_key(member: Value) -> Seq<char> {
    str_of_value(member)
}

/// The property that a prototype-chain walk from property map `obj` finds
/// for `key`: the map's own binding, else the walk continues through the
/// value of `__proto__` while it is an object, for at most `fuel` maps.
pub open spec fn proto_lookup(h: Heap, obj: int, key: Seq<char>, fuel: nat) -> Option<Property>
    decreases fuel,
{
    if fuel == 0 || !(0 <= obj < h.props@.len()) {
        None
    } else {
        match pm_lookup(h.props@[obj].entries@, key) {
            Some(p) => Some(p),
            None => match pm_lookup(h.props@[obj].entries@, "__proto__"@) {
                Some(pp) => match prop_read(pp) {
                    Value::Object(q) => proto_lookup(h, q as int, key, (fuel - 1) as nat),
                    _ => None,
                },
                None => None,
            },
        }
    }
}

/// The walk bound: one more than the number of property maps, so an acyclic
/// chain is never cut short.
pub open spec fn walk_fuel(h: Heap) -> nat {
    (h.props@.len() + 1) as nat
}

/// What a member read yields, before receiver binding is carried out.
pub enum PropOutcome {
    /// A plain value.
    Val(Value),
    /// A one-character string holding this character.
    Chr(char),
    /// A function found in a property map: its stored handle, and the
    /// receiver it is to be bound to.
    Method(int, Value),
    /// Member access on a primitive that does not support it.
    KindErr,
    /// An arguments slot aliases a parameter that has lost its binding.
    MissingLocal,
}

/// Lifts the property a map walk found: a function value becomes a method
/// bound to `receiver`, anything else is read plainly, absence reads as
/// `Undefined`.
pub open spec fn walk_outcome(found: Option<Property>, receiver: Value) -> PropOutcome {
    match found {
        Some(p) => match prop_read(p) {
            Value::Function(fh) => PropOutcome::Method(fh as int, receiver),
            v => PropOutcome::Val(v),
        },
        None => PropOutcome::Val(Value::Undefined),
    }
}

/// The property found for `key` starting at an array's inline string-keyed
/// map and continuing along its prototype chain.
pub open spec fn array_obj_lookup(h: Heap, a: ArrayValue, key: Seq<char>) -> Option<Property> {
    match pm_lookup(a.obj.entries@, key) {
        Some(p) => Some(p),
        None => match pm_lookup(a.obj.entries@, "__proto__"@) {
            Some(pp) => match prop_read(pp) {
                Value::Object(q) => proto_lookup(h, q as int, key, walk_fuel(h)),
                _ => None,
            },
            None => None,
        },
    }
}

/// What reading the `n`th argument of activation `co` yields.
pub open spec fn args_read(h: Heap, co: CallObject, n: int) -> PropOutcome {
    if 0 <= n < co.arguments@.len() {
        match co.arguments@[n].0 {
            Some(nm) => {
                if co.vals < h.props@.len() {
                    match pm_lookup(h.props@[co.vals as int].entries@, nm@) {
                        Some(p) => PropOutcome::Val(prop_read(p)),
                        None => PropOutcome::MissingLocal,
                    }
                } else {
                    PropOutcome::MissingLocal
                }
            },
            None => PropOutcome::Val(co.arguments@[n].1),
        }
    } else {
        PropOutcome::Val(Value::Undefined)
    }
}

/// What reading member `member` of `parent` yields, with `co` the current
/// activation for the arguments marker.
pub open spec fn member_read(h: Heap, parent: Value, member: Value, co: CallObject) -> PropOutcome {
    match parent {
        Value::Str(s) => match member {
            Value::Number(Number::Int(n)) => if 0 <= n < s@.len() {
                PropOutcome::Chr(s@[n as int])
            } else {
                PropOutcome::Val(Value::Undefined)
            },
            _ => if member_key(member) == "length"@ {
                PropOutcome::Val(Value::Number(Number::Int(utf16_len(s@) as i64)))
            } else {
                PropOutcome::Val(Value::Undefined)
            },
        },
        Value::Object(hd) => walk_outcome(
            proto_lookup(h, hd as int, member_key(member), walk_fuel(h)),
            parent,
        ),
        Value::Function(fh) => if fh < h.funcs@.len() {
            walk_outcome(
                proto_lookup(h, h.funcs@[fh as int].obj as int, member_key(member), walk_fuel(h)),
                parent,
            )
        } else {
            PropOutcome::Val(Value::Undefined)
        },
        Value::Array(ah) => {
            if ah < h.arrays@.len() {
                let a = h.arrays@[ah as int];
                match member {
                    Value::Number(Number::Int(n)) => if 0 <= n {
                        if n < a.length {
                            PropOutcome::Val(prop_read(a.elems@[n as int]))
                        } else {
                            PropOutcome::Val(Value::Undefined)
                        }
                    } else {
                        walk_outcome(array_obj_lookup(h, a, member_key(member)), parent)
                    },
                    _ => if member_key(member) == "length"@ {
                        PropOutcome::Val(Value::Number(Number::Int(a.length as i64)))
                    } else {
                        walk_outcome(array_obj_lookup(h, a, member_key(member)), parent)
                    },
                }
            } else {
                PropOutcome::Val(Value::Undefined)
            }
        },
        Value::Arguments => match member {
            Value::Number(Number::Int(n)) => if 0 <= n {
                args_read(h, co, (n as usize) as int)
            } else {
                PropOutcome::Val(Value::Undefined)
            },
            _ => if member_key(member) == "length"@ {
                PropOutcome::Val(
                    Value::Number(Number::Int(co.arguments@.len() as i64)),
                )
            } else {
                PropOutcome::Val(Value::Undefined)
            },
        },
        _ => PropOutcome::KindErr,
    }
}

/// The property the prototype-chain walk finds, or `Undefined` when the
/// chain ends without one. The walk is bounded by [`walk_fuel`], so a
/// cyclic `__proto__` chain reads as `Undefined` instead of hanging.
pub fn obj_find_val(heap: &Heap, obj: usize, key: &String) -> (r: Value)
    requires
        heap_ok(*heap),
        obj < heap.props@.len(),
    ensures
        r == match proto_lookup(*heap, obj as int, key@, walk_fuel(*heap)) {
            Some(p) => prop_read(p),
            None => Value::Undefined,
        },
        value_ok(*heap, r),
{
    let proto_key = String::from_str("__proto__");
    let mut cur: usize = obj;
    let mut fuel: u128 = (heap.props.len() as u128) + 1;
    loop
        invariant
            heap_ok(*heap),
            cur < heap.props@.len(),
            proto_key@ == "__proto__"@,
            proto_lookup(*heap, obj as int, key@, walk_fuel(*heap)) == proto_lookup(
                *heap,
                cur as int,
                key@,
                fuel as nat,
            ),
        decreases fuel,
    {
        if fuel == 0 {
            return Value::Undefined;
        }
        proof {
            assert(crate::heap::pm_ok(*heap, heap.props@[cur as int]));
            crate::heap::lemma_pm_lookup_prop_ok(*heap, heap.props@[cur as int].entries@, key@);
            crate::heap::lemma_pm_lookup_prop_ok(
                *heap,
                heap.props@[cur as int].entries@,
                "__proto__"@,
            );
        }
        match heap.prop_lookup(cur, key) {
            Some(p) => {
                return p.read();
            },
            None => {
                match heap.prop_lookup(cur, &proto_key) {
                    Some(pp) => {
                        match pp.read() {
                            Value::Object(q) => {
                                cur = q;
                                fuel = fuel - 1;
                            },
                            _ => {
                                return Value::Undefined;
                            },
                        }
                    },
                    None => {
                        return Value::Undefined;
                    },
                }
            },
        }
    }
}

/// Reads member `member` of `parent`, with the activation `co` resolving
/// the arguments marker. A function found in a property map is returned as
/// a fresh copy bound to `parent` as its receiver. Member access on a
/// primitive is a type error; an arguments slot whose parameter lost its
/// binding is an internal error.
pub fn get_property(heap: &mut Heap, parent: &Value, member: &Value, co: usize) -> (r: Result<
    Value,
    RuntimeError,
>)
    requires
        heap_ok(*old(heap)),
        value_ok(*old(heap), *parent),
        value_ok(*old(heap), *member),
        co < old(heap).callobjs@.len(),
    ensures
        heap_ok(*final(heap)),
        crate::heap::heap_le(*old(heap), *final(heap)),
        final(heap).props@ == old(heap).props@,
        final(heap).arrays@ == old(heap).arrays@,
        final(heap).callobjs@ == old(heap).callobjs@,
        forall|i: int|
            0 <= i < old(heap).funcs@.len() ==> #[trigger] final(heap).funcs@[i] == old(heap).funcs@[i],
        r matches Ok(rv) ==> value_ok(*final(heap), rv),
        match member_read(*old(heap), *parent, *member, old(heap).callobjs@[co as int]) {
            PropOutcome::Val(v) => r matches Ok(rv) && rv == v && final(heap).funcs@ == old(heap).funcs@,
            PropOutcome::Chr(c) => r matches Ok(rv) && (rv matches Value::Str(s) && s@ == seq![c])
                && final(heap).funcs@ == old(heap).funcs@,
            PropOutcome::Method(fh, recv) => {
                &&& r matches Ok(rv) && rv == Value::Function(old(heap).funcs@.len() as usize)
                &&& final(heap).funcs@.len() == old(heap).funcs@.len() + 1
                &&& crate::heap::func_like_with_this(
                    old(heap).funcs@[fh],
                    final(heap).funcs@[old(heap).funcs@.len() as int],
                    recv,
                )
            },
            PropOutcome::KindErr => r matches Err(e) && e matches RuntimeError::Type(_) && final(heap).funcs@ == old(heap).funcs@,
            PropOutcome::MissingLocal => r matches Err(e) && (e matches RuntimeError::General(_))
                && final(heap).funcs@ == old(heap).funcs@,
        },
{
    let length_key = String::from_str("length");
    match parent {
        Value::Str(s) => {
            match member {
                Value::Number(Number::Int(n)) => {
                    let len = s.as_str().unicode_len();
                    if 0 <= *n && (*n as u64) < (len as u64) {
                        let c = s.as_str().get_char(*n as usize);
                        Ok(Value::Str(char_to_string(c)))
                    } else {
                        Ok(Value::Undefined)
                    }
                },
                _ => {
                    let key = member.clone().to_string();
                    if key.eq(&length_key) {
                        let l = crate::value::utf16_length(s.as_str());
                        Ok(Value::Number(Number::Int(l as i64)))
                    } else {
                        Ok(Value::Undefined)
                    }
                },
            }
        },
        Value::Object(hd) => {
            let key = member.clone().to_string();
            let found = obj_find_val(heap, *hd, &key);
            bind_if_method(heap, found, parent)
        },
        Value::Function(fh) => {
            let obj = heap.funcs[*fh].obj;
            let key = member.clone().to_string();
            let found = obj_find_val(heap, obj, &key);
            bind_if_method(heap, found, parent)
        },
        Value::Array(ah) => {
            match member {
                Value::Number(Number::Int(n)) => {
                    if 0 <= *n {
                        let len = heap.array_length(*ah);
                        if (*n as u64) < (len as u64) {
                            proof {
                                assert(crate::heap::array_ok(*heap, heap.arrays@[*ah as int]));
                                assert(crate::heap::prop_ok(
                                    *heap,
                                    heap.arrays@[*ah as int].elems@[*n as int],
                                ));
                            }
                            match heap.array_get(*ah, *n as usize) {
                                Some(v) => Ok(v),
                                None => Ok(Value::Undefined),
                            }
                        } else {
                            proof {
                                assert(*n >= heap.arrays@[*ah as int].length);
                            }
                            Ok(Value::Undefined)
                        }
                    } else {
                        let key = member.clone().to_string();
                        let found = array_find_val(heap, *ah, &key);
                        bind_if_method(heap, found, parent)
                    }
                },
                _ => {
                    let key = member.clone().to_string();
                    if key.eq(&length_key) {
                        let len = heap.array_length(*ah);
                        Ok(Value::Number(Number::Int(len as i64)))
                    } else {
                        let found = array_find_val(heap, *ah, &key);
                        bind_if_method(heap, found, parent)
                    }
                },
            }
        },
        Value::Arguments => {
            match member {
                Value::Number(Number::Int(n)) => {
                    if 0 <= *n {
                        #[verifier::truncate]
                        let nn = *n as usize;
                        proof {
                            assert(crate::heap::callobj_ok(*heap, heap.callobjs@[co as int]));
                            let c = heap.callobjs@[co as int];
                            if 0 <= nn < c.arguments@.len() {
                                assert(value_ok(*heap, c.arguments@[nn as int].1));
                                match c.arguments@[nn as int].0 {
                                    Some(nm) => {
                                        assert(crate::heap::pm_ok(
                                            *heap,
                                            heap.props@[c.vals as int],
                                        ));
                                        crate::heap::lemma_pm_lookup_prop_ok(
                                            *heap,
                                            heap.props@[c.vals as int].entries@,
                                            nm@,
                                        );
                                    },
                                    None => {},
                                }
                            }
                        }
                        heap.callobjs[co].get_arguments_nth_value(heap, nn)
                    } else {
                        Ok(Value::Undefined)
                    }
                },
                _ => {
                    let key = member.clone().to_string();
                    if key.eq(&length_key) {
                        let l = heap.callobjs[co].get_arguments_length();
                        Ok(Value::Number(Number::Int(l as i64)))
                    } else {
                        Ok(Value::Undefined)
                    }
                },
            }
        },
        _ => Err(RuntimeError::Type(String::from_str("member access on a primitive"))),
    }
}


/// The effect of an indexed array write `a[n] = v` between two heaps: the
/// dense part grows to cover `n` with `Empty` padding, the length becomes at
/// least `n + 1`, and every other element and the string-keyed map stay.
pub open spec fn indexed_write_effect(h0: Heap, h1: Heap, ah: int, n: int, v: Value) -> bool {
    let a0 = h0.arrays@[ah];
    let a1 = h1.arrays@[ah];
    &&& a1.length == if n < a0.length {
        a0.length as int
    } else {
        n + 1
    }
    &&& a1.elems@.len() == a1.length
    &&& a1.length >= n + 1
    &&& a1.elems@[n] == data_prop(v)
    &&& (forall|j: int| 0 <= j < a0.length && j != n ==> #[trigger] a1.elems@[j] == a0.elems@[j])
    &&& (forall|j: int|
        a0.length <= j < a1.length && j != n ==> #[trigger] a1.elems@[j] == data_prop(
            Value::Empty,
        ))
    &&& a1.obj == a0.obj
}

/// The effect of an array length write `a.length = n` between two heaps:
/// the dense part is truncated or padded with `Empty` to exactly `n`.
pub open spec fn length_write_effect(h0: Heap, h1: Heap, ah: int, n: int) -> bool {
    let a0 = h0.arrays@[ah];
    let a1 = h1.arrays@[ah];
    &&& a1.length == n
    &&& a1.elems@.len() == n
    &&& (forall|j: int| 0 <= j < n && j < a0.length ==> #[trigger] a1.elems@[j] == a0.elems@[j])
    &&& (forall|j: int| a0.length <= j < n ==> #[trigger] a1.elems@[j] == data_prop(Value::Empty))
    &&& a1.obj == a0.obj
}

/// Where a member write lands.
pub enum PropWrite {
    /// Insert under this key into this property map.
    MapInsert(int, Seq<char>),
    /// Write this dense index of this array.
    ArrIdx(int, int),
    /// Resize this array to this length.
    ArrLen(int, int),
    /// Insert under this key into this array's string-keyed map.
    ArrKey(int, Seq<char>),
    /// Write through an aliased argument slot to this parameter binding of
    /// the current activation.
    ArgLocal(Seq<char>),
    /// Write this unaliased argument slot of the current activation.
    ArgSlot(int),
    /// The write is silently dropped.
    NoEffect,
}

/// Whether `s` is the canonical decimal form of the unsigned 32-bit number
/// it parses to, which makes a string member an array index.
pub open spec fn canonical_index(s: Seq<char>) -> bool {
    num_str(Number::Int(crate::number::to_u32_spec(crate::number::parse_num(s)) as i64)) == s
}

/// Where writing member `member` of `parent` with `val` lands, with `co`
/// the current activation for the arguments marker. Writes to primitives
/// are dropped.
pub open spec fn member_write(
    h: Heap,
    parent: Value,
    member: Value,
    val: Value,
    co: CallObject,
) -> PropWrite {
    match parent {
        Value::Object(hd) => PropWrite::MapInsert(hd as int, member_key(member)),
        Value::Function(fh) => if fh < h.funcs@.len() {
            PropWrite::MapInsert(h.funcs@[fh as int].obj as int, member_key(member))
        } else {
            PropWrite::NoEffect
        },
        Value::Array(ah) => if ah < h.arrays@.len() {
            match member {
                Value::Number(Number::Int(n)) => if 0 <= n {
                    if (n as usize) < usize::MAX {
                        PropWrite::ArrIdx(ah as int, (n as usize) as int)
                    } else {
                        PropWrite::NoEffect
                    }
                } else {
                    PropWrite::ArrKey(ah as int, member_key(member))
                },
                Value::Str(s) => if s@ == "length"@ {
                    match val {
                        Value::Number(Number::Int(m)) => if 0 <= m {
                            PropWrite::ArrLen(ah as int, (m as usize) as int)
                        } else {
                            PropWrite::NoEffect
                        },
                        _ => PropWrite::NoEffect,
                    }
                } else if canonical_index(s@) {
                    if (crate::number::to_u32_spec(crate::number::parse_num(s@)) as usize)
                        < usize::MAX {
                        PropWrite::ArrIdx(
                            ah as int,
                            crate::number::to_u32_spec(crate::number::parse_num(s@)) as int,
                        )
                    } else {
                        PropWrite::NoEffect
                    }
                } else {
                    PropWrite::ArrKey(ah as int, s@)
                },
                _ => PropWrite::ArrKey(ah as int, member_key(member)),
            }
        } else {
            PropWrite::NoEffect
        },
        Value::Arguments => match member {
            Value::Number(Number::Int(n)) => if 0 <= n && ((n as usize) as int)
                < co.arguments@.len() {
                match co.arguments@[(n as usize) as int].0 {
                    Some(nm) => PropWrite::ArgLocal(nm@),
                    None => PropWrite::ArgSlot((n as usize) as int),
                }
            } else {
                PropWrite::NoEffect
            },
            _ => PropWrite::NoEffect,
        },
        _ => PropWrite::NoEffect,
    }
}

/// Writes member `member` of `parent` with `val`; `co` is the current
/// activation for the arguments marker. See [`member_write`] for where the
/// write lands; writes to primitives are dropped, as the interpreter's
/// write instruction does not fault.
pub fn set_property(heap: &mut Heap, parent: &Value, member: &Value, val: Value, co: usize)
    requires
        heap_ok(*old(heap)),
        value_ok(*old(heap), *parent),
        value_ok(*old(heap), *member),
        value_ok(*old(heap), val),
        co < old(heap).callobjs@.len(),
    ensures
        heap_ok(*final(heap)),
        final(heap).props@.len() == old(heap).props@.len(),
        final(heap).arrays@.len() == old(heap).arrays@.len(),
        final(heap).funcs@ == old(heap).funcs@,
        final(heap).callobjs@.len() == old(heap).callobjs@.len(),
        match member_write(*old(heap), *parent, *member, val, old(heap).callobjs@[co as int]) {
            PropWrite::MapInsert(hd, k) => {
                &&& final(heap).arrays@ == old(heap).arrays@
                &&& final(heap).callobjs@ == old(heap).callobjs@
                &&& (forall|i: int|
                    0 <= i < old(heap).props@.len() && i != hd ==> #[trigger] final(heap).props@[i] == old(heap).props@[i])
                &&& (forall|k2: Seq<char>|
                    #[trigger] pm_lookup(final(heap).props@[hd].entries@, k2) == if k2 == k {
                        Some(data_prop(val))
                    } else {
                        pm_lookup(old(heap).props@[hd].entries@, k2)
                    })
            },
            PropWrite::ArrIdx(ah, n) => {
                &&& final(heap).props@ == old(heap).props@
                &&& final(heap).callobjs@ == old(heap).callobjs@
                &&& (forall|i: int|
                    0 <= i < old(heap).arrays@.len() && i != ah ==> #[trigger] final(heap).arrays@[i] == old(heap).arrays@[i])
                &&& indexed_write_effect(*old(heap), *final(heap), ah, n, val)
            },
            PropWrite::ArrLen(ah, n) => {
                &&& final(heap).props@ == old(heap).props@
                &&& final(heap).callobjs@ == old(heap).callobjs@
                &&& (forall|i: int|
                    0 <= i < old(heap).arrays@.len() && i != ah ==> #[trigger] final(heap).arrays@[i] == old(heap).arrays@[i])
                &&& length_write_effect(*old(heap), *final(heap), ah, n)
            },
            PropWrite::ArrKey(ah, k) => {
                &&& final(heap).props@ == old(heap).props@
                &&& final(heap).callobjs@ == old(heap).callobjs@
                &&& (forall|i: int|
                    0 <= i < old(heap).arrays@.len() && i != ah ==> #[trigger] final(heap).arrays@[i] == old(heap).arrays@[i])
                &&& ({
                    let a0 = old(heap).arrays@[ah];
                    let a1 = final(heap).arrays@[ah];
                    &&& a1.length == a0.length
                    &&& a1.elems@ == a0.elems@
                    &&& (forall|k2: Seq<char>|
                        #[trigger] pm_lookup(a1.obj.entries@, k2) == if k2 == k {
                            Some(data_prop(val))
                        } else {
                            pm_lookup(a0.obj.entries@, k2)
                        })
                })
            },
            PropWrite::ArgLocal(nm) => {
                &&& final(heap).arrays@ == old(heap).arrays@
                &&& final(heap).callobjs@ == old(heap).callobjs@
                &&& ({
                    let tv = old(heap).callobjs@[co as int].vals;
                    &&& (forall|i: int|
                        0 <= i < old(heap).props@.len() && i != tv ==> #[trigger] final(heap).props@[i] == old(heap).props@[i])
                    &&& (forall|k2: Seq<char>|
                        #[trigger] pm_lookup(final(heap).props@[tv as int].entries@, k2) == if k2
                            == nm {
                            Some(data_prop(val))
                        } else {
                            pm_lookup(old(heap).props@[tv as int].entries@, k2)
                        })
                })
            },
            PropWrite::ArgSlot(n) => {
                &&& final(heap).props@ == old(heap).props@
                &&& final(heap).arrays@ == old(heap).arrays@
                &&& (forall|i: int|
                    0 <= i < old(heap).callobjs@.len() && i != co ==> #[trigger] final(heap).callobjs@[i] == old(heap).callobjs@[i])
                &&& ({
                    let c0 = old(heap).callobjs@[co as int];
                    let c1 = final(heap).callobjs@[co as int];
                    &&& c1.vals == c0.vals
                    &&& c1.this == c0.this
                    &&& c1.parent == c0.parent
                    &&& c1.rest_params == c0.rest_params
                    &&& c1.arguments@ == c0.arguments@.update(n, (None::<String>, val))
                })
            },
            PropWrite::NoEffect => *final(heap) == *old(heap),
        },
{
    let length_key = String::from_str("length");
    match parent {
        Value::Object(hd) => {
            let key = member.clone().to_string();
            heap.prop_insert(*hd, key, Property::new(val));
        },
        Value::Function(fh) => {
            let obj = heap.funcs[*fh].obj;
            let key = member.clone().to_string();
            heap.prop_insert(obj, key, Property::new(val));
        },
        Value::Array(ah) => {
            match member {
                Value::Number(Number::Int(n)) => {
                    if 0 <= *n {
                        #[verifier::truncate]
                        let nn = *n as usize;
                        if nn < usize::MAX {
                            heap.array_set_index(*ah, nn, val);
                        }
                    } else {
                        let key = member.clone().to_string();
                        heap.array_prop_insert(*ah, key, Property::new(val));
                    }
                },
                Value::Str(s) => {
                    if s.eq(&length_key) {
                        match &val {
                            Value::Number(Number::Int(m)) => {
                                if 0 <= *m {
                                    #[verifier::truncate]
                                    let mm = *m as usize;
                                    heap.array_set_length(*ah, mm);
                                }
                            },
                            _ => {},
                        }
                    } else {
                        let parsed = crate::number::str_to_number(s.as_str());
                        let n32 = parsed.to_u32();
                        let canon = crate::number::num_to_string(Number::Int(n32 as i64));
                        if canon.eq(s) {
                            let nn = n32 as usize;
                            if nn < usize::MAX {
                                heap.array_set_index(*ah, nn, val);
                            }
                        } else {
                            heap.array_prop_insert(*ah, s.clone(), Property::new(val));
                        }
                    }
                },
                _ => {
                    let key = member.clone().to_string();
                    heap.array_prop_insert(*ah, key, Property::new(val));
                },
            }
        },
        Value::Arguments => {
            match member {
                Value::Number(Number::Int(n)) => {
                    if 0 <= *n {
                        #[verifier::truncate]
                        let nn = *n as usize;
                        proof {
                            assert(crate::heap::callobj_ok(*heap, heap.callobjs@[co as int]));
                        }
                        if nn < heap.callobjs[co].arguments.len() {
                            let slot_name = match &heap.callobjs[co].arguments[nn].0 {
                                Some(nm) => Some(nm.clone()),
                                None => None,
                            };
                            match slot_name {
                                Some(nm) => {
                                    let tv = heap.callobjs[co].vals;
                                    heap.prop_insert(tv, nm, Property::new(val));
                                },
                                None => {
                                    heap.co_arg_slot_set(co, nn, val);
                                },
                            }
                        }
                    }
                },
                _ => {},
            }
        },
        _ => {},
    }
}


/// Law: after an indexed array write `a[k] = v` with integer `k >= 0`, the
/// array's length is at least `k + 1` and reading `a[k]` yields `v` again.
pub proof fn lemma_indexed_write_then_read(
    h0: Heap,
    h1: Heap,
    ah: usize,
    k: int,
    v: Value,
    co: CallObject,
)
    requires
        0 <= ah < h1.arrays@.len(),
        ah < h0.arrays@.len(),
        0 <= k <= i64::MAX,
        indexed_write_effect(h0, h1, ah as int, k, v),
    ensures
        h1.arrays@[ah as int].length >= k + 1,
        member_read(h1, Value::Array(ah), Value::Number(Number::Int(k as i64)), co)
            == PropOutcome::Val(v),
{
    assert(k as i64 as int == k);
}

/// Law: after an array length write `a.length = n` with integer `n >= 0`,
/// reading `a[m]` for any `m >= n` yields `Undefined`.
pub proof fn lemma_length_write_then_read(
    h0: Heap,
    h1: Heap,
    ah: usize,
    n: int,
    m: int,
    co: CallObject,
)
    requires
        0 <= ah < h1.arrays@.len(),
        ah < h0.arrays@.len(),
        0 <= n <= m <= i64::MAX,
        length_write_effect(h0, h1, ah as int, n),
    ensures
        member_read(h1, Value::Array(ah), Value::Number(Number::Int(m as i64)), co)
            == PropOutcome::Val(Value::Undefined),
{
    assert(m as i64 as int == m);
}

/// Law: prototype lookup. When `b.__proto__` is the object `a`, `b` has no
/// own binding of `x`, and `a` binds `x` to the data value `v`, then the
/// prototype-chain walk from `b` finds `v`; a member read of `x` on `b`
/// yields `v` itself whenever `v` is not a function (a function is returned
/// bound to `b` as its receiver).
pub proof fn lemma_prototype_lookup(
    h: Heap,
    b: usize,
    a: usize,
    x: Seq<char>,
    v: Value,
    member: Value,
    co: CallObject,
)
    requires
        heap_ok(h),
        b < h.props@.len(),
        a < h.props@.len(),
        pm_lookup(h.props@[b as int].entries@, x) is None,
        crate::heap::pm_read(h.props@[b as int].entries@, "__proto__"@) == Value::Object(a),
        pm_lookup(h.props@[a as int].entries@, x) == Some(data_prop(v)),
        member_key(member) == x,
    ensures
        proto_lookup(h, b as int, x, walk_fuel(h)) == Some(data_prop(v)),
        !(v matches Value::Function(_)) ==> member_read(h, Value::Object(b), member, co)
            == PropOutcome::Val(v),
{
    let fuel = walk_fuel(h);
    assert(pm_lookup(h.props@[b as int].entries@, "__proto__"@) is Some);
    assert(x != "__proto__"@);
    assert(h.props@.len() >= 1);
    assert(fuel >= 2);
    assert(proto_lookup(h, b as int, x, fuel) == proto_lookup(h, a as int, x, (fuel - 1) as nat));
    assert(proto_lookup(h, a as int, x, (fuel - 1) as nat) == Some(data_prop(v)));
}

/// The walk over an array's string-keyed map and onward along its
/// prototype chain; `Undefined` when nothing is found.
fn array_find_val(heap: &Heap, ah: usize, key: &String) -> (r: Value)
    requires
        heap_ok(*heap),
        ah < heap.arrays@.len(),
    ensures
        r == match array_obj_lookup(*heap, heap.arrays@[ah as int], key@) {
            Some(p) => prop_read(p),
            None => Value::Undefined,
        },
        value_ok(*heap, r),
{
    let proto_key = String::from_str("__proto__");
    proof {
        assert(crate::heap::array_ok(*heap, heap.arrays@[ah as int]));
        crate::heap::lemma_pm_lookup_prop_ok(
            *heap,
            heap.arrays@[ah as int].obj.entries@,
            key@,
        );
        crate::heap::lemma_pm_lookup_prop_ok(
            *heap,
            heap.arrays@[ah as int].obj.entries@,
            "__proto__"@,
        );
    }
    match self_array_get(heap, ah, key) {
        Some(p) => p.read(),
        None => {
            match self_array_get(heap, ah, &proto_key) {
                Some(pp) => {
                    match pp.read() {
                        Value::Object(q) => obj_find_val(heap, q, key),
                        _ => Value::Undefined,
                    }
                },
                None => Value::Undefined,
            }
        },
    }
}

/// A lookup in an array's inline string-keyed map.
fn self_array_get(heap: &Heap, ah: usize, key: &String) -> (r: Option<Property>)
    requires
        ah < heap.arrays@.len(),
    ensures
        r == pm_lookup(heap.arrays@[ah as int].obj.entries@, key@),
{
    heap.arrays[ah].obj.get(key)
}

/// Turns a value a map walk found into the read's result: a function is
/// copied and bound to `receiver`, anything else passes through.
fn bind_if_method(heap: &mut Heap, found: Value, receiver: &Value) -> (r: Result<
    Value,
    RuntimeError,
>)
    requires
        heap_ok(*old(heap)),
        value_ok(*old(heap), found),
        value_ok(*old(heap), *receiver),
    ensures
        heap_ok(*final(heap)),
        crate::heap::heap_le(*old(heap), *final(heap)),
        final(heap).props@ == old(heap).props@,
        final(heap).arrays@ == old(heap).arrays@,
        final(heap).callobjs@ == old(heap).callobjs@,
        forall|i: int|
            0 <= i < old(heap).funcs@.len() ==> #[trigger] final(heap).funcs@[i] == old(heap).funcs@[i],
        r matches Ok(rv) ==> value_ok(*final(heap), rv),
        match found {
            Value::Function(fh) => {
                &&& r matches Ok(rv) && rv == Value::Function(old(heap).funcs@.len() as usize)
                &&& final(heap).funcs@.len() == old(heap).funcs@.len() + 1
                &&& crate::heap::func_like_with_this(
                    old(heap).funcs@[fh as int],
                    final(heap).funcs@[old(heap).funcs@.len() as int],
                    *receiver,
                )
            },
            _ => r matches Ok(rv) && rv == found && final(heap).funcs@ == old(heap).funcs@,
        },
{
    match found {
        Value::Function(fh) => {
            let h2 = heap.copy_func_with_this(fh, receiver.clone());
            Ok(Value::Function(h2))
        },
        v => Ok(v),
    }
}

} // verus!
