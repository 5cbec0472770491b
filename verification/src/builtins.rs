//! Built-in functions installed by the machine.
//!
//! A built-in function value carries one of these identifiers; the call
//! instruction dispatches on it. Printing built-ins append a line or a piece
//! of text to the machine's output buffer — the host decides what to do with
//! the buffer — and every built-in leaves exactly one value on the operand
//! stack, `Undefined` when it has no meaningful return.

use vstd::prelude::*;

use crate::error::RuntimeError;
use crate::heap::{heap_ok, value_ok, Heap};
use crate::number::{num_str, Number};
use crate::value::{prop_read, to_number_spec, Property, Value};
use crate::vm::{vm_ok, VM};

verus! {

/// The identifier of a built-in function.
///
/// The set is closed: the call instruction dispatches over exactly these,
/// so a host cannot install further built-ins from outside the library —
/// a deliberate limitation of this core.
#[derive(Clone, Copy, Debug, PartialEq, Eq, Structural)]
pub enum BuiltinId {
    ConsoleLog,
    ProcessStdoutWrite,
    ArrayPush,
    FunctionProtoCall,
    MathFloor,
    MathAbs,
    MathPow,
    MathMin,
    MathMax,
}

/// The printer's key order: ascending byte-wise comparison of the keys'
/// encoded text, the order the host's console sorts properties into.
pub open spec fn key_lt_spec(a: Seq<char>, b: Seq<char>) -> bool {
    crate::binop::bytes_lt(vstd::utf8::encode_utf8(a), vstd::utf8::encode_utf8(b))
}

/// Places `e` into an already-sorted entry list: before the first entry
/// whose key is strictly greater, after entries with equal keys.
pub open spec fn insert_sorted(s: Seq<(String, Property)>, e: (String, Property)) -> Seq<
    (String, Property),
>
    decreases s.len(),
{
    if s.len() == 0 {
        seq![e]
    } else if key_lt_spec(e.0@, s[0].0@) {
        seq![e] + s
    } else {
        seq![s[0]] + insert_sorted(s.skip(1), e)
    }
}

/// The entries reordered into ascending key order, stably.
pub open spec fn sort_entries(s: Seq<(String, Property)>) -> Seq<(String, Property)>
    decreases s.len(),
{
    if s.len() == 0 {
        Seq::empty()
    } else {
        insert_sorted(sort_entries(s.drop_last()), s.last())
    }
}

proof fn lemma_insert_sorted_mem(h: Heap, s: Seq<(String, Property)>, e: (String, Property))
    requires
        forall|x: int| 0 <= x < s.len() ==> crate::heap::prop_ok(h, (#[trigger] s[x]).1),
        crate::heap::prop_ok(h, e.1),
    ensures
        insert_sorted(s, e).len() == s.len() + 1,
        forall|x: int|
            0 <= x < insert_sorted(s, e).len() ==> crate::heap::prop_ok(
                h,
                (#[trigger] insert_sorted(s, e)[x]).1,
            ),
    decreases s.len(),
{
    let u = insert_sorted(s, e);
    if s.len() == 0 {
        assert(u[0] == e);
    } else if key_lt_spec(e.0@, s[0].0@) {
        assert forall|x: int| 0 <= x < u.len() implies crate::heap::prop_ok(
            h,
            (#[trigger] u[x]).1,
        ) by {
            if x == 0 {
            } else {
                assert(u[x] == s[x - 1]);
            }
        }
    } else {
        assert(forall|x: int|
            0 <= x < s.skip(1).len() ==> crate::heap::prop_ok(h, (#[trigger] s.skip(1)[x]).1))
            by {
            assert(forall|x: int| 0 <= x < s.len() - 1 ==> s.skip(1)[x] == s[x + 1]);
        }
        lemma_insert_sorted_mem(h, s.skip(1), e);
        assert forall|x: int| 0 <= x < u.len() implies crate::heap::prop_ok(
            h,
            (#[trigger] u[x]).1,
        ) by {
            if x == 0 {
                assert(u[0] == s[0]);
            } else {
                assert(u[x] == insert_sorted(s.skip(1), e)[x - 1]);
            }
        }
    }
}

proof fn lemma_sort_entries_mem(h: Heap, s: Seq<(String, Property)>)
    requires
        forall|x: int| 0 <= x < s.len() ==> crate::heap::prop_ok(h, (#[trigger] s[x]).1),
    ensures
        sort_entries(s).len() == s.len(),
        forall|x: int|
            0 <= x < sort_entries(s).len() ==> crate::heap::prop_ok(
                h,
                (#[trigger] sort_entries(s)[x]).1,
            ),
    decreases s.len(),
{
    if s.len() > 0 {
        assert(forall|x: int|
            0 <= x < s.drop_last().len() ==> crate::heap::prop_ok(
                h,
                (#[trigger] s.drop_last()[x]).1,
            )) by {
            assert(forall|x: int| 0 <= x < s.len() - 1 ==> s.drop_last()[x] == s[x]);
        }
        lemma_sort_entries_mem(h, s.drop_last());
        lemma_insert_sorted_mem(h, sort_entries(s.drop_last()), s.last());
    }
}

proof fn lemma_insert_sorted_at(s: Seq<(String, Property)>, e: (String, Property), i: int)
    requires
        0 <= i <= s.len(),
        forall|j: int| 0 <= j < i ==> !key_lt_spec(e.0@, (#[trigger] s[j]).0@),
        i == s.len() || key_lt_spec(e.0@, s[i as int].0@),
    ensures
        insert_sorted(s, e) == s.take(i) + seq![e] + s.skip(i),
    decreases i,
{
    if i == 0 {
        if s.len() == 0 {
            assert(insert_sorted(s, e) =~= s.take(0) + seq![e] + s.skip(0));
        } else {
            assert(key_lt_spec(e.0@, s[0].0@));
            assert(insert_sorted(s, e) =~= s.take(0) + seq![e] + s.skip(0));
        }
    } else {
        assert(!key_lt_spec(e.0@, s[0].0@));
        assert(forall|j: int|
            0 <= j < i - 1 ==> !key_lt_spec(e.0@, (#[trigger] s.skip(1)[j]).0@)) by {
            assert(forall|j: int| 0 <= j < s.len() - 1 ==> s.skip(1)[j] == s[j + 1]);
        }
        if i < s.len() {
            assert(s.skip(1)[i - 1] == s[i as int]);
        }
        lemma_insert_sorted_at(s.skip(1), e, i - 1);
        assert(insert_sorted(s, e) =~= s.take(i) + seq![e] + s.skip(i)) by {
            assert(insert_sorted(s, e) == seq![s[0]] + insert_sorted(s.skip(1), e));
            assert(insert_sorted(s.skip(1), e) == s.skip(1).take(i - 1) + seq![e] + s.skip(
                1,
            ).skip(i - 1));
            assert(s.skip(1).take(i - 1) =~= s.take(i).skip(1));
            assert(s.skip(1).skip(i - 1) =~= s.skip(i));
            assert(seq![s[0]] + (s.take(i).skip(1) + seq![e] + s.skip(i)) =~= s.take(i) + seq![
                e,
            ] + s.skip(i));
        }
    }
}

/// Clones the entries into ascending key order.
fn sorted_clone(entries: &Vec<(String, Property)>) -> (r: Vec<(String, Property)>)
    ensures
        r@ == sort_entries(entries@),
{
    let n = entries.len();
    let mut acc: Vec<(String, Property)> = Vec::new();
    let mut k: usize = 0;
    while k < n
        invariant
            k <= n,
            n == entries@.len(),
            acc@ == sort_entries(entries@.take(k as int)),
        decreases n - k,
    {
        let e = (entries[k].0.clone(), entries[k].1.clone());
        let ghost ge = e;
        proof {
            assert(ge == entries@[k as int]);
        }
        let mut i: usize = 0;
        while i < acc.len() && !crate::binop::str_bytes_lt(e.0.as_str(), acc[i].0.as_str())
            invariant
                i <= acc@.len(),
                ge == e,
                forall|j: int| 0 <= j < i ==> !key_lt_spec(ge.0@, (#[trigger] acc@[j]).0@),
            decreases acc@.len() - i,
        {
            i = i + 1;
        }
        let ghost acc0 = acc@;
        acc.insert(i, e);
        proof {
            lemma_insert_sorted_at(acc0, ge, i as int);
            assert(acc@ =~= acc0.take(i as int) + seq![ge] + acc0.skip(i as int));
            assert(acc@ == insert_sorted(acc0, ge));
            assert(entries@.take(k + 1).drop_last() =~= entries@.take(k as int));
            assert(entries@.take(k + 1).last() == entries@[k as int]);
        }
        k = k + 1;
    }
    proof {
        assert(entries@.take(n as int) =~= entries@);
    }
    acc
}

/// The text the debug printer renders `v` as, to nesting depth `fuel`.
/// Strings are quoted only when nested inside an object or array; a named
/// function shows its name; an array shows its dense elements — a run of
/// `Empty` slots collapsed into an empty-items count — followed by its
/// string-keyed properties; string-keyed properties list in ascending key
/// order; a value deeper than `fuel` renders as an ellipsis, which also
/// ends rendering of a cyclic structure.
pub open spec fn debug_text(h: Heap, v: Value, fuel: nat, nest: bool) -> Seq<char>
    decreases fuel, 0int, 0int,
{
    match v {
        Value::Empty => "empty"@,
        Value::Undefined => "undefined"@,
        Value::Null => "null"@,
        Value::Bool(b) => if b {
            "true"@
        } else {
            "false"@
        },
        Value::Number(n) => num_str(n),
        Value::Str(s) => if nest {
            seq!['\''] + s@ + seq!['\'']
        } else {
            s@
        },
        Value::Object(hd) => if fuel == 0 || hd >= h.props@.len() {
            "..."@
        } else {
            "{ "@ + debug_entries(
                h,
                sort_entries(h.props@[hd as int].entries@),
                0,
                (fuel - 1) as nat,
            ) + " }"@
        },
        Value::Array(ah) => if fuel == 0 || ah >= h.arrays@.len() {
            "..."@
        } else {
            let a = h.arrays@[ah as int];
            "[ "@ + debug_elems(h, a.elems@, 0, (fuel - 1) as nat) + (if a.elems@.len() > 0
                && a.obj.entries@.len() > 0 {
                ", "@
            } else {
                Seq::empty()
            }) + debug_entries(h, sort_entries(a.obj.entries@), 0, (fuel - 1) as nat) + " ]"@
        },
        Value::Function(fh) => if fh < h.funcs@.len() && h.funcs@[fh as int].name is Some {
            "[Function: "@ + h.funcs@[fh as int].name.unwrap()@ + "]"@
        } else {
            "[Function]"@
        },
        Value::Symbol(_) => "Symbol()"@,
        Value::Arguments => "[Arguments]"@,
    }
}

/// Whether an array slot holds the unwritten-slot sentinel.
pub open spec fn slot_is_empty(p: Property) -> bool {
    prop_read(p) == Value::Empty
}

/// The length of the run of `Empty` slots starting at `i`.
pub open spec fn empty_run(elems: Seq<Property>, i: int) -> int
    decreases elems.len() - i,
{
    if 0 <= i < elems.len() && slot_is_empty(elems[i]) {
        1 + empty_run(elems, i + 1)
    } else {
        0
    }
}

proof fn lemma_empty_run_bounds(elems: Seq<Property>, i: int)
    requires
        0 <= i <= elems.len(),
    ensures
        0 <= empty_run(elems, i) <= elems.len() - i,
    decreases elems.len() - i,
{
    if i < elems.len() && slot_is_empty(elems[i]) {
        lemma_empty_run_bounds(elems, i + 1);
    }
}

/// The empty-items marker for a run of `k` slots.
pub open spec fn empty_marker(k: int) -> Seq<char> {
    "<"@ + crate::number::dec_str(k as i64 as int) + " empty item"@ + (if k == 1 {
        Seq::empty()
    } else {
        "s"@
    }) + ">"@
}

/// The rendered property list of an object, from entry `i` on, separated
/// by commas: each entry as `'key': value`.
pub open spec fn debug_entries(h: Heap, entries: Seq<(String, Property)>, i: int, fuel: nat) -> Seq<
    char,
>
    decreases fuel, 1int, entries.len() - i,
{
    if i < 0 || i >= entries.len() {
        Seq::empty()
    } else {
        seq!['\''] + entries[i].0@ + "': "@ + debug_text(h, prop_read(entries[i].1), fuel, true) + (
        if i + 1 < entries.len() {
            ", "@ + debug_entries(h, entries, i + 1, fuel)
        } else {
            Seq::empty()
        })
    }
}

/// The rendered element list of an array, from element `i` on, separated
/// by commas; a run of `Empty` slots renders as one empty-items marker.
pub open spec fn debug_elems(h: Heap, elems: Seq<Property>, i: int, fuel: nat) -> Seq<char>
    decreases fuel, 1int, elems.len() - i,
    via debug_elems_decreases
{
    if i < 0 || i >= elems.len() {
        Seq::empty()
    } else if slot_is_empty(elems[i]) {
        let k = empty_run(elems, i);
        empty_marker(k) + (if i + k < elems.len() {
            ", "@ + debug_elems(h, elems, i + k, fuel)
        } else {
            Seq::empty()
        })
    } else {
        debug_text(h, prop_read(elems[i]), fuel, true) + (if i + 1 < elems.len() {
            ", "@ + debug_elems(h, elems, i + 1, fuel)
        } else {
            Seq::empty()
        })
    }
}

#[via_fn]
proof fn debug_elems_decreases(h: Heap, elems: Seq<Property>, i: int, fuel: nat) {
    if 0 <= i < elems.len() && slot_is_empty(elems[i]) {
        lemma_empty_run_bounds(elems, i);
        lemma_empty_run_bounds(elems, i + 1);
        assert(empty_run(elems, i) == 1 + empty_run(elems, i + 1));
    }
}

/// Renders `v` as the debug printer's text, to nesting depth `fuel`.
pub fn debug_string(heap: &Heap, v: &Value, fuel: u64, nest: bool) -> (r: String)
    requires
        heap_ok(*heap),
    ensures
        r@ == debug_text(*heap, *v, fuel as nat, nest),
    decreases fuel, 0int, 0int,
{
    match v {
        Value::Empty => String::from_str("empty"),
        Value::Undefined => String::from_str("undefined"),
        Value::Null => String::from_str("null"),
        Value::Bool(b) => if *b {
            String::from_str("true")
        } else {
            String::from_str("false")
        },
        Value::Number(n) => crate::number::num_to_string(*n),
        Value::Str(s) => if nest {
            let mut r = String::from_str("'");
            r.append(s.as_str());
            r.append("'");
            proof {
                reveal_strlit("'");
                assert(r@ =~= seq!['\''] + s@ + seq!['\'']);
            }
            r
        } else {
            s.clone()
        },
        Value::Object(hd) => {
            if fuel == 0 || *hd >= heap.props.len() {
                String::from_str("...")
            } else {
                let mut r = String::from_str("{ ");
                let sorted = sorted_clone(&heap.props[*hd].entries);
                proof {
                    assert(crate::heap::pm_ok(*heap, heap.props@[*hd as int]));
                    lemma_sort_entries_mem(*heap, heap.props@[*hd as int].entries@);
                }
                let inner = render_entry_list(heap, &sorted, 0, fuel - 1);
                r.append(inner.as_str());
                r.append(" }");
                proof {
                    assert(r@ =~= "{ "@ + debug_entries(
                        *heap,
                        sort_entries(heap.props@[*hd as int].entries@),
                        0,
                        (fuel - 1) as nat,
                    ) + " }"@);
                }
                r
            }
        },
        Value::Array(ah) => {
            if fuel == 0 || *ah >= heap.arrays.len() {
                String::from_str("...")
            } else {
                let mut r = String::from_str("[ ");
                let inner = debug_elems_string(heap, *ah, 0, fuel - 1);
                r.append(inner.as_str());
                if heap.arrays[*ah].elems.len() > 0 && heap.arrays[*ah].obj.entries.len() > 0 {
                    r.append(", ");
                }
                let sorted = sorted_clone(&heap.arrays[*ah].obj.entries);
                proof {
                    assert(crate::heap::array_ok(*heap, heap.arrays@[*ah as int]));
                    assert(crate::heap::pm_ok(*heap, heap.arrays@[*ah as int].obj));
                    lemma_sort_entries_mem(*heap, heap.arrays@[*ah as int].obj.entries@);
                }
                let props_part = render_entry_list(heap, &sorted, 0, fuel - 1);
                r.append(props_part.as_str());
                r.append(" ]");
                proof {
                    let a = heap.arrays@[*ah as int];
                    assert(r@ =~= "[ "@ + debug_elems(*heap, a.elems@, 0, (fuel - 1) as nat) + (
                    if a.elems@.len() > 0 && a.obj.entries@.len() > 0 {
                        ", "@
                    } else {
                        Seq::<char>::empty()
                    }) + debug_entries(*heap, sort_entries(a.obj.entries@), 0, (fuel - 1) as nat)
                        + " ]"@);
                }
                r
            }
        },
        Value::Function(fh) => {
            let named = if *fh < heap.funcs.len() {
                match &heap.funcs[*fh].name {
                    Some(nm) => Some(nm.clone()),
                    None => None,
                }
            } else {
                None
            };
            match named {
                Some(nm) => {
                    let mut r = String::from_str("[Function: ");
                    r.append(nm.as_str());
                    r.append("]");
                    proof {
                        assert(r@ =~= "[Function: "@ + heap.funcs@[*fh as int].name.unwrap()@
                            + "]"@);
                    }
                    r
                },
                None => String::from_str("[Function]"),
            }
        },
        Value::Symbol(_) => String::from_str("Symbol()"),
        Value::Arguments => String::from_str("[Arguments]"),
    }
}

/// Renders an entry list — already in its final order — from entry `i`
/// on.
fn render_entry_list(heap: &Heap, entries: &Vec<(String, Property)>, i: usize, fuel: u64) -> (r:
    String)
    requires
        heap_ok(*heap),
        forall|x: int|
            0 <= x < entries@.len() ==> crate::heap::prop_ok(*heap, (#[trigger] entries@[x]).1),
    ensures
        r@ == debug_entries(*heap, entries@, i as int, fuel as nat),
    decreases fuel, 1int, entries@.len() - i,
{
    let n = entries.len();
    if i >= n {
        String::new()
    } else {
        let mut r = String::from_str("'");
        let key = entries[i].0.clone();
        let p = entries[i].1.clone();
        r.append(key.as_str());
        r.append("': ");
        proof {
            assert(crate::heap::prop_ok(*heap, entries@[i as int].1));
            reveal_strlit("'");
        }
        let rendered = debug_string(heap, &p.read(), fuel, true);
        r.append(rendered.as_str());
        if i + 1 < n {
            r.append(", ");
            let rest = render_entry_list(heap, entries, i + 1, fuel);
            r.append(rest.as_str());
            proof {
                assert(r@ =~= debug_entries(*heap, entries@, i as int, fuel as nat));
            }
            r
        } else {
            proof {
                assert(r@ =~= debug_entries(*heap, entries@, i as int, fuel as nat));
            }
            r
        }
    }
}

/// Whether a slot holds the unwritten-slot sentinel.
fn is_empty_slot(p: &Property) -> (r: bool)
    ensures
        r == slot_is_empty(*p),
{
    match p {
        Property::Data { value: Value::Empty, .. } => true,
        _ => false,
    }
}

proof fn lemma_empty_run_exact(elems: Seq<Property>, i: int, k: int)
    requires
        0 <= i,
        0 <= k,
        i + k <= elems.len(),
        forall|x: int| i <= x < i + k ==> slot_is_empty(#[trigger] elems[x]),
        i + k == elems.len() || !slot_is_empty(elems[i + k]),
    ensures
        empty_run(elems, i) == k,
    decreases k,
{
    if k == 0 {
    } else {
        assert(slot_is_empty(elems[i]));
        lemma_empty_run_exact(elems, i + 1, k - 1);
    }
}

/// Builds the empty-items marker for a run of `k` slots.
fn empty_marker_string(k: usize) -> (r: String)
    ensures
        r@ == empty_marker(k as int),
{
    proof {
        reveal_strlit("<");
        reveal_strlit(" empty item");
        reveal_strlit("s");
        reveal_strlit(">");
    }
    let mut r = String::from_str("<");
    #[verifier::truncate]
    let ki = k as i64;
    let num = crate::number::num_to_string(Number::Int(ki));
    r.append(num.as_str());
    r.append(" empty item");
    if k != 1 {
        r.append("s");
    }
    r.append(">");
    proof {
        assert(r@ =~= empty_marker(k as int));
    }
    r
}

/// Renders the element list of the array with handle `ah`, from element
/// `i` on, collapsing runs of `Empty` slots.
fn debug_elems_string(heap: &Heap, ah: usize, i: usize, fuel: u64) -> (r: String)
    requires
        heap_ok(*heap),
        ah < heap.arrays@.len(),
    ensures
        r@ == debug_elems(*heap, heap.arrays@[ah as int].elems@, i as int, fuel as nat),
    decreases fuel, 1int, heap.arrays@[ah as int].elems@.len() - i,
{
    let n = heap.arrays[ah].elems.len();
    if i >= n {
        String::new()
    } else if is_empty_slot(&heap.arrays[ah].elems[i]) {
        // measure the run of consecutive Empty slots
        let mut k: usize = 1;
        while i + k < n && is_empty_slot(&heap.arrays[ah].elems[i + k])
            invariant
                ah < heap.arrays@.len(),
                n == heap.arrays@[ah as int].elems@.len(),
                i < n,
                1 <= k,
                i + k <= n,
                forall|x: int|
                    i <= x < i + k ==> slot_is_empty(
                        #[trigger] heap.arrays@[ah as int].elems@[x],
                    ),
            decreases n - i - k,
        {
            k = k + 1;
        }
        proof {
            lemma_empty_run_exact(heap.arrays@[ah as int].elems@, i as int, k as int);
        }
        let mut r = empty_marker_string(k);
        if i + k < n {
            r.append(", ");
            let rest = debug_elems_string(heap, ah, i + k, fuel);
            r.append(rest.as_str());
            proof {
                assert(r@ =~= debug_elems(
                    *heap,
                    heap.arrays@[ah as int].elems@,
                    i as int,
                    fuel as nat,
                ));
            }
            r
        } else {
            proof {
                assert(r@ =~= debug_elems(
                    *heap,
                    heap.arrays@[ah as int].elems@,
                    i as int,
                    fuel as nat,
                ));
            }
            r
        }
    } else {
        let p = heap.arrays[ah].elems[i].clone();
        proof {
            assert(crate::heap::array_ok(*heap, heap.arrays@[ah as int]));
            assert(crate::heap::prop_ok(*heap, heap.arrays@[ah as int].elems@[i as int]));
        }
        let mut r = debug_string(heap, &p.read(), fuel, true);
        if i + 1 < n {
            r.append(", ");
            let rest = debug_elems_string(heap, ah, i + 1, fuel);
            r.append(rest.as_str());
            proof {
                assert(r@ =~= debug_elems(
                    *heap,
                    heap.arrays@[ah as int].elems@,
                    i as int,
                    fuel as nat,
                ));
            }
            r
        } else {
            proof {
                assert(r@ =~= debug_elems(
                    *heap,
                    heap.arrays@[ah as int].elems@,
                    i as int,
                    fuel as nat,
                ));
            }
            r
        }
    }
}

/// Wrapping integer exponentiation: the product of `e` copies of `b`,
/// truncated into 64 bits at each step.
pub open spec fn pow_wrap(b: i64, e: nat) -> i64
    decreases e,
{
    if e == 0 {
        1
    } else {
        vstd::wrapping::i64_specs::wrapping_mul(pow_wrap(b, (e - 1) as nat), b)
    }
}

/// What the exponentiation built-in returns: `Nan` for a `Nan` operand or a
/// negative exponent, else the wrapping integer power.
pub open spec fn pow_spec(b: Number, e: Number) -> Number {
    match (b, e) {
        (Number::Int(bi), Number::Int(ei)) => if ei >= 0 {
            Number::Int(pow_wrap(bi, ei as nat))
        } else {
            Number::Nan
        },
        _ => Number::Nan,
    }
}

/// The exponentiation built-in's computation.
pub fn pow_num(b: Number, e: Number) -> (r: Number)
    ensures
        r == pow_spec(b, e),
{
    match (b, e) {
        (Number::Int(bi), Number::Int(ei)) => {
            if ei < 0 {
                Number::Nan
            } else {
                let mut acc: i64 = 1;
                let mut k: i64 = 0;
                while k < ei
                    invariant
                        0 <= k <= ei,
                        acc == pow_wrap(bi, k as nat),
                    decreases ei - k,
                {
                    acc = acc.wrapping_mul(bi);
                    k = k + 1;
                }
                Number::Int(acc)
            }
        },
        _ => Number::Nan,
    }
}

/// The nesting depth to which the printing built-ins render values.
pub const PRINT_DEPTH: u64 = 8;

/// The text the console built-in renders its arguments as, from argument
/// `i` on: each rendered unnested, separated by single spaces.
pub open spec fn console_join(h: Heap, args: Seq<Value>, i: int) -> Seq<char>
    decreases args.len() - i,
{
    if i < 0 || i >= args.len() {
        Seq::empty()
    } else {
        debug_text(h, args[i], PRINT_DEPTH as nat, false) + (if i + 1 < args.len() {
            " "@ + console_join(h, args, i + 1)
        } else {
            Seq::empty()
        })
    }
}

/// Renders the console line for `args`, from argument `i` on.
fn console_join_string(heap: &Heap, args: &Vec<Value>, i: usize) -> (r: String)
    requires
        heap_ok(*heap),
    ensures
        r@ == console_join(*heap, args@, i as int),
    decreases args@.len() - i,
{
    let n = args.len();
    if i >= n {
        String::new()
    } else {
        let mut r = debug_string(heap, &args[i], PRINT_DEPTH, false);
        if i + 1 < n {
            r.append(" ");
            let rest = console_join_string(heap, args, i + 1);
            r.append(rest.as_str());
            proof {
                assert(r@ =~= console_join(*heap, args@, i as int));
            }
            r
        } else {
            proof {
                assert(r@ =~= console_join(*heap, args@, i as int));
            }
            r
        }
    }
}

/// The console built-in: renders the arguments separated by spaces, appends
/// the line — newline included — to the machine's output buffer, and leaves
/// `Undefined` on the operand stack.
pub fn console_log(vm: &mut VM, args: &Vec<Value>) -> (r: Result<(), RuntimeError>)
    requires
        vm_ok(*old(vm)),
    ensures
        vm_ok(*final(vm)),
        final(vm).heap == old(vm).heap,
        final(vm).state.scope@ == old(vm).state.scope@,
        final(vm).state.history@ == old(vm).state.history@,
        final(vm).state.pc == old(vm).state.pc,
        final(vm).const_table == old(vm).const_table,
        final(vm).cur_func_id == old(vm).cur_func_id,
        final(vm).array_proto == old(vm).array_proto,
        r is Ok,
        final(vm).state.stack@ == old(vm).state.stack@.push(Value::Undefined),
        final(vm).output@.len() == old(vm).output@.len() + 1,
        forall|i: int|
            0 <= i < old(vm).output@.len() ==> #[trigger] final(vm).output@[i] == old(vm).output@[i],
        final(vm).output@.last()@ == console_join(old(vm).heap, args@, 0) + "\n"@,
{
    let mut line = console_join_string(&vm.heap, args, 0);
    line.append("\n");
    vm.output.push(line);
    vm.state.stack.push(Value::Undefined);
    proof {
        assert forall|i: int| 0 <= i < vm.state.stack@.len() implies value_ok(
            vm.heap,
            #[trigger] vm.state.stack@[i],
        ) by {
            if i < old(vm).state.stack@.len() {
                assert(value_ok(old(vm).heap, old(vm).state.stack@[i]));
            }
        }
    }
    Ok(())
}

/// The raw-write built-in: appends its first argument's string coercion to
/// the output buffer, without a newline, and leaves `Undefined` on the
/// operand stack.
pub fn process_stdout_write(vm: &mut VM, args: &Vec<Value>) -> (r: Result<(), RuntimeError>)
    requires
        vm_ok(*old(vm)),
    ensures
        vm_ok(*final(vm)),
        final(vm).heap == old(vm).heap,
        final(vm).state.scope@ == old(vm).state.scope@,
        final(vm).state.history@ == old(vm).state.history@,
        final(vm).state.pc == old(vm).state.pc,
        final(vm).const_table == old(vm).const_table,
        final(vm).cur_func_id == old(vm).cur_func_id,
        final(vm).array_proto == old(vm).array_proto,
        r is Ok,
        final(vm).state.stack@ == old(vm).state.stack@.push(Value::Undefined),
        final(vm).output@.len() == old(vm).output@.len() + 1,
        forall|i: int|
            0 <= i < old(vm).output@.len() ==> #[trigger] final(vm).output@[i] == old(vm).output@[i],
        final(vm).output@.last()@ == if args@.len() > 0 {
            crate::value::str_of_value(args@[0])
        } else {
            Seq::<char>::empty()
        },
{
    let text = if args.len() > 0 {
        args[0].clone().to_string()
    } else {
        String::new()
    };
    vm.output.push(text);
    vm.state.stack.push(Value::Undefined);
    proof {
        assert forall|i: int| 0 <= i < vm.state.stack@.len() implies value_ok(
            vm.heap,
            #[trigger] vm.state.stack@[i],
        ) by {
            if i < old(vm).state.stack@.len() {
                assert(value_ok(old(vm).heap, old(vm).state.stack@[i]));
            }
        }
    }
    Ok(())
}

/// What the absolute-value built-in returns: the magnitude, wrapping on
/// the one integer whose magnitude does not fit.
pub open spec fn abs_num_spec(n: Number) -> Number {
    match n {
        Number::Int(i) => if i == i64::MIN {
            Number::Int(i64::MIN)
        } else if i < 0 {
            Number::Int((-i) as i64)
        } else {
            Number::Int(i)
        },
        Number::Nan => Number::Nan,
    }
}

/// The absolute-value built-in's computation.
pub fn abs_num(n: Number) -> (r: Number)
    ensures
        r == abs_num_spec(n),
{
    match n {
        Number::Int(i) => {
            if i == i64::MIN {
                Number::Int(i64::MIN)
            } else if i < 0 {
                Number::Int(-i)
            } else {
                Number::Int(i)
            }
        },
        Number::Nan => Number::Nan,
    }
}

/// The running minimum or maximum of the numeric coercions of the first
/// `k` arguments: `Nan` for none, and `Nan` once any operand is `Nan`.
pub open spec fn fold_minmax(args: Seq<Value>, k: int, is_min: bool) -> Number
    decreases k,
{
    if k <= 0 || k > args.len() {
        Number::Nan
    } else if k == 1 {
        to_number_spec(args[0])
    } else {
        let prev = fold_minmax(args, k - 1, is_min);
        let cur = to_number_spec(args[k - 1]);
        match (prev, cur) {
            (Number::Int(a), Number::Int(b)) => if is_min {
                if b < a {
                    Number::Int(b)
                } else {
                    Number::Int(a)
                }
            } else {
                if b > a {
                    Number::Int(b)
                } else {
                    Number::Int(a)
                }
            },
            _ => Number::Nan,
        }
    }
}

/// The minimum or maximum built-ins' computation.
pub fn minmax_num(args: &Vec<Value>, is_min: bool) -> (r: Number)
    ensures
        r == fold_minmax(args@, args@.len() as int, is_min),
{
    let n = args.len();
    if n == 0 {
        return Number::Nan;
    }
    let mut acc = args[0].to_number();
    let mut k: usize = 1;
    while k < n
        invariant
            1 <= k <= n,
            n == args@.len(),
            acc == fold_minmax(args@, k as int, is_min),
        decreases n - k,
    {
        let cur = args[k].to_number();
        acc = match (acc, cur) {
            (Number::Int(a), Number::Int(b)) => if is_min {
                if b < a {
                    Number::Int(b)
                } else {
                    Number::Int(a)
                }
            } else {
                if b > a {
                    Number::Int(b)
                } else {
                    Number::Int(a)
                }
            },
            _ => Number::Nan,
        };
        k = k + 1;
    }
    acc
}

} // verus!
