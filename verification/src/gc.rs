//! Mark-and-sweep collection over the handle-based heap.
//!
//! The root set is the interpreter state: the operand stack, the scope
//! stack, the constant table, and the array prototype. Marking walks the
//! heap graph with an explicit worklist, marking a slot the moment it is
//! scheduled, so cycles — a function whose prototype's `constructor` is
//! the function itself, or a looped `__proto__` chain — are visited once
//! each and the walk ends. Sweeping clears the contents of every unmarked
//! record but never moves or renumbers a slot, so surviving handles stay
//! valid.
//!
//! Collection preserves well-formedness, and every record reachable from
//! the roots through any path of the heap graph survives unchanged: the
//! walk maintains that a marked record is either still scheduled or has all
//! its successors marked, so when the worklist empties the marks are closed
//! under the heap's edges, and an induction along any path carries a root's
//! mark to everything it reaches.

use vstd::prelude::*;

use crate::callobj::CallObject;
use crate::function::{FunctionObjectInfo, FunctionObjectKind, UserFunctionInfo};
use crate::heap::{heap_ok, Heap, PropMap};
use crate::value::{Property, Value};
use crate::vm::{vm_ok, VM};

verus! {

/// A handle into one of the four arenas.
#[derive(Clone, Copy, Debug)]
pub enum Handle {
    Props(usize),
    Arr(usize),
    Func(usize),
    Co(usize),
}

/// The number of marked indices.
pub open spec fn marked_count(m: Seq<bool>) -> int
    decreases m.len(),
{
    if m.len() == 0 {
        0
    } else {
        marked_count(m.drop_last()) + (if m.last() {
            1int
        } else {
            0int
        })
    }
}

proof fn lemma_marked_count_bound(m: Seq<bool>)
    ensures
        0 <= marked_count(m) <= m.len(),
    decreases m.len(),
{
    if m.len() > 0 {
        lemma_marked_count_bound(m.drop_last());
    }
}

proof fn lemma_marked_count_update(m: Seq<bool>, i: int)
    requires
        0 <= i < m.len(),
        !m[i],
    ensures
        marked_count(m.update(i, true)) == marked_count(m) + 1,
    decreases m.len(),
{
    let u = m.update(i, true);
    if i == m.len() - 1 {
        assert(u.drop_last() =~= m.drop_last());
    } else {
        assert(u.drop_last() =~= m.drop_last().update(i, true));
        assert(u.last() == m.last());
        lemma_marked_count_update(m.drop_last(), i);
    }
}

/// One slot of each mark vector per heap record.
struct Marks {
    mp: Vec<bool>,
    ma: Vec<bool>,
    mf: Vec<bool>,
    mc: Vec<bool>,
}

/// Whether the mark vectors fit the heap.
spec fn marks_fit(m: Marks, h: Heap) -> bool {
    &&& m.mp@.len() == h.props@.len()
    &&& m.ma@.len() == h.arrays@.len()
    &&& m.mf@.len() == h.funcs@.len()
    &&& m.mc@.len() == h.callobjs@.len()
}

/// Whether every mark set in `a` is set in `b`.
spec fn marks_le(a: Marks, b: Marks) -> bool {
    &&& a.mp@.len() == b.mp@.len()
    &&& a.ma@.len() == b.ma@.len()
    &&& a.mf@.len() == b.mf@.len()
    &&& a.mc@.len() == b.mc@.len()
    &&& (forall|i: int| 0 <= i < a.mp@.len() && a.mp@[i] ==> b.mp@[i])
    &&& (forall|i: int| 0 <= i < a.ma@.len() && a.ma@[i] ==> b.ma@[i])
    &&& (forall|i: int| 0 <= i < a.mf@.len() && a.mf@[i] ==> b.mf@[i])
    &&& (forall|i: int| 0 <= i < a.mc@.len() && a.mc@[i] ==> b.mc@[i])
}

/// Whether the marks cover the handle `v` refers to, if any.
spec fn value_marked(m: Marks, v: Value) -> bool {
    match v {
        Value::Object(h) => h < m.mp@.len() ==> m.mp@[h as int],
        Value::Array(h) => h < m.ma@.len() ==> m.ma@[h as int],
        Value::Function(h) => h < m.mf@.len() ==> m.mf@[h as int],
        _ => true,
    }
}

/// Whether the marks cover handle `hd`.
spec fn handle_marked(m: Marks, hd: Handle) -> bool {
    match hd {
        Handle::Props(i) => i < m.mp@.len() ==> m.mp@[i as int],
        Handle::Arr(i) => i < m.ma@.len() ==> m.ma@[i as int],
        Handle::Func(i) => i < m.mf@.len() ==> m.mf@[i as int],
        Handle::Co(i) => i < m.mc@.len() ==> m.mc@[i as int],
    }
}

/// Whether `hd` occurs in the worklist.
spec fn in_list(wl: Seq<Handle>, hd: Handle) -> bool {
    exists|j: int| 0 <= j < wl.len() && wl[j] == hd
}

/// Whether the marks cover every value of a property descriptor.
spec fn prop_marked(m: Marks, p: Property) -> bool {
    match p {
        Property::Data { value, .. } => value_marked(m, value),
        Property::Accessor { get, set, .. } => value_marked(m, get) && value_marked(m, set),
    }
}

/// Every handle marked in `m1` was already marked in `m0`, or has been
/// scheduled on the worklist.
spec fn new_marks_scheduled(m0: Marks, m1: Marks, wl: Seq<Handle>) -> bool {
    forall|hd: Handle|
        #[trigger] handle_marked(m1, hd) ==> handle_marked(m0, hd) || in_list(wl, hd)
}

/// Occurrence in a worklist persists when the worklist is extended.
proof fn lemma_in_list_extend(wl1: Seq<Handle>, wl2: Seq<Handle>, hd: Handle)
    requires
        wl2.len() >= wl1.len(),
        forall|j: int| 0 <= j < wl1.len() ==> #[trigger] wl2[j] == wl1[j],
        in_list(wl1, hd),
    ensures
        in_list(wl2, hd),
{
    let j = choose|j: int| 0 <= j < wl1.len() && wl1[j] == hd;
    assert(wl2[j] == hd);
}

/// Scheduling composes across two marking steps when the worklist only
/// grows between them.
proof fn lemma_new_marks_trans(m0: Marks, m1: Marks, m2: Marks, wl1: Seq<Handle>, wl2: Seq<Handle>)
    requires
        new_marks_scheduled(m0, m1, wl1),
        new_marks_scheduled(m1, m2, wl2),
        wl2.len() >= wl1.len(),
        forall|j: int| 0 <= j < wl1.len() ==> #[trigger] wl2[j] == wl1[j],
    ensures
        new_marks_scheduled(m0, m2, wl2),
{
    assert forall|hd: Handle| #[trigger] handle_marked(m2, hd) implies handle_marked(m0, hd)
        || in_list(wl2, hd) by {
        if handle_marked(m1, hd) {
            if !handle_marked(m0, hd) {
                lemma_in_list_extend(wl1, wl2, hd);
            }
        }
    }
}

/// A covered handle stays covered when the marks grow.
proof fn lemma_handle_marked_le(a: Marks, b: Marks, hd: Handle)
    requires
        marks_le(a, b),
        handle_marked(a, hd),
    ensures
        handle_marked(b, hd),
{
}

/// A covered property stays covered when the marks grow.
proof fn lemma_prop_marked_le(a: Marks, b: Marks, p: Property)
    requires
        marks_le(a, b),
        prop_marked(a, p),
    ensures
        prop_marked(b, p),
{
}

/// Every successor of the record `hd` names is covered by the marks: the
/// values its properties, elements, arguments and fields refer to, its own
/// property map, and its captured or enclosing environment.
spec fn succs_marked(m: Marks, h: Heap, hd: Handle) -> bool {
    match hd {
        Handle::Props(i) => i < h.props@.len() ==> forall|x: int|
            0 <= x < h.props@[i as int].entries@.len() ==> prop_marked(
                m,
                (#[trigger] h.props@[i as int].entries@[x]).1,
            ),
        Handle::Arr(i) => i < h.arrays@.len() ==> ((forall|x: int|
            0 <= x < h.arrays@[i as int].elems@.len() ==> prop_marked(
                m,
                #[trigger] h.arrays@[i as int].elems@[x],
            )) && (forall|x: int|
            0 <= x < h.arrays@[i as int].obj.entries@.len() ==> prop_marked(
                m,
                (#[trigger] h.arrays@[i as int].obj.entries@[x]).1,
            ))),
        Handle::Func(i) => i < h.funcs@.len() ==> ({
            let f = h.funcs@[i as int];
            &&& handle_marked(m, Handle::Props(f.obj))
            &&& value_marked(m, f.this)
            &&& match f.outer {
                Some(oc) => handle_marked(m, Handle::Co(oc)),
                None => true,
            }
            &&& match f.kind {
                FunctionObjectKind::User(u) => forall|x: int|
                    0 <= x < u.func_decls@.len() ==> value_marked(
                        m,
                        #[trigger] u.func_decls@[x],
                    ),
                FunctionObjectKind::Builtin(_) => true,
            }
        }),
        Handle::Co(i) => i < h.callobjs@.len() ==> ({
            let c = h.callobjs@[i as int];
            &&& handle_marked(m, Handle::Props(c.vals))
            &&& value_marked(m, c.this)
            &&& match c.parent {
                Some(p) => handle_marked(m, Handle::Co(p)),
                None => true,
            }
            &&& forall|x: int|
                0 <= x < c.arguments@.len() ==> value_marked(m, (#[trigger] c.arguments@[x]).1)
        }),
    }
}

/// Covered successors stay covered when the marks grow.
proof fn lemma_succs_marked_le(a: Marks, b: Marks, h: Heap, hd: Handle)
    requires
        marks_le(a, b),
        succs_marked(a, h, hd),
    ensures
        succs_marked(b, h, hd),
{
    match hd {
        Handle::Props(i) => {
            if i < h.props@.len() {
                assert forall|x: int| 0 <= x < h.props@[i as int].entries@.len() implies
                    prop_marked(b, (#[trigger] h.props@[i as int].entries@[x]).1) by {
                    lemma_prop_marked_le(a, b, h.props@[i as int].entries@[x].1);
                }
            }
        },
        Handle::Arr(i) => {
            if i < h.arrays@.len() {
                assert forall|x: int| 0 <= x < h.arrays@[i as int].elems@.len() implies
                    prop_marked(b, #[trigger] h.arrays@[i as int].elems@[x]) by {
                    lemma_prop_marked_le(a, b, h.arrays@[i as int].elems@[x]);
                }
                assert forall|x: int| 0 <= x < h.arrays@[i as int].obj.entries@.len() implies
                    prop_marked(b, (#[trigger] h.arrays@[i as int].obj.entries@[x]).1) by {
                    lemma_prop_marked_le(a, b, h.arrays@[i as int].obj.entries@[x].1);
                }
            }
        },
        Handle::Func(i) => {
            if i < h.funcs@.len() {
                let f = h.funcs@[i as int];
                match f.kind {
                    FunctionObjectKind::User(u) => {
                        assert forall|x: int| 0 <= x < u.func_decls@.len() implies value_marked(
                            b,
                            #[trigger] u.func_decls@[x],
                        ) by {
                            lemma_value_marked_le(a, b, u.func_decls@[x]);
                        }
                    },
                    FunctionObjectKind::Builtin(_) => {},
                }
            }
        },
        Handle::Co(i) => {
            if i < h.callobjs@.len() {
                let c = h.callobjs@[i as int];
                assert forall|x: int| 0 <= x < c.arguments@.len() implies value_marked(
                    b,
                    (#[trigger] c.arguments@[x]).1,
                ) by {
                    lemma_value_marked_le(a, b, c.arguments@[x].1);
                }
            }
        },
    }
}

/// The marking coverage invariant: every covered handle is scheduled or has
/// all its successors covered, excepting `pending`, the handle being
/// processed.
spec fn cover_except(m: Marks, h: Heap, wl: Seq<Handle>, pending: Handle, active: bool) -> bool {
    forall|hd: Handle|
        #[trigger] handle_marked(m, hd) ==> (active && hd == pending) || in_list(wl, hd)
            || succs_marked(m, h, hd)
}

/// Every scheduled handle is covered by the marks.
spec fn wl_marked(m: Marks, wl: Seq<Handle>) -> bool {
    forall|x: int| 0 <= x < wl.len() ==> handle_marked(m, #[trigger] wl[x])
}

/// One marking step — marks grow, the worklist is only extended, whatever
/// was newly covered is scheduled, and everything newly scheduled is
/// covered — preserves the coverage invariant.
proof fn lemma_cover_step(
    m0: Marks,
    m1: Marks,
    wl0: Seq<Handle>,
    wl1: Seq<Handle>,
    h: Heap,
    pending: Handle,
    active: bool,
)
    requires
        marks_le(m0, m1),
        wl1.len() >= wl0.len(),
        forall|j: int| 0 <= j < wl0.len() ==> #[trigger] wl1[j] == wl0[j],
        new_marks_scheduled(m0, m1, wl1),
        cover_except(m0, h, wl0, pending, active),
        wl_marked(m0, wl0),
        forall|x: int| wl0.len() <= x < wl1.len() ==> handle_marked(m1, #[trigger] wl1[x]),
    ensures
        cover_except(m1, h, wl1, pending, active),
        wl_marked(m1, wl1),
{
    assert forall|hd: Handle| #[trigger] handle_marked(m1, hd) implies (active && hd == pending)
        || in_list(wl1, hd) || succs_marked(m1, h, hd) by {
        if handle_marked(m0, hd) {
            if active && hd == pending {
            } else if in_list(wl0, hd) {
                lemma_in_list_extend(wl0, wl1, hd);
            } else {
                lemma_succs_marked_le(m0, m1, h, hd);
            }
        }
    }
    assert forall|x: int| 0 <= x < wl1.len() implies handle_marked(m1, #[trigger] wl1[x]) by {
        if x < wl0.len() {
            lemma_handle_marked_le(m0, m1, wl1[x]);
        }
    }
}

/// The total number of unmarked slots.
spec fn unmarked_total(m: Marks) -> int {
    (m.mp@.len() - marked_count(m.mp@)) + (m.ma@.len() - marked_count(m.ma@)) + (m.mf@.len()
        - marked_count(m.mf@)) + (m.mc@.len() - marked_count(m.mc@))
}

/// The loop measure: unmarked slots plus pending work.
spec fn measure(m: Marks, wl: Seq<Handle>) -> int {
    unmarked_total(m) + wl.len()
}

/// Marks the record `v` refers to and schedules it, once; the measure
/// never grows.
fn mark_value(m: &mut Marks, wl: &mut Vec<Handle>, v: &Value)
    ensures
        marks_le(*old(m), *final(m)),
        measure(*final(m), final(wl)@) <= measure(*old(m), old(wl)@),
        value_marked(*final(m), *v),
        final(wl)@.len() >= old(wl)@.len(),
        forall|j: int| 0 <= j < old(wl)@.len() ==> #[trigger] final(wl)@[j] == old(wl)@[j],
        new_marks_scheduled(*old(m), *final(m), final(wl)@),
        forall|x: int|
            old(wl)@.len() <= x < final(wl)@.len() ==> handle_marked(
                *final(m),
                #[trigger] final(wl)@[x],
            ),
    decreases 0int,
{
    proof {
        lemma_marked_count_bound(m.mp@);
        lemma_marked_count_bound(m.ma@);
        lemma_marked_count_bound(m.mf@);
        lemma_marked_count_bound(m.mc@);
    }
    match v {
        Value::Object(h) => {
            if *h < m.mp.len() && !m.mp[*h] {
                proof {
                    lemma_marked_count_update(m.mp@, *h as int);
                }
                m.mp.set(*h, true);
                wl.push(Handle::Props(*h));
                proof {
                    assert(0 <= wl@.len() - 1 < wl@.len() && wl@[wl@.len() - 1]
                        == Handle::Props(*h));
                    assert forall|hd: Handle| #[trigger] handle_marked(*m, hd) implies
                        handle_marked(*old(m), hd) || in_list(wl@, hd) by {
                        match hd {
                            Handle::Props(q) => {
                                if q == *h {
                                    assert(in_list(wl@, Handle::Props(*h)));
                                }
                            },
                            _ => {},
                        }
                    }
                }
            }
        },
        Value::Array(h) => {
            if *h < m.ma.len() && !m.ma[*h] {
                proof {
                    lemma_marked_count_update(m.ma@, *h as int);
                }
                m.ma.set(*h, true);
                wl.push(Handle::Arr(*h));
                proof {
                    assert(0 <= wl@.len() - 1 < wl@.len() && wl@[wl@.len() - 1]
                        == Handle::Arr(*h));
                    assert forall|hd: Handle| #[trigger] handle_marked(*m, hd) implies
                        handle_marked(*old(m), hd) || in_list(wl@, hd) by {
                        match hd {
                            Handle::Arr(q) => {
                                if q == *h {
                                    assert(in_list(wl@, Handle::Arr(*h)));
                                }
                            },
                            _ => {},
                        }
                    }
                }
            }
        },
        Value::Function(h) => {
            if *h < m.mf.len() && !m.mf[*h] {
                proof {
                    lemma_marked_count_update(m.mf@, *h as int);
                }
                m.mf.set(*h, true);
                wl.push(Handle::Func(*h));
                proof {
                    assert(0 <= wl@.len() - 1 < wl@.len() && wl@[wl@.len() - 1]
                        == Handle::Func(*h));
                    assert forall|hd: Handle| #[trigger] handle_marked(*m, hd) implies
                        handle_marked(*old(m), hd) || in_list(wl@, hd) by {
                        match hd {
                            Handle::Func(q) => {
                                if q == *h {
                                    assert(in_list(wl@, Handle::Func(*h)));
                                }
                            },
                            _ => {},
                        }
                    }
                }
            }
        },
        _ => {},
    }
}

/// Marks and schedules the call object with handle `h`, once.
fn mark_co(m: &mut Marks, wl: &mut Vec<Handle>, h: usize)
    ensures
        marks_le(*old(m), *final(m)),
        measure(*final(m), final(wl)@) <= measure(*old(m), old(wl)@),
        h < final(m).mc@.len() ==> final(m).mc@[h as int],
        final(wl)@.len() >= old(wl)@.len(),
        forall|j: int| 0 <= j < old(wl)@.len() ==> #[trigger] final(wl)@[j] == old(wl)@[j],
        new_marks_scheduled(*old(m), *final(m), final(wl)@),
        forall|x: int|
            old(wl)@.len() <= x < final(wl)@.len() ==> handle_marked(
                *final(m),
                #[trigger] final(wl)@[x],
            ),
{
    proof {
        lemma_marked_count_bound(m.mc@);
    }
    if h < m.mc.len() && !m.mc[h] {
        proof {
            lemma_marked_count_update(m.mc@, h as int);
        }
        m.mc.set(h, true);
        wl.push(Handle::Co(h));
        proof {
            assert(0 <= wl@.len() - 1 < wl@.len() && wl@[wl@.len() - 1] == Handle::Co(h));
            assert forall|hd: Handle| #[trigger] handle_marked(*m, hd) implies handle_marked(
                *old(m),
                hd,
            ) || in_list(wl@, hd) by {
                match hd {
                    Handle::Co(q) => {
                        if q == h {
                            assert(in_list(wl@, Handle::Co(h)));
                        }
                    },
                    _ => {},
                }
            }
        }
    }
}

/// Marks everything a property descriptor's values refer to.
fn mark_prop(m: &mut Marks, wl: &mut Vec<Handle>, p: &Property)
    ensures
        marks_le(*old(m), *final(m)),
        measure(*final(m), final(wl)@) <= measure(*old(m), old(wl)@),
        prop_marked(*final(m), *p),
        final(wl)@.len() >= old(wl)@.len(),
        forall|j: int| 0 <= j < old(wl)@.len() ==> #[trigger] final(wl)@[j] == old(wl)@[j],
        new_marks_scheduled(*old(m), *final(m), final(wl)@),
        forall|x: int|
            old(wl)@.len() <= x < final(wl)@.len() ==> handle_marked(
                *final(m),
                #[trigger] final(wl)@[x],
            ),
{
    match p {
        Property::Data { value, .. } => {
            mark_value(m, wl, value);
        },
        Property::Accessor { get, set, .. } => {
            let ghost m0 = *m;
            let ghost wl0 = wl@;
            mark_value(m, wl, get);
            let ghost m1 = *m;
            let ghost wl1 = wl@;
            mark_value(m, wl, set);
            proof {
                lemma_marks_le_trans(m0, m1, *m);
                lemma_new_marks_trans(m0, m1, *m, wl1, wl@);
                lemma_value_marked_le(m1, *m, *get);
                assert forall|x: int| wl0.len() <= x < wl@.len() implies handle_marked(
                    *m,
                    #[trigger] wl@[x],
                ) by {
                    if x < wl1.len() {
                        lemma_handle_marked_le(m1, *m, wl1[x]);
                    }
                }
            }
        },
    }
}

/// Marks everything the entries of a property map refer to.
fn mark_pm_entries(m: &mut Marks, wl: &mut Vec<Handle>, heap: &Heap, which: usize, in_array: bool)
    requires
        in_array ==> which < heap.arrays@.len(),
        !in_array ==> which < heap.props@.len(),
    ensures
        marks_le(*old(m), *final(m)),
        measure(*final(m), final(wl)@) <= measure(*old(m), old(wl)@),
        final(wl)@.len() >= old(wl)@.len(),
        forall|x: int| 0 <= x < old(wl)@.len() ==> #[trigger] final(wl)@[x] == old(wl)@[x],
        new_marks_scheduled(*old(m), *final(m), final(wl)@),
        forall|x: int|
            old(wl)@.len() <= x < final(wl)@.len() ==> handle_marked(
                *final(m),
                #[trigger] final(wl)@[x],
            ),
        in_array ==> forall|x: int|
            0 <= x < heap.arrays@[which as int].obj.entries@.len() ==> prop_marked(
                *final(m),
                (#[trigger] heap.arrays@[which as int].obj.entries@[x]).1,
            ),
        !in_array ==> forall|x: int|
            0 <= x < heap.props@[which as int].entries@.len() ==> prop_marked(
                *final(m),
                (#[trigger] heap.props@[which as int].entries@[x]).1,
            ),
{
    let n = if in_array {
        heap.arrays[which].obj.entries.len()
    } else {
        heap.props[which].entries.len()
    };
    let mut j: usize = 0;
    while j < n
        invariant
            marks_le(*old(m), *m),
            measure(*m, wl@) <= measure(*old(m), old(wl)@),
            in_array ==> which < heap.arrays@.len(),
            !in_array ==> which < heap.props@.len(),
            in_array ==> n == heap.arrays@[which as int].obj.entries@.len(),
            !in_array ==> n == heap.props@[which as int].entries@.len(),
            wl@.len() >= old(wl)@.len(),
            forall|x: int| 0 <= x < old(wl)@.len() ==> #[trigger] wl@[x] == old(wl)@[x],
            new_marks_scheduled(*old(m), *m, wl@),
            forall|x: int|
                old(wl)@.len() <= x < wl@.len() ==> handle_marked(*m, #[trigger] wl@[x]),
            in_array ==> forall|x: int|
                0 <= x < j ==> prop_marked(
                    *m,
                    (#[trigger] heap.arrays@[which as int].obj.entries@[x]).1,
                ),
            !in_array ==> forall|x: int|
                0 <= x < j ==> prop_marked(
                    *m,
                    (#[trigger] heap.props@[which as int].entries@[x]).1,
                ),
        decreases n - j,
    {
        let p = if in_array {
            heap.arrays[which].obj.entries[j].1.clone()
        } else {
            heap.props[which].entries[j].1.clone()
        };
        let ghost m1 = *m;
        let ghost wl1 = wl@;
        mark_prop(m, wl, &p);
        proof {
            lemma_marks_le_trans(*old(m), m1, *m);
            lemma_new_marks_trans(*old(m), m1, *m, wl1, wl@);
            assert forall|x: int| old(wl)@.len() <= x < wl@.len() implies handle_marked(
                *m,
                #[trigger] wl@[x],
            ) by {
                if x < wl1.len() {
                    lemma_handle_marked_le(m1, *m, wl1[x]);
                }
            }
            if in_array {
                assert forall|x: int| 0 <= x < j + 1 implies prop_marked(
                    *m,
                    (#[trigger] heap.arrays@[which as int].obj.entries@[x]).1,
                ) by {
                    if x < j {
                        lemma_prop_marked_le(
                            m1,
                            *m,
                            heap.arrays@[which as int].obj.entries@[x].1,
                        );
                    }
                }
            } else {
                assert forall|x: int| 0 <= x < j + 1 implies prop_marked(
                    *m,
                    (#[trigger] heap.props@[which as int].entries@[x]).1,
                ) by {
                    if x < j {
                        lemma_prop_marked_le(m1, *m, heap.props@[which as int].entries@[x].1);
                    }
                }
            }
        }
        j = j + 1;
    }
}

proof fn lemma_value_marked_le(a: Marks, b: Marks, v: Value)
    requires
        marks_le(a, b),
        value_marked(a, v),
    ensures
        value_marked(b, v),
{
}

proof fn lemma_measure_nonneg(m: Marks, wl: Seq<Handle>)
    ensures
        measure(m, wl) >= 0,
{
    lemma_marked_count_bound(m.mp@);
    lemma_marked_count_bound(m.ma@);
    lemma_marked_count_bound(m.mf@);
    lemma_marked_count_bound(m.mc@);
}

proof fn lemma_marks_le_trans(a: Marks, b: Marks, c: Marks)
    requires
        marks_le(a, b),
        marks_le(b, c),
    ensures
        marks_le(a, c),
{
}

/// Collects garbage: marks everything reachable from the interpreter's
/// roots, then clears every unmarked record. Arena lengths, the interpreter
/// state, the constants and the output are untouched, and every record a
/// root refers to — an operand-stack or constant value's record, an
/// activation on the scope stack, the array prototype — survives
/// unchanged.
pub fn mark_and_sweep(vm: &mut VM)
    requires
        vm_ok(*old(vm)),
    ensures
        vm_ok(*final(vm)),
        final(vm).state == old(vm).state,
        final(vm).const_table == old(vm).const_table,
        final(vm).cur_func_id == old(vm).cur_func_id,
        final(vm).array_proto == old(vm).array_proto,
        final(vm).output == old(vm).output,
        final(vm).heap.props@.len() == old(vm).heap.props@.len(),
        final(vm).heap.arrays@.len() == old(vm).heap.arrays@.len(),
        final(vm).heap.funcs@.len() == old(vm).heap.funcs@.len(),
        final(vm).heap.callobjs@.len() == old(vm).heap.callobjs@.len(),
        forall|i: int|
            0 <= i < old(vm).state.stack@.len() ==> root_survives(
                old(vm).heap,
                final(vm).heap,
                #[trigger] old(vm).state.stack@[i],
            ),
        forall|i: int|
            0 <= i < old(vm).const_table.value@.len() ==> root_survives(
                old(vm).heap,
                final(vm).heap,
                #[trigger] old(vm).const_table.value@[i],
            ),
        forall|i: int|
            0 <= i < old(vm).state.scope@.len() ==> #[trigger] final(vm).heap.callobjs@[old(
                vm,
            ).state.scope@[i] as int] == old(vm).heap.callobjs@[old(vm).state.scope@[i] as int],
        final(vm).heap.props@[old(vm).array_proto as int] == old(vm).heap.props@[old(
            vm,
        ).array_proto as int],
        forall|hd: Handle|
            #[trigger] reachable(*old(vm), hd) ==> handle_survives(
                old(vm).heap,
                final(vm).heap,
                hd,
            ),
{
    let mut m = Marks {
        mp: make_marks(vm.heap.props.len()),
        ma: make_marks(vm.heap.arrays.len()),
        mf: make_marks(vm.heap.funcs.len()),
        mc: make_marks(vm.heap.callobjs.len()),
    };
    let mut wl: Vec<Handle> = Vec::new();
    proof {
        assert forall|hd: Handle| #[trigger] handle_marked(m, hd) implies in_list(wl@, hd)
            || succs_marked(m, vm.heap, hd) by {
            match hd {
                Handle::Props(q) => {
                    if q < m.mp@.len() {
                        assert(!m.mp@[q as int]);
                    }
                },
                Handle::Arr(q) => {
                    if q < m.ma@.len() {
                        assert(!m.ma@[q as int]);
                    }
                },
                Handle::Func(q) => {
                    if q < m.mf@.len() {
                        assert(!m.mf@[q as int]);
                    }
                },
                Handle::Co(q) => {
                    if q < m.mc@.len() {
                        assert(!m.mc@[q as int]);
                    }
                },
            }
        }
    }

    // seed the roots, marking them immediately
    let mut i: usize = 0;
    let stack_n = vm.state.stack.len();
    while i < stack_n
        invariant
            vm_ok(*vm),
            *vm == *old(vm),
            marks_fit(m, vm.heap),
            stack_n == vm.state.stack@.len(),
            forall|j: int|
                0 <= j < i ==> value_marked(m, #[trigger] vm.state.stack@[j]),
            wl_marked(m, wl@),
            cover_except(m, vm.heap, wl@, Handle::Props(0), false),
        decreases stack_n - i,
    {
        let ghost m0 = m;
        let ghost wl0 = wl@;
        let v = vm.state.stack[i].clone();
        mark_value(&mut m, &mut wl, &v);
        proof {
            lemma_cover_step(m0, m, wl0, wl@, vm.heap, Handle::Props(0), false);
            assert forall|j: int| 0 <= j < i + 1 implies value_marked(
                m,
                #[trigger] vm.state.stack@[j],
            ) by {
                if j < i {
                    assert(value_marked(m0, vm.state.stack@[j]));
                }
            }
        }
        i = i + 1;
    }
    let ghost m_stack = m;
    let mut i2: usize = 0;
    let scope_n = vm.state.scope.len();
    while i2 < scope_n
        invariant
            vm_ok(*vm),
            *vm == *old(vm),
            marks_fit(m, vm.heap),
            marks_le(m_stack, m),
            scope_n == vm.state.scope@.len(),
            forall|j: int|
                0 <= j < i2 ==> m.mc@[#[trigger] vm.state.scope@[j] as int],
            wl_marked(m, wl@),
            cover_except(m, vm.heap, wl@, Handle::Props(0), false),
        decreases scope_n - i2,
    {
        let ghost m0 = m;
        let ghost wl0 = wl@;
        let co = vm.state.scope[i2];
        mark_co(&mut m, &mut wl, co);
        proof {
            lemma_cover_step(m0, m, wl0, wl@, vm.heap, Handle::Props(0), false);
            lemma_marks_le_trans(m_stack, m0, m);
            assert forall|j: int| 0 <= j < i2 + 1 implies m.mc@[
            #[trigger] vm.state.scope@[j] as int] by {
                if j < i2 {
                    assert(m0.mc@[vm.state.scope@[j] as int]);
                }
            }
        }
        i2 = i2 + 1;
    }
    let ghost m_scope = m;
    let mut i3: usize = 0;
    let const_n = vm.const_table.value.len();
    while i3 < const_n
        invariant
            vm_ok(*vm),
            *vm == *old(vm),
            marks_fit(m, vm.heap),
            marks_le(m_scope, m),
            const_n == vm.const_table.value@.len(),
            forall|j: int|
                0 <= j < i3 ==> value_marked(m, #[trigger] vm.const_table.value@[j]),
            wl_marked(m, wl@),
            cover_except(m, vm.heap, wl@, Handle::Props(0), false),
        decreases const_n - i3,
    {
        let ghost m0 = m;
        let ghost wl0 = wl@;
        let v = vm.const_table.value[i3].clone();
        mark_value(&mut m, &mut wl, &v);
        proof {
            lemma_cover_step(m0, m, wl0, wl@, vm.heap, Handle::Props(0), false);
            lemma_marks_le_trans(m_scope, m0, m);
            assert forall|j: int| 0 <= j < i3 + 1 implies value_marked(
                m,
                #[trigger] vm.const_table.value@[j],
            ) by {
                if j < i3 {
                    assert(value_marked(m0, vm.const_table.value@[j]));
                }
            }
        }
        i3 = i3 + 1;
    }
    let ghost m_consts = m;
    let ghost m0 = m;
    let ghost wl0 = wl@;
    mark_co_props(&mut m, &mut wl, vm.array_proto);
    proof {
        lemma_cover_step(m0, m, wl0, wl@, vm.heap, Handle::Props(0), false);
        lemma_marks_le_trans(m_consts, m0, m);
    }
    let ghost m_seeded = m;

    // walk the heap graph
    while wl.len() > 0
        invariant
            vm_ok(*vm),
            *vm == *old(vm),
            marks_fit(m, vm.heap),
            marks_le(m_seeded, m),
            wl_marked(m, wl@),
            cover_except(m, vm.heap, wl@, Handle::Props(0), false),
        decreases measure(m, wl@),
    {
        let ghost wl_pre = wl@;
        let ghost m_pre = m;
        let h = match wl.pop() {
            Some(h) => h,
            None => {
                return ;
            },
        };
        let ghost m_at = m;
        let ghost wl_at = wl@;
        proof {
            assert(wl_at =~= wl_pre.drop_last());
            assert(measure(m_at, wl_at) == measure(m_pre, wl_pre) - 1);
            assert forall|hd: Handle| #[trigger] handle_marked(m_at, hd) implies (hd == h)
                || in_list(wl_at, hd) || succs_marked(m_at, vm.heap, hd) by {
                if in_list(wl_pre, hd) {
                    let j = choose|j: int| 0 <= j < wl_pre.len() && wl_pre[j] == hd;
                    if j < wl_pre.len() - 1 {
                        assert(wl_at[j] == hd);
                        assert(in_list(wl_at, hd));
                    } else {
                        assert(hd == h);
                    }
                }
            }
            assert(cover_except(m_at, vm.heap, wl_at, h, true));
            assert(wl_marked(m_at, wl_at)) by {
                assert forall|x: int| 0 <= x < wl_at.len() implies handle_marked(
                    m_at,
                    #[trigger] wl_at[x],
                ) by {
                    assert(wl_at[x] == wl_pre[x]);
                }
            }
        }
        match h {
            Handle::Props(i) => {
                if i < vm.heap.props.len() {
                    let ghost m1 = m;
                    let ghost wl1 = wl@;
                    mark_pm_entries(&mut m, &mut wl, &vm.heap, i, false);
                    proof {
                        lemma_cover_step(m1, m, wl1, wl@, vm.heap, h, true);
                        assert(succs_marked(m, vm.heap, h));
                    }
                } else {
                    proof {
                        assert(succs_marked(m, vm.heap, h));
                    }
                }
            },
            Handle::Arr(i) => {
                if i < vm.heap.arrays.len() {
                    let n = vm.heap.arrays[i].elems.len();
                    let mut j: usize = 0;
                    while j < n
                        invariant
                            marks_le(m_at, m),
                            measure(m, wl@) <= measure(m_at, wl_at),
                            i < vm.heap.arrays@.len(),
                            n == vm.heap.arrays@[i as int].elems@.len(),
                            *vm == *old(vm),
                            wl_marked(m, wl@),
                            cover_except(m, vm.heap, wl@, h, true),
                            forall|x: int|
                                0 <= x < j ==> prop_marked(
                                    m,
                                    #[trigger] vm.heap.arrays@[i as int].elems@[x],
                                ),
                        decreases n - j,
                    {
                        let p = vm.heap.arrays[i].elems[j].clone();
                        let ghost m1 = m;
                        let ghost wl1 = wl@;
                        mark_prop(&mut m, &mut wl, &p);
                        proof {
                            lemma_marks_le_trans(m_at, m1, m);
                            lemma_cover_step(m1, m, wl1, wl@, vm.heap, h, true);
                            assert forall|x: int| 0 <= x < j + 1 implies prop_marked(
                                m,
                                #[trigger] vm.heap.arrays@[i as int].elems@[x],
                            ) by {
                                if x < j {
                                    lemma_prop_marked_le(
                                        m1,
                                        m,
                                        vm.heap.arrays@[i as int].elems@[x],
                                    );
                                }
                            }
                        }
                        j = j + 1;
                    }
                    let ghost m1 = m;
                    let ghost wl1 = wl@;
                    mark_pm_entries(&mut m, &mut wl, &vm.heap, i, true);
                    proof {
                        lemma_marks_le_trans(m_at, m1, m);
                        lemma_cover_step(m1, m, wl1, wl@, vm.heap, h, true);
                        assert forall|x: int| 0 <= x < vm.heap.arrays@[i as int].elems@.len()
                            implies prop_marked(
                            m,
                            #[trigger] vm.heap.arrays@[i as int].elems@[x],
                        ) by {
                            lemma_prop_marked_le(m1, m, vm.heap.arrays@[i as int].elems@[x]);
                        }
                        assert(succs_marked(m, vm.heap, h));
                    }
                } else {
                    proof {
                        assert(succs_marked(m, vm.heap, h));
                    }
                }
            },
            Handle::Func(i) => {
                if i < vm.heap.funcs.len() {
                    let obj = vm.heap.funcs[i].obj;
                    let ghost m1 = m;
                    let ghost wl1 = wl@;
                    mark_value(&mut m, &mut wl, &Value::Object(obj));
                    proof {
                        lemma_marks_le_trans(m_at, m1, m);
                        lemma_cover_step(m1, m, wl1, wl@, vm.heap, h, true);
                    }
                    let this = vm.heap.funcs[i].this.clone();
                    let ghost m2 = m;
                    let ghost wl2 = wl@;
                    mark_value(&mut m, &mut wl, &this);
                    proof {
                        lemma_marks_le_trans(m_at, m2, m);
                        lemma_cover_step(m2, m, wl2, wl@, vm.heap, h, true);
                        lemma_value_marked_le(m2, m, Value::Object(obj));
                    }
                    let outer = vm.heap.funcs[i].outer;
                    match outer {
                        Some(oc) => {
                            let ghost m3 = m;
                            let ghost wl3 = wl@;
                            mark_co(&mut m, &mut wl, oc);
                            proof {
                                lemma_marks_le_trans(m_at, m3, m);
                                lemma_cover_step(m3, m, wl3, wl@, vm.heap, h, true);
                                lemma_value_marked_le(m3, m, Value::Object(obj));
                                lemma_value_marked_le(m3, m, this);
                            }
                        },
                        None => {},
                    }
                    let nd = match &vm.heap.funcs[i].kind {
                        FunctionObjectKind::User(u) => u.func_decls.len(),
                        FunctionObjectKind::Builtin(_) => 0,
                    };
                    let mut j: usize = 0;
                    while j < nd
                        invariant
                            marks_le(m_at, m),
                            measure(m, wl@) <= measure(m_at, wl_at),
                            i < vm.heap.funcs@.len(),
                            vm.heap.funcs@[i as int].kind matches FunctionObjectKind::User(u)
                                ==> nd == u.func_decls@.len(),
                            vm.heap.funcs@[i as int].kind matches FunctionObjectKind::Builtin(_)
                                ==> nd == 0,
                            *vm == *old(vm),
                            obj == vm.heap.funcs@[i as int].obj,
                            this == vm.heap.funcs@[i as int].this,
                            wl_marked(m, wl@),
                            cover_except(m, vm.heap, wl@, h, true),
                            handle_marked(m, Handle::Props(obj)),
                            value_marked(m, this),
                            match vm.heap.funcs@[i as int].outer {
                                Some(oc) => handle_marked(m, Handle::Co(oc)),
                                None => true,
                            },
                            vm.heap.funcs@[i as int].kind matches FunctionObjectKind::User(u)
                                ==> forall|x: int|
                                0 <= x < j ==> value_marked(m, #[trigger] u.func_decls@[x]),
                        decreases nd - j,
                    {
                        let v = match &vm.heap.funcs[i].kind {
                            FunctionObjectKind::User(u) => u.func_decls[j].clone(),
                            FunctionObjectKind::Builtin(_) => Value::Undefined,
                        };
                        let ghost m4 = m;
                        let ghost wl4 = wl@;
                        mark_value(&mut m, &mut wl, &v);
                        proof {
                            lemma_marks_le_trans(m_at, m4, m);
                            lemma_cover_step(m4, m, wl4, wl@, vm.heap, h, true);
                            lemma_value_marked_le(m4, m, Value::Object(obj));
                            lemma_value_marked_le(m4, m, this);
                            match vm.heap.funcs@[i as int].outer {
                                Some(oc) => {
                                    lemma_handle_marked_le(m4, m, Handle::Co(oc));
                                },
                                None => {},
                            }
                            match vm.heap.funcs@[i as int].kind {
                                FunctionObjectKind::User(u) => {
                                    assert forall|x: int| 0 <= x < j + 1 implies value_marked(
                                        m,
                                        #[trigger] u.func_decls@[x],
                                    ) by {
                                        if x < j {
                                            lemma_value_marked_le(m4, m, u.func_decls@[x]);
                                        }
                                    }
                                },
                                FunctionObjectKind::Builtin(_) => {},
                            }
                        }
                        j = j + 1;
                    }
                    proof {
                        assert(succs_marked(m, vm.heap, h));
                    }
                } else {
                    proof {
                        assert(succs_marked(m, vm.heap, h));
                    }
                }
            },
            Handle::Co(i) => {
                if i < vm.heap.callobjs.len() {
                    let vals = vm.heap.callobjs[i].vals;
                    let ghost m1 = m;
                    let ghost wl1 = wl@;
                    mark_value(&mut m, &mut wl, &Value::Object(vals));
                    proof {
                        lemma_marks_le_trans(m_at, m1, m);
                        lemma_cover_step(m1, m, wl1, wl@, vm.heap, h, true);
                    }
                    let this = vm.heap.callobjs[i].this.clone();
                    let ghost m2 = m;
                    let ghost wl2 = wl@;
                    mark_value(&mut m, &mut wl, &this);
                    proof {
                        lemma_marks_le_trans(m_at, m2, m);
                        lemma_cover_step(m2, m, wl2, wl@, vm.heap, h, true);
                        lemma_value_marked_le(m2, m, Value::Object(vals));
                    }
                    let parent = vm.heap.callobjs[i].parent;
                    match parent {
                        Some(pc) => {
                            let ghost m3 = m;
                            let ghost wl3 = wl@;
                            mark_co(&mut m, &mut wl, pc);
                            proof {
                                lemma_marks_le_trans(m_at, m3, m);
                                lemma_cover_step(m3, m, wl3, wl@, vm.heap, h, true);
                                lemma_value_marked_le(m3, m, Value::Object(vals));
                                lemma_value_marked_le(m3, m, this);
                            }
                        },
                        None => {},
                    }
                    let na = vm.heap.callobjs[i].arguments.len();
                    let mut j: usize = 0;
                    while j < na
                        invariant
                            marks_le(m_at, m),
                            measure(m, wl@) <= measure(m_at, wl_at),
                            i < vm.heap.callobjs@.len(),
                            na == vm.heap.callobjs@[i as int].arguments@.len(),
                            *vm == *old(vm),
                            vals == vm.heap.callobjs@[i as int].vals,
                            this == vm.heap.callobjs@[i as int].this,
                            wl_marked(m, wl@),
                            cover_except(m, vm.heap, wl@, h, true),
                            handle_marked(m, Handle::Props(vals)),
                            value_marked(m, this),
                            match vm.heap.callobjs@[i as int].parent {
                                Some(p) => handle_marked(m, Handle::Co(p)),
                                None => true,
                            },
                            forall|x: int|
                                0 <= x < j ==> value_marked(
                                    m,
                                    (#[trigger] vm.heap.callobjs@[i as int].arguments@[x]).1,
                                ),
                        decreases na - j,
                    {
                        let v = vm.heap.callobjs[i].arguments[j].1.clone();
                        let ghost m4 = m;
                        let ghost wl4 = wl@;
                        mark_value(&mut m, &mut wl, &v);
                        proof {
                            lemma_marks_le_trans(m_at, m4, m);
                            lemma_cover_step(m4, m, wl4, wl@, vm.heap, h, true);
                            lemma_value_marked_le(m4, m, Value::Object(vals));
                            lemma_value_marked_le(m4, m, this);
                            match vm.heap.callobjs@[i as int].parent {
                                Some(p) => {
                                    lemma_handle_marked_le(m4, m, Handle::Co(p));
                                },
                                None => {},
                            }
                            assert forall|x: int| 0 <= x < j + 1 implies value_marked(
                                m,
                                (#[trigger] vm.heap.callobjs@[i as int].arguments@[x]).1,
                            ) by {
                                if x < j {
                                    lemma_value_marked_le(
                                        m4,
                                        m,
                                        vm.heap.callobjs@[i as int].arguments@[x].1,
                                    );
                                }
                            }
                        }
                        j = j + 1;
                    }
                    proof {
                        assert(succs_marked(m, vm.heap, h));
                    }
                } else {
                    proof {
                        assert(succs_marked(m, vm.heap, h));
                    }
                }
            },
        }
        proof {
            lemma_marks_le_trans(m_seeded, m_at, m);
            lemma_measure_nonneg(m, wl@);
            assert forall|hd: Handle| #[trigger] handle_marked(m, hd) implies in_list(wl@, hd)
                || succs_marked(m, vm.heap, hd) by {
                if hd == h {
                    assert(succs_marked(m, vm.heap, h));
                }
            }
            assert(cover_except(m, vm.heap, wl@, Handle::Props(0), false));
        }
    }

    // sweep: clear every unmarked record
    let ghost m_done = m;
    sweep(vm, &m);
    proof {
        assert forall|i: int| 0 <= i < old(vm).state.stack@.len() implies root_survives(
            old(vm).heap,
            vm.heap,
            #[trigger] old(vm).state.stack@[i],
        ) by {
            assert(value_marked(m_stack, old(vm).state.stack@[i]));
            lemma_marks_le_trans(m_stack, m_scope, m_consts);
            lemma_marks_le_trans(m_stack, m_consts, m_seeded);
            lemma_marks_le_trans(m_stack, m_seeded, m_done);
            lemma_value_marked_le(m_stack, m_done, old(vm).state.stack@[i]);
            assert(value_ok_for(old(vm).heap, old(vm).state.stack@[i]));
        }
        assert forall|i: int| 0 <= i < old(vm).const_table.value@.len() implies root_survives(
            old(vm).heap,
            vm.heap,
            #[trigger] old(vm).const_table.value@[i],
        ) by {
            assert(value_marked(m_consts, old(vm).const_table.value@[i]));
            lemma_marks_le_trans(m_consts, m_seeded, m_done);
            lemma_value_marked_le(m_consts, m_done, old(vm).const_table.value@[i]);
            assert(value_ok_for(old(vm).heap, old(vm).const_table.value@[i]));
        }
        assert forall|i: int| 0 <= i < old(vm).state.scope@.len() implies #[trigger] vm.heap.callobjs@[old(vm).state.scope@[i] as int] == old(vm).heap.callobjs@[old(
            vm,
        ).state.scope@[i] as int] by {
            assert(m_scope.mc@[old(vm).state.scope@[i] as int]);
            lemma_marks_le_trans(m_scope, m_consts, m_seeded);
            lemma_marks_le_trans(m_scope, m_seeded, m_done);
        }
        assert(m_seeded.mp@[old(vm).array_proto as int]);
        lemma_marks_le_trans(m_stack, m_scope, m_consts);
        lemma_marks_le_trans(m_stack, m_consts, m_seeded);
        lemma_marks_le_trans(m_scope, m_consts, m_seeded);
        lemma_marks_le_trans(m_stack, m_seeded, m_done);
        lemma_marks_le_trans(m_scope, m_seeded, m_done);
        lemma_marks_le_trans(m_consts, m_seeded, m_done);
        // every root is covered
        assert forall|r: Handle| root_handle(*old(vm), r) implies #[trigger] handle_marked(
            m_done,
            r,
        ) by {
            if exists|i: int|
                0 <= i < old(vm).state.stack@.len() && value_edge(
                    #[trigger] old(vm).state.stack@[i],
                    r,
                ) {
                let i = choose|i: int|
                    0 <= i < old(vm).state.stack@.len() && value_edge(
                        #[trigger] old(vm).state.stack@[i],
                        r,
                    );
                assert(value_marked(m_stack, old(vm).state.stack@[i]));
                lemma_value_edge_marked(m_stack, old(vm).state.stack@[i], r);
                lemma_handle_marked_le(m_stack, m_done, r);
            } else if exists|i: int|
                0 <= i < old(vm).const_table.value@.len() && value_edge(
                    #[trigger] old(vm).const_table.value@[i],
                    r,
                ) {
                let i = choose|i: int|
                    0 <= i < old(vm).const_table.value@.len() && value_edge(
                        #[trigger] old(vm).const_table.value@[i],
                        r,
                    );
                assert(value_marked(m_consts, old(vm).const_table.value@[i]));
                lemma_value_edge_marked(m_consts, old(vm).const_table.value@[i], r);
                lemma_handle_marked_le(m_consts, m_done, r);
            } else if exists|i: int|
                0 <= i < old(vm).state.scope@.len() && r == Handle::Co(
                    #[trigger] old(vm).state.scope@[i],
                ) {
                let i = choose|i: int|
                    0 <= i < old(vm).state.scope@.len() && r == Handle::Co(
                        #[trigger] old(vm).state.scope@[i],
                    );
                assert(m_scope.mc@[old(vm).state.scope@[i] as int]);
                assert(handle_marked(m_scope, r));
                lemma_handle_marked_le(m_scope, m_done, r);
            } else {
                assert(r == Handle::Props(old(vm).array_proto));
                assert(handle_marked(m_seeded, r));
                lemma_handle_marked_le(m_seeded, m_done, r);
            }
        }
        // coverage is closed under the heap's edges: nothing is pending
        assert forall|a: Handle| #[trigger] handle_marked(m_done, a) implies succs_marked(
            m_done,
            old(vm).heap,
            a,
        ) by {
            assert(!in_list(wl@, a));
        }
        // so every reachable record survives the sweep
        assert forall|hd: Handle| #[trigger] reachable(*old(vm), hd) implies handle_survives(
            old(vm).heap,
            vm.heap,
            hd,
        ) by {
            let p = choose|p: Seq<Handle>| #[trigger] is_path(*old(vm), p) && p.last() == hd;
            lemma_path_marked(*old(vm), m_done, p);
            match hd {
                Handle::Props(i) => {
                    if i < old(vm).heap.props@.len() {
                        assert(m_done.mp@[i as int]);
                    }
                },
                Handle::Arr(i) => {
                    if i < old(vm).heap.arrays@.len() {
                        assert(m_done.ma@[i as int]);
                    }
                },
                Handle::Func(i) => {
                    if i < old(vm).heap.funcs@.len() {
                        assert(m_done.mf@[i as int]);
                    }
                },
                Handle::Co(i) => {
                    if i < old(vm).heap.callobjs@.len() {
                        assert(m_done.mc@[i as int]);
                    }
                },
            }
        }
    }
}

/// Whether value `v` refers to the record `b` names.
pub open spec fn value_edge(v: Value, b: Handle) -> bool {
    match (v, b) {
        (Value::Object(h), Handle::Props(q)) => h == q,
        (Value::Array(h), Handle::Arr(q)) => h == q,
        (Value::Function(h), Handle::Func(q)) => h == q,
        _ => false,
    }
}

/// Whether a property descriptor holds a value referring to `b`.
pub open spec fn prop_edge(p: Property, b: Handle) -> bool {
    match p {
        Property::Data { value, .. } => value_edge(value, b),
        Property::Accessor { get, set, .. } => value_edge(get, b) || value_edge(set, b),
    }
}

/// Whether the record `a` names refers to the record `b` names: one hop of
/// the heap graph.
pub open spec fn heap_edge(h: Heap, a: Handle, b: Handle) -> bool {
    match a {
        Handle::Props(i) => i < h.props@.len() && exists|x: int|
            0 <= x < h.props@[i as int].entries@.len() && prop_edge(
                (#[trigger] h.props@[i as int].entries@[x]).1,
                b,
            ),
        Handle::Arr(i) => i < h.arrays@.len() && ((exists|x: int|
            0 <= x < h.arrays@[i as int].elems@.len() && prop_edge(
                #[trigger] h.arrays@[i as int].elems@[x],
                b,
            )) || (exists|x: int|
            0 <= x < h.arrays@[i as int].obj.entries@.len() && prop_edge(
                (#[trigger] h.arrays@[i as int].obj.entries@[x]).1,
                b,
            ))),
        Handle::Func(i) => i < h.funcs@.len() && ({
            let f = h.funcs@[i as int];
            ||| b == Handle::Props(f.obj)
            ||| value_edge(f.this, b)
            ||| (f.outer matches Some(oc) && b == Handle::Co(oc))
            ||| (f.kind matches FunctionObjectKind::User(u) && exists|x: int|
                0 <= x < u.func_decls@.len() && value_edge(#[trigger] u.func_decls@[x], b))
        }),
        Handle::Co(i) => i < h.callobjs@.len() && ({
            let c = h.callobjs@[i as int];
            ||| b == Handle::Props(c.vals)
            ||| value_edge(c.this, b)
            ||| (c.parent matches Some(p) && b == Handle::Co(p))
            ||| (exists|x: int|
                0 <= x < c.arguments@.len() && value_edge((#[trigger] c.arguments@[x]).1, b))
        }),
    }
}

/// Whether `hd` is a root of the machine: a record an operand-stack value,
/// a constant, an activation on the scope stack, or the array prototype
/// refers to.
pub open spec fn root_handle(vm: VM, hd: Handle) -> bool {
    ||| (exists|i: int|
        0 <= i < vm.state.stack@.len() && value_edge(#[trigger] vm.state.stack@[i], hd))
    ||| (exists|i: int|
        0 <= i < vm.const_table.value@.len() && value_edge(
            #[trigger] vm.const_table.value@[i],
            hd,
        ))
    ||| (exists|i: int|
        0 <= i < vm.state.scope@.len() && hd == Handle::Co(#[trigger] vm.state.scope@[i]))
    ||| hd == Handle::Props(vm.array_proto)
}

/// Whether `p` is a path of the machine's heap graph: it starts at a root
/// and each later record is one hop past the one before it.
pub open spec fn is_path(vm: VM, p: Seq<Handle>) -> bool {
    &&& p.len() > 0
    &&& root_handle(vm, p[0])
    &&& forall|x: int| 0 < x < p.len() ==> heap_edge(vm.heap, p[x - 1], #[trigger] p[x])
}

/// Whether `hd` is reachable from the machine's roots: some path of the
/// heap graph ends at it.
pub open spec fn reachable(vm: VM, hd: Handle) -> bool {
    exists|p: Seq<Handle>| #[trigger] is_path(vm, p) && p.last() == hd
}

/// Whether the record `hd` names is identical in both heaps.
pub open spec fn handle_survives(h0: Heap, h1: Heap, hd: Handle) -> bool {
    match hd {
        Handle::Props(i) => i < h0.props@.len() && i < h1.props@.len() ==> h1.props@[i as int]
            == h0.props@[i as int],
        Handle::Arr(i) => i < h0.arrays@.len() && i < h1.arrays@.len() ==> h1.arrays@[i as int]
            == h0.arrays@[i as int],
        Handle::Func(i) => i < h0.funcs@.len() && i < h1.funcs@.len() ==> h1.funcs@[i as int]
            == h0.funcs@[i as int],
        Handle::Co(i) => i < h0.callobjs@.len() && i < h1.callobjs@.len()
            ==> h1.callobjs@[i as int] == h0.callobjs@[i as int],
    }
}

/// A covered value's referent is covered.
proof fn lemma_value_edge_marked(m: Marks, v: Value, b: Handle)
    requires
        value_marked(m, v),
        value_edge(v, b),
    ensures
        handle_marked(m, b),
{
}

/// A covered property's referent is covered.
proof fn lemma_prop_edge_marked(m: Marks, p: Property, b: Handle)
    requires
        prop_marked(m, p),
        prop_edge(p, b),
    ensures
        handle_marked(m, b),
{
}

/// When a record's successors are covered, every record it refers to is
/// covered.
proof fn lemma_edge_marked(m: Marks, h: Heap, a: Handle, b: Handle)
    requires
        succs_marked(m, h, a),
        heap_edge(h, a, b),
    ensures
        handle_marked(m, b),
{
    match a {
        Handle::Props(i) => {
            let x = choose|x: int|
                0 <= x < h.props@[i as int].entries@.len() && prop_edge(
                    (#[trigger] h.props@[i as int].entries@[x]).1,
                    b,
                );
            lemma_prop_edge_marked(m, h.props@[i as int].entries@[x].1, b);
        },
        Handle::Arr(i) => {
            if exists|x: int|
                0 <= x < h.arrays@[i as int].elems@.len() && prop_edge(
                    #[trigger] h.arrays@[i as int].elems@[x],
                    b,
                ) {
                let x = choose|x: int|
                    0 <= x < h.arrays@[i as int].elems@.len() && prop_edge(
                        #[trigger] h.arrays@[i as int].elems@[x],
                        b,
                    );
                lemma_prop_edge_marked(m, h.arrays@[i as int].elems@[x], b);
            } else {
                let x = choose|x: int|
                    0 <= x < h.arrays@[i as int].obj.entries@.len() && prop_edge(
                        (#[trigger] h.arrays@[i as int].obj.entries@[x]).1,
                        b,
                    );
                lemma_prop_edge_marked(m, h.arrays@[i as int].obj.entries@[x].1, b);
            }
        },
        Handle::Func(i) => {
            let f = h.funcs@[i as int];
            if b == Handle::Props(f.obj) {
            } else if value_edge(f.this, b) {
                lemma_value_edge_marked(m, f.this, b);
            } else if f.outer matches Some(oc) && b == Handle::Co(oc) {
            } else {
                match f.kind {
                    FunctionObjectKind::User(u) => {
                        let x = choose|x: int|
                            0 <= x < u.func_decls@.len() && value_edge(
                                #[trigger] u.func_decls@[x],
                                b,
                            );
                        lemma_value_edge_marked(m, u.func_decls@[x], b);
                    },
                    FunctionObjectKind::Builtin(_) => {},
                }
            }
        },
        Handle::Co(i) => {
            let c = h.callobjs@[i as int];
            if b == Handle::Props(c.vals) {
            } else if value_edge(c.this, b) {
                lemma_value_edge_marked(m, c.this, b);
            } else if c.parent matches Some(p) && b == Handle::Co(p) {
            } else {
                let x = choose|x: int|
                    0 <= x < c.arguments@.len() && value_edge((#[trigger] c.arguments@[x]).1, b);
                lemma_value_edge_marked(m, c.arguments@[x].1, b);
            }
        },
    }
}

/// When the roots are covered and coverage is closed under the heap's
/// edges, every path ends at a covered record.
proof fn lemma_path_marked(vm: VM, m: Marks, p: Seq<Handle>)
    requires
        is_path(vm, p),
        forall|r: Handle| root_handle(vm, r) ==> #[trigger] handle_marked(m, r),
        forall|a: Handle| #[trigger] handle_marked(m, a) ==> succs_marked(m, vm.heap, a),
    ensures
        handle_marked(m, p.last()),
    decreases p.len(),
{
    if p.len() == 1 {
        assert(root_handle(vm, p[0]));
    } else {
        let q = p.drop_last();
        assert(is_path(vm, q)) by {
            assert(q[0] == p[0]);
            assert(forall|x: int| 0 < x < q.len() ==> q[x - 1] == p[x - 1] && #[trigger] q[x]
                == p[x]);
        }
        lemma_path_marked(vm, m, q);
        assert(q.last() == p[p.len() - 2]);
        assert(heap_edge(vm.heap, p[p.len() - 2], p[p.len() - 1]));
        lemma_edge_marked(m, vm.heap, p[p.len() - 2], p.last());
    }
}

/// Shorthand for the well-formedness of one value's handle.
spec fn value_ok_for(h: Heap, v: Value) -> bool {
    crate::heap::value_ok(h, v)
}

/// Whether the record `v` refers to, if any, is identical in both heaps.
pub open spec fn root_survives(h0: Heap, h1: Heap, v: Value) -> bool {
    match v {
        Value::Object(h) => h < h0.props@.len() && h < h1.props@.len() ==> h1.props@[h as int]
            == h0.props@[h as int],
        Value::Array(h) => h < h0.arrays@.len() && h < h1.arrays@.len() ==> h1.arrays@[h as int]
            == h0.arrays@[h as int],
        Value::Function(h) => h < h0.funcs@.len() && h < h1.funcs@.len() ==> h1.funcs@[h as int]
            == h0.funcs@[h as int],
        _ => true,
    }
}

/// A vector of `n` clear marks.
fn make_marks(n: usize) -> (r: Vec<bool>)
    ensures
        r@.len() == n,
        forall|i: int| 0 <= i < n ==> !(#[trigger] r@[i]),
{
    let mut r: Vec<bool> = Vec::new();
    let mut i: usize = 0;
    while i < n
        invariant
            i <= n,
            r@.len() == i,
            forall|j: int| 0 <= j < i ==> !(#[trigger] r@[j]),
        decreases n - i,
    {
        r.push(false);
        i = i + 1;
    }
    r
}

/// Clears every unmarked record; marked records are untouched.
fn sweep(vm: &mut VM, m: &Marks)
    requires
        vm_ok(*old(vm)),
        marks_fit(*m, old(vm).heap),
    ensures
        final(vm).state == old(vm).state,
        final(vm).const_table == old(vm).const_table,
        final(vm).cur_func_id == old(vm).cur_func_id,
        final(vm).array_proto == old(vm).array_proto,
        final(vm).output == old(vm).output,
        final(vm).heap.props@.len() == old(vm).heap.props@.len(),
        final(vm).heap.arrays@.len() == old(vm).heap.arrays@.len(),
        final(vm).heap.funcs@.len() == old(vm).heap.funcs@.len(),
        final(vm).heap.callobjs@.len() == old(vm).heap.callobjs@.len(),
        forall|i: int|
            0 <= i < old(vm).heap.props@.len() && m.mp@[i] ==> #[trigger] final(vm).heap.props@[i]
                == old(vm).heap.props@[i],
        forall|i: int|
            0 <= i < old(vm).heap.arrays@.len() && m.ma@[i] ==> #[trigger] final(vm).heap.arrays@[i] == old(vm).heap.arrays@[i],
        forall|i: int|
            0 <= i < old(vm).heap.funcs@.len() && m.mf@[i] ==> #[trigger] final(vm).heap.funcs@[i]
                == old(vm).heap.funcs@[i],
        forall|i: int|
            0 <= i < old(vm).heap.callobjs@.len() && m.mc@[i] ==> #[trigger] final(vm).heap.callobjs@[i] == old(vm).heap.callobjs@[i],
        vm_ok(*final(vm)),
{
    let np = vm.heap.props.len();
    let mut i: usize = 0;
    while i < np
        invariant
            vm_ok(*vm),
            marks_fit(*m, vm.heap),
            np == vm.heap.props@.len(),
            vm.state == old(vm).state,
            vm.const_table == old(vm).const_table,
            vm.cur_func_id == old(vm).cur_func_id,
            vm.array_proto == old(vm).array_proto,
            vm.output == old(vm).output,
            vm.heap.arrays@ == old(vm).heap.arrays@,
            vm.heap.funcs@ == old(vm).heap.funcs@,
            vm.heap.callobjs@ == old(vm).heap.callobjs@,
            vm.heap.props@.len() == old(vm).heap.props@.len(),
            forall|j: int|
                0 <= j < np && (j >= i || m.mp@[j]) ==> #[trigger] vm.heap.props@[j] == old(vm).heap.props@[j],
        decreases np - i,
    {
        if !m.mp[i] {
            let ghost h0 = vm.heap;
            vm.heap.props.set(i, PropMap { entries: Vec::new() });
            proof {
                re_establish(h0, vm.heap, *old(vm));
                crate::vm::lemma_state_ok_le(h0, vm.heap, vm.state);
                crate::vm::lemma_consts_ok_le(h0, vm.heap, vm.const_table);
            }
        }
        i = i + 1;
    }
    let na = vm.heap.arrays.len();
    let mut i2: usize = 0;
    while i2 < na
        invariant
            vm_ok(*vm),
            marks_fit(*m, vm.heap),
            na == vm.heap.arrays@.len(),
            vm.state == old(vm).state,
            vm.const_table == old(vm).const_table,
            vm.cur_func_id == old(vm).cur_func_id,
            vm.array_proto == old(vm).array_proto,
            vm.output == old(vm).output,
            vm.heap.funcs@ == old(vm).heap.funcs@,
            vm.heap.callobjs@ == old(vm).heap.callobjs@,
            vm.heap.props@.len() == old(vm).heap.props@.len(),
            vm.heap.arrays@.len() == old(vm).heap.arrays@.len(),
            forall|j: int|
                0 <= j < np && m.mp@[j] ==> #[trigger] vm.heap.props@[j] == old(vm).heap.props@[j],
            forall|j: int|
                0 <= j < na && (j >= i2 || m.ma@[j]) ==> #[trigger] vm.heap.arrays@[j] == old(vm).heap.arrays@[j],
        decreases na - i2,
    {
        if !m.ma[i2] {
            let ghost h0 = vm.heap;
            vm.heap.arrays.set(
                i2,
                crate::heap::ArrayValue {
                    elems: Vec::new(),
                    length: 0,
                    obj: PropMap { entries: Vec::new() },
                },
            );
            proof {
                re_establish(h0, vm.heap, *old(vm));
                crate::vm::lemma_state_ok_le(h0, vm.heap, vm.state);
                crate::vm::lemma_consts_ok_le(h0, vm.heap, vm.const_table);
            }
        }
        i2 = i2 + 1;
    }
    let nf = vm.heap.funcs.len();
    let mut i3: usize = 0;
    while i3 < nf
        invariant
            vm_ok(*vm),
            marks_fit(*m, vm.heap),
            nf == vm.heap.funcs@.len(),
            vm.state == old(vm).state,
            vm.const_table == old(vm).const_table,
            vm.cur_func_id == old(vm).cur_func_id,
            vm.array_proto == old(vm).array_proto,
            vm.output == old(vm).output,
            vm.heap.callobjs@ == old(vm).heap.callobjs@,
            vm.heap.props@.len() == old(vm).heap.props@.len(),
            vm.heap.arrays@.len() == old(vm).heap.arrays@.len(),
            vm.heap.funcs@.len() == old(vm).heap.funcs@.len(),
            forall|j: int|
                0 <= j < np && m.mp@[j] ==> #[trigger] vm.heap.props@[j] == old(vm).heap.props@[j],
            forall|j: int|
                0 <= j < na && m.ma@[j] ==> #[trigger] vm.heap.arrays@[j] == old(vm).heap.arrays@[j],
            forall|j: int|
                0 <= j < nf && (j >= i3 || m.mf@[j]) ==> #[trigger] vm.heap.funcs@[j] == old(vm).heap.funcs@[j],
        decreases nf - i3,
    {
        if !m.mf[i3] {
            let ghost h0 = vm.heap;
            let keep_obj = vm.heap.funcs[i3].obj;
            vm.heap.funcs.set(
                i3,
                FunctionObjectInfo {
                    id: 0,
                    name: None,
                    kind: FunctionObjectKind::User(
                        UserFunctionInfo {
                            params: Vec::new(),
                            var_names: Vec::new(),
                            lex_names: Vec::new(),
                            func_decls: Vec::new(),
                            code: Vec::new(),
                        },
                    ),
                    obj: keep_obj,
                    this: Value::Undefined,
                    outer: None,
                },
            );
            proof {
                re_establish(h0, vm.heap, *old(vm));
                crate::vm::lemma_state_ok_le(h0, vm.heap, vm.state);
                crate::vm::lemma_consts_ok_le(h0, vm.heap, vm.const_table);
            }
        }
        i3 = i3 + 1;
    }
    let nc = vm.heap.callobjs.len();
    let mut i4: usize = 0;
    while i4 < nc
        invariant
            vm_ok(*vm),
            marks_fit(*m, vm.heap),
            nc == vm.heap.callobjs@.len(),
            vm.state == old(vm).state,
            vm.const_table == old(vm).const_table,
            vm.cur_func_id == old(vm).cur_func_id,
            vm.array_proto == old(vm).array_proto,
            vm.output == old(vm).output,
            vm.heap.props@.len() == old(vm).heap.props@.len(),
            vm.heap.arrays@.len() == old(vm).heap.arrays@.len(),
            vm.heap.funcs@.len() == old(vm).heap.funcs@.len(),
            vm.heap.callobjs@.len() == old(vm).heap.callobjs@.len(),
            forall|j: int|
                0 <= j < np && m.mp@[j] ==> #[trigger] vm.heap.props@[j] == old(vm).heap.props@[j],
            forall|j: int|
                0 <= j < na && m.ma@[j] ==> #[trigger] vm.heap.arrays@[j] == old(vm).heap.arrays@[j],
            forall|j: int|
                0 <= j < nf && m.mf@[j] ==> #[trigger] vm.heap.funcs@[j] == old(vm).heap.funcs@[j],
            forall|j: int|
                0 <= j < nc && (j >= i4 || m.mc@[j]) ==> #[trigger] vm.heap.callobjs@[j] == old(vm).heap.callobjs@[j],
        decreases nc - i4,
    {
        if !m.mc[i4] {
            let ghost h0 = vm.heap;
            let keep_vals = vm.heap.callobjs[i4].vals;
            vm.heap.callobjs.set(
                i4,
                CallObject {
                    vals: keep_vals,
                    rest_params: None,
                    arguments: Vec::new(),
                    this: Value::Undefined,
                    parent: None,
                },
            );
            proof {
                re_establish(h0, vm.heap, *old(vm));
                crate::vm::lemma_state_ok_le(h0, vm.heap, vm.state);
                crate::vm::lemma_consts_ok_le(h0, vm.heap, vm.const_table);
            }
        }
        i4 = i4 + 1;
    }
}

/// After one slot is cleared, the machine is still well-formed: every
/// handle bound stays, and a cleared record holds no handles and no
/// parent.
proof fn re_establish(h0: Heap, h1: Heap, vm0: VM)
    requires
        heap_ok(h0),
        h1.props@.len() == h0.props@.len(),
        h1.arrays@.len() == h0.arrays@.len(),
        h1.funcs@.len() == h0.funcs@.len(),
        h1.callobjs@.len() == h0.callobjs@.len(),
        forall|i: int|
            0 <= i < h0.props@.len() ==> (#[trigger] h1.props@[i] == h0.props@[i]
                || h1.props@[i].entries@.len() == 0),
        forall|i: int|
            0 <= i < h0.arrays@.len() ==> (#[trigger] h1.arrays@[i] == h0.arrays@[i] || (
            h1.arrays@[i].elems@.len() == 0 && h1.arrays@[i].length == 0
                && h1.arrays@[i].obj.entries@.len() == 0)),
        forall|i: int|
            0 <= i < h0.funcs@.len() ==> (#[trigger] h1.funcs@[i] == h0.funcs@[i] || (
            h1.funcs@[i].obj == h0.funcs@[i].obj && h1.funcs@[i].this == Value::Undefined
                && h1.funcs@[i].outer is None && (h1.funcs@[i].kind matches
            FunctionObjectKind::User(u) && u.func_decls@.len() == 0))),
        forall|i: int|
            0 <= i < h0.callobjs@.len() ==> (#[trigger] h1.callobjs@[i] == h0.callobjs@[i] || (
            h1.callobjs@[i].vals == h0.callobjs@[i].vals && h1.callobjs@[i].this
                == Value::Undefined && h1.callobjs@[i].parent is None
                && h1.callobjs@[i].arguments@.len() == 0)),
    ensures
        heap_ok(h1),
{
    assert(crate::heap::heap_le(h0, h1));
    assert forall|i: int| 0 <= i < h1.props@.len() implies crate::heap::pm_ok(
        h1,
        #[trigger] h1.props@[i],
    ) by {
        if h1.props@[i] == h0.props@[i] {
            crate::heap::lemma_pm_ok_le(h0, h1, h0.props@[i]);
        }
    }
    assert forall|i: int| 0 <= i < h1.arrays@.len() implies crate::heap::array_ok(
        h1,
        #[trigger] h1.arrays@[i],
    ) by {
        if h1.arrays@[i] == h0.arrays@[i] {
            crate::heap::lemma_array_ok_le(h0, h1, h0.arrays@[i]);
        }
    }
    assert forall|i: int| 0 <= i < h1.funcs@.len() implies crate::heap::func_ok(
        h1,
        #[trigger] h1.funcs@[i],
    ) by {
        if h1.funcs@[i] == h0.funcs@[i] {
            crate::heap::lemma_func_ok_le(h0, h1, h0.funcs@[i]);
        } else {
            assert(h1.funcs@[i].obj == h0.funcs@[i].obj);
            assert(crate::heap::func_ok(h0, h0.funcs@[i]));
        }
    }
    assert forall|i: int| 0 <= i < h1.callobjs@.len() implies crate::heap::callobj_ok(
        h1,
        #[trigger] h1.callobjs@[i],
    ) && match h1.callobjs@[i].parent {
        Some(p) => p < i,
        None => true,
    } by {
        if h1.callobjs@[i] == h0.callobjs@[i] {
            crate::heap::lemma_callobj_ok_le(h0, h1, h0.callobjs@[i]);
            assert(crate::heap::callobj_ok(h0, h0.callobjs@[i]));
        } else {
            assert(h1.callobjs@[i].vals == h0.callobjs@[i].vals);
            assert(crate::heap::callobj_ok(h0, h0.callobjs@[i]));
        }
    }
}

/// Marks and schedules one property map — the array prototype at seeding.
fn mark_co_props(m: &mut Marks, wl: &mut Vec<Handle>, h: usize)
    ensures
        marks_le(*old(m), *final(m)),
        measure(*final(m), final(wl)@) <= measure(*old(m), old(wl)@),
        h < final(m).mp@.len() ==> final(m).mp@[h as int],
        final(wl)@.len() >= old(wl)@.len(),
        forall|j: int| 0 <= j < old(wl)@.len() ==> #[trigger] final(wl)@[j] == old(wl)@[j],
        new_marks_scheduled(*old(m), *final(m), final(wl)@),
        forall|x: int|
            old(wl)@.len() <= x < final(wl)@.len() ==> handle_marked(
                *final(m),
                #[trigger] final(wl)@[x],
            ),
{
    proof {
        lemma_marked_count_bound(m.mp@);
    }
    if h < m.mp.len() && !m.mp[h] {
        proof {
            lemma_marked_count_update(m.mp@, h as int);
        }
        m.mp.set(h, true);
        wl.push(Handle::Props(h));
        proof {
            assert(0 <= wl@.len() - 1 < wl@.len() && wl@[wl@.len() - 1] == Handle::Props(h));
            assert forall|hd: Handle| #[trigger] handle_marked(*m, hd) implies handle_marked(
                *old(m),
                hd,
            ) || in_list(wl@, hd) by {
                match hd {
                    Handle::Props(q) => {
                        if q == h {
                            assert(in_list(wl@, Handle::Props(h)));
                        }
                    },
                    _ => {},
                }
            }
        }
    }
}

} // verus!
