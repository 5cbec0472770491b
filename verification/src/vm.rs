//! The bytecode interpreter.
//!
//! The machine owns the heap, an operand stack of values, a scope stack of
//! call-object handles whose top is the current activation, a return
//! history of `(saved stack height, return program counter)` pairs pushed
//! on call and popped on return, and the constant table. Execution is
//! fuel-bounded: every retired instruction consumes one unit, so running a
//! program always ends — with a halt, a return that finds no call history
//! left, an error, or exhaustion, which is reported as an internal error.
//!
//! Outside `Call`, `Construct` and `Return`, no instruction changes the
//! length of the return history — that is the frame law carried by
//! [`VM::op_basic`], which also states each plain instruction's exact
//! stack and counter effect. A matched call and return shrink the operand
//! stack by exactly the argument count, leaving everything beneath the
//! consumed operands untouched — carried by [`VM::op_call`] and
//! [`VM::do_run`]. The saved stack height of the newest history entry is a
//! floor ([`frame_floor`]): an instruction that would pop or overwrite an
//! enclosing frame's entries is ill-formed bytecode and stops with the
//! stack-underflow error, which is what makes the caller's stack provably
//! survive a call.

use vstd::prelude::*;

use crate::builtins::BuiltinId;
use crate::bytecode;
use crate::callobj::CallObject;
use crate::error::RuntimeError;
use crate::function::{FunctionObjectInfo, FunctionObjectKind, FunctionParameter};
use crate::heap::{callobj_ok, heap_le, heap_ok, pm_lookup, value_ok, ArrayValue, Heap, PropMap};
use crate::jit::JitHook;
use crate::number::Number;
use crate::value::{Property, Value};

verus! {

/// How a run of a bytecode sequence ended: the halt instruction retired, or
/// a return popped the history entry the run began with.
pub enum Exit {
    Halted,
    Returned,
}

/// The two constant pools: values for the constant-push instruction, and
/// raw strings for the name instructions.
#[derive(Debug)]
pub struct ConstantTable {
    pub value: Vec<Value>,
    pub string: Vec<String>,
}

impl ConstantTable {
    /// Two empty pools.
    pub fn new() -> (r: ConstantTable)
        ensures
            r.value@.len() == 0,
            r.string@.len() == 0,
    {
        ConstantTable { value: Vec::new(), string: Vec::new() }
    }
}

/// The mutable interpreter state: operand stack, scope stack, program
/// counter and return history.
#[derive(Debug)]
pub struct VMState {
    pub stack: Vec<Value>,
    pub scope: Vec<usize>,
    pub pc: usize,
    pub history: Vec<(usize, usize)>,
}

/// The virtual machine.
pub struct VM {
    pub heap: Heap,
    pub state: VMState,
    pub const_table: ConstantTable,
    pub cur_func_id: usize,
    /// Handle of the property map arrays inherit as their prototype.
    pub array_proto: usize,
    /// What the printing built-ins emitted, in order.
    pub output: Vec<String>,
}

/// Whether the interpreter state holds only handles the heap can resolve,
/// with a nonempty scope stack.
pub open spec fn state_ok(h: Heap, s: VMState) -> bool {
    &&& forall|i: int| 0 <= i < s.stack@.len() ==> value_ok(h, #[trigger] s.stack@[i])
    &&& forall|i: int| 0 <= i < s.scope@.len() ==> (#[trigger] s.scope@[i]) < h.callobjs@.len()
    &&& s.scope@.len() >= 1
}

/// Whether the constant pool holds only handles the heap can resolve.
pub open spec fn consts_ok(h: Heap, t: ConstantTable) -> bool {
    forall|i: int| 0 <= i < t.value@.len() ==> value_ok(h, #[trigger] t.value@[i])
}

/// The machine's well-formedness: heap, state and constants agree.
pub open spec fn vm_ok(vm: VM) -> bool {
    &&& heap_ok(vm.heap)
    &&& state_ok(vm.heap, vm.state)
    &&& consts_ok(vm.heap, vm.const_table)
    &&& vm.array_proto < vm.heap.props@.len()
}

/// Interpreter state stays well-formed when the heap grows.
pub proof fn lemma_state_ok_le(h1: Heap, h2: Heap, s: VMState)
    requires
        state_ok(h1, s),
        heap_le(h1, h2),
    ensures
        state_ok(h2, s),
{
    assert forall|i: int| 0 <= i < s.stack@.len() implies value_ok(h2, #[trigger] s.stack@[i]) by {
        assert(value_ok(h1, s.stack@[i]));
    }
    assert forall|i: int| 0 <= i < s.scope@.len() implies (#[trigger] s.scope@[i])
        < h2.callobjs@.len() by {
        assert(s.scope@[i] < h1.callobjs@.len());
    }
}

/// Constants stay well-formed when the heap grows.
pub proof fn lemma_consts_ok_le(h1: Heap, h2: Heap, t: ConstantTable)
    requires
        consts_ok(h1, t),
        heap_le(h1, h2),
    ensures
        consts_ok(h2, t),
{
    assert forall|i: int| 0 <= i < t.value@.len() implies value_ok(h2, #[trigger] t.value@[i]) by {
        assert(value_ok(h1, t.value@[i]));
    }
}

/// The handle a function value carries, for speaking of the record it
/// names; anything else maps below every handle.
pub open spec fn func_handle_of(v: Value) -> int {
    match v {
        Value::Function(h) => h as int,
        _ => -1,
    }
}

/// Whether the global object binds `outer_key` to an object that binds
/// `inner_key` to the built-in function `b` — how `console.log` and the
/// `Math` entries are reached.
pub open spec fn global_resolves_to_builtin_member(
    vm: VM,
    gv: int,
    outer_key: Seq<char>,
    inner_key: Seq<char>,
    b: BuiltinId,
) -> bool {
    &&& 0 <= gv < vm.heap.props@.len()
    &&& crate::heap::pm_read(vm.heap.props@[gv].entries@, outer_key) matches Value::Object(oh)
        && oh < vm.heap.props@.len() && (crate::heap::pm_read(
        vm.heap.props@[oh as int].entries@,
        inner_key,
    ) matches Value::Function(fh) && fh < vm.heap.funcs@.len() && vm.heap.funcs@[fh as int].kind
        == FunctionObjectKind::Builtin(b))
}

/// The built-in identifier a function kind carries; a user kind maps to an
/// arbitrary fixed identifier and is never consulted through this.
pub open spec fn builtin_id_of(k: FunctionObjectKind) -> BuiltinId {
    match k {
        FunctionObjectKind::Builtin(b) => b,
        FunctionObjectKind::User(_) => BuiltinId::ConsoleLog,
    }
}

/// Whether a callee's declared parameter list is one the call protocol
/// accepts; built-ins have none to check.
pub open spec fn callee_params_ok(k: FunctionObjectKind) -> bool {
    match k {
        FunctionObjectKind::User(u) => params_well_formed(u.params@),
        FunctionObjectKind::Builtin(_) => true,
    }
}

/// The caller-protected floor of the operand stack: entries below the
/// saved height of the newest history entry belong to enclosing frames,
/// and no instruction of the current run pops or overwrites them — an
/// attempt is the stack-underflow error.
pub open spec fn frame_floor(s: VMState) -> int {
    if s.history@.len() > 0 {
        s.history@.last().0 as int
    } else {
        0
    }
}

/// Law: pushing a value and then popping leaves any operand stack as it
/// was. The push instructions extend the stack's view with the pushed
/// value, and the pop instruction drops the last element; this lemma ties
/// the two.
pub proof fn lemma_push_pop(s: Seq<Value>, v: Value)
    ensures
        s.push(v).drop_last() == s,
{
    assert(s.push(v).drop_last() =~= s);
}

/// Law: duplicating the top of the stack and then popping leaves any
/// nonempty operand stack as it was. The duplicate instruction pushes the
/// stack's last element, and the pop instruction drops the last element;
/// this lemma ties the two.
pub proof fn lemma_double_pop(s: Seq<Value>)
    requires
        s.len() > 0,
    ensures
        s.push(s.last()).drop_last() == s,
{
    assert(s.push(s.last()).drop_last() =~= s);
}

/// The message of the fatal type error raised at a call or construction
/// whose target is not callable: it names the program counter at which the
/// fault was found.
pub open spec fn type_error_text(pc: int, tail: Seq<char>) -> Seq<char> {
    "type error(pc:"@ + crate::number::dec_digits(pc) + ")"@ + tail
}

/// The type error for a non-callable call or construction target, carrying
/// the program counter `pc`.
fn type_error_at(pc: usize, tail: &str) -> (r: RuntimeError)
    ensures
        (r matches RuntimeError::Type(m) && m@ == type_error_text(pc as int, tail@)),
{
    let mut s = String::from_str("type error(pc:");
    crate::number::append_u64_digits(&mut s, pc as u64);
    s.append(")");
    s.append(tail);
    proof {
        assert(s@ =~= type_error_text(pc as int, tail@));
    }
    RuntimeError::Type(s)
}

/// The characters of a string value; the empty sequence for any other kind.
pub open spec fn str_chars_of(v: Value) -> Seq<char> {
    match v {
        Value::Str(s) => s@,
        _ => Seq::<char>::empty(),
    }
}

/// Whether the topmost `count` alternating key slots of the stack all hold
/// string values: slot `j` is the `j`-th key from the top.
pub open spec fn obj_keys_ok(s0: Seq<Value>, count: int) -> bool
    decreases count,
{
    count <= 0 || ((s0[s0.len() - 1 - 2 * (count - 1)] matches Value::Str(_)) && obj_keys_ok(
        s0,
        count - 1,
    ))
}

proof fn lemma_obj_keys_ok(s0: Seq<Value>, count: int, j: int)
    requires
        obj_keys_ok(s0, count),
        0 <= j < count,
    ensures
        s0[s0.len() - 1 - 2 * j] matches Value::Str(_),
    decreases count,
{
    if j < count - 1 {
        lemma_obj_keys_ok(s0, count - 1, j);
    }
}

/// The key/value couples the object-literal instruction pops: couple `j`
/// holds the `j`-th key from the top of the stack and the value beneath it.
pub open spec fn create_pairs(s0: Seq<Value>, count: int) -> Seq<(Seq<char>, Value)> {
    Seq::new(
        count as nat,
        |j: int| (str_chars_of(s0[s0.len() - 1 - 2 * j]), s0[s0.len() - 2 - 2 * j]),
    )
}

/// The property such a couple sequence leaves under `key` when each couple
/// is bound in order and a later binding overwrites an earlier one.
pub open spec fn pairs_opt(pairs: Seq<(Seq<char>, Value)>, key: Seq<char>) -> Option<Property>
    decreases pairs.len(),
{
    if pairs.len() == 0 {
        None
    } else if pairs.last().0 == key {
        Some(crate::heap::data_prop(pairs.last().1))
    } else {
        pairs_opt(pairs.drop_last(), key)
    }
}

/// A built-in function value named `name`, with its own empty property map.
fn make_builtin(heap: &mut Heap, id: BuiltinId, name: &str) -> (r: Value)
    requires
        heap_ok(*old(heap)),
    ensures
        heap_ok(*final(heap)),
        heap_le(*old(heap), *final(heap)),
        final(heap).callobjs@ == old(heap).callobjs@,
        final(heap).arrays@ == old(heap).arrays@,
        forall|i: int|
            0 <= i < old(heap).funcs@.len() ==> #[trigger] final(heap).funcs@[i] == old(heap).funcs@[i],
        forall|i: int|
            0 <= i < old(heap).props@.len() ==> #[trigger] final(heap).props@[i] == old(heap).props@[i],
        r matches Value::Function(fh) && fh == old(heap).funcs@.len() && fh < final(heap).funcs@.len() && (final(heap).funcs@[fh as int].kind matches FunctionObjectKind::Builtin(b)
            && b == id),
        value_ok(*final(heap), r),
{
    let obj = heap.alloc_props(PropMap::new());
    let f = FunctionObjectInfo {
        id: 0,
        name: Some(String::from_str(name)),
        kind: FunctionObjectKind::Builtin(id),
        obj,
        this: Value::Undefined,
        outer: None,
    };
    let fh = heap.alloc_func(f);
    Value::Function(fh)
}

/// Allocates the construction receiver: a fresh ordinary object whose
/// `__proto__` is bound to the data value of the callee's `prototype`
/// property — `Undefined` when the callee has none — and nothing else.
fn alloc_receiver(heap: &mut Heap, fh: usize) -> (nh: usize)
    requires
        heap_ok(*old(heap)),
        fh < old(heap).funcs@.len(),
    ensures
        heap_ok(*final(heap)),
        heap_le(*old(heap), *final(heap)),
        nh == old(heap).props@.len(),
        final(heap).props@.len() == old(heap).props@.len() + 1,
        forall|i: int|
            0 <= i < old(heap).props@.len() ==> #[trigger] final(heap).props@[i] == old(heap).props@[i],
        final(heap).arrays@ == old(heap).arrays@,
        final(heap).funcs@ == old(heap).funcs@,
        final(heap).callobjs@ == old(heap).callobjs@,
        pm_lookup(final(heap).props@[nh as int].entries@, "__proto__"@) == Some(
            crate::heap::data_prop(
                crate::heap::pm_read(
                    old(heap).props@[old(heap).funcs@[fh as int].obj as int].entries@,
                    "prototype"@,
                ),
            ),
        ),
        forall|k2: Seq<char>|
            k2 != "__proto__"@ ==> #[trigger] pm_lookup(final(heap).props@[nh as int].entries@, k2)
                is None,
{
    proof {
        assert(crate::heap::func_ok(*heap, heap.funcs@[fh as int]));
    }
    let obj_h = heap.funcs[fh].obj;
    let proto = match heap.prop_lookup(obj_h, &String::from_str("prototype")) {
        Some(p) => p.read(),
        None => Value::Undefined,
    };
    proof {
        assert(crate::heap::pm_ok(*heap, heap.props@[obj_h as int]));
        crate::heap::lemma_pm_lookup_prop_ok(
            *heap,
            heap.props@[obj_h as int].entries@,
            "prototype"@,
        );
    }
    let mut new_pm = PropMap::new();
    new_pm.insert(String::from_str("__proto__"), Property::new(proto));
    heap.alloc_props(new_pm)
}

impl VM {
    /// A fresh machine: an empty operand stack, the global call object as
    /// the only scope, a seeded return history, and the host-visible
    /// globals `console`, `process.stdout` and `Math` installed in the
    /// global object.
    pub fn new() -> (vm: VM)
        ensures
            vm_ok(vm),
            vm.state.stack@.len() == 0,
            vm.state.scope@.len() == 1,
            vm.state.history@ == seq![(0usize, 0usize)],
            vm.state.pc == 0,
            vm.cur_func_id == 0,
            vm.output@.len() == 0,
            vm.const_table.value@.len() == 0,
            vm.const_table.string@.len() == 0,
            // the host-visible globals resolve from the global object to
            // the installed built-ins
            ({
                let gv = vm.heap.callobjs@[vm.state.scope@[0] as int].vals as int;
                &&& global_resolves_to_builtin_member(vm, gv, "console"@, "log"@, BuiltinId::ConsoleLog)
                &&& global_resolves_to_builtin_member(vm, gv, "Math"@, "floor"@, BuiltinId::MathFloor)
                &&& global_resolves_to_builtin_member(vm, gv, "Math"@, "abs"@, BuiltinId::MathAbs)
                &&& global_resolves_to_builtin_member(vm, gv, "Math"@, "pow"@, BuiltinId::MathPow)
                &&& global_resolves_to_builtin_member(vm, gv, "Math"@, "min"@, BuiltinId::MathMin)
                &&& global_resolves_to_builtin_member(vm, gv, "Math"@, "max"@, BuiltinId::MathMax)
                // process.stdout.write: two object hops to the writer
                &&& (crate::heap::pm_read(vm.heap.props@[gv].entries@, "process"@) matches
                Value::Object(ph) && ph < vm.heap.props@.len() && (crate::heap::pm_read(
                    vm.heap.props@[ph as int].entries@,
                    "stdout"@,
                ) matches Value::Object(sh) && sh < vm.heap.props@.len() && (crate::heap::pm_read(
                    vm.heap.props@[sh as int].entries@,
                    "write"@,
                ) matches Value::Function(wf) && wf < vm.heap.funcs@.len()
                    && vm.heap.funcs@[wf as int].kind == FunctionObjectKind::Builtin(
                    BuiltinId::ProcessStdoutWrite,
                ))))
                // Array.prototype is the prototype map arrays inherit
                &&& (crate::heap::pm_read(vm.heap.props@[gv].entries@, "Array"@) matches
                Value::Object(arh) && arh < vm.heap.props@.len() && crate::heap::pm_read(
                    vm.heap.props@[arh as int].entries@,
                    "prototype"@,
                ) == Value::Object(vm.array_proto))
                // module.exports and exports are one shared object
                &&& (crate::heap::pm_read(vm.heap.props@[gv].entries@, "module"@) matches
                Value::Object(mh) && mh < vm.heap.props@.len() && crate::heap::pm_read(
                    vm.heap.props@[mh as int].entries@,
                    "exports"@,
                ) == crate::heap::pm_read(vm.heap.props@[gv].entries@, "exports"@)
                    && crate::heap::pm_read(vm.heap.props@[gv].entries@, "exports"@) matches
                Value::Object(_))
                // the array prototype offers the push built-in
                &&& (crate::heap::pm_read(vm.heap.props@[vm.array_proto as int].entries@, "push"@)
                    matches Value::Function(pf) && pf < vm.heap.funcs@.len()
                    && vm.heap.funcs@[pf as int].kind == FunctionObjectKind::Builtin(
                    BuiltinId::ArrayPush,
                ))
            }),
    {
        let mut heap = Heap::new();
        let global = CallObject::new_global(&mut heap);
        let global_vals = heap.callobjs[global].vals;
        proof {
            assert(callobj_ok(heap, heap.callobjs@[global as int]));
            reveal_strlit("console");
            reveal_strlit("log");
            reveal_strlit("process");
            reveal_strlit("stdout");
            reveal_strlit("write");
            reveal_strlit("Math");
            reveal_strlit("floor");
            reveal_strlit("abs");
            reveal_strlit("pow");
            reveal_strlit("min");
            reveal_strlit("max");
            reveal_strlit("Array");
            reveal_strlit("prototype");
            reveal_strlit("module");
            reveal_strlit("exports");
            reveal_strlit("push");
            // keys of equal length differ at a position
            assert(("console"@)[0] != ("process"@)[0]);
            assert(("console"@)[0] != ("exports"@)[0]);
            assert(("process"@)[0] != ("exports"@)[0]);
            assert(("abs"@)[0] != ("pow"@)[0]);
            assert(("abs"@)[0] != ("min"@)[0]);
            assert(("abs"@)[0] != ("max"@)[0]);
            assert(("pow"@)[0] != ("min"@)[0]);
            assert(("pow"@)[0] != ("max"@)[0]);
            assert(("min"@)[1] != ("max"@)[1]);
            assert("console"@ != "process"@);
            assert("console"@ != "exports"@);
            assert("process"@ != "exports"@);
            assert("abs"@ != "pow"@);
            assert("abs"@ != "min"@);
            assert("abs"@ != "max"@);
            assert("pow"@ != "min"@);
            assert("pow"@ != "max"@);
            assert("min"@ != "max"@);
            // keys of different length differ
            assert(("Math"@).len() != ("console"@).len() && "Math"@ != "console"@);
            assert(("Math"@).len() != ("process"@).len() && "Math"@ != "process"@);
            assert(("Math"@).len() != ("Array"@).len() && "Math"@ != "Array"@);
            assert(("Math"@).len() != ("module"@).len() && "Math"@ != "module"@);
            assert(("Math"@).len() != ("exports"@).len() && "Math"@ != "exports"@);
            assert(("Array"@).len() != ("console"@).len() && "Array"@ != "console"@);
            assert(("Array"@).len() != ("process"@).len() && "Array"@ != "process"@);
            assert(("Array"@).len() != ("module"@).len() && "Array"@ != "module"@);
            assert(("Array"@).len() != ("exports"@).len() && "Array"@ != "exports"@);
            assert(("module"@).len() != ("console"@).len() && "module"@ != "console"@);
            assert(("module"@).len() != ("process"@).len() && "module"@ != "process"@);
            assert(("module"@).len() != ("exports"@).len() && "module"@ != "exports"@);
            assert(("floor"@).len() != ("abs"@).len() && "floor"@ != "abs"@);
            assert(("floor"@).len() != ("pow"@).len() && "floor"@ != "pow"@);
            assert(("floor"@).len() != ("min"@).len() && "floor"@ != "min"@);
            assert(("floor"@).len() != ("max"@).len() && "floor"@ != "max"@);
        }

        let log_fn = make_builtin(&mut heap, BuiltinId::ConsoleLog, "log");
        let ghost g_log_fn = log_fn;
        let mut console_pm = PropMap::new();
        console_pm.insert(String::from_str("log"), Property::new(log_fn));
        let console_h = heap.alloc_props(console_pm);
        let console_key = String::from_str("console");
        let console_prop = Property::new(Value::Object(console_h));
        let ghost g_console_prop = console_prop;
        let ghost g_console_key = console_key;
        heap.prop_insert(global_vals, console_key, console_prop);
        proof {
            assert(g_console_prop == crate::heap::data_prop(Value::Object(console_h)));
            assert(g_console_key@ == "console"@);
            assert(pm_lookup(heap.props@[global_vals as int].entries@, "console"@) == Some(
                g_console_prop,
            ));
        }
        proof {
            reveal_strlit("console");
            assert(pm_lookup(heap.props@[global_vals as int].entries@, "console"@) is Some);
            assert(crate::heap::data_prop(Value::Object(console_h)) == (Property::Data {
                value: Value::Object(console_h),
                writable: true,
                enumerable: true,
                configurable: true,
            }));
            assert(pm_lookup(heap.props@[global_vals as int].entries@, "console"@)
                == Some(crate::heap::data_prop(Value::Object(console_h))));
        }

        let write_fn = make_builtin(&mut heap, BuiltinId::ProcessStdoutWrite, "write");
        let ghost g_write_fn = write_fn;
        let mut stdout_pm = PropMap::new();
        stdout_pm.insert(String::from_str("write"), Property::new(write_fn));
        let stdout_h = heap.alloc_props(stdout_pm);
        let mut process_pm = PropMap::new();
        process_pm.insert(String::from_str("stdout"), Property::new(Value::Object(stdout_h)));
        let process_h = heap.alloc_props(process_pm);
        let process_key = String::from_str("process");
        let process_prop = Property::new(Value::Object(process_h));
        let ghost g_process_prop = process_prop;
        heap.prop_insert(global_vals, process_key, process_prop);
        proof {
            assert(g_process_prop == crate::heap::data_prop(Value::Object(process_h)));
        }
        proof {
            reveal_strlit("console");
            reveal_strlit("process");
            assert(pm_lookup(heap.props@[global_vals as int].entries@, "console"@) == Some(
                crate::heap::data_prop(Value::Object(console_h)),
            ));
            assert(pm_lookup(heap.props@[global_vals as int].entries@, "process"@) == Some(
                crate::heap::data_prop(Value::Object(process_h)),
            ));
        }

        let floor_fn = make_builtin(&mut heap, BuiltinId::MathFloor, "floor");
        let ghost g_floor_fn = floor_fn;
        let abs_fn = make_builtin(&mut heap, BuiltinId::MathAbs, "abs");
        let ghost g_abs_fn = abs_fn;
        let pow_fn = make_builtin(&mut heap, BuiltinId::MathPow, "pow");
        let ghost g_pow_fn = pow_fn;
        let min_fn = make_builtin(&mut heap, BuiltinId::MathMin, "min");
        let ghost g_min_fn = min_fn;
        let max_fn = make_builtin(&mut heap, BuiltinId::MathMax, "max");
        let ghost g_max_fn = max_fn;
        let mut math_pm = PropMap::new();
        math_pm.insert(String::from_str("floor"), Property::new(floor_fn));
        math_pm.insert(String::from_str("abs"), Property::new(abs_fn));
        math_pm.insert(String::from_str("pow"), Property::new(pow_fn));
        math_pm.insert(String::from_str("min"), Property::new(min_fn));
        math_pm.insert(String::from_str("max"), Property::new(max_fn));
        let math_h = heap.alloc_props(math_pm);
        let Math_key = String::from_str("Math");
        let Math_prop = Property::new(Value::Object(math_h));
        let ghost g_Math_prop = Math_prop;
        heap.prop_insert(global_vals, Math_key, Math_prop);
        proof {
            assert(g_Math_prop == crate::heap::data_prop(Value::Object(math_h)));
        }
        proof {
            reveal_strlit("console");
            reveal_strlit("process");
            reveal_strlit("Math");
            assert(pm_lookup(heap.props@[global_vals as int].entries@, "console"@) == Some(
                crate::heap::data_prop(Value::Object(console_h)),
            ));
            assert(pm_lookup(heap.props@[global_vals as int].entries@, "process"@) == Some(
                crate::heap::data_prop(Value::Object(process_h)),
            ));
            assert(pm_lookup(heap.props@[global_vals as int].entries@, "Math"@) == Some(
                crate::heap::data_prop(Value::Object(math_h)),
            ));
        }

        let push_fn = make_builtin(&mut heap, BuiltinId::ArrayPush, "push");
        let ghost g_push_fn = push_fn;
        let mut proto_pm = PropMap::new();
        proto_pm.insert(String::from_str("push"), Property::new(push_fn));
        let array_proto = heap.alloc_props(proto_pm);

        let mut array_pm = PropMap::new();
        array_pm.insert(String::from_str("prototype"), Property::new(Value::Object(array_proto)));
        let array_h = heap.alloc_props(array_pm);
        let Array_key = String::from_str("Array");
        let Array_prop = Property::new(Value::Object(array_h));
        let ghost g_Array_prop = Array_prop;
        heap.prop_insert(global_vals, Array_key, Array_prop);
        proof {
            assert(g_Array_prop == crate::heap::data_prop(Value::Object(array_h)));
        }
        proof {
            reveal_strlit("console");
            reveal_strlit("process");
            reveal_strlit("Math");
            reveal_strlit("Array");
            assert(pm_lookup(heap.props@[global_vals as int].entries@, "console"@) == Some(
                crate::heap::data_prop(Value::Object(console_h)),
            ));
            assert(pm_lookup(heap.props@[global_vals as int].entries@, "process"@) == Some(
                crate::heap::data_prop(Value::Object(process_h)),
            ));
            assert(pm_lookup(heap.props@[global_vals as int].entries@, "Math"@) == Some(
                crate::heap::data_prop(Value::Object(math_h)),
            ));
            assert(pm_lookup(heap.props@[global_vals as int].entries@, "Array"@) == Some(
                crate::heap::data_prop(Value::Object(array_h)),
            ));
        }

        let exports_h = heap.alloc_props(PropMap::new());
        let mut module_pm = PropMap::new();
        module_pm.insert(String::from_str("exports"), Property::new(Value::Object(exports_h)));
        let module_h = heap.alloc_props(module_pm);
        let module_key = String::from_str("module");
        let module_prop = Property::new(Value::Object(module_h));
        let ghost g_module_prop = module_prop;
        heap.prop_insert(global_vals, module_key, module_prop);
        proof {
            assert(g_module_prop == crate::heap::data_prop(Value::Object(module_h)));
        }
        proof {
            reveal_strlit("console");
            reveal_strlit("process");
            reveal_strlit("Math");
            reveal_strlit("Array");
            reveal_strlit("module");
            assert(pm_lookup(heap.props@[global_vals as int].entries@, "console"@) == Some(
                crate::heap::data_prop(Value::Object(console_h)),
            ));
            assert(pm_lookup(heap.props@[global_vals as int].entries@, "process"@) == Some(
                crate::heap::data_prop(Value::Object(process_h)),
            ));
            assert(pm_lookup(heap.props@[global_vals as int].entries@, "Math"@) == Some(
                crate::heap::data_prop(Value::Object(math_h)),
            ));
            assert(pm_lookup(heap.props@[global_vals as int].entries@, "Array"@) == Some(
                crate::heap::data_prop(Value::Object(array_h)),
            ));
            assert(pm_lookup(heap.props@[global_vals as int].entries@, "module"@) == Some(
                crate::heap::data_prop(Value::Object(module_h)),
            ));
        }
        let exports_key = String::from_str("exports");
        let exports_prop = Property::new(Value::Object(exports_h));
        let ghost g_exports_prop = exports_prop;
        heap.prop_insert(global_vals, exports_key, exports_prop);
        proof {
            assert(g_exports_prop == crate::heap::data_prop(Value::Object(exports_h)));
        }
        proof {
            reveal_strlit("console");
            reveal_strlit("process");
            reveal_strlit("Math");
            reveal_strlit("Array");
            reveal_strlit("module");
            reveal_strlit("exports");
            assert(pm_lookup(heap.props@[global_vals as int].entries@, "console"@) == Some(
                crate::heap::data_prop(Value::Object(console_h)),
            ));
            assert(pm_lookup(heap.props@[global_vals as int].entries@, "process"@) == Some(
                crate::heap::data_prop(Value::Object(process_h)),
            ));
            assert(pm_lookup(heap.props@[global_vals as int].entries@, "Math"@) == Some(
                crate::heap::data_prop(Value::Object(math_h)),
            ));
            assert(pm_lookup(heap.props@[global_vals as int].entries@, "Array"@) == Some(
                crate::heap::data_prop(Value::Object(array_h)),
            ));
            assert(pm_lookup(heap.props@[global_vals as int].entries@, "module"@) == Some(
                crate::heap::data_prop(Value::Object(module_h)),
            ));
            assert(pm_lookup(heap.props@[global_vals as int].entries@, "exports"@) == Some(
                crate::heap::data_prop(Value::Object(exports_h)),
            ));
        }

        let mut scope: Vec<usize> = Vec::new();
        scope.push(global);
        let mut history: Vec<(usize, usize)> = Vec::new();
        history.push((0, 0));
        proof {
            reveal_strlit("console");
            reveal_strlit("log");
            reveal_strlit("process");
            reveal_strlit("stdout");
            reveal_strlit("write");
            reveal_strlit("Math");
            reveal_strlit("floor");
            reveal_strlit("abs");
            reveal_strlit("pow");
            reveal_strlit("min");
            reveal_strlit("max");
            reveal_strlit("Array");
            reveal_strlit("prototype");
            reveal_strlit("module");
            reveal_strlit("exports");
            reveal_strlit("push");
            assert(heap.callobjs@[global as int].vals == global_vals);
            let gv = global_vals as int;
            let e = heap.props@[gv].entries@;
            // the global object's own bindings
            assert(crate::heap::pm_read(e, "console"@) == Value::Object(console_h));
            assert(crate::heap::pm_read(e, "process"@) == Value::Object(process_h));
            assert(crate::heap::pm_read(e, "Math"@) == Value::Object(math_h));
            assert(crate::heap::pm_read(e, "Array"@) == Value::Object(array_h));
            assert(crate::heap::pm_read(e, "module"@) == Value::Object(module_h));
            assert(crate::heap::pm_read(e, "exports"@) == Value::Object(exports_h));
            // the installed objects' members
            assert(crate::heap::pm_read(heap.props@[console_h as int].entries@, "log"@)
                == g_log_fn);
            assert(crate::heap::pm_read(heap.props@[process_h as int].entries@, "stdout"@)
                == Value::Object(stdout_h));
            assert(crate::heap::pm_read(heap.props@[stdout_h as int].entries@, "write"@)
                == g_write_fn);
            assert(crate::heap::pm_read(heap.props@[math_h as int].entries@, "floor"@)
                == g_floor_fn);
            assert(crate::heap::pm_read(heap.props@[math_h as int].entries@, "abs"@) == g_abs_fn);
            assert(crate::heap::pm_read(heap.props@[math_h as int].entries@, "pow"@) == g_pow_fn);
            assert(crate::heap::pm_read(heap.props@[math_h as int].entries@, "min"@) == g_min_fn);
            assert(crate::heap::pm_read(heap.props@[math_h as int].entries@, "max"@) == g_max_fn);
            assert(crate::heap::pm_read(heap.props@[array_h as int].entries@, "prototype"@)
                == Value::Object(array_proto));
            assert(crate::heap::pm_read(heap.props@[array_proto as int].entries@, "push"@)
                == g_push_fn);
            assert(crate::heap::pm_read(heap.props@[module_h as int].entries@, "exports"@)
                == Value::Object(exports_h));
        }
        VM {
            heap,
            state: VMState { stack: Vec::new(), scope, pc: 0, history },
            const_table: ConstantTable::new(),
            cur_func_id: 0,
            array_proto,
            output: Vec::new(),
        }
    }

    /// Pushes a value onto the operand stack.
    fn push_val(&mut self, v: Value)
        requires
            state_ok(old(self).heap, old(self).state),
            value_ok(old(self).heap, v),
        ensures
            final(self).state.stack@ == old(self).state.stack@.push(v),
            final(self).state.scope@ == old(self).state.scope@,
            final(self).state.pc == old(self).state.pc,
            final(self).state.history@ == old(self).state.history@,
            final(self).heap == old(self).heap,
            final(self).const_table == old(self).const_table,
            final(self).cur_func_id == old(self).cur_func_id,
            final(self).array_proto == old(self).array_proto,
            final(self).output == old(self).output,
            state_ok(final(self).heap, final(self).state),
    {
        self.state.stack.push(v);
        proof {
            assert forall|i: int| 0 <= i < self.state.stack@.len() implies value_ok(
                self.heap,
                #[trigger] self.state.stack@[i],
            ) by {
                if i < old(self).state.stack@.len() {
                    assert(value_ok(old(self).heap, old(self).state.stack@[i]));
                }
            }
        }
    }

    /// Pops the top of the operand stack; an empty stack is ill-formed
    /// bytecode.
    fn pop_val(&mut self) -> (r: Result<Value, RuntimeError>)
        requires
            state_ok(old(self).heap, old(self).state),
        ensures
            final(self).state.scope@ == old(self).state.scope@,
            final(self).state.pc == old(self).state.pc,
            final(self).state.history@ == old(self).state.history@,
            final(self).heap == old(self).heap,
            final(self).const_table == old(self).const_table,
            final(self).cur_func_id == old(self).cur_func_id,
            final(self).array_proto == old(self).array_proto,
            final(self).output == old(self).output,
            state_ok(final(self).heap, final(self).state),
            match r {
                Ok(v) => old(self).state.stack@.len() > frame_floor(old(self).state) && v == old(self).state.stack@.last() && final(self).state.stack@ == old(self).state.stack@.drop_last() && value_ok(final(self).heap, v),
                Err(e) => old(self).state.stack@.len() <= frame_floor(old(self).state) && final(self).state.stack@ == old(self).state.stack@ && e matches RuntimeError::General(_),
            },
    {
        let hn = self.state.history.len();
        let fl: usize = if hn > 0 {
            self.state.history[hn - 1].0
        } else {
            0
        };
        if self.state.stack.len() <= fl {
            return Err(RuntimeError::General(String::from_str("operand stack underflow")));
        }
        match self.state.stack.pop() {
            Some(v) => {
                proof {
                    assert(value_ok(self.heap, old(self).state.stack@.last()));
                }
                Ok(v)
            },
            None => Err(RuntimeError::General(String::from_str("operand stack underflow"))),
        }
    }

    /// The current activation: the top of the scope stack.
    fn scope_top(&self) -> (r: usize)
        requires
            state_ok(self.heap, self.state),
        ensures
            r == self.state.scope@.last(),
            r < self.heap.callobjs@.len(),
    {
        self.state.scope[self.state.scope.len() - 1]
    }

    /// The operand-stack floor of the current frame.
    fn floor_val(&self) -> (r: usize)
        ensures
            r as int == frame_floor(self.state),
    {
        let hn = self.state.history.len();
        if hn > 0 {
            self.state.history[hn - 1].0
        } else {
            0
        }
    }

    /// Retires one instruction that is none of `Call`, `Construct`,
    /// `Return` or `End`.
    ///
    /// Whatever the instruction, the return history and the scope stack are
    /// unchanged — the frame law behind the rule that only calls, object
    /// constructions and returns move the history — the output buffer is
    /// untouched, and the caller-protected part of the operand stack below
    /// the frame floor survives unchanged. For the plain instructions the
    /// exact stack and counter effect is stated per opcode.
    #[verifier::rlimit(100)]
    fn op_basic<J: JitHook>(&mut self, iseq: &Vec<u8>, jit: &mut J) -> (r: Result<
        (),
        RuntimeError,
    >)
        requires
            vm_ok(*old(self)),
            old(self).state.pc < iseq@.len(),
            iseq@[old(self).state.pc as int] != bytecode::CALL,
            iseq@[old(self).state.pc as int] != bytecode::CONSTRUCT,
            iseq@[old(self).state.pc as int] != bytecode::RETURN,
            iseq@[old(self).state.pc as int] != bytecode::END,
            frame_floor(old(self).state) <= old(self).state.stack@.len(),
        ensures
            vm_ok(*final(self)),
            heap_le(old(self).heap, final(self).heap),
            final(self).state.history@ == old(self).state.history@,
            final(self).state.scope@ == old(self).state.scope@,
            final(self).cur_func_id == old(self).cur_func_id,
            final(self).array_proto == old(self).array_proto,
            final(self).const_table == old(self).const_table,
            final(self).output == old(self).output,
            final(self).state.stack@.len() >= frame_floor(old(self).state),
            final(self).state.stack@.take(frame_floor(old(self).state)) == old(self).state.stack@.take(frame_floor(old(self).state)),
            ({
                let pcv = old(self).state.pc as int;
                let op = iseq@[pcv];
                let s0 = old(self).state.stack@;
                let n0 = s0.len() as int;
                let fl = frame_floor(old(self).state);
                &&& ((op == bytecode::CREATE_CONTEXT || op == bytecode::LAND || op
                    == bytecode::LOR || op == bytecode::COND_OP) ==> r is Ok && final(self).state.stack@ == s0 && final(self).heap == old(self).heap && final(self).state.pc == pcv
                    + 1)
                &&& (op == bytecode::PUSH_FALSE ==> r is Ok && final(self).state.stack@
                    == s0.push(Value::Bool(false)) && final(self).heap == old(self).heap && final(self).state.pc == pcv + 1)
                &&& (op == bytecode::PUSH_TRUE ==> r is Ok && final(self).state.stack@ == s0.push(
                    Value::Bool(true),
                ) && final(self).heap == old(self).heap && final(self).state.pc == pcv + 1)
                &&& (op == bytecode::PUSH_UNDEFINED ==> r is Ok && final(self).state.stack@
                    == s0.push(Value::Undefined) && final(self).heap == old(self).heap && final(self).state.pc == pcv + 1)
                &&& (op == bytecode::PUSH_ARGUMENTS ==> r is Ok && final(self).state.stack@
                    == s0.push(Value::Arguments) && final(self).heap == old(self).heap && final(self).state.pc == pcv + 1)
                &&& (op == bytecode::PUSH_INT8 && iseq@.len() - pcv >= 2 ==> r is Ok && final(self).state.stack@ == s0.push(
                    Value::Number(Number::Int(iseq@[pcv + 1] as i8 as i64)),
                ) && final(self).heap == old(self).heap && final(self).state.pc == pcv + 2)
                &&& (op == bytecode::PUSH_INT32 && iseq@.len() - pcv >= 5 ==> r is Ok && final(self).state.stack@ == s0.push(
                    Value::Number(Number::Int(bytecode::imm32(iseq@, pcv + 1) as i32 as i64)),
                ) && final(self).heap == old(self).heap && final(self).state.pc == pcv + 5)
                &&& (op == bytecode::PUSH_CONST && iseq@.len() - pcv >= 5 ==> {
                    let idx = bytecode::imm32(iseq@, pcv + 1) as int;
                    &&& (idx < old(self).const_table.value@.len() ==> r is Ok && final(self).state.stack@ == s0.push(old(self).const_table.value@[idx]) && final(self).heap
                        == old(self).heap && final(self).state.pc == pcv + 5)
                    &&& (idx >= old(self).const_table.value@.len() ==> (r matches Err(e)
                        && e matches RuntimeError::General(_)))
                })
                &&& (op == bytecode::PUSH_THIS ==> r is Ok && final(self).state.stack@ == s0.push(
                    old(self).heap.callobjs@[old(self).state.scope@.last() as int].this,
                ) && final(self).heap == old(self).heap && final(self).state.pc == pcv + 1)
                &&& (op == bytecode::LNOT && n0 > fl ==> r is Ok && final(self).state.stack@
                    == s0.drop_last().push(
                    Value::Bool(!crate::value::to_boolean_spec(s0.last())),
                ) && final(self).heap == old(self).heap && final(self).state.pc == pcv + 1)
                &&& (op == bytecode::POSI && n0 > fl ==> r is Ok && final(self).state.stack@
                    == s0.drop_last().push(
                    Value::Number(crate::value::to_number_spec(s0.last())),
                ) && final(self).heap == old(self).heap && final(self).state.pc == pcv + 1)
                &&& (op == bytecode::NEG && n0 > fl ==> match s0.last() {
                    Value::Number(nv) => r is Ok && final(self).state.stack@
                        == s0.drop_last().push(Value::Number(crate::number::neg_spec(nv)))
                        && final(self).state.pc == pcv + 1,
                    _ => r matches Err(e) && e matches RuntimeError::Unimplemented,
                })
                &&& (bytecode::ADD <= op && op <= bytecode::ZFSHR && n0 - fl >= 2 ==> match
                    crate::binop::binop_outcome(op, s0[n0 - 2], s0[n0 - 1]) {
                    crate::binop::BinOutcome::Val(v) => r is Ok && final(self).state.stack@
                        == s0.take(n0 - 2).push(v) && final(self).state.pc == pcv + 1,
                    crate::binop::BinOutcome::Txt(txt) => r is Ok && final(self).state.stack@.len() == n0 - 1 && final(self).state.stack@.take(n0 - 2) == s0.take(n0 - 2)
                        && (final(self).state.stack@.last() matches Value::Str(x) && x@ == txt)
                        && final(self).state.pc == pcv + 1,
                    crate::binop::BinOutcome::Unimpl => r matches Err(e) && e matches
                    RuntimeError::Unimplemented,
                })
                &&& (op == bytecode::DOUBLE && n0 > 0 ==> r is Ok && final(self).state.stack@
                    == s0.push(s0.last()) && final(self).heap == old(self).heap && final(self).state.pc == pcv + 1)
                &&& (op == bytecode::POP ==> r is Ok && final(self).state.stack@ == (if n0 > fl {
                    s0.drop_last()
                } else {
                    s0
                }) && final(self).heap == old(self).heap && final(self).state.pc == pcv + 1)
                &&& (op == bytecode::GET_NAME && iseq@.len() - pcv >= 5 ==> {
                    let idx = bytecode::imm32(iseq@, pcv + 1) as int;
                    idx < old(self).const_table.string@.len() ==> match crate::callobj::chain_lookup(
                        old(self).heap,
                        old(self).state.scope@.last() as int,
                        old(self).const_table.string@[idx]@,
                    ) {
                        Some(v) => r is Ok && final(self).state.stack@ == s0.push(v) && final(self).heap == old(self).heap && final(self).state.pc == pcv + 5,
                        None => r matches Err(e) && e matches RuntimeError::Reference(_),
                    }
                })
                &&& (op == bytecode::JMP && iseq@.len() - pcv >= 5 ==> {
                    let target = pcv + 5 + (bytecode::imm32(iseq@, pcv + 1) as i32 as int);
                    &&& final(self).state.stack@ == s0
                    &&& final(self).heap == old(self).heap
                    &&& (0 <= target <= usize::MAX ==> r is Ok && final(self).state.pc == target)
                    &&& (!(0 <= target <= usize::MAX) ==> (r matches Err(e) && e matches
                    RuntimeError::General(_)))
                })
                &&& (op == bytecode::JMP_IF_FALSE && iseq@.len() - pcv >= 5 && n0 > fl ==> {
                    let target = pcv + 5 + (bytecode::imm32(iseq@, pcv + 1) as i32 as int);
                    &&& final(self).state.stack@ == s0.drop_last()
                    &&& final(self).heap == old(self).heap
                    &&& (s0.last() == Value::Bool(false) ==> ((0 <= target <= usize::MAX ==> r
                        is Ok && final(self).state.pc == target) && (!(0 <= target <= usize::MAX)
                        ==> (r matches Err(e) && e matches RuntimeError::General(_)))))
                    &&& (s0.last() != Value::Bool(false) ==> r is Ok && final(self).state.pc
                        == pcv + 5)
                })
                &&& (op == bytecode::GET_MEMBER && n0 - fl >= 2 ==> {
                    &&& (r is Ok ==> final(self).state.pc == pcv + 1)
                    &&& match crate::object::member_read(
                        old(self).heap,
                        s0[n0 - 2],
                        s0[n0 - 1],
                        old(self).heap.callobjs@[old(self).state.scope@.last() as int],
                    ) {
                        crate::object::PropOutcome::Val(v) => r is Ok && final(self).state.stack@
                            == s0.take(n0 - 2).push(v) && final(self).heap.funcs@ == old(self).heap.funcs@,
                        crate::object::PropOutcome::Chr(ch) => r is Ok && final(self).state.stack@.len() == n0 - 1 && final(self).state.stack@.take(n0 - 2) == s0.take(
                            n0 - 2,
                        ) && (final(self).state.stack@.last() matches Value::Str(x) && x@ == seq![
                            ch,
                        ]),
                        crate::object::PropOutcome::Method(mfh, recv) => {
                            &&& r is Ok
                            &&& final(self).state.stack@ == s0.take(n0 - 2).push(
                                Value::Function(old(self).heap.funcs@.len() as usize),
                            )
                            &&& final(self).heap.funcs@.len() == old(self).heap.funcs@.len() + 1
                            &&& crate::heap::func_like_with_this(
                                old(self).heap.funcs@[mfh],
                                final(self).heap.funcs@[old(self).heap.funcs@.len() as int],
                                recv,
                            )
                        },
                        crate::object::PropOutcome::KindErr => r matches Err(e) && e matches
                        RuntimeError::Type(_),
                        crate::object::PropOutcome::MissingLocal => r matches Err(e) && e matches
                        RuntimeError::General(_),
                    }
                })
                &&& ((op == bytecode::SET_NAME || op == bytecode::DECL_VAR) && iseq@.len()
                    - pcv >= 5 && n0 > fl ==> {
                    let idx = bytecode::imm32(iseq@, pcv + 1) as int;
                    idx < old(self).const_table.string@.len() ==> {
                        let nm = old(self).const_table.string@[idx]@;
                        let v0 = s0.last();
                        let stored = if v0 matches Value::Function(_) {
                            Value::Function(old(self).heap.funcs@.len() as usize)
                        } else {
                            v0
                        };
                        let tgt = if op == bytecode::SET_NAME {
                            crate::callobj::chain_target(
                                old(self).heap,
                                old(self).state.scope@.last() as int,
                                nm,
                            )
                        } else {
                            old(self).state.scope@.last() as int
                        };
                        let tv = old(self).heap.callobjs@[tgt].vals as int;
                        &&& r is Ok
                        &&& final(self).state.stack@ == s0.drop_last()
                        &&& final(self).state.pc == pcv + 5
                        // a stored function takes the storing scope's
                        // receiver on a fresh record
                        &&& ((v0 matches Value::Function(_)) ==> final(self).heap.funcs@.len()
                            == old(self).heap.funcs@.len() + 1 && crate::heap::func_like_with_this(
                            old(self).heap.funcs@[func_handle_of(v0)],
                            final(self).heap.funcs@[old(self).heap.funcs@.len() as int],
                            old(self).heap.callobjs@[old(self).state.scope@.last() as int].this,
                        ))
                        &&& (!(v0 matches Value::Function(_)) ==> final(self).heap.funcs@ == old(self).heap.funcs@)
                        // the binding lands in the target scope's map
                        &&& (forall|k2: Seq<char>|
                            #[trigger] pm_lookup(final(self).heap.props@[tv].entries@, k2) == if
                            k2 == nm {
                                Some(crate::heap::data_prop(stored))
                            } else {
                                pm_lookup(old(self).heap.props@[tv].entries@, k2)
                            })
                        &&& (forall|i: int|
                            0 <= i < old(self).heap.props@.len() && i != tv ==> #[trigger] final(self).heap.props@[i] == old(self).heap.props@[i])
                    }
                })
                &&& (op == bytecode::SET_CUR_CALLOBJ ==> {
                    &&& final(self).state.pc == pcv + 1
                    &&& ((n0 > fl && s0.last() matches Value::Function(_)) ==> {
                        &&& final(self).state.stack@ == s0.update(
                            n0 - 1,
                            Value::Function(old(self).heap.funcs@.len() as usize),
                        )
                        &&& final(self).heap.funcs@.len() == old(self).heap.funcs@.len() + 1
                        &&& crate::heap::func_like_with_outer(
                            old(self).heap.funcs@[func_handle_of(s0.last())],
                            final(self).heap.funcs@[old(self).heap.funcs@.len() as int],
                            old(self).state.scope@.last() as int,
                        )
                    })
                    &&& (!(n0 > fl && s0.last() matches Value::Function(_)) ==> final(self).state.stack@ == s0 && final(self).heap == old(self).heap)
                })
                &&& (op == bytecode::LOOP_START && iseq@.len() - pcv >= 5 ==> r is Ok && final(self).state.stack@ == s0 && final(self).heap == old(self).heap)
                &&& (op == bytecode::CREATE_OBJECT && iseq@.len() - pcv >= 5 ==> {
                    let count = bytecode::imm32(iseq@, pcv + 1) as int;
                    let ph = old(self).heap.props@.len() as int;
                    ((n0 - fl >= 2 * count && obj_keys_ok(s0, count)) ==> ({
                        &&& r is Ok
                        &&& final(self).state.pc == pcv + 5
                        &&& final(self).state.stack@ == s0.take(n0 - 2 * count).push(
                            Value::Object(ph as usize),
                        )
                        &&& final(self).heap.props@.len() == old(self).heap.props@.len() + 1
                        &&& (forall|k2: Seq<char>|
                            #[trigger] crate::heap::pm_lookup(
                                final(self).heap.props@[ph].entries@,
                                k2,
                            ) == pairs_opt(create_pairs(s0, count), k2))
                    }))
                })
                &&& (op == bytecode::CREATE_ARRAY && iseq@.len() - pcv >= 5 ==> {
                    let count = bytecode::imm32(iseq@, pcv + 1) as int;
                    let ah = old(self).heap.arrays@.len() as int;
                    (n0 - fl >= count ==> ({
                        &&& r is Ok
                        &&& final(self).state.pc == pcv + 5
                        &&& final(self).state.stack@ == s0.take(n0 - count).push(
                            Value::Array(ah as usize),
                        )
                        &&& final(self).heap.arrays@.len() == old(self).heap.arrays@.len() + 1
                        &&& final(self).heap.arrays@[ah].length as int == count
                        &&& final(self).heap.arrays@[ah].elems@.len() == count
                        &&& (forall|i: int|
                            0 <= i < count ==> #[trigger] final(self).heap.arrays@[ah].elems@[i]
                                == crate::heap::data_prop(s0[n0 - count + i]))
                        &&& crate::heap::pm_lookup(
                            final(self).heap.arrays@[ah].obj.entries@,
                            "__proto__"@,
                        ) == Some(crate::heap::data_prop(Value::Object(old(self).array_proto)))
                    }))
                })
            }),
    {
        let pc = self.state.pc;
        let op = iseq[pc];
        let n_code = iseq.len();
        if op == bytecode::CREATE_CONTEXT || op == bytecode::LAND || op == bytecode::LOR || op
            == bytecode::COND_OP {
            self.state.pc = pc + 1;
            Ok(())
        } else if op == bytecode::PUSH_INT8 {
            if n_code - pc < 2 {
                return Err(RuntimeError::General(String::from_str("truncated immediate")));
            }
            let b = iseq[pc + 1] as i8;
            self.push_val(Value::Number(Number::Int(b as i64)));
            self.state.pc = pc + 2;
            Ok(())
        } else if op == bytecode::PUSH_INT32 {
            if n_code - pc < 5 {
                return Err(RuntimeError::General(String::from_str("truncated immediate")));
            }
            let imm = bytecode::read_u32(iseq, pc + 1) as i32;
            self.push_val(Value::Number(Number::Int(imm as i64)));
            self.state.pc = pc + 5;
            Ok(())
        } else if op == bytecode::PUSH_FALSE {
            self.push_val(Value::Bool(false));
            self.state.pc = pc + 1;
            Ok(())
        } else if op == bytecode::PUSH_TRUE {
            self.push_val(Value::Bool(true));
            self.state.pc = pc + 1;
            Ok(())
        } else if op == bytecode::PUSH_UNDEFINED {
            self.push_val(Value::Undefined);
            self.state.pc = pc + 1;
            Ok(())
        } else if op == bytecode::PUSH_ARGUMENTS {
            self.push_val(Value::Arguments);
            self.state.pc = pc + 1;
            Ok(())
        } else if op == bytecode::PUSH_CONST {
            if n_code - pc < 5 {
                return Err(RuntimeError::General(String::from_str("truncated immediate")));
            }
            let imm = bytecode::read_u32(iseq, pc + 1) as usize;
            if imm >= self.const_table.value.len() {
                return Err(RuntimeError::General(String::from_str("constant index out of range")));
            }
            let v = self.const_table.value[imm].clone();
            proof {
                assert(value_ok(self.heap, self.const_table.value@[imm as int]));
            }
            self.push_val(v);
            self.state.pc = pc + 5;
            Ok(())
        } else if op == bytecode::PUSH_THIS {
            let co = self.scope_top();
            proof {
                assert(callobj_ok(self.heap, self.heap.callobjs@[co as int]));
            }
            let this = self.heap.callobjs[co].this.clone();
            self.push_val(this);
            self.state.pc = pc + 1;
            Ok(())
        } else if op == bytecode::LNOT {
            let v = self.pop_val()?;
            let b = v.to_boolean();
            self.push_val(Value::Bool(!b));
            self.state.pc = pc + 1;
            Ok(())
        } else if op == bytecode::POSI {
            let v = self.pop_val()?;
            let n = v.to_number();
            self.push_val(Value::Number(n));
            self.state.pc = pc + 1;
            Ok(())
        } else if op == bytecode::NEG {
            let v = self.pop_val()?;
            match v {
                Value::Number(n) => {
                    self.push_val(Value::Number(n.neg()));
                    self.state.pc = pc + 1;
                    Ok(())
                },
                _ => Err(RuntimeError::Unimplemented),
            }
        } else if bytecode::ADD <= op && op <= bytecode::ZFSHR {
            let rhs = self.pop_val()?;
            let lhs = self.pop_val()?;
            let v = crate::binop::eval_binary(op, lhs, rhs)?;
            proof {
                assert(value_ok(self.heap, v));
            }
            self.push_val(v);
            self.state.pc = pc + 1;
            Ok(())
        } else if op == bytecode::GET_MEMBER {
            let member = self.pop_val()?;
            let parent = self.pop_val()?;
            let co = self.scope_top();
            let ghost h0 = self.heap;
            let v = crate::object::get_property(&mut self.heap, &parent, &member, co)?;
            proof {
                lemma_state_ok_le(h0, self.heap, self.state);
                lemma_consts_ok_le(h0, self.heap, self.const_table);
            }
            self.push_val(v);
            self.state.pc = pc + 1;
            Ok(())
        } else if op == bytecode::SET_MEMBER {
            let member = self.pop_val()?;
            let parent = self.pop_val()?;
            let v = self.pop_val()?;
            let co = self.scope_top();
            let ghost h0 = self.heap;
            crate::object::set_property(&mut self.heap, &parent, &member, v, co);
            proof {
                lemma_state_ok_le(h0, self.heap, self.state);
                lemma_consts_ok_le(h0, self.heap, self.const_table);
            }
            self.state.pc = pc + 1;
            Ok(())
        } else if op == bytecode::JMP {
            if n_code - pc < 5 {
                return Err(RuntimeError::General(String::from_str("truncated immediate")));
            }
            let dst = bytecode::read_u32(iseq, pc + 1) as i32;
            let target: i128 = (pc as i128) + 5 + (dst as i128);
            if target < 0 || target > (usize::MAX as i128) {
                return Err(RuntimeError::General(String::from_str("jump out of range")));
            }
            self.state.pc = target as usize;
            Ok(())
        } else if op == bytecode::JMP_IF_FALSE {
            if n_code - pc < 5 {
                return Err(RuntimeError::General(String::from_str("truncated immediate")));
            }
            let dst = bytecode::read_u32(iseq, pc + 1) as i32;
            let cond = self.pop_val()?;
            let jump = match cond {
                Value::Bool(false) => true,
                _ => false,
            };
            if jump {
                let target: i128 = (pc as i128) + 5 + (dst as i128);
                if target < 0 || target > (usize::MAX as i128) {
                    return Err(RuntimeError::General(String::from_str("jump out of range")));
                }
                self.state.pc = target as usize;
            } else {
                self.state.pc = pc + 5;
            }
            Ok(())
        } else if op == bytecode::GET_NAME {
            if n_code - pc < 5 {
                return Err(RuntimeError::General(String::from_str("truncated immediate")));
            }
            let imm = bytecode::read_u32(iseq, pc + 1) as usize;
            if imm >= self.const_table.string.len() {
                return Err(RuntimeError::General(String::from_str("name index out of range")));
            }
            let name = self.const_table.string[imm].clone();
            let co = self.scope_top();
            let v = CallObject::get_value(&self.heap, co, &name)?;
            proof {
                lemma_chain_lookup_value_ok(self.heap, co as int, name@);
            }
            self.push_val(v);
            self.state.pc = pc + 5;
            Ok(())
        } else if op == bytecode::SET_NAME || op == bytecode::DECL_VAR {
            if n_code - pc < 5 {
                return Err(RuntimeError::General(String::from_str("truncated immediate")));
            }
            let imm = bytecode::read_u32(iseq, pc + 1) as usize;
            if imm >= self.const_table.string.len() {
                return Err(RuntimeError::General(String::from_str("name index out of range")));
            }
            let name = self.const_table.string[imm].clone();
            let mut v = self.pop_val()?;
            let co = self.scope_top();
            // a function value stored under a name takes the storing
            // scope's receiver
            match v {
                Value::Function(fh) => {
                    proof {
                        assert(callobj_ok(self.heap, self.heap.callobjs@[co as int]));
                    }
                    let this = self.heap.callobjs[co].this.clone();
                    let ghost h0 = self.heap;
                    let fh2 = self.heap.copy_func_with_this(fh, this);
                    proof {
                        lemma_state_ok_le(h0, self.heap, self.state);
                        lemma_consts_ok_le(h0, self.heap, self.const_table);
                    }
                    v = Value::Function(fh2);
                },
                _ => {},
            }
            let ghost h1 = self.heap;
            proof {
                crate::callobj::lemma_chain_target_same(old(self).heap, h1, co as int, name@);
            }
            if op == bytecode::SET_NAME {
                CallObject::set_value_if_exist(&mut self.heap, co, name, v);
            } else {
                proof {
                    assert(callobj_ok(self.heap, self.heap.callobjs@[co as int]));
                }
                let vals = self.heap.callobjs[co].vals;
                self.heap.prop_insert(vals, name, Property::new(v));
            }
            proof {
                lemma_state_ok_le(h1, self.heap, self.state);
                lemma_consts_ok_le(h1, self.heap, self.const_table);
            }
            self.state.pc = pc + 5;
            Ok(())
        } else if op == bytecode::SET_CUR_CALLOBJ {
            let co = self.scope_top();
            let n = self.state.stack.len();
            let fl = self.floor_val();
            if n > fl {
                let top_fn = match &self.state.stack[n - 1] {
                    Value::Function(fh) => Some(*fh),
                    _ => None,
                };
                match top_fn {
                    Some(fh) => {
                        proof {
                            assert(value_ok(self.heap, self.state.stack@.last()));
                        }
                        let ghost h0 = self.heap;
                        let fh2 = self.heap.copy_func_with_outer(fh, co);
                        proof {
                            lemma_state_ok_le(h0, self.heap, self.state);
                            lemma_consts_ok_le(h0, self.heap, self.const_table);
                        }
                        self.state.stack.set(n - 1, Value::Function(fh2));
                        proof {
                            assert forall|i: int| 0 <= i < self.state.stack@.len() implies
                                value_ok(self.heap, #[trigger] self.state.stack@[i]) by {
                                if i < n - 1 {
                                    assert(value_ok(h0, old(self).state.stack@[i]));
                                }
                            }
                        }
                    },
                    None => {},
                }
            }
            self.state.pc = pc + 1;
            Ok(())
        } else if op == bytecode::DOUBLE {
            let n = self.state.stack.len();
            if n == 0 {
                return Err(RuntimeError::General(String::from_str("operand stack underflow")));
            }
            let top = self.state.stack[n - 1].clone();
            proof {
                assert(value_ok(self.heap, self.state.stack@.last()));
            }
            self.push_val(top);
            self.state.pc = pc + 1;
            Ok(())
        } else if op == bytecode::POP {
            let fl = self.floor_val();
            if self.state.stack.len() > fl {
                let _ = self.pop_val()?;
            }
            self.state.pc = pc + 1;
            Ok(())
        } else if op == bytecode::CREATE_OBJECT {
            if n_code - pc < 5 {
                return Err(RuntimeError::General(String::from_str("truncated immediate")));
            }
            let count = bytecode::read_u32(iseq, pc + 1) as usize;
            let ghost s0g = old(self).state.stack@;
            let ghost n0g = s0g.len() as int;
            let ghost flg = frame_floor(old(self).state);
            let ghost countg = count as int;
            let ghost guard_obj = n0g - flg >= 2 * countg && obj_keys_ok(s0g, countg);
            let ghost pairs = create_pairs(s0g, countg);
            let mut pm = PropMap::new();
            let mut k: usize = 0;
            while k < count
                invariant
                    vm_ok(*self),
                    self.state.history@ == old(self).state.history@,
                    self.state.scope@ == old(self).state.scope@,
                    self.cur_func_id == old(self).cur_func_id,
                    self.array_proto == old(self).array_proto,
                    self.const_table == old(self).const_table,
                    self.heap == old(self).heap,
                    self.output == old(self).output,
                    self.state.pc == old(self).state.pc,
                    self.state.stack@.len() >= frame_floor(old(self).state),
                    self.state.stack@.take(frame_floor(old(self).state)) == old(self).state.stack@.take(frame_floor(old(self).state)),
                    old(self).state.pc < iseq@.len(),
                    iseq@[old(self).state.pc as int] == bytecode::CREATE_OBJECT,
                    crate::heap::pm_ok(self.heap, pm),
                    k <= count,
                    s0g == old(self).state.stack@,
                    n0g == s0g.len() as int,
                    flg == frame_floor(old(self).state),
                    countg == count as int,
                    iseq@.len() - old(self).state.pc >= 5,
                    countg == bytecode::imm32(iseq@, old(self).state.pc + 1),
                    pairs == create_pairs(s0g, countg),
                    guard_obj == (n0g - flg >= 2 * countg && obj_keys_ok(s0g, countg)),
                    guard_obj ==> self.state.stack@ == s0g.take(n0g - 2 * k),
                    guard_obj ==> (forall|k2: Seq<char>|
                        #[trigger] crate::heap::pm_lookup(pm.entries@, k2) == pairs_opt(
                            pairs.take(k as int),
                            k2,
                        )),
                decreases count - k,
            {
                proof {
                    if guard_obj {
                        assert(self.state.stack@.len() == n0g - 2 * k);
                        assert(n0g - 2 * k >= flg + 2);
                    }
                }
                let ghost pm_before = pm;
                let namev = self.pop_val()?;
                let val = self.pop_val()?;
                proof {
                    if guard_obj {
                        assert(namev == s0g.take(n0g - 2 * k)[n0g - 2 * k - 1]);
                        assert(namev == s0g[n0g - 1 - 2 * k]);
                        assert(val == s0g.take(n0g - 2 * k - 1)[n0g - 2 * k - 2]);
                        assert(val == s0g[n0g - 2 - 2 * k]);
                        assert(self.state.stack@ =~= s0g.take(n0g - 2 * (k + 1)));
                    }
                }
                match namev {
                    Value::Str(s) => {
                        pm.insert(s, Property::new(val));
                        proof {
                            assert forall|i: int| 0 <= i < pm.entries@.len() implies
                                crate::heap::prop_ok(
                                self.heap,
                                (#[trigger] pm.entries@[i]).1,
                            ) by {}
                            if guard_obj {
                                assert(pairs.take(k + 1).last() == pairs[k as int]);
                                assert(pairs[k as int].0 == s@);
                                assert(pairs[k as int].1 == val);
                                assert(pairs.take(k + 1).drop_last() =~= pairs.take(k as int));
                                assert forall|k2: Seq<char>|
                                    #[trigger] crate::heap::pm_lookup(pm.entries@, k2)
                                        == pairs_opt(pairs.take(k + 1), k2) by {
                                    if k2 == s@ {
                                        assert(pairs_opt(pairs.take(k + 1), k2) == Some(
                                            crate::heap::data_prop(val),
                                        ));
                                    } else {
                                        assert(crate::heap::pm_lookup(pm.entries@, k2)
                                            == crate::heap::pm_lookup(pm_before.entries@, k2));
                                    }
                                }
                            }
                        }
                    },
                    _ => {
                        proof {
                            if guard_obj {
                                lemma_obj_keys_ok(s0g, countg, k as int);
                                assert(false);
                            }
                        }
                        return Err(
                            RuntimeError::General(String::from_str("object key is not a string")),
                        );
                    },
                }
                k = k + 1;
            }
            proof {
                if guard_obj {
                    assert(pairs.take(countg) =~= pairs);
                }
            }
            let ghost h0 = self.heap;
            let h = self.heap.alloc_props(pm);
            proof {
                lemma_state_ok_le(h0, self.heap, self.state);
                lemma_consts_ok_le(h0, self.heap, self.const_table);
            }
            self.push_val(Value::Object(h));
            self.state.pc = pc + 5;
            let ghost hpre = self.heap;
            let ghost spre = self.state.stack@;
            crate::gc::mark_and_sweep(self);
            proof {
                if guard_obj {
                    assert(crate::gc::root_survives(hpre, self.heap, spre.last()));
                    assert(self.heap.props@[h as int] == pm);
                    assert(self.state.stack@ == s0g.take(n0g - 2 * countg).push(
                        Value::Object(h),
                    ));
                }
            }
            Ok(())
        } else if op == bytecode::CREATE_ARRAY {
            if n_code - pc < 5 {
                return Err(RuntimeError::General(String::from_str("truncated immediate")));
            }
            let count = bytecode::read_u32(iseq, pc + 1) as usize;
            let ghost s0g = old(self).state.stack@;
            let ghost n0g = s0g.len() as int;
            let ghost flg = frame_floor(old(self).state);
            let ghost countg = count as int;
            let ghost guard_arr = n0g - flg >= countg;
            let mut elems: Vec<Value> = Vec::new();
            let mut k: usize = 0;
            while k < count
                invariant
                    vm_ok(*self),
                    self.state.history@ == old(self).state.history@,
                    self.state.scope@ == old(self).state.scope@,
                    self.cur_func_id == old(self).cur_func_id,
                    self.array_proto == old(self).array_proto,
                    self.const_table == old(self).const_table,
                    self.heap == old(self).heap,
                    self.output == old(self).output,
                    self.state.pc == old(self).state.pc,
                    self.state.stack@.len() >= frame_floor(old(self).state),
                    self.state.stack@.take(frame_floor(old(self).state)) == old(self).state.stack@.take(frame_floor(old(self).state)),
                    old(self).state.pc < iseq@.len(),
                    iseq@[old(self).state.pc as int] == bytecode::CREATE_ARRAY,
                    forall|i: int|
                        0 <= i < elems@.len() ==> value_ok(self.heap, #[trigger] elems@[i]),
                    k <= count,
                    elems@.len() == k,
                    s0g == old(self).state.stack@,
                    n0g == s0g.len() as int,
                    flg == frame_floor(old(self).state),
                    countg == count as int,
                    iseq@.len() - old(self).state.pc >= 5,
                    countg == bytecode::imm32(iseq@, old(self).state.pc + 1),
                    guard_arr == (n0g - flg >= countg),
                    guard_arr ==> self.state.stack@ == s0g.take(n0g - k),
                    guard_arr ==> (forall|j: int|
                        0 <= j < k ==> #[trigger] elems@[j] == s0g[n0g - 1 - j]),
                decreases count - k,
            {
                proof {
                    if guard_arr {
                        assert(self.state.stack@.len() == n0g - k);
                        assert(n0g - k > flg);
                    }
                }
                let v = self.pop_val()?;
                proof {
                    if guard_arr {
                        assert(v == s0g.take(n0g - k)[n0g - k - 1]);
                        assert(v == s0g[n0g - 1 - k]);
                        assert(self.state.stack@ =~= s0g.take(n0g - (k + 1)));
                    }
                }
                elems.push(v);
                k = k + 1;
            }
            // elements appear in reverse pop order
            let ghost elems0 = elems@;
            let mut ordered: Vec<Value> = Vec::new();
            let mut k2: usize = elems.len();
            while k2 > 0
                invariant
                    k2 <= elems@.len(),
                    elems@ == elems0,
                    forall|i: int|
                        0 <= i < elems@.len() ==> value_ok(self.heap, #[trigger] elems@[i]),
                    forall|i: int|
                        0 <= i < ordered@.len() ==> value_ok(self.heap, #[trigger] ordered@[i]),
                    ordered@.len() == elems@.len() - k2,
                    forall|i: int|
                        0 <= i < ordered@.len() ==> #[trigger] ordered@[i] == elems@[elems@.len()
                            - 1 - i],
                decreases k2,
            {
                ordered.push(elems[k2 - 1].clone());
                k2 = k2 - 1;
            }
            proof {
                if guard_arr {
                    assert(ordered@.len() == countg);
                    assert forall|i: int| 0 <= i < countg implies #[trigger] ordered@[i] == s0g[n0g
                        - countg + i] by {
                        assert(ordered@[i] == elems@[countg - 1 - i]);
                        assert(elems@[countg - 1 - i] == s0g[n0g - 1 - (countg - 1 - i)]);
                    }
                }
            }
            let mut arr = ArrayValue::new(ordered);
            arr.obj.insert(
                String::from_str("__proto__"),
                Property::new(Value::Object(self.array_proto)),
            );
            proof {
                assert(crate::heap::array_ok(self.heap, arr)) by {
                    assert forall|i: int| 0 <= i < arr.elems@.len() implies crate::heap::prop_ok(
                        self.heap,
                        #[trigger] arr.elems@[i],
                    ) by {}
                    assert forall|i: int| 0 <= i < arr.obj.entries@.len() implies
                        crate::heap::prop_ok(self.heap, (#[trigger] arr.obj.entries@[i]).1) by {}
                }
            }
            let ghost h0 = self.heap;
            let ghost arrg = arr;
            let h = self.heap.alloc_array(arr);
            proof {
                lemma_state_ok_le(h0, self.heap, self.state);
                lemma_consts_ok_le(h0, self.heap, self.const_table);
            }
            self.push_val(Value::Array(h));
            self.state.pc = pc + 5;
            let ghost hpre = self.heap;
            let ghost spre = self.state.stack@;
            crate::gc::mark_and_sweep(self);
            proof {
                if guard_arr {
                    assert(crate::gc::root_survives(hpre, self.heap, spre.last()));
                    assert(self.heap.arrays@[h as int] == arrg);
                    assert(self.state.stack@ == s0g.take(n0g - countg).push(Value::Array(h)));
                }
            }
            Ok(())
        } else if op == bytecode::LOOP_START {
            if n_code - pc < 5 {
                return Err(RuntimeError::General(String::from_str("truncated immediate")));
            }
            let loop_end = bytecode::read_u32(iseq, pc + 1) as usize;
            match jit.loop_hook(self.cur_func_id, pc, loop_end) {
                Some(t) => {
                    self.state.pc = t;
                },
                None => {
                    self.state.pc = pc + 5;
                },
            }
            Ok(())
        } else {
            Err(RuntimeError::General(String::from_str("unknown opcode")))
        }
    }
}

/// Whether declared parameter names are distinct and a rest parameter
/// comes last — what the bytecode generator guarantees and the call
/// protocol checks.
pub open spec fn params_well_formed(params: Seq<FunctionParameter>) -> bool {
    &&& (forall|i: int, j: int|
        0 <= i < j < params.len() ==> (#[trigger] params[i]).name@ != (#[trigger] params[j]).name@)
    &&& (forall|i: int|
        0 <= i < params.len() && (#[trigger] params[i]).is_rest_param ==> i == params.len() - 1)
}

/// Checks that parameter names are distinct and a rest parameter is last.
fn check_params(params: &Vec<FunctionParameter>) -> (r: bool)
    ensures
        r == params_well_formed(params@),
{
    let n = params.len();
    let mut i: usize = 0;
    while i < n
        invariant
            i <= n,
            n == params@.len(),
            forall|x: int, y: int|
                0 <= x < y < params@.len() && x < i ==> (#[trigger] params@[x]).name@ != (
                #[trigger] params@[y]).name@,
            forall|x: int|
                0 <= x < i && (#[trigger] params@[x]).is_rest_param ==> x == params@.len() - 1,
        decreases n - i,
    {
        if params[i].is_rest_param && i + 1 != n {
            return false;
        }
        let mut j: usize = i + 1;
        while j < n
            invariant
                i < j <= n,
                n == params@.len(),
                forall|y: int|
                    i < y < j ==> (#[trigger] params@[y]).name@ != params@[i as int].name@,
            decreases n - j,
        {
            if params[i].name.eq(&params[j].name) {
                return false;
            }
            j = j + 1;
        }
        i = i + 1;
    }
    true
}

impl VM {
    /// Runs built-in `bid` with the given arguments and receiver; exactly
    /// one value is left on the operand stack. The printing built-ins append
    /// exactly their rendered text to the output buffer; the numeric ones
    /// push exactly their stated result; the push built-in appends the
    /// arguments to the receiver array and pushes the new length.
    fn run_builtin(&mut self, bid: BuiltinId, args: &Vec<Value>, this: &Value) -> (r: Result<
        (),
        RuntimeError,
    >)
        requires
            vm_ok(*old(self)),
            forall|i: int| 0 <= i < args@.len() ==> value_ok(old(self).heap, #[trigger] args@[i]),
            value_ok(old(self).heap, *this),
        ensures
            vm_ok(*final(self)),
            heap_le(old(self).heap, final(self).heap),
            final(self).state.scope@ == old(self).state.scope@,
            final(self).state.history@ == old(self).state.history@,
            final(self).state.pc == old(self).state.pc,
            final(self).const_table == old(self).const_table,
            final(self).cur_func_id == old(self).cur_func_id,
            final(self).array_proto == old(self).array_proto,
            r is Ok ==> final(self).state.stack@.len() == old(self).state.stack@.len() + 1,
            r is Ok ==> final(self).state.stack@.drop_last() == old(self).state.stack@,
            r is Err ==> final(self).state.stack@ == old(self).state.stack@,
            final(self).output@.len() >= old(self).output@.len(),
            forall|i: int|
                0 <= i < old(self).output@.len() ==> #[trigger] final(self).output@[i] == old(self).output@[i],
            match bid {
                BuiltinId::ConsoleLog => {
                    &&& r is Ok
                    &&& final(self).heap == old(self).heap
                    &&& final(self).output@.len() == old(self).output@.len() + 1
                    &&& final(self).output@.last()@ == crate::builtins::console_join(
                        old(self).heap,
                        args@,
                        0,
                    ) + "\n"@
                    &&& final(self).state.stack@ == old(self).state.stack@.push(Value::Undefined)
                },
                BuiltinId::ProcessStdoutWrite => {
                    &&& r is Ok
                    &&& final(self).heap == old(self).heap
                    &&& final(self).output@.len() == old(self).output@.len() + 1
                    &&& final(self).output@.last()@ == if args@.len() > 0 {
                        crate::value::str_of_value(args@[0])
                    } else {
                        Seq::<char>::empty()
                    }
                    &&& final(self).state.stack@ == old(self).state.stack@.push(Value::Undefined)
                },
                BuiltinId::MathFloor => {
                    &&& r is Ok
                    &&& final(self).heap == old(self).heap
                    &&& final(self).output == old(self).output
                    &&& final(self).state.stack@ == old(self).state.stack@.push(
                        Value::Number(
                            if args@.len() > 0 {
                                crate::value::to_number_spec(args@[0])
                            } else {
                                Number::Nan
                            },
                        ),
                    )
                },
                BuiltinId::MathAbs => {
                    &&& r is Ok
                    &&& final(self).heap == old(self).heap
                    &&& final(self).output == old(self).output
                    &&& final(self).state.stack@ == old(self).state.stack@.push(
                        Value::Number(
                            crate::builtins::abs_num_spec(
                                if args@.len() > 0 {
                                    crate::value::to_number_spec(args@[0])
                                } else {
                                    Number::Nan
                                },
                            ),
                        ),
                    )
                },
                BuiltinId::MathPow => {
                    &&& r is Ok
                    &&& final(self).heap == old(self).heap
                    &&& final(self).output == old(self).output
                    &&& final(self).state.stack@ == old(self).state.stack@.push(
                        Value::Number(
                            crate::builtins::pow_spec(
                                if args@.len() > 0 {
                                    crate::value::to_number_spec(args@[0])
                                } else {
                                    Number::Nan
                                },
                                if args@.len() > 1 {
                                    crate::value::to_number_spec(args@[1])
                                } else {
                                    Number::Nan
                                },
                            ),
                        ),
                    )
                },
                BuiltinId::MathMin => {
                    &&& r is Ok
                    &&& final(self).heap == old(self).heap
                    &&& final(self).output == old(self).output
                    &&& final(self).state.stack@ == old(self).state.stack@.push(
                        Value::Number(
                            crate::builtins::fold_minmax(args@, args@.len() as int, true),
                        ),
                    )
                },
                BuiltinId::MathMax => {
                    &&& r is Ok
                    &&& final(self).heap == old(self).heap
                    &&& final(self).output == old(self).output
                    &&& final(self).state.stack@ == old(self).state.stack@.push(
                        Value::Number(
                            crate::builtins::fold_minmax(args@, args@.len() as int, false),
                        ),
                    )
                },
                BuiltinId::FunctionProtoCall => {
                    // dispatched by the call instruction itself, which
                    // re-targets the receiver; reaching this dispatcher —
                    // through construction — is a type error
                    &&& (r matches Err(e) && e matches RuntimeError::Type(_))
                    &&& final(self).heap == old(self).heap
                    &&& final(self).output == old(self).output
                },
                BuiltinId::ArrayPush => {
                    &&& final(self).output == old(self).output
                    &&& (!(*this matches Value::Array(_)) ==> (r matches Err(e) && e matches
                    RuntimeError::Type(_)))
                    &&& (!(*this matches Value::Array(_)) ==> final(self).heap == old(self).heap)
                    &&& (*this matches Value::Array(ah) ==> {
                        &&& final(self).heap.props@ == old(self).heap.props@
                        &&& final(self).heap.funcs@ == old(self).heap.funcs@
                        &&& final(self).heap.callobjs@ == old(self).heap.callobjs@
                        &&& final(self).heap.arrays@.len() == old(self).heap.arrays@.len()
                        &&& (forall|i: int|
                            0 <= i < old(self).heap.arrays@.len() && i != ah ==> #[trigger] final(self).heap.arrays@[i] == old(self).heap.arrays@[i])
                        &&& (old(self).heap.arrays@[ah as int].length + args@.len() < usize::MAX
                            ==> r is Ok)
                        &&& (r is Ok ==> {
                            let a0 = old(self).heap.arrays@[ah as int];
                            let a1 = final(self).heap.arrays@[ah as int];
                            &&& a1.length == a0.length + args@.len()
                            &&& a1.elems@.len() == a1.length
                            &&& (forall|j: int|
                                0 <= j < a0.length ==> #[trigger] a1.elems@[j] == a0.elems@[j])
                            &&& (forall|k: int|
                                0 <= k < args@.len() ==> #[trigger] a1.elems@[a0.length + k]
                                    == crate::heap::data_prop(args@[k]))
                            &&& a1.obj == a0.obj
                            &&& final(self).state.stack@ == old(self).state.stack@.push(
                                Value::Number(Number::Int(a1.length as i64)),
                            )
                        })
                        &&& (r matches Err(e) ==> e matches RuntimeError::General(_))
                    })
                },
            },
    {
        match bid {
            BuiltinId::ConsoleLog => {
                crate::builtins::console_log(self, args)?;
                proof {
                    assert(self.state.stack@.drop_last() =~= old(self).state.stack@);
                }
                Ok(())
            },
            BuiltinId::ProcessStdoutWrite => {
                crate::builtins::process_stdout_write(self, args)?;
                proof {
                    assert(self.state.stack@.drop_last() =~= old(self).state.stack@);
                }
                Ok(())
            },
            BuiltinId::FunctionProtoCall => {
                Err(RuntimeError::Type(String::from_str("this callable needs a call receiver")))
            },
            BuiltinId::ArrayPush => {
                let ah = match this {
                    Value::Array(a) => *a,
                    _ => {
                        return Err(
                            RuntimeError::Type(String::from_str("push on a value with no elements")),
                        );
                    },
                };
                let n = args.len();
                let mut k: usize = 0;
                while k < n
                    invariant
                        vm_ok(*self),
                        k <= n,
                        n == args@.len(),
                        bid matches BuiltinId::ArrayPush,
                        *this == Value::Array(ah),
                        ah < self.heap.arrays@.len(),
                        forall|i: int|
                            0 <= i < args@.len() ==> value_ok(self.heap, #[trigger] args@[i]),
                        self.heap.props@ == old(self).heap.props@,
                        self.heap.funcs@ == old(self).heap.funcs@,
                        self.heap.callobjs@ == old(self).heap.callobjs@,
                        self.heap.arrays@.len() == old(self).heap.arrays@.len(),
                        forall|i: int|
                            0 <= i < old(self).heap.arrays@.len() && i != ah
                                ==> #[trigger] self.heap.arrays@[i] == old(self).heap.arrays@[i],
                        ({
                            let a0 = old(self).heap.arrays@[ah as int];
                            let a1 = self.heap.arrays@[ah as int];
                            &&& a1.length == a0.length + k
                            &&& a1.elems@.len() == a1.length
                            &&& (forall|j: int|
                                0 <= j < a0.length ==> #[trigger] a1.elems@[j] == a0.elems@[j])
                            &&& (forall|x: int|
                                0 <= x < k ==> #[trigger] a1.elems@[a0.length + x]
                                    == crate::heap::data_prop(args@[x]))
                            &&& a1.obj == a0.obj
                        }),
                        self.state.stack@ == old(self).state.stack@,
                        self.state.scope@ == old(self).state.scope@,
                        self.state.history@ == old(self).state.history@,
                        self.state.pc == old(self).state.pc,
                        self.const_table == old(self).const_table,
                        self.cur_func_id == old(self).cur_func_id,
                        self.array_proto == old(self).array_proto,
                        self.output == old(self).output,
                    decreases n - k,
                {
                    let len = self.heap.array_length(ah);
                    if len >= usize::MAX {
                        proof {
                            assert(old(self).heap.arrays@[ah as int].length + args@.len()
                                >= usize::MAX);
                        }
                        return Err(RuntimeError::General(String::from_str("array is full")));
                    }
                    let ghost h0 = self.heap;
                    self.heap.array_set_index(ah, len, args[k].clone());
                    proof {
                        lemma_state_ok_le(h0, self.heap, self.state);
                        lemma_consts_ok_le(h0, self.heap, self.const_table);
                        assert forall|i: int| 0 <= i < args@.len() implies value_ok(
                            self.heap,
                            #[trigger] args@[i],
                        ) by {
                            assert(value_ok(h0, args@[i]));
                        }
                        let a0 = old(self).heap.arrays@[ah as int];
                        let a1 = self.heap.arrays@[ah as int];
                        assert forall|x: int| 0 <= x < k + 1 implies #[trigger] a1.elems@[a0.length
                            + x] == crate::heap::data_prop(args@[x]) by {
                            if x < k {
                                assert(h0.arrays@[ah as int].elems@[a0.length + x]
                                    == crate::heap::data_prop(args@[x]));
                            }
                        }
                    }
                    k = k + 1;
                }
                let len = self.heap.array_length(ah);
                #[verifier::truncate]
                let len_num = len as i64;
                self.push_val(Value::Number(Number::Int(len_num)));
                proof {
                    assert(self.state.stack@.drop_last() =~= old(self).state.stack@);
                }
                Ok(())
            },
            BuiltinId::MathFloor => {
                let v = if args.len() > 0 {
                    args[0].to_number()
                } else {
                    Number::Nan
                };
                self.push_val(Value::Number(v));
                proof {
                    assert(self.state.stack@.drop_last() =~= old(self).state.stack@);
                }
                Ok(())
            },
            BuiltinId::MathAbs => {
                let v = if args.len() > 0 {
                    args[0].to_number()
                } else {
                    Number::Nan
                };
                let a = crate::builtins::abs_num(v);
                self.push_val(Value::Number(a));
                proof {
                    assert(self.state.stack@.drop_last() =~= old(self).state.stack@);
                }
                Ok(())
            },
            BuiltinId::MathPow => {
                let b = if args.len() > 0 {
                    args[0].to_number()
                } else {
                    Number::Nan
                };
                let e = if args.len() > 1 {
                    args[1].to_number()
                } else {
                    Number::Nan
                };
                self.push_val(Value::Number(crate::builtins::pow_num(b, e)));
                proof {
                    assert(self.state.stack@.drop_last() =~= old(self).state.stack@);
                }
                Ok(())
            },
            BuiltinId::MathMin => {
                let v = crate::builtins::minmax_num(args, true);
                self.push_val(Value::Number(v));
                proof {
                    assert(self.state.stack@.drop_last() =~= old(self).state.stack@);
                }
                Ok(())
            },
            BuiltinId::MathMax => {
                let v = crate::builtins::minmax_num(args, false);
                self.push_val(Value::Number(v));
                proof {
                    assert(self.state.stack@.drop_last() =~= old(self).state.stack@);
                }
                Ok(())
            },
        }
    }

    /// Pops the instruction's return value and trims the operand stack to
    /// the height saved by the matching call, keeping the return value on
    /// top; the saved program counter becomes current.
    fn op_return(&mut self) -> (r: Result<(), RuntimeError>)
        requires
            vm_ok(*old(self)),
        ensures
            vm_ok(*final(self)),
            final(self).heap == old(self).heap,
            final(self).state.scope@ == old(self).state.scope@,
            final(self).const_table == old(self).const_table,
            final(self).cur_func_id == old(self).cur_func_id,
            final(self).array_proto == old(self).array_proto,
            final(self).output == old(self).output,
            match r {
                Ok(u) => {
                    &&& old(self).state.history@.len() >= 1
                    &&& old(self).state.stack@.len() > old(self).state.history@.last().0
                    &&& final(self).state.history@ == old(self).state.history@.drop_last()
                    &&& final(self).state.stack@ == old(self).state.stack@.take(
                        old(self).state.history@.last().0 as int,
                    ).push(old(self).state.stack@.last())
                    &&& final(self).state.pc == old(self).state.history@.last().1
                },
                Err(_) => {
                    &&& final(self).state.history@ == old(self).state.history@
                    &&& final(self).state.stack@ == old(self).state.stack@
                },
            },
    {
        let hn = self.state.history.len();
        if hn == 0 {
            return Err(RuntimeError::General(String::from_str("return with no call history")));
        }
        let (sp, rpc) = self.state.history[hn - 1];
        let n = self.state.stack.len();
        if n <= sp {
            return Err(RuntimeError::General(String::from_str("return with no value on stack")));
        }
        let _ = self.state.history.pop();
        let top = match self.state.stack.pop() {
            Some(v) => v,
            None => {
                return Err(RuntimeError::General(String::from_str("operand stack underflow")));
            },
        };
        self.state.stack.truncate(sp);
        self.state.stack.push(top);
        self.state.pc = rpc;
        proof {
            assert(self.state.stack@ =~= old(self).state.stack@.take(sp as int).push(
                old(self).state.stack@.last(),
            ));
            assert forall|i: int| 0 <= i < self.state.stack@.len() implies value_ok(
                self.heap,
                #[trigger] self.state.stack@[i],
            ) by {
                if i < sp {
                    assert(self.state.stack@[i] == old(self).state.stack@[i]);
                    assert(value_ok(self.heap, old(self).state.stack@[i]));
                } else {
                    assert(self.state.stack@[i] == old(self).state.stack@[old(
                        self,
                    ).state.stack@.len() - 1]);
                    assert(value_ok(self.heap, old(self).state.stack@[old(self).state.stack@.len()
                        - 1]));
                }
            }
        }
        Ok(())
    }

    /// The call instruction: pops the callee and its arguments, dispatches
    /// a built-in directly, and runs a user function in a fresh activation.
    /// A matched call and return shrink the operand stack by exactly the
    /// argument count: the callee and the arguments leave, the return value
    /// arrives.
    fn op_call<J: JitHook>(&mut self, iseq: &Vec<u8>, jit: &mut J, fuel: u64) -> (r: Result<
        (Option<Exit>, u64),
        RuntimeError,
    >)
        requires
            vm_ok(*old(self)),
            old(self).state.pc < iseq@.len(),
            iseq@[old(self).state.pc as int] == bytecode::CALL,
        ensures
            vm_ok(*final(self)),
            heap_le(old(self).heap, final(self).heap),
            final(self).const_table == old(self).const_table,
            final(self).cur_func_id == old(self).cur_func_id,
            final(self).array_proto == old(self).array_proto,
            final(self).output@.len() >= old(self).output@.len(),
            forall|i: int|
                0 <= i < old(self).output@.len() ==> #[trigger] final(self).output@[i] == old(self).output@[i],
            old(self).state.stack@.len() >= frame_floor(old(self).state) ==> final(self).state.stack@.len() >= frame_floor(old(self).state) && final(self).state.stack@.take(
                frame_floor(old(self).state),
            ) == old(self).state.stack@.take(frame_floor(old(self).state)),
            ({
                let pcv = old(self).state.pc as int;
                let s0 = old(self).state.stack@;
                let n0 = s0.len() as int;
                let fl = frame_floor(old(self).state);
                let argc = bytecode::imm32(iseq@, pcv + 1) as int;
                let shaped = iseq@.len() - pcv >= 5 && n0 > fl && n0 - 1 - fl >= argc;
                &&& match r {
                    Ok((flow, f)) => {
                        &&& f <= fuel
                        &&& final(self).state.history@ == old(self).state.history@
                        &&& final(self).state.scope@ == old(self).state.scope@
                        &&& (flow is None ==> {
                            &&& shaped
                            &&& final(self).state.pc == pcv + 5
                            &&& final(self).state.stack@ == s0.take(n0 - argc - 1).push(
                                final(self).state.stack@.last(),
                            )
                        })
                    },
                    Err(_) => true,
                }
                &&& ((shaped && !(s0.last() matches Value::Function(_))) ==> (r matches Err(e)
                    && e matches RuntimeError::Type(m) && m@ == type_error_text(
                    pcv + 5,
                    ": callee is not a function but called"@,
                )))
                &&& ((shaped && (s0.last() matches Value::Function(_)) && (old(self).heap.funcs@[func_handle_of(s0.last())].kind matches FunctionObjectKind::Builtin(_))) ==> ({
                    let fh = func_handle_of(s0.last());
                    let b = builtin_id_of(old(self).heap.funcs@[fh].kind);
                    let args_s = s0.subrange(n0 - 1 - argc, n0 - 1);
                    let recv = old(self).heap.funcs@[fh].this;
                    &&& ((!(b matches BuiltinId::ArrayPush) && !(b matches
                    BuiltinId::FunctionProtoCall)) ==> (r matches Ok(p) && p.0 is None && p.1
                        == fuel))
                    &&& ((r matches Ok(p) && p.0 is None) ==> match b {
                        BuiltinId::ConsoleLog => {
                            &&& final(self).heap == old(self).heap
                            &&& final(self).output@.len() == old(self).output@.len() + 1
                            &&& final(self).output@.last()@ == crate::builtins::console_join(
                                old(self).heap,
                                args_s,
                                0,
                            ) + "\n"@
                            &&& final(self).state.stack@.last() == Value::Undefined
                        },
                        BuiltinId::ProcessStdoutWrite => {
                            &&& final(self).heap == old(self).heap
                            &&& final(self).output@.len() == old(self).output@.len() + 1
                            &&& final(self).output@.last()@ == if args_s.len() > 0 {
                                crate::value::str_of_value(args_s[0])
                            } else {
                                Seq::<char>::empty()
                            }
                            &&& final(self).state.stack@.last() == Value::Undefined
                        },
                        BuiltinId::MathFloor => final(self).heap == old(self).heap && final(self).output == old(self).output && final(self).state.stack@.last() == Value::Number(
                            if args_s.len() > 0 {
                                crate::value::to_number_spec(args_s[0])
                            } else {
                                Number::Nan
                            },
                        ),
                        BuiltinId::MathAbs => final(self).heap == old(self).heap && final(self).output == old(self).output && final(self).state.stack@.last() == Value::Number(
                            crate::builtins::abs_num_spec(
                                if args_s.len() > 0 {
                                    crate::value::to_number_spec(args_s[0])
                                } else {
                                    Number::Nan
                                },
                            ),
                        ),
                        BuiltinId::MathPow => final(self).heap == old(self).heap && final(self).output == old(self).output && final(self).state.stack@.last() == Value::Number(
                            crate::builtins::pow_spec(
                                if args_s.len() > 0 {
                                    crate::value::to_number_spec(args_s[0])
                                } else {
                                    Number::Nan
                                },
                                if args_s.len() > 1 {
                                    crate::value::to_number_spec(args_s[1])
                                } else {
                                    Number::Nan
                                },
                            ),
                        ),
                        BuiltinId::MathMin => final(self).heap == old(self).heap && final(self).output == old(self).output && final(self).state.stack@.last() == Value::Number(
                            crate::builtins::fold_minmax(args_s, args_s.len() as int, true),
                        ),
                        BuiltinId::MathMax => final(self).heap == old(self).heap && final(self).output == old(self).output && final(self).state.stack@.last() == Value::Number(
                            crate::builtins::fold_minmax(args_s, args_s.len() as int, false),
                        ),
                        BuiltinId::FunctionProtoCall => {
                            // the receiver is the function to run; a
                            // non-function receiver is a type error
                            !(recv matches Value::Function(_)) ==> (r matches Err(e) && e matches
                            RuntimeError::Type(_))
                        },
                        BuiltinId::ArrayPush => {
                            &&& final(self).output == old(self).output
                            &&& (recv matches Value::Array(ah) ==> {
                                let a0 = old(self).heap.arrays@[ah as int];
                                let a1 = final(self).heap.arrays@[ah as int];
                                &&& a1.length == a0.length + argc
                                &&& (forall|j: int|
                                    0 <= j < a0.length ==> #[trigger] a1.elems@[j]
                                        == a0.elems@[j])
                                &&& (forall|x: int|
                                    0 <= x < argc ==> #[trigger] a1.elems@[a0.length + x]
                                        == crate::heap::data_prop(args_s[x]))
                                &&& final(self).state.stack@.last() == Value::Number(
                                    Number::Int(a1.length as i64),
                                )
                            })
                        },
                    })
                }))
            }),
        decreases fuel, 2int,
    {
        let pc = self.state.pc;
        if iseq.len() - pc < 5 {
            return Err(RuntimeError::General(String::from_str("truncated immediate")));
        }
        let argc = bytecode::read_u32(iseq, pc + 1) as usize;
        self.state.pc = pc + 5;
        let callee = self.pop_val()?;
        let fl = self.floor_val();
        if self.state.stack.len() - fl < argc {
            return Err(RuntimeError::General(String::from_str("operand stack underflow")));
        }
        let args = self.pop_args(argc)?;
        proof {
            assert(args@ =~= old(self).state.stack@.subrange(
                old(self).state.stack@.len() - 1 - argc,
                old(self).state.stack@.len() - 1,
            ));
            assert(self.state.stack@ =~= old(self).state.stack@.take(
                old(self).state.stack@.len() - 1 - argc,
            ));
        }
        let fh = match callee {
            Value::Function(f) => f,
            _ => {
                return Err(type_error_at(self.state.pc, ": callee is not a function but called"));
            },
        };
        let bid = match &self.heap.funcs[fh].kind {
            FunctionObjectKind::Builtin(b) => Some(*b),
            FunctionObjectKind::User(_) => None,
        };
        match bid {
            Some(b) => {
                proof {
                    assert(crate::heap::func_ok(self.heap, self.heap.funcs@[fh as int]));
                }
                let this = self.heap.funcs[fh].this.clone();
                let is_proto_call = match b {
                    BuiltinId::FunctionProtoCall => true,
                    _ => false,
                };
                if is_proto_call {
                    // run the receiver itself, with the first actual as its
                    // receiver and the remaining actuals as its arguments
                    let rf = match this {
                        Value::Function(f) => f,
                        _ => {
                            return Err(
                                RuntimeError::Type(
                                    String::from_str("call needs a function receiver"),
                                ),
                            );
                        },
                    };
                    let new_this = if args.len() > 0 {
                        args[0].clone()
                    } else {
                        Value::Undefined
                    };
                    let mut rest: Vec<Value> = Vec::new();
                    let mut k: usize = 1;
                    while k < args.len()
                        invariant
                            1 <= k,
                            k <= args@.len() || args@.len() == 0,
                            rest@.len() == if args@.len() > 0 {
                                k - 1
                            } else {
                                0
                            },
                            forall|x: int|
                                0 <= x < rest@.len() ==> #[trigger] rest@[x] == args@[x + 1],
                        decreases args@.len() - k,
                    {
                        rest.push(args[k].clone());
                        k = k + 1;
                    }
                    proof {
                        assert forall|x: int| 0 <= x < rest@.len() implies value_ok(
                            self.heap,
                            #[trigger] rest@[x],
                        ) by {
                            assert(rest@[x] == args@[x + 1]);
                        }
                    }
                    let rbid = match &self.heap.funcs[rf].kind {
                        FunctionObjectKind::Builtin(b2) => Some(*b2),
                        FunctionObjectKind::User(_) => None,
                    };
                    match rbid {
                        Some(b2) => {
                            let inner_is_proto = match b2 {
                                BuiltinId::FunctionProtoCall => true,
                                _ => false,
                            };
                            if inner_is_proto {
                                return Err(
                                    RuntimeError::Type(
                                        String::from_str("call needs a function receiver"),
                                    ),
                                );
                            }
                            self.run_builtin(b2, &rest, &new_this)?;
                            proof {
                                assert(self.state.stack@ =~= self.state.stack@.drop_last().push(
                                    self.state.stack@.last(),
                                ));
                            }
                            Ok((None, fuel))
                        },
                        None => {
                            let ghost h3 = self.heap;
                            let rf2 = self.heap.copy_func_with_this(rf, new_this.clone());
                            proof {
                                lemma_state_ok_le(h3, self.heap, self.state);
                                lemma_consts_ok_le(h3, self.heap, self.const_table);
                                assert forall|x: int| 0 <= x < rest@.len() implies value_ok(
                                    self.heap,
                                    #[trigger] rest@[x],
                                ) by {
                                    assert(value_ok(h3, rest@[x]));
                                }
                                assert(self.heap.funcs@[rf2 as int].kind matches
                                    FunctionObjectKind::User(_)) by {
                                    assert(crate::heap::func_like_with_this(
                                        h3.funcs@[rf as int],
                                        self.heap.funcs@[rf2 as int],
                                        new_this,
                                    ));
                                }
                            }
                            let flow = self.call_function(rf2, &rest, jit, fuel)?;
                            proof {
                                if flow.0 is None {
                                    assert(self.state.stack@ =~= old(self).state.stack@.take(
                                        old(self).state.stack@.len() - 1 - argc,
                                    ).push(self.state.stack@.last()));
                                }
                            }
                            return Ok(flow);
                        },
                    }
                } else {
                    self.run_builtin(b, &args, &this)?;
                    proof {
                        assert(self.state.stack@ =~= self.state.stack@.drop_last().push(
                            self.state.stack@.last(),
                        ));
                    }
                    Ok((None, fuel))
                }
            },
            None => {
                let flow = self.call_function(fh, &args, jit, fuel)?;
                proof {
                    if flow.0 is None {
                        assert(self.state.stack@ =~= old(self).state.stack@.take(
                            old(self).state.stack@.len() - 1 - argc,
                        ).push(self.state.stack@.last()));
                    }
                }
                Ok(flow)
            },
        }
    }

    /// Pops `argc` values, returning them in the order they were pushed.
    fn pop_args(&mut self, argc: usize) -> (r: Result<Vec<Value>, RuntimeError>)
        requires
            state_ok(old(self).heap, old(self).state),
            argc <= old(self).state.stack@.len() - frame_floor(old(self).state),
            frame_floor(old(self).state) <= old(self).state.stack@.len(),
        ensures
            final(self).heap == old(self).heap,
            final(self).state.scope@ == old(self).state.scope@,
            final(self).state.pc == old(self).state.pc,
            final(self).state.history@ == old(self).state.history@,
            final(self).const_table == old(self).const_table,
            final(self).cur_func_id == old(self).cur_func_id,
            final(self).array_proto == old(self).array_proto,
            final(self).output == old(self).output,
            state_ok(final(self).heap, final(self).state),
            r is Ok,
            match r {
                Ok(args) => {
                    &&& final(self).state.stack@ == old(self).state.stack@.take(
                        old(self).state.stack@.len() - argc,
                    )
                    &&& args@.len() == argc
                    &&& (forall|i: int|
                        0 <= i < argc ==> #[trigger] args@[i] == old(self).state.stack@[old(
                            self,
                        ).state.stack@.len() - argc + i])
                    &&& (forall|i: int|
                        0 <= i < argc ==> value_ok(final(self).heap, #[trigger] args@[i]))
                },
                Err(_) => true,
            },
    {
        let mut rev: Vec<Value> = Vec::new();
        let mut k: usize = 0;
        while k < argc
            invariant
                k <= argc,
                argc <= old(self).state.stack@.len(),
                *self == (VM {
                    state: VMState {
                        stack: self.state.stack,
                        ..old(self).state
                    },
                    ..*old(self)
                }),
                self.state.stack@ == old(self).state.stack@.take(
                    old(self).state.stack@.len() - k,
                ),
                rev@.len() == k,
                forall|i: int|
                    0 <= i < k ==> #[trigger] rev@[i] == old(self).state.stack@[old(
                        self,
                    ).state.stack@.len() - 1 - i],
                state_ok(self.heap, self.state),
                forall|i: int| 0 <= i < k ==> value_ok(self.heap, #[trigger] rev@[i]),
            decreases argc - k,
        {
            let v = match self.state.stack.pop() {
                Some(v) => v,
                None => {
                    proof {
                        assert(false);
                    }
                    return Err(RuntimeError::General(String::from_str("operand stack underflow")));
                },
            };
            proof {
                assert(value_ok(self.heap, old(self).state.stack@[old(self).state.stack@.len() - 1
                    - k]));
                assert(self.state.stack@ =~= old(self).state.stack@.take(
                    old(self).state.stack@.len() - (k + 1),
                ));
            }
            rev.push(v);
            k = k + 1;
        }
        let mut args: Vec<Value> = Vec::new();
        let mut k2: usize = 0;
        while k2 < argc
            invariant
                k2 <= argc,
                argc <= old(self).state.stack@.len(),
                rev@.len() == argc,
                forall|i: int|
                    0 <= i < argc ==> #[trigger] rev@[i] == old(self).state.stack@[old(
                        self,
                    ).state.stack@.len() - 1 - i],
                forall|i: int| 0 <= i < argc ==> value_ok(self.heap, #[trigger] rev@[i]),
                args@.len() == k2,
                forall|i: int|
                    0 <= i < k2 ==> #[trigger] args@[i] == old(self).state.stack@[old(
                        self,
                    ).state.stack@.len() - argc + i],
                forall|i: int| 0 <= i < k2 ==> value_ok(self.heap, #[trigger] args@[i]),
            decreases argc - k2,
        {
            let v = rev[argc - 1 - k2].clone();
            proof {
                assert(rev@[argc - 1 - k2] == old(self).state.stack@[old(self).state.stack@.len()
                    - argc + k2]);
            }
            args.push(v);
            k2 = k2 + 1;
        }
        Ok(args)
    }
}

impl VM {
    /// Calls the user function with record `fh` on `args`: a fresh call
    /// object is forked from the record's receiver and captured
    /// environment, the arguments are applied, and the function's bytecode
    /// runs in the new activation. When the run returns, exactly the return
    /// value has been added to the operand stack, and history, scope and
    /// program counter stand as before the call.
    ///
    /// When every argument is a number, the JIT hook is consulted first; a
    /// hook that takes the call computes the result natively and the
    /// activation is skipped entirely.
    pub fn call_function<J: JitHook>(
        &mut self,
        fh: usize,
        args: &Vec<Value>,
        jit: &mut J,
        fuel: u64,
    ) -> (r: Result<(Option<Exit>, u64), RuntimeError>)
        requires
            vm_ok(*old(self)),
            fh < old(self).heap.funcs@.len(),
            old(self).heap.funcs@[fh as int].kind matches FunctionObjectKind::User(_),
            forall|i: int| 0 <= i < args@.len() ==> value_ok(old(self).heap, #[trigger] args@[i]),
            frame_floor(old(self).state) <= old(self).state.stack@.len(),
        ensures
            vm_ok(*final(self)),
            heap_le(old(self).heap, final(self).heap),
            final(self).const_table == old(self).const_table,
            final(self).cur_func_id == old(self).cur_func_id,
            final(self).array_proto == old(self).array_proto,
            final(self).output@.len() >= old(self).output@.len(),
            forall|i: int|
                0 <= i < old(self).output@.len() ==> #[trigger] final(self).output@[i] == old(self).output@[i],
            !callee_params_ok(old(self).heap.funcs@[fh as int].kind) ==> (r matches Err(e)
                && e matches RuntimeError::General(_)),
            final(self).state.stack@.len() >= frame_floor(old(self).state),
            final(self).state.stack@.take(frame_floor(old(self).state)) == old(self).state.stack@.take(frame_floor(old(self).state)),
            match r {
                Ok((flow, f)) => {
                    &&& f <= fuel
                    &&& final(self).state.history@ == old(self).state.history@
                    &&& final(self).state.scope@ == old(self).state.scope@
                    &&& (flow is None ==> final(self).state.stack@ == old(self).state.stack@.push(
                        final(self).state.stack@.last(),
                    ) && final(self).state.pc == old(self).state.pc)
                },
                Err(_) => true,
            },
        decreases fuel, 1int,
    {
        let (params, code) = match &self.heap.funcs[fh].kind {
            FunctionObjectKind::User(u) => (u.params.clone(), u.code.clone()),
            FunctionObjectKind::Builtin(_) => {
                return Err(RuntimeError::General(String::from_str("not a user function")));
            },
        };
        proof {
            assert(crate::heap::func_ok(self.heap, self.heap.funcs@[fh as int]));
        }
        let this = self.heap.funcs[fh].this.clone();
        let outer = self.heap.funcs[fh].outer;
        let id = self.heap.funcs[fh].id;
        if !check_params(&params) {
            return Err(RuntimeError::General(String::from_str("ill-formed parameter list")));
        }

        // the numeric-specialization hook
        let mut nums: Vec<Number> = Vec::new();
        let mut all_num = true;
        let mut k: usize = 0;
        while k < args.len()
            invariant
                k <= args@.len(),
            decreases args@.len() - k,
        {
            match &args[k] {
                Value::Number(n) => {
                    nums.push(*n);
                },
                _ => {
                    all_num = false;
                },
            }
            k = k + 1;
        }
        if all_num && nums.len() == args.len() {
            match jit.call_hook(id, &nums) {
                Some(n) => {
                    self.push_val(Value::Number(n));
                    return Ok((None, fuel));
                },
                None => {},
            }
        }

        let ghost h0 = self.heap;
        let mut co = CallObject::new(&mut self.heap, this);
        co.parent = outer;
        proof {
            lemma_state_ok_le(h0, self.heap, self.state);
            lemma_consts_ok_le(h0, self.heap, self.const_table);
            assert(callobj_ok(self.heap, co));
            assert forall|i: int| 0 <= i < args@.len() implies value_ok(
                self.heap,
                #[trigger] args@[i],
            ) by {
                assert(value_ok(h0, args@[i]));
            }
        }
        let ghost h1 = self.heap;
        co.apply_arguments(&mut self.heap, &params, args);
        proof {
            lemma_state_ok_le(h1, self.heap, self.state);
            lemma_consts_ok_le(h1, self.heap, self.const_table);
            assert(callobj_ok(self.heap, co)) by {
                assert forall|i: int| 0 <= i < co.arguments@.len() implies value_ok(
                    self.heap,
                    (#[trigger] co.arguments@[i]).1,
                ) by {
                    assert(co.arguments@[i].1 == args@[i]);
                    assert(value_ok(h1, args@[i]));
                }
            }
        }
        let coh = self.heap.alloc_callobj(co);
        proof {
            lemma_state_ok_le(h1, self.heap, self.state);
            lemma_consts_ok_le(h1, self.heap, self.const_table);
        }
        self.state.scope.push(coh);
        proof {
            assert forall|i: int| 0 <= i < self.state.scope@.len() implies (
            #[trigger] self.state.scope@[i]) < self.heap.callobjs@.len() by {
                if i < old(self).state.scope@.len() {
                    assert(old(self).state.scope@[i] < h0.callobjs@.len());
                }
            }
        }
        let sp = self.state.stack.len();
        self.state.history.push((sp, self.state.pc));
        self.state.pc = 0;
        let saved_id = self.cur_func_id;
        self.cur_func_id = id;
        let res = self.do_run(&code, jit, fuel);
        let (exit, f) = match res {
            Ok(p) => p,
            Err(e) => {
                self.cur_func_id = saved_id;
                return Err(e);
            },
        };
        self.cur_func_id = saved_id;
        match exit {
            Exit::Returned => {
                let _ = self.state.scope.pop();
                proof {
                    assert(self.state.scope@ =~= old(self).state.scope@);
                }
                let n = self.state.stack.len();
                proof {
                    assert(n == sp + 1);
                }
                jit.record_return(id, &self.state.stack[n - 1]);
                Ok((None, f))
            },
            Exit::Halted => {
                let _ = self.state.scope.pop();
                let _ = self.state.history.pop();
                proof {
                    assert(self.state.scope@ =~= old(self).state.scope@);
                    assert(self.state.history@ =~= old(self).state.history@);
                }
                Ok((Some(Exit::Halted), f))
            },
        }
    }

    /// The construct instruction: pops the callee and its arguments,
    /// allocates a fresh object whose `__proto__` is the callee's
    /// `prototype` property, runs the callee with the fresh object as its
    /// receiver, and keeps the run's result when it is an object, an array
    /// or a function — else the fresh receiver is the construction result.
    fn op_construct<J: JitHook>(&mut self, iseq: &Vec<u8>, jit: &mut J, fuel: u64) -> (r: Result<
        (Option<Exit>, u64),
        RuntimeError,
    >)
        requires
            vm_ok(*old(self)),
            old(self).state.pc < iseq@.len(),
            iseq@[old(self).state.pc as int] == bytecode::CONSTRUCT,
        ensures
            vm_ok(*final(self)),
            heap_le(old(self).heap, final(self).heap),
            final(self).const_table == old(self).const_table,
            final(self).cur_func_id == old(self).cur_func_id,
            final(self).array_proto == old(self).array_proto,
            final(self).output@.len() >= old(self).output@.len(),
            forall|i: int|
                0 <= i < old(self).output@.len() ==> #[trigger] final(self).output@[i] == old(self).output@[i],
            old(self).state.stack@.len() >= frame_floor(old(self).state) ==> final(self).state.stack@.len() >= frame_floor(old(self).state) && final(self).state.stack@.take(
                frame_floor(old(self).state),
            ) == old(self).state.stack@.take(frame_floor(old(self).state)),
            ({
                let pcv = old(self).state.pc as int;
                let s0 = old(self).state.stack@;
                let n0 = s0.len() as int;
                let fl = frame_floor(old(self).state);
                let argc = bytecode::imm32(iseq@, pcv + 1) as int;
                let shaped = iseq@.len() - pcv >= 5 && n0 > fl && n0 - 1 - fl >= argc;
                &&& match r {
                    Ok((flow, f)) => {
                        &&& f <= fuel
                        &&& final(self).state.history@ == old(self).state.history@
                        &&& final(self).state.scope@ == old(self).state.scope@
                        &&& (flow is None ==> {
                            &&& shaped
                            &&& final(self).state.pc == pcv + 5
                            &&& final(self).state.stack@ == s0.take(n0 - argc - 1).push(
                                final(self).state.stack@.last(),
                            )
                            // the construction result is object-like: the run's
                            // result when it was, else the fresh receiver
                            &&& (final(self).state.stack@.last() matches Value::Object(_)
                                || final(self).state.stack@.last() matches Value::Array(_)
                                || final(self).state.stack@.last() matches Value::Function(_))
                        })
                    },
                    Err(_) => true,
                }
                &&& ((shaped && !(s0.last() matches Value::Function(_))) ==> (r matches Err(e)
                    && e matches RuntimeError::Type(m) && m@ == type_error_text(
                    pcv + 5,
                    ": callee is not a constructor"@,
                )))
                &&& ((shaped && (s0.last() matches Value::Function(_)) && (old(self).heap.funcs@[func_handle_of(s0.last())].kind matches FunctionObjectKind::Builtin(_))
                    && builtin_id_of(old(self).heap.funcs@[func_handle_of(s0.last())].kind)
                    == BuiltinId::FunctionProtoCall) ==> (r matches Err(e) && e matches
                RuntimeError::Type(_)))
            }),
        decreases fuel, 2int,
    {
        let pc = self.state.pc;
        if iseq.len() - pc < 5 {
            return Err(RuntimeError::General(String::from_str("truncated immediate")));
        }
        let argc = bytecode::read_u32(iseq, pc + 1) as usize;
        self.state.pc = pc + 5;
        let callee = self.pop_val()?;
        let fl = self.floor_val();
        if self.state.stack.len() - fl < argc {
            return Err(RuntimeError::General(String::from_str("operand stack underflow")));
        }
        let args = self.pop_args(argc)?;
        let fh = match callee {
            Value::Function(f) => f,
            _ => {
                return Err(type_error_at(self.state.pc, ": callee is not a constructor"));
            },
        };
        proof {
            assert(crate::heap::func_ok(self.heap, self.heap.funcs@[fh as int]));
        }
        let ghost h0 = self.heap;
        let nh = alloc_receiver(&mut self.heap, fh);
        proof {
            lemma_state_ok_le(h0, self.heap, self.state);
            lemma_consts_ok_le(h0, self.heap, self.const_table);
            assert forall|i: int| 0 <= i < args@.len() implies value_ok(
                self.heap,
                #[trigger] args@[i],
            ) by {
                assert(value_ok(h0, args@[i]));
            }
        }
        let new_this = Value::Object(nh);

        let bid = match &self.heap.funcs[fh].kind {
            FunctionObjectKind::Builtin(b) => Some(*b),
            FunctionObjectKind::User(_) => None,
        };
        match bid {
            Some(b) => {
                self.run_builtin(b, &args, &new_this)?;
            },
            None => {
                let ghost h2 = self.heap;
                let fh2 = self.heap.copy_func_with_this(fh, new_this.clone());
                proof {
                    lemma_state_ok_le(h2, self.heap, self.state);
                    lemma_consts_ok_le(h2, self.heap, self.const_table);
                    assert forall|i: int| 0 <= i < args@.len() implies value_ok(
                        self.heap,
                        #[trigger] args@[i],
                    ) by {
                        assert(value_ok(h2, args@[i]));
                    }
                    assert(self.heap.funcs@[fh2 as int].kind matches FunctionObjectKind::User(_))
                        by {
                        assert(crate::heap::func_like_with_this(
                            h2.funcs@[fh as int],
                            self.heap.funcs@[fh2 as int],
                            new_this,
                        ));
                    }
                }
                let flow = self.call_function(fh2, &args, jit, fuel)?;
                match flow {
                    (Some(e), f) => {
                        return Ok((Some(e), f));
                    },
                    (None, f) => {},
                }
            },
        }
        // keep an object-like result; anything else becomes the receiver
        let n = self.state.stack.len();
        if n == 0 {
            return Err(RuntimeError::General(String::from_str("construction left no value")));
        }
        let keep = match &self.state.stack[n - 1] {
            Value::Object(_) => true,
            Value::Array(_) => true,
            Value::Function(_) => true,
            _ => false,
        };
        if !keep {
            self.state.stack.set(n - 1, new_this);
            proof {
                assert forall|i: int| 0 <= i < self.state.stack@.len() implies value_ok(
                    self.heap,
                    #[trigger] self.state.stack@[i],
                ) by {}
            }
        }
        Ok((None, fuel))
    }

    /// Runs the bytecode sequence until the halt instruction retires, a
    /// return pops the history entry the run began with, an error occurs,
    /// or the fuel is spent. Each retired instruction consumes one unit of
    /// fuel; the remaining fuel is returned.
    pub fn do_run<J: JitHook>(&mut self, iseq: &Vec<u8>, jit: &mut J, fuel: u64) -> (r: Result<
        (Exit, u64),
        RuntimeError,
    >)
        requires
            vm_ok(*old(self)),
            frame_floor(old(self).state) <= old(self).state.stack@.len(),
        ensures
            vm_ok(*final(self)),
            heap_le(old(self).heap, final(self).heap),
            final(self).const_table == old(self).const_table,
            final(self).array_proto == old(self).array_proto,
            final(self).output@.len() >= old(self).output@.len(),
            forall|i: int|
                0 <= i < old(self).output@.len() ==> #[trigger] final(self).output@[i] == old(self).output@[i],
            match r {
                Ok((exit, f)) => {
                    &&& f <= fuel
                    &&& final(self).cur_func_id == old(self).cur_func_id
                    &&& final(self).state.scope@ == old(self).state.scope@
                    &&& (exit matches Exit::Returned ==> {
                        &&& old(self).state.history@.len() >= 1
                        &&& final(self).state.history@ == old(self).state.history@.drop_last()
                        &&& final(self).state.stack@ == old(self).state.stack@.take(
                            old(self).state.history@.last().0 as int,
                        ).push(final(self).state.stack@.last())
                        &&& final(self).state.stack@.len() == old(self).state.history@.last().0
                            + 1
                        &&& final(self).state.pc == old(self).state.history@.last().1
                    })
                    &&& (exit matches Exit::Halted ==> {
                        &&& final(self).state.history@ == old(self).state.history@
                        &&& final(self).state.stack@.len() >= frame_floor(old(self).state)
                        &&& final(self).state.stack@.take(frame_floor(old(self).state)) == old(self).state.stack@.take(frame_floor(old(self).state))
                    })
                },
                Err(_) => final(self).state.stack@.len() >= frame_floor(old(self).state) && final(self).state.stack@.take(frame_floor(old(self).state)) == old(self).state.stack@.take(
                    frame_floor(old(self).state),
                ),
            },
        decreases fuel, 0int,
    {
        let mut fuel_left: u64 = fuel;
        loop
            invariant
                vm_ok(*self),
                heap_le(old(self).heap, self.heap),
                fuel_left <= fuel,
                self.state.history@ == old(self).state.history@,
                self.state.scope@ == old(self).state.scope@,
                self.cur_func_id == old(self).cur_func_id,
                self.array_proto == old(self).array_proto,
                self.const_table == old(self).const_table,
                self.state.stack@.len() >= frame_floor(old(self).state),
                self.state.stack@.take(frame_floor(old(self).state)) == old(self).state.stack@.take(frame_floor(old(self).state)),
                self.output@.len() >= old(self).output@.len(),
                forall|i: int|
                    0 <= i < old(self).output@.len() ==> #[trigger] self.output@[i] == old(self).output@[i],
            decreases fuel_left,
        {
            let pc = self.state.pc;
            if pc >= iseq.len() {
                return Err(
                    RuntimeError::General(String::from_str("program counter out of range")),
                );
            }
            if fuel_left == 0 {
                return Err(RuntimeError::General(String::from_str("fuel exhausted")));
            }
            fuel_left = fuel_left - 1;
            let op = iseq[pc];
            if op == bytecode::END {
                return Ok((Exit::Halted, fuel_left));
            } else if op == bytecode::RETURN {
                // with no call history left, a return terminates the run
                if self.state.history.len() == 0 {
                    return Ok((Exit::Halted, fuel_left));
                }
                self.op_return()?;
                proof {
                    assert(self.state.stack@ =~= old(self).state.stack@.take(
                        old(self).state.history@.last().0 as int,
                    ).push(self.state.stack@.last()));
                }
                return Ok((Exit::Returned, fuel_left));
            } else if op == bytecode::CALL {
                let (flow, f) = self.op_call(iseq, jit, fuel_left)?;
                fuel_left = f;
                match flow {
                    Some(e) => {
                        return Ok((Exit::Halted, fuel_left));
                    },
                    None => {},
                }
            } else if op == bytecode::CONSTRUCT {
                let (flow, f) = self.op_construct(iseq, jit, fuel_left)?;
                fuel_left = f;
                match flow {
                    Some(e) => {
                        return Ok((Exit::Halted, fuel_left));
                    },
                    None => {},
                }
            } else {
                self.op_basic(iseq, jit)?;
            }
        }
    }

    /// Runs a top-level bytecode sequence with the given JIT hook and fuel.
    pub fn run<J: JitHook>(&mut self, iseq: &Vec<u8>, jit: &mut J, fuel: u64) -> (r: Result<
        (),
        RuntimeError,
    >)
        requires
            vm_ok(*old(self)),
            frame_floor(old(self).state) <= old(self).state.stack@.len(),
        ensures
            vm_ok(*final(self)),
            heap_le(old(self).heap, final(self).heap),
            final(self).const_table == old(self).const_table,
            final(self).array_proto == old(self).array_proto,
            final(self).output@.len() >= old(self).output@.len(),
            forall|i: int|
                0 <= i < old(self).output@.len() ==> #[trigger] final(self).output@[i] == old(self).output@[i],
            r is Ok ==> final(self).state.scope@ == old(self).state.scope@ && final(self).cur_func_id == old(self).cur_func_id,
            final(self).state.stack@.len() >= frame_floor(old(self).state),
            final(self).state.stack@.take(frame_floor(old(self).state)) == old(self).state.stack@.take(frame_floor(old(self).state)),
            r is Ok ==> (final(self).state.history@ == old(self).state.history@ || final(self).state.history@ == old(self).state.history@.drop_last()),
    {
        match self.do_run(iseq, jit, fuel) {
            Ok((exit, _)) => {
                proof {
                    match exit {
                        Exit::Returned => {
                            assert(self.state.stack@.take(frame_floor(old(self).state)) =~= old(self).state.stack@.take(frame_floor(old(self).state)));
                        },
                        _ => {},
                    }
                }
                Ok(())
            },
            Err(e) => Err(e),
        }
    }
}

/// A value the scope chain resolves is well-formed for the heap that
/// resolved it.
pub proof fn lemma_chain_lookup_value_ok(h: Heap, co: int, name: Seq<char>)
    requires
        heap_ok(h),
    ensures
        match crate::callobj::chain_lookup(h, co, name) {
            Some(v) => value_ok(h, v),
            None => true,
        },
    decreases co,
{
    if 0 <= co < h.callobjs@.len() {
        let c = h.callobjs@[co];
        assert(callobj_ok(h, c));
        if c.vals < h.props@.len() {
            assert(crate::heap::pm_ok(h, h.props@[c.vals as int]));
            crate::heap::lemma_pm_lookup_prop_ok(h, h.props@[c.vals as int].entries@, name);
            match pm_lookup(h.props@[c.vals as int].entries@, name) {
                Some(p) => {},
                None => {
                    match c.parent {
                        Some(par) => {
                            if par < co {
                                lemma_chain_lookup_value_ok(h, par as int, name);
                            }
                        },
                        None => {},
                    }
                },
            }
        }
    }
}

} // verus!
