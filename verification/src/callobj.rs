//! Call objects: the per-activation lexical environment records.
//!
//! A call object holds the activation's bindings (a handle to a property
//! map), the name of its rest parameter if any, the ordered actual arguments
//! with their parameter names, the receiver, and a reference to the
//! enclosing call object, which forms the lexical scope chain. Activations
//! live in the machine's call-object arena; the chain always points to
//! records allocated earlier, so every walk along it ends.

use vstd::prelude::*;

use crate::error::RuntimeError;
use crate::function::FunctionParameter;
use crate::heap::{
    callobj_ok, data_prop, heap_ok, pm_lookup, value_ok, ArrayValue, Heap, PropMap,
};
use crate::value::{prop_read, Property, Value};

verus! {

/// One activation's lexical environment record.
///
/// `arguments` records the actual arguments passed, excess included; a slot
/// carries `Some(name)` when its position maps to a declared non-rest
/// parameter, so that writes through the arguments marker alias the live
/// binding.
#[derive(Debug)]
pub struct CallObject {
    /// Handle of the property map binding names in this activation.
    pub vals: usize,
    /// Name of the rest parameter, if the function declares one.
    pub rest_params: Option<String>,
    /// The actual arguments, each with the declared parameter name aliased.
    pub arguments: Vec<(Option<String>, Value)>,
    /// The receiver.
    pub this: Value,
    /// The enclosing call object, if any.
    pub parent: Option<usize>,
}

impl PartialEq for CallObject {
    /// Two call objects are equal when their binding-map handles and their
    /// parent handles are equal: identity of the activation, not contents.
    fn eq(&self, other: &CallObject) -> (r: bool)
        ensures
            r == (self.vals == other.vals && self.parent == other.parent),
    {
        self.vals == other.vals && match (self.parent, other.parent) {
            (None, None) => true,
            (Some(a), Some(b)) => a == b,
            _ => false,
        }
    }
}

impl vstd::std_specs::cmp::PartialEqSpecImpl for CallObject {
    open spec fn obeys_eq_spec() -> bool {
        true
    }

    open spec fn eq_spec(&self, other: &CallObject) -> bool {
        self.vals == other.vals && self.parent == other.parent
    }
}

/// The value that resolving `name` along the scope chain from call object
/// `co` yields: the nearest binding through `parent`, or `None` when no
/// ancestor binds it.
pub open spec fn chain_lookup(h: Heap, co: int, name: Seq<char>) -> Option<Value>
    decreases co,
{
    if 0 <= co < h.callobjs@.len() {
        let c = h.callobjs@[co];
        if c.vals < h.props@.len() {
            match pm_lookup(h.props@[c.vals as int].entries@, name) {
                Some(p) => Some(prop_read(p)),
                None => match c.parent {
                    Some(par) => if par < co {
                        chain_lookup(h, par as int, name)
                    } else {
                        None
                    },
                    None => None,
                },
            }
        } else {
            None
        }
    } else {
        None
    }
}

/// The call object in which a write to `name` lands: the nearest ancestor
/// that binds it, or the root of the chain when none does.
pub open spec fn chain_target(h: Heap, co: int, name: Seq<char>) -> int
    decreases co,
{
    if 0 <= co < h.callobjs@.len() {
        let c = h.callobjs@[co];
        if c.vals < h.props@.len() && pm_lookup(h.props@[c.vals as int].entries@, name) is None {
            match c.parent {
                Some(par) => if par < co {
                    chain_target(h, par as int, name)
                } else {
                    co
                },
                None => co,
            }
        } else {
            co
        }
    } else {
        co
    }
}

/// Whether the declared parameter list ends in a rest parameter that
/// receives at least one actual.
pub open spec fn rest_gets_actuals(params: Seq<FunctionParameter>, args: Seq<Value>) -> bool {
    params.len() > 0 && params[params.len() - 1].is_rest_param && params.len() - 1 < args.len()
}

/// What parameter `i` is bound to after arguments are applied: the matching
/// actual; for a rest parameter that receives actuals, the fresh array with
/// handle `rest_h`; `Undefined` when no actual reaches it.
pub open spec fn bound_param_value(
    params: Seq<FunctionParameter>,
    args: Seq<Value>,
    rest_h: int,
    i: int,
) -> Value {
    if params[i].is_rest_param {
        if i < args.len() {
            Value::Array(rest_h as usize)
        } else {
            Value::Undefined
        }
    } else if i < args.len() {
        args[i]
    } else {
        Value::Undefined
    }
}

/// The write target of a name depends only on the call objects and the
/// property maps, not on the other arenas.
pub proof fn lemma_chain_target_same(h1: Heap, h2: Heap, co: int, name: Seq<char>)
    requires
        h1.callobjs@ == h2.callobjs@,
        h1.props@ == h2.props@,
    ensures
        chain_target(h1, co, name) == chain_target(h2, co, name),
    decreases co,
{
    if 0 <= co < h1.callobjs@.len() {
        let c = h1.callobjs@[co];
        if c.vals < h1.props@.len() && pm_lookup(h1.props@[c.vals as int].entries@, name)
            is None {
            match c.parent {
                Some(par) => {
                    if par < co {
                        lemma_chain_target_same(h1, h2, par as int, name);
                    }
                },
                None => {},
            }
        }
    }
}

/// Law: a name bound in the activation itself resolves to that binding.
pub proof fn lemma_chain_lookup_own(h: Heap, co: int, name: Seq<char>, p: Property)
    requires
        heap_ok(h),
        0 <= co < h.callobjs@.len(),
        pm_lookup(h.props@[h.callobjs@[co].vals as int].entries@, name) == Some(p),
    ensures
        chain_lookup(h, co, name) == Some(prop_read(p)),
{
    assert(crate::heap::callobj_ok(h, h.callobjs@[co]));
}

/// Law: closure capture. A name the activation does not bind itself
/// resolves to exactly what the captured enclosing environment resolves it
/// to, so a function body evaluated inside an activation sees that
/// activation's bindings through its parent chain.
pub proof fn lemma_chain_lookup_parent(h: Heap, co: int, par: usize, name: Seq<char>)
    requires
        heap_ok(h),
        0 <= co < h.callobjs@.len(),
        0 <= par < h.callobjs@.len(),
        pm_lookup(h.props@[h.callobjs@[co].vals as int].entries@, name) is None,
        h.callobjs@[co].parent == Some(par),
    ensures
        chain_lookup(h, co, name) == chain_lookup(h, par as int, name),
{
    assert(crate::heap::callobj_ok(h, h.callobjs@[co]));
    assert(match h.callobjs@[co].parent {
        Some(p) => p < co,
        None => true,
    });
    let c = h.callobjs@[co];
    assert(c.vals < h.props@.len());
    assert(par < co);
}

impl CallObject {
    /// A fresh call object with its own empty binding map, receiver `this`,
    /// no rest parameter, no recorded arguments and no parent.
    pub fn new(heap: &mut Heap, this: Value) -> (co: CallObject)
        requires
            heap_ok(*old(heap)),
            value_ok(*old(heap), this),
        ensures
            heap_ok(*final(heap)),
            crate::heap::heap_le(*old(heap), *final(heap)),
            final(heap).props@.len() == old(heap).props@.len() + 1,
            forall|i: int|
                0 <= i < old(heap).props@.len() ==> #[trigger] final(heap).props@[i] == old(
                    heap,
                ).props@[i],
            final(heap).arrays@ == old(heap).arrays@,
            final(heap).funcs@ == old(heap).funcs@,
            final(heap).callobjs@ == old(heap).callobjs@,
            co.vals == old(heap).props@.len(),
            final(heap).props@[co.vals as int].entries@.len() == 0,
            co.rest_params is None,
            co.arguments@.len() == 0,
            co.this == this,
            co.parent is None,
            callobj_ok(*final(heap), co),
    {
        let vals = heap.alloc_props(PropMap::new());
        CallObject { vals, rest_params: None, arguments: Vec::new(), this, parent: None }
    }

    /// The global call object: its binding map doubles as the global object,
    /// which is also its receiver. Returns the new call object's handle.
    pub fn new_global(heap: &mut Heap) -> (h: usize)
        requires
            heap_ok(*old(heap)),
        ensures
            heap_ok(*final(heap)),
            crate::heap::heap_le(*old(heap), *final(heap)),
            h == old(heap).callobjs@.len(),
            final(heap).callobjs@.len() == old(heap).callobjs@.len() + 1,
            forall|i: int|
                0 <= i < old(heap).callobjs@.len() ==> #[trigger] final(heap).callobjs@[i] == old(
                    heap,
                ).callobjs@[i],
            final(heap).props@.len() == old(heap).props@.len() + 1,
            forall|i: int|
                0 <= i < old(heap).props@.len() ==> #[trigger] final(heap).props@[i] == old(
                    heap,
                ).props@[i],
            final(heap).props@[old(heap).props@.len() as int].entries@.len() == 0,
            final(heap).arrays@ == old(heap).arrays@,
            final(heap).funcs@ == old(heap).funcs@,
            final(heap).callobjs@[h as int].vals == old(heap).props@.len(),
            final(heap).callobjs@[h as int].this == Value::Object(old(heap).props@.len() as usize),
            final(heap).callobjs@[h as int].parent is None,
            final(heap).callobjs@[h as int].arguments@.len() == 0,
            final(heap).callobjs@[h as int].rest_params is None,
    {
        let vals = heap.alloc_props(PropMap::new());
        let co = CallObject {
            vals,
            rest_params: None,
            arguments: Vec::new(),
            this: Value::Object(vals),
            parent: None,
        };
        heap.alloc_callobj(co)
    }

    /// Installs `name = val` in this call object's own bindings, shadowing
    /// any ancestor.
    pub fn set_value(&self, heap: &mut Heap, name: String, val: Value)
        requires
            heap_ok(*old(heap)),
            self.vals < old(heap).props@.len(),
            value_ok(*old(heap), val),
        ensures
            heap_ok(*final(heap)),
            final(heap).props@.len() == old(heap).props@.len(),
            final(heap).arrays@ == old(heap).arrays@,
            final(heap).funcs@ == old(heap).funcs@,
            final(heap).callobjs@ == old(heap).callobjs@,
            forall|i: int|
                0 <= i < old(heap).props@.len() && i != self.vals ==> #[trigger] final(heap).props@[i] == old(heap).props@[i],
            forall|k2: Seq<char>|
                #[trigger] pm_lookup(final(heap).props@[self.vals as int].entries@, k2) == if k2
                    == name@ {
                    Some(data_prop(val))
                } else {
                    pm_lookup(old(heap).props@[self.vals as int].entries@, k2)
                },
    {
        heap.prop_insert(self.vals, name, Property::new(val));
    }

    /// Resolves `name` along the scope chain from the call object with
    /// handle `co`; failure is a reference error.
    pub fn get_value(heap: &Heap, co: usize, name: &String) -> (r: Result<Value, RuntimeError>)
        requires
            heap_ok(*heap),
            co < heap.callobjs@.len(),
        ensures
            match chain_lookup(*heap, co as int, name@) {
                Some(v) => r matches Ok(rv) && rv == v,
                None => r matches Err(e) && e matches RuntimeError::Reference(_),
            },
    {
        let mut cur: usize = co;
        loop
            invariant
                heap_ok(*heap),
                cur < heap.callobjs@.len(),
                chain_lookup(*heap, co as int, name@) == chain_lookup(*heap, cur as int, name@),
            decreases cur,
        {
            let c_vals = heap.callobjs[cur].vals;
            match heap.prop_lookup(c_vals, name) {
                Some(p) => {
                    return Ok(p.read());
                },
                None => {
                    let parent = heap.callobjs[cur].parent;
                    match parent {
                        Some(par) => {
                            cur = par;
                        },
                        None => {
                            return Err(
                                RuntimeError::Reference(String::from_str("name is not defined")),
                            );
                        },
                    }
                },
            }
        }
    }

    /// Resolves `name` in this call object's own bindings only; failure is
    /// an internal error.
    pub fn get_local_value(&self, heap: &Heap, name: &String) -> (r: Result<Value, RuntimeError>)
        requires
            self.vals < heap.props@.len(),
        ensures
            match pm_lookup(heap.props@[self.vals as int].entries@, name@) {
                Some(p) => r matches Ok(rv) && rv == prop_read(p),
                None => r matches Err(e) && e matches RuntimeError::General(_),
            },
    {
        match heap.prop_lookup(self.vals, name) {
            Some(p) => Ok(p.read()),
            None => Err(RuntimeError::General(String::from_str("name not bound in local scope"))),
        }
    }

    /// Writes `name = val` into the nearest ancestor that binds `name`;
    /// when none does, installs it in the root of the chain, which is how
    /// an assignment to an undeclared name becomes a global.
    pub fn set_value_if_exist(heap: &mut Heap, co: usize, name: String, val: Value)
        requires
            heap_ok(*old(heap)),
            co < old(heap).callobjs@.len(),
            value_ok(*old(heap), val),
        ensures
            heap_ok(*final(heap)),
            final(heap).props@.len() == old(heap).props@.len(),
            final(heap).arrays@ == old(heap).arrays@,
            final(heap).funcs@ == old(heap).funcs@,
            final(heap).callobjs@ == old(heap).callobjs@,
            ({
                let t = chain_target(*old(heap), co as int, name@);
                let tv = old(heap).callobjs@[t].vals;
                &&& forall|i: int|
                    0 <= i < old(heap).props@.len() && i != tv ==> #[trigger] final(heap).props@[i] == old(heap).props@[i]
                &&& forall|k2: Seq<char>|
                    #[trigger] pm_lookup(final(heap).props@[tv as int].entries@, k2) == if k2
                        == name@ {
                        Some(data_prop(val))
                    } else {
                        pm_lookup(old(heap).props@[tv as int].entries@, k2)
                    }
            }),
    {
        let mut cur: usize = co;
        loop
            invariant
                heap_ok(*heap),
                *heap == *old(heap),
                cur < heap.callobjs@.len(),
                value_ok(*heap, val),
                chain_target(*heap, co as int, name@) == chain_target(*heap, cur as int, name@),
            decreases cur,
        {
            let c_vals = heap.callobjs[cur].vals;
            if heap.props[c_vals].contains_key(&name) {
                heap.prop_insert(c_vals, name, Property::new(val));
                return ;
            }
            let parent = heap.callobjs[cur].parent;
            match parent {
                Some(par) => {
                    cur = par;
                },
                None => {
                    heap.prop_insert(c_vals, name, Property::new(val));
                    return ;
                },
            }
        }
    }

    /// Seeds and binds an activation's parameters from the actual
    /// arguments, and records the actuals. See [`bound_param_value`] for
    /// what each parameter ends up bound to.
    ///
    /// The declared parameter names must be distinct and a rest parameter
    /// must come last. The bytecode generator guarantees both when it
    /// lowers a formal-parameter list, and the call protocol checks them
    /// before applying arguments, rejecting a function record that breaks
    /// them with an internal error rather than binding duplicates.
    pub fn apply_arguments(
        &mut self,
        heap: &mut Heap,
        params: &Vec<FunctionParameter>,
        args: &Vec<Value>,
    )
        requires
            heap_ok(*old(heap)),
            old(self).vals < old(heap).props@.len(),
            old(self).arguments@.len() == 0,
            old(self).rest_params is None,
            forall|i: int| 0 <= i < args@.len() ==> value_ok(*old(heap), #[trigger] args@[i]),
            forall|i: int, j: int|
                0 <= i < j < params@.len() ==> (#[trigger] params@[i]).name@ != (
                #[trigger] params@[j]).name@,
            forall|i: int|
                0 <= i < params@.len() && (#[trigger] params@[i]).is_rest_param ==> i
                    == params@.len() - 1,
        ensures
            heap_ok(*final(heap)),
            final(heap).props@.len() == old(heap).props@.len(),
            final(heap).funcs@ == old(heap).funcs@,
            final(heap).callobjs@ == old(heap).callobjs@,
            forall|i: int|
                0 <= i < old(heap).props@.len() && i != old(self).vals ==> #[trigger] final(heap).props@[i] == old(heap).props@[i],
            // the rest array, when a rest parameter receives actuals
            if rest_gets_actuals(params@, args@) {
                &&& final(heap).arrays@.len() == old(heap).arrays@.len() + 1
                &&& (forall|i: int|
                    0 <= i < old(heap).arrays@.len() ==> #[trigger] final(heap).arrays@[i] == old(
                        heap,
                    ).arrays@[i])
                &&& ({
                    let a = final(heap).arrays@[old(heap).arrays@.len() as int];
                    &&& a.length == args@.len() - (params@.len() - 1)
                    &&& a.elems@.len() == a.length
                    &&& (forall|j: int|
                        0 <= j < a.elems@.len() ==> #[trigger] a.elems@[j] == data_prop(
                            args@[params@.len() - 1 + j],
                        ))
                })
            } else {
                final(heap).arrays@ == old(heap).arrays@
            },
            // every declared parameter is bound
            forall|i: int|
                0 <= i < params@.len() ==> #[trigger] pm_lookup(
                    final(heap).props@[old(self).vals as int].entries@,
                    params@[i].name@,
                ) == Some(
                    data_prop(
                        bound_param_value(params@, args@, old(heap).arrays@.len() as int, i),
                    ),
                ),
            // names not among the parameters keep their bindings
            forall|k: Seq<char>|
                (forall|i: int| 0 <= i < params@.len() ==> (#[trigger] params@[i]).name@ != k)
                    ==> #[trigger] pm_lookup(final(heap).props@[old(self).vals as int].entries@, k)
                    == pm_lookup(old(heap).props@[old(self).vals as int].entries@, k),
            // the actuals are recorded, aliased to declared non-rest parameters
            final(self).vals == old(self).vals,
            final(self).this == old(self).this,
            final(self).parent == old(self).parent,
            final(self).arguments@.len() == args@.len(),
            forall|i: int|
                0 <= i < args@.len() ==> (#[trigger] final(self).arguments@[i]).1 == args@[i],
            forall|i: int|
                0 <= i < args@.len() ==> ((final(self).arguments@[i].0 is Some) <==> (i
                    < params@.len() && !(#[trigger] params@[i]).is_rest_param)),
            forall|i: int|
                (0 <= i < args@.len() && (#[trigger] final(self).arguments@[i]).0 is Some) ==> (
                final(self).arguments@[i].0.unwrap())@ == params@[i].name@,
            if rest_gets_actuals(params@, args@) {
                final(self).rest_params matches Some(nm) && nm@ == params@[params@.len()
                    - 1].name@
            } else {
                final(self).rest_params is None
            },
    {
        let np = params.len();
        let na = args.len();
        let mut i: usize = 0;
        while i < na
            invariant
                np == params@.len(),
                na == args@.len(),
                i <= na,
                self.vals == old(self).vals,
                self.this == old(self).this,
                self.parent == old(self).parent,
                self.rest_params == old(self).rest_params,
                *heap == *old(heap),
                self.arguments@.len() == i,
                forall|x: int|
                    0 <= x < i ==> (#[trigger] self.arguments@[x]).1 == args@[x],
                forall|x: int|
                    0 <= x < i ==> ((self.arguments@[x].0 is Some) <==> (x < params@.len() && !(
                    #[trigger] params@[x]).is_rest_param)),
                forall|x: int|
                    (0 <= x < i && (#[trigger] self.arguments@[x]).0 is Some) ==> (
                    self.arguments@[x].0.unwrap())@ == params@[x].name@,
            decreases na - i,
        {
            let nm = if i < np {
                if !params[i].is_rest_param {
                    Some(params[i].name.clone())
                } else {
                    None
                }
            } else {
                None
            };
            self.arguments.push((nm, args[i].clone()));
            i = i + 1;
        }
        let ghost rest_h = heap.arrays@.len() as int;
        let mut i: usize = 0;
        while i < np
            invariant
                heap_ok(*heap),
                np == params@.len(),
                na == args@.len(),
                i <= np,
                self.vals == old(self).vals,
                self.this == old(self).this,
                self.parent == old(self).parent,
                self.arguments@.len() == na,
                forall|x: int|
                    0 <= x < na ==> (#[trigger] self.arguments@[x]).1 == args@[x],
                forall|x: int|
                    0 <= x < na ==> ((self.arguments@[x].0 is Some) <==> (x < params@.len() && !(
                    #[trigger] params@[x]).is_rest_param)),
                forall|x: int|
                    (0 <= x < na && (#[trigger] self.arguments@[x]).0 is Some) ==> (
                    self.arguments@[x].0.unwrap())@ == params@[x].name@,
                self.vals < heap.props@.len(),
                heap.props@.len() == old(heap).props@.len(),
                heap.funcs@ == old(heap).funcs@,
                heap.callobjs@ == old(heap).callobjs@,
                rest_h == old(heap).arrays@.len(),
                forall|x: int| 0 <= x < args@.len() ==> value_ok(*heap, #[trigger] args@[x]),
                forall|x: int, j: int|
                    0 <= x < j < params@.len() ==> (#[trigger] params@[x]).name@ != (
                    #[trigger] params@[j]).name@,
                forall|x: int|
                    0 <= x < params@.len() && (#[trigger] params@[x]).is_rest_param ==> x
                        == params@.len() - 1,
                forall|p: int|
                    0 <= p < old(heap).props@.len() && p != self.vals ==> #[trigger] heap.props@[p]
                        == old(heap).props@[p],
                if rest_gets_actuals(params@, args@) && i as int == np {
                    &&& heap.arrays@.len() == old(heap).arrays@.len() + 1
                    &&& (forall|x: int|
                        0 <= x < old(heap).arrays@.len() ==> #[trigger] heap.arrays@[x] == old(
                            heap,
                        ).arrays@[x])
                    &&& ({
                        let a = heap.arrays@[rest_h];
                        &&& a.length == args@.len() - (params@.len() - 1)
                        &&& a.elems@.len() == a.length
                        &&& (forall|j: int|
                            0 <= j < a.elems@.len() ==> #[trigger] a.elems@[j] == data_prop(
                                args@[params@.len() - 1 + j],
                            ))
                    })
                } else {
                    heap.arrays@ == old(heap).arrays@
                },
                forall|jj: int|
                    0 <= jj < i ==> #[trigger] pm_lookup(
                        heap.props@[old(self).vals as int].entries@,
                        params@[jj].name@,
                    ) == Some(data_prop(bound_param_value(params@, args@, rest_h, jj))),
                forall|k: Seq<char>|
                    (forall|jj: int| 0 <= jj < i ==> (#[trigger] params@[jj]).name@ != k)
                        ==> #[trigger] pm_lookup(heap.props@[old(self).vals as int].entries@, k)
                        == pm_lookup(old(heap).props@[old(self).vals as int].entries@, k),
                if rest_gets_actuals(params@, args@) && i as int == np {
                    self.rest_params matches Some(nm) && nm@ == params@[params@.len() - 1].name@
                } else {
                    self.rest_params is None
                },
            decreases np - i,
        {
            if !params[i].is_rest_param {
                let v = if i < na {
                    args[i].clone()
                } else {
                    Value::Undefined
                };
                heap.prop_insert(self.vals, params[i].name.clone(), Property::new(v));
            } else {
                if i < na {
                    let mut rest: Vec<Value> = Vec::new();
                    let mut j: usize = i;
                    while j < na
                        invariant
                            i <= j <= na,
                            na == args@.len(),
                            rest@.len() == j - i,
                            forall|x: int|
                                0 <= x < rest@.len() ==> #[trigger] rest@[x] == args@[i + x],
                        decreases na - j,
                    {
                        rest.push(args[j].clone());
                        j = j + 1;
                    }
                    let arr = ArrayValue::new(rest);
                    let h = heap.alloc_array(arr);
                    heap.prop_insert(
                        self.vals,
                        params[i].name.clone(),
                        Property::new(Value::Array(h)),
                    );
                    self.rest_params = Some(params[i].name.clone());
                } else {
                    heap.prop_insert(
                        self.vals,
                        params[i].name.clone(),
                        Property::new(Value::Undefined),
                    );
                }
            }
            i = i + 1;
        }
    }

    /// The length of the recorded arguments.
    pub fn get_arguments_length(&self) -> (r: usize)
        ensures
            r == self.arguments@.len(),
    {
        self.arguments.len()
    }

    /// The name of the `n`th declared parameter, if there is one.
    pub fn get_parameter_nth_name(params: &Vec<FunctionParameter>, n: usize) -> (r: Option<String>)
        ensures
            match r {
                Some(nm) => n < params@.len() && nm@ == params@[n as int].name@,
                None => n >= params@.len(),
            },
    {
        if n < params.len() {
            Some(params[n].name.clone())
        } else {
            None
        }
    }

    /// What reading the `n`th argument yields: the live binding when the
    /// slot aliases a declared parameter, otherwise the stored value;
    /// `Undefined` past the end.
    pub fn get_arguments_nth_value(&self, heap: &Heap, n: usize) -> (r: Result<
        Value,
        RuntimeError,
    >)
        requires
            self.vals < heap.props@.len(),
        ensures
            match r {
                Ok(v) => {
                    if n < self.arguments@.len() {
                        match self.arguments@[n as int].0 {
                            Some(nm) => pm_lookup(heap.props@[self.vals as int].entries@, nm@)
                                matches Some(p) && v == prop_read(p),
                            None => v == self.arguments@[n as int].1,
                        }
                    } else {
                        v == Value::Undefined
                    }
                },
                Err(e) => {
                    &&& n < self.arguments@.len()
                    &&& self.arguments@[n as int].0 matches Some(nm) && pm_lookup(
                        heap.props@[self.vals as int].entries@,
                        nm@,
                    ) is None
                    &&& e matches RuntimeError::General(_)
                },
            },
    {
        if n < self.arguments.len() {
            let slot_name = match &self.arguments[n].0 {
                Some(nm) => Some(nm.clone()),
                None => None,
            };
            match slot_name {
                Some(nm) => self.get_local_value(heap, &nm),
                None => Ok(self.arguments[n].1.clone()),
            }
        } else {
            Ok(Value::Undefined)
        }
    }

    /// Writes the `n`th argument: through to the live binding when the slot
    /// aliases a declared parameter, otherwise into the stored slot; out of
    /// range, no effect.
    pub fn set_arguments_nth_value(&mut self, heap: &mut Heap, n: usize, val: Value)
        requires
            heap_ok(*old(heap)),
            old(self).vals < old(heap).props@.len(),
            value_ok(*old(heap), val),
        ensures
            heap_ok(*final(heap)),
            final(heap).props@.len() == old(heap).props@.len(),
            final(heap).arrays@ == old(heap).arrays@,
            final(heap).funcs@ == old(heap).funcs@,
            final(heap).callobjs@ == old(heap).callobjs@,
            final(self).vals == old(self).vals,
            final(self).this == old(self).this,
            final(self).parent == old(self).parent,
            final(self).rest_params == old(self).rest_params,
            final(self).arguments@.len() == old(self).arguments@.len(),
            n < old(self).arguments@.len() ==> match old(self).arguments@[n as int].0 {
                Some(nm) => {
                    &&& final(self).arguments@ == old(self).arguments@
                    &&& forall|k2: Seq<char>|
                        #[trigger] pm_lookup(
                            final(heap).props@[old(self).vals as int].entries@,
                            k2,
                        ) == if k2 == nm@ {
                            Some(data_prop(val))
                        } else {
                            pm_lookup(old(heap).props@[old(self).vals as int].entries@, k2)
                        }
                },
                None => {
                    &&& final(self).arguments@ == old(self).arguments@.update(
                        n as int,
                        (None::<String>, val),
                    )
                    &&& final(heap).props@ == old(heap).props@
                },
            },
            n >= old(self).arguments@.len() ==> (final(self).arguments@ == old(self).arguments@
                && final(heap).props@ == old(heap).props@),
            forall|i: int|
                0 <= i < old(heap).props@.len() && i != old(self).vals ==> #[trigger] final(heap).props@[i] == old(heap).props@[i],
    {
        if n < self.arguments.len() {
            let slot_name = match &self.arguments[n].0 {
                Some(nm) => Some(nm.clone()),
                None => None,
            };
            match slot_name {
                Some(nm) => {
                    heap.prop_insert(self.vals, nm, Property::new(val));
                    proof {
                        assert(old(self).arguments@[n as int].0 matches Some(onm) && onm@
                            == nm@);
                    }
                },
                None => {
                    self.arguments.set(n, (None, val));
                },
            }
        }
    }
}

} // verus!
