//! Function payloads: user functions carrying bytecode and parameter
//! descriptors, and built-in functions carrying an identifier.
//!
//! A function value is a handle into the machine's function arena. Each
//! record holds the function's identity and kind, its own property map (for
//! `prototype`, `__proto__` and the like), the receiver installed at member
//! access or assignment, and the enclosing lexical environment captured when
//! the function value was produced. Reading a function value out of a name,
//! a constant or a member copies the record before the receiver or the
//! captured environment is rebound, so earlier copies keep what they saw.

use vstd::prelude::*;

use crate::builtins::BuiltinId;
use crate::heap::{data_prop, heap_le, heap_ok, pm_lookup, value_ok, Heap, PropMap};
use crate::value::{Property, Value};

verus! {

/// A formal parameter: its name, and whether it is the rest parameter that
/// collects all remaining actuals into an array.
#[derive(Debug)]
pub struct FunctionParameter {
    pub name: String,
    pub is_rest_param: bool,
}

impl Clone for FunctionParameter {
    /// Cloning a parameter descriptor keeps it exactly.
    fn clone(&self) -> (r: Self)
        ensures
            r == *self,
    {
        FunctionParameter { name: self.name.clone(), is_rest_param: self.is_rest_param }
    }
}

impl FunctionParameter {
    /// A parameter descriptor.
    pub fn new(name: String, is_rest_param: bool) -> (r: FunctionParameter)
        ensures
            r == (FunctionParameter { name, is_rest_param }),
    {
        FunctionParameter { name, is_rest_param }
    }
}

/// What a user function carries: parameter descriptors, the names of its
/// `var` and block-scoped bindings, the nested function declarations to
/// hoist, and its bytecode.
#[derive(Debug)]
pub struct UserFunctionInfo {
    pub params: Vec<FunctionParameter>,
    pub var_names: Vec<String>,
    pub lex_names: Vec<String>,
    pub func_decls: Vec<Value>,
    pub code: Vec<u8>,
}

/// Whether two user-function payloads carry the same content.
pub open spec fn ufi_like(a: UserFunctionInfo, b: UserFunctionInfo) -> bool {
    &&& a.params@ == b.params@
    &&& a.var_names@ == b.var_names@
    &&& a.lex_names@ == b.lex_names@
    &&& a.func_decls@ == b.func_decls@
    &&& a.code@ == b.code@
}

impl Clone for UserFunctionInfo {
    /// Cloning keeps the payload's content; the vectors are copied.
    fn clone(&self) -> (r: Self)
        ensures
            ufi_like(*self, r),
    {
        let r = UserFunctionInfo {
            params: self.params.clone(),
            var_names: self.var_names.clone(),
            lex_names: self.lex_names.clone(),
            func_decls: self.func_decls.clone(),
            code: self.code.clone(),
        };
        proof {
            assert(r.params@ =~= self.params@);
            assert(r.var_names@ =~= self.var_names@);
            assert(r.lex_names@ =~= self.lex_names@);
            assert(r.func_decls@ =~= self.func_decls@);
            assert(r.code@ =~= self.code@);
        }
        r
    }
}

/// The kind of a function record: a user function with its payload, or a
/// built-in function named by an identifier.
#[derive(Debug)]
pub enum FunctionObjectKind {
    User(UserFunctionInfo),
    Builtin(BuiltinId),
}

/// Whether two function kinds carry the same content.
pub open spec fn kind_like(a: FunctionObjectKind, b: FunctionObjectKind) -> bool {
    match (a, b) {
        (FunctionObjectKind::User(x), FunctionObjectKind::User(y)) => ufi_like(x, y),
        (FunctionObjectKind::Builtin(x), FunctionObjectKind::Builtin(y)) => x == y,
        _ => false,
    }
}

impl Clone for FunctionObjectKind {
    /// Cloning keeps the kind's content.
    fn clone(&self) -> (r: Self)
        ensures
            kind_like(*self, r),
    {
        match self {
            FunctionObjectKind::User(u) => FunctionObjectKind::User(u.clone()),
            FunctionObjectKind::Builtin(b) => FunctionObjectKind::Builtin(*b),
        }
    }
}

/// A record of the function arena: one function value.
///
/// `obj` is the handle of the function's own property map. `this` is the
/// receiver the next call will use; member access and name assignment
/// rebind it on a fresh copy of the record. `outer` is the enclosing
/// lexical environment captured at the moment the function value was
/// produced, or `None` for a function that closes over nothing.
#[derive(Debug)]
pub struct FunctionObjectInfo {
    pub id: usize,
    pub name: Option<String>,
    pub kind: FunctionObjectKind,
    pub obj: usize,
    pub this: Value,
    pub outer: Option<usize>,
}

/// Whether two function records carry the same content.
pub open spec fn func_like(a: FunctionObjectInfo, b: FunctionObjectInfo) -> bool {
    &&& a.id == b.id
    &&& a.name == b.name
    &&& kind_like(a.kind, b.kind)
    &&& a.obj == b.obj
    &&& a.this == b.this
    &&& a.outer == b.outer
}

impl Clone for FunctionObjectInfo {
    /// Cloning keeps the record's content.
    fn clone(&self) -> (r: Self)
        ensures
            func_like(*self, r),
    {
        let name = match &self.name {
            Some(n) => Some(n.clone()),
            None => None,
        };
        FunctionObjectInfo {
            id: self.id,
            name,
            kind: self.kind.clone(),
            obj: self.obj,
            this: self.this.clone(),
            outer: self.outer,
        }
    }
}

impl FunctionObjectInfo {
    /// Installs the enclosing lexical environment captured for this
    /// function value.
    pub fn set_outer_environment(&mut self, outer_env: usize)
        ensures
            *final(self) == (FunctionObjectInfo { outer: Some(outer_env), ..*old(self) }),
    {
        self.outer = Some(outer_env);
    }
}

/// A fresh user-function value. Its record carries the given identity,
/// parameters and bytecode; its property map holds a fresh `prototype`
/// object whose `constructor` refers back to the function — the expected
/// cycle `f.prototype.constructor === f` — and a `__proto__` object whose
/// `call` property is the built-in that runs the function with an explicit
/// receiver.
pub fn new_value_function(
    heap: &mut Heap,
    id: usize,
    name: Option<String>,
    params: Vec<FunctionParameter>,
    code: Vec<u8>,
) -> (r: Value)
    requires
        heap_ok(*old(heap)),
    ensures
        heap_ok(*final(heap)),
        heap_le(*old(heap), *final(heap)),
        final(heap).arrays@ == old(heap).arrays@,
        final(heap).callobjs@ == old(heap).callobjs@,
        forall|i: int|
            0 <= i < old(heap).funcs@.len() ==> #[trigger] final(heap).funcs@[i] == old(heap).funcs@[i],
        forall|i: int|
            0 <= i < old(heap).props@.len() ==> #[trigger] final(heap).props@[i] == old(heap).props@[i],
        r == Value::Function((old(heap).funcs@.len() + 1) as usize),
        value_ok(*final(heap), r),
        ({
            let call_fh = old(heap).funcs@.len() as int;
            let fh = call_fh + 1;
            let f = final(heap).funcs@[fh];
            let proto_h = old(heap).props@.len() as int;
            let dunder_h = proto_h + 2;
            &&& f.id == id
            &&& f.this == Value::Undefined
            &&& f.outer is None
            &&& (f.kind matches FunctionObjectKind::User(u) && u.params@ == params@ && u.code@
                == code@)
            &&& f.obj == proto_h + 3
            &&& pm_lookup(final(heap).props@[f.obj as int].entries@, "prototype"@) == Some(
                data_prop(Value::Object(proto_h as usize)),
            )
            &&& pm_lookup(final(heap).props@[f.obj as int].entries@, "__proto__"@) == Some(
                data_prop(Value::Object(dunder_h as usize)),
            )
            &&& pm_lookup(final(heap).props@[dunder_h].entries@, "call"@) == Some(
                data_prop(Value::Function(call_fh as usize)),
            )
            &&& (final(heap).funcs@[call_fh].kind matches FunctionObjectKind::Builtin(b) && b
                == BuiltinId::FunctionProtoCall)
            &&& pm_lookup(final(heap).props@[proto_h].entries@, "constructor"@) == Some(
                data_prop(Value::Function(fh as usize)),
            )
        }),
{
    proof {
        reveal_strlit("prototype");
        reveal_strlit("__proto__");
        assert(("prototype"@)[0] != ("__proto__"@)[0]);
    }
    let proto_h = heap.alloc_props(PropMap::new());
    let call_obj_h = heap.alloc_props(PropMap::new());
    let call_f = FunctionObjectInfo {
        id: 0,
        name: Some(String::from_str("call")),
        kind: FunctionObjectKind::Builtin(BuiltinId::FunctionProtoCall),
        obj: call_obj_h,
        this: Value::Undefined,
        outer: None,
    };
    let call_fh = heap.alloc_func(call_f);
    let mut dunder_pm = PropMap::new();
    dunder_pm.insert(String::from_str("call"), Property::new(Value::Function(call_fh)));
    let dunder_h = heap.alloc_props(dunder_pm);
    let mut obj_pm = PropMap::new();
    obj_pm.insert(String::from_str("prototype"), Property::new(Value::Object(proto_h)));
    obj_pm.insert(String::from_str("__proto__"), Property::new(Value::Object(dunder_h)));
    let obj_h = heap.alloc_props(obj_pm);
    let f = FunctionObjectInfo {
        id,
        name,
        kind: FunctionObjectKind::User(
            UserFunctionInfo {
                params,
                var_names: Vec::new(),
                lex_names: Vec::new(),
                func_decls: Vec::new(),
                code,
            },
        ),
        obj: obj_h,
        this: Value::Undefined,
        outer: None,
    };
    let fh = heap.alloc_func(f);
    heap.prop_insert(proto_h, String::from_str("constructor"), Property::new(Value::Function(fh)));
    Value::Function(fh)
}

} // verus!
