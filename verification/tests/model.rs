//! The value model on concrete values: numbers, coercions, property maps,
//! arrays, prototype chains, scope chains and symbols.

use jsvm::callobj::CallObject;
use jsvm::error::RuntimeError;
use jsvm::heap::{ArrayValue, Heap, PropMap};
use jsvm::number::{num_to_string, str_to_number, Number};
use jsvm::object::obj_find_val;
use jsvm::symbol::{GlobalSymbolRegistry, SymbolInfo};
use jsvm::value::{utf16_length, Property, Value};

#[test]
fn number_arithmetic() {
    let a = Number::Int(7);
    let b = Number::Int(-3);
    assert_eq!(a.add(b), Number::Int(4));
    assert_eq!(a.sub(b), Number::Int(10));
    assert_eq!(a.mul(b), Number::Int(-21));
    assert_eq!(a.div(b), Number::Int(-2));
    assert_eq!(a.rem(b), Number::Int(1));
    assert_eq!(Number::Int(-7).rem(Number::Int(3)), Number::Int(-1));
    assert_eq!(Number::Int(-7).div(Number::Int(2)), Number::Int(-3));
    assert_eq!(a.div(Number::Int(0)), Number::Nan);
    assert_eq!(a.rem(Number::Int(0)), Number::Nan);
    assert_eq!(a.add(Number::Nan), Number::Nan);
    assert_eq!(
        Number::Int(i64::MAX).add(Number::Int(1)),
        Number::Int(i64::MIN)
    );
    assert_eq!(Number::Int(-5).neg(), Number::Int(5));
}

#[test]
fn number_comparisons_and_nan() {
    assert!(Number::Int(1).lt(Number::Int(2)));
    assert!(!Number::Nan.lt(Number::Int(2)));
    assert!(!Number::Int(2).lt(Number::Nan));
    assert!(!Number::Nan.eq_num(Number::Nan));
    assert!(Number::Int(3).ge(Number::Int(3)));
}

#[test]
fn number_formatting() {
    assert_eq!(num_to_string(Number::Int(0)), "0");
    assert_eq!(num_to_string(Number::Int(42)), "42");
    assert_eq!(num_to_string(Number::Int(-123)), "-123");
    assert_eq!(num_to_string(Number::Int(i64::MIN)), "-9223372036854775808");
    assert_eq!(num_to_string(Number::Nan), "NaN");
}

#[test]
fn number_parsing() {
    assert_eq!(str_to_number("42"), Number::Int(42));
    assert_eq!(str_to_number("-17"), Number::Int(-17));
    assert_eq!(str_to_number("0"), Number::Int(0));
    assert_eq!(str_to_number("-9223372036854775808"), Number::Int(i64::MIN));
    assert_eq!(str_to_number(""), Number::Nan);
    assert_eq!(str_to_number("abc"), Number::Nan);
    assert_eq!(str_to_number("12x"), Number::Nan);
    assert_eq!(str_to_number("99999999999999999999999"), Number::Nan);
}

#[test]
fn value_coercions() {
    assert!(!Value::Undefined.to_boolean());
    assert!(!Value::Str(String::new()).to_boolean());
    assert!(Value::Str("x".to_string()).to_boolean());
    assert!(!Value::Number(Number::Int(0)).to_boolean());
    assert!(Value::Number(Number::Int(-1)).to_boolean());
    assert_eq!(Value::Null.to_number(), Number::Int(0));
    assert_eq!(Value::Bool(true).to_number(), Number::Int(1));
    assert_eq!(Value::Str("7".to_string()).to_number(), Number::Int(7));
    assert_eq!(Value::Undefined.to_number(), Number::Nan);
    assert_eq!(Value::Undefined.to_string(), "undefined");
    assert_eq!(Value::Null.to_string(), "null");
    assert_eq!(Value::Number(Number::Int(9)).to_string(), "9");
    assert_eq!(Value::Bool(false).to_string(), "false");
}

#[test]
fn utf16_units() {
    assert_eq!(utf16_length("abc"), 3);
    assert_eq!(utf16_length(""), 0);
    // a character beyond the basic planes counts as two units
    assert_eq!(utf16_length("a\u{1F600}"), 3);
}

#[test]
fn property_map_insert_and_get() {
    let mut pm = PropMap::new();
    assert!(pm.get(&"k".to_string()).is_none());
    pm.insert("k".to_string(), Property::new(Value::Number(Number::Int(1))));
    pm.insert("m".to_string(), Property::new(Value::Bool(true)));
    pm.insert("k".to_string(), Property::new(Value::Number(Number::Int(2))));
    let got = pm.get(&"k".to_string()).unwrap();
    match got {
        Property::Data { value, .. } => assert!(matches!(value, Value::Number(Number::Int(2)))),
        _ => panic!("expected a data property"),
    }
    assert!(pm.contains_key(&"m".to_string()));
    assert!(!pm.contains_key(&"q".to_string()));
}

/// After `a[k] = v` with `k >= 0`: the length reaches `k + 1` and `a[k]`
/// reads back as `v`.
#[test]
fn array_indexed_write_then_read() {
    let mut a = ArrayValue::new(Vec::new());
    a.set_index(3, Value::Number(Number::Int(9)));
    assert_eq!(a.length, 4);
    assert!(matches!(
        a.get_index(3),
        Some(Value::Number(Number::Int(9)))
    ));
    // the padding below the written index is the empty sentinel
    assert!(matches!(a.get_index(1), Some(Value::Empty)));
    // overwrite in place keeps the length
    a.set_index(0, Value::Bool(true));
    assert_eq!(a.length, 4);
}

/// After `a.length = n`, reading any index at or past `n` no longer hits
/// the dense part.
#[test]
fn array_length_write_then_read() {
    let mut a = ArrayValue::new(vec![
        Value::Number(Number::Int(1)),
        Value::Number(Number::Int(2)),
        Value::Number(Number::Int(3)),
    ]);
    a.set_length(2);
    assert_eq!(a.length, 2);
    assert!(a.get_index(2).is_none());
    assert!(matches!(a.get_index(1), Some(Value::Number(Number::Int(2)))));
    // growing pads with the empty sentinel
    a.set_length(4);
    assert!(matches!(a.get_index(3), Some(Value::Empty)));
}

/// Prototype lookup: `b.__proto__ === a`, `a.x === v`, `b` has no own `x`,
/// so `b.x === v`.
#[test]
fn prototype_lookup_three_records() {
    let mut heap = Heap::new();
    let mut a_pm = PropMap::new();
    a_pm.insert("x".to_string(), Property::new(Value::Number(Number::Int(7))));
    let a = heap.alloc_props(a_pm);
    let mut b_pm = PropMap::new();
    b_pm.insert("__proto__".to_string(), Property::new(Value::Object(a)));
    let b = heap.alloc_props(b_pm);
    let got = obj_find_val(&heap, b, &"x".to_string());
    assert!(matches!(got, Value::Number(Number::Int(7))));
    // an own binding shadows the chain
    heap.prop_insert(b, "x".to_string(), Property::new(Value::Bool(false)));
    let got2 = obj_find_val(&heap, b, &"x".to_string());
    assert!(matches!(got2, Value::Bool(false)));
}

/// A cyclic prototype chain ends with `Undefined` instead of hanging.
#[test]
fn cyclic_prototype_chain_terminates() {
    let mut heap = Heap::new();
    let a = heap.alloc_props(PropMap::new());
    let b = heap.alloc_props(PropMap::new());
    heap.prop_insert(a, "__proto__".to_string(), Property::new(Value::Object(b)));
    heap.prop_insert(b, "__proto__".to_string(), Property::new(Value::Object(a)));
    let got = obj_find_val(&heap, a, &"missing".to_string());
    assert!(matches!(got, Value::Undefined));
}

/// A name an activation does not bind resolves through its parent chain.
#[test]
fn scope_chain_resolution() {
    let mut heap = Heap::new();
    let root = CallObject::new_global(&mut heap);
    let root_co = CallObject {
        vals: heap.callobjs[root].vals,
        rest_params: None,
        arguments: Vec::new(),
        this: Value::Undefined,
        parent: None,
    };
    root_co.set_value(&mut heap, "n".to_string(), Value::Number(Number::Int(5)));
    let mut child = CallObject::new(&mut heap, Value::Undefined);
    child.parent = Some(root);
    let child_h = heap.alloc_callobj(child);
    let got = CallObject::get_value(&heap, child_h, &"n".to_string()).unwrap();
    assert!(matches!(got, Value::Number(Number::Int(5))));
    // a write to a name bound in an ancestor lands in that ancestor
    CallObject::set_value_if_exist(&mut heap, child_h, "n".to_string(), Value::Bool(true));
    let root_read = CallObject::get_value(&heap, root, &"n".to_string()).unwrap();
    assert!(matches!(root_read, Value::Bool(true)));
    // an unbound name is a reference error
    let missing = CallObject::get_value(&heap, child_h, &"zzz".to_string());
    assert!(matches!(missing, Err(RuntimeError::Reference(_))));
}

/// Applying arguments: positional binding, aliasing slots, the rest array.
#[test]
fn apply_arguments_binding_and_rest() {
    let mut heap = Heap::new();
    let mut co = CallObject::new(&mut heap, Value::Undefined);
    let params = vec![
        jsvm::function::FunctionParameter::new("a".to_string(), false),
        jsvm::function::FunctionParameter::new("r".to_string(), true),
    ];
    let args = vec![
        Value::Number(Number::Int(1)),
        Value::Number(Number::Int(2)),
        Value::Number(Number::Int(3)),
    ];
    co.apply_arguments(&mut heap, &params, &args);
    assert_eq!(co.get_arguments_length(), 3);
    // slot 0 aliases `a`; the rest slots carry their values directly
    let v0 = co.get_arguments_nth_value(&heap, 0).unwrap();
    assert!(matches!(v0, Value::Number(Number::Int(1))));
    let v2 = co.get_arguments_nth_value(&heap, 2).unwrap();
    assert!(matches!(v2, Value::Number(Number::Int(3))));
    // past the end: undefined
    let v9 = co.get_arguments_nth_value(&heap, 9).unwrap();
    assert!(matches!(v9, Value::Undefined));
    // `r` is an array of the remaining actuals
    let r = co.get_local_value(&heap, &"r".to_string()).unwrap();
    match r {
        Value::Array(h) => assert_eq!(heap.array_length(h), 2),
        _ => panic!("expected the rest array"),
    }
    // writing through slot 0 updates the live binding of `a`
    co.set_arguments_nth_value(&mut heap, 0, Value::Number(Number::Int(42)));
    let a = co.get_local_value(&heap, &"a".to_string()).unwrap();
    assert!(matches!(a, Value::Number(Number::Int(42))));
}

#[test]
fn symbol_registry_round_trip() {
    let mut reg = GlobalSymbolRegistry::new();
    let s1 = reg.for_("alpha".to_string());
    let s2 = reg.for_("alpha".to_string());
    let s3 = reg.for_("beta".to_string());
    match (&s1, &s2) {
        (Value::Symbol(a), Value::Symbol(b)) => assert_eq!(a, b),
        _ => panic!("expected symbols"),
    }
    match (&s1, &s3) {
        (Value::Symbol(a), Value::Symbol(b)) => assert_ne!(a, b),
        _ => panic!("expected symbols"),
    }
    let k = reg.key_for(&s1);
    match k {
        Value::Str(s) => assert_eq!(s, "alpha"),
        _ => panic!("expected the registered key"),
    }
    assert!(matches!(reg.key_for(&Value::Symbol(999)), Value::Undefined));
    assert!(matches!(reg.key_for(&Value::Null), Value::Undefined));
}

#[test]
fn symbol_description() {
    let s = SymbolInfo { id: 1, description: Some("tag".to_string()) };
    assert_eq!(s.get_description_string(), "tag");
    let t = SymbolInfo { id: 2, description: None };
    assert_eq!(t.get_description_string(), "");
}
