//! Strings, object literals, the debug renderer, array index
//! canonicalization, and collection across safe-points.

use jsvm::binop::eval_binary;
use jsvm::bytecode as bc;
use jsvm::callobj::CallObject;
use jsvm::error::RuntimeError;
use jsvm::heap::{ArrayValue, Heap};
use jsvm::jit::NoJit;
use jsvm::number::Number;
use jsvm::object::{get_property, set_property};
use jsvm::value::Value;
use jsvm::vm::VM;

fn op(c: &mut Vec<u8>, b: u8) {
    c.push(b);
}

fn op8(c: &mut Vec<u8>, b: u8, v: i8) {
    c.push(b);
    c.push(v as u8);
}

fn op32(c: &mut Vec<u8>, b: u8, v: u32) {
    c.push(b);
    c.extend_from_slice(&v.to_le_bytes());
}

fn sval(s: &str) -> Value {
    Value::Str(s.to_string())
}

fn num(i: i64) -> Value {
    Value::Number(Number::Int(i))
}

#[test]
fn binary_operators_on_strings() {
    // concatenation through `+`
    match eval_binary(bc::ADD, sval("a"), sval("b")).unwrap() {
        Value::Str(s) => assert_eq!(s, "ab"),
        _ => panic!("expected a string"),
    }
    // number-and-string concatenation
    match eval_binary(bc::ADD, num(1), sval("b")).unwrap() {
        Value::Str(s) => assert_eq!(s, "1b"),
        _ => panic!("expected a string"),
    }
    // byte-wise comparison
    assert!(matches!(
        eval_binary(bc::LT, sval("ab"), sval("b")).unwrap(),
        Value::Bool(true)
    ));
    assert!(matches!(
        eval_binary(bc::GE, sval("ab"), sval("ab")).unwrap(),
        Value::Bool(true)
    ));
    // equality is by contents
    assert!(matches!(
        eval_binary(bc::SEQ, sval("ab"), sval("ab")).unwrap(),
        Value::Bool(true)
    ));
    assert!(matches!(
        eval_binary(bc::NE, sval("ab"), sval("ba")).unwrap(),
        Value::Bool(true)
    ));
    // repetition through `*`
    match eval_binary(bc::MUL, sval("ab"), num(3)).unwrap() {
        Value::Str(s) => assert_eq!(s, "ababab"),
        _ => panic!("expected a string"),
    }
}

#[test]
fn strict_and_loose_equality_edges() {
    assert!(matches!(
        eval_binary(bc::SEQ, Value::Null, Value::Null).unwrap(),
        Value::Bool(true)
    ));
    assert!(matches!(
        eval_binary(bc::SEQ, Value::Undefined, Value::Undefined).unwrap(),
        Value::Bool(true)
    ));
    assert!(matches!(
        eval_binary(bc::NE, Value::Null, Value::Null).unwrap(),
        Value::Bool(false)
    ));
    // a cross-kind comparison the engine does not model
    assert!(matches!(
        eval_binary(bc::EQ, Value::Null, num(0)).unwrap_err(),
        RuntimeError::Unimplemented
    ));
    // not-a-number equals nothing, itself included
    assert!(matches!(
        eval_binary(bc::EQ, Value::Number(Number::Nan), Value::Number(Number::Nan)).unwrap(),
        Value::Bool(false)
    ));
    assert!(matches!(
        eval_binary(bc::NE, Value::Number(Number::Nan), Value::Number(Number::Nan)).unwrap(),
        Value::Bool(true)
    ));
}

#[test]
fn bitwise_operators() {
    assert!(matches!(
        eval_binary(bc::AND, num(12), num(10)).unwrap(),
        Value::Number(Number::Int(8))
    ));
    assert!(matches!(
        eval_binary(bc::OR, num(12), num(10)).unwrap(),
        Value::Number(Number::Int(14))
    ));
    assert!(matches!(
        eval_binary(bc::XOR, num(12), num(10)).unwrap(),
        Value::Number(Number::Int(6))
    ));
    assert!(matches!(
        eval_binary(bc::SHL, num(1), num(4)).unwrap(),
        Value::Number(Number::Int(16))
    ));
    assert!(matches!(
        eval_binary(bc::SHR, num(-8), num(1)).unwrap(),
        Value::Number(Number::Int(-4))
    ));
    // the zero-fill shift reads the left side as unsigned 32-bit
    assert!(matches!(
        eval_binary(bc::ZFSHR, num(-1), num(28)).unwrap(),
        Value::Number(Number::Int(15))
    ));
}

#[test]
fn string_members_through_get_property() {
    let mut heap = Heap::new();
    let co = CallObject::new_global(&mut heap);
    let s = sval("abc");
    // an integer member indexes one character
    let c1 = get_property(&mut heap, &s, &num(1), co).unwrap();
    match c1 {
        Value::Str(t) => assert_eq!(t, "b"),
        _ => panic!("expected a one-character string"),
    }
    // out of range reads as undefined
    assert!(matches!(
        get_property(&mut heap, &s, &num(9), co).unwrap(),
        Value::Undefined
    ));
    // `length` counts 16-bit code units
    assert!(matches!(
        get_property(&mut heap, &s, &sval("length"), co).unwrap(),
        Value::Number(Number::Int(3))
    ));
    let wide = sval("a\u{1F600}");
    assert!(matches!(
        get_property(&mut heap, &wide, &sval("length"), co).unwrap(),
        Value::Number(Number::Int(3))
    ));
}

#[test]
fn canonical_string_index_writes_dense() {
    let mut heap = Heap::new();
    let co = CallObject::new_global(&mut heap);
    let arr = ArrayValue::new(Vec::new());
    let ah = heap.alloc_array(arr);
    let a = Value::Array(ah);
    // the canonical form of an unsigned number indexes the dense part
    set_property(&mut heap, &a, &sval("2"), num(5), co);
    assert_eq!(heap.array_length(ah), 3);
    assert!(matches!(
        get_property(&mut heap, &a, &num(2), co).unwrap(),
        Value::Number(Number::Int(5))
    ));
    // a non-canonical key goes to the string-keyed map
    set_property(&mut heap, &a, &sval("02"), num(9), co);
    assert_eq!(heap.array_length(ah), 3);
    assert!(matches!(
        get_property(&mut heap, &a, &sval("02"), co).unwrap(),
        Value::Number(Number::Int(9))
    ));
    // writing `length` truncates
    set_property(&mut heap, &a, &sval("length"), num(1), co);
    assert_eq!(heap.array_length(ah), 1);
    assert!(matches!(
        get_property(&mut heap, &a, &num(2), co).unwrap(),
        Value::Undefined
    ));
}

#[test]
fn object_literal_renders_sorted_keys() {
    let mut vm = VM::new();
    vm.const_table.value.push(sval("k")); // 0
    vm.const_table.value.push(sval("m")); // 1
    vm.const_table.value.push(sval("log")); // 2
    vm.const_table.value.push(sval("two")); // 3
    vm.const_table.string.push("console".to_string());
    let mut c = Vec::new();
    // { k: 1, m: "two" } — pairs are popped value-under-name
    op32(&mut c, bc::PUSH_CONST, 3);
    op32(&mut c, bc::PUSH_CONST, 1);
    op8(&mut c, bc::PUSH_INT8, 1);
    op32(&mut c, bc::PUSH_CONST, 0);
    op32(&mut c, bc::CREATE_OBJECT, 2);
    op32(&mut c, bc::GET_NAME, 0);
    op32(&mut c, bc::PUSH_CONST, 2);
    op(&mut c, bc::GET_MEMBER);
    op32(&mut c, bc::CALL, 1);
    op(&mut c, bc::END);
    let mut jit = NoJit {};
    vm.run(&c, &mut jit, 10_000).unwrap();
    assert_eq!(vm.output, vec!["{ 'k': 1, 'm': 'two' }\n".to_string()]);
    // properties inserted out of order still render ascending by key
    let mut heap = Heap::new();
    let mut pm = jsvm::heap::PropMap::new();
    pm.insert("b".to_string(), jsvm::value::Property::new(num(2)));
    pm.insert("a".to_string(), jsvm::value::Property::new(num(1)));
    let h = heap.alloc_props(pm);
    assert_eq!(
        jsvm::builtins::debug_string(&heap, &Value::Object(h), 8, false),
        "{ 'a': 1, 'b': 2 }"
    );
}

/// Two literal couples sharing a key: the couple popped last (the deepest
/// on the stack) is bound last and wins.
#[test]
fn object_literal_duplicate_key_deepest_wins() {
    let mut vm = VM::new();
    vm.const_table.value.push(sval("k")); // 0
    vm.const_table.value.push(sval("log")); // 1
    vm.const_table.string.push("console".to_string());
    let mut c = Vec::new();
    op8(&mut c, bc::PUSH_INT8, 1);
    op32(&mut c, bc::PUSH_CONST, 0);
    op8(&mut c, bc::PUSH_INT8, 2);
    op32(&mut c, bc::PUSH_CONST, 0);
    op32(&mut c, bc::CREATE_OBJECT, 2);
    op32(&mut c, bc::GET_NAME, 0);
    op32(&mut c, bc::PUSH_CONST, 1);
    op(&mut c, bc::GET_MEMBER);
    op32(&mut c, bc::CALL, 1);
    op(&mut c, bc::END);
    let mut jit = NoJit {};
    vm.run(&c, &mut jit, 10_000).unwrap();
    assert_eq!(vm.output, vec!["{ 'k': 1 }
".to_string()]);
}

/// Records reachable only through the scope chain survive the collections
/// that object and array construction trigger.
#[test]
fn collection_keeps_reachable_records() {
    let mut vm = VM::new();
    vm.const_table.value.push(sval("k")); // 0
    vm.const_table.value.push(sval("log")); // 1
    vm.const_table.string.push("o".to_string()); // 0
    vm.const_table.string.push("console".to_string()); // 1
    let mut c = Vec::new();
    // var o = { k: 7 }
    op8(&mut c, bc::PUSH_INT8, 7);
    op32(&mut c, bc::PUSH_CONST, 0);
    op32(&mut c, bc::CREATE_OBJECT, 1);
    op32(&mut c, bc::DECL_VAR, 0);
    // churn the heap: each construction is a collection safe-point
    for _ in 0..5 {
        op32(&mut c, bc::CREATE_ARRAY, 0);
        op(&mut c, bc::POP);
        op32(&mut c, bc::CREATE_OBJECT, 0);
        op(&mut c, bc::POP);
    }
    // o.k is still there
    op32(&mut c, bc::GET_NAME, 0);
    op32(&mut c, bc::PUSH_CONST, 0);
    op(&mut c, bc::GET_MEMBER);
    op32(&mut c, bc::GET_NAME, 1);
    op32(&mut c, bc::PUSH_CONST, 1);
    op(&mut c, bc::GET_MEMBER);
    op32(&mut c, bc::CALL, 1);
    op(&mut c, bc::END);
    let mut jit = NoJit {};
    vm.run(&c, &mut jit, 100_000).unwrap();
    assert_eq!(vm.output, vec!["7\n".to_string()]);
}

#[test]
fn jump_if_false_only_on_false() {
    let mut vm = VM::new();
    let mut c = Vec::new();
    // a true condition falls through; a false one jumps
    op(&mut c, bc::PUSH_FALSE);
    op32(&mut c, bc::JMP_IF_FALSE, 2);
    op8(&mut c, bc::PUSH_INT8, 1); // skipped
    op8(&mut c, bc::PUSH_INT8, 2);
    op(&mut c, bc::END);
    let mut jit = NoJit {};
    vm.run(&c, &mut jit, 1_000).unwrap();
    assert_eq!(vm.state.stack.len(), 1);
    assert!(matches!(vm.state.stack[0], Value::Number(Number::Int(2))));
}

#[test]
fn unary_operators() {
    let mut vm = VM::new();
    let mut c = Vec::new();
    op8(&mut c, bc::PUSH_INT8, 5);
    op(&mut c, bc::NEG);
    op(&mut c, bc::PUSH_TRUE);
    op(&mut c, bc::LNOT);
    op(&mut c, bc::PUSH_FALSE);
    op(&mut c, bc::POSI);
    op(&mut c, bc::END);
    let mut jit = NoJit {};
    vm.run(&c, &mut jit, 1_000).unwrap();
    assert!(matches!(vm.state.stack[0], Value::Number(Number::Int(-5))));
    assert!(matches!(vm.state.stack[1], Value::Bool(false)));
    assert!(matches!(vm.state.stack[2], Value::Number(Number::Int(0))));
}

/// The debug renderer: named functions, empty-run collapsing, and an
/// array's string-keyed properties after its elements.
#[test]
fn renderer_matches_stated_format() {
    let mut vm = VM::new();
    // a named function renders with its name
    let body = vec![jsvm::bytecode::PUSH_UNDEFINED, jsvm::bytecode::RETURN];
    let fval = jsvm::function::new_value_function(
        &mut vm.heap,
        1,
        Some("tagger".to_string()),
        Vec::new(),
        body,
    );
    assert_eq!(
        jsvm::builtins::debug_string(&vm.heap, &fval, 8, false),
        "[Function: tagger]"
    );
    // runs of empty slots collapse; one empty slot stays singular
    let mut arr = jsvm::heap::ArrayValue::new(Vec::new());
    arr.set_index(2, num(7));
    let ah = vm.heap.alloc_array(arr);
    assert_eq!(
        jsvm::builtins::debug_string(&vm.heap, &Value::Array(ah), 8, false),
        "[ <2 empty items>, 7 ]"
    );
    let mut one = jsvm::heap::ArrayValue::new(vec![num(1)]);
    one.set_index(2, num(3));
    let oh = vm.heap.alloc_array(one);
    assert_eq!(
        jsvm::builtins::debug_string(&vm.heap, &Value::Array(oh), 8, false),
        "[ 1, <1 empty item>, 3 ]"
    );
    // an array's string-keyed properties render after the elements
    let co = vm.state.scope[0];
    set_property(&mut vm.heap, &Value::Array(oh), &sval("tag"), sval("x"), co);
    assert_eq!(
        jsvm::builtins::debug_string(&vm.heap, &Value::Array(oh), 8, false),
        "[ 1, <1 empty item>, 3, 'tag': 'x' ]"
    );
}

/// The machine installs `Array.prototype`, and `module.exports` is the
/// same object as `exports`.
#[test]
fn array_and_module_globals_installed() {
    let mut vm = VM::new();
    vm.const_table.value.push(sval("prototype")); // 0
    vm.const_table.value.push(sval("exports")); // 1
    vm.const_table.string.push("Array".to_string()); // 0
    vm.const_table.string.push("module".to_string()); // 1
    vm.const_table.string.push("exports".to_string()); // 2
    let mut c = Vec::new();
    op32(&mut c, bc::GET_NAME, 0);
    op32(&mut c, bc::PUSH_CONST, 0);
    op(&mut c, bc::GET_MEMBER);
    op32(&mut c, bc::GET_NAME, 1);
    op32(&mut c, bc::PUSH_CONST, 1);
    op(&mut c, bc::GET_MEMBER);
    op32(&mut c, bc::GET_NAME, 2);
    op(&mut c, bc::END);
    let mut jit = NoJit {};
    vm.run(&c, &mut jit, 10_000).unwrap();
    assert!(matches!(vm.state.stack[0], Value::Object(_)));
    let me = match vm.state.stack[1] {
        Value::Object(h) => h,
        _ => panic!("expected module.exports to be an object"),
    };
    let ex = match vm.state.stack[2] {
        Value::Object(h) => h,
        _ => panic!("expected exports to be an object"),
    };
    assert_eq!(me, ex);
}

/// The operand stack below a call frame is protected: a callee that pops
/// past its own frame cannot consume the caller's entries.
#[test]
fn call_frame_protects_caller_stack() {
    let mut vm = VM::new();
    // the body discards more than it has, then pushes its return value
    let mut body = Vec::new();
    op(&mut body, bc::POP);
    op(&mut body, bc::POP);
    op8(&mut body, bc::PUSH_INT8, 9);
    op(&mut body, bc::RETURN);
    let fval = jsvm::function::new_value_function(&mut vm.heap, 1, None, Vec::new(), body);
    vm.const_table.value.push(fval);
    vm.const_table.string.push("f".to_string());
    let mut c = Vec::new();
    op32(&mut c, bc::PUSH_CONST, 0);
    op(&mut c, bc::SET_CUR_CALLOBJ);
    op32(&mut c, bc::DECL_VAR, 0);
    op8(&mut c, bc::PUSH_INT8, 42);
    op32(&mut c, bc::GET_NAME, 0);
    op32(&mut c, bc::CALL, 0);
    op(&mut c, bc::END);
    let mut jit = NoJit {};
    vm.run(&c, &mut jit, 10_000).unwrap();
    assert_eq!(vm.state.stack.len(), 2);
    assert!(matches!(vm.state.stack[0], Value::Number(Number::Int(42))));
    assert!(matches!(vm.state.stack[1], Value::Number(Number::Int(9))));
}
