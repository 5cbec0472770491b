//! The machine's frame laws on concrete programs, the error taxonomy, and
//! the built-in functions.

use jsvm::builtins::{minmax_num, pow_num};
use jsvm::bytecode as bc;
use jsvm::error::RuntimeError;
use jsvm::function::{new_value_function, FunctionParameter};
use jsvm::jit::NoJit;
use jsvm::number::Number;
use jsvm::value::Value;
use jsvm::vm::VM;

fn op(c: &mut Vec<u8>, b: u8) {
    c.push(b);
}

fn op8(c: &mut Vec<u8>, b: u8, v: i8) {
    c.push(b);
    c.push(v as u8);
}

fn op32(c: &mut Vec<u8>, b: u8, v: u32) {
    c.push(b);
    c.extend_from_slice(&v.to_le_bytes());
}

fn sval(s: &str) -> Value {
    Value::Str(s.to_string())
}

/// Pushing a value and popping it leaves the operand stack unchanged.
#[test]
fn push_then_pop_leaves_stack() {
    let mut vm = VM::new();
    let mut c = Vec::new();
    op8(&mut c, bc::PUSH_INT8, 5);
    op(&mut c, bc::POP);
    op(&mut c, bc::END);
    let mut jit = NoJit {};
    vm.run(&c, &mut jit, 1_000).unwrap();
    assert_eq!(vm.state.stack.len(), 0);
}

/// Duplicating the stack top and popping leaves the stack unchanged.
#[test]
fn double_then_pop_leaves_stack() {
    let mut vm = VM::new();
    let mut c = Vec::new();
    op8(&mut c, bc::PUSH_INT8, 7);
    op(&mut c, bc::DOUBLE);
    op(&mut c, bc::POP);
    op(&mut c, bc::END);
    let mut jit = NoJit {};
    vm.run(&c, &mut jit, 1_000).unwrap();
    assert_eq!(vm.state.stack.len(), 1);
    assert!(matches!(
        vm.state.stack[0],
        Value::Number(Number::Int(7))
    ));
}

/// Ordinary opcodes leave the return history alone.
#[test]
fn history_unchanged_outside_calls() {
    let mut vm = VM::new();
    let before = vm.state.history.len();
    let mut c = Vec::new();
    op8(&mut c, bc::PUSH_INT8, 1);
    op8(&mut c, bc::PUSH_INT8, 2);
    op(&mut c, bc::ADD);
    op(&mut c, bc::DOUBLE);
    op(&mut c, bc::POP);
    op(&mut c, bc::POP);
    op(&mut c, bc::PUSH_TRUE);
    op(&mut c, bc::LNOT);
    op(&mut c, bc::END);
    let mut jit = NoJit {};
    vm.run(&c, &mut jit, 1_000).unwrap();
    assert_eq!(vm.state.history.len(), before);
}

/// A matched call and return shrink the stack by exactly the argument
/// count: callee and arguments leave, one return value arrives.
#[test]
fn call_return_net_stack_effect() {
    let mut vm = VM::new();
    let mut body = Vec::new();
    op8(&mut body, bc::PUSH_INT8, 0);
    op(&mut body, bc::RETURN);
    let params = vec![
        FunctionParameter::new("a".to_string(), false),
        FunctionParameter::new("b".to_string(), false),
    ];
    let fval = new_value_function(&mut vm.heap, 1, None, params, body);
    vm.const_table.value.push(fval);
    vm.const_table.string.push("f".to_string());
    let mut c = Vec::new();
    op32(&mut c, bc::PUSH_CONST, 0);
    op(&mut c, bc::SET_CUR_CALLOBJ);
    op32(&mut c, bc::DECL_VAR, 0);
    op8(&mut c, bc::PUSH_INT8, 1);
    op8(&mut c, bc::PUSH_INT8, 2);
    op32(&mut c, bc::GET_NAME, 0);
    op32(&mut c, bc::CALL, 2);
    op(&mut c, bc::END);
    let mut jit = NoJit {};
    vm.run(&c, &mut jit, 10_000).unwrap();
    // two arguments and the callee were pushed; the pair nets to one value
    assert_eq!(vm.state.stack.len(), 1);
    assert_eq!(vm.state.history.len(), 1);
    assert_eq!(vm.state.scope.len(), 1);
}

/// Reading an unbound name is a reference error.
#[test]
fn unbound_name_is_reference_error() {
    let mut vm = VM::new();
    vm.const_table.string.push("no_such_name".to_string());
    let mut c = Vec::new();
    op32(&mut c, bc::GET_NAME, 0);
    op(&mut c, bc::END);
    let mut jit = NoJit {};
    let e = vm.run(&c, &mut jit, 1_000).unwrap_err();
    assert!(matches!(e, RuntimeError::Reference(_)));
}

/// Calling a number is a type error.
#[test]
fn calling_a_number_is_type_error() {
    let mut vm = VM::new();
    let mut c = Vec::new();
    op8(&mut c, bc::PUSH_INT8, 1);
    op32(&mut c, bc::CALL, 0);
    op(&mut c, bc::END);
    let mut jit = NoJit {};
    let e = vm.run(&c, &mut jit, 1_000).unwrap_err();
    match e {
        RuntimeError::Type(m) => {
            assert_eq!(m, "type error(pc:7): callee is not a function but called");
        },
        _ => panic!("expected a type error"),
    }
}

/// Member access on a primitive is a type error.
#[test]
fn member_access_on_primitive_is_type_error() {
    let mut vm = VM::new();
    vm.const_table.value.push(sval("x"));
    let mut c = Vec::new();
    op(&mut c, bc::PUSH_TRUE);
    op32(&mut c, bc::PUSH_CONST, 0);
    op(&mut c, bc::GET_MEMBER);
    op(&mut c, bc::END);
    let mut jit = NoJit {};
    let e = vm.run(&c, &mut jit, 1_000).unwrap_err();
    assert!(matches!(e, RuntimeError::Type(_)));
}

/// Subtraction of booleans is not modelled: the unimplemented error.
#[test]
fn bool_subtraction_is_unimplemented() {
    let mut vm = VM::new();
    let mut c = Vec::new();
    op(&mut c, bc::PUSH_TRUE);
    op(&mut c, bc::PUSH_TRUE);
    op(&mut c, bc::SUB);
    op(&mut c, bc::END);
    let mut jit = NoJit {};
    let e = vm.run(&c, &mut jit, 1_000).unwrap_err();
    assert!(matches!(e, RuntimeError::Unimplemented));
}

/// A return with no value on the stack is an internal error.
#[test]
fn bare_return_is_general_error() {
    let mut vm = VM::new();
    let mut c = Vec::new();
    op(&mut c, bc::RETURN);
    let mut jit = NoJit {};
    let e = vm.run(&c, &mut jit, 1_000).unwrap_err();
    assert!(matches!(e, RuntimeError::General(_)));
}

/// Running out of fuel is an internal error: an endless loop ends.
#[test]
fn fuel_exhaustion_is_general_error() {
    let mut vm = VM::new();
    let mut c = Vec::new();
    let jmp_at = 0i32;
    c.push(bc::JMP);
    c.extend_from_slice(&((jmp_at - 5) as u32).to_le_bytes());
    op(&mut c, bc::END);
    let mut jit = NoJit {};
    let e = vm.run(&c, &mut jit, 100).unwrap_err();
    assert!(matches!(e, RuntimeError::General(_)));
}

/// Indexed array writes, the length property, and the push built-in.
#[test]
fn array_push_and_length() {
    let mut vm = VM::new();
    vm.const_table.value.push(sval("push")); // 0
    vm.const_table.value.push(sval("length")); // 1
    vm.const_table.value.push(sval("log")); // 2
    vm.const_table.string.push("a".to_string()); // 0
    vm.const_table.string.push("console".to_string()); // 1
    let mut c = Vec::new();
    op8(&mut c, bc::PUSH_INT8, 1);
    op8(&mut c, bc::PUSH_INT8, 2);
    op32(&mut c, bc::CREATE_ARRAY, 2);
    op32(&mut c, bc::DECL_VAR, 0);
    // a.push(7) -> prints the new length 3
    op8(&mut c, bc::PUSH_INT8, 7);
    op32(&mut c, bc::GET_NAME, 0);
    op32(&mut c, bc::PUSH_CONST, 0);
    op(&mut c, bc::GET_MEMBER);
    op32(&mut c, bc::CALL, 1);
    op32(&mut c, bc::GET_NAME, 1);
    op32(&mut c, bc::PUSH_CONST, 2);
    op(&mut c, bc::GET_MEMBER);
    op32(&mut c, bc::CALL, 1);
    // console.log(a[2]) -> 7
    op32(&mut c, bc::GET_NAME, 0);
    op8(&mut c, bc::PUSH_INT8, 2);
    op(&mut c, bc::GET_MEMBER);
    op32(&mut c, bc::GET_NAME, 1);
    op32(&mut c, bc::PUSH_CONST, 2);
    op(&mut c, bc::GET_MEMBER);
    op32(&mut c, bc::CALL, 1);
    // console.log(a.length) -> 3
    op32(&mut c, bc::GET_NAME, 0);
    op32(&mut c, bc::PUSH_CONST, 1);
    op(&mut c, bc::GET_MEMBER);
    op32(&mut c, bc::GET_NAME, 1);
    op32(&mut c, bc::PUSH_CONST, 2);
    op(&mut c, bc::GET_MEMBER);
    op32(&mut c, bc::CALL, 1);
    op(&mut c, bc::END);
    let mut jit = NoJit {};
    vm.run(&c, &mut jit, 100_000).unwrap();
    assert_eq!(
        vm.output,
        vec!["3\n".to_string(), "7\n".to_string(), "3\n".to_string()]
    );
}

/// Writing through the arguments marker aliases the declared parameter.
#[test]
fn arguments_write_aliases_parameter() {
    let mut vm = VM::new();
    // function k(p){ arguments[0] = 42; return p; }
    let mut body = Vec::new();
    op8(&mut body, bc::PUSH_INT8, 42);
    op(&mut body, bc::PUSH_ARGUMENTS);
    op8(&mut body, bc::PUSH_INT8, 0);
    op(&mut body, bc::SET_MEMBER);
    op32(&mut body, bc::GET_NAME, 1);
    op(&mut body, bc::RETURN);
    let params = vec![FunctionParameter::new("p".to_string(), false)];
    let kval = new_value_function(&mut vm.heap, 1, None, params, body);
    vm.const_table.value.push(kval);
    vm.const_table.value.push(sval("log"));
    vm.const_table.string.push("k".to_string()); // 0
    vm.const_table.string.push("p".to_string()); // 1
    vm.const_table.string.push("console".to_string()); // 2
    let mut c = Vec::new();
    op32(&mut c, bc::PUSH_CONST, 0);
    op(&mut c, bc::SET_CUR_CALLOBJ);
    op32(&mut c, bc::DECL_VAR, 0);
    op8(&mut c, bc::PUSH_INT8, 5);
    op32(&mut c, bc::GET_NAME, 0);
    op32(&mut c, bc::CALL, 1);
    op32(&mut c, bc::GET_NAME, 2);
    op32(&mut c, bc::PUSH_CONST, 1);
    op(&mut c, bc::GET_MEMBER);
    op32(&mut c, bc::CALL, 1);
    op(&mut c, bc::END);
    let mut jit = NoJit {};
    vm.run(&c, &mut jit, 100_000).unwrap();
    assert_eq!(vm.output, vec!["42\n".to_string()]);
}

/// The numeric built-ins on exact values.
#[test]
fn math_builtins() {
    assert_eq!(pow_num(Number::Int(2), Number::Int(10)), Number::Int(1024));
    assert_eq!(pow_num(Number::Int(3), Number::Int(0)), Number::Int(1));
    assert_eq!(pow_num(Number::Int(2), Number::Int(-1)), Number::Nan);
    assert_eq!(pow_num(Number::Nan, Number::Int(2)), Number::Nan);
    let args = vec![
        Value::Number(Number::Int(4)),
        Value::Number(Number::Int(-2)),
        Value::Number(Number::Int(9)),
    ];
    assert_eq!(minmax_num(&args, true), Number::Int(-2));
    assert_eq!(minmax_num(&args, false), Number::Int(9));
    let no_args: Vec<Value> = Vec::new();
    assert_eq!(minmax_num(&no_args, true), Number::Nan);
    let with_nan = vec![Value::Number(Number::Int(1)), Value::Undefined];
    assert_eq!(minmax_num(&with_nan, false), Number::Nan);
}

/// `Math.floor`, `Math.abs` and `Math.pow` through the global object.
#[test]
fn math_through_globals() {
    let mut vm = VM::new();
    vm.const_table.value.push(sval("pow")); // 0
    vm.const_table.value.push(sval("log")); // 1
    vm.const_table.string.push("Math".to_string()); // 0
    vm.const_table.string.push("console".to_string()); // 1
    let mut c = Vec::new();
    op8(&mut c, bc::PUSH_INT8, 2);
    op8(&mut c, bc::PUSH_INT8, 8);
    op32(&mut c, bc::GET_NAME, 0);
    op32(&mut c, bc::PUSH_CONST, 0);
    op(&mut c, bc::GET_MEMBER);
    op32(&mut c, bc::CALL, 2);
    op32(&mut c, bc::GET_NAME, 1);
    op32(&mut c, bc::PUSH_CONST, 1);
    op(&mut c, bc::GET_MEMBER);
    op32(&mut c, bc::CALL, 1);
    op(&mut c, bc::END);
    let mut jit = NoJit {};
    vm.run(&c, &mut jit, 100_000).unwrap();
    assert_eq!(vm.output, vec!["256\n".to_string()]);
}

/// `process.stdout.write` appends without a newline.
#[test]
fn stdout_write_appends_raw() {
    let mut vm = VM::new();
    vm.const_table.value.push(sval("stdout")); // 0
    vm.const_table.value.push(sval("write")); // 1
    vm.const_table.value.push(sval("ab")); // 2
    vm.const_table.string.push("process".to_string());
    let mut c = Vec::new();
    op32(&mut c, bc::PUSH_CONST, 2);
    op32(&mut c, bc::GET_NAME, 0);
    op32(&mut c, bc::PUSH_CONST, 0);
    op(&mut c, bc::GET_MEMBER);
    op32(&mut c, bc::PUSH_CONST, 1);
    op(&mut c, bc::GET_MEMBER);
    op32(&mut c, bc::CALL, 1);
    op(&mut c, bc::END);
    let mut jit = NoJit {};
    vm.run(&c, &mut jit, 10_000).unwrap();
    assert_eq!(vm.output, vec!["ab".to_string()]);
}

/// An assignment to an undeclared name installs it in the global object.
#[test]
fn implicit_global_assignment() {
    let mut vm = VM::new();
    vm.const_table.value.push(sval("log"));
    vm.const_table.string.push("fresh".to_string()); // 0
    vm.const_table.string.push("console".to_string()); // 1
    let mut c = Vec::new();
    op8(&mut c, bc::PUSH_INT8, 11);
    op32(&mut c, bc::SET_NAME, 0);
    op32(&mut c, bc::GET_NAME, 0);
    op32(&mut c, bc::GET_NAME, 1);
    op32(&mut c, bc::PUSH_CONST, 0);
    op(&mut c, bc::GET_MEMBER);
    op32(&mut c, bc::CALL, 1);
    op(&mut c, bc::END);
    let mut jit = NoJit {};
    vm.run(&c, &mut jit, 10_000).unwrap();
    assert_eq!(vm.output, vec!["11\n".to_string()]);
}

/// Constructing the `call` built-in is a type error.
#[test]
fn constructing_call_builtin_is_type_error() {
    let mut vm = VM::new();
    let mut gbody = Vec::new();
    op(&mut gbody, bc::PUSH_UNDEFINED);
    op(&mut gbody, bc::RETURN);
    let gval = new_value_function(&mut vm.heap, 1, Some("g".to_string()), Vec::new(), gbody);
    vm.const_table.value.push(gval); // 0
    vm.const_table.value.push(sval("call")); // 1
    vm.const_table.string.push("g".to_string()); // 0
    let mut c = Vec::new();
    op32(&mut c, bc::PUSH_CONST, 0);
    op(&mut c, bc::SET_CUR_CALLOBJ);
    op32(&mut c, bc::DECL_VAR, 0);
    op32(&mut c, bc::GET_NAME, 0);
    op32(&mut c, bc::PUSH_CONST, 1);
    op(&mut c, bc::GET_MEMBER);
    op32(&mut c, bc::CONSTRUCT, 0);
    op(&mut c, bc::END);
    let mut jit = NoJit {};
    let e = vm.run(&c, &mut jit, 10_000).unwrap_err();
    assert!(matches!(e, RuntimeError::Type(_)));
}

/// `var o = {}; o.m = g.call; o.m();` is a type error: the rebound
/// receiver of `call` is a plain object, not a function to run.
#[test]
fn call_with_non_function_receiver_is_type_error() {
    let mut vm = VM::new();
    let mut gbody = Vec::new();
    op(&mut gbody, bc::PUSH_UNDEFINED);
    op(&mut gbody, bc::RETURN);
    let gval = new_value_function(&mut vm.heap, 1, Some("g".to_string()), Vec::new(), gbody);
    vm.const_table.value.push(gval); // 0
    vm.const_table.value.push(sval("call")); // 1
    vm.const_table.value.push(sval("m")); // 2
    vm.const_table.string.push("g".to_string()); // 0
    vm.const_table.string.push("o".to_string()); // 1
    let mut c = Vec::new();
    op32(&mut c, bc::PUSH_CONST, 0);
    op(&mut c, bc::SET_CUR_CALLOBJ);
    op32(&mut c, bc::DECL_VAR, 0);
    op32(&mut c, bc::CREATE_OBJECT, 0);
    op32(&mut c, bc::DECL_VAR, 1);
    // o.m = g.call
    op32(&mut c, bc::GET_NAME, 0);
    op32(&mut c, bc::PUSH_CONST, 1);
    op(&mut c, bc::GET_MEMBER);
    op32(&mut c, bc::GET_NAME, 1);
    op32(&mut c, bc::PUSH_CONST, 2);
    op(&mut c, bc::SET_MEMBER);
    // o.m()
    op32(&mut c, bc::GET_NAME, 1);
    op32(&mut c, bc::PUSH_CONST, 2);
    op(&mut c, bc::GET_MEMBER);
    op32(&mut c, bc::CALL, 0);
    op(&mut c, bc::END);
    let mut jit = NoJit {};
    let e = vm.run(&c, &mut jit, 10_000).unwrap_err();
    assert!(matches!(e, RuntimeError::Type(_)));
}
