//! End-to-end programs: source-level scenarios hand-lowered to bytecode,
//! observed through the console output buffer.

use jsvm::bytecode as bc;
use jsvm::function::{new_value_function, FunctionParameter};
use jsvm::jit::NoJit;
use jsvm::value::Value;
use jsvm::vm::VM;

fn op(c: &mut Vec<u8>, b: u8) {
    c.push(b);
}

fn op8(c: &mut Vec<u8>, b: u8, v: i8) {
    c.push(b);
    c.push(v as u8);
}

fn op32(c: &mut Vec<u8>, b: u8, v: u32) {
    c.push(b);
    c.extend_from_slice(&v.to_le_bytes());
}

fn opj(c: &mut Vec<u8>, b: u8, dst: i32) {
    c.push(b);
    c.extend_from_slice(&(dst as u32).to_le_bytes());
}

fn sval(s: &str) -> Value {
    Value::Str(s.to_string())
}

/// `console.log(1 + 2);` prints `3`.
#[test]
fn scenario_add_prints_three() {
    let mut vm = VM::new();
    vm.const_table.value.push(sval("log"));
    vm.const_table.string.push("console".to_string());
    let mut c = Vec::new();
    op8(&mut c, bc::PUSH_INT8, 1);
    op8(&mut c, bc::PUSH_INT8, 2);
    op(&mut c, bc::ADD);
    op32(&mut c, bc::GET_NAME, 0);
    op32(&mut c, bc::PUSH_CONST, 0);
    op(&mut c, bc::GET_MEMBER);
    op32(&mut c, bc::CALL, 1);
    op(&mut c, bc::END);
    let mut jit = NoJit {};
    vm.run(&c, &mut jit, 100_000).unwrap();
    assert_eq!(vm.output, vec!["3\n".to_string()]);
}

/// `var s = ""; for (var i = 0; i < 3; i++) s += i; console.log(s);`
/// prints `012`.
#[test]
fn scenario_loop_concat_prints_012() {
    let mut vm = VM::new();
    vm.const_table.value.push(sval(""));
    vm.const_table.value.push(sval("log"));
    vm.const_table.string.push("s".to_string());
    vm.const_table.string.push("i".to_string());
    vm.const_table.string.push("console".to_string());
    let mut c = Vec::new();
    op32(&mut c, bc::PUSH_CONST, 0);
    op32(&mut c, bc::DECL_VAR, 0);
    op8(&mut c, bc::PUSH_INT8, 0);
    op32(&mut c, bc::DECL_VAR, 1);
    let loop_top = c.len();
    op32(&mut c, bc::GET_NAME, 1);
    op8(&mut c, bc::PUSH_INT8, 3);
    op(&mut c, bc::LT);
    let jif_at = c.len();
    opj(&mut c, bc::JMP_IF_FALSE, 0); // patched below
    // s += i
    op32(&mut c, bc::GET_NAME, 0);
    op32(&mut c, bc::GET_NAME, 1);
    op(&mut c, bc::ADD);
    op32(&mut c, bc::SET_NAME, 0);
    // i++
    op32(&mut c, bc::GET_NAME, 1);
    op8(&mut c, bc::PUSH_INT8, 1);
    op(&mut c, bc::ADD);
    op32(&mut c, bc::SET_NAME, 1);
    let jmp_at = c.len();
    opj(&mut c, bc::JMP, loop_top as i32 - (jmp_at as i32 + 5));
    let after_loop = c.len();
    // patch the exit jump
    let dst = after_loop as i32 - (jif_at as i32 + 5);
    c[jif_at + 1..jif_at + 5].copy_from_slice(&(dst as u32).to_le_bytes());
    op32(&mut c, bc::GET_NAME, 0);
    op32(&mut c, bc::GET_NAME, 2);
    op32(&mut c, bc::PUSH_CONST, 1);
    op(&mut c, bc::GET_MEMBER);
    op32(&mut c, bc::CALL, 1);
    op(&mut c, bc::END);
    let mut jit = NoJit {};
    vm.run(&c, &mut jit, 100_000).unwrap();
    assert_eq!(vm.output, vec!["012\n".to_string()]);
}

/// `function f(n){ if (n < 2) return 1; return f(n-1) + f(n-2); }
/// console.log(f(10));` prints `89`.
#[test]
fn scenario_recursion_prints_89() {
    let mut vm = VM::new();
    // the body of f; its own names: f (string 0), n (string 1)
    let mut body = Vec::new();
    op32(&mut body, bc::GET_NAME, 1);
    op8(&mut body, bc::PUSH_INT8, 2);
    op(&mut body, bc::LT);
    opj(&mut body, bc::JMP_IF_FALSE, 3); // past `PUSH_INT8 1; RETURN`
    op8(&mut body, bc::PUSH_INT8, 1);
    op(&mut body, bc::RETURN);
    op32(&mut body, bc::GET_NAME, 1);
    op8(&mut body, bc::PUSH_INT8, 1);
    op(&mut body, bc::SUB);
    op32(&mut body, bc::GET_NAME, 0);
    op32(&mut body, bc::CALL, 1);
    op32(&mut body, bc::GET_NAME, 1);
    op8(&mut body, bc::PUSH_INT8, 2);
    op(&mut body, bc::SUB);
    op32(&mut body, bc::GET_NAME, 0);
    op32(&mut body, bc::CALL, 1);
    op(&mut body, bc::ADD);
    op(&mut body, bc::RETURN);
    let params = vec![FunctionParameter::new("n".to_string(), false)];
    let fval = new_value_function(&mut vm.heap, 1, Some("f".to_string()), params, body);
    vm.const_table.value.push(fval);
    vm.const_table.value.push(sval("log"));
    vm.const_table.string.push("f".to_string());
    vm.const_table.string.push("n".to_string());
    vm.const_table.string.push("console".to_string());
    let mut c = Vec::new();
    op32(&mut c, bc::PUSH_CONST, 0);
    op(&mut c, bc::SET_CUR_CALLOBJ);
    op32(&mut c, bc::DECL_VAR, 0);
    op8(&mut c, bc::PUSH_INT8, 10);
    op32(&mut c, bc::GET_NAME, 0);
    op32(&mut c, bc::CALL, 1);
    op32(&mut c, bc::GET_NAME, 2);
    op32(&mut c, bc::PUSH_CONST, 1);
    op(&mut c, bc::GET_MEMBER);
    op32(&mut c, bc::CALL, 1);
    op(&mut c, bc::END);
    let mut jit = NoJit {};
    vm.run(&c, &mut jit, 1_000_000).unwrap();
    assert_eq!(vm.output, vec!["89\n".to_string()]);
}

/// `function C(x){ this.x = x; } C.prototype.get = function(){ return
/// this.x; }; var o = new C(7); console.log(o.get());` prints `7`.
#[test]
fn scenario_constructor_prototype_prints_7() {
    let mut vm = VM::new();
    // body of C: this.x = x; return undefined
    let mut cbody = Vec::new();
    op32(&mut cbody, bc::GET_NAME, 3); // x
    op(&mut cbody, bc::PUSH_THIS);
    op32(&mut cbody, bc::PUSH_CONST, 4); // "x"
    op(&mut cbody, bc::SET_MEMBER);
    op(&mut cbody, bc::PUSH_UNDEFINED);
    op(&mut cbody, bc::RETURN);
    // body of the getter: return this.x
    let mut gbody = Vec::new();
    op(&mut gbody, bc::PUSH_THIS);
    op32(&mut gbody, bc::PUSH_CONST, 4); // "x"
    op(&mut gbody, bc::GET_MEMBER);
    op(&mut gbody, bc::RETURN);
    let cparams = vec![FunctionParameter::new("x".to_string(), false)];
    let cval = new_value_function(&mut vm.heap, 1, Some("C".to_string()), cparams, cbody);
    let gval = new_value_function(&mut vm.heap, 2, None, Vec::new(), gbody);
    vm.const_table.value.push(cval); // 0
    vm.const_table.value.push(gval); // 1
    vm.const_table.value.push(sval("prototype")); // 2
    vm.const_table.value.push(sval("get")); // 3
    vm.const_table.value.push(sval("x")); // 4
    vm.const_table.value.push(sval("log")); // 5
    vm.const_table.string.push("C".to_string()); // 0
    vm.const_table.string.push("o".to_string()); // 1
    vm.const_table.string.push("console".to_string()); // 2
    vm.const_table.string.push("x".to_string()); // 3
    let mut c = Vec::new();
    op32(&mut c, bc::PUSH_CONST, 0);
    op(&mut c, bc::SET_CUR_CALLOBJ);
    op32(&mut c, bc::DECL_VAR, 0);
    // C.prototype.get = function(){...}
    op32(&mut c, bc::PUSH_CONST, 1);
    op(&mut c, bc::SET_CUR_CALLOBJ);
    op32(&mut c, bc::GET_NAME, 0);
    op32(&mut c, bc::PUSH_CONST, 2);
    op(&mut c, bc::GET_MEMBER);
    op32(&mut c, bc::PUSH_CONST, 3);
    op(&mut c, bc::SET_MEMBER);
    // var o = new C(7)
    op8(&mut c, bc::PUSH_INT8, 7);
    op32(&mut c, bc::GET_NAME, 0);
    op32(&mut c, bc::CONSTRUCT, 1);
    op32(&mut c, bc::DECL_VAR, 1);
    // console.log(o.get())
    op32(&mut c, bc::GET_NAME, 1);
    op32(&mut c, bc::PUSH_CONST, 3);
    op(&mut c, bc::GET_MEMBER);
    op32(&mut c, bc::CALL, 0);
    op32(&mut c, bc::GET_NAME, 2);
    op32(&mut c, bc::PUSH_CONST, 5);
    op(&mut c, bc::GET_MEMBER);
    op32(&mut c, bc::CALL, 1);
    op(&mut c, bc::END);
    let mut jit = NoJit {};
    vm.run(&c, &mut jit, 1_000_000).unwrap();
    assert_eq!(vm.output, vec!["7\n".to_string()]);
}

/// `function g(){ return arguments[0] + arguments[1]; }
/// console.log(g(4,5));` prints `9`.
#[test]
fn scenario_arguments_prints_9() {
    let mut vm = VM::new();
    let mut gbody = Vec::new();
    op(&mut gbody, bc::PUSH_ARGUMENTS);
    op8(&mut gbody, bc::PUSH_INT8, 0);
    op(&mut gbody, bc::GET_MEMBER);
    op(&mut gbody, bc::PUSH_ARGUMENTS);
    op8(&mut gbody, bc::PUSH_INT8, 1);
    op(&mut gbody, bc::GET_MEMBER);
    op(&mut gbody, bc::ADD);
    op(&mut gbody, bc::RETURN);
    let gval = new_value_function(&mut vm.heap, 1, Some("g".to_string()), Vec::new(), gbody);
    vm.const_table.value.push(gval);
    vm.const_table.value.push(sval("log"));
    vm.const_table.string.push("g".to_string());
    vm.const_table.string.push("console".to_string());
    let mut c = Vec::new();
    op32(&mut c, bc::PUSH_CONST, 0);
    op(&mut c, bc::SET_CUR_CALLOBJ);
    op32(&mut c, bc::DECL_VAR, 0);
    op8(&mut c, bc::PUSH_INT8, 4);
    op8(&mut c, bc::PUSH_INT8, 5);
    op32(&mut c, bc::GET_NAME, 0);
    op32(&mut c, bc::CALL, 2);
    op32(&mut c, bc::GET_NAME, 1);
    op32(&mut c, bc::PUSH_CONST, 1);
    op(&mut c, bc::GET_MEMBER);
    op32(&mut c, bc::CALL, 1);
    op(&mut c, bc::END);
    let mut jit = NoJit {};
    vm.run(&c, &mut jit, 100_000).unwrap();
    assert_eq!(vm.output, vec!["9\n".to_string()]);
}

/// `function h(a, ...r){ return r.length; } console.log(h(1,2,3,4));`
/// prints `3`.
#[test]
fn scenario_rest_parameter_prints_3() {
    let mut vm = VM::new();
    let mut hbody = Vec::new();
    op32(&mut hbody, bc::GET_NAME, 1); // r
    op32(&mut hbody, bc::PUSH_CONST, 1); // "length"
    op(&mut hbody, bc::GET_MEMBER);
    op(&mut hbody, bc::RETURN);
    let params = vec![
        FunctionParameter::new("a".to_string(), false),
        FunctionParameter::new("r".to_string(), true),
    ];
    let hval = new_value_function(&mut vm.heap, 1, Some("h".to_string()), params, hbody);
    vm.const_table.value.push(hval); // 0
    vm.const_table.value.push(sval("length")); // 1
    vm.const_table.value.push(sval("log")); // 2
    vm.const_table.string.push("h".to_string()); // 0
    vm.const_table.string.push("r".to_string()); // 1
    vm.const_table.string.push("console".to_string()); // 2
    let mut c = Vec::new();
    op32(&mut c, bc::PUSH_CONST, 0);
    op(&mut c, bc::SET_CUR_CALLOBJ);
    op32(&mut c, bc::DECL_VAR, 0);
    op8(&mut c, bc::PUSH_INT8, 1);
    op8(&mut c, bc::PUSH_INT8, 2);
    op8(&mut c, bc::PUSH_INT8, 3);
    op8(&mut c, bc::PUSH_INT8, 4);
    op32(&mut c, bc::GET_NAME, 0);
    op32(&mut c, bc::CALL, 4);
    op32(&mut c, bc::GET_NAME, 2);
    op32(&mut c, bc::PUSH_CONST, 2);
    op(&mut c, bc::GET_MEMBER);
    op32(&mut c, bc::CALL, 1);
    op(&mut c, bc::END);
    let mut jit = NoJit {};
    vm.run(&c, &mut jit, 100_000).unwrap();
    assert_eq!(vm.output, vec!["3\n".to_string()]);
}

/// A closure created inside an activation keeps seeing that activation's
/// bindings: a counter factory yields independent counters.
#[test]
fn scenario_closure_counters() {
    let mut vm = VM::new();
    // function mk(){ var n = 0; return function(){ n = n + 1; return n; }; }
    // the inner function body: n = n + 1; return n
    let mut inner = Vec::new();
    op32(&mut inner, bc::GET_NAME, 1); // n
    op8(&mut inner, bc::PUSH_INT8, 1);
    op(&mut inner, bc::ADD);
    op32(&mut inner, bc::SET_NAME, 1);
    op32(&mut inner, bc::GET_NAME, 1);
    op(&mut inner, bc::RETURN);
    // the factory body: var n = 0; return <inner with captured scope>
    let mut outer = Vec::new();
    op8(&mut outer, bc::PUSH_INT8, 0);
    op32(&mut outer, bc::DECL_VAR, 1); // n
    op32(&mut outer, bc::PUSH_CONST, 1); // inner function value
    op(&mut outer, bc::SET_CUR_CALLOBJ);
    op(&mut outer, bc::RETURN);
    let mkval = new_value_function(&mut vm.heap, 1, Some("mk".to_string()), Vec::new(), outer);
    let inval = new_value_function(&mut vm.heap, 2, None, Vec::new(), inner);
    vm.const_table.value.push(mkval); // 0
    vm.const_table.value.push(inval); // 1
    vm.const_table.value.push(sval("log")); // 2
    vm.const_table.string.push("mk".to_string()); // 0
    vm.const_table.string.push("n".to_string()); // 1
    vm.const_table.string.push("console".to_string()); // 2
    vm.const_table.string.push("c1".to_string()); // 3
    vm.const_table.string.push("c2".to_string()); // 4
    let mut c = Vec::new();
    op32(&mut c, bc::PUSH_CONST, 0);
    op(&mut c, bc::SET_CUR_CALLOBJ);
    op32(&mut c, bc::DECL_VAR, 0);
    // c1 = mk(); c2 = mk()
    op32(&mut c, bc::GET_NAME, 0);
    op32(&mut c, bc::CALL, 0);
    op32(&mut c, bc::DECL_VAR, 3);
    op32(&mut c, bc::GET_NAME, 0);
    op32(&mut c, bc::CALL, 0);
    op32(&mut c, bc::DECL_VAR, 4);
    // c1(); c1(); log(c1()) -> 3
    op32(&mut c, bc::GET_NAME, 3);
    op32(&mut c, bc::CALL, 0);
    op(&mut c, bc::POP);
    op32(&mut c, bc::GET_NAME, 3);
    op32(&mut c, bc::CALL, 0);
    op(&mut c, bc::POP);
    op32(&mut c, bc::GET_NAME, 3);
    op32(&mut c, bc::CALL, 0);
    op32(&mut c, bc::GET_NAME, 2);
    op32(&mut c, bc::PUSH_CONST, 2);
    op(&mut c, bc::GET_MEMBER);
    op32(&mut c, bc::CALL, 1);
    // log(c2()) -> 1: the counters are independent
    op32(&mut c, bc::GET_NAME, 4);
    op32(&mut c, bc::CALL, 0);
    op32(&mut c, bc::GET_NAME, 2);
    op32(&mut c, bc::PUSH_CONST, 2);
    op(&mut c, bc::GET_MEMBER);
    op32(&mut c, bc::CALL, 1);
    op(&mut c, bc::END);
    let mut jit = NoJit {};
    vm.run(&c, &mut jit, 1_000_000).unwrap();
    assert_eq!(vm.output, vec!["3\n".to_string(), "1\n".to_string()]);
}

/// `var o = {v: 7}; function getv() { return this.v; }
/// console.log(getv.call(o));` prints `7`: `call` runs the function with an
/// explicit receiver.
#[test]
fn scenario_function_proto_call_prints_7() {
    let mut vm = VM::new();
    let mut gbody = Vec::new();
    op(&mut gbody, bc::PUSH_THIS);
    op32(&mut gbody, bc::PUSH_CONST, 0); // "v"
    op(&mut gbody, bc::GET_MEMBER);
    op(&mut gbody, bc::RETURN);
    let gval = new_value_function(&mut vm.heap, 1, Some("getv".to_string()), Vec::new(), gbody);
    let mut pm = jsvm::heap::PropMap::new();
    pm.insert(
        "v".to_string(),
        jsvm::value::Property::new(Value::Number(jsvm::number::Number::Int(7))),
    );
    let oh = vm.heap.alloc_props(pm);
    vm.const_table.value.push(sval("v")); // 0
    vm.const_table.value.push(gval); // 1
    vm.const_table.value.push(Value::Object(oh)); // 2
    vm.const_table.value.push(sval("call")); // 3
    vm.const_table.value.push(sval("log")); // 4
    vm.const_table.string.push("getv".to_string()); // 0
    vm.const_table.string.push("console".to_string()); // 1
    let mut c = Vec::new();
    op32(&mut c, bc::PUSH_CONST, 1);
    op(&mut c, bc::SET_CUR_CALLOBJ);
    op32(&mut c, bc::DECL_VAR, 0);
    op32(&mut c, bc::PUSH_CONST, 2); // o
    op32(&mut c, bc::GET_NAME, 0); // getv
    op32(&mut c, bc::PUSH_CONST, 3); // "call"
    op(&mut c, bc::GET_MEMBER);
    op32(&mut c, bc::CALL, 1);
    op32(&mut c, bc::GET_NAME, 1); // console
    op32(&mut c, bc::PUSH_CONST, 4); // "log"
    op(&mut c, bc::GET_MEMBER);
    op32(&mut c, bc::CALL, 1);
    op(&mut c, bc::END);
    let mut jit = NoJit {};
    vm.run(&c, &mut jit, 100_000).unwrap();
    assert_eq!(vm.output, vec!["7\n".to_string()]);
}

/// `function me() { return this; } console.log(me.call());` prints
/// `undefined`: with no actuals, `call` runs its receiver with an undefined
/// receiver.
#[test]
fn scenario_function_proto_call_no_args_prints_undefined() {
    let mut vm = VM::new();
    let mut gbody = Vec::new();
    op(&mut gbody, bc::PUSH_THIS);
    op(&mut gbody, bc::RETURN);
    let gval = new_value_function(&mut vm.heap, 1, Some("me".to_string()), Vec::new(), gbody);
    vm.const_table.value.push(sval("unused")); // 0
    vm.const_table.value.push(gval); // 1
    vm.const_table.value.push(sval("call")); // 2
    vm.const_table.value.push(sval("log")); // 3
    vm.const_table.string.push("me".to_string()); // 0
    vm.const_table.string.push("console".to_string()); // 1
    let mut c = Vec::new();
    op32(&mut c, bc::PUSH_CONST, 1);
    op(&mut c, bc::SET_CUR_CALLOBJ);
    op32(&mut c, bc::DECL_VAR, 0);
    op32(&mut c, bc::GET_NAME, 0); // me
    op32(&mut c, bc::PUSH_CONST, 2); // "call"
    op(&mut c, bc::GET_MEMBER);
    op32(&mut c, bc::CALL, 0);
    op32(&mut c, bc::GET_NAME, 1); // console
    op32(&mut c, bc::PUSH_CONST, 3); // "log"
    op(&mut c, bc::GET_MEMBER);
    op32(&mut c, bc::CALL, 1);
    op(&mut c, bc::END);
    let mut jit = NoJit {};
    vm.run(&c, &mut jit, 100_000).unwrap();
    assert_eq!(vm.output, vec!["undefined\n".to_string()]);
}
