//! Binary operator evaluation.
//!
//! Numbers follow the integer number model; `+` concatenates when a string
//! is involved; comparison of strings is byte-wise on their encoded form;
//! bitwise operators cast both sides through 32-bit two's-complement, the
//! zero-fill shift through unsigned 32-bit. An operand pairing the engine
//! does not model yields the unimplemented error.

use vstd::prelude::*;

use crate::bytecode;
use crate::error::RuntimeError;
use crate::number::{add_spec, div_spec, mul_spec, rem_spec, sub_spec, Number};
use crate::value::{str_of_value, Value};
use vstd::string::StringSliceAdditionalSpecFns;

verus! {

/// What evaluating a binary operator yields.
pub enum BinOutcome {
    /// A plain value.
    Val(Value),
    /// A string with this text.
    Txt(Seq<char>),
    /// An operand pairing the engine does not model.
    Unimpl,
}

/// Byte-wise lexicographic order.
pub open spec fn bytes_lt(a: Seq<u8>, b: Seq<u8>) -> bool
    decreases a.len(),
{
    if b.len() == 0 {
        false
    } else if a.len() == 0 {
        true
    } else if a[0] < b[0] {
        true
    } else if a[0] > b[0] {
        false
    } else {
        bytes_lt(a.skip(1), b.skip(1))
    }
}

/// `s` repeated `n` times.
pub open spec fn repeat_chars(s: Seq<char>, n: nat) -> Seq<char>
    decreases n,
{
    if n == 0 {
        Seq::empty()
    } else {
        repeat_chars(s, (n - 1) as nat) + s
    }
}

/// Numeric equality on two numbers: false whenever `Nan` is involved.
pub open spec fn num_eq(a: Number, b: Number) -> bool {
    match (a, b) {
        (Number::Int(x), Number::Int(y)) => x == y,
        _ => false,
    }
}

/// What evaluating operator `op` on `l` and `r` yields.
pub open spec fn binop_outcome(op: u8, l: Value, r: Value) -> BinOutcome {
    if op == bytecode::ADD {
        match (l, r) {
            (Value::Number(a), Value::Number(b)) => BinOutcome::Val(Value::Number(add_spec(a, b))),
            (Value::Bool(false), Value::Number(x)) => BinOutcome::Val(Value::Number(x)),
            (Value::Number(x), Value::Bool(false)) => BinOutcome::Val(Value::Number(x)),
            (Value::Bool(true), Value::Number(x)) => BinOutcome::Val(
                Value::Number(add_spec(x, Number::Int(1))),
            ),
            (Value::Number(x), Value::Bool(true)) => BinOutcome::Val(
                Value::Number(add_spec(x, Number::Int(1))),
            ),
            (Value::Undefined, _) => BinOutcome::Val(Value::Number(Number::Nan)),
            (_, Value::Undefined) => BinOutcome::Val(Value::Number(Number::Nan)),
            _ => BinOutcome::Txt(str_of_value(l) + str_of_value(r)),
        }
    } else if op == bytecode::SUB {
        match (l, r) {
            (Value::Number(a), Value::Number(b)) => BinOutcome::Val(Value::Number(sub_spec(a, b))),
            _ => BinOutcome::Unimpl,
        }
    } else if op == bytecode::MUL {
        match (l, r) {
            (Value::Number(a), Value::Number(b)) => BinOutcome::Val(Value::Number(mul_spec(a, b))),
            (Value::Str(s), Value::Number(n)) => BinOutcome::Txt(
                repeat_chars(
                    s@,
                    match n {
                        Number::Int(k) => if k <= 0 {
                            0nat
                        } else {
                            (k as usize) as nat
                        },
                        Number::Nan => 0nat,
                    },
                ),
            ),
            _ => BinOutcome::Unimpl,
        }
    } else if op == bytecode::DIV {
        match (l, r) {
            (Value::Number(a), Value::Number(b)) => BinOutcome::Val(Value::Number(div_spec(a, b))),
            _ => BinOutcome::Unimpl,
        }
    } else if op == bytecode::REM {
        match (l, r) {
            (Value::Number(a), Value::Number(b)) => BinOutcome::Val(Value::Number(rem_spec(a, b))),
            _ => BinOutcome::Unimpl,
        }
    } else if op == bytecode::LT {
        match (l, r) {
            (Value::Number(a), Value::Number(b)) => BinOutcome::Val(
                Value::Bool(
                    match (a, b) {
                        (Number::Int(x), Number::Int(y)) => x < y,
                        _ => false,
                    },
                ),
            ),
            (Value::Str(a), Value::Str(b)) => BinOutcome::Val(
                Value::Bool(bytes_lt(vstd::utf8::encode_utf8(a@), vstd::utf8::encode_utf8(b@))),
            ),
            _ => BinOutcome::Unimpl,
        }
    } else if op == bytecode::GT {
        match (l, r) {
            (Value::Number(a), Value::Number(b)) => BinOutcome::Val(
                Value::Bool(
                    match (a, b) {
                        (Number::Int(x), Number::Int(y)) => x > y,
                        _ => false,
                    },
                ),
            ),
            (Value::Str(a), Value::Str(b)) => BinOutcome::Val(
                Value::Bool(bytes_lt(vstd::utf8::encode_utf8(b@), vstd::utf8::encode_utf8(a@))),
            ),
            _ => BinOutcome::Unimpl,
        }
    } else if op == bytecode::LE {
        match (l, r) {
            (Value::Number(a), Value::Number(b)) => BinOutcome::Val(
                Value::Bool(
                    match (a, b) {
                        (Number::Int(x), Number::Int(y)) => x <= y,
                        _ => false,
                    },
                ),
            ),
            (Value::Str(a), Value::Str(b)) => BinOutcome::Val(
                Value::Bool(!bytes_lt(vstd::utf8::encode_utf8(b@), vstd::utf8::encode_utf8(a@))),
            ),
            _ => BinOutcome::Unimpl,
        }
    } else if op == bytecode::GE {
        match (l, r) {
            (Value::Number(a), Value::Number(b)) => BinOutcome::Val(
                Value::Bool(
                    match (a, b) {
                        (Number::Int(x), Number::Int(y)) => x >= y,
                        _ => false,
                    },
                ),
            ),
            (Value::Str(a), Value::Str(b)) => BinOutcome::Val(
                Value::Bool(!bytes_lt(vstd::utf8::encode_utf8(a@), vstd::utf8::encode_utf8(b@))),
            ),
            _ => BinOutcome::Unimpl,
        }
    } else if op == bytecode::EQ {
        match (l, r) {
            (Value::Number(a), Value::Number(b)) => BinOutcome::Val(Value::Bool(num_eq(a, b))),
            (Value::Str(a), Value::Str(b)) => BinOutcome::Val(Value::Bool(a@ == b@)),
            _ => BinOutcome::Unimpl,
        }
    } else if op == bytecode::NE {
        match (l, r) {
            (Value::Null, Value::Null) => BinOutcome::Val(Value::Bool(false)),
            (Value::Undefined, Value::Undefined) => BinOutcome::Val(Value::Bool(false)),
            (Value::Number(a), Value::Number(b)) => BinOutcome::Val(Value::Bool(!num_eq(a, b))),
            (Value::Str(a), Value::Str(b)) => BinOutcome::Val(Value::Bool(a@ != b@)),
            _ => BinOutcome::Unimpl,
        }
    } else if op == bytecode::SEQ {
        match (l, r) {
            (Value::Null, Value::Null) => BinOutcome::Val(Value::Bool(true)),
            (Value::Undefined, Value::Undefined) => BinOutcome::Val(Value::Bool(true)),
            (Value::Number(a), Value::Number(b)) => BinOutcome::Val(Value::Bool(num_eq(a, b))),
            (Value::Str(a), Value::Str(b)) => BinOutcome::Val(Value::Bool(a@ == b@)),
            _ => BinOutcome::Unimpl,
        }
    } else if op == bytecode::SNE {
        match (l, r) {
            (Value::Number(a), Value::Number(b)) => BinOutcome::Val(Value::Bool(!num_eq(a, b))),
            (Value::Str(a), Value::Str(b)) => BinOutcome::Val(Value::Bool(a@ != b@)),
            _ => BinOutcome::Unimpl,
        }
    } else if op == bytecode::AND {
        match (l, r) {
            (Value::Number(a), Value::Number(b)) => BinOutcome::Val(
                Value::Number(
                    Number::Int(
                        (crate::number::to_i32_spec(a) & crate::number::to_i32_spec(b)) as i64,
                    ),
                ),
            ),
            _ => BinOutcome::Unimpl,
        }
    } else if op == bytecode::OR {
        match (l, r) {
            (Value::Number(a), Value::Number(b)) => BinOutcome::Val(
                Value::Number(
                    Number::Int(
                        (crate::number::to_i32_spec(a) | crate::number::to_i32_spec(b)) as i64,
                    ),
                ),
            ),
            _ => BinOutcome::Unimpl,
        }
    } else if op == bytecode::XOR {
        match (l, r) {
            (Value::Number(a), Value::Number(b)) => BinOutcome::Val(
                Value::Number(
                    Number::Int(
                        (crate::number::to_i32_spec(a) ^ crate::number::to_i32_spec(b)) as i64,
                    ),
                ),
            ),
            _ => BinOutcome::Unimpl,
        }
    } else if op == bytecode::SHL {
        match (l, r) {
            (Value::Number(a), Value::Number(b)) => BinOutcome::Val(
                Value::Number(
                    Number::Int(
                        (crate::number::to_i32_spec(a) << (crate::number::to_u32_spec(b)
                            % 32)) as i64,
                    ),
                ),
            ),
            _ => BinOutcome::Unimpl,
        }
    } else if op == bytecode::SHR {
        match (l, r) {
            (Value::Number(a), Value::Number(b)) => BinOutcome::Val(
                Value::Number(
                    Number::Int(
                        (crate::number::to_i32_spec(a) >> (crate::number::to_u32_spec(b)
                            % 32)) as i64,
                    ),
                ),
            ),
            _ => BinOutcome::Unimpl,
        }
    } else if op == bytecode::ZFSHR {
        match (l, r) {
            (Value::Number(a), Value::Number(b)) => BinOutcome::Val(
                Value::Number(
                    Number::Int(
                        (crate::number::to_u32_spec(a) >> (crate::number::to_u32_spec(b)
                            % 32)) as i64,
                    ),
                ),
            ),
            _ => BinOutcome::Unimpl,
        }
    } else {
        BinOutcome::Unimpl
    }
}

/// Byte-wise lexicographic comparison of two strings.
pub(crate) fn str_bytes_lt(a: &str, b: &str) -> (r: bool)
    ensures
        r == bytes_lt(a.spec_bytes(), b.spec_bytes()),
{
    let ab = a.as_bytes();
    let bb = b.as_bytes();
    let an = ab.len();
    let bn = bb.len();
    let mut i: usize = 0;
    proof {
        assert(ab@.skip(0) =~= ab@);
        assert(bb@.skip(0) =~= bb@);
    }
    loop
        invariant
            i <= an,
            i <= bn,
            an == ab@.len(),
            bn == bb@.len(),
            ab@ == a.spec_bytes(),
            bb@ == b.spec_bytes(),
            bytes_lt(a.spec_bytes(), b.spec_bytes()) == bytes_lt(ab@.skip(i as int), bb@.skip(
                i as int,
            )),
        decreases an - i,
    {
        if i >= bn {
            proof {
                assert(bb@.skip(i as int).len() == 0);
            }
            return false;
        }
        if i >= an {
            proof {
                assert(ab@.skip(i as int).len() == 0);
                assert(bb@.skip(i as int).len() > 0);
            }
            return true;
        }
        let x = ab[i];
        let y = bb[i];
        proof {
            assert(ab@.skip(i as int)[0] == ab@[i as int]);
            assert(bb@.skip(i as int)[0] == bb@[i as int]);
            assert(ab@.skip(i as int).skip(1) =~= ab@.skip(i + 1));
            assert(bb@.skip(i as int).skip(1) =~= bb@.skip(i + 1));
        }
        if x < y {
            return true;
        }
        if x > y {
            return false;
        }
        i = i + 1;
    }
}

/// Builds the `n`-fold repetition of `s`.
fn repeat_string(s: &String, n: usize) -> (r: String)
    ensures
        r@ == repeat_chars(s@, n as nat),
{
    let mut r = String::new();
    let mut k: usize = 0;
    while k < n
        invariant
            k <= n,
            r@ == repeat_chars(s@, k as nat),
        decreases n - k,
    {
        r.append(s.as_str());
        k = k + 1;
    }
    r
}

/// Evaluates binary operator `op` on `lhs` and `rhs`.
pub fn eval_binary(op: u8, lhs: Value, rhs: Value) -> (res: Result<Value, RuntimeError>)
    ensures
        match binop_outcome(op, lhs, rhs) {
            BinOutcome::Val(v) => res matches Ok(rv) && rv == v,
            BinOutcome::Txt(s) => res matches Ok(rv) && (rv matches Value::Str(x) && x@ == s),
            BinOutcome::Unimpl => res matches Err(e) && e matches RuntimeError::Unimplemented,
        },
        res matches Ok(rv) ==> match rv {
            Value::Object(_) => false,
            Value::Array(_) => false,
            Value::Function(_) => false,
            _ => true,
        },
{
    if op == bytecode::ADD {
        match (lhs, rhs) {
            (Value::Number(a), Value::Number(b)) => Ok(Value::Number(a.add(b))),
            (Value::Bool(false), Value::Number(x)) => Ok(Value::Number(x)),
            (Value::Number(x), Value::Bool(false)) => Ok(Value::Number(x)),
            (Value::Bool(true), Value::Number(x)) => Ok(Value::Number(x.add(Number::Int(1)))),
            (Value::Number(x), Value::Bool(true)) => Ok(Value::Number(x.add(Number::Int(1)))),
            (Value::Undefined, _) => Ok(Value::Number(Number::Nan)),
            (_, Value::Undefined) => Ok(Value::Number(Number::Nan)),
            (l, r) => {
                let mut s = l.to_string();
                let t = r.to_string();
                s.append(t.as_str());
                Ok(Value::Str(s))
            },
        }
    } else if op == bytecode::MUL {
        match (lhs, rhs) {
            (Value::Number(a), Value::Number(b)) => Ok(Value::Number(a.mul(b))),
            (Value::Str(s), Value::Number(n)) => {
                let count: usize = match n {
                    Number::Int(k) => if k <= 0 {
                        0
                    } else {
                        #[verifier::truncate]
                        let kk = k as usize;
                        kk
                    },
                    Number::Nan => 0,
                };
                Ok(Value::Str(repeat_string(&s, count)))
            },
            _ => Err(RuntimeError::Unimplemented),
        }
    } else if op == bytecode::SUB || op == bytecode::DIV || op == bytecode::REM {
        match (lhs, rhs) {
            (Value::Number(a), Value::Number(b)) => {
                if op == bytecode::SUB {
                    Ok(Value::Number(a.sub(b)))
                } else if op == bytecode::DIV {
                    Ok(Value::Number(a.div(b)))
                } else {
                    Ok(Value::Number(a.rem(b)))
                }
            },
            _ => Err(RuntimeError::Unimplemented),
        }
    } else if op == bytecode::LT || op == bytecode::GT || op == bytecode::LE || op
        == bytecode::GE {
        match (lhs, rhs) {
            (Value::Number(a), Value::Number(b)) => {
                if op == bytecode::LT {
                    Ok(Value::Bool(a.lt(b)))
                } else if op == bytecode::GT {
                    Ok(Value::Bool(a.gt(b)))
                } else if op == bytecode::LE {
                    Ok(Value::Bool(a.le(b)))
                } else {
                    Ok(Value::Bool(a.ge(b)))
                }
            },
            (Value::Str(a), Value::Str(b)) => {
                if op == bytecode::LT {
                    Ok(Value::Bool(str_bytes_lt(a.as_str(), b.as_str())))
                } else if op == bytecode::GT {
                    Ok(Value::Bool(str_bytes_lt(b.as_str(), a.as_str())))
                } else if op == bytecode::LE {
                    Ok(Value::Bool(!str_bytes_lt(b.as_str(), a.as_str())))
                } else {
                    Ok(Value::Bool(!str_bytes_lt(a.as_str(), b.as_str())))
                }
            },
            _ => Err(RuntimeError::Unimplemented),
        }
    } else if op == bytecode::EQ || op == bytecode::NE || op == bytecode::SEQ || op
        == bytecode::SNE {
        match (lhs, rhs) {
            (Value::Null, Value::Null) => {
                if op == bytecode::NE {
                    Ok(Value::Bool(false))
                } else if op == bytecode::SEQ {
                    Ok(Value::Bool(true))
                } else {
                    Err(RuntimeError::Unimplemented)
                }
            },
            (Value::Undefined, Value::Undefined) => {
                if op == bytecode::NE {
                    Ok(Value::Bool(false))
                } else if op == bytecode::SEQ {
                    Ok(Value::Bool(true))
                } else {
                    Err(RuntimeError::Unimplemented)
                }
            },
            (Value::Number(a), Value::Number(b)) => {
                if op == bytecode::EQ || op == bytecode::SEQ {
                    Ok(Value::Bool(a.eq_num(b)))
                } else {
                    Ok(Value::Bool(!a.eq_num(b)))
                }
            },
            (Value::Str(a), Value::Str(b)) => {
                if op == bytecode::EQ || op == bytecode::SEQ {
                    Ok(Value::Bool(a.eq(&b)))
                } else {
                    Ok(Value::Bool(!a.eq(&b)))
                }
            },
            _ => Err(RuntimeError::Unimplemented),
        }
    } else if op == bytecode::AND || op == bytecode::OR || op == bytecode::XOR || op
        == bytecode::SHL || op == bytecode::SHR || op == bytecode::ZFSHR {
        match (lhs, rhs) {
            (Value::Number(a), Value::Number(b)) => {
                if op == bytecode::AND {
                    Ok(Value::Number(Number::Int((a.to_i32() & b.to_i32()) as i64)))
                } else if op == bytecode::OR {
                    Ok(Value::Number(Number::Int((a.to_i32() | b.to_i32()) as i64)))
                } else if op == bytecode::XOR {
                    Ok(Value::Number(Number::Int((a.to_i32() ^ b.to_i32()) as i64)))
                } else if op == bytecode::SHL {
                    Ok(Value::Number(Number::Int((a.to_i32() << (b.to_u32() % 32)) as i64)))
                } else if op == bytecode::SHR {
                    Ok(Value::Number(Number::Int((a.to_i32() >> (b.to_u32() % 32)) as i64)))
                } else {
                    Ok(Value::Number(Number::Int((a.to_u32() >> (b.to_u32() % 32)) as i64)))
                }
            },
            _ => Err(RuntimeError::Unimplemented),
        }
    } else {
        Err(RuntimeError::Unimplemented)
    }
}

} // verus!
