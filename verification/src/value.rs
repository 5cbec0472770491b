//! The tagged value model.
//!
//! A value is a tagged union. Primitives (booleans, numbers, strings) are
//! carried inline; every non-primitive is a handle into the machine's heap:
//! ordinary objects into the property-map arena, arrays into the array arena,
//! and functions — user functions and built-in functions alike — into the
//! function arena. `Empty` is the sentinel for unwritten array slots and is
//! distinct from `Undefined`; `Arguments` is a marker whose operations
//! resolve against the current activation.

use vstd::prelude::*;

use crate::number::{num_str, parse_num, Number};

verus! {

/// A tagged value of the scripting language.
#[derive(Debug)]
pub enum Value {
    Empty,
    Undefined,
    Null,
    Bool(bool),
    Number(Number),
    Str(String),
    Object(usize),
    Array(usize),
    Function(usize),
    Symbol(usize),
    Arguments,
}

impl Clone for Value {
    /// Cloning a value keeps it exactly; handles stay aliased.
    fn clone(&self) -> (r: Self)
        ensures
            r == *self,
    {
        match self {
            Value::Empty => Value::Empty,
            Value::Undefined => Value::Undefined,
            Value::Null => Value::Null,
            Value::Bool(b) => Value::Bool(*b),
            Value::Number(n) => Value::Number(*n),
            Value::Str(s) => Value::Str(s.clone()),
            Value::Object(h) => Value::Object(*h),
            Value::Array(h) => Value::Array(*h),
            Value::Function(h) => Value::Function(*h),
            Value::Symbol(s) => Value::Symbol(*s),
            Value::Arguments => Value::Arguments,
        }
    }
}

/// What boolean coercion returns: false for `Empty`, `Undefined`, `Null`,
/// `false`, zero and `Nan` numbers, and the empty string; true otherwise.
pub open spec fn to_boolean_spec(v: Value) -> bool {
    match v {
        Value::Empty => false,
        Value::Undefined => false,
        Value::Null => false,
        Value::Bool(b) => b,
        Value::Number(n) => match n {
            Number::Int(i) => i != 0,
            Number::Nan => false,
        },
        Value::Str(s) => s@.len() > 0,
        Value::Object(_) => true,
        Value::Array(_) => true,
        Value::Function(_) => true,
        Value::Symbol(_) => true,
        Value::Arguments => true,
    }
}

/// What numeric coercion returns: `Empty` and `Undefined` give `Nan`, `Null`
/// gives zero, booleans give zero or one, strings parse, and heap values
/// give `Nan`.
pub open spec fn to_number_spec(v: Value) -> Number {
    match v {
        Value::Empty => Number::Nan,
        Value::Undefined => Number::Nan,
        Value::Null => Number::Int(0),
        Value::Bool(b) => if b {
            Number::Int(1)
        } else {
            Number::Int(0)
        },
        Value::Number(n) => n,
        Value::Str(s) => parse_num(s@),
        Value::Object(_) => Number::Nan,
        Value::Array(_) => Number::Nan,
        Value::Function(_) => Number::Nan,
        Value::Symbol(_) => Number::Nan,
        Value::Arguments => Number::Nan,
    }
}

/// What string coercion returns. `Empty` reads as `Undefined` does; heap
/// values give a fixed bracketed form, since the core does not consult
/// user-defined conversion methods.
pub open spec fn str_of_value(v: Value) -> Seq<char> {
    match v {
        Value::Empty => "undefined"@,
        Value::Undefined => "undefined"@,
        Value::Null => "null"@,
        Value::Bool(b) => if b {
            "true"@
        } else {
            "false"@
        },
        Value::Number(n) => num_str(n),
        Value::Str(s) => s@,
        Value::Object(_) => "[object Object]"@,
        Value::Array(_) => "[object Array]"@,
        Value::Function(_) => "[Function]"@,
        Value::Symbol(_) => "Symbol()"@,
        Value::Arguments => "[object Arguments]"@,
    }
}

impl Value {
    /// Boolean coercion.
    pub fn to_boolean(&self) -> (r: bool)
        ensures
            r == to_boolean_spec(*self),
    {
        match self {
            Value::Empty => false,
            Value::Undefined => false,
            Value::Null => false,
            Value::Bool(b) => *b,
            Value::Number(n) => match n {
                Number::Int(i) => *i != 0,
                Number::Nan => false,
            },
            Value::Str(s) => !s.as_str().is_empty(),
            Value::Object(_) => true,
            Value::Array(_) => true,
            Value::Function(_) => true,
            Value::Symbol(_) => true,
            Value::Arguments => true,
        }
    }

    /// Numeric coercion.
    pub fn to_number(&self) -> (r: Number)
        ensures
            r == to_number_spec(*self),
    {
        match self {
            Value::Empty => Number::Nan,
            Value::Undefined => Number::Nan,
            Value::Null => Number::Int(0),
            Value::Bool(b) => if *b {
                Number::Int(1)
            } else {
                Number::Int(0)
            },
            Value::Number(n) => *n,
            Value::Str(s) => crate::number::str_to_number(s.as_str()),
            Value::Object(_) => Number::Nan,
            Value::Array(_) => Number::Nan,
            Value::Function(_) => Number::Nan,
            Value::Symbol(_) => Number::Nan,
            Value::Arguments => Number::Nan,
        }
    }

    /// String coercion.
    pub fn to_string(self) -> (r: String)
        ensures
            r@ == str_of_value(self),
    {
        match self {
            Value::Empty => String::from_str("undefined"),
            Value::Undefined => String::from_str("undefined"),
            Value::Null => String::from_str("null"),
            Value::Bool(b) => if b {
                String::from_str("true")
            } else {
                String::from_str("false")
            },
            Value::Number(n) => crate::number::num_to_string(n),
            Value::Str(s) => s,
            Value::Object(_) => String::from_str("[object Object]"),
            Value::Array(_) => String::from_str("[object Array]"),
            Value::Function(_) => String::from_str("[Function]"),
            Value::Symbol(_) => String::from_str("Symbol()"),
            Value::Arguments => String::from_str("[object Arguments]"),
        }
    }

}

/// The length of a character sequence counted in 16-bit code units: two for
/// a character beyond the basic planes, one otherwise.
pub open spec fn utf16_len(s: Seq<char>) -> int
    decreases s.len(),
{
    if s.len() == 0 {
        0
    } else {
        utf16_len(s.drop_last()) + (if s.last() as u32 >= 0x10000 {
            2int
        } else {
            1int
        })
    }
}

/// The length of `s` counted in 16-bit code units.
pub fn utf16_length(s: &str) -> (r: u128)
    ensures
        r as int == utf16_len(s@),
{
    let n = s.unicode_len();
    let mut acc: u128 = 0;
    let mut i: usize = 0;
    while i < n
        invariant
            i <= n,
            n == s@.len(),
            acc as int == utf16_len(s@.take(i as int)),
            acc <= 2 * i,
        decreases n - i,
    {
        let c = s.get_char(i);
        let w: u128 = if (c as u32) >= 0x10000 {
            2
        } else {
            1
        };
        proof {
            assert(s@.take(i + 1).drop_last() =~= s@.take(i as int));
            assert(s@.take(i + 1).last() == s@[i as int]);
        }
        acc = acc + w;
        i = i + 1;
    }
    proof {
        assert(s@.take(n as int) =~= s@);
    }
    acc
}

/// Relies on `char`'s `ToString` implementation from std: the returned
/// string holds exactly this one character.
#[verifier::external_body]
pub(crate) fn char_to_string(c: char) -> (r: String)
    ensures
        r@ == seq![c],
{
    c.to_string()
}

/// A property descriptor: a data slot, or an accessor pair. The accessor's
/// `get` and `set` are `Undefined` or callable; the core records them but
/// does not invoke them.
#[derive(Debug)]
pub enum Property {
    Data { value: Value, writable: bool, enumerable: bool, configurable: bool },
    Accessor { get: Value, set: Value, enumerable: bool, configurable: bool },
}

impl Clone for Property {
    /// Cloning a property descriptor keeps it exactly.
    fn clone(&self) -> (r: Self)
        ensures
            r == *self,
    {
        match self {
            Property::Data { value, writable, enumerable, configurable } => Property::Data {
                value: value.clone(),
                writable: *writable,
                enumerable: *enumerable,
                configurable: *configurable,
            },
            Property::Accessor { get, set, enumerable, configurable } => Property::Accessor {
                get: get.clone(),
                set: set.clone(),
                enumerable: *enumerable,
                configurable: *configurable,
            },
        }
    }
}

/// The value a plain read of a property descriptor yields: the data value,
/// or `Undefined` for an accessor, which the core does not invoke.
pub open spec fn prop_read(p: Property) -> Value {
    match p {
        Property::Data { value, .. } => value,
        Property::Accessor { .. } => Value::Undefined,
    }
}

impl Property {
    /// A writable, enumerable, configurable data property holding `val`.
    pub fn new(val: Value) -> (r: Property)
        ensures
            r == (Property::Data {
                value: val,
                writable: true,
                enumerable: true,
                configurable: true,
            }),
    {
        Property::Data { value: val, writable: true, enumerable: true, configurable: true }
    }

    /// The value a plain read yields.
    pub fn read(&self) -> (r: Value)
        ensures
            r == prop_read(*self),
    {
        match self {
            Property::Data { value, .. } => value.clone(),
            Property::Accessor { .. } => Value::Undefined,
        }
    }
}

} // verus!
