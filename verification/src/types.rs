//! The closed type system of the dialogue language, and its runtime values.

use vstd::prelude::*;

verus! {

/// The type of a plain value: one that a variable can hold or that the
/// operand stack can carry. Functions are not plain values in this
/// language, so a function's parameters and result always have one of
/// these types.
///
/// `Unresolved` stands for a type that is not yet known, such as that of
/// an implicitly declared variable before its first typed use; it must not
/// remain after a successful semantic analysis.
#[derive(Debug, Clone, Copy, PartialEq, Eq, Structural)]
pub enum SimpleType {
    /// A string of text.
    String,

    /// An integer number.
    Number,

    /// A true or false value.
    Boolean,

    /// A type that has not been resolved yet.
    Unresolved,
}

/// The declared signature of a callable function: the types its parameters
/// must have, and the type of the value it returns.
#[derive(Debug, Clone)]
pub struct FunctionSignature {
    /// The types of the parameters, in declaration order.
    pub parameters: Vec<SimpleType>,

    /// The type of the returned value.
    pub return_type: SimpleType,
}

/// The closed set of types the language knows: the plain value types, a
/// function type carrying its signature, and the unresolved placeholder.
#[derive(Debug, Clone)]
pub enum Type {
    /// A string of text.
    String,

    /// An integer number.
    Number,

    /// A true or false value.
    Boolean,

    /// A callable function with the given signature.
    Function(FunctionSignature),

    /// A type that has not been resolved yet.
    Unresolved,
}

/// Holds when two types are the same type: the same variant, and for
/// function types the same signature, parameter for parameter.
pub open spec fn type_eq(a: Type, b: Type) -> bool {
    match (a, b) {
        (Type::String, Type::String) => true,
        (Type::Number, Type::Number) => true,
        (Type::Boolean, Type::Boolean) => true,
        (Type::Unresolved, Type::Unresolved) => true,
        (Type::Function(f), Type::Function(g)) => {
            f.parameters@ == g.parameters@ && f.return_type == g.return_type
        },
        _ => false,
    }
}

impl Type {
    /// Returns `true` when `self` and `other` are the same type.
    pub fn same_type_as(&self, other: &Type) -> (r: bool)
        ensures
            r == type_eq(*self, *other),
    {
        match self {
            Type::String => matches!(other, Type::String),
            Type::Number => matches!(other, Type::Number),
            Type::Boolean => matches!(other, Type::Boolean),
            Type::Unresolved => matches!(other, Type::Unresolved),
            Type::Function(f) => match other {
                Type::Function(g) => {
                    if f.parameters.len() != g.parameters.len() || f.return_type != g.return_type {
                        return false;
                    }
                    let mut i: usize = 0;
                    while i < f.parameters.len()
                        invariant
                            0 <= i <= f.parameters@.len(),
                            f.parameters@.len() == g.parameters@.len(),
                            *self == Type::Function(*f),
                            *other == Type::Function(*g),
                            forall|j: int| 0 <= j < i ==> f.parameters@[j] == g.parameters@[j],
                        decreases f.parameters@.len() - i,
                    {
                        if f.parameters[i] != g.parameters[i] {
                            proof {
                                assert(f.parameters@[i as int] != g.parameters@[i as int]);
                                assert(f.parameters@ != g.parameters@);
                            }
                            return false;
                        }
                        i = i + 1;
                    }
                    proof {
                        assert(f.parameters@ =~= g.parameters@);
                    }
                    true
                },
                _ => false,
            },
        }
    }

    /// Returns the plain value type this type stands for, or `Unresolved`
    /// for a function type, which is not a plain value type.
    pub fn as_simple_type(&self) -> (r: SimpleType)
        ensures
            r == self.simple_type(),
    {
        match self {
            Type::String => SimpleType::String,
            Type::Number => SimpleType::Number,
            Type::Boolean => SimpleType::Boolean,
            Type::Function(_) => SimpleType::Unresolved,
            Type::Unresolved => SimpleType::Unresolved,
        }
    }

    /// The plain value type this type stands for; a function type stands
    /// for no plain value type and yields `Unresolved`.
    pub open spec fn simple_type(&self) -> SimpleType {
        match self {
            Type::String => SimpleType::String,
            Type::Number => SimpleType::Number,
            Type::Boolean => SimpleType::Boolean,
            Type::Function(_) => SimpleType::Unresolved,
            Type::Unresolved => SimpleType::Unresolved,
        }
    }
}

impl SimpleType {
    /// Returns the same type as a member of the full type set.
    pub fn as_type(&self) -> (r: Type)
        ensures
            r == self.full_type(),
    {
        match self {
            SimpleType::String => Type::String,
            SimpleType::Number => Type::Number,
            SimpleType::Boolean => Type::Boolean,
            SimpleType::Unresolved => Type::Unresolved,
        }
    }

    /// The same type as a member of the full type set.
    pub open spec fn full_type(&self) -> Type {
        match self {
            SimpleType::String => Type::String,
            SimpleType::Number => Type::Number,
            SimpleType::Boolean => Type::Boolean,
            SimpleType::Unresolved => Type::Unresolved,
        }
    }
}

/// A tagged runtime value of the dialogue language. Its discriminant always
/// matches one of the plain value types.
#[derive(Debug, PartialEq)]
pub enum Value {
    /// A string of text.
    String(String),

    /// An integer number.
    Number(i64),

    /// A true or false value.
    Boolean(bool),
}

impl Clone for Value {
    /// Returns a copy of the value.
    fn clone(&self) -> (r: Self)
        ensures
            r == *self,
    {
        match self {
            Value::String(s) => Value::String(s.clone()),
            Value::Number(n) => Value::Number(*n),
            Value::Boolean(b) => Value::Boolean(*b),
        }
    }
}

/// Holds when two values are the same value: the same variant carrying
/// the same content.
pub open spec fn value_eq(a: Value, b: Value) -> bool {
    match (a, b) {
        (Value::String(x), Value::String(y)) => x@ == y@,
        (Value::Number(x), Value::Number(y)) => x == y,
        (Value::Boolean(x), Value::Boolean(y)) => x == y,
        _ => false,
    }
}

impl Value {
    /// Returns `true` when `self` and `other` are the same value.
    pub fn same_value_as(&self, other: &Value) -> (r: bool)
        ensures
            r == value_eq(*self, *other),
    {
        match self {
            Value::String(x) => match other {
                Value::String(y) => *x == *y,
                _ => false,
            },
            Value::Number(x) => match other {
                Value::Number(y) => *x == *y,
                _ => false,
            },
            Value::Boolean(x) => match other {
                Value::Boolean(y) => *x == *y,
                _ => false,
            },
        }
    }

    /// Returns the plain value type that this value's discriminant matches.
    pub fn value_type(&self) -> (r: SimpleType)
        ensures
            r == self.type_of(),
    {
        match self {
            Value::String(_) => SimpleType::String,
            Value::Number(_) => SimpleType::Number,
            Value::Boolean(_) => SimpleType::Boolean,
        }
    }

    /// The plain value type that this value's discriminant matches.
    pub open spec fn type_of(&self) -> SimpleType {
        match self {
            Value::String(_) => SimpleType::String,
            Value::Number(_) => SimpleType::Number,
            Value::Boolean(_) => SimpleType::Boolean,
        }
    }
}

} // verus!
