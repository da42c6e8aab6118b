use vstd::prelude::*;

use crate::function::{same_fun, Function};

verus! {

/// A runtime value. A number is carried as the 64 bits of an IEEE-754
/// double; the interpreter never looks inside the bits and hands every
/// operation on them to the host (see `LoxHost`).
pub enum Object {
    Null,
    Boolean(bool),
    Number(u64),
    Str(String),
    Callable(Function),
}

/// Equality of runtime values as carriers: a callable equals a callable
/// with the same structure, every other pair by plain value equality.
/// This is what cloning preserves; it is not the language's `==`.
pub open spec fn same_object(a: Object, b: Object) -> bool {
    match (a, b) {
        (Object::Callable(f), Object::Callable(g)) => same_fun(f, g),
        _ => a == b,
    }
}

/// Truthiness: `nil` and `false` are falsy, every other value is truthy,
/// the number zero and the empty string included.
pub open spec fn spec_truthy(o: Object) -> bool {
    match o {
        Object::Null => false,
        Object::Boolean(value) => value,
        _ => true,
    }
}

/// Language-level equality for every pair that is not two numbers: values
/// of different kinds are never equal, `nil` equals only `nil`, booleans
/// and strings compare by their contents, and callables are never equal.
/// Two numbers compare by the host's double equality, so they have no
/// place here.
pub open spec fn spec_eq_non_number(a: Object, b: Object) -> bool {
    match (a, b) {
        (Object::Null, Object::Null) => true,
        (Object::Boolean(x), Object::Boolean(y)) => x == y,
        (Object::Str(x), Object::Str(y)) => x@ == y@,
        _ => false,
    }
}

/// A value fits an arena of `n` scopes when any closure it carries
/// points into the arena; only a user function carries one. Since the
/// arena only grows, a value valid once stays valid for the whole run.
pub open spec fn obj_valid(o: Object, n: int) -> bool {
    match o {
        Object::Callable(Function::User { closure, .. }) => closure < n,
        _ => true,
    }
}

/// Cloning preserves validity: the carriers agree on the closure index.
pub proof fn lemma_same_object_valid(a: Object, b: Object, n: int)
    requires
        same_object(a, b),
        obj_valid(b, n),
    ensures
        obj_valid(a, n),
{
}

/// Whether two values are of the same kind: both nil, both booleans,
/// both numbers, both strings, or both callables.
pub open spec fn same_kind(a: Object, b: Object) -> bool {
    match (a, b) {
        (Object::Null, Object::Null) => true,
        (Object::Boolean(_), Object::Boolean(_)) => true,
        (Object::Number(_), Object::Number(_)) => true,
        (Object::Str(_), Object::Str(_)) => true,
        (Object::Callable(_), Object::Callable(_)) => true,
        _ => false,
    }
}

/// Equality never crosses kinds: `nil` equals only `nil`, no value of
/// one kind ever equals a value of another — a number never equals the
/// string spelling it — and two callables are never equal at all.
pub proof fn lemma_cross_kind_never_equal(a: Object, b: Object)
    ensures
        spec_eq_non_number(Object::Null, Object::Null),
        !same_kind(a, b) ==> !spec_eq_non_number(a, b),
        forall|f: crate::function::Function, g: crate::function::Function|
            !(#[trigger] spec_eq_non_number(Object::Callable(f), Object::Callable(g))),
{
}

/// Truthiness: exactly `nil` and `false` are falsy; `true`, every
/// number (zero included), every string (the empty one included) and
/// every callable are truthy.
pub proof fn lemma_truthiness(a: Object)
    ensures
        !spec_truthy(Object::Null),
        !spec_truthy(Object::Boolean(false)),
        spec_truthy(Object::Boolean(true)),
        a is Number ==> spec_truthy(a),
        a is Str ==> spec_truthy(a),
        a is Callable ==> spec_truthy(a),
        spec_truthy(a) <==> !(a == Object::Null || a == Object::Boolean(false)),
{
}

impl Object {
    /// The truthiness rule used by conditions, logical operators and `!`.
    pub fn is_truthy(&self) -> (r: bool)
        ensures
            r == spec_truthy(*self),
    {
        match self {
            Object::Null => false,
            Object::Boolean(value) => *value,
            _ => true,
        }
    }
}

impl Clone for Object {
    fn clone(&self) -> (r: Self)
        ensures
            same_object(r, *self),
    {
        match self {
            Object::Null => Object::Null,
            Object::Boolean(value) => Object::Boolean(*value),
            Object::Number(bits) => Object::Number(*bits),
            Object::Str(s) => Object::Str(s.clone()),
            Object::Callable(f) => Object::Callable(f.clone()),
        }
    }
}

} // verus!
