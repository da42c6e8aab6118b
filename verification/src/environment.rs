use vstd::prelude::*;

use crate::error::RuntimeError;
use crate::object::{same_object, Object};
use crate::scanner::str_eq;
use crate::token::Token;

verus! {

broadcast use vstd::std_specs::vec::group_vec_axioms;

/// One scope: name/value pairs in binding order — a later pair shadows an
/// earlier one with the same name — and the index of the enclosing scope.
pub struct Scope {
    pub values: Vec<(String, Object)>,
    pub enclosing: Option<usize>,
}

/// The scope arena. Scope 0 is the global scope; every other scope points
/// to a scope created before it, so the enclosing chains are acyclic.
/// Scopes are never removed: a closure may keep any of them reachable for
/// the rest of the run.
pub struct Environment {
    pub scopes: Vec<Scope>,
}

/// The value bound to `name` in one scope: the latest binding wins.
pub open spec fn scope_get(values: Seq<(String, Object)>, name: Seq<char>) -> Option<Object>
    decreases values.len(),
{
    if values.len() == 0 {
        None
    } else if values.last().0@ == name {
        Some(values.last().1)
    } else {
        scope_get(values.drop_last(), name)
    }
}

/// Finds the latest binding of `name` in one scope's binding list.
fn scope_find(values: &Vec<(String, Object)>, name: &String) -> (r: Option<usize>)
    ensures
        match r {
            Some(i) => i < values@.len() && values@[i as int].0@ == name@ && scope_get(
                values@,
                name@,
            ) == Some(values@[i as int].1),
            None => scope_get(values@, name@) is None,
        },
{
    let mut i = values.len();
    proof {
        assert(values@.subrange(0, i as int) =~= values@);
    }
    while i > 0
        invariant
            i <= values@.len(),
            scope_get(values@, name@) == scope_get(values@.subrange(0, i as int), name@),
        decreases i,
    {
        proof {
            assert(values@.subrange(0, i as int).drop_last() =~= values@.subrange(0, i - 1));
        }
        i = i - 1;
        if str_eq(values[i].0.as_str(), name.as_str()) {
            return Some(i);
        }
    }
    None
}

/// Appends one element in place, leaving the rest of the vector as it was.
fn vec_index_mut<T>(v: &mut Vec<T>, i: usize) -> (element: &mut T)
    requires
        i < old(v)@.len(),
    ensures
        *element == old(v)@[i as int],
        final(v)@ == old(v)@.update(i as int, *final(element)),
{
    &mut v[i]
}

/// The runtime error for a name with no binding anywhere on the chain.
fn undefined_variable(name: &Token) -> (r: RuntimeError)
    ensures
        r.token == *name,
        r.message@ == "Undefined variable '"@ + name.lexeme@ + "'."@,
{
    let mut message = String::from_str("Undefined variable '");
    message.append(name.lexeme.as_str());
    message.append("'.");
    RuntimeError { token: name.clone(), message }
}

impl Environment {
    pub open spec fn wf(&self) -> bool {
        &&& 1 <= self.scopes@.len() <= usize::MAX
        &&& forall|i: int|
            0 <= i < self.scopes@.len() ==> match (#[trigger] self.scopes@[i]).enclosing {
                Some(j) => j < i,
                None => true,
            }
    }

    /// The value `name` denotes when looked up from `scope` outward.
    pub open spec fn lookup(&self, scope: int, name: Seq<char>) -> Option<Object>
        decreases scope,
        when 0 <= scope < self.scopes@.len() && self.wf()
    {
        match scope_get(self.scopes@[scope].values@, name) {
            Some(v) => Some(v),
            None => match self.scopes@[scope].enclosing {
                Some(j) => self.lookup(j as int, name),
                None => None,
            },
        }
    }

    /// The nearest scope on the chain from `scope` outward that binds
    /// `name`, if any; assignment writes there.
    pub open spec fn resolve(&self, scope: int, name: Seq<char>) -> Option<int>
        decreases scope,
        when 0 <= scope < self.scopes@.len() && self.wf()
    {
        if scope_get(self.scopes@[scope].values@, name) is Some {
            Some(scope)
        } else {
            match self.scopes@[scope].enclosing {
                Some(j) => self.resolve(j as int, name),
                None => None,
            }
        }
    }

    pub fn new() -> (r: Self)
        ensures
            r.wf(),
            r.scopes@.len() == 1,
            r.scopes@[0].values@ == Seq::<(String, Object)>::empty(),
            r.scopes@[0].enclosing is None,
    {
        let mut scopes: Vec<Scope> = Vec::new();
        scopes.push(Scope { values: Vec::new(), enclosing: None });
        Environment { scopes }
    }

    /// Opens a fresh, empty scope whose enclosing scope is `enclosing`,
    /// and hands back its index.
    pub fn new_scope(&mut self, enclosing: usize) -> (s: usize)
        requires
            old(self).wf(),
            enclosing < old(self).scopes@.len(),
        ensures
            final(self).wf(),
            s == old(self).scopes@.len(),
            final(self).scopes@.len() == old(self).scopes@.len() + 1,
            final(self).scopes@.subrange(0, old(self).scopes@.len() as int) == old(self).scopes@,
            final(self).scopes@.last().values@ == Seq::<(String, Object)>::empty(),
            final(self).scopes@.last().enclosing == Some(enclosing),
    {
        let s = self.scopes.len();
        self.scopes.push(Scope { values: Vec::new(), enclosing: Some(enclosing) });
        let _bound = self.scopes.len();
        proof {
            assert(self.scopes@.subrange(0, old(self).scopes@.len() as int) =~= old(self).scopes@);
        }
        s
    }

    /// Binds `name` to `value` in exactly the scope `scope`, shadowing any
    /// earlier binding of the name there.
    pub fn define(&mut self, scope: usize, name: &str, value: Object)
        requires
            old(self).wf(),
            scope < old(self).scopes@.len(),
        ensures
            final(self).wf(),
            final(self).scopes@.len() == old(self).scopes@.len(),
            forall|i: int|
                0 <= i < old(self).scopes@.len() && i != scope ==> final(self).scopes@[i] == old(
                    self,
                ).scopes@[i],
            final(self).scopes@[scope as int].enclosing == old(
                self,
            ).scopes@[scope as int].enclosing,
            final(self).scopes@[scope as int].values@.len() == old(
                self,
            ).scopes@[scope as int].values@.len() + 1,
            final(self).scopes@[scope as int].values@.drop_last() == old(
                self,
            ).scopes@[scope as int].values@,
            final(self).scopes@[scope as int].values@.last().0@ == name@,
            final(self).scopes@[scope as int].values@.last().1 == value,
            scope_get(final(self).scopes@[scope as int].values@, name@) == Some(value),
    {
        let entry = (String::from_str(name), value);
        let sc = vec_index_mut(&mut self.scopes, scope);
        sc.values.push(entry);
        proof {
            assert(self.scopes@[scope as int].values@.drop_last() =~= old(
                self,
            ).scopes@[scope as int].values@);
        }
    }

    /// Reads the value `name` denotes from `scope` outward; an unbound
    /// name is the `Undefined variable` runtime error at its token.
    pub fn get(&self, scope: usize, name: &Token) -> (r: Result<Object, RuntimeError>)
        requires
            self.wf(),
            scope < self.scopes@.len(),
        ensures
            match r {
                Ok(v) => self.lookup(scope as int, name.lexeme@) matches Some(w) && same_object(
                    v,
                    w,
                ),
                Err(e) => {
                    &&& self.lookup(scope as int, name.lexeme@) is None
                    &&& e.token == *name
                    &&& e.message@ == "Undefined variable '"@ + name.lexeme@ + "'."@
                },
            },
    {
        let mut s = scope;
        loop
            invariant
                self.wf(),
                s < self.scopes@.len(),
                self.lookup(scope as int, name.lexeme@) == self.lookup(s as int, name.lexeme@),
            decreases s,
        {
            match scope_find(&self.scopes[s].values, &name.lexeme) {
                Some(i) => {
                    return Ok(self.scopes[s].values[i].1.clone());
                },
                None => {
                    match self.scopes[s].enclosing {
                        Some(j) => {
                            s = j;
                        },
                        None => {
                            return Err(undefined_variable(name));
                        },
                    }
                },
            }
        }
    }

    /// Rebinds `name` in the nearest scope that already binds it; a name
    /// bound nowhere on the chain is the `Undefined variable` error, and
    /// assignment never creates a binding in a new scope. The store is
    /// append-only: a rebinding appends a shadowing pair rather than
    /// overwriting, which costs a pair per assignment but keeps every
    /// earlier binding in place — the stability that the interpreter's
    /// frame condition and the call-binding contracts rest on.
    pub fn assign(&mut self, scope: usize, name: &Token, value: &Object) -> (r: Result<
        (),
        RuntimeError,
    >)
        requires
            old(self).wf(),
            scope < old(self).scopes@.len(),
        ensures
            final(self).wf(),
            final(self).scopes@.len() == old(self).scopes@.len(),
            match r {
                Ok(()) => {
                    &&& old(self).resolve(scope as int, name.lexeme@) matches Some(s)
                    &&& {
                        let t = old(self).resolve(scope as int, name.lexeme@)->0;
                        &&& forall|i: int|
                            0 <= i < old(self).scopes@.len() && i != t ==> final(self).scopes@[i]
                                == old(self).scopes@[i]
                        &&& final(self).scopes@[t].enclosing == old(self).scopes@[t].enclosing
                        &&& final(self).scopes@[t].values@.len() == old(
                            self,
                        ).scopes@[t].values@.len() + 1
                        &&& final(self).scopes@[t].values@.drop_last() == old(
                            self,
                        ).scopes@[t].values@
                        &&& final(self).scopes@[t].values@.last().0@ == name.lexeme@
                        &&& same_object(final(self).scopes@[t].values@.last().1, *value)
                    }
                },
                Err(e) => {
                    &&& old(self).resolve(scope as int, name.lexeme@) is None
                    &&& *final(self) == *old(self)
                    &&& e.token == *name
                    &&& e.message@ == "Undefined variable '"@ + name.lexeme@ + "'."@
                },
            },
    {
        let target = self.resolve_scope(scope, name);
        match target {
            Some(t) => {
                let entry = (name.lexeme.clone(), value.clone());
                let sc = vec_index_mut(&mut self.scopes, t);
                sc.values.push(entry);
                proof {
                    assert(self.scopes@[t as int].values@.drop_last() =~= old(
                        self,
                    ).scopes@[t as int].values@);
                }
                Ok(())
            },
            None => Err(undefined_variable(name)),
        }
    }

    /// The scopes a lookup from `s` walks: `s` itself and every scope up
    /// its enclosing chain.
    pub open spec fn chain_contains(&self, s: int, t: int) -> bool
        decreases s,
        when 0 <= s < self.scopes@.len() && self.wf()
    {
        s == t || (match self.scopes@[s].enclosing {
            Some(j) => self.chain_contains(j as int, t),
            None => false,
        })
    }

    /// The executable side of `resolve`.
    fn resolve_scope(&self, scope: usize, name: &Token) -> (r: Option<usize>)
        requires
            self.wf(),
            scope < self.scopes@.len(),
        ensures
            match r {
                Some(t) => self.resolve(scope as int, name.lexeme@) == Some(t as int) && t
                    < self.scopes@.len(),
                None => self.resolve(scope as int, name.lexeme@) is None,
            },
    {
        let mut s = scope;
        loop
            invariant
                self.wf(),
                s < self.scopes@.len(),
                self.resolve(scope as int, name.lexeme@) == self.resolve(s as int, name.lexeme@),
            decreases s,
        {
            match scope_find(&self.scopes[s].values, &name.lexeme) {
                Some(_) => {
                    return Some(s);
                },
                None => {
                    match self.scopes[s].enclosing {
                        Some(j) => {
                            s = j;
                        },
                        None => {
                            return None;
                        },
                    }
                },
            }
        }
    }
}

/// Whatever one scope hands out is one of the values stored in it.
pub proof fn lemma_scope_get_membership(values: Seq<(String, Object)>, name: Seq<char>)
    ensures
        scope_get(values, name) matches Some(v) ==> exists|j: int|
            0 <= j < values.len() && (#[trigger] values[j]).1 == v,
    decreases values.len(),
{
    if values.len() > 0 {
        if values.last().0@ == name {
            assert(values[values.len() - 1].1 == values.last().1);
        } else {
            lemma_scope_get_membership(values.drop_last(), name);
            if scope_get(values, name) is Some {
                let v = scope_get(values, name)->0;
                let j = choose|j: int|
                    0 <= j < values.drop_last().len() && (#[trigger] values.drop_last()[j]).1 == v;
                assert(values[j].1 == v);
            }
        }
    }
}

/// Whatever a lookup hands out is one of the values stored somewhere in
/// the arena.
pub proof fn lemma_lookup_membership(env: Environment, s: int, name: Seq<char>)
    requires
        env.wf(),
        0 <= s < env.scopes@.len(),
    ensures
        env.lookup(s, name) matches Some(v) ==> exists|i: int, j: int|
            0 <= i < env.scopes@.len() && 0 <= j < env.scopes@[i].values@.len() && (#[trigger] env.scopes@[i].values@[j]).1 == v,
    decreases s,
{
    lemma_scope_get_membership(env.scopes@[s].values@, name);
    if scope_get(env.scopes@[s].values@, name) is Some {
        let v = scope_get(env.scopes@[s].values@, name)->0;
        let j = choose|j: int|
            0 <= j < env.scopes@[s].values@.len() && (#[trigger] env.scopes@[s].values@[j]).1
                == v;
        assert(0 <= s < env.scopes@.len() && 0 <= j < env.scopes@[s].values@.len()
            && env.scopes@[s].values@[j].1 == v);
    } else {
        match env.scopes@[s].enclosing {
            Some(j) => {
                lemma_lookup_membership(env, j as int, name);
            },
            None => {},
        }
    }
}

/// A binding once present never disappears: extending a scope's binding
/// list with further pairs keeps every name it bound still bound.
pub proof fn lemma_scope_get_persists(
    pre: Seq<(String, Object)>,
    post: Seq<(String, Object)>,
    name: Seq<char>,
)
    requires
        pre.len() <= post.len(),
        forall|j: int| 0 <= j < pre.len() ==> post[j] == pre[j],
        scope_get(pre, name) is Some,
    ensures
        scope_get(post, name) is Some,
    decreases post.len(),
{
    if post.len() == pre.len() {
        assert(post =~= pre);
    } else {
        if !(post.last().0@ == name) {
            lemma_scope_get_persists(pre, post.drop_last(), name);
        }
    }
}

/// A name never resolves to a scope outside the arena.
pub proof fn lemma_resolve_in_range(env: Environment, s: int, name: Seq<char>)
    requires
        env.wf(),
        0 <= s < env.scopes@.len(),
    ensures
        env.resolve(s, name) matches Some(t) ==> 0 <= t < env.scopes@.len(),
    decreases s,
{
    if scope_get(env.scopes@[s].values@, name) is None {
        match env.scopes@[s].enclosing {
            Some(j) => {
                lemma_resolve_in_range(env, j as int, name);
            },
            None => {},
        }
    }
}

/// Every scope a chain walks lies at or below its start in the arena;
/// in particular a chain never reaches a scope created later.
pub proof fn lemma_chain_stays_below(env: Environment, s: int, t: int)
    requires
        env.wf(),
        0 <= s < env.scopes@.len(),
        env.chain_contains(s, t),
    ensures
        0 <= t <= s,
    decreases s,
{
    if s != t {
        match env.scopes@[s].enclosing {
            Some(j) => {
                lemma_chain_stays_below(env, j as int, t);
            },
            None => {},
        }
    }
}

/// A change confined to one scope leaves every lookup whose chain does
/// not pass through that scope exactly as it was.
pub proof fn lemma_lookup_off_chain(
    pre: Environment,
    post: Environment,
    s: int,
    target: int,
    name: Seq<char>,
)
    requires
        pre.wf(),
        post.wf(),
        0 <= s < pre.scopes@.len(),
        post.scopes@.len() >= pre.scopes@.len(),
        forall|i: int|
            0 <= i < pre.scopes@.len() && i != target ==> post.scopes@[i] == pre.scopes@[i],
        !pre.chain_contains(s, target),
    ensures
        post.lookup(s, name) == pre.lookup(s, name),
        post.chain_contains(s, target) == pre.chain_contains(s, target),
    decreases s,
{
    match pre.scopes@[s].enclosing {
        Some(j) => {
            lemma_lookup_off_chain(pre, post, j as int, target, name);
        },
        None => {},
    }
}

/// Block-local shadowing does not leak (the scope discipline behind
/// `var x = 1; { var x = 2; } print x;` printing `1`): a binding made in
/// a scope created later than `s` never changes what any name denotes
/// when looked up from `s`.
pub proof fn lemma_shadowing_stays_local(
    pre: Environment,
    post: Environment,
    s: int,
    target: int,
    name: Seq<char>,
)
    requires
        pre.wf(),
        post.wf(),
        0 <= s < target,
        target < post.scopes@.len(),
        s < pre.scopes@.len(),
        post.scopes@.len() >= pre.scopes@.len(),
        forall|i: int|
            0 <= i < pre.scopes@.len() && i != target ==> post.scopes@[i] == pre.scopes@[i],
    ensures
        post.lookup(s, name) == pre.lookup(s, name),
{
    if pre.chain_contains(s, target) {
        lemma_chain_stays_below(pre, s, target);
    } else {
        lemma_lookup_off_chain(pre, post, s, target, name);
    }
}

/// Rebinding a name at the scope a lookup resolves to is seen by that
/// lookup: after the rebinding, the name denotes the new value.
pub proof fn lemma_assignment_updates_lookup(
    pre: Environment,
    post: Environment,
    s: int,
    target: int,
    name: Seq<char>,
    value: Object,
)
    requires
        pre.wf(),
        post.wf(),
        0 <= s < pre.scopes@.len(),
        post.scopes@.len() == pre.scopes@.len(),
        pre.resolve(s, name) == Some(target),
        forall|i: int|
            0 <= i < pre.scopes@.len() && i != target ==> post.scopes@[i] == pre.scopes@[i],
        post.scopes@[target].enclosing == pre.scopes@[target].enclosing,
        post.scopes@[target].values@.len() == pre.scopes@[target].values@.len() + 1,
        post.scopes@[target].values@.drop_last() == pre.scopes@[target].values@,
        post.scopes@[target].values@.last().0@ == name,
        post.scopes@[target].values@.last().1 == value,
    ensures
        post.lookup(s, name) == Some(value),
    decreases s,
{
    lemma_chain_stays_below(pre, s, s);
    if s == target {
        assert(scope_get(post.scopes@[s].values@, name) == Some(value));
    } else {
        assert(scope_get(pre.scopes@[s].values@, name) is None);
        match pre.scopes@[s].enclosing {
            Some(j) => {
                lemma_assignment_updates_lookup(pre, post, j as int, target, name, value);
            },
            None => {},
        }
    }
}

/// Two closures that captured scopes resolving a name to the same spot
/// observe each other's assignments: one assignment there changes what
/// the name denotes for both.
pub proof fn lemma_closures_share_assignment(
    pre: Environment,
    post: Environment,
    a: int,
    b: int,
    target: int,
    name: Seq<char>,
    value: Object,
)
    requires
        pre.wf(),
        post.wf(),
        0 <= a < pre.scopes@.len(),
        0 <= b < pre.scopes@.len(),
        post.scopes@.len() == pre.scopes@.len(),
        pre.resolve(a, name) == Some(target),
        pre.resolve(b, name) == Some(target),
        forall|i: int|
            0 <= i < pre.scopes@.len() && i != target ==> post.scopes@[i] == pre.scopes@[i],
        post.scopes@[target].enclosing == pre.scopes@[target].enclosing,
        post.scopes@[target].values@.len() == pre.scopes@[target].values@.len() + 1,
        post.scopes@[target].values@.drop_last() == pre.scopes@[target].values@,
        post.scopes@[target].values@.last().0@ == name,
        post.scopes@[target].values@.last().1 == value,
    ensures
        post.lookup(a, name) == Some(value),
        post.lookup(b, name) == Some(value),
{
    lemma_assignment_updates_lookup(pre, post, a, target, name, value);
    lemma_assignment_updates_lookup(pre, post, b, target, name, value);
}

} // verus!
